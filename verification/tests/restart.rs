use mra::config::RestartPolicy;
use mra::supervisor::config::{ChildRestart, RestartIntensity, Strategy, SupervisorConfig};
use mra::supervisor::restart_manager::{RestartDecision, RestartManager};
use mra::supervisor::tracker::{IntensityTracker, RestartTracker};
use mra::supervisor::ChildExit;
use mra::time::{Duration, Instant};

fn start() -> Instant {
    Instant { nanos: 5_000_000_000 }
}

fn millis_later(millis: u64) -> Instant {
    start().after(Duration::from_millis(millis))
}

fn secs_later(secs: u64) -> Instant {
    start().after(Duration::from_secs(secs))
}

fn test_config(strategy: Strategy) -> SupervisorConfig {
    SupervisorConfig::builder()
        .strategy(strategy)
        .intensity(RestartIntensity {
            max_restarts: 3,
            window: Duration::from_secs(60),
        })
        .build()
}

fn test_restart_policy() -> RestartPolicy {
    RestartPolicy {
        max_restarts: 2,
        window: Duration::from_secs(60),
        backoff_base: Duration::from_millis(100),
        backoff_max: Duration::from_secs(1),
    }
}

#[test]
fn decide_no_restart_for_temporary() {
    let config = test_config(Strategy::OneForOne);
    let mut mgr = RestartManager::new(&config);
    mgr.register("temp", ChildRestart::Temporary, &test_restart_policy());

    let decision = mgr.decide(
        "temp",
        &ChildExit::Failed("err".into()),
        false,
        start(),
    );
    assert!(matches!(decision, RestartDecision::NoRestart));
}

#[test]
fn decide_no_restart_for_transient_normal_exit() {
    let config = test_config(Strategy::OneForOne);
    let mut mgr = RestartManager::new(&config);
    mgr.register("trans", ChildRestart::Transient, &test_restart_policy());

    let decision = mgr.decide("trans", &ChildExit::Normal, false, start());
    assert!(matches!(decision, RestartDecision::NoRestart));
}

#[test]
fn decide_restart_for_transient_failure() {
    let config = test_config(Strategy::OneForOne);
    let mut mgr = RestartManager::new(&config);
    mgr.register("trans", ChildRestart::Transient, &test_restart_policy());

    let decision = mgr.decide(
        "trans",
        &ChildExit::Failed("err".into()),
        false,
        start(),
    );
    assert!(matches!(decision, RestartDecision::RestartAfter { .. }));
}

#[test]
fn decide_restart_for_permanent_normal_exit() {
    let config = test_config(Strategy::OneForOne);
    let mut mgr = RestartManager::new(&config);
    mgr.register("perm", ChildRestart::Permanent, &test_restart_policy());

    let decision = mgr.decide("perm", &ChildExit::Normal, false, start());
    assert!(matches!(decision, RestartDecision::RestartAfter { .. }));
}

#[test]
fn decide_hung_child_treated_as_failure() {
    let config = test_config(Strategy::OneForOne);
    let mut mgr = RestartManager::new(&config);
    mgr.register("trans", ChildRestart::Transient, &test_restart_policy());

    // Shutdown exit is normally not a failure, but hung=true overrides
    let decision = mgr.decide("trans", &ChildExit::Shutdown, true, start());
    assert!(matches!(decision, RestartDecision::RestartAfter { .. }));
}

#[test]
fn decide_child_limit_exceeded() {
    let config = test_config(Strategy::OneForOne);
    let mut mgr = RestartManager::new(&config);
    let policy = RestartPolicy {
        max_restarts: 1,
        window: Duration::from_secs(60),
        backoff_base: Duration::from_millis(10),
        backoff_max: Duration::from_millis(100),
    };
    mgr.register("child", ChildRestart::Permanent, &policy);

    let now = start();
    // First restart
    let d1 = mgr.decide("child", &ChildExit::Failed("".into()), false, now);
    assert!(matches!(d1, RestartDecision::RestartAfter { .. }));

    // Second restart - should exceed
    let d2 = mgr.decide(
        "child",
        &ChildExit::Failed("".into()),
        false,
        millis_later(1),
    );
    assert!(matches!(d2, RestartDecision::ChildLimitExceeded { .. }));
}

#[test]
fn decide_intensity_exceeded() {
    let config = SupervisorConfig::builder()
        .strategy(Strategy::OneForOne)
        .intensity(RestartIntensity {
            max_restarts: 1,
            window: Duration::from_secs(60),
        })
        .build();
    let mut mgr = RestartManager::new(&config);
    let policy = RestartPolicy {
        max_restarts: 10,
        window: Duration::from_secs(60),
        backoff_base: Duration::from_millis(10),
        backoff_max: Duration::from_millis(100),
    };
    mgr.register("a", ChildRestart::Permanent, &policy);
    mgr.register("b", ChildRestart::Permanent, &policy);

    let now = start();
    let d1 = mgr.decide("a", &ChildExit::Failed("".into()), false, now);
    assert!(matches!(d1, RestartDecision::RestartAfter { .. }));

    let d2 = mgr.decide(
        "b",
        &ChildExit::Failed("".into()),
        false,
        millis_later(1),
    );
    assert!(matches!(d2, RestartDecision::IntensityExceeded { .. }));
}

#[test]
fn decide_one_for_all_returns_restart_all() {
    let config = test_config(Strategy::OneForAll);
    let mut mgr = RestartManager::new(&config);
    mgr.register("child", ChildRestart::Permanent, &test_restart_policy());

    let decision = mgr.decide(
        "child",
        &ChildExit::Failed("".into()),
        false,
        start(),
    );
    assert!(matches!(decision, RestartDecision::RestartAll));
}

#[test]
fn decide_unknown_child_returns_no_restart() {
    let config = test_config(Strategy::OneForOne);
    let mut mgr = RestartManager::new(&config);

    let decision = mgr.decide(
        "unknown",
        &ChildExit::Failed("".into()),
        false,
        start(),
    );
    assert!(matches!(decision, RestartDecision::NoRestart));
}

#[test]
fn backoff_delay_increases_exponentially() {
    let config = test_config(Strategy::OneForOne);
    let mut mgr = RestartManager::new(&config);
    let policy = RestartPolicy {
        max_restarts: 10,
        window: Duration::from_secs(60),
        backoff_base: Duration::from_millis(100),
        backoff_max: Duration::from_secs(10),
    };
    mgr.register("child", ChildRestart::Permanent, &policy);

    let now = start();

    if let RestartDecision::RestartAfter { delay } =
        mgr.decide("child", &ChildExit::Failed("".into()), false, now)
    {
        assert_eq!(delay, Duration::from_millis(100));
    } else {
        panic!("expected RestartAfter");
    }

    if let RestartDecision::RestartAfter { delay } = mgr.decide(
        "child",
        &ChildExit::Failed("".into()),
        false,
        millis_later(1),
    ) {
        assert_eq!(delay, Duration::from_millis(200));
    } else {
        panic!("expected RestartAfter");
    }

    if let RestartDecision::RestartAfter { delay } = mgr.decide(
        "child",
        &ChildExit::Failed("".into()),
        false,
        millis_later(2),
    ) {
        assert_eq!(delay, Duration::from_millis(400));
    } else {
        panic!("expected RestartAfter");
    }
}

#[test]
fn record_all_tracks_intensity_and_returns_false_when_exceeded() {
    // Supervisor-wide intensity: max 2 restarts in 60s
    let config = SupervisorConfig::builder()
        .strategy(Strategy::OneForAll)
        .intensity(RestartIntensity {
            max_restarts: 2,
            window: Duration::from_secs(60),
        })
        .build();
    let mut mgr = RestartManager::new(&config);
    let policy = test_restart_policy();

    mgr.register("a", ChildRestart::Permanent, &policy);
    mgr.register("b", ChildRestart::Permanent, &policy);
    mgr.register("temp", ChildRestart::Temporary, &policy);

    let now = start();

    // First cascade - should succeed
    assert!(mgr.record_all(now));
    assert_eq!(mgr.intensity_total_restarts(), 1);

    // Second cascade - should succeed
    assert!(mgr.record_all(millis_later(1)));
    assert_eq!(mgr.intensity_total_restarts(), 2);

    // Third cascade - should fail (exceeded)
    assert!(!mgr.record_all(millis_later(2)));
    assert_eq!(mgr.intensity_total_restarts(), 3);
}

#[test]
fn decide_no_restart_for_budget_exceeded_permanent() {
    let config = test_config(Strategy::OneForOne);
    let mut mgr = RestartManager::new(&config);
    mgr.register("perm", ChildRestart::Permanent, &test_restart_policy());

    let decision = mgr.decide("perm", &ChildExit::BudgetExceeded, false, start());
    assert!(matches!(decision, RestartDecision::NoRestart));
}

#[test]
fn decide_no_restart_for_budget_exceeded_transient() {
    let config = test_config(Strategy::OneForOne);
    let mut mgr = RestartManager::new(&config);
    mgr.register("trans", ChildRestart::Transient, &test_restart_policy());

    let decision = mgr.decide("trans", &ChildExit::BudgetExceeded, false, start());
    assert!(matches!(decision, RestartDecision::NoRestart));
}

#[test]
fn decide_no_restart_for_budget_exceeded_temporary() {
    let config = test_config(Strategy::OneForOne);
    let mut mgr = RestartManager::new(&config);
    mgr.register("temp", ChildRestart::Temporary, &test_restart_policy());

    let decision = mgr.decide("temp", &ChildExit::BudgetExceeded, false, start());
    assert!(matches!(decision, RestartDecision::NoRestart));
}

#[test]
fn decide_budget_exceeded_does_not_increment_counters() {
    let config = SupervisorConfig::builder()
        .strategy(Strategy::OneForOne)
        .intensity(RestartIntensity {
            max_restarts: 1,
            window: Duration::from_secs(60),
        })
        .build();
    let mut mgr = RestartManager::new(&config);
    let policy = RestartPolicy {
        max_restarts: 1,
        window: Duration::from_secs(60),
        backoff_base: Duration::from_millis(10),
        backoff_max: Duration::from_millis(100),
    };
    mgr.register("child", ChildRestart::Permanent, &policy);

    let now = start();

    // BudgetExceeded should NOT consume restart quota
    mgr.decide("child", &ChildExit::BudgetExceeded, false, now);
    mgr.decide(
        "child",
        &ChildExit::BudgetExceeded,
        false,
        millis_later(1),
    );

    // A real failure should still be allowed (limit is 1)
    let decision = mgr.decide(
        "child",
        &ChildExit::Failed("err".into()),
        false,
        millis_later(2),
    );
    assert!(
        matches!(decision, RestartDecision::RestartAfter { .. }),
        "budget exits should not have consumed the restart quota"
    );

    // Now a second real failure should exceed the limit
    let decision2 = mgr.decide(
        "child",
        &ChildExit::Failed("err".into()),
        false,
        millis_later(3),
    );
    assert!(matches!(
        decision2,
        RestartDecision::ChildLimitExceeded { .. }
    ));
}

#[test]
fn record_all_does_not_count_temporary_children() {
    let config = test_config(Strategy::OneForAll);
    let mut mgr = RestartManager::new(&config);
    let policy = test_restart_policy();

    mgr.register("perm", ChildRestart::Permanent, &policy);
    mgr.register("temp", ChildRestart::Temporary, &policy);

    let now = start();
    let base_delay = mgr.backoff_delay("perm"); // base delay before any restarts

    // Two restarts to see backoff increase (first restart = 2^0 = base, second = 2^1 = 2*base)
    mgr.record_all(now);
    mgr.record_all(millis_later(1));

    // Permanent child's tracker was updated - backoff doubled (2 restarts = 2^1 * base)
    let delay_perm = mgr.backoff_delay("perm");
    assert_eq!(
        delay_perm,
        Duration { nanos: base_delay.nanos * 2 },
        "Permanent child backoff should double"
    );

    // Temporary child's tracker was NOT updated - backoff stays at base
    let delay_temp = mgr.backoff_delay("temp");
    assert_eq!(
        delay_temp, base_delay,
        "Temporary child backoff should not change"
    );
}

fn default_policy() -> RestartPolicy {
    RestartPolicy {
        max_restarts: 3,
        window: Duration::from_secs(60),
        backoff_base: Duration::from_secs(1),
        backoff_max: Duration::from_secs(16),
    }
}

#[test]
fn tracker_not_exceeded_within_limit() {
    let mut tracker = RestartTracker::new(&default_policy());
    let now = start();
    for i in 0..3 {
        tracker.record(secs_later(i));
    }
    assert!(!tracker.exceeded());
}

#[test]
fn tracker_exceeded_over_limit() {
    let mut tracker = RestartTracker::new(&default_policy());
    let now = start();
    for i in 0..4 {
        tracker.record(secs_later(i));
    }
    assert!(tracker.exceeded());
}

#[test]
fn tracker_evicts_old_timestamps_outside_window() {
    let policy = RestartPolicy {
        max_restarts: 3,
        window: Duration::from_secs(10),
        backoff_base: Duration::from_secs(1),
        backoff_max: Duration::from_secs(16),
    };
    let mut tracker = RestartTracker::new(&policy);
    let now = start();
    // Record 3 restarts at t=0,1,2
    for i in 0..3 {
        tracker.record(secs_later(i));
    }
    // Record 1 more at t=15 (outside 10s window, old ones evicted)
    tracker.record(secs_later(15));
    assert!(!tracker.exceeded());
}

#[test]
fn tracker_backoff_exponential() {
    let mut tracker = RestartTracker::new(&default_policy());
    let now = start();

    tracker.record(now);
    // len=1, n=0 -> 1 * 2^0 = 1s
    assert_eq!(tracker.backoff_delay(), Duration::from_secs(1));

    tracker.record(secs_later(1));
    // len=2, n=1 -> 1 * 2^1 = 2s
    assert_eq!(tracker.backoff_delay(), Duration::from_secs(2));

    tracker.record(secs_later(2));
    // len=3, n=2 -> 1 * 2^2 = 4s
    assert_eq!(tracker.backoff_delay(), Duration::from_secs(4));
}

#[test]
fn tracker_backoff_capped_at_max() {
    let policy = RestartPolicy {
        max_restarts: 10,
        window: Duration::from_secs(60),
        backoff_base: Duration::from_secs(1),
        backoff_max: Duration::from_secs(16),
    };
    let mut tracker = RestartTracker::new(&policy);
    let now = start();
    // Record enough to make 2^n exceed 16
    for i in 0..6 {
        tracker.record(secs_later(i));
    }
    // len=6, n=5 -> 1 * 2^5 = 32, capped to 16
    assert_eq!(tracker.backoff_delay(), Duration::from_secs(16));
}

#[test]
fn tracker_total_restarts_counts_all() {
    let policy = RestartPolicy {
        max_restarts: 3,
        window: Duration::from_secs(10),
        backoff_base: Duration::from_secs(1),
        backoff_max: Duration::from_secs(16),
    };
    let mut tracker = RestartTracker::new(&policy);
    let now = start();
    // Record 3 early, then 2 late (early ones evicted from window)
    for i in 0..3 {
        tracker.record(secs_later(i));
    }
    for i in 0..2 {
        tracker.record(secs_later(20 + i));
    }
    // total_restarts counts all 5, even though window only has 2
    assert_eq!(tracker.total_restarts(), 5);
}

#[test]
fn intensity_tracker_exceeded() {
    let intensity = RestartIntensity {
        max_restarts: 2,
        window: Duration::from_secs(60),
    };
    let mut tracker = IntensityTracker::new(intensity);
    let now = start();
    tracker.record(now);
    tracker.record(secs_later(1));
    assert!(!tracker.exceeded());
    tracker.record(secs_later(2));
    assert!(tracker.exceeded());
}

#[test]
fn restarts_at_the_edge_of_the_window_still_count() {
    let policy = RestartPolicy {
        max_restarts: 1,
        window: Duration::from_secs(10),
        backoff_base: Duration::from_secs(1),
        backoff_max: Duration::from_secs(16),
    };
    let mut tracker = RestartTracker::new(&policy);
    tracker.record(secs_later(0));
    tracker.record(secs_later(10));
    assert!(tracker.exceeded());

    let mut tracker = RestartTracker::new(&policy);
    tracker.record(secs_later(0));
    tracker.record(secs_later(11));
    assert!(!tracker.exceeded());
}

#[test]
fn backoff_stays_at_its_cap_for_many_restarts() {
    let policy = RestartPolicy {
        max_restarts: 1000,
        window: Duration::from_secs(6000),
        backoff_base: Duration::from_secs(1),
        backoff_max: Duration::from_secs(30),
    };
    let mut tracker = RestartTracker::new(&policy);
    for i in 0..200 {
        tracker.record(secs_later(i));
    }
    assert_eq!(tracker.backoff_delay(), Duration::from_secs(30));
}

#[test]
fn decisions_do_not_touch_siblings() {
    let mut mgr = RestartManager::new(&test_config(Strategy::OneForOne));
    mgr.register("a", ChildRestart::Permanent, &test_restart_policy());
    mgr.register("b", ChildRestart::Permanent, &test_restart_policy());
    mgr.decide("a", &ChildExit::Failed("x".into()), false, start());
    assert_eq!(mgr.child_restart_count("a"), 1);
    assert_eq!(mgr.child_restart_count("b"), 0);
    assert_eq!(mgr.child_restart_count("nobody"), 0);
    assert_eq!(mgr.intensity_total_restarts(), 1);
    assert!(mgr.has_room());
}
