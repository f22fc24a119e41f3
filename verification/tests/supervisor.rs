use mra::agent::runner::ProgressState;
use mra::budget::BudgetTracker;
use mra::config::{AgentConfig, RestartPolicy};
use mra::error::SupervisorError;
use mra::ids::AgentId;
use mra::supervisor::child::ChildSpec;
use mra::supervisor::config::{
    ChildRestart, RestartIntensity, ShutdownPolicy, Strategy, SupervisorConfig,
};
use mra::supervisor::event::SupervisorEvent;
use mra::supervisor::runner::{
    check_global_budget, give_up, restart_failed, start_failed, ExitStep, SupervisorRunner,
};
use mra::supervisor::ChildExit;
use mra::time::{Duration, Instant};

#[test]
fn child_exit_normal_is_not_failure() {
    assert!(!ChildExit::Normal.is_failure());
}

#[test]
fn child_exit_shutdown_is_not_failure() {
    assert!(!ChildExit::Shutdown.is_failure());
}

#[test]
fn child_exit_failed_is_failure() {
    assert!(ChildExit::Failed("boom".into()).is_failure());
}

#[test]
fn child_exit_budget_exceeded_is_not_failure() {
    assert!(!ChildExit::BudgetExceeded.is_failure());
}

#[test]
fn supervisor_config_defaults() {
    let config = SupervisorConfig::default();
    assert!(matches!(config.strategy, Strategy::OneForOne));
    assert_eq!(config.hang_check_interval, Duration::from_secs(1));
}

#[test]
fn child_restart_transient_is_default() {
    let r = ChildRestart::default();
    assert!(matches!(r, ChildRestart::Transient));
}

#[test]
fn child_restart_should_restart_logic() {
    assert!(ChildRestart::Permanent.should_restart(false));
    assert!(ChildRestart::Permanent.should_restart(true));
    assert!(!ChildRestart::Transient.should_restart(false));
    assert!(ChildRestart::Transient.should_restart(true));
    assert!(!ChildRestart::Temporary.should_restart(false));
    assert!(!ChildRestart::Temporary.should_restart(true));
}

#[test]
fn restart_intensity_default() {
    let ri = RestartIntensity::default();
    assert_eq!(ri.max_restarts, 10);
    assert_eq!(ri.window, Duration::from_secs(60));
}

#[test]
fn child_spec_with_defaults() {
    let spec = ChildSpec::from_config(AgentConfig::new("test"));

    assert_eq!(spec.name, "test");
    assert!(matches!(spec.restart, ChildRestart::Transient));
    assert!(spec.hang_timeout.is_none());
}

#[test]
fn child_spec_builder_methods() {
    let spec = ChildSpec::from_config(AgentConfig::new("worker"))
        .with_restart(ChildRestart::Permanent)
        .with_shutdown_policy(ShutdownPolicy {
            grace: Duration::from_secs(10),
        })
        .with_hang_timeout(Duration::from_secs(30));

    assert_eq!(spec.name, "worker");
    assert!(matches!(spec.restart, ChildRestart::Permanent));
    assert_eq!(spec.shutdown_policy.grace, Duration::from_secs(10));
    assert_eq!(spec.hang_timeout, Some(Duration::from_secs(30)));
}

// --- the runner ---

fn start() -> Instant {
    Instant { nanos: 1_000_000_000_000 }
}

fn millis_later(millis: u64) -> Instant {
    start().after(Duration::from_millis(millis))
}

fn idle() -> ProgressState {
    ProgressState::idle(start())
}

fn spec(name: &str, restart: ChildRestart) -> ChildSpec {
    let policy = RestartPolicy {
        max_restarts: 5,
        window: Duration::from_secs(60),
        backoff_base: Duration::from_millis(10),
        backoff_max: Duration::from_millis(100),
    };
    ChildSpec::from_config(AgentConfig::new(name).with_restart_policy(policy)).with_restart(restart)
}

fn echo_spec(name: &str) -> ChildSpec {
    ChildSpec::from_config(AgentConfig::new(name))
}

/// A runner with children that run as tasks 0, 1, 2 and so on.
fn running(strategy: Strategy, specs: Vec<ChildSpec>) -> SupervisorRunner {
    let config = SupervisorConfig::builder().strategy(strategy).build();
    let mut runner = SupervisorRunner::new(&config);
    for (task, spec) in specs.into_iter().enumerate() {
        let order = runner.start_child(spec, None);
        assert_eq!(order.generation, 0);
        let event = runner.child_started(&order.name, order.id, task as u64, idle());
        assert!(matches!(event, SupervisorEvent::ChildStarted { generation: 0, .. }));
    }
    runner
}

fn alive(runner: &SupervisorRunner, name: &str) -> bool {
    runner.list_children().into_iter().any(|c| c.name == name && c.alive)
}

#[test]
fn test_supervisor_child_lookup() {
    let runner = running(Strategy::OneForOne, vec![echo_spec("worker")]);
    assert!(runner.child("worker").is_some());
    assert!(runner.child("nonexistent").is_none());
}

#[test]
fn test_supervisor_stop_child() {
    let mut runner = running(Strategy::OneForOne, vec![echo_spec("echo")]);
    assert!(runner.stop_child("echo").unwrap());

    // The child exits after the cancel.
    let (events, step) = runner.handle_child_exit(0, ChildExit::Shutdown, None, start());
    assert_eq!(events.len(), 1);
    assert!(matches!(
        &events[0],
        SupervisorEvent::ChildExited { exit: ChildExit::Shutdown, .. }
    ));
    assert!(matches!(step, ExitStep::Continue));

    // The child exists but is dead, and it stays so.
    assert!(runner.child("echo").is_some());
    assert!(!alive(&runner, "echo"));
    assert!(runner.next_pending_restart().is_none());
    assert_eq!(runner.list_children()[0].restart_count, 0);
}

#[test]
fn only_a_permanent_child_comes_back_from_a_stop() {
    let mut runner = running(
        Strategy::OneForOne,
        vec![spec("kept", ChildRestart::Permanent), spec("once", ChildRestart::Temporary)],
    );
    assert!(runner.stop_child("kept").unwrap());
    assert!(runner.stop_child("once").unwrap());
    assert!(!runner.stop_child("once").unwrap());
    runner.handle_child_exit(1, ChildExit::Shutdown, None, start());
    assert!(runner.next_pending_restart().is_none());
    runner.handle_child_exit(0, ChildExit::Shutdown, None, start());
    assert_eq!(runner.next_pending_restart(), Some(millis_later(10)));
}

#[test]
fn stop_of_an_unknown_child_is_refused() {
    let mut runner = running(Strategy::OneForOne, vec![echo_spec("echo")]);
    assert!(matches!(
        runner.stop_child("nonexistent"),
        Err(SupervisorError::ChildNotFound(name)) if name == "nonexistent"
    ));
    assert!(alive(&runner, "echo"));
}

#[test]
fn test_supervisor_emits_events() {
    let mut runner = SupervisorRunner::new(&SupervisorConfig::default());
    let ev = runner.begin();
    assert!(matches!(ev, SupervisorEvent::SupervisorStarted));

    let order = runner.start_child(echo_spec("echo"), None);
    let ev = runner.child_started(&order.name, order.id, 0, idle());
    assert!(matches!(ev, SupervisorEvent::ChildStarted { .. }));
}

#[test]
fn exits_and_the_end_are_reported() {
    let mut runner = running(Strategy::OneForOne, vec![echo_spec("echo")]);
    let (events, step) = runner.handle_child_exit(0, ChildExit::Normal, None, start());
    assert_eq!(events.len(), 1);
    match &events[0] {
        SupervisorEvent::ChildExited { name, generation, exit } => {
            assert_eq!(name, "echo");
            assert_eq!(*generation, 0);
            assert!(matches!(exit, ChildExit::Normal));
        }
        other => panic!("expected ChildExited, got: {other:?}"),
    }
    assert!(matches!(step, ExitStep::Continue));
    let (event, cancelled) = runner.begin_drain();
    assert!(matches!(event, SupervisorEvent::SupervisorStopping));
    assert!(cancelled.is_empty());
}

#[test]
fn test_supervisor_restarts_crashed_transient_child() {
    let mut runner =
        running(Strategy::OneForOne, vec![spec("crasher", ChildRestart::Transient)]);
    let id = runner.child("crasher").unwrap().id;
    let mut starts = 1;

    // gen 0: crash, gen 1: crash, gen 2: ok
    for (generation, (crash, due)) in [(0, 10), (20, 40)].into_iter().enumerate() {
        assert!(runner.has_room(millis_later(crash)));
        let task = generation as u64;
        runner.handle_child_exit(
            task,
            ChildExit::Failed("crash".into()),
            None,
            millis_later(crash),
        );
        assert!(!alive(&runner, "crasher"));
        assert_eq!(runner.next_pending_restart(), Some(millis_later(due)));
        assert!(runner.pop_ready_restart(millis_later(due - 1)).is_none());
        let pending = runner.pop_ready_restart(millis_later(due)).unwrap();
        let order = runner.plan_pending_restart(&pending).unwrap();
        assert_eq!(order.id, id);
        assert_eq!(order.generation, task + 1);
        match runner.child_restarted("crasher", task + 1, idle(), true) {
            SupervisorEvent::ChildRestarted { name, old_gen, new_gen, delay } => {
                assert_eq!(name, "crasher");
                assert_eq!((old_gen, new_gen), (task, task + 1));
                assert_eq!(delay, Duration::from_millis(due - crash));
            }
            other => panic!("expected ChildRestarted, got: {other:?}"),
        }
        starts += 1;
    }
    assert_eq!(starts, 3);
    assert!(alive(&runner, "crasher"));
    assert_eq!(runner.child("crasher").unwrap().id, id);
    assert!(runner.next_pending_restart().is_none());
    assert_eq!(runner.list_children()[0].restart_count, 2);
}

#[test]
fn test_supervisor_temporary_child_not_restarted() {
    let temp = echo_spec("temp").with_restart(ChildRestart::Temporary);
    let mut runner = running(Strategy::OneForOne, vec![temp]);
    let (_, step) =
        runner.handle_child_exit(0, ChildExit::Failed("crash".into()), None, start());
    assert!(matches!(step, ExitStep::Continue));
    assert!(runner.next_pending_restart().is_none());
    assert!(!alive(&runner, "temp"));
}

#[test]
fn test_supervisor_transient_child_not_restarted_on_normal_exit() {
    let mut runner = running(Strategy::OneForOne, vec![echo_spec("normal-exit")]);
    runner.handle_child_exit(0, ChildExit::Normal, None, start());
    assert!(runner.next_pending_restart().is_none());
    assert!(!alive(&runner, "normal-exit"));
}

#[test]
fn test_supervisor_one_for_all_restarts_all_children() {
    let mut runner = running(Strategy::OneForAll, vec![echo_spec("a"), echo_spec("b")]);
    let trigger = match runner.handle_child_exit(
        1,
        ChildExit::Failed("crash".into()),
        None,
        start(),
    ) {
        (_, ExitStep::RestartAll { trigger }) => trigger,
        other => panic!("expected RestartAll, got: {other:?}"),
    };
    assert_eq!(trigger, "b");
    assert_eq!(runner.cancel_siblings(&trigger), ["a"]);
    runner.drain_exit(0, ChildExit::Shutdown);
    runner.drained();
    let names = runner.begin_cascade(start()).unwrap();
    assert_eq!(names, ["a", "b"]);
    for (i, name) in names.iter().enumerate() {
        let order = runner.plan_cascade_restart(name).unwrap();
        assert_eq!(order.generation, 1);
        let event = runner.child_restarted(name, 10 + i as u64, idle(), false);
        assert!(matches!(event, SupervisorEvent::ChildRestarted { new_gen: 1, .. }));
    }
    assert!(alive(&runner, "a"));
    assert!(alive(&runner, "b"));
}

#[test]
fn cascade_spares_temporary_children() {
    let mut runner = running(
        Strategy::OneForAll,
        vec![
            spec("a", ChildRestart::Permanent),
            spec("temp", ChildRestart::Temporary),
        ],
    );
    runner.handle_child_exit(0, ChildExit::Failed("crash".into()), None, start());
    assert_eq!(runner.cancel_siblings("a"), ["temp"]);
    runner.drain_exit(1, ChildExit::Shutdown);
    runner.drained();
    assert_eq!(runner.begin_cascade(start()).unwrap(), ["a"]);
    assert!(!alive(&runner, "temp"));
}

#[test]
fn test_supervisor_detects_hung_agent() {
    let hanger = spec("hanger", ChildRestart::Transient)
        .with_hang_timeout(Duration::from_millis(100));
    let mut runner = running(Strategy::OneForOne, vec![hanger]);
    runner.observe("hanger", ProgressState::working(start()));
    assert!(runner.check_hangs(millis_later(100)).is_empty());
    let reports = runner.check_hangs(millis_later(101));
    assert_eq!(reports.len(), 1);
    assert!(reports[0].cancel);
    match &reports[0].event {
        SupervisorEvent::HangDetected { name, generation, elapsed } => {
            assert_eq!(name, "hanger");
            assert_eq!(*generation, 0);
            assert_eq!(*elapsed, Duration::from_millis(101));
        }
        other => panic!("expected HangDetected, got: {other:?}"),
    }
    // It is reported until it is gone, and cancelled once.
    let reports = runner.check_hangs(millis_later(150));
    assert_eq!(reports.len(), 1);
    assert!(!reports[0].cancel);
    // A cancelled child exits by shutdown; it is restarted because it hung.
    runner.handle_child_exit(0, ChildExit::Shutdown, None, millis_later(160));
    assert_eq!(runner.next_pending_restart(), Some(millis_later(170)));
    let pending = runner.pop_ready_restart(millis_later(170)).unwrap();
    assert_eq!(runner.plan_pending_restart(&pending).unwrap().generation, 1);
    let event = runner.child_restarted("hanger", 1, idle(), true);
    assert!(matches!(event, SupervisorEvent::ChildRestarted { .. }));
}

#[test]
fn test_budget_exceeded_agent_not_restarted_and_event_emitted() {
    let agent = spec("budget-agent", ChildRestart::Permanent);
    let mut runner = running(Strategy::OneForOne, vec![agent]);
    let (events, step) = runner.handle_child_exit(0, ChildExit::BudgetExceeded, None, start());
    assert!(matches!(step, ExitStep::Continue));
    assert!(events.iter().any(|e| matches!(
        e,
        SupervisorEvent::ChildExited { name, exit: ChildExit::BudgetExceeded, .. }
            if name == "budget-agent"
    )));
    assert!(events.iter().any(|e| matches!(
        e,
        SupervisorEvent::BudgetExceeded { name, .. } if name == "budget-agent"
    )));
    assert!(runner.next_pending_restart().is_none());
}

#[test]
fn budget_event_tells_the_figures() {
    let mut budget = BudgetTracker::builder().build_unconnected();
    let mut runner = SupervisorRunner::new(&SupervisorConfig::default());
    let order = runner.start_child(
        spec("spender", ChildRestart::Permanent).with_token_budget(100),
        Some(&mut budget),
    );
    runner.child_started("spender", order.id, 0, idle());
    assert!(budget.charge("spender", 150).is_err());
    let (events, _) =
        runner.handle_child_exit(0, ChildExit::BudgetExceeded, Some(&budget), start());
    assert!(events.iter().any(|e| matches!(
        e,
        SupervisorEvent::BudgetExceeded { name, used: 150, limit: 100 } if name == "spender"
    )));
}

#[test]
fn test_budget_exceeded_sibling_continues() {
    let budget_spec = echo_spec("budget-agent").with_restart(ChildRestart::Permanent);
    let mut runner = running(Strategy::OneForOne, vec![echo_spec("sibling"), budget_spec]);
    runner.handle_child_exit(1, ChildExit::BudgetExceeded, None, start());
    assert!(!alive(&runner, "budget-agent"));
    assert!(alive(&runner, "sibling"));
}

#[test]
fn test_global_budget_exceeded_shuts_down_supervisor() {
    // Create a budget that's already exceeded
    let mut budget = BudgetTracker::builder().global_limit(10).build_unconnected();
    budget.charge_global(100).unwrap_err(); // Trip the budget

    let mut runner = running(Strategy::OneForOne, vec![echo_spec("worker")]);
    let (_, event) = runner.tick(start(), Some(&budget));
    match event {
        Some(SupervisorEvent::BudgetExceeded { name, used, limit }) => {
            assert_eq!(name, "__global__");
            assert_eq!((used, limit), (100, 10));
        }
        other => panic!("expected BudgetExceeded, got: {other:?}"),
    }
    let (event, cancelled) = runner.begin_drain();
    assert!(matches!(event, SupervisorEvent::SupervisorStopping));
    assert_eq!(cancelled, ["worker"]);
}

#[test]
fn untripped_budget_does_not_stop_the_supervisor() {
    let budget = BudgetTracker::builder().global_limit(10).build_unconnected();
    let mut runner = running(Strategy::OneForOne, vec![echo_spec("worker")]);
    assert!(runner.tick(start(), Some(&budget)).1.is_none());
    assert!(runner.tick(start(), None).1.is_none());
    assert!(check_global_budget(Some(&budget)).is_none());
}

#[test]
fn restart_limit_of_a_child_ends_its_restarts() {
    let policy = RestartPolicy {
        max_restarts: 1,
        window: Duration::from_secs(60),
        backoff_base: Duration::from_millis(10),
        backoff_max: Duration::from_millis(100),
    };
    let limited = ChildSpec::from_config(AgentConfig::new("a").with_restart_policy(policy))
        .with_restart(ChildRestart::Permanent);
    let mut runner = running(Strategy::OneForOne, vec![limited]);
    runner.handle_child_exit(0, ChildExit::Failed("x".into()), None, start());
    let pending = runner.pop_ready_restart(millis_later(10)).unwrap();
    runner.plan_pending_restart(&pending).unwrap();
    runner.child_restarted("a", 1, idle(), true);
    let (events, step) =
        runner.handle_child_exit(1, ChildExit::Failed("x".into()), None, millis_later(20));
    assert!(matches!(step, ExitStep::Continue));
    assert!(events.iter().any(|e| matches!(
        e,
        SupervisorEvent::ChildRestartLimitExceeded { restarts: 2, .. }
    )));
    assert!(runner.next_pending_restart().is_none());
}

#[test]
fn too_many_restarts_make_the_supervisor_give_up() {
    let config = SupervisorConfig::builder()
        .intensity(RestartIntensity { max_restarts: 0, window: Duration::from_secs(60) })
        .build();
    let mut runner = SupervisorRunner::new(&config);
    let order = runner.start_child(spec("a", ChildRestart::Permanent), None);
    runner.child_started("a", order.id, 0, idle());
    let (events, step) =
        runner.handle_child_exit(0, ChildExit::Failed("x".into()), None, start());
    assert!(matches!(step, ExitStep::GiveUp { total_restarts: 1 }));
    assert!(events.iter().any(|e| matches!(
        e,
        SupervisorEvent::RestartIntensityExceeded { total_restarts: 1 }
    )));
}

#[test]
fn giving_up_is_told_by_an_event_and_an_error() {
    let (event, error) = give_up(11);
    assert!(matches!(event, SupervisorEvent::RestartIntensityExceeded { total_restarts: 11 }));
    assert!(matches!(error, SupervisorError::RestartIntensityExceeded { total_restarts: 11 }));
}

#[test]
fn peers_are_the_living_siblings() {
    let mut runner = running(
        Strategy::OneForOne,
        vec![spec("a", ChildRestart::Temporary), spec("b", ChildRestart::Permanent)],
    );
    runner.handle_child_exit(0, ChildExit::Normal, None, start());
    let order = runner.start_child(spec("c", ChildRestart::Permanent), None);
    let names: Vec<&str> = order.peers.iter().map(|p| p.name.as_str()).collect();
    assert_eq!(names, ["b"]);
}

#[test]
fn exit_of_an_unknown_task_changes_nothing() {
    let mut runner = running(Strategy::OneForOne, vec![spec("a", ChildRestart::Permanent)]);
    let (events, step) =
        runner.handle_child_exit(99, ChildExit::Failed("x".into()), None, start());
    assert!(events.is_empty());
    assert!(matches!(step, ExitStep::Continue));
    assert!(alive(&runner, "a"));
}

#[test]
fn nothing_is_restarted_while_shutting_down() {
    let mut runner = running(Strategy::OneForOne, vec![spec("a", ChildRestart::Permanent)]);
    runner.cancel();
    let (events, step) =
        runner.handle_child_exit(0, ChildExit::Failed("x".into()), None, start());
    assert_eq!(events.len(), 1);
    assert!(matches!(step, ExitStep::Continue));
    assert!(runner.next_pending_restart().is_none());
}

#[test]
fn failed_starts_are_reported() {
    let error = SupervisorError::SpawnFailed("no room".into());
    assert!(start_failed(&error).to_string().contains("no room"));
    match restart_failed("a", &error) {
        SupervisorEvent::ChildSpawnFailed { name, error } => {
            assert_eq!(name, "a");
            assert!(error.contains("no room"));
        }
        other => panic!("expected ChildSpawnFailed, got: {other:?}"),
    }
}

#[test]
fn ids_of_children_differ() {
    let runner = running(
        Strategy::OneForOne,
        vec![spec("a", ChildRestart::Permanent), spec("b", ChildRestart::Permanent)],
    );
    let a: AgentId = runner.child("a").unwrap().id;
    let b: AgentId = runner.child("b").unwrap().id;
    assert_ne!(a, b);
}
