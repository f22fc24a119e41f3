use mra::agent::runner::ProgressState;
use mra::error::SupervisorError;
use mra::ids::AgentId;
use mra::supervisor::lifecycle::{normalize_exit, ChildLifecycle};
use mra::supervisor::ChildExit;
use mra::time::Instant;

fn idle() -> ProgressState {
    ProgressState::idle(Instant { nanos: 7 })
}

#[test]
fn start_returns_working_handle() {
    let mut lifecycle = ChildLifecycle::new();
    assert!(lifecycle.is_empty());
    let id = AgentId::new();
    lifecycle.record_start("test-child", id, 0, idle());
    assert_eq!(lifecycle.get_handle("test-child").unwrap().id, id);

    // Child should be tracked as alive
    let child = lifecycle.get("test-child").unwrap();
    assert!(child.alive);
    assert_eq!(child.generation, 0);
    assert_eq!(lifecycle.len(), 1);
}

#[test]
fn next_exit_returns_exit_info_when_child_exits() {
    let mut lifecycle = ChildLifecycle::new();
    lifecycle.record_start("exiter", AgentId::new(), 3, idle());

    // Cancel the child to trigger shutdown
    assert!(lifecycle.cancel_child("exiter"));

    let exit_info = lifecycle.process_exit(3, ChildExit::Shutdown).unwrap();
    assert_eq!(exit_info.name, "exiter");
    assert_eq!(exit_info.generation, 0);
    // hung is true because cancel_child sets it
    assert!(exit_info.hung);
    assert!(matches!(exit_info.exit, ChildExit::Shutdown));

    // Child should now be marked as dead
    let child = lifecycle.get("exiter").unwrap();
    assert!(!child.alive);
    assert!(lifecycle.process_exit(3, ChildExit::Normal).is_none());
}

#[test]
fn next_exit_normalizes_panics_to_failed() {
    let mut lifecycle = ChildLifecycle::new();
    lifecycle.record_start("panicker", AgentId::new(), 0, idle());

    let exit = normalize_exit(Err("intentional test panic".into()));
    let exit_info = lifecycle.process_exit(0, exit).unwrap();
    assert_eq!(exit_info.name, "panicker");
    match exit_info.exit {
        ChildExit::Failed(msg) => {
            assert!(msg.contains("panic"));
            assert_eq!(msg, "task panicked: intentional test panic");
        }
        other => panic!("expected Failed, got: {other:?}"),
    }
    assert!(matches!(normalize_exit(Ok(ChildExit::Normal)), ChildExit::Normal));
}

#[test]
fn restart_fails_if_child_is_alive() {
    let mut lifecycle = ChildLifecycle::new();
    lifecycle.record_start("alive-child", AgentId::new(), 0, idle());

    // Child is alive, restart should fail
    let result = lifecycle.plan_restart("alive-child");
    assert!(result.is_err());
    assert!(result.unwrap_err().to_string().contains("still alive"));
    assert!(matches!(
        lifecycle.plan_restart("nobody"),
        Err(SupervisorError::ChildNotFound(_))
    ));
}

#[test]
fn restart_succeeds_and_increments_generation() {
    let mut lifecycle = ChildLifecycle::new();
    let id = AgentId::new();
    lifecycle.record_start("restartable", id, 0, idle());

    // Cancel and wait for exit
    lifecycle.cancel_child("restartable");
    let _ = lifecycle.process_exit(0, ChildExit::Shutdown).unwrap();

    // Now restart
    let plan = lifecycle.plan_restart("restartable").unwrap();
    assert_eq!(plan.id, id);
    assert_eq!((plan.old_gen, plan.new_gen), (0, 1));
    let new_gen = lifecycle.record_restart("restartable", 1, idle());
    assert_eq!(new_gen, 1);

    // Child should be alive again
    let child = lifecycle.get("restartable").unwrap();
    assert!(child.alive);
    assert_eq!(child.generation, 1);
    assert_eq!(child.id, id);
}

#[test]
fn peers_excluding_returns_correct_handles() {
    let mut lifecycle = ChildLifecycle::new();
    // Start 3 children
    for (task, name) in ["alice", "bob", "charlie"].iter().enumerate() {
        lifecycle.record_start(name, AgentId::new(), task as u64, idle());
    }

    // peers_excluding("bob") should return alice and charlie
    let peers: Vec<String> = lifecycle
        .peers_excluding("bob")
        .into_iter()
        .map(|p| p.name)
        .collect();
    assert_eq!(peers, ["alice", "charlie"]);

    lifecycle.process_exit(0, ChildExit::Normal);
    assert_eq!(lifecycle.peers_excluding("bob").len(), 1);
}

#[test]
fn cancel_all_and_drain_shuts_down_everything() {
    let mut lifecycle = ChildLifecycle::new();
    // Start 3 children
    for (task, name) in ["a", "b", "c"].iter().enumerate() {
        lifecycle.record_start(name, AgentId::new(), task as u64, idle());
    }

    // Cancel all and drain
    assert_eq!(lifecycle.cancel_all(), ["a", "b", "c"]);
    assert!(lifecycle.cancel_all().is_empty());
    for task in 0..3 {
        lifecycle.process_exit(task, ChildExit::Shutdown);
    }
    lifecycle.clear_tasks();

    assert!(!lifecycle.is_empty()); // children still tracked
    for name in ["a", "b", "c"] {
        assert!(!lifecycle.get(name).unwrap().alive);
    }
}

#[test]
fn stopped_child_does_not_count_as_hung() {
    let mut lifecycle = ChildLifecycle::new();
    lifecycle.record_start("a", AgentId::new(), 0, idle());
    assert!(lifecycle.stop_child("a"));
    assert!(!lifecycle.stop_child("a"));
    assert!(!lifecycle.stop_child("nobody"));
    assert!(!lifecycle.process_exit(0, ChildExit::Shutdown).unwrap().hung);
}

#[test]
fn cancelled_child_counts_as_hung() {
    let mut lc = ChildLifecycle::new();
    lc.record_start("a", AgentId::new(), 0, idle());
    assert!(lc.cancel_child("a"));
    assert!(!lc.cancel_child("a"));
    assert!(!lc.cancel_child("nobody"));
    assert!(lc.process_exit(0, ChildExit::Shutdown).unwrap().hung);
}

#[test]
fn children_are_listed_in_order_of_start() {
    let mut lc = ChildLifecycle::new();
    lc.record_start("z", AgentId::new(), 0, idle());
    lc.record_start("a", AgentId::new(), 1, idle());
    assert_eq!(lc.cancel_all_except("z"), ["a"]);
    assert_eq!(lc.child_at(0).0, "z");
    assert_eq!(lc.child_at(1).0, "a");
}
