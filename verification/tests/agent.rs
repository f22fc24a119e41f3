use mra::agent::handle::{after_attempt, reply_or_cancelled, reply_or_timeout, SendStep};
use mra::agent::message::{AgentReply, Task};
use mra::agent::runner::{AgentRunner, ProgressState, RunnerEvent, RunnerMode, RunnerStep};
use mra::error::AgentError;
use mra::ids::TaskId;
use mra::supervisor::ChildExit;
use mra::time::Instant;

fn at(nanos: u128) -> Instant {
    Instant { nanos }
}

fn reply(output: &str) -> AgentReply {
    AgentReply {
        task_id: TaskId::new(),
        output: output.into(),
        self_tokens: 0,
        total_tokens: 0,
    }
}

#[test]
fn test_task_new_generates_unique_ids() {
    let t1 = Task::new("a");
    let t2 = Task::new("b");
    assert_ne!(t1.id, t2.id);
}

#[test]
fn test_task_context_defaults_to_null() {
    let t = Task::new("hello");
    assert_eq!(t.context.as_str(), "null");
}

#[test]
fn test_agent_execute() {
    let mut runner = AgentRunner::new();
    assert!(matches!(
        runner.on_event(RunnerEvent::Execute),
        RunnerStep::Handle { cancellable: true }
    ));
    let result = Ok(reply("hello"));
    assert!(runner.on_handled(&result).is_none());
    assert_eq!(reply_or_cancelled(Some(result)).unwrap().output, "hello");
}

#[test]
fn test_agent_shutdown() {
    let mut runner = AgentRunner::new();
    let shutdown = RunnerEvent::Shutdown { deadline: at(10) };
    assert!(matches!(runner.on_event(shutdown), RunnerStep::CloseMailbox));
    assert_eq!(runner.mode(), RunnerMode::Draining { deadline: at(10) });
    assert!(matches!(
        runner.on_event(RunnerEvent::Execute),
        RunnerStep::Handle { cancellable: false }
    ));
    assert!(matches!(
        runner.on_event(RunnerEvent::MailboxClosed),
        RunnerStep::Exit(ChildExit::Shutdown)
    ));
    assert_eq!(runner.mode(), RunnerMode::Stopped);
}

#[test]
fn test_agent_cancel() {
    let mut runner = AgentRunner::new();
    assert!(matches!(
        runner.on_event(RunnerEvent::Cancelled),
        RunnerStep::Exit(ChildExit::Shutdown)
    ));
}

#[test]
fn agent_ends_when_nobody_can_reach_it() {
    let mut runner = AgentRunner::new();
    assert!(matches!(
        runner.on_event(RunnerEvent::MailboxClosed),
        RunnerStep::Exit(ChildExit::Normal)
    ));
}

#[test]
fn callers_left_at_the_deadline_are_told() {
    let mut runner = AgentRunner::new();
    runner.on_event(RunnerEvent::Shutdown { deadline: at(10) });
    assert!(matches!(
        runner.on_event(RunnerEvent::DeadlinePassed),
        RunnerStep::FailRemaining(ChildExit::Shutdown)
    ));
}

#[test]
fn exhausted_budget_ends_the_agent() {
    let mut runner = AgentRunner::new();
    let failed = Err(AgentError::Timeout);
    assert!(runner.on_handled(&failed).is_none());
    let exhausted = Err(AgentError::BudgetExceeded);
    assert!(matches!(
        runner.on_handled(&exhausted),
        Some(ChildExit::BudgetExceeded)
    ));
    assert_eq!(runner.mode(), RunnerMode::Stopped);
}

#[test]
fn test_agent_execute_after_channel_closed() {
    assert!(matches!(after_attempt(false, true), SendStep::Delivered));
    assert!(matches!(after_attempt(false, false), SendStep::Retry));
    assert!(matches!(
        after_attempt(true, false),
        SendStep::GiveUp(AgentError::Unavailable)
    ));
    assert!(matches!(reply_or_cancelled(None), Err(AgentError::Cancelled)));
}

#[test]
fn test_execute_with_timeout_returns_timeout_error() {
    assert!(matches!(reply_or_timeout(None), Err(AgentError::Timeout)));
}

#[test]
fn test_execute_with_timeout_succeeds_within_deadline() {
    let result = reply_or_timeout(Some(Ok(reply("hello timeout"))));
    assert_eq!(result.unwrap().output, "hello timeout");
}

#[test]
fn test_agent_progress_updates() {
    let idle = ProgressState::idle(at(5));
    assert!(!idle.busy);
    let working = ProgressState::working(at(7));
    assert!(working.busy);
    assert_eq!(working.last_progress, at(7));
}
