//! The run loop of an agent.
//!
//! [`AgentRunner`] decides what an agent does with what reaches it: tasks, a
//! request to shut down, cancellation. Whoever drives it waits for the next
//! event, handles tasks, and answers the callers.

use vstd::prelude::*;

use crate::agent::message::AgentReply;
use crate::error::AgentError;
use crate::error::ErrorClass;
use crate::supervisor::ChildExit;
use crate::time::Instant;

verus! {

/// Snapshot of an agent's activity.
///
/// The supervisor reads this to distinguish idle agents (stale timestamp,
/// not busy) from hung agents (stale timestamp, busy).
#[derive(Debug, Clone, Copy, PartialEq, Eq, Structural)]
pub struct ProgressState {
    /// When the agent last started or finished a task or reported progress.
    pub last_progress: Instant,
    /// `true` while the agent is handling a task.
    pub busy: bool,
}

impl ProgressState {
    /// An agent that waits for work since `now`.
    pub fn idle(now: Instant) -> (r: Self)
        ensures
            r == (ProgressState { last_progress: now, busy: false }),
    {
        ProgressState { last_progress: now, busy: false }
    }

    /// An agent that works and made progress at `now`.
    pub fn working(now: Instant) -> (r: Self)
        ensures
            r == (ProgressState { last_progress: now, busy: true }),
    {
        ProgressState { last_progress: now, busy: true }
    }
}

/// Where an agent stands.
#[derive(Debug, Clone, Copy, PartialEq, Eq, Structural)]
pub enum RunnerMode {
    /// It takes tasks as they come.
    Running,
    /// Its mailbox is closed; it works off what is left until the deadline.
    Draining {
        /// When to stop working.
        deadline: Instant,
    },
    /// It has ended.
    Stopped,
}

/// What reaches an agent.
#[derive(Debug, Clone, Copy, PartialEq, Eq, Structural)]
pub enum RunnerEvent {
    /// Its cancellation token was triggered.
    Cancelled,
    /// Its mailbox is closed and empty.
    MailboxClosed,
    /// A task.
    Execute,
    /// A request to shut down.
    Shutdown {
        /// Until when to work off what is left.
        deadline: Instant,
    },
    /// The deadline has passed.
    DeadlinePassed,
}

/// What an agent does about an event.
#[derive(Debug)]
pub enum RunnerStep {
    /// Wait for the next event.
    Wait,
    /// Handle the task. If it can be cancelled, its caller is told so as soon as
    /// the cancellation token is triggered.
    Handle {
        /// Whether cancellation ends the handling.
        cancellable: bool,
    },
    /// Close the mailbox to new work.
    CloseMailbox,
    /// Tell all callers that are left that they are cancelled, and end.
    FailRemaining(ChildExit),
    /// End.
    Exit(ChildExit),
}

/// The decisions of an agent's run loop.
#[derive(Debug)]
pub struct AgentRunner {
    mode: RunnerMode,
}

impl View for AgentRunner {
    type V = RunnerMode;

    closed spec fn view(&self) -> RunnerMode {
        self.mode
    }
}

/// Where an agent stands after an event.
pub open spec fn mode_after(mode: RunnerMode, event: RunnerEvent) -> RunnerMode {
    match (mode, event) {
        (RunnerMode::Running, RunnerEvent::Cancelled) => RunnerMode::Stopped,
        (RunnerMode::Running, RunnerEvent::MailboxClosed) => RunnerMode::Stopped,
        (RunnerMode::Running, RunnerEvent::Shutdown { deadline }) => RunnerMode::Draining {
            deadline,
        },
        (RunnerMode::Draining { .. }, RunnerEvent::MailboxClosed) => RunnerMode::Stopped,
        (RunnerMode::Draining { .. }, RunnerEvent::DeadlinePassed) => RunnerMode::Stopped,
        _ => mode,
    }
}

/// What an agent does about an event. An agent that drains is no longer
/// cancelled, and a second request to shut down changes nothing.
pub open spec fn step_for(mode: RunnerMode, event: RunnerEvent) -> RunnerStep {
    match (mode, event) {
        (RunnerMode::Running, RunnerEvent::Cancelled) => RunnerStep::Exit(ChildExit::Shutdown),
        (RunnerMode::Running, RunnerEvent::MailboxClosed) => RunnerStep::Exit(ChildExit::Normal),
        (RunnerMode::Running, RunnerEvent::Execute) => RunnerStep::Handle { cancellable: true },
        (RunnerMode::Running, RunnerEvent::Shutdown { .. }) => RunnerStep::CloseMailbox,
        (RunnerMode::Draining { .. }, RunnerEvent::MailboxClosed) => RunnerStep::Exit(
            ChildExit::Shutdown,
        ),
        (RunnerMode::Draining { .. }, RunnerEvent::Execute) => RunnerStep::Handle {
            cancellable: false,
        },
        (RunnerMode::Draining { .. }, RunnerEvent::DeadlinePassed) => RunnerStep::FailRemaining(
            ChildExit::Shutdown,
        ),
        _ => RunnerStep::Wait,
    }
}

/// Whether a result says that the budget is exhausted.
pub open spec fn is_budget_error(result: Result<AgentReply, AgentError>) -> bool {
    result matches Err(error) && error.class() is BudgetExceeded
}

/// Whether `exit` and `after` are what the result of a task comes to.
pub open spec fn is_handled(
    mode: RunnerMode,
    result: Result<AgentReply, AgentError>,
    after: RunnerMode,
    exit: Option<ChildExit>,
) -> bool {
    if mode is Running && is_budget_error(result) {
        after is Stopped && exit == Some(ChildExit::BudgetExceeded)
    } else {
        after == mode && exit is None
    }
}

impl AgentRunner {
    /// An agent that takes tasks.
    pub fn new() -> (r: Self)
        ensures
            r@ is Running,
    {
        AgentRunner { mode: RunnerMode::Running }
    }

    /// Where the agent stands.
    pub fn mode(&self) -> (r: RunnerMode)
        ensures
            r == self@,
    {
        self.mode
    }

    /// Takes an event and says what to do about it.
    pub fn on_event(&mut self, event: RunnerEvent) -> (r: RunnerStep)
        ensures
            final(self)@ == mode_after(old(self)@, event),
            r == step_for(old(self)@, event),
    {
        match (self.mode, event) {
            (RunnerMode::Running, RunnerEvent::Cancelled) => {
                self.mode = RunnerMode::Stopped;
                RunnerStep::Exit(ChildExit::Shutdown)
            },
            (RunnerMode::Running, RunnerEvent::MailboxClosed) => {
                self.mode = RunnerMode::Stopped;
                RunnerStep::Exit(ChildExit::Normal)
            },
            (RunnerMode::Running, RunnerEvent::Execute) => {
                RunnerStep::Handle { cancellable: true }
            },
            (RunnerMode::Running, RunnerEvent::Shutdown { deadline }) => {
                self.mode = RunnerMode::Draining { deadline };
                RunnerStep::CloseMailbox
            },
            (RunnerMode::Draining { .. }, RunnerEvent::MailboxClosed) => {
                self.mode = RunnerMode::Stopped;
                RunnerStep::Exit(ChildExit::Shutdown)
            },
            (RunnerMode::Draining { .. }, RunnerEvent::Execute) => {
                RunnerStep::Handle { cancellable: false }
            },
            (RunnerMode::Draining { .. }, RunnerEvent::DeadlinePassed) => {
                self.mode = RunnerMode::Stopped;
                RunnerStep::FailRemaining(ChildExit::Shutdown)
            },
            _ => RunnerStep::Wait,
        }
    }

    /// Takes the result of a task, before it is handed to the caller. A running
    /// agent whose budget is exhausted ends.
    pub fn on_handled(&mut self, result: &Result<AgentReply, AgentError>) -> (r: Option<ChildExit>)
        ensures
            ({
                let ends = old(self)@ is Running && is_budget_error(*result);
                &&& r == (if ends {
                    Some(ChildExit::BudgetExceeded)
                } else {
                    None
                })
                &&& final(self)@ == (if ends {
                    RunnerMode::Stopped
                } else {
                    old(self)@
                })
            }),
            is_handled(old(self)@, *result, final(self)@, r),
    {
        let is_budget = match result {
            Err(error) => error.classification() == ErrorClass::BudgetExceeded,
            Ok(_) => false,
        };
        match self.mode {
            RunnerMode::Running => {
                if is_budget {
                    self.mode = RunnerMode::Stopped;
                    Some(ChildExit::BudgetExceeded)
                } else {
                    None
                }
            },
            _ => None,
        }
    }
}

/// An agent that drains exits as shut down, whatever happens.
pub proof fn law_draining_ends_in_shutdown(deadline: Instant, event: RunnerEvent)
    ensures
        ({
            let mode = RunnerMode::Draining { deadline };
            &&& step_for(mode, event) matches RunnerStep::Exit(exit) ==> exit is Shutdown
            &&& step_for(mode, event) matches RunnerStep::FailRemaining(exit) ==> exit is Shutdown
            &&& !(mode_after(mode, event) is Running)
        }),
{
}

/// A task is handled in every mode but the last, and only an agent that runs can
/// be cancelled while it handles one.
pub proof fn law_tasks_are_handled(mode: RunnerMode)
    requires
        !(mode is Stopped),
    ensures
        step_for(mode, RunnerEvent::Execute) == (RunnerStep::Handle {
            cancellable: mode is Running,
        }),
        mode_after(mode, RunnerEvent::Execute) == mode,
{
}

/// An agent that has ended does nothing more.
pub proof fn law_stopped_stays_stopped(event: RunnerEvent)
    ensures
        mode_after(RunnerMode::Stopped, event) is Stopped,
        step_for(RunnerMode::Stopped, event) is Wait,
{
}

/// An agent ends exactly when it says so: it has not ended before, and the event
/// makes it exit or fail what is left.
pub proof fn law_end_is_announced(mode: RunnerMode, event: RunnerEvent)
    ensures
        (step_for(mode, event) is Exit || step_for(mode, event) is FailRemaining) <==> !(
        mode is Stopped) && mode_after(mode, event) is Stopped,
        step_for(mode, event) is CloseMailbox <==> mode is Running && mode_after(
            mode,
            event,
        ) is Draining,
{
}

/// An agent that runs ends as shut down when it is cancelled, and normally when its
/// mailbox is closed and empty. Nothing else ends it; only a request to shut down
/// makes it drain, until the deadline of that request.
pub proof fn law_running_agent_ends_on_cancel_or_empty_mailbox(event: RunnerEvent)
    ensures
        mode_after(RunnerMode::Running, event) is Stopped <==> event is Cancelled
            || event is MailboxClosed,
        event is Cancelled ==> step_for(RunnerMode::Running, event) == RunnerStep::Exit(
            ChildExit::Shutdown,
        ),
        event is MailboxClosed ==> step_for(RunnerMode::Running, event) == RunnerStep::Exit(
            ChildExit::Normal,
        ),
        match event {
            RunnerEvent::Shutdown { deadline } => mode_after(RunnerMode::Running, event) == (
            RunnerMode::Draining { deadline }),
            _ => !(mode_after(RunnerMode::Running, event) is Draining),
        },
        event is DeadlinePassed ==> step_for(RunnerMode::Running, event) is Wait,
{
}

/// An agent that drains works off its mailbox: it ends when that is empty, or when
/// its deadline passes, and then the callers that are left are told. Cancellation
/// and further requests to shut down change nothing, the deadline least of all.
pub proof fn law_draining_agent_ends_on_empty_mailbox_or_deadline(
    deadline: Instant,
    event: RunnerEvent,
)
    ensures
        ({
            let mode = RunnerMode::Draining { deadline };
            &&& mode_after(mode, event) is Stopped <==> event is MailboxClosed
                || event is DeadlinePassed
            &&& !(event is MailboxClosed) && !(event is DeadlinePassed) ==> mode_after(mode, event)
                == mode
            &&& event is MailboxClosed ==> step_for(mode, event) == RunnerStep::Exit(
                ChildExit::Shutdown,
            )
            &&& event is DeadlinePassed ==> step_for(mode, event) == RunnerStep::FailRemaining(
                ChildExit::Shutdown,
            )
            &&& event is Cancelled || event is Shutdown ==> step_for(mode, event) is Wait
        }),
{
}

/// Only an agent's own exhausted budget says that the budget is exhausted: no other
/// error and no success does, nor does an error of the LLM or of a tool.
pub proof fn law_budget_errors_are_the_agents_own(result: Result<AgentReply, AgentError>)
    ensures
        is_budget_error(result) <==> (result matches Err(error) && error is BudgetExceeded),
{
}

/// The result of a task ends an agent if and only if it runs and its budget is
/// exhausted; it then exits for that reason. Any other result, a failure too, leaves it
/// as it was.
pub proof fn law_only_an_exhausted_budget_ends_an_agent(
    mode: RunnerMode,
    result: Result<AgentReply, AgentError>,
    after: RunnerMode,
    exit: Option<ChildExit>,
)
    requires
        is_handled(mode, result, after, exit),
    ensures
        exit is Some <==> mode is Running && (result matches Err(error) && error is BudgetExceeded),
        exit matches Some(why) ==> why is BudgetExceeded && after is Stopped,
        exit is None ==> after == mode,
{
}

} // verus!
