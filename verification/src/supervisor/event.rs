//! Supervisor lifecycle events broadcast to subscribers.

use vstd::prelude::*;

use crate::supervisor::ChildExit;
use crate::time::Duration;

verus! {

/// Lifecycle events emitted by the supervisor.
#[derive(Debug)]
pub enum SupervisorEvent {
    /// The supervisor's event loop has started.
    SupervisorStarted,
    /// The supervisor is draining children before shutting down.
    SupervisorStopping,
    /// A child was spawned successfully.
    ChildStarted {
        /// Child name.
        name: String,
        /// Restart generation (0 = first start).
        generation: u64,
    },
    /// A child's run future completed.
    ChildExited {
        /// Child name.
        name: String,
        /// Generation at time of exit.
        generation: u64,
        /// Why the child exited.
        exit: ChildExit,
    },
    /// A child was restarted after a failure, with the backoff `delay` applied.
    ChildRestarted {
        /// Child name.
        name: String,
        /// Generation before restart.
        old_gen: u64,
        /// Generation after restart.
        new_gen: u64,
        /// Backoff delay that was applied before restarting.
        delay: Duration,
    },
    /// A child could not be started anew.
    ChildSpawnFailed {
        /// Child name.
        name: String,
        /// What stood against it.
        error: String,
    },
    /// A child has been busy without reporting progress longer than its timeout.
    HangDetected {
        /// Child name.
        name: String,
        /// Generation of the hung child.
        generation: u64,
        /// Time since last progress report.
        elapsed: Duration,
    },
    /// A single child hit its per-child restart limit and will not be restarted again.
    ChildRestartLimitExceeded {
        /// Child name.
        name: String,
        /// Total number of restarts before the limit was hit.
        restarts: u64,
    },
    /// Supervisor-wide restart intensity exceeded: the supervisor shuts down.
    RestartIntensityExceeded {
        /// Total restarts across all children.
        total_restarts: u64,
    },
    /// A token budget was exceeded.
    BudgetExceeded {
        /// Agent name that exceeded the budget.
        name: String,
        /// Tokens used.
        used: u64,
        /// Token limit.
        limit: u64,
    },
}

/// What a [`SupervisorEvent`] tells.
pub enum EventView {
    /// See [`SupervisorEvent::SupervisorStarted`].
    SupervisorStarted,
    /// See [`SupervisorEvent::SupervisorStopping`].
    SupervisorStopping,
    /// See [`SupervisorEvent::ChildStarted`].
    ChildStarted { name: Seq<char>, generation: u64 },
    /// See [`SupervisorEvent::ChildExited`].
    ChildExited { name: Seq<char>, generation: u64, exit: ChildExit },
    /// See [`SupervisorEvent::ChildRestarted`].
    ChildRestarted { name: Seq<char>, old_gen: u64, new_gen: u64, delay: Duration },
    /// See [`SupervisorEvent::ChildSpawnFailed`].
    ChildSpawnFailed { name: Seq<char>, error: Seq<char> },
    /// See [`SupervisorEvent::HangDetected`].
    HangDetected { name: Seq<char>, generation: u64, elapsed: Duration },
    /// See [`SupervisorEvent::ChildRestartLimitExceeded`].
    ChildRestartLimitExceeded { name: Seq<char>, restarts: u64 },
    /// See [`SupervisorEvent::RestartIntensityExceeded`].
    RestartIntensityExceeded { total_restarts: u64 },
    /// See [`SupervisorEvent::BudgetExceeded`].
    BudgetExceeded { name: Seq<char>, used: u64, limit: u64 },
}

impl View for SupervisorEvent {
    type V = EventView;

    open spec fn view(&self) -> EventView {
        match *self {
            SupervisorEvent::SupervisorStarted => EventView::SupervisorStarted,
            SupervisorEvent::SupervisorStopping => EventView::SupervisorStopping,
            SupervisorEvent::ChildStarted { name, generation } => EventView::ChildStarted {
                name: name@,
                generation,
            },
            SupervisorEvent::ChildExited { name, generation, exit } => EventView::ChildExited {
                name: name@,
                generation,
                exit,
            },
            SupervisorEvent::ChildRestarted { name, old_gen, new_gen, delay } =>
                EventView::ChildRestarted { name: name@, old_gen, new_gen, delay },
            SupervisorEvent::ChildSpawnFailed { name, error } => EventView::ChildSpawnFailed {
                name: name@,
                error: error@,
            },
            SupervisorEvent::HangDetected { name, generation, elapsed } => EventView::HangDetected {
                name: name@,
                generation,
                elapsed,
            },
            SupervisorEvent::ChildRestartLimitExceeded { name, restarts } =>
                EventView::ChildRestartLimitExceeded { name: name@, restarts },
            SupervisorEvent::RestartIntensityExceeded { total_restarts } =>
                EventView::RestartIntensityExceeded { total_restarts },
            SupervisorEvent::BudgetExceeded { name, used, limit } => EventView::BudgetExceeded {
                name: name@,
                used,
                limit,
            },
        }
    }
}

impl Clone for SupervisorEvent {
    fn clone(&self) -> (r: SupervisorEvent)
        ensures
            r == *self,
    {
        match self {
            SupervisorEvent::SupervisorStarted => SupervisorEvent::SupervisorStarted,
            SupervisorEvent::SupervisorStopping => SupervisorEvent::SupervisorStopping,
            SupervisorEvent::ChildStarted { name, generation } => SupervisorEvent::ChildStarted {
                name: name.clone(),
                generation: *generation,
            },
            SupervisorEvent::ChildExited { name, generation, exit } => {
                SupervisorEvent::ChildExited {
                    name: name.clone(),
                    generation: *generation,
                    exit: exit.clone(),
                }
            },
            SupervisorEvent::ChildRestarted { name, old_gen, new_gen, delay } => {
                SupervisorEvent::ChildRestarted {
                    name: name.clone(),
                    old_gen: *old_gen,
                    new_gen: *new_gen,
                    delay: *delay,
                }
            },
            SupervisorEvent::ChildSpawnFailed { name, error } => {
                SupervisorEvent::ChildSpawnFailed { name: name.clone(), error: error.clone() }
            },
            SupervisorEvent::HangDetected { name, generation, elapsed } => {
                SupervisorEvent::HangDetected {
                    name: name.clone(),
                    generation: *generation,
                    elapsed: *elapsed,
                }
            },
            SupervisorEvent::ChildRestartLimitExceeded { name, restarts } => {
                SupervisorEvent::ChildRestartLimitExceeded {
                    name: name.clone(),
                    restarts: *restarts,
                }
            },
            SupervisorEvent::RestartIntensityExceeded { total_restarts } => {
                SupervisorEvent::RestartIntensityExceeded { total_restarts: *total_restarts }
            },
            SupervisorEvent::BudgetExceeded { name, used, limit } => {
                SupervisorEvent::BudgetExceeded {
                    name: name.clone(),
                    used: *used,
                    limit: *limit,
                }
            },
        }
    }
}

/// What a list of events tells.
pub open spec fn told(events: Seq<SupervisorEvent>) -> Seq<EventView> {
    events.map_values(|event: SupervisorEvent| event@)
}

/// What a list of events tells is what each of them tells, in order, about its child.
pub proof fn law_events_tell_of_their_child(events: Seq<SupervisorEvent>, i: int)
    requires
        0 <= i < events.len(),
    ensures
        told(events).len() == events.len(),
        match events[i] {
            SupervisorEvent::SupervisorStarted => told(events)[i] is SupervisorStarted,
            SupervisorEvent::SupervisorStopping => told(events)[i] is SupervisorStopping,
            SupervisorEvent::ChildStarted { name, generation } => {
                told(events)[i] matches EventView::ChildStarted { name: n, generation: g } && n
                    == name@ && g == generation
            },
            SupervisorEvent::ChildExited { name, generation, exit } => {
                told(events)[i] matches EventView::ChildExited { name: n, generation: g, exit: e }
                    && n == name@ && g == generation && e == exit
            },
            SupervisorEvent::ChildRestarted { name, old_gen, new_gen, delay } => {
                told(events)[i] matches EventView::ChildRestarted {
                    name: n,
                    old_gen: o,
                    new_gen: w,
                    delay: d,
                } && n == name@ && o == old_gen && w == new_gen && d == delay
            },
            SupervisorEvent::ChildSpawnFailed { name, error } => {
                told(events)[i] matches EventView::ChildSpawnFailed { name: n, error: e } && n
                    == name@ && e == error@
            },
            SupervisorEvent::HangDetected { name, generation, elapsed } => {
                told(events)[i] matches EventView::HangDetected {
                    name: n,
                    generation: g,
                    elapsed: e,
                } && n == name@ && g == generation && e == elapsed
            },
            SupervisorEvent::ChildRestartLimitExceeded { name, restarts } => {
                told(events)[i] matches EventView::ChildRestartLimitExceeded {
                    name: n,
                    restarts: r,
                } && n == name@ && r == restarts
            },
            SupervisorEvent::RestartIntensityExceeded { total_restarts } => {
                told(events)[i] matches EventView::RestartIntensityExceeded { total_restarts: t }
                    && t == total_restarts
            },
            SupervisorEvent::BudgetExceeded { name, used, limit } => {
                told(events)[i] matches EventView::BudgetExceeded {
                    name: n,
                    used: u,
                    limit: l,
                } && n == name@ && u == used && l == limit
            },
        },
{
}

} // verus!
