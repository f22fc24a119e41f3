//! Supervision: restart policies, limits and backoff, hang detection and the
//! lifecycle of the children.

pub mod child;
pub mod config;
pub mod event;
pub mod lifecycle;
pub mod restart_manager;
pub mod runner;
pub mod tracker;

use vstd::prelude::*;

verus! {

/// Point-in-time snapshot of a supervised child's status.
#[derive(Debug)]
pub struct ChildStatus {
    /// Human-readable name of the child.
    pub name: String,
    /// Whether the child is currently running.
    pub alive: bool,
    /// Current generation (0 = first start, incremented on each restart).
    pub generation: u64,
    /// Total number of restarts recorded for this child.
    pub restart_count: u64,
}

/// Why a child agent exited.
#[derive(Debug)]
pub enum ChildExit {
    /// Clean return from the agent's run loop (channel closed, no senders left).
    Normal,
    /// Explicit shutdown via cancellation token or shutdown message.
    Shutdown,
    /// The agent's behavior handler returned an error.
    Failed(String),
    /// The agent's token/cost budget was exceeded. Terminal: restarting is futile.
    BudgetExceeded,
}

impl Clone for ChildExit {
    fn clone(&self) -> (r: ChildExit)
        ensures
            r == *self,
    {
        match self {
            ChildExit::Normal => ChildExit::Normal,
            ChildExit::Shutdown => ChildExit::Shutdown,
            ChildExit::Failed(what) => ChildExit::Failed(what.clone()),
            ChildExit::BudgetExceeded => ChildExit::BudgetExceeded,
        }
    }
}

impl ChildExit {
    /// Returns `true` if this exit should trigger a restart
    /// (for `Transient` or `Permanent` restart policies).
    pub fn is_failure(&self) -> (r: bool)
        ensures
            r == (self is Failed),
    {
        match self {
            ChildExit::Failed(_) => true,
            _ => false,
        }
    }
}

} // verus!
