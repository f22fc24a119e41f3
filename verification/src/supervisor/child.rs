//! Child specifications.

use vstd::prelude::*;

use crate::config::AgentConfig;
use crate::supervisor::config::ChildRestart;
use crate::supervisor::config::ShutdownPolicy;
use crate::time::Duration;

verus! {

/// Specification for a supervised child agent.
///
/// Defines the name, configuration and restart policy for a child. The closure
/// that makes the child is kept by whoever performs the spawning.
#[derive(Debug)]
pub struct ChildSpec {
    /// Human-readable name (unique within the supervisor).
    pub name: String,
    /// Agent configuration (mailbox size, restart policy, etc.).
    pub config: AgentConfig,
    /// Restart strategy for this child.
    pub restart: ChildRestart,
    /// Shutdown policy (grace period before hard-kill).
    pub shutdown_policy: ShutdownPolicy,
    /// Optional hang-detection timeout override.
    pub hang_timeout: Option<Duration>,
    /// Optional per-agent token budget.
    pub token_budget: Option<u64>,
}

impl Clone for ChildSpec {
    fn clone(&self) -> (r: ChildSpec)
        ensures
            r == *self,
    {
        ChildSpec {
            name: self.name.clone(),
            config: self.config.clone(),
            restart: self.restart,
            shutdown_policy: self.shutdown_policy,
            hang_timeout: self.hang_timeout,
            token_budget: self.token_budget,
        }
    }
}

impl ChildSpec {
    /// Creates a new `ChildSpec` with sensible defaults.
    ///
    /// Defaults: `Transient` restart, 5-second shutdown grace, no hang timeout.
    pub fn new(name: &str, config: AgentConfig) -> (r: Self)
        ensures
            r.name@ == name@,
            r.config == config,
            r.restart is Transient,
            r.shutdown_policy.grace.nanos == 5_000_000_000,
            r.hang_timeout is None,
            r.token_budget is None,
    {
        ChildSpec {
            name: name.to_owned(),
            config,
            restart: ChildRestart::default(),
            shutdown_policy: ShutdownPolicy::default(),
            hang_timeout: None,
            token_budget: None,
        }
    }

    /// Creates a `ChildSpec` that is named after its configuration.
    pub fn from_config(config: AgentConfig) -> (r: Self)
        ensures
            r.name@ == config.name@,
            r.config == config,
            r.restart is Transient,
            r.shutdown_policy.grace.nanos == 5_000_000_000,
            r.hang_timeout is None,
            r.token_budget is None,
    {
        let name = config.name.clone();
        ChildSpec::new(name.as_str(), config)
    }

    /// Sets the restart strategy.
    pub fn with_restart(self, restart: ChildRestart) -> (r: Self)
        ensures
            r == (ChildSpec { restart, ..self }),
    {
        ChildSpec { restart, ..self }
    }

    /// Sets the shutdown policy.
    pub fn with_shutdown_policy(self, policy: ShutdownPolicy) -> (r: Self)
        ensures
            r == (ChildSpec { shutdown_policy: policy, ..self }),
    {
        ChildSpec { shutdown_policy: policy, ..self }
    }

    /// Sets the hang-detection timeout override.
    pub fn with_hang_timeout(self, timeout: Duration) -> (r: Self)
        ensures
            r == (ChildSpec { hang_timeout: Some(timeout), ..self }),
    {
        ChildSpec { hang_timeout: Some(timeout), ..self }
    }

    /// Sets the per-agent token budget.
    pub fn with_token_budget(self, limit: u64) -> (r: Self)
        ensures
            r == (ChildSpec { token_budget: Some(limit), ..self }),
    {
        ChildSpec { token_budget: Some(limit), ..self }
    }
}

} // verus!
