//! Configuration types for the supervisor.
//!
//! Restart strategy, per-child restart policy, supervisor-wide restart
//! intensity, shutdown grace period, and the [`SupervisorConfig`] builder.

use vstd::prelude::*;

use crate::time::Duration;

verus! {

/// Restart strategy applied when a child exits.
#[derive(Debug, Clone, Copy, PartialEq, Eq, Structural)]
pub enum Strategy {
    /// Only the failed child is restarted.
    OneForOne,
    /// All children are terminated and restarted when any one fails.
    OneForAll,
}

/// Per-child restart policy evaluated on exit.
#[derive(Debug, Clone, Copy, PartialEq, Eq, Structural)]
pub enum ChildRestart {
    /// Always restart, regardless of exit reason.
    Permanent,
    /// Restart only on failure (not on normal exit or shutdown).
    Transient,
    /// Never restart. The child runs at most once.
    Temporary,
}

impl Default for ChildRestart {
    fn default() -> (r: ChildRestart)
        ensures
            r is Transient,
    {
        ChildRestart::Transient
    }
}

impl ChildRestart {
    /// Whether this policy restarts a child whose exit was (not) a failure.
    pub open spec fn restarts(&self, is_failure: bool) -> bool {
        match self {
            ChildRestart::Permanent => true,
            ChildRestart::Transient => is_failure,
            ChildRestart::Temporary => false,
        }
    }

    /// Returns `true` if this policy says the child should be restarted
    /// given whether the exit was a failure.
    pub fn should_restart(&self, is_failure: bool) -> (r: bool)
        ensures
            r == self.restarts(is_failure),
    {
        match self {
            ChildRestart::Permanent => true,
            ChildRestart::Transient => is_failure,
            ChildRestart::Temporary => false,
        }
    }
}

/// Controls how long the supervisor waits for a child to drain work
/// before hard-killing it. Default grace period is 5 seconds.
#[derive(Debug, Clone, Copy, PartialEq, Eq, Structural)]
pub struct ShutdownPolicy {
    /// Time to wait after sending shutdown before cancelling the child.
    pub grace: Duration,
}

impl Default for ShutdownPolicy {
    fn default() -> (r: ShutdownPolicy)
        ensures
            r.grace.nanos == 5_000_000_000,
    {
        ShutdownPolicy { grace: Duration::from_secs(5) }
    }
}

/// Supervisor-wide restart rate limit.
///
/// If more than `max_restarts` occur within `window`, the supervisor
/// shuts down all children and returns an error.
#[derive(Debug, Clone, Copy, PartialEq, Eq, Structural)]
pub struct RestartIntensity {
    /// Maximum number of restarts allowed within `window`.
    pub max_restarts: u32,
    /// Rolling time window for counting restarts.
    pub window: Duration,
}

impl Default for RestartIntensity {
    fn default() -> (r: RestartIntensity)
        ensures
            r.max_restarts == 10,
            r.window.nanos == 60_000_000_000,
    {
        RestartIntensity { max_restarts: 10, window: Duration::from_secs(60) }
    }
}

/// Configuration for a supervisor instance.
///
/// Use [`SupervisorConfig::builder()`] to construct.
#[derive(Debug, Clone, Copy, PartialEq, Eq, Structural)]
pub struct SupervisorConfig {
    /// Restart strategy (`OneForOne` or `OneForAll`).
    pub strategy: Strategy,
    /// Supervisor-wide restart rate limit.
    pub intensity: RestartIntensity,
    /// How often the supervisor polls children for hang detection.
    pub hang_check_interval: Duration,
    /// How many events a subscriber may lag behind.
    pub event_capacity: usize,
}

/// Whether `config` holds the default values.
pub open spec fn is_default_config(config: SupervisorConfig) -> bool {
    &&& config.strategy is OneForOne
    &&& config.intensity.max_restarts == 10
    &&& config.intensity.window.nanos == 60_000_000_000
    &&& config.hang_check_interval.nanos == 1_000_000_000
    &&& config.event_capacity == 64
}

impl Default for SupervisorConfig {
    fn default() -> (r: SupervisorConfig)
        ensures
            is_default_config(r),
    {
        SupervisorConfig {
            strategy: Strategy::OneForOne,
            intensity: RestartIntensity::default(),
            hang_check_interval: Duration::from_secs(1),
            event_capacity: 64,
        }
    }
}

impl SupervisorConfig {
    /// Returns a builder pre-filled with default values.
    pub fn builder() -> (r: SupervisorConfigBuilder)
        ensures
            is_default_config(r.inner),
    {
        SupervisorConfigBuilder { inner: SupervisorConfig::default() }
    }
}

/// Builder for [`SupervisorConfig`] that avoids exhaustive struct literals.
#[derive(Debug)]
pub struct SupervisorConfigBuilder {
    /// The configuration built so far.
    pub inner: SupervisorConfig,
}

impl SupervisorConfigBuilder {
    /// Sets the restart strategy (`OneForOne` or `OneForAll`).
    pub fn strategy(self, strategy: Strategy) -> (r: Self)
        ensures
            r.inner == (SupervisorConfig { strategy, ..self.inner }),
    {
        SupervisorConfigBuilder { inner: SupervisorConfig { strategy, ..self.inner } }
    }

    /// Sets the restart intensity (max restarts within a time window).
    pub fn intensity(self, intensity: RestartIntensity) -> (r: Self)
        ensures
            r.inner == (SupervisorConfig { intensity, ..self.inner }),
    {
        SupervisorConfigBuilder { inner: SupervisorConfig { intensity, ..self.inner } }
    }

    /// Sets how often the supervisor checks for hung children.
    pub fn hang_check_interval(self, interval: Duration) -> (r: Self)
        ensures
            r.inner == (SupervisorConfig { hang_check_interval: interval, ..self.inner }),
    {
        SupervisorConfigBuilder {
            inner: SupervisorConfig { hang_check_interval: interval, ..self.inner },
        }
    }

    /// Sets how many events a subscriber may lag behind.
    pub fn event_capacity(self, capacity: usize) -> (r: Self)
        ensures
            r.inner == (SupervisorConfig { event_capacity: capacity, ..self.inner }),
    {
        SupervisorConfigBuilder {
            inner: SupervisorConfig { event_capacity: capacity, ..self.inner },
        }
    }

    /// Builds the [`SupervisorConfig`].
    pub fn build(self) -> (r: SupervisorConfig)
        ensures
            r == self.inner,
    {
        self.inner
    }
}

} // verus!
