//! Configuration types for agents and the swarm runtime.

use vstd::prelude::*;

use crate::time::Duration;

verus! {

/// Controls how the supervisor restarts a failed agent.
///
/// The supervisor tracks restart timestamps within a rolling `window`.
/// If the agent is restarted more than `max_restarts` times within that
/// window, the supervisor gives up. Each restart waits for an exponentially
/// increasing backoff, capped at `backoff_max`.
#[derive(Debug, Clone, Copy, PartialEq, Eq, Structural)]
pub struct RestartPolicy {
    /// Maximum number of restarts allowed within `window` before giving up.
    pub max_restarts: u32,
    /// Rolling time window for counting restarts.
    pub window: Duration,
    /// Initial backoff duration after the first restart.
    pub backoff_base: Duration,
    /// Maximum backoff duration (caps exponential growth).
    pub backoff_max: Duration,
}

impl Default for RestartPolicy {
    fn default() -> (r: RestartPolicy)
        ensures
            r.max_restarts == 5,
            r.window.nanos == 60_000_000_000,
            r.backoff_base.nanos == 1_000_000_000,
            r.backoff_max.nanos == 30_000_000_000,
    {
        RestartPolicy {
            max_restarts: 5,
            window: Duration::from_secs(60),
            backoff_base: Duration::from_secs(1),
            backoff_max: Duration::from_secs(30),
        }
    }
}

/// Per-agent configuration.
///
/// Created with [`AgentConfig::new`] and customized via builder methods.
#[derive(Debug)]
pub struct AgentConfig {
    /// Human-readable name for logging and tracing.
    pub name: String,
    /// Bounded channel capacity for this agent's inbox.
    pub mailbox_size: usize,
    /// Supervisor restart behavior for this agent.
    pub restart_policy: RestartPolicy,
}

impl Clone for AgentConfig {
    fn clone(&self) -> (r: AgentConfig)
        ensures
            r == *self,
    {
        AgentConfig {
            name: self.name.clone(),
            mailbox_size: self.mailbox_size,
            restart_policy: self.restart_policy,
        }
    }
}

impl AgentConfig {
    /// Creates a new agent config with the given name and sensible defaults.
    pub fn new(name: &str) -> (r: Self)
        ensures
            r.name@ == name@,
            r.mailbox_size == 32,
            r.restart_policy.max_restarts == 5,
            r.restart_policy.window.nanos == 60_000_000_000,
            r.restart_policy.backoff_base.nanos == 1_000_000_000,
            r.restart_policy.backoff_max.nanos == 30_000_000_000,
    {
        AgentConfig {
            name: name.to_owned(),
            mailbox_size: 32,
            restart_policy: RestartPolicy::default(),
        }
    }

    /// Sets the bounded channel capacity for this agent's inbox.
    pub fn with_mailbox_size(self, size: usize) -> (r: Self)
        ensures
            r == (AgentConfig { mailbox_size: size, ..self }),
    {
        AgentConfig { mailbox_size: size, ..self }
    }

    /// Sets the supervisor restart policy for this agent.
    pub fn with_restart_policy(self, policy: RestartPolicy) -> (r: Self)
        ensures
            r == (AgentConfig { restart_policy: policy, ..self }),
    {
        AgentConfig { restart_policy: policy, ..self }
    }
}

/// Global runtime configuration for the swarm.
#[derive(Debug, Clone, Copy, PartialEq, Eq, Structural)]
pub struct RuntimeConfig {
    /// Maximum number of agents the runtime will accept.
    pub max_agents: usize,
    /// Hard timeout for graceful shutdown before aborting remaining tasks.
    pub shutdown_timeout: Duration,
}

impl Default for RuntimeConfig {
    fn default() -> (r: RuntimeConfig)
        ensures
            r.max_agents == 100,
            r.shutdown_timeout.nanos == 30_000_000_000,
    {
        RuntimeConfig { max_agents: 100, shutdown_timeout: Duration::from_secs(30) }
    }
}

/// WASM sandbox configuration.
#[derive(Debug)]
pub struct WasmConfig {
    /// Path to the directory containing WASM tool subdirectories.
    pub tools_dir: String,
    /// Number of threads in the dedicated WASM thread pool.
    /// Defaults to the number of CPU cores.
    pub thread_pool_size: Option<usize>,
    /// Epoch tick interval in milliseconds. Defaults to 100.
    pub epoch_tick_ms: Option<u64>,
}

/// LLM provider configuration.
#[derive(Debug)]
pub struct LlmConfig {
    /// API key for the LLM provider.
    pub api_key: String,
    /// Default model identifier.
    pub model: String,
    /// Base URL for the provider's API.
    pub base_url: String,
}

/// File-friendly runtime configuration with seconds instead of a duration.
#[derive(Debug, Clone, Copy, PartialEq, Eq, Structural)]
pub struct RuntimeConfigFile {
    /// Maximum number of agents the runtime will accept.
    pub max_agents: usize,
    /// Shutdown timeout in seconds.
    pub shutdown_timeout_secs: u64,
}

/// Top-level configuration loaded from `mra.toml` and environment variables.
#[derive(Debug)]
pub struct MraConfig {
    /// LLM provider settings.
    pub llm: LlmConfig,
    /// Runtime settings.
    pub runtime: RuntimeConfigFile,
}

impl MraConfig {
    /// Returns a config with only hardcoded defaults.
    pub fn defaults() -> (r: Self)
        ensures
            r.llm.api_key@ == ""@,
            r.llm.model@ == "openai/gpt-4o-mini"@,
            r.llm.base_url@ == "https://openrouter.ai/api/v1"@,
            r.runtime.max_agents == 100,
            r.runtime.shutdown_timeout_secs == 30,
    {
        MraConfig {
            llm: LlmConfig {
                api_key: "".to_owned(),
                model: "openai/gpt-4o-mini".to_owned(),
                base_url: "https://openrouter.ai/api/v1".to_owned(),
            },
            runtime: RuntimeConfigFile { max_agents: 100, shutdown_timeout_secs: 30 },
        }
    }

    /// Converts to the runtime's [`RuntimeConfig`].
    pub fn runtime_config(&self) -> (r: RuntimeConfig)
        ensures
            r.max_agents == self.runtime.max_agents,
            r.shutdown_timeout.nanos == self.runtime.shutdown_timeout_secs * 1_000_000_000,
    {
        RuntimeConfig {
            max_agents: self.runtime.max_agents,
            shutdown_timeout: Duration::from_secs(self.runtime.shutdown_timeout_secs),
        }
    }
}

} // verus!
