//! Error types.
//!
//! Each subsystem has its own error enum with a `classification()` method
//! returning an [`ErrorClass`] used by the supervisor and retry logic to
//! decide how to react: retry, restart, shed load, or give up.

use vstd::prelude::*;

use crate::ids::AgentId;
use crate::text::decimal_text;
use crate::text::join2;
use crate::text::join3;

verus! {

/// How the runtime should react to an error.
///
/// Drives retry policies, supervisor restart decisions, and admission control.
#[derive(Debug, Clone, Copy, PartialEq, Eq, Structural)]
pub enum ErrorClass {
    /// Retryable: the operation may succeed on a subsequent attempt.
    Transient,
    /// Fatal: retrying will not help; propagate the error.
    Permanent,
    /// The system is under pressure: back off or shed load.
    Overload,
    /// The operation was explicitly cancelled (e.g. shutdown).
    Cancelled,
    /// A token or cost budget has been exceeded.
    BudgetExceeded,
}

/// Errors from LLM provider calls.
#[derive(Debug)]
pub enum LlmError {
    /// The LLM API returned an HTTP error. 5xx is transient, 4xx is permanent.
    ApiError { status: u16, message: String },
    /// The LLM request timed out.
    Timeout,
    /// The provider is rate-limiting requests.
    RateLimit,
    /// The API response could not be parsed.
    InvalidResponse(String),
}

impl LlmError {
    /// The class of this error.
    pub open spec fn class(&self) -> ErrorClass {
        match self {
            LlmError::ApiError { status, .. } => if *status >= 500 {
                ErrorClass::Transient
            } else {
                ErrorClass::Permanent
            },
            LlmError::Timeout => ErrorClass::Transient,
            LlmError::RateLimit => ErrorClass::Overload,
            LlmError::InvalidResponse(_) => ErrorClass::Permanent,
        }
    }

    /// The message of this error.
    pub open spec fn text(&self) -> Seq<char> {
        match self {
            LlmError::ApiError { status, message } => "API error (status "@
                + crate::text::decimal(*status as nat) + "): "@ + message@,
            LlmError::Timeout => "LLM request timed out"@,
            LlmError::RateLimit => "rate limited"@,
            LlmError::InvalidResponse(what) => "invalid response: "@ + what@,
        }
    }

    /// Returns the [`ErrorClass`] for this error.
    ///
    /// Server errors (5xx) are transient; client errors (4xx) are permanent.
    pub fn classification(&self) -> (r: ErrorClass)
        ensures
            r == self.class(),
    {
        match self {
            LlmError::ApiError { status, .. } => if *status >= 500 {
                ErrorClass::Transient
            } else {
                ErrorClass::Permanent
            },
            LlmError::Timeout => ErrorClass::Transient,
            LlmError::RateLimit => ErrorClass::Overload,
            LlmError::InvalidResponse(_) => ErrorClass::Permanent,
        }
    }

    /// The message of this error.
    pub fn to_string(&self) -> (r: String)
        ensures
            r@ == self.text(),
    {
        match self {
            LlmError::ApiError { status, message } => {
                let mut text = join3(
                    "API error (status ",
                    decimal_text(*status as u64).as_str(),
                    "): ",
                );
                text.append(message.as_str());
                text
            },
            LlmError::Timeout => "LLM request timed out".to_owned(),
            LlmError::RateLimit => "rate limited".to_owned(),
            LlmError::InvalidResponse(what) => join2("invalid response: ", what.as_str()),
        }
    }
}

/// Errors from tool execution (native or WASM).
#[derive(Debug)]
pub enum ToolError {
    /// The WASM module triggered a trap (e.g. unreachable, out-of-bounds).
    WasmTrap(String),
    /// The WASM module exhausted its fuel budget (likely an infinite loop).
    FuelExhausted,
    /// The WASM module ran past its deadline or another resource limit.
    ResourceExhausted,
    /// The arguments handed to the tool do not fit it.
    InvalidArgs(String),
    /// A native or WASM tool returned a runtime error.
    ExecutionFailed(String),
    /// No tool with the given name is registered.
    NotFound(String),
}

impl ToolError {
    /// The class of this error.
    pub open spec fn class(&self) -> ErrorClass {
        match self {
            ToolError::WasmTrap(_) => ErrorClass::Permanent,
            ToolError::FuelExhausted => ErrorClass::Overload,
            ToolError::ResourceExhausted => ErrorClass::Overload,
            ToolError::InvalidArgs(_) => ErrorClass::Permanent,
            ToolError::ExecutionFailed(_) => ErrorClass::Transient,
            ToolError::NotFound(_) => ErrorClass::Permanent,
        }
    }

    /// The message of this error.
    pub open spec fn text(&self) -> Seq<char> {
        match self {
            ToolError::WasmTrap(what) => "WASM trap: "@ + what@,
            ToolError::FuelExhausted => "WASM fuel exhausted"@,
            ToolError::ResourceExhausted => "WASM resource limit exhausted"@,
            ToolError::InvalidArgs(what) => "invalid arguments: "@ + what@,
            ToolError::ExecutionFailed(what) => "tool execution failed: "@ + what@,
            ToolError::NotFound(name) => "tool not found: "@ + name@,
        }
    }

    /// Returns the [`ErrorClass`] for this error.
    pub fn classification(&self) -> (r: ErrorClass)
        ensures
            r == self.class(),
    {
        match self {
            ToolError::WasmTrap(_) => ErrorClass::Permanent,
            ToolError::FuelExhausted => ErrorClass::Overload,
            ToolError::ResourceExhausted => ErrorClass::Overload,
            ToolError::InvalidArgs(_) => ErrorClass::Permanent,
            ToolError::ExecutionFailed(_) => ErrorClass::Transient,
            ToolError::NotFound(_) => ErrorClass::Permanent,
        }
    }

    /// The message of this error.
    pub fn to_string(&self) -> (r: String)
        ensures
            r@ == self.text(),
    {
        match self {
            ToolError::WasmTrap(what) => join2("WASM trap: ", what.as_str()),
            ToolError::FuelExhausted => "WASM fuel exhausted".to_owned(),
            ToolError::ResourceExhausted => "WASM resource limit exhausted".to_owned(),
            ToolError::InvalidArgs(what) => join2("invalid arguments: ", what.as_str()),
            ToolError::ExecutionFailed(what) => join2("tool execution failed: ", what.as_str()),
            ToolError::NotFound(name) => join2("tool not found: ", name.as_str()),
        }
    }
}

/// Errors originating from agent behavior handlers.
#[derive(Debug)]
pub enum AgentError {
    /// The agent's behavior handler returned an error.
    HandlerFailed(String),
    /// The agent did not respond within the configured timeout.
    Timeout,
    /// The agent was cancelled via its cancellation token.
    Cancelled,
    /// The agent's token/cost budget was exceeded.
    BudgetExceeded,
    /// The agent's mailbox is closed and a second attempt failed too.
    Unavailable,
    /// The agent has no LLM provider.
    LlmNotConfigured,
    /// The LLM provider failed.
    Llm(LlmError),
    /// A tool failed.
    Tool(ToolError),
}

impl AgentError {
    /// The class of this error; a wrapped error keeps its own class.
    pub open spec fn class(&self) -> ErrorClass {
        match self {
            AgentError::HandlerFailed(_) => ErrorClass::Permanent,
            AgentError::Timeout => ErrorClass::Transient,
            AgentError::Cancelled => ErrorClass::Cancelled,
            AgentError::BudgetExceeded => ErrorClass::BudgetExceeded,
            AgentError::Unavailable => ErrorClass::Transient,
            AgentError::LlmNotConfigured => ErrorClass::Permanent,
            AgentError::Llm(inner) => inner.class(),
            AgentError::Tool(inner) => inner.class(),
        }
    }

    /// The message of this error; a wrapped error keeps its own message.
    pub open spec fn text(&self) -> Seq<char> {
        match self {
            AgentError::HandlerFailed(what) => "handler failed: "@ + what@,
            AgentError::Timeout => "agent timed out"@,
            AgentError::Cancelled => "agent cancelled"@,
            AgentError::BudgetExceeded => "budget exceeded"@,
            AgentError::Unavailable => "agent unavailable"@,
            AgentError::LlmNotConfigured => "no LLM provider configured"@,
            AgentError::Llm(inner) => inner.text(),
            AgentError::Tool(inner) => inner.text(),
        }
    }

    /// Returns the [`ErrorClass`] for this error, used to decide retry/restart behavior.
    pub fn classification(&self) -> (r: ErrorClass)
        ensures
            r == self.class(),
    {
        match self {
            AgentError::HandlerFailed(_) => ErrorClass::Permanent,
            AgentError::Timeout => ErrorClass::Transient,
            AgentError::Cancelled => ErrorClass::Cancelled,
            AgentError::BudgetExceeded => ErrorClass::BudgetExceeded,
            AgentError::Unavailable => ErrorClass::Transient,
            AgentError::LlmNotConfigured => ErrorClass::Permanent,
            AgentError::Llm(inner) => inner.classification(),
            AgentError::Tool(inner) => inner.classification(),
        }
    }

    /// The message of this error.
    pub fn to_string(&self) -> (r: String)
        ensures
            r@ == self.text(),
    {
        match self {
            AgentError::HandlerFailed(what) => join2("handler failed: ", what.as_str()),
            AgentError::Timeout => "agent timed out".to_owned(),
            AgentError::Cancelled => "agent cancelled".to_owned(),
            AgentError::BudgetExceeded => "budget exceeded".to_owned(),
            AgentError::Unavailable => "agent unavailable".to_owned(),
            AgentError::LlmNotConfigured => "no LLM provider configured".to_owned(),
            AgentError::Llm(inner) => inner.to_string(),
            AgentError::Tool(inner) => inner.to_string(),
        }
    }
}

/// Errors from the supervision system.
#[derive(Debug)]
pub enum SupervisorError {
    /// An agent has been restarted too many times within its restart window.
    RestartLimitExceeded { agent_id: AgentId, restarts: u32 },
    /// The supervisor restarted its children too often and gave up.
    RestartIntensityExceeded { total_restarts: u64 },
    /// No child with the given name exists.
    ChildNotFound(String),
    /// Failed to spawn a new agent task.
    SpawnFailed(String),
}

impl SupervisorError {
    /// The class of this error.
    pub open spec fn class(&self) -> ErrorClass {
        match self {
            SupervisorError::RestartLimitExceeded { .. } => ErrorClass::Permanent,
            SupervisorError::RestartIntensityExceeded { .. } => ErrorClass::Permanent,
            SupervisorError::ChildNotFound(_) => ErrorClass::Permanent,
            SupervisorError::SpawnFailed(_) => ErrorClass::Transient,
        }
    }

    /// The message of this error.
    pub open spec fn text(&self) -> Seq<char> {
        match self {
            SupervisorError::RestartLimitExceeded { agent_id, restarts } =>
                "restart limit exceeded for agent "@ + crate::ids::id_text(agent_id.value) + ": "@
                + crate::text::decimal(*restarts as nat) + " restarts"@,
            SupervisorError::RestartIntensityExceeded { total_restarts } =>
                "restart intensity exceeded: "@ + crate::text::decimal(*total_restarts as nat)
                + " restarts"@,
            SupervisorError::ChildNotFound(name) => "child not found: "@ + name@,
            SupervisorError::SpawnFailed(what) => "failed to spawn agent: "@ + what@,
        }
    }

    /// Returns the [`ErrorClass`] for this error.
    pub fn classification(&self) -> (r: ErrorClass)
        ensures
            r == self.class(),
    {
        match self {
            SupervisorError::RestartLimitExceeded { .. } => ErrorClass::Permanent,
            SupervisorError::RestartIntensityExceeded { .. } => ErrorClass::Permanent,
            SupervisorError::ChildNotFound(_) => ErrorClass::Permanent,
            SupervisorError::SpawnFailed(_) => ErrorClass::Transient,
        }
    }

    /// The message of this error.
    pub fn to_string(&self) -> (r: String)
        ensures
            r@ == self.text(),
    {
        match self {
            SupervisorError::RestartLimitExceeded { agent_id, restarts } => {
                let mut text = join3(
                    "restart limit exceeded for agent ",
                    agent_id.to_string().as_str(),
                    ": ",
                );
                text.append(decimal_text(*restarts as u64).as_str());
                text.append(" restarts");
                text
            },
            SupervisorError::RestartIntensityExceeded { total_restarts } => join3(
                "restart intensity exceeded: ",
                decimal_text(*total_restarts).as_str(),
                " restarts",
            ),
            SupervisorError::ChildNotFound(name) => join2("child not found: ", name.as_str()),
            SupervisorError::SpawnFailed(what) => join2("failed to spawn agent: ", what.as_str()),
        }
    }
}

/// Errors from the budget/quota system.
#[derive(Debug, Clone, Copy, PartialEq, Eq, Structural)]
pub enum BudgetError {
    /// The total token limit for this run has been exceeded.
    TokenLimitExceeded,
    /// The cost ceiling for this run has been exceeded.
    CostLimitExceeded,
    /// The admission semaphore denied the request (too many in-flight tasks).
    AdmissionDenied,
}

impl BudgetError {
    /// The class of this error.
    pub open spec fn class(&self) -> ErrorClass {
        match self {
            BudgetError::TokenLimitExceeded => ErrorClass::BudgetExceeded,
            BudgetError::CostLimitExceeded => ErrorClass::BudgetExceeded,
            BudgetError::AdmissionDenied => ErrorClass::Overload,
        }
    }

    /// The message of this error.
    pub open spec fn text(&self) -> Seq<char> {
        match self {
            BudgetError::TokenLimitExceeded => "token limit exceeded"@,
            BudgetError::CostLimitExceeded => "cost limit exceeded"@,
            BudgetError::AdmissionDenied => "admission denied"@,
        }
    }

    /// Returns the [`ErrorClass`] for this error.
    pub fn classification(&self) -> (r: ErrorClass)
        ensures
            r == self.class(),
    {
        match self {
            BudgetError::TokenLimitExceeded => ErrorClass::BudgetExceeded,
            BudgetError::CostLimitExceeded => ErrorClass::BudgetExceeded,
            BudgetError::AdmissionDenied => ErrorClass::Overload,
        }
    }

    /// The message of this error.
    pub fn to_string(&self) -> (r: String)
        ensures
            r@ == self.text(),
    {
        match self {
            BudgetError::TokenLimitExceeded => "token limit exceeded".to_owned(),
            BudgetError::CostLimitExceeded => "cost limit exceeded".to_owned(),
            BudgetError::AdmissionDenied => "admission denied".to_owned(),
        }
    }
}

/// Configuration validation errors.
#[derive(Debug)]
pub enum ConfigError {
    /// The configuration does not hold together.
    Invalid(String),
}

impl ConfigError {
    /// The message of this error.
    pub open spec fn text(&self) -> Seq<char> {
        match self {
            ConfigError::Invalid(what) => "invalid configuration: "@ + what@,
        }
    }

    /// The message of this error.
    pub fn to_string(&self) -> (r: String)
        ensures
            r@ == self.text(),
    {
        match self {
            ConfigError::Invalid(what) => join2("invalid configuration: ", what.as_str()),
        }
    }
}

/// Top-level error type: any of the subsystem errors.
#[derive(Debug)]
pub enum MraError {
    /// An agent failed.
    Agent(AgentError),
    /// The supervisor failed.
    Supervisor(SupervisorError),
    /// A tool failed.
    Tool(ToolError),
    /// The LLM provider failed.
    Llm(LlmError),
    /// A budget is exhausted.
    Budget(BudgetError),
    /// The configuration is invalid.
    Config(ConfigError),
}

impl MraError {
    /// The message of the wrapped error.
    pub open spec fn text(&self) -> Seq<char> {
        match self {
            MraError::Agent(inner) => inner.text(),
            MraError::Supervisor(inner) => inner.text(),
            MraError::Tool(inner) => inner.text(),
            MraError::Llm(inner) => inner.text(),
            MraError::Budget(inner) => inner.text(),
            MraError::Config(inner) => inner.text(),
        }
    }

    /// The message of the wrapped error.
    pub fn to_string(&self) -> (r: String)
        ensures
            r@ == self.text(),
    {
        match self {
            MraError::Agent(inner) => inner.to_string(),
            MraError::Supervisor(inner) => inner.to_string(),
            MraError::Tool(inner) => inner.to_string(),
            MraError::Llm(inner) => inner.to_string(),
            MraError::Budget(inner) => inner.to_string(),
            MraError::Config(inner) => inner.to_string(),
        }
    }
}

impl From<AgentError> for MraError {
    fn from(error: AgentError) -> (r: MraError) {
        MraError::Agent(error)
    }
}

impl vstd::std_specs::convert::FromSpecImpl<AgentError> for MraError {
    open spec fn obeys_from_spec() -> bool {
        true
    }

    open spec fn from_spec(error: AgentError) -> MraError {
        MraError::Agent(error)
    }
}

impl From<SupervisorError> for MraError {
    fn from(error: SupervisorError) -> (r: MraError) {
        MraError::Supervisor(error)
    }
}

impl vstd::std_specs::convert::FromSpecImpl<SupervisorError> for MraError {
    open spec fn obeys_from_spec() -> bool {
        true
    }

    open spec fn from_spec(error: SupervisorError) -> MraError {
        MraError::Supervisor(error)
    }
}

impl From<ToolError> for MraError {
    fn from(error: ToolError) -> (r: MraError) {
        MraError::Tool(error)
    }
}

impl vstd::std_specs::convert::FromSpecImpl<ToolError> for MraError {
    open spec fn obeys_from_spec() -> bool {
        true
    }

    open spec fn from_spec(error: ToolError) -> MraError {
        MraError::Tool(error)
    }
}

impl From<LlmError> for MraError {
    fn from(error: LlmError) -> (r: MraError) {
        MraError::Llm(error)
    }
}

impl vstd::std_specs::convert::FromSpecImpl<LlmError> for MraError {
    open spec fn obeys_from_spec() -> bool {
        true
    }

    open spec fn from_spec(error: LlmError) -> MraError {
        MraError::Llm(error)
    }
}

impl From<BudgetError> for MraError {
    fn from(error: BudgetError) -> (r: MraError) {
        MraError::Budget(error)
    }
}

impl vstd::std_specs::convert::FromSpecImpl<BudgetError> for MraError {
    open spec fn obeys_from_spec() -> bool {
        true
    }

    open spec fn from_spec(error: BudgetError) -> MraError {
        MraError::Budget(error)
    }
}

impl From<ConfigError> for MraError {
    fn from(error: ConfigError) -> (r: MraError) {
        MraError::Config(error)
    }
}

impl vstd::std_specs::convert::FromSpecImpl<ConfigError> for MraError {
    open spec fn obeys_from_spec() -> bool {
        true
    }

    open spec fn from_spec(error: ConfigError) -> MraError {
        MraError::Config(error)
    }
}

/// An error that wraps another is of its class and has its message.
pub proof fn law_wrapped_errors_speak_for_themselves(
    llm: LlmError,
    tool: ToolError,
    agent: AgentError,
    supervisor: SupervisorError,
    budget: BudgetError,
    config: ConfigError,
)
    ensures
        AgentError::Llm(llm).class() == llm.class(),
        AgentError::Llm(llm).text() == llm.text(),
        AgentError::Tool(tool).class() == tool.class(),
        AgentError::Tool(tool).text() == tool.text(),
        MraError::Agent(agent).text() == agent.text(),
        MraError::Supervisor(supervisor).text() == supervisor.text(),
        MraError::Tool(tool).text() == tool.text(),
        MraError::Llm(llm).text() == llm.text(),
        MraError::Budget(budget).text() == budget.text(),
        MraError::Config(config).text() == config.text(),
{
}

/// An error of the LLM is worth another attempt if and only if time ran out or the
/// server failed; a rate limit calls for less load; nothing else can be helped.
pub proof fn law_llm_errors_by_what_helps(error: LlmError)
    ensures
        error.class() is Transient <==> error is Timeout || (
        error matches LlmError::ApiError { status, .. } && status >= 500),
        error.class() is Overload <==> error is RateLimit,
        error.class() is Permanent <==> error is InvalidResponse || (
        error matches LlmError::ApiError { status, .. } && status < 500),
{
}

/// A tool that failed while it ran is worth another attempt; one that exhausted its
/// resources calls for less load; a tool that trapped, that does not exist, or that was
/// called wrongly cannot be helped.
pub proof fn law_tool_errors_by_what_helps(error: ToolError)
    ensures
        error.class() is Transient <==> error is ExecutionFailed,
        error.class() is Overload <==> error is FuelExhausted || error is ResourceExhausted,
        error.class() is Permanent <==> error is WasmTrap || error is InvalidArgs
            || error is NotFound,
{
}

/// An agent's own error is worth another attempt if and only if it did not answer in
/// time or could not be reached; it was cancelled, or its budget is exhausted, exactly
/// where it says so.
pub proof fn law_agent_errors_by_what_helps(error: AgentError)
    requires
        !(error is Llm),
        !(error is Tool),
    ensures
        error.class() is Transient <==> error is Timeout || error is Unavailable,
        error.class() is Cancelled <==> error is Cancelled,
        error.class() is BudgetExceeded <==> error is BudgetExceeded,
        error.class() is Permanent <==> error is HandlerFailed || error is LlmNotConfigured,
{
}

/// Of the supervisor's errors only a failed spawn is worth another attempt; of the
/// budget's only a denied admission calls for less load, the others are final.
pub proof fn law_supervisor_and_budget_errors_by_what_helps(
    supervisor: SupervisorError,
    budget: BudgetError,
)
    ensures
        supervisor.class() is Transient <==> supervisor is SpawnFailed,
        supervisor.class() is Permanent <==> !(supervisor is SpawnFailed),
        budget.class() is Overload <==> budget is AdmissionDenied,
        budget.class() is BudgetExceeded <==> !(budget is AdmissionDenied),
{
}

/// Whether a text ends with another.
pub open spec fn ends_in(text: Seq<char>, end: Seq<char>) -> bool {
    text.len() >= end.len() && text.skip(text.len() - end.len()) == end
}

proof fn lemma_ends_in(start: Seq<char>, end: Seq<char>)
    ensures
        ends_in(start + end, end),
{
    assert((start + end).skip((start + end).len() - end.len()) =~= end);
}

/// What is known of the cause is told at the end of the message.
pub proof fn law_messages_tell_the_cause(
    llm: LlmError,
    tool: ToolError,
    agent: AgentError,
    supervisor: SupervisorError,
    config: ConfigError,
)
    ensures
        llm matches LlmError::ApiError { message, .. } ==> ends_in(llm.text(), message@),
        llm matches LlmError::InvalidResponse(what) ==> ends_in(llm.text(), what@),
        tool matches ToolError::WasmTrap(what) ==> ends_in(tool.text(), what@),
        tool matches ToolError::InvalidArgs(what) ==> ends_in(tool.text(), what@),
        tool matches ToolError::ExecutionFailed(what) ==> ends_in(tool.text(), what@),
        tool matches ToolError::NotFound(name) ==> ends_in(tool.text(), name@),
        agent matches AgentError::HandlerFailed(what) ==> ends_in(agent.text(), what@),
        supervisor matches SupervisorError::ChildNotFound(name) ==> ends_in(
            supervisor.text(),
            name@,
        ),
        supervisor matches SupervisorError::SpawnFailed(what) ==> ends_in(
            supervisor.text(),
            what@,
        ),
        config matches ConfigError::Invalid(what) ==> ends_in(config.text(), what@),
{
    match llm {
        LlmError::ApiError { status, message } => {
            lemma_ends_in(
                "API error (status "@ + crate::text::decimal(status as nat) + "): "@,
                message@,
            );
        },
        LlmError::InvalidResponse(what) => {
            lemma_ends_in("invalid response: "@, what@);
        },
        _ => {},
    }
    match tool {
        ToolError::WasmTrap(what) => {
            lemma_ends_in("WASM trap: "@, what@);
        },
        ToolError::InvalidArgs(what) => {
            lemma_ends_in("invalid arguments: "@, what@);
        },
        ToolError::ExecutionFailed(what) => {
            lemma_ends_in("tool execution failed: "@, what@);
        },
        ToolError::NotFound(name) => {
            lemma_ends_in("tool not found: "@, name@);
        },
        _ => {},
    }
    if let AgentError::HandlerFailed(what) = agent {
        lemma_ends_in("handler failed: "@, what@);
    }
    match supervisor {
        SupervisorError::ChildNotFound(name) => {
            lemma_ends_in("child not found: "@, name@);
        },
        SupervisorError::SpawnFailed(what) => {
            lemma_ends_in("failed to spawn agent: "@, what@);
        },
        _ => {},
    }
    if let ConfigError::Invalid(what) = config {
        lemma_ends_in("invalid configuration: "@, what@);
    }
}

} // verus!
