use mra::error::{AgentError, BudgetError, ErrorClass, LlmError, MraError, SupervisorError, ToolError};
use mra::ids::AgentId;

#[test]
fn agent_error_classification() {
    assert_eq!(AgentError::Timeout.classification(), ErrorClass::Transient);
    assert_eq!(
        AgentError::Cancelled.classification(),
        ErrorClass::Cancelled
    );
    assert_eq!(
        AgentError::BudgetExceeded.classification(),
        ErrorClass::BudgetExceeded
    );
    assert_eq!(
        AgentError::HandlerFailed("oops".into()).classification(),
        ErrorClass::Permanent
    );
}

#[test]
fn tool_error_classification() {
    assert_eq!(
        ToolError::ResourceExhausted.classification(),
        ErrorClass::Overload
    );
    assert_eq!(
        ToolError::WasmTrap("trap".into()).classification(),
        ErrorClass::Permanent
    );
    assert_eq!(
        ToolError::NotFound("x".into()).classification(),
        ErrorClass::Permanent
    );
}

#[test]
fn llm_error_classification() {
    assert_eq!(LlmError::Timeout.classification(), ErrorClass::Transient);
    assert_eq!(LlmError::RateLimit.classification(), ErrorClass::Overload);
    assert_eq!(
        LlmError::ApiError {
            status: 500,
            message: "fail".into()
        }
        .classification(),
        ErrorClass::Transient
    );
    assert_eq!(
        LlmError::ApiError {
            status: 400,
            message: "bad".into()
        }
        .classification(),
        ErrorClass::Permanent
    );
}

#[test]
fn budget_error_classification() {
    assert_eq!(
        BudgetError::TokenLimitExceeded.classification(),
        ErrorClass::BudgetExceeded
    );
    assert_eq!(
        BudgetError::AdmissionDenied.classification(),
        ErrorClass::Overload
    );
}

#[test]
fn agent_error_unavailable_is_transient() {
    assert_eq!(
        AgentError::Unavailable.classification(),
        ErrorClass::Transient
    );
}

#[test]
fn mra_error_from_agent_error() {
    let agent_err = AgentError::Timeout;
    let mra_err: MraError = agent_err.into();
    assert!(matches!(mra_err, MraError::Agent(_)));
}

#[test]
fn mra_error_from_tool_error() {
    let tool_err = ToolError::ResourceExhausted;
    let mra_err: MraError = tool_err.into();
    assert!(matches!(mra_err, MraError::Tool(_)));
}

#[test]
fn errors_implement_display() {
    let err = AgentError::Timeout;
    let msg = err.to_string();
    assert!(!msg.is_empty());
}

#[test]
fn test_agent_error_llm_variant_preserves_classification() {
    let llm_err = LlmError::RateLimit;
    let agent_err = AgentError::Llm(llm_err);
    assert_eq!(agent_err.classification(), ErrorClass::Overload);
}

#[test]
fn test_agent_error_llm_timeout_is_transient() {
    let agent_err = AgentError::Llm(LlmError::Timeout);
    assert_eq!(agent_err.classification(), ErrorClass::Transient);
}

#[test]
fn tool_error_invalid_args_is_permanent() {
    assert_eq!(
        ToolError::InvalidArgs("bad input".into()).classification(),
        ErrorClass::Permanent
    );
}

#[test]
fn agent_error_tool_variant_preserves_classification() {
    let tool_err = ToolError::ExecutionFailed("cmd failed".into());
    let agent_err = AgentError::Tool(tool_err);
    assert_eq!(agent_err.classification(), ErrorClass::Transient);
}

#[test]
fn error_messages() {
    assert_eq!(AgentError::HandlerFailed("oops".into()).to_string(), "handler failed: oops");
    assert_eq!(AgentError::Timeout.to_string(), "agent timed out");
    assert_eq!(AgentError::Cancelled.to_string(), "agent cancelled");
    assert_eq!(AgentError::BudgetExceeded.to_string(), "budget exceeded");
    assert_eq!(
        AgentError::Tool(ToolError::NotFound("x".into())).to_string(),
        "tool not found: x"
    );
    assert_eq!(
        SupervisorError::SpawnFailed("no room".into()).to_string(),
        "failed to spawn agent: no room"
    );
    let agent_id = AgentId { value: 0x0123_4567_89ab_cdef_0123_4567_89ab_cdef };
    assert_eq!(
        SupervisorError::RestartLimitExceeded { agent_id, restarts: 12 }.to_string(),
        "restart limit exceeded for agent 01234567-89ab-cdef-0123-456789abcdef: 12 restarts"
    );
}

#[test]
fn llm_error_class_depends_on_the_status() {
    for (status, class) in [
        (499u16, ErrorClass::Permanent),
        (500, ErrorClass::Transient),
        (599, ErrorClass::Transient),
    ] {
        let error = LlmError::ApiError { status, message: "x".into() };
        assert_eq!(error.classification(), class);
    }
}
