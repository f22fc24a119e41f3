use mra::agent::message::AgentReply;
use mra::config::RestartPolicy;
use mra::error::{AgentError, SupervisorError};
use mra::ids::TaskId;
use mra::runtime::cli::{cli_outcome, missing_prompt, CliOutcome};
use mra::runtime::http::{
    check_body, delete_answer, history_answer, new_session_id, respond, wants_sse, PromptAnswer,
    PromptBody,
};
use mra::runtime::roles::{RoleFile, RoleRegistry};
use mra::runtime::{
    behavior_consumed, parse_args, prepare_dispatch, AgentEntry, Invocation, RuntimeBuilder,
    RuntimeError,
};
use mra::session::{MemorySessionStore, Message, Role};
use mra::supervisor::config::ChildRestart;
use mra::time::Duration;

fn args(words: &[&str]) -> Vec<String> {
    words.iter().map(|w| w.to_string()).collect()
}

fn reply(output: &str) -> AgentReply {
    AgentReply {
        task_id: TaskId::new(),
        output: output.into(),
        self_tokens: 142,
        total_tokens: 189,
    }
}

fn message(role: Role, content: &str) -> Message {
    Message { role, content: content.into() }
}

#[test]
fn serve_takes_a_port() {
    let port = |words: &[&str]| match parse_args(&args(words), 3000) {
        Invocation::Serve { port } => port,
        other => panic!("expected Serve, got: {other:?}"),
    };
    assert_eq!(port(&["mra", "serve"]), 3000);
    assert_eq!(port(&["mra", "serve", "--port", "8080"]), 8080);
    assert_eq!(port(&["mra", "serve", "--port", "+80"]), 80);
    assert_eq!(port(&["mra", "serve", "--port", "65536"]), 3000);
    assert_eq!(port(&["mra", "serve", "--port", "x"]), 3000);
    assert_eq!(port(&["mra", "serve", "--port"]), 3000);
    assert_eq!(port(&["mra", "serve", "8080"]), 3000);
}

#[test]
fn agent_and_prompt_are_dispatched() {
    match parse_args(&args(&["mra", "echo", "hello", "ignored"]), 3000) {
        Invocation::Cli { agent, prompt } => {
            assert_eq!(agent, "echo");
            assert_eq!(prompt, "hello");
        }
        other => panic!("expected Cli, got: {other:?}"),
    }
    match parse_args(&args(&["mra", "echo"]), 3000) {
        Invocation::Cli { prompt, .. } => assert_eq!(prompt, ""),
        other => panic!("expected Cli, got: {other:?}"),
    }
}

#[test]
fn nothing_to_do_prints_usage() {
    match parse_args(&args(&["mra"]), 3000) {
        Invocation::Usage(text) => {
            assert_eq!(text, "usage: mra serve | mra <agent-name> <prompt>");
        }
        other => panic!("expected Usage, got: {other:?}"),
    }
    assert_eq!(
        missing_prompt("echo", "").as_deref(),
        Some("usage: <binary> echo <prompt>")
    );
    assert!(missing_prompt("echo", "hi").is_none());
}

#[test]
fn cli_prints_what_came_back() {
    assert!(matches!(cli_outcome(Ok(reply("hi"))), CliOutcome::Print(text) if text == "hi"));
    match cli_outcome(Err(RuntimeError::UnknownAgent("ghost".into()))) {
        CliOutcome::Fail(text) => assert_eq!(text, "error: no agent named 'ghost'"),
        other => panic!("expected Fail, got: {other:?}"),
    }
    let failed = cli_outcome(Err(RuntimeError::Agent(AgentError::Timeout)));
    assert!(matches!(failed, CliOutcome::Error(RuntimeError::Agent(AgentError::Timeout))));
}

#[test]
fn per_agent_model_override() {
    let plans = RuntimeBuilder::new()
        .agent(AgentEntry::new("echo").model("own/model"))
        .agent(AgentEntry::new("other"))
        .model("global/model")
        .plan();
    assert_eq!(plans[0].model.as_deref(), Some("own/model"));
    assert_eq!(plans[1].model.as_deref(), Some("global/model"));
    assert_eq!(plans[1].spec.name, "other");
    assert_eq!(plans[1].spec.restart, ChildRestart::Temporary);
    assert_eq!(plans[1].spec.shutdown_policy.grace, Duration::from_secs(5));
    assert_eq!(plans[1].spec.config.restart_policy, RestartPolicy::default());
    assert!(RuntimeBuilder::new().plan().is_empty());
    assert_eq!(RuntimeBuilder::new().port, 3000);
    assert_eq!(RuntimeBuilder::new().port(8080).port, 8080);
}

#[test]
fn behavior_is_consumed_once() {
    assert_eq!(
        behavior_consumed().to_string(),
        "failed to spawn agent: AgentEntry behavior already consumed (restart not supported)"
    );
}

#[test]
fn unknown_agent_returns_error() {
    let err = prepare_dispatch("nonexistent", false, "hi", None, None, Ok(vec![])).unwrap_err();
    assert!(matches!(err, RuntimeError::UnknownAgent(_)));
    assert_eq!(err.to_string(), "unknown agent: nonexistent");
}

#[test]
fn dispatch_carries_the_history_of_the_session() {
    let mut store = MemorySessionStore::new();
    store.save(
        "s1",
        &vec![
            message(Role::User, "first question"),
            message(Role::Assistant, "first answer"),
        ],
    );
    let task = prepare_dispatch(
        "echo",
        true,
        "second question",
        Some("s1".into()),
        Some("coder".into()),
        Ok(store.load("s1")),
    )
    .unwrap();
    assert_eq!(task.instruction, "second question");
    assert_eq!(task.history.len(), 2);
    assert_eq!(task.session_id.as_deref(), Some("s1"));
    assert_eq!(task.role.as_deref(), Some("coder"));
    assert!(task.has_store);
}

#[test]
fn dispatch_without_session_has_no_history() {
    let loaded = Ok(vec![message(Role::User, "x")]);
    let task = prepare_dispatch("echo", true, "hello", None, None, loaded).unwrap();
    assert!(task.history.is_empty());
}

#[test]
fn dispatch_reports_a_failed_store() {
    let err = prepare_dispatch("echo", true, "hi", Some("s".into()), None, Err("disk".into()))
        .unwrap_err();
    assert_eq!(err.to_string(), "handler failed: session load failed: disk");
}

#[test]
fn errors_convert() {
    let err: RuntimeError = SupervisorError::ChildNotFound("x".into()).into();
    assert_eq!(err.to_string(), "child not found: x");
    let err: RuntimeError = AgentError::Timeout.into();
    assert_eq!(err.to_string(), "agent timed out");
    assert_eq!(RuntimeError::Usage("u".into()).to_string(), "u");
}

fn body(prompt: Option<&str>, role: Option<&str>) -> PromptBody {
    PromptBody {
        prompt: prompt.map(|p| p.to_string()),
        role: role.map(|r| r.to_string()),
    }
}

#[test]
fn post_new_session_returns_200_with_session_id() {
    let (prompt, role) = check_body(body(Some("hello"), None), &RoleRegistry::new()).unwrap();
    assert_eq!(prompt, "hello");
    assert!(role.is_none());
    let id = new_session_id();
    assert_eq!(id.len(), 36);
    match respond("echo", Some(id.clone()), false, Ok(reply("echo:hello"))) {
        PromptAnswer::Json(body) => {
            assert_eq!(body.session_id, id);
            assert!(body.response.contains("hello"));
            assert_eq!(body.usage.self_tokens, 142);
            assert_eq!(body.usage.total_tokens, 189);
        }
        other => panic!("expected Json, got: {other:?}"),
    }
}

#[test]
fn post_unknown_agent_returns_404() {
    let outcome = Err(RuntimeError::UnknownAgent("nonexistent".into()));
    match respond("nonexistent", Some("s".into()), false, outcome) {
        PromptAnswer::Refused(error) => {
            assert_eq!(error.status, 404);
            assert_eq!(error.error, "unknown agent: nonexistent");
        }
        other => panic!("expected Refused, got: {other:?}"),
    }
}

#[test]
fn post_missing_prompt_returns_400() {
    for prompt in [None, Some(""), Some(" \t\n")] {
        let error = check_body(body(prompt, None), &RoleRegistry::new()).unwrap_err();
        assert_eq!(error.status, 400);
        assert_eq!(error.error, "missing or empty `prompt`");
    }
}

#[test]
fn post_unknown_role_returns_400() {
    let files = vec![RoleFile { file_name: "coder.md".into(), content: Some("c".into()) }];
    let roles = RoleRegistry::load(&files);
    let (_, role) = check_body(body(Some("x"), Some("coder")), &roles).unwrap();
    assert_eq!(role.as_deref(), Some("coder"));
    let error = check_body(body(Some("x"), Some("poet")), &roles).unwrap_err();
    assert_eq!(error.status, 400);
    assert_eq!(error.error, "unknown role: poet");
}

#[test]
fn failed_agent_returns_500() {
    match respond("echo", None, true, Err(RuntimeError::Agent(AgentError::Timeout))) {
        PromptAnswer::Refused(error) => {
            assert_eq!(error.status, 500);
            assert_eq!(error.error, "agent timed out");
        }
        other => panic!("expected Refused, got: {other:?}"),
    }
}

#[test]
fn get_history_returns_messages() {
    let mut store = MemorySessionStore::new();
    store.save("s1", &vec![message(Role::User, "hi"), message(Role::Assistant, "hello")]);
    let body = history_answer("s1", Ok(store.load("s1"))).unwrap();
    assert_eq!(body.messages.len(), 2);
    assert_eq!(body.messages[0].role, "user");
    assert_eq!(body.messages[1].role, "assistant");
    assert_eq!(body.messages[1].content, "hello");
    let error = history_answer("s1", Err("disk".into())).unwrap_err();
    assert_eq!((error.status, error.error.as_str()), (500, "disk"));
}

#[test]
fn delete_session_returns_204() {
    let mut store = MemorySessionStore::new();
    store.save("s2", &vec![message(Role::User, "x")]);
    store.delete("s2");
    assert_eq!(delete_answer(Ok(())).unwrap(), 204);
    assert!(store.load("s2").is_empty());
    assert_eq!(delete_answer(Err("disk".into())).unwrap_err().status, 500);
}

#[test]
fn sse_post_new_session_returns_sse_stream() {
    match respond("echo", Some("s\"1".into()), true, Ok(reply("line\n\"quoted\""))) {
        PromptAnswer::Events(events) => {
            assert_eq!(
                events,
                [
                    r#"{"type":"token","content":"line\n\"quoted\""}"#,
                    r#"{"type":"done","session_id":"s\"1","usage":{"self_tokens":142,"total_tokens":189}}"#,
                ]
            );
        }
        other => panic!("expected Events, got: {other:?}"),
    }
}

#[test]
fn sse_is_asked_for_by_the_accept_header() {
    assert!(wants_sse(Some("text/event-stream")));
    assert!(wants_sse(Some("application/json, text/event-stream;q=0.9")));
    assert!(!wants_sse(Some("application/json")));
    assert!(!wants_sse(None));
}
