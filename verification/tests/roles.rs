use mra::agent::ctx::AgentCtx;
use mra::agent::message::Task;
use mra::budget::BudgetTracker;
use mra::error::{AgentError, LlmError};
use mra::ids::AgentId;
use mra::llm::{LlmRequest, LlmResponse, Role, Temperature};
use mra::runtime::roles::{role_name, RoleFile, RoleRegistry};
use mra::session::{Message, Role as StoredRole};

fn file(file_name: &str, content: &str) -> RoleFile {
    RoleFile {
        file_name: file_name.into(),
        content: Some(content.into()),
    }
}

fn make_ctx_with_registry(registry: RoleRegistry) -> AgentCtx {
    AgentCtx::new(AgentId::new(), "test-agent".to_string(), true, None, registry)
}

#[test]
fn with_role_prepends_system_message() {
    let registry = RoleRegistry::load(&vec![file("test.md", "You are a helpful test assistant.")]);
    let ctx = make_ctx_with_registry(registry);
    let req = LlmRequest::builder().user("Hello!").build();

    let result = ctx
        .with_role("test", &req)
        .expect("role 'test' should exist");

    assert_eq!(result.messages.len(), 2, "should have system + user message");
    assert!(matches!(result.messages[0].role, Role::System));
    assert!(result.messages[0].content.contains("helpful test assistant"));
    assert!(matches!(result.messages[1].role, Role::User));
    assert_eq!(result.messages[1].content, "Hello!");
}

#[test]
fn with_role_missing_returns_none() {
    let ctx = make_ctx_with_registry(RoleRegistry::new());
    let req = LlmRequest::builder().user("Hi").build();
    assert!(ctx.with_role("nonexistent", &req).is_none());
}

#[test]
fn with_role_preserves_request_fields() {
    let registry = RoleRegistry::load(&vec![file("coder.md", "You are an expert coder.")]);
    let ctx = make_ctx_with_registry(registry);

    let half = Temperature { bits: 0.5f32.to_bits() };
    let req = LlmRequest::builder()
        .user("Write code")
        .model("test-model")
        .temperature(half)
        .max_tokens(256)
        .build();

    let result = ctx.with_role("coder", &req).unwrap();

    assert_eq!(result.model.as_deref(), Some("test-model"));
    assert_eq!(result.temperature, Some(half));
    assert_eq!(result.max_tokens, Some(256));
}

#[test]
fn role_registry_load_from_nonexistent_dir_returns_empty() {
    let registry = RoleRegistry::load(&vec![]);
    assert!(registry.get("anything").is_none());
}

#[test]
fn role_registry_loads_md_files() {
    let files = vec![file("analyst.md", "You are a careful financial analyst.\n")];
    let registry = RoleRegistry::load(&files);
    let role = registry.get("analyst").expect("analyst role should be found");
    assert_eq!(role.name, "analyst");
    assert!(role.system_prompt.contains("financial analyst"));
}

#[test]
fn role_registry_get_missing_returns_none() {
    let registry = RoleRegistry::load(&vec![]);
    assert!(registry.get("unknown").is_none());
}

#[test]
fn role_registry_ignores_non_md_files() {
    let files = vec![
        file("notes.txt", "ignore me"),
        file("coder.md", "You are a coder."),
    ];
    let registry = RoleRegistry::load(&files);
    assert!(registry.get("coder").is_some());
    assert!(registry.get("notes").is_none());
}

#[test]
fn role_names_are_stems() {
    assert_eq!(role_name("a.b.md").as_deref(), Some("a.b"));
    assert_eq!(role_name(".md"), None);
    assert_eq!(role_name("md"), None);
    assert_eq!(role_name("x.MD"), None);
}

#[test]
fn role_registry_skips_unreadable_files() {
    let files = vec![RoleFile { file_name: "a.md".into(), content: None }];
    assert!(RoleRegistry::load(&files).get("a").is_none());
}

fn answer(content: &str) -> LlmResponse {
    LlmResponse {
        content: content.into(),
        prompt_tokens: 3,
        completion_tokens: 2,
        tool_calls: vec![],
    }
}

#[test]
fn role_prompt_is_sent_and_not_stored() {
    let registry = RoleRegistry::load(&vec![file("coder.md", "You are a coder.")]);
    let mut ctx = make_ctx_with_registry(registry);
    let mut task = Task::new("write");
    task.role = Some("coder".into());
    task.session_id = Some("s1".into());
    task.has_store = true;
    task.history = vec![Message { role: StoredRole::User, content: "before".into() }];
    ctx.take_up(&mut task);

    let request = LlmRequest::builder().user("write").build();
    let sent = ctx.begin_chat(&request, None).unwrap();
    let contents: Vec<&str> = sent.messages.iter().map(|m| m.content.as_str()).collect();
    assert_eq!(contents, ["before", "You are a coder.", "write"]);

    let done = ctx.finish_chat(&request, Ok(answer("ok")), None).unwrap();
    assert!(done.save);
    let stored: Vec<&str> = ctx.history.iter().map(|m| m.content.as_str()).collect();
    assert_eq!(stored, ["before", "write", "ok"]);
}

#[test]
fn own_model_of_the_agent_comes_first() {
    let ctx = AgentCtx::new(
        AgentId::new(),
        "a".into(),
        true,
        Some("own".into()),
        RoleRegistry::new(),
    );
    let request = LlmRequest::builder().user("x").model("asked").build();
    let sent = ctx.begin_chat(&request, None).unwrap();
    assert_eq!(sent.model.as_deref(), Some("own"));
}

#[test]
fn chat_needs_a_provider() {
    let ctx = AgentCtx::new(AgentId::new(), "a".into(), false, None, RoleRegistry::new());
    assert!(!ctx.has_llm());
    let request = LlmRequest::builder().user("x").build();
    assert!(matches!(
        ctx.begin_chat(&request, None),
        Err(AgentError::LlmNotConfigured)
    ));
}

#[test]
fn failed_chat_is_not_stored() {
    let mut ctx = make_ctx_with_registry(RoleRegistry::new());
    let request = LlmRequest::builder().user("x").build();
    let error = ctx
        .finish_chat(&request, Err(LlmError::Timeout), None)
        .unwrap_err();
    assert!(matches!(error, AgentError::Llm(LlmError::Timeout)));
    assert!(ctx.history.is_empty());
}

#[test]
fn tripped_budget_refuses_the_next_chat() {
    let mut ctx = make_ctx_with_registry(RoleRegistry::new());
    let mut budget = BudgetTracker::builder()
        .global_limit(4)
        .build_unconnected();
    budget.register_agent("test-agent", None);
    let request = LlmRequest::builder().user("x").build();
    assert!(ctx.begin_chat(&request, Some(&budget)).is_ok());
    let error = ctx
        .finish_chat(&request, Ok(answer("ok")), Some(&mut budget))
        .unwrap_err();
    assert!(matches!(error, AgentError::BudgetExceeded));
    assert!(matches!(
        ctx.begin_chat(&request, Some(&budget)),
        Err(AgentError::BudgetExceeded)
    ));
}
