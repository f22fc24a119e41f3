use std::sync::Arc;

use mra::agent::ctx::{AgentCtx, LoopStep, ToolLoop, ToolLoopResult};
use mra::budget::BudgetTracker;
use mra::error::{AgentError, LlmError, ToolError};
use mra::ids::AgentId;
use mra::json::Json;
use mra::llm::{ChatMessage, LlmRequest, LlmResponse, Role, ToolCall};
use mra::runtime::roles::RoleRegistry;
use mra::time::Duration;
use mra::tool::edit_file::{EditFileArgs, EditFileTool};
use mra::tool::read_file::ReadFileTool;
use mra::tool::shell::{ShellOutcome, ShellTool};
use mra::tool::{ToolOutput, ToolRegistry, ToolSpec};

fn json(text: &str) -> Json {
    Json::parse(text).unwrap()
}

/// A simple test tool that echoes its input.
struct EchoTool;

fn echo_spec() -> ToolSpec {
    ToolSpec {
        name: "echo".into(),
        description: "Echoes the input".into(),
        parameters: json(
            r#"{
                "type": "object",
                "properties": {
                    "text": { "type": "string" }
                },
                "required": ["text"]
            }"#,
        ),
    }
}

impl EchoTool {
    fn invoke(&self, args: &Json) -> Result<ToolOutput, ToolError> {
        let text = args.member("text").and_then(|t| t.held_text());
        Ok(ToolOutput {
            content: text.unwrap_or("no text".to_string()),
            is_error: false,
        })
    }
}

fn echo_registry() -> ToolRegistry<Arc<EchoTool>> {
    let mut registry = ToolRegistry::new();
    registry.register(echo_spec(), Arc::new(EchoTool)).unwrap();
    registry
}

fn invoke(
    registry: &ToolRegistry<Arc<EchoTool>>,
    name: &str,
    args: &Json,
) -> Result<ToolOutput, ToolError> {
    match registry.find(name) {
        Ok(tool) => tool.invoke(args),
        Err(error) => Err(error),
    }
}

#[test]
fn tool_spec_fields() {
    let spec = echo_spec();
    assert_eq!(spec.name, "echo");
    assert_eq!(spec.description, "Echoes the input");
    assert!(spec.parameters.is_object());
}

#[test]
fn tool_output_success() {
    let output = ToolOutput {
        content: "hello".into(),
        is_error: false,
    };
    assert_eq!(output.content, "hello");
    assert!(!output.is_error);
}

#[test]
fn tool_output_error() {
    let output = ToolOutput {
        content: "something went wrong".into(),
        is_error: true,
    };
    assert!(output.is_error);
}

#[test]
fn tool_invoke_returns_echoed_text() {
    let result = EchoTool.invoke(&json(r#"{"text": "hi"}"#)).unwrap();
    assert_eq!(result.content, "hi");
    assert!(!result.is_error);
}

#[test]
fn registry_register_and_get() {
    let registry = echo_registry();
    assert!(registry.get("echo").is_some());
    assert!(registry.get("nonexistent").is_none());
}

#[test]
fn registry_specs_returns_all_specs() {
    let registry = echo_registry();
    let specs = registry.specs();
    assert_eq!(specs.len(), 1);
    assert_eq!(specs[0].name, "echo");
}

#[test]
fn registry_invoke_existing_tool() {
    let registry = echo_registry();
    let result = invoke(&registry, "echo", &json(r#"{"text": "world"}"#)).unwrap();
    assert_eq!(result.content, "world");
}

#[test]
fn registry_invoke_not_found() {
    let registry: ToolRegistry<Arc<EchoTool>> = ToolRegistry::new();
    let result = invoke(&registry, "missing", &json("{}"));
    assert!(matches!(result, Err(ToolError::NotFound(_))));
}

#[test]
fn registry_clone_shares_tools() {
    let registry = echo_registry();
    let cloned = registry.clone();
    assert!(cloned.get("echo").is_some());
}

#[test]
fn registry_refuses_a_second_tool_of_one_name() {
    let mut registry = echo_registry();
    let error = registry.register(echo_spec(), Arc::new(EchoTool)).unwrap_err();
    assert_eq!(error.to_string(), "invalid arguments: tool already registered: echo");
    assert_eq!(registry.specs().len(), 1);
}

#[test]
fn registry_specs_are_sorted_by_name() {
    let mut registry: ToolRegistry<u8> = ToolRegistry::new();
    for (i, name) in ["shell", "edit_file", "read_file", "Zed", "edit"].iter().enumerate() {
        let spec = ToolSpec {
            name: name.to_string(),
            description: "x".into(),
            parameters: Json::object_schema(),
        };
        registry.register(spec, i as u8).unwrap();
    }
    let names: Vec<String> = registry.specs().into_iter().map(|s| s.name).collect();
    assert_eq!(names, ["Zed", "edit", "edit_file", "read_file", "shell"]);
}

// --- shell ---

#[test]
fn shell_tool_spec() {
    let tool = ShellTool::new();
    let spec = tool.spec(Json::object_schema());
    assert_eq!(spec.name, "shell");
    assert!(spec.parameters.is_object());
}

#[test]
fn shell_tool_runs_command() {
    let tool = ShellTool::new();
    let result = tool
        .output(ShellOutcome::Finished {
            success: true,
            stdout: "hello\n".into(),
            stderr: "".into(),
        })
        .unwrap();
    assert_eq!(result.content.trim(), "hello");
    assert!(!result.is_error);
}

#[test]
fn shell_tool_returns_error_on_failure() {
    let tool = ShellTool::new();
    let result = tool
        .output(ShellOutcome::Finished {
            success: false,
            stdout: "".into(),
            stderr: "".into(),
        })
        .unwrap();
    assert!(result.is_error);
}

#[test]
fn shell_tool_shows_standard_error_of_a_failed_command() {
    let tool = ShellTool::builder()
        .timeout(Duration::from_secs(60))
        .max_output(4)
        .build();
    let outcome = ShellOutcome::Finished {
        success: false,
        stdout: "out".into(),
        stderr: "bad thing".into(),
    };
    let result = tool.output(outcome).unwrap();
    // The mark does not fit into four bytes.
    assert_eq!(result.content, "bad ");
    assert!(result.is_error);
    assert!(matches!(
        tool.output(ShellOutcome::TimedOut),
        Err(ToolError::ExecutionFailed(_))
    ));
}

// --- read_file ---

#[test]
fn read_file_tool_spec() {
    let tool = ReadFileTool::new();
    let spec = tool.spec(Json::object_schema());
    assert_eq!(spec.name, "read_file");
    assert!(spec.parameters.is_object());
}

#[test]
fn read_file_tool_error_on_missing_file() {
    let tool = ReadFileTool::new();
    let result = tool.output(Err("No such file or directory (os error 2)".into()));
    assert!(result.is_error);
}

#[test]
fn read_file_tool_cuts_between_characters() {
    let tool = ReadFileTool::builder().max_size(4).build();
    let result = tool.output(Ok("日本語".into()));
    assert!(!result.is_error);
    assert_eq!(result.content, "日");
}

#[test]
fn output_is_capped_with_the_mark_counted() {
    let tool = ReadFileTool::with_max_size(20);
    assert_eq!(tool.output(Ok("x".repeat(20))).content, "x".repeat(20));
    let result = tool.output(Ok("x".repeat(21)));
    assert_eq!(result.content, "xxxxx\n...[truncated]");
    assert_eq!(result.content.len(), 20);
    // Five bytes are left beside the mark, and one character of three fits.
    let result = tool.output(Ok("日".repeat(7)));
    assert_eq!(result.content, "日\n...[truncated]");

    let tool = ShellTool::builder().max_output(15).build();
    let finished = |stdout: &str| ShellOutcome::Finished {
        success: true,
        stdout: stdout.into(),
        stderr: "".into(),
    };
    let result = tool.output(finished("sixteen letters!")).unwrap();
    assert_eq!(result.content, "\n...[truncated]");
    let tool = ShellTool::builder().max_output(14).build();
    let result = tool.output(finished("sixteen letters!")).unwrap();
    assert_eq!(result.content, "sixteen letter");
}

#[test]
fn default_output_limits_hold() {
    let result = ReadFileTool::new().output(Ok("x".repeat(70_000)));
    assert_eq!(result.content.len(), 65_536);
    assert!(result.content.ends_with("\n...[truncated]"));
    let result = ShellTool::new()
        .output(ShellOutcome::Finished {
            success: true,
            stdout: "x".repeat(40_000),
            stderr: "".into(),
        })
        .unwrap();
    assert_eq!(result.content.len(), 32_768);
}

// --- edit_file ---

fn edit(path: &str, old_text: &str, new_text: &str) -> EditFileArgs {
    EditFileArgs {
        path: path.into(),
        old_text: old_text.into(),
        new_text: new_text.into(),
    }
}

#[test]
fn edit_file_tool_spec() {
    let tool = EditFileTool::new();
    let spec = tool.spec(Json::object_schema());
    assert_eq!(spec.name, "edit_file");
    assert!(spec.parameters.is_object());
    assert!(!spec.description.is_empty());
}

#[test]
fn edit_file_tool_successful_replace() {
    let args = edit("test.txt", "world", "rust");
    assert!(args.refusal().is_none());
    assert_eq!(args.apply("hello world").unwrap(), "hello rust");
    assert!(!args.done().is_error);
}

#[test]
fn edit_file_tool_file_not_found() {
    let args = edit("/nonexistent/file.txt", "a", "b");
    let result = args.read_failed("No such file or directory (os error 2)");
    assert!(result.is_error);
    assert!(result.content.contains("/nonexistent/file.txt"));
}

#[test]
fn edit_file_tool_old_text_not_found() {
    let result = edit("test.txt", "nonexistent", "anything")
        .apply("hello world")
        .unwrap_err();
    assert!(result.is_error);
    assert!(result.content.contains("not found"));
}

#[test]
fn edit_file_tool_ambiguous_match() {
    let result = edit("test.txt", "aaa", "ccc").apply("aaa bbb aaa").unwrap_err();
    assert!(result.is_error);
    assert!(result.content.contains("2 times"));
}

#[test]
fn edit_file_tool_unicode_content() {
    let edited = edit("test.txt", "テスト", "サンプル").apply("日本語のテスト文字列");
    assert_eq!(edited.unwrap(), "日本語のサンプル文字列");
}

#[test]
fn edit_can_be_undone() {
    let edited = edit("t", "old", "fresh").apply("an old coat").unwrap();
    assert_eq!(edited, "an fresh coat");
    assert_eq!(edit("t", "fresh", "old").apply(&edited).unwrap(), "an old coat");
}

#[test]
fn edit_without_old_text_is_refused() {
    assert!(edit("t", "", "x").refusal().unwrap().is_error);
}

// --- the tool loop ---

fn ctx(name: &str) -> AgentCtx {
    AgentCtx::new(AgentId::new(), name.into(), true, None, RoleRegistry::new())
}

fn plain_response(content: &str, prompt: u64, completion: u64) -> LlmResponse {
    LlmResponse {
        content: content.into(),
        prompt_tokens: prompt,
        completion_tokens: completion,
        tool_calls: vec![],
    }
}

fn tool_call_response(calls: Vec<ToolCall>, prompt: u64, completion: u64) -> LlmResponse {
    LlmResponse {
        content: String::new(),
        prompt_tokens: prompt,
        completion_tokens: completion,
        tool_calls: calls,
    }
}

fn call(id: &str, name: &str, arguments: &str) -> ToolCall {
    ToolCall {
        id: id.into(),
        name: name.into(),
        arguments: json(arguments),
    }
}

/// An agent that runs the tool loop against scripted responses. Gives what came
/// out, the LLM calls made, and the last request.
fn run_loop(
    responses: Vec<LlmResponse>,
    registry: &ToolRegistry<Arc<EchoTool>>,
    mut budget: Option<BudgetTracker>,
    instruction: &str,
) -> (Result<ToolLoopResult, AgentError>, usize, Vec<String>) {
    let mut ctx = ctx("test");
    let request = LlmRequest::builder()
        .user(instruction)
        .tools(registry.specs())
        .build();
    let mut scripted = responses.into_iter();
    let mut calls = 0usize;
    let mut tool_loop = match ToolLoop::start(&request, 10) {
        Ok(tool_loop) => tool_loop,
        Err(error) => return (Err(error), 0, vec![]),
    };
    loop {
        let asked = tool_loop.request().clone();
        if let Err(error) = ctx.begin_chat(&asked, budget.as_ref()) {
            return (Err(error), calls, vec![]);
        }
        calls += 1;
        let outcome = scripted
            .next()
            .ok_or(LlmError::InvalidResponse("no more scripted responses".into()));
        let response = match ctx.finish_chat(&asked, outcome, budget.as_mut()) {
            Ok(done) => done.response,
            Err(error) => return (Err(error), calls, vec![]),
        };
        assert!(tool_loop.has_room(&response));
        match tool_loop.on_response(response) {
            LoopStep::Done(result) => {
                let contents = tool_loop.request().messages.iter().map(|m| m.content.clone());
                return (Ok(result), calls, contents.collect());
            }
            LoopStep::CallTools(wanted) => {
                for call in &wanted {
                    let result = invoke(registry, &call.name, &call.arguments);
                    tool_loop.on_tool_result(call, result);
                }
            }
        }
    }
}

fn tokens(result: &ToolLoopResult) -> u64 {
    result.total_prompt_tokens + result.total_completion_tokens
}

#[test]
fn chat_with_tools_immediate_text() {
    let registry = ToolRegistry::new();
    let (result, calls, _) =
        run_loop(vec![plain_response("hello", 10, 5)], &registry, None, "hi");
    let result = result.unwrap();
    assert_eq!(result.response.content, "hello");
    assert_eq!(tokens(&result), 15); // 10 + 5
    assert_eq!(calls, 1);
}

#[test]
fn chat_with_tools_one_tool_round() {
    // LLM calls echo tool, then returns final text
    let responses = vec![
        tool_call_response(vec![call("call_1", "echo", r#"{"text": "tool result"}"#)], 10, 5),
        plain_response("done", 20, 10),
    ];
    let (result, calls, contents) = run_loop(responses, &echo_registry(), None, "test");
    let result = result.unwrap();
    assert_eq!(result.response.content, "done");
    // Total tokens: (10+5) + (20+10) = 45
    assert_eq!(tokens(&result), 45);
    assert_eq!(calls, 2);
    assert_eq!(contents, ["test", "", "tool result"]);
}

#[test]
fn chat_with_tools_max_iterations() {
    // LLM always returns tool calls, should stop at the cap
    let responses: Vec<_> = (0..10)
        .map(|i| {
            let id = format!("call_{i}");
            tool_call_response(vec![call(&id, "echo", r#"{"text": "loop"}"#)], 10, 5)
        })
        .collect();
    let (result, calls, _) = run_loop(responses, &echo_registry(), None, "loop");
    let result = result.unwrap();
    // Should have made exactly 10 LLM calls
    assert_eq!(calls, 10);
    // Output is empty because last response was a tool call
    assert_eq!(result.response.content, "");
    assert_eq!(result.iterations, 10);
    assert!(!result.response.tool_calls.is_empty());
}

#[test]
fn chat_with_tools_tool_error_is_non_fatal() {
    // LLM calls a nonexistent tool, then gets the error and responds with text
    let responses = vec![
        tool_call_response(vec![call("call_1", "nonexistent", "{}")], 10, 5),
        plain_response("recovered", 20, 10),
    ];
    let registry = ToolRegistry::new(); // no tools registered
    let (result, calls, contents) = run_loop(responses, &registry, None, "test");
    assert_eq!(result.unwrap().response.content, "recovered");
    assert_eq!(calls, 2);
    assert_eq!(contents[2], "Tool error: tool not found: nonexistent");
}

#[test]
fn chat_with_tools_token_aggregation() {
    // Three iterations: tool call, tool call, final text
    let responses = vec![
        tool_call_response(vec![call("c1", "echo", r#"{"text": "a"}"#)], 100, 50),
        tool_call_response(vec![call("c2", "echo", r#"{"text": "b"}"#)], 200, 100),
        plain_response("final", 300, 150),
    ];
    let (result, calls, _) = run_loop(responses, &echo_registry(), None, "test");
    let result = result.unwrap();
    assert_eq!(result.response.content, "final");
    // Total: (100+50) + (200+100) + (300+150) = 900
    assert_eq!(tokens(&result), 900);
    assert_eq!(calls, 3);
}

#[test]
fn chat_with_tools_budget_exceeded_mid_loop() {
    // First LLM call returns tool calls (150 tokens, exceeds budget of 100).
    let responses = vec![
        tool_call_response(vec![call("c1", "echo", r#"{"text": "a"}"#)], 100, 50),
        // This should never be reached
        plain_response("unreachable", 100, 50),
    ];
    let mut budget = BudgetTracker::builder()
        .global_limit(100)
        .build_unconnected();
    budget.register_agent("test", None);
    let (result, calls, _) = run_loop(responses, &echo_registry(), Some(budget), "test");
    assert!(matches!(result, Err(AgentError::BudgetExceeded)));
    assert_eq!(calls, 1); // only first call went through
}

#[test]
fn loop_without_any_call_is_an_error() {
    let request = LlmRequest::builder().user("x").build();
    match ToolLoop::start(&request, 0) {
        Err(AgentError::HandlerFailed(what)) => {
            assert_eq!(what, "chat_with_tools called with max_iterations = 0");
        }
        _ => panic!("expected HandlerFailed"),
    }
}

#[test]
fn tool_turns_are_not_stored() {
    let mut ctx = ctx("test");
    let request = LlmRequest::builder()
        .message(ChatMessage {
            role: Role::Tool,
            content: "result".into(),
            tool_calls: vec![],
            tool_call_id: Some("c1".into()),
        })
        .user("go on")
        .build();
    ctx.finish_chat(&request, Ok(plain_response("fine", 1, 1)), None).unwrap();
    let contents: Vec<&str> = ctx.history.iter().map(|m| m.content.as_str()).collect();
    assert_eq!(contents, ["go on", "fine"]);
}
