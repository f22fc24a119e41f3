use mra::demos::coder::{CoderLoop, CoderStep, MAX_ITERATIONS};
use mra::demos::fails_this_time;
use mra::demos::pipeline::{delegated_reply, own_reply, Stage};
use mra::error::ToolError;
use mra::ids::TaskId;
use mra::json::Json;
use mra::llm::{LlmResponse, Role, ToolCall};
use mra::tool::ToolOutput;

fn response(content: &str, calls: usize) -> LlmResponse {
    LlmResponse {
        content: content.into(),
        prompt_tokens: 10,
        completion_tokens: 5,
        tool_calls: (0..calls)
            .map(|i| ToolCall {
                id: format!("c{i}"),
                name: "shell".into(),
                arguments: Json::object_schema(),
            })
            .collect(),
    }
}

#[test]
fn coder_answers_when_no_tool_is_wanted() {
    let id = TaskId::new();
    let mut coder = CoderLoop::start(id, "fix it", vec![]);
    assert_eq!(coder.request().messages[1].content, "fix it");
    assert_eq!(coder.request().temperature.unwrap().bits, 0.2f32.to_bits());
    assert_eq!(coder.request().max_tokens, Some(4096));
    let calls = match coder.on_response(response("", 2)) {
        CoderStep::CallTools(calls) => calls,
        other => panic!("expected CallTools, got: {other:?}"),
    };
    let output = ToolOutput { content: "ok".into(), is_error: false };
    coder.on_tool_result(&calls[0], Ok(output));
    coder.on_tool_result(&calls[1], Err(ToolError::NotFound("shell".into())));
    assert!(coder.on_round_done().is_none());
    let messages = &coder.request().messages;
    assert_eq!(messages.len(), 5);
    assert!(matches!(messages[4].role, Role::Tool));
    assert_eq!(messages[4].content, "Tool error: tool not found: shell");
    assert_eq!(messages[4].tool_call_id.as_deref(), Some("c1"));
    match coder.on_response(response("done", 0)) {
        CoderStep::Reply(reply) => {
            assert_eq!(reply.task_id, id);
            assert_eq!(reply.output, "done");
            assert_eq!(reply.self_tokens, 30);
            assert_eq!(reply.total_tokens, 30);
        }
        other => panic!("expected Reply, got: {other:?}"),
    }
}

#[test]
fn coder_stops_at_its_cap() {
    let mut coder = CoderLoop::start(TaskId::new(), "loop", vec![]);
    for round in 1..=MAX_ITERATIONS {
        assert!(coder.has_room(&response("", 1)));
        match coder.on_response(response("", 1)) {
            CoderStep::CallTools(calls) => {
                let output = ToolOutput { content: "ok".into(), is_error: false };
                coder.on_tool_result(&calls[0], Ok(output));
            }
            other => panic!("expected CallTools, got: {other:?}"),
        }
        assert_eq!(coder.iterations(), round);
        let over = coder.on_round_done();
        assert_eq!(over.is_some(), round == MAX_ITERATIONS);
        if let Some(reply) = over {
            assert_eq!(reply.output, "Max iterations reached");
            assert_eq!(reply.self_tokens, 150);
        }
    }
}

#[test]
fn pipeline_hands_its_work_on() {
    assert_eq!(Stage::Researcher.next(), Some(Stage::Writer));
    assert_eq!(Stage::Writer.next(), Some(Stage::Editor));
    assert_eq!(Stage::Editor.next(), None);
    assert_eq!(Stage::Writer.name(), "writer");
    let request = Stage::Writer.request("notes");
    assert_eq!(request.temperature.unwrap().bits, 0.7f32.to_bits());
    assert_eq!(request.max_tokens, Some(2048));
    assert_eq!(request.messages[1].content, "notes");
    let request = Stage::Researcher.request("topic");
    assert_eq!(request.temperature.unwrap().bits, 0.3f32.to_bits());
    assert_eq!(request.max_tokens, Some(1024));
}

#[test]
fn pipeline_totals_add_up() {
    let id = TaskId::new();
    let editor = own_reply(TaskId::new(), response("polished", 0));
    let writer = delegated_reply(TaskId::new(), 20, editor);
    let researcher = delegated_reply(id, 7, writer);
    assert_eq!(researcher.task_id, id);
    assert_eq!(researcher.output, "polished");
    assert_eq!(researcher.self_tokens, 7);
    assert_eq!(researcher.total_tokens, 42);
}

#[test]
fn every_third_request_fails() {
    let failures: Vec<bool> = (0..6).map(fails_this_time).collect();
    assert_eq!(failures, [false, false, true, false, false, true]);
}
