use mra::error::LlmError;
use mra::json::Json;
use mra::llm::openrouter::{
    assemble_response, interpret, ApiMessage, ApiReply, ApiResponse, ApiToolCall, ApiUsage,
    OpenRouterClient,
};
use mra::llm::{ChatMessage, LlmRequest, LlmResponse, Role, Temperature, ToolCall};
use mra::tool::ToolSpec;

fn json(text: &str) -> Json {
    Json::parse(text).unwrap()
}

fn degrees(value: f32) -> Temperature {
    Temperature { bits: value.to_bits() }
}

#[test]
fn test_chat_message_construction() {
    let msg = ChatMessage {
        role: Role::User,
        content: "hello".into(),
        tool_calls: vec![],
        tool_call_id: None,
    };
    assert_eq!(msg.content, "hello");
    assert!(matches!(msg.role, Role::User));
}

#[test]
fn test_llm_request_with_model() {
    let req = LlmRequest {
        model: Some("test-model".into()),
        messages: vec![ChatMessage {
            role: Role::System,
            content: "you are helpful".into(),
            tool_calls: vec![],
            tool_call_id: None,
        }],
        temperature: Some(degrees(0.7)),
        max_tokens: Some(100),
        tools: None,
    };
    assert_eq!(req.model.as_deref(), Some("test-model"));
    assert_eq!(req.messages.len(), 1);
}

#[test]
fn test_llm_request_default_model_is_none() {
    let req = LlmRequest {
        model: None,
        messages: vec![],
        temperature: None,
        max_tokens: None,
        tools: None,
    };
    assert!(req.model.is_none());
}

#[test]
fn test_llm_response_total_tokens() {
    let resp = LlmResponse {
        content: "hi".into(),
        prompt_tokens: 10,
        completion_tokens: 5,
        tool_calls: vec![],
    };
    assert_eq!(resp.total_tokens(), 15);
}

#[test]
fn test_openrouter_client_creation() {
    let client = OpenRouterClient::new(
        "https://openrouter.ai/api/v1".into(),
        "test-key".into(),
        "test-model".into(),
    );
    assert_eq!(client.model(), "test-model");
}

#[test]
fn test_role_tool_variant_exists() {
    let role = Role::Tool;
    assert!(matches!(role, Role::Tool));
}

#[test]
fn test_tool_call_construction() {
    let tc = ToolCall {
        id: "call_123".into(),
        name: "shell".into(),
        arguments: json(r#"{"command": "ls"}"#),
    };
    assert_eq!(tc.id, "call_123");
    assert_eq!(tc.name, "shell");
    assert_eq!(tc.arguments.member("command").unwrap().held_text().unwrap(), "ls");
}

#[test]
fn test_chat_message_with_tool_calls() {
    let msg = ChatMessage {
        role: Role::Assistant,
        content: "".into(),
        tool_calls: vec![ToolCall {
            id: "call_1".into(),
            name: "shell".into(),
            arguments: json(r#"{"command": "pwd"}"#),
        }],
        tool_call_id: None,
    };
    assert_eq!(msg.tool_calls.len(), 1);
    assert_eq!(msg.tool_calls[0].name, "shell");
}

#[test]
fn test_chat_message_tool_result() {
    let msg = ChatMessage {
        role: Role::Tool,
        content: "/home/user".into(),
        tool_calls: vec![],
        tool_call_id: Some("call_1".into()),
    };
    assert!(matches!(msg.role, Role::Tool));
    assert_eq!(msg.tool_call_id.as_deref(), Some("call_1"));
}

#[test]
fn test_llm_request_with_tools() {
    let req = LlmRequest {
        model: None,
        messages: vec![],
        temperature: None,
        max_tokens: None,
        tools: Some(vec![ToolSpec {
            name: "shell".into(),
            description: "Run a command".into(),
            parameters: json(r#"{}"#),
        }]),
    };
    assert_eq!(req.tools.as_ref().unwrap().len(), 1);
}

#[test]
fn test_llm_request_without_tools() {
    let req = LlmRequest {
        model: None,
        messages: vec![],
        temperature: None,
        max_tokens: None,
        tools: None,
    };
    assert!(req.tools.is_none());
}

#[test]
fn test_llm_response_with_tool_calls() {
    let resp = LlmResponse {
        content: "".into(),
        prompt_tokens: 10,
        completion_tokens: 5,
        tool_calls: vec![ToolCall {
            id: "call_abc".into(),
            name: "read_file".into(),
            arguments: json(r#"{"path": "foo.txt"}"#),
        }],
    };
    assert_eq!(resp.tool_calls.len(), 1);
    assert_eq!(resp.total_tokens(), 15);
}

#[test]
fn test_llm_response_without_tool_calls() {
    let resp = LlmResponse {
        content: "hello".into(),
        prompt_tokens: 5,
        completion_tokens: 3,
        tool_calls: vec![],
    };
    assert!(resp.tool_calls.is_empty());
}

#[test]
fn test_llm_request_builder_minimal() {
    let msg = ChatMessage {
        role: Role::User,
        content: "hi".into(),
        tool_calls: vec![],
        tool_call_id: None,
    };
    let req = LlmRequest::builder().messages(vec![msg]).build();
    assert_eq!(req.messages.len(), 1);
    assert!(req.model.is_none());
    assert!(req.temperature.is_none());
    assert!(req.max_tokens.is_none());
    assert!(req.tools.is_none());
}

#[test]
fn test_llm_request_builder_all_fields() {
    let msg = ChatMessage {
        role: Role::System,
        content: "you are helpful".into(),
        tool_calls: vec![],
        tool_call_id: None,
    };
    let tool = ToolSpec {
        name: "shell".into(),
        description: "Run a command".into(),
        parameters: json(r#"{}"#),
    };
    let req = LlmRequest::builder()
        .messages(vec![msg])
        .model("gpt-4")
        .temperature(degrees(0.5))
        .max_tokens(200)
        .tools(vec![tool])
        .build();

    assert_eq!(req.model.as_deref(), Some("gpt-4"));
    assert_eq!(req.messages.len(), 1);
    assert_eq!(req.temperature, Some(degrees(0.5)));
    assert_eq!(req.max_tokens, Some(200));
    assert_eq!(req.tools.as_ref().unwrap().len(), 1);
}

#[test]
fn test_llm_request_builder_accumulates_messages() {
    let msg1 = ChatMessage {
        role: Role::User,
        content: "hello".into(),
        tool_calls: vec![],
        tool_call_id: None,
    };
    let msg2 = ChatMessage {
        role: Role::Assistant,
        content: "hi".into(),
        tool_calls: vec![],
        tool_call_id: None,
    };
    let req = LlmRequest::builder().message(msg1).message(msg2).build();

    assert_eq!(req.messages.len(), 2);
    assert_eq!(req.messages[0].content, "hello");
    assert_eq!(req.messages[1].content, "hi");
}

#[test]
fn builder_takes_its_default_model() {
    let client = OpenRouterClient::builder()
        .api_key("test-key", "some/model")
        .build();

    assert_eq!(client.model(), "some/model");
    assert_eq!(client.chat_url(), "https://openrouter.ai/api/v1/chat/completions");
}

#[test]
fn test_openrouter_builder_custom_model() {
    let client = OpenRouterClient::builder()
        .api_key("test-key", "some/model")
        .default_model("openai/gpt-4")
        .build();

    assert_eq!(client.model(), "openai/gpt-4");
}

#[test]
fn builder_keeps_its_model_with_another_url() {
    let client = OpenRouterClient::builder()
        .api_key("test-key", "some/model")
        .base_url("http://localhost:8080")
        .build();

    // Should construct without panic; model retains default
    assert_eq!(client.model(), "some/model");
    assert_eq!(client.chat_url(), "http://localhost:8080/chat/completions");
}

#[test]
fn test_openrouter_builder_with_temperature() {
    let client = OpenRouterClient::builder()
        .api_key("test-key", "some/model")
        .default_temperature(degrees(0.3))
        .build();

    assert_eq!(client.default_temperature(), Some(degrees(0.3)));
}

#[test]
fn test_openrouter_builder_temperature_default_is_none() {
    let client = OpenRouterClient::builder().api_key("test-key", "some/model").build();

    assert_eq!(client.default_temperature(), None);
}

fn request_of(messages: Vec<ChatMessage>) -> LlmRequest {
    LlmRequest::builder().messages(messages).build()
}

#[test]
fn wire_request_fills_in_the_defaults() {
    let client = OpenRouterClient::builder()
        .api_key("test-key", "some/model")
        .default_temperature(degrees(0.3))
        .build();
    let wire = client.api_request(&request_of(vec![ChatMessage::plain(Role::User, "hi")]));
    assert_eq!(wire.model, "some/model");
    assert_eq!(wire.temperature, Some(degrees(0.3)));
    assert_eq!(wire.messages[0].role, "user");
    assert_eq!(wire.messages[0].content.as_deref(), Some("hi"));

    let own = LlmRequest::builder().model("gpt-4").temperature(degrees(0.5)).build();
    let wire = client.api_request(&own);
    assert_eq!(wire.model, "gpt-4");
    assert_eq!(wire.temperature, Some(degrees(0.5)));
}

#[test]
fn wire_message_with_calls_only_has_no_content() {
    let client = OpenRouterClient::new("http://x".into(), "k".into(), "m".into());
    let call = ToolCall {
        id: "call_1".into(),
        name: "shell".into(),
        arguments: json(r#"{ "command" : "ls" }"#),
    };
    let turn = ChatMessage {
        role: Role::Assistant,
        content: "".into(),
        tool_calls: vec![call],
        tool_call_id: None,
    };
    let wire = client.api_request(&request_of(vec![turn]));
    assert!(wire.messages[0].content.is_none());
    assert_eq!(wire.messages[0].tool_calls[0].arguments, r#"{"command":"ls"}"#);
}

#[test]
fn headers_carry_the_key() {
    let client = OpenRouterClient::new("http://x".into(), "secret".into(), "m".into());
    let headers = client.headers();
    assert!(headers.contains(&("Authorization".to_string(), "Bearer secret".to_string())));
}

fn usage() -> ApiUsage {
    ApiUsage { prompt_tokens: 7, completion_tokens: 4 }
}

fn reply_with(content: Option<&str>, calls: Option<Vec<ApiToolCall>>) -> ApiReply {
    ApiReply::Response(ApiResponse {
        choices: vec![ApiMessage {
            content: content.map(|c| c.to_string()),
            tool_calls: calls,
        }],
        usage: usage(),
    })
}

#[test]
fn reply_with_text_becomes_a_response() {
    let response = interpret(reply_with(Some("hello"), None)).unwrap();
    assert_eq!(response.content, "hello");
    assert_eq!(response.prompt_tokens, 7);
    assert_eq!(response.completion_tokens, 4);
    assert!(response.tool_calls.is_empty());
}

#[test]
fn reply_with_calls_has_its_arguments_parsed() {
    let call = ApiToolCall {
        id: "c1".into(),
        name: "shell".into(),
        arguments: r#"{ "command": "ls" }"#.into(),
    };
    let response = interpret(reply_with(None, Some(vec![call]))).unwrap();
    assert_eq!(response.content, "");
    assert_eq!(response.tool_calls[0].id, "c1");
    assert_eq!(response.tool_calls[0].arguments.as_str(), r#"{"command":"ls"}"#);
}

#[test]
fn reply_with_unreadable_arguments_is_invalid() {
    let call = ApiToolCall { id: "c1".into(), name: "shell".into(), arguments: "{".into() };
    let error = interpret(reply_with(None, Some(vec![call]))).unwrap_err();
    assert!(matches!(error, LlmError::InvalidResponse(_)));
}

#[test]
fn reply_without_anything_is_invalid() {
    let error = interpret(reply_with(None, None)).unwrap_err();
    assert!(matches!(error, LlmError::InvalidResponse(_)));
    let none = ApiReply::Response(ApiResponse { choices: vec![], usage: usage() });
    assert!(matches!(interpret(none), Err(LlmError::InvalidResponse(_))));
}

#[test]
fn refused_requests_are_told_apart() {
    let refused = |status: u16| ApiReply::Refused { status, body: "no".into() };
    assert!(matches!(interpret(refused(429)), Err(LlmError::RateLimit)));
    match interpret(refused(503)) {
        Err(LlmError::ApiError { status, message }) => {
            assert_eq!(status, 503);
            assert_eq!(message, "no");
        }
        other => panic!("expected ApiError, got: {other:?}"),
    }
}

#[test]
fn parsed_arguments_are_kept_in_order() {
    let calls = vec![
        ApiToolCall { id: "a".into(), name: "x".into(), arguments: "1".into() },
        ApiToolCall { id: "b".into(), name: "y".into(), arguments: "2".into() },
    ];
    let arguments = vec![Ok(json("1")), Ok(json("2"))];
    let response = assemble_response(None, calls, arguments, usage()).unwrap();
    assert_eq!(response.tool_calls[1].id, "b");
    assert_eq!(response.tool_calls[1].arguments.as_str(), "2");
}
