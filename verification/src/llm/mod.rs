//! Chat messages, requests and responses.

pub mod openrouter;

use vstd::prelude::*;

use crate::json::Json;
use crate::sequences;
use crate::tool::ToolSpec;
use crate::tool::ToolSpecView;

verus! {

/// Role in a chat conversation.
#[derive(Debug, Clone, Copy, PartialEq, Eq, Structural)]
pub enum Role {
    /// Instructions to the model.
    System,
    /// The user's turn.
    User,
    /// The model's turn.
    Assistant,
    /// The result of a tool call.
    Tool,
}

impl Role {
    /// The name of the role on the wire.
    pub open spec fn name(&self) -> Seq<char> {
        match self {
            Role::System => "system"@,
            Role::User => "user"@,
            Role::Assistant => "assistant"@,
            Role::Tool => "tool"@,
        }
    }

    /// The name of the role on the wire.
    pub fn as_str(&self) -> (r: &'static str)
        ensures
            r@ == self.name(),
    {
        match self {
            Role::System => "system",
            Role::User => "user",
            Role::Assistant => "assistant",
            Role::Tool => "tool",
        }
    }
}

/// A sampling temperature: the bits of a single-precision number. It is handed
/// to the provider as it is.
#[derive(Debug, Clone, Copy, PartialEq, Eq, Structural)]
pub struct Temperature {
    /// The bits of the number in the IEEE 754 binary32 format.
    pub bits: u32,
}

/// A tool call that the model asks for.
#[derive(Debug)]
pub struct ToolCall {
    /// Identifier that ties the result to the call.
    pub id: String,
    /// Name of the tool.
    pub name: String,
    /// Arguments for the tool.
    pub arguments: Json,
}

/// What a [`ToolCall`] holds.
pub struct ToolCallView {
    /// Identifier of the call.
    pub id: Seq<char>,
    /// Name of the tool.
    pub name: Seq<char>,
    /// Arguments for the tool.
    pub arguments: Seq<char>,
}

impl View for ToolCall {
    type V = ToolCallView;

    open spec fn view(&self) -> ToolCallView {
        ToolCallView { id: self.id@, name: self.name@, arguments: self.arguments@ }
    }
}

impl Clone for ToolCall {
    fn clone(&self) -> (r: ToolCall)
        ensures
            r == *self,
    {
        ToolCall {
            id: self.id.clone(),
            name: self.name.clone(),
            arguments: self.arguments.clone(),
        }
    }
}

/// What a list of calls holds.
pub open spec fn calls_view(calls: Seq<ToolCall>) -> Seq<ToolCallView> {
    calls.map_values(|call: ToolCall| call@)
}

/// A copy of a list of calls.
pub fn clone_calls(calls: &Vec<ToolCall>) -> (r: Vec<ToolCall>)
    ensures
        r@ == calls@,
{
    let mut copy: Vec<ToolCall> = Vec::new();
    let mut i: usize = 0;
    while i < calls.len()
        invariant
            i <= calls@.len(),
            copy@ == calls@.take(i as int),
        decreases calls@.len() - i,
    {
        copy.push(calls[i].clone());
        assert(calls@.take(i + 1) =~= calls@.take(i as int).push(calls@[i as int]));
        i += 1;
    }
    assert(calls@.take(i as int) =~= calls@);
    copy
}

/// A single message in a chat conversation.
#[derive(Debug)]
pub struct ChatMessage {
    /// Whose turn it is.
    pub role: Role,
    /// The text.
    pub content: String,
    /// The tool calls that an assistant turn asks for.
    pub tool_calls: Vec<ToolCall>,
    /// The call that a tool turn answers.
    pub tool_call_id: Option<String>,
}

/// What a [`ChatMessage`] holds.
pub struct MessageView {
    /// Whose turn it is.
    pub role: Role,
    /// The text.
    pub content: Seq<char>,
    /// The tool calls.
    pub tool_calls: Seq<ToolCallView>,
    /// The call that is answered.
    pub tool_call_id: Option<Seq<char>>,
}

impl MessageView {
    /// A turn of text only.
    pub open spec fn plain(role: Role, content: Seq<char>) -> MessageView {
        MessageView { role, content, tool_calls: Seq::empty(), tool_call_id: None }
    }
}

impl View for ChatMessage {
    type V = MessageView;

    open spec fn view(&self) -> MessageView {
        MessageView {
            role: self.role,
            content: self.content@,
            tool_calls: calls_view(self.tool_calls@),
            tool_call_id: sequences::text_of(self.tool_call_id),
        }
    }
}

impl Clone for ChatMessage {
    fn clone(&self) -> (r: ChatMessage)
        ensures
            r@ == self@,
    {
        ChatMessage {
            role: self.role,
            content: self.content.clone(),
            tool_calls: clone_calls(&self.tool_calls),
            tool_call_id: sequences::clone_text(&self.tool_call_id),
        }
    }
}

impl ChatMessage {
    /// A turn of text only.
    pub fn plain(role: Role, content: &str) -> (r: ChatMessage)
        ensures
            r@ == MessageView::plain(role, content@),
    {
        let r = ChatMessage {
            role,
            content: content.to_owned(),
            tool_calls: Vec::new(),
            tool_call_id: None,
        };
        assert(r@.tool_calls =~= Seq::empty());
        r
    }
}

/// What a list of messages holds.
pub open spec fn messages_view(messages: Seq<ChatMessage>) -> Seq<MessageView> {
    messages.map_values(|message: ChatMessage| message@)
}

/// Adds copies of `more` to the end of `messages`.
pub fn extend_messages(messages: &mut Vec<ChatMessage>, more: &Vec<ChatMessage>)
    ensures
        messages_view(final(messages)@) == messages_view(old(messages)@) + messages_view(more@),
{
    let ghost before = messages_view(messages@);
    let mut i: usize = 0;
    assert(messages_view(more@).take(0) =~= Seq::empty());
    assert(before + Seq::<MessageView>::empty() =~= before);
    while i < more.len()
        invariant
            i <= more@.len(),
            messages_view(messages@) == before + messages_view(more@).take(i as int),
        decreases more@.len() - i,
    {
        let message = more[i].clone();
        proof {
            assert(messages_view(messages@.push(message)) =~= messages_view(messages@).push(
                message@,
            ));
            assert(messages_view(more@).take(i + 1) =~= messages_view(more@).take(i as int).push(
                message@,
            ));
            assert(before + messages_view(more@).take(i as int).push(message@) =~= (before
                + messages_view(more@).take(i as int)).push(message@));
        }
        messages.push(message);
        i += 1;
    }
    assert(messages_view(more@).take(i as int) =~= messages_view(more@));
}

/// A copy of a list of messages.
pub fn clone_messages(messages: &Vec<ChatMessage>) -> (r: Vec<ChatMessage>)
    ensures
        messages_view(r@) == messages_view(messages@),
{
    let mut copy: Vec<ChatMessage> = Vec::new();
    assert(messages_view(copy@) =~= Seq::<MessageView>::empty());
    extend_messages(&mut copy, messages);
    assert(Seq::<MessageView>::empty() + messages_view(messages@) =~= messages_view(messages@));
    copy
}

/// Request payload for an LLM chat completion.
///
/// `model` is optional: if `None`, the provider uses its configured default.
#[derive(Debug)]
pub struct LlmRequest {
    /// The model to use.
    pub model: Option<String>,
    /// The conversation.
    pub messages: Vec<ChatMessage>,
    /// The sampling temperature.
    pub temperature: Option<Temperature>,
    /// The longest answer to give.
    pub max_tokens: Option<u32>,
    /// The tools that the model may ask for.
    pub tools: Option<Vec<ToolSpec>>,
}

/// What an [`LlmRequest`] holds.
pub struct RequestView {
    /// The model to use.
    pub model: Option<Seq<char>>,
    /// The conversation.
    pub messages: Seq<MessageView>,
    /// The sampling temperature.
    pub temperature: Option<Temperature>,
    /// The longest answer to give.
    pub max_tokens: Option<u32>,
    /// The tools that the model may ask for.
    pub tools: Option<Seq<ToolSpecView>>,
}

/// What a list of tools holds.
pub open spec fn specs_view(specs: Seq<ToolSpec>) -> Seq<ToolSpecView> {
    specs.map_values(|spec: ToolSpec| spec@)
}

/// What an optional list of tools holds.
pub open spec fn tools_view(tools: Option<Vec<ToolSpec>>) -> Option<Seq<ToolSpecView>> {
    match tools {
        Some(specs) => Some(specs_view(specs@)),
        None => None,
    }
}

impl View for LlmRequest {
    type V = RequestView;

    open spec fn view(&self) -> RequestView {
        RequestView {
            model: sequences::text_of(self.model),
            messages: messages_view(self.messages@),
            temperature: self.temperature,
            max_tokens: self.max_tokens,
            tools: tools_view(self.tools),
        }
    }
}

/// A copy of an optional list of tools.
pub fn clone_tools(tools: &Option<Vec<ToolSpec>>) -> (r: Option<Vec<ToolSpec>>)
    ensures
        tools_view(r) == tools_view(*tools),
{
    match tools {
        None => None,
        Some(specs) => {
            let mut copy: Vec<ToolSpec> = Vec::new();
            let mut i: usize = 0;
            while i < specs.len()
                invariant
                    i <= specs@.len(),
                    copy@ == specs@.take(i as int),
                decreases specs@.len() - i,
            {
                copy.push(specs[i].clone());
                assert(specs@.take(i + 1) =~= specs@.take(i as int).push(specs@[i as int]));
                i += 1;
            }
            assert(specs@.take(i as int) =~= specs@);
            Some(copy)
        },
    }
}

impl LlmRequest {
    /// The same request with another conversation.
    pub fn with_messages(&self, messages: Vec<ChatMessage>) -> (r: LlmRequest)
        ensures
            r@ == (RequestView { messages: messages_view(messages@), ..self@ }),
    {
        LlmRequest {
            model: sequences::clone_text(&self.model),
            messages,
            temperature: self.temperature,
            max_tokens: self.max_tokens,
            tools: clone_tools(&self.tools),
        }
    }

    /// Returns a builder for a request without messages.
    pub fn builder() -> (r: LlmRequestBuilder)
        ensures
            r@ == (RequestView {
                model: None,
                messages: Seq::empty(),
                temperature: None,
                max_tokens: None,
                tools: None,
            }),
    {
        let r = LlmRequestBuilder {
            inner: LlmRequest {
                model: None,
                messages: Vec::new(),
                temperature: None,
                max_tokens: None,
                tools: None,
            },
        };
        assert(r@.messages =~= Seq::empty());
        r
    }
}

impl Clone for LlmRequest {
    fn clone(&self) -> (r: LlmRequest)
        ensures
            r@ == self@,
    {
        self.with_messages(clone_messages(&self.messages))
    }
}

/// Builder for [`LlmRequest`].
#[derive(Debug)]
pub struct LlmRequestBuilder {
    inner: LlmRequest,
}

impl View for LlmRequestBuilder {
    type V = RequestView;

    closed spec fn view(&self) -> RequestView {
        self.inner@
    }
}

impl LlmRequestBuilder {
    /// Sets the conversation.
    pub fn messages(self, messages: Vec<ChatMessage>) -> (r: Self)
        ensures
            r@ == (RequestView { messages: messages_view(messages@), ..self@ }),
    {
        LlmRequestBuilder { inner: LlmRequest { messages, ..self.inner } }
    }

    /// Adds a message to the end of the conversation.
    pub fn message(self, message: ChatMessage) -> (r: Self)
        ensures
            r@ == (RequestView { messages: self@.messages.push(message@), ..self@ }),
    {
        let mut inner = self.inner;
        assert(messages_view(inner.messages@.push(message)) =~= messages_view(
            inner.messages@,
        ).push(message@));
        inner.messages.push(message);
        LlmRequestBuilder { inner }
    }

    /// Adds a system turn to the end of the conversation.
    pub fn system(self, content: &str) -> (r: Self)
        ensures
            r@ == (RequestView {
                messages: self@.messages.push(MessageView::plain(Role::System, content@)),
                ..self@
            }),
    {
        self.message(ChatMessage::plain(Role::System, content))
    }

    /// Adds a user turn to the end of the conversation.
    pub fn user(self, content: &str) -> (r: Self)
        ensures
            r@ == (RequestView {
                messages: self@.messages.push(MessageView::plain(Role::User, content@)),
                ..self@
            }),
    {
        self.message(ChatMessage::plain(Role::User, content))
    }

    /// Sets the model.
    pub fn model(self, model: &str) -> (r: Self)
        ensures
            r@ == (RequestView { model: Some(model@), ..self@ }),
    {
        LlmRequestBuilder { inner: LlmRequest { model: Some(model.to_owned()), ..self.inner } }
    }

    /// Sets the sampling temperature.
    pub fn temperature(self, temperature: Temperature) -> (r: Self)
        ensures
            r@ == (RequestView { temperature: Some(temperature), ..self@ }),
    {
        LlmRequestBuilder { inner: LlmRequest { temperature: Some(temperature), ..self.inner } }
    }

    /// Sets the longest answer to give.
    pub fn max_tokens(self, max_tokens: u32) -> (r: Self)
        ensures
            r@ == (RequestView { max_tokens: Some(max_tokens), ..self@ }),
    {
        LlmRequestBuilder { inner: LlmRequest { max_tokens: Some(max_tokens), ..self.inner } }
    }

    /// Sets the tools that the model may ask for.
    pub fn tools(self, tools: Vec<ToolSpec>) -> (r: Self)
        ensures
            r@ == (RequestView { tools: Some(specs_view(tools@)), ..self@ }),
    {
        LlmRequestBuilder { inner: LlmRequest { tools: Some(tools), ..self.inner } }
    }

    /// Builds the request.
    pub fn build(self) -> (r: LlmRequest)
        ensures
            r@ == self@,
    {
        self.inner
    }
}

/// Response from an LLM chat completion.
#[derive(Debug)]
pub struct LlmResponse {
    /// The answer's text.
    pub content: String,
    /// Tokens of the request.
    pub prompt_tokens: u64,
    /// Tokens of the answer.
    pub completion_tokens: u64,
    /// The tool calls that the model asks for.
    pub tool_calls: Vec<ToolCall>,
}

/// What an [`LlmResponse`] holds.
pub struct ResponseView {
    /// The answer's text.
    pub content: Seq<char>,
    /// Tokens of the request.
    pub prompt_tokens: u64,
    /// Tokens of the answer.
    pub completion_tokens: u64,
    /// The tool calls that the model asks for.
    pub tool_calls: Seq<ToolCallView>,
}

impl View for LlmResponse {
    type V = ResponseView;

    open spec fn view(&self) -> ResponseView {
        ResponseView {
            content: self.content@,
            prompt_tokens: self.prompt_tokens,
            completion_tokens: self.completion_tokens,
            tool_calls: calls_view(self.tool_calls@),
        }
    }
}

impl LlmResponse {
    /// The tokens consumed can be counted.
    pub open spec fn countable(&self) -> bool {
        self.prompt_tokens + self.completion_tokens <= u64::MAX
    }

    /// Total tokens consumed (prompt + completion).
    pub fn total_tokens(&self) -> (r: u64)
        requires
            self.countable(),
        ensures
            r == self.prompt_tokens + self.completion_tokens,
    {
        self.prompt_tokens + self.completion_tokens
    }
}

/// What is said of a message, a request and a response is all that they hold: every
/// turn with its role, its text, its calls and the call it answers, and every tool
/// with its name, description and parameters, in order.
pub proof fn law_nothing_of_a_conversation_is_lost(
    request: LlmRequest,
    response: LlmResponse,
    i: int,
    j: int,
)
    ensures
        request@.messages.len() == request.messages@.len(),
        0 <= i < request.messages@.len() ==> {
            let held = request.messages@[i];
            let seen = request@.messages[i];
            &&& seen.role == held.role
            &&& seen.content == held.content@
            &&& seen.tool_calls.len() == held.tool_calls@.len()
            &&& 0 <= j < held.tool_calls@.len() ==> {
                &&& seen.tool_calls[j].id == held.tool_calls@[j].id@
                &&& seen.tool_calls[j].name == held.tool_calls@[j].name@
                &&& seen.tool_calls[j].arguments == held.tool_calls@[j].arguments@
            }
            &&& match held.tool_call_id {
                Some(id) => seen.tool_call_id == Some(id@),
                None => seen.tool_call_id is None,
            }
        },
        match request.model {
            Some(model) => request@.model == Some(model@),
            None => request@.model is None,
        },
        request@.temperature == request.temperature,
        request@.max_tokens == request.max_tokens,
        match request.tools {
            Some(tools) => {
                &&& request@.tools matches Some(seen)
                &&& seen.len() == tools@.len()
                &&& 0 <= j < tools@.len() ==> {
                    &&& seen[j].name == tools@[j].name@
                    &&& seen[j].description == tools@[j].description@
                    &&& seen[j].parameters == tools@[j].parameters@
                }
            },
            None => request@.tools is None,
        },
        response@.content == response.content@,
        response@.prompt_tokens == response.prompt_tokens,
        response@.completion_tokens == response.completion_tokens,
        response@.tool_calls.len() == response.tool_calls@.len(),
        0 <= j < response.tool_calls@.len() ==> {
            &&& response@.tool_calls[j].id == response.tool_calls@[j].id@
            &&& response@.tool_calls[j].name == response.tool_calls@[j].name@
            &&& response@.tool_calls[j].arguments == response.tool_calls@[j].arguments@
        },
{
}

/// The names of the roles on the wire tell the roles apart.
pub proof fn law_role_names_differ(a: Role, b: Role)
    requires
        a.name() == b.name(),
    ensures
        a == b,
{
    reveal_strlit("system");
    reveal_strlit("user");
    reveal_strlit("assistant");
    reveal_strlit("tool");
    assert("system"@[0] == 's');
    assert("user"@[0] == 'u');
    assert("assistant"@[0] == 'a');
    assert("tool"@[0] == 't');
}

} // verus!
