//! OpenRouter (OpenAI-compatible) LLM client.
//!
//! [`OpenRouterClient`] holds what a client is set up with. It turns an
//! [`LlmRequest`] into the request that goes over the wire, and reads what comes
//! back. The connection itself is up to the caller.

use vstd::prelude::*;

use crate::error::LlmError;
use crate::json::Json;
use crate::llm::ChatMessage;
use crate::llm::LlmRequest;
use crate::llm::LlmResponse;
use crate::llm::MessageView;
use crate::llm::RequestView;
use crate::llm::ResponseView;
use crate::llm::Temperature;
use crate::llm::ToolCall;
use crate::llm::ToolCallView;
use crate::sequences;
use crate::text::join2;
use crate::text::join3;
use crate::tool::ToolSpec;
use crate::tool::ToolSpecView;

verus! {

/// A tool call on the wire.
#[derive(Debug)]
pub struct ApiToolCall {
    /// Identifier of the call.
    pub id: String,
    /// Name of the function.
    pub name: String,
    /// Arguments of the function, as JSON text.
    pub arguments: String,
}

impl View for ApiToolCall {
    type V = ToolCallView;

    open spec fn view(&self) -> ToolCallView {
        ToolCallView { id: self.id@, name: self.name@, arguments: self.arguments@ }
    }
}

/// What a list of calls on the wire holds.
pub open spec fn api_calls_view(calls: Seq<ApiToolCall>) -> Seq<ToolCallView> {
    calls.map_values(|call: ApiToolCall| call@)
}

/// A message of the request on the wire.
#[derive(Debug)]
pub struct ApiOutMessage {
    /// Name of the role.
    pub role: String,
    /// The text, if there is any to send.
    pub content: Option<String>,
    /// The tool calls, left out on the wire if there are none.
    pub tool_calls: Vec<ApiToolCall>,
    /// The call that is answered.
    pub tool_call_id: Option<String>,
}

/// What an [`ApiOutMessage`] holds.
pub struct ApiOutMessageView {
    /// Name of the role.
    pub role: Seq<char>,
    /// The text, if there is any to send.
    pub content: Option<Seq<char>>,
    /// The tool calls.
    pub tool_calls: Seq<ToolCallView>,
    /// The call that is answered.
    pub tool_call_id: Option<Seq<char>>,
}

impl View for ApiOutMessage {
    type V = ApiOutMessageView;

    open spec fn view(&self) -> ApiOutMessageView {
        ApiOutMessageView {
            role: self.role@,
            content: sequences::text_of(self.content),
            tool_calls: api_calls_view(self.tool_calls@),
            tool_call_id: sequences::text_of(self.tool_call_id),
        }
    }
}

/// What a list of messages on the wire holds.
pub open spec fn api_messages_view(messages: Seq<ApiOutMessage>) -> Seq<ApiOutMessageView> {
    messages.map_values(|message: ApiOutMessage| message@)
}

/// A message on the wire: the text is left out where it is empty and the turn
/// consists of tool calls.
pub open spec fn wire_message(message: MessageView) -> ApiOutMessageView {
    ApiOutMessageView {
        role: message.role.name(),
        content: if message.content.len() == 0 && message.tool_calls.len() > 0 {
            None
        } else {
            Some(message.content)
        },
        tool_calls: message.tool_calls,
        tool_call_id: message.tool_call_id,
    }
}

/// The request on the wire.
#[derive(Debug)]
pub struct ApiRequest {
    /// The model to use.
    pub model: String,
    /// The conversation.
    pub messages: Vec<ApiOutMessage>,
    /// The sampling temperature.
    pub temperature: Option<Temperature>,
    /// The longest answer to give.
    pub max_tokens: Option<u32>,
    /// The tools that the model may ask for, each as a function.
    pub tools: Option<Vec<ToolSpec>>,
}

/// What an [`ApiRequest`] holds.
pub struct ApiRequestView {
    /// The model to use.
    pub model: Seq<char>,
    /// The conversation.
    pub messages: Seq<ApiOutMessageView>,
    /// The sampling temperature.
    pub temperature: Option<Temperature>,
    /// The longest answer to give.
    pub max_tokens: Option<u32>,
    /// The tools that the model may ask for.
    pub tools: Option<Seq<ToolSpecView>>,
}

impl View for ApiRequest {
    type V = ApiRequestView;

    open spec fn view(&self) -> ApiRequestView {
        ApiRequestView {
            model: self.model@,
            messages: api_messages_view(self.messages@),
            temperature: self.temperature,
            max_tokens: self.max_tokens,
            tools: crate::llm::tools_view(self.tools),
        }
    }
}

/// The assistant message of a response on the wire.
#[derive(Debug)]
pub struct ApiMessage {
    /// The text.
    pub content: Option<String>,
    /// The tool calls.
    pub tool_calls: Option<Vec<ApiToolCall>>,
}

/// The usage that a response on the wire reports.
#[derive(Debug, Clone, Copy, PartialEq, Eq, Structural)]
pub struct ApiUsage {
    /// Tokens of the request.
    pub prompt_tokens: u64,
    /// Tokens of the answer.
    pub completion_tokens: u64,
}

/// A response on the wire.
#[derive(Debug)]
pub struct ApiResponse {
    /// The answers to choose from.
    pub choices: Vec<ApiMessage>,
    /// The tokens consumed.
    pub usage: ApiUsage,
}

/// What came back for a request.
#[derive(Debug)]
pub enum ApiReply {
    /// The request could not be sent or nothing came back.
    Failed(String),
    /// An answer whose status is not a success, with its body.
    Refused {
        /// The HTTP status.
        status: u16,
        /// The body of the answer.
        body: String,
    },
    /// A successful answer whose body is not a response.
    Unreadable(String),
    /// A response.
    Response(ApiResponse),
}

/// Whether an HTTP status is a success.
pub fn is_success(status: u16) -> (r: bool)
    ensures
        r == (200 <= status < 300),
{
    200 <= status && status < 300
}

/// The calls of an assistant message; none if there is no list.
pub open spec fn calls_of(message: ApiMessage) -> Seq<ToolCallView> {
    match message.tool_calls {
        Some(calls) => api_calls_view(calls@),
        None => Seq::empty(),
    }
}

/// The text of an assistant message; empty if there is none.
pub open spec fn content_of(message: ApiMessage) -> Seq<char> {
    match message.content {
        Some(content) => content@,
        None => Seq::empty(),
    }
}

/// What arguments that were read hold.
pub open spec fn argument_view(argument: Result<Json, String>) -> Result<Seq<char>, Seq<char>> {
    match argument {
        Ok(value) => Ok(value@),
        Err(message) => Err(message@),
    }
}

/// What a list of arguments that were read holds.
pub open spec fn arguments_view(arguments: Seq<Result<Json, String>>) -> Seq<
    Result<Seq<char>, Seq<char>>,
> {
    arguments.map_values(|argument: Result<Json, String>| argument_view(argument))
}

/// The arguments of the calls, each read as JSON.
pub open spec fn parsed_arguments(calls: Seq<ToolCallView>) -> Seq<Result<Seq<char>, Seq<char>>> {
    calls.map_values(|call: ToolCallView| crate::json::json_parsed(call.arguments))
}

/// The calls with their arguments, or the message about the first call whose
/// arguments could not be read.
pub open spec fn assembled(
    calls: Seq<ToolCallView>,
    arguments: Seq<Result<Seq<char>, Seq<char>>>,
) -> Result<Seq<ToolCallView>, Seq<char>>
    decreases calls.len(),
{
    if calls.len() == 0 {
        Ok(Seq::empty())
    } else {
        match assembled(calls.drop_last(), arguments) {
            Err(message) => Err(message),
            Ok(done) => {
                let call = calls.last();
                match arguments[calls.len() - 1] {
                    Ok(value) => Ok(done.push(ToolCallView { arguments: value, ..call })),
                    Err(error) => Err(
                        "invalid tool call arguments for "@ + call.name + ": "@ + error,
                    ),
                }
            },
        }
    }
}

/// What an assistant message says: its text and its calls. A message with
/// neither, or with unreadable arguments, is invalid.
pub open spec fn read_message(
    content: Seq<char>,
    calls: Seq<ToolCallView>,
    arguments: Seq<Result<Seq<char>, Seq<char>>>,
    usage: ApiUsage,
) -> Result<ResponseView, Seq<char>> {
    match assembled(calls, arguments) {
        Err(message) => Err(message),
        Ok(tool_calls) => if content.len() == 0 && tool_calls.len() == 0 {
            Err("assistant message had neither content nor tool_calls"@)
        } else {
            Ok(
                ResponseView {
                    content,
                    prompt_tokens: usage.prompt_tokens,
                    completion_tokens: usage.completion_tokens,
                    tool_calls,
                },
            )
        },
    }
}

/// Whether `result` is `expected`, an error being an invalid response.
pub open spec fn is_response(
    result: Result<LlmResponse, LlmError>,
    expected: Result<ResponseView, Seq<char>>,
) -> bool {
    match result {
        Ok(response) => expected == Ok::<ResponseView, Seq<char>>(response@),
        Err(error) => error matches LlmError::InvalidResponse(what) && expected == Err::<
            ResponseView,
            Seq<char>,
        >(what@),
    }
}

/// Client for OpenRouter's OpenAI-compatible chat completions API.
#[derive(Debug)]
pub struct OpenRouterClient {
    api_key: String,
    chat_url: String,
    model: String,
    default_temperature: Option<Temperature>,
}

/// What an [`OpenRouterClient`] is set up with.
pub struct ClientView {
    /// The API key.
    pub api_key: Seq<char>,
    /// The endpoint.
    pub chat_url: Seq<char>,
    /// The model for requests that name none.
    pub model: Seq<char>,
    /// The temperature for requests that name none.
    pub default_temperature: Option<Temperature>,
}

impl ClientView {
    /// The request on the wire. What the request leaves open comes from the
    /// client.
    pub open spec fn wire_request(self, request: RequestView) -> ApiRequestView {
        ApiRequestView {
            model: match request.model {
                Some(model) => model,
                None => self.model,
            },
            messages: request.messages.map_values(|message: MessageView| wire_message(message)),
            temperature: match request.temperature {
                Some(temperature) => Some(temperature),
                None => self.default_temperature,
            },
            max_tokens: request.max_tokens,
            tools: request.tools,
        }
    }
}

impl View for OpenRouterClient {
    type V = ClientView;

    closed spec fn view(&self) -> ClientView {
        ClientView {
            api_key: self.api_key@,
            chat_url: self.chat_url@,
            model: self.model@,
            default_temperature: self.default_temperature,
        }
    }
}

fn wire_calls(calls: &Vec<ToolCall>) -> (r: Vec<ApiToolCall>)
    ensures
        api_calls_view(r@) == crate::llm::calls_view(calls@),
{
    let mut wired: Vec<ApiToolCall> = Vec::new();
    let mut i: usize = 0;
    while i < calls.len()
        invariant
            i <= calls@.len(),
            wired@.len() == i,
            forall|j: int| 0 <= j < i ==> (#[trigger] wired@[j])@ == calls@[j]@,
        decreases calls@.len() - i,
    {
        let call = &calls[i];
        wired.push(
            ApiToolCall {
                id: call.id.clone(),
                name: call.name.clone(),
                arguments: call.arguments.as_str().to_owned(),
            },
        );
        i += 1;
    }
    assert(api_calls_view(wired@) =~= crate::llm::calls_view(calls@));
    wired
}

fn wire(message: &ChatMessage) -> (r: ApiOutMessage)
    ensures
        r@ == wire_message(message@),
{
    let content = if message.content.as_str().is_empty() && message.tool_calls.len() > 0 {
        None
    } else {
        Some(message.content.clone())
    };
    ApiOutMessage {
        role: message.role.as_str().to_owned(),
        content,
        tool_calls: wire_calls(&message.tool_calls),
        tool_call_id: sequences::clone_text(&message.tool_call_id),
    }
}

/// Reads the arguments of every call as JSON.
pub fn parse_arguments(calls: &Vec<ApiToolCall>) -> (r: Vec<Result<Json, String>>)
    ensures
        arguments_view(r@) == parsed_arguments(api_calls_view(calls@)),
{
    let mut parsed: Vec<Result<Json, String>> = Vec::new();
    let mut i: usize = 0;
    while i < calls.len()
        invariant
            i <= calls@.len(),
            parsed@.len() == i,
            forall|j: int|
                0 <= j < i ==> argument_view(#[trigger] parsed@[j]) == crate::json::json_parsed(
                    calls@[j].arguments@,
                ),
        decreases calls@.len() - i,
    {
        parsed.push(Json::parse(calls[i].arguments.as_str()));
        i += 1;
    }
    assert(arguments_view(parsed@) =~= parsed_arguments(api_calls_view(calls@)));
    parsed
}

/// Puts a response together from an assistant message, the arguments of its
/// calls as they were read, and the usage.
pub fn assemble_response(
    content: Option<String>,
    calls: Vec<ApiToolCall>,
    arguments: Vec<Result<Json, String>>,
    usage: ApiUsage,
) -> (r: Result<LlmResponse, LlmError>)
    requires
        calls@.len() == arguments@.len(),
    ensures
        is_response(
            r,
            read_message(
                match content {
                    Some(content) => content@,
                    None => Seq::empty(),
                },
                api_calls_view(calls@),
                arguments_view(arguments@),
                usage,
            ),
        ),
{
    let ghost call_views = api_calls_view(calls@);
    let ghost argument_views = arguments_view(arguments@);
    let mut tool_calls: Vec<ToolCall> = Vec::new();
    let mut i: usize = 0;
    assert(crate::llm::calls_view(tool_calls@) =~= Seq::<ToolCallView>::empty());
    assert(call_views.take(0) =~= Seq::<ToolCallView>::empty());
    while i < calls.len()
        invariant
            i <= calls@.len(),
            calls@.len() == arguments@.len(),
            call_views == api_calls_view(calls@),
            argument_views == arguments_view(arguments@),
            assembled(call_views.take(i as int), argument_views) == Ok::<
                Seq<ToolCallView>,
                Seq<char>,
            >(crate::llm::calls_view(tool_calls@)),
        decreases calls@.len() - i,
    {
        let call = &calls[i];
        let ghost before = tool_calls@;
        proof {
            assert(call_views.take(i + 1).drop_last() =~= call_views.take(i as int));
            assert(call_views.take(i + 1).last() == call@);
        }
        match &arguments[i] {
            Ok(value) => {
                let tool_call = ToolCall {
                    id: call.id.clone(),
                    name: call.name.clone(),
                    arguments: value.clone(),
                };
                tool_calls.push(tool_call);
                assert(crate::llm::calls_view(tool_calls@) =~= crate::llm::calls_view(before).push(
                    tool_call@,
                ));
            },
            Err(error) => {
                let mut message = join3(
                    "invalid tool call arguments for ",
                    call.name.as_str(),
                    ": ",
                );
                message.append(error.as_str());
                proof {
                    lemma_assembled_error(call_views, argument_views, i + 1);
                }
                return Err(LlmError::InvalidResponse(message));
            },
        }
        i += 1;
    }
    assert(call_views.take(i as int) =~= call_views);
    let content = match content {
        Some(content) => content,
        None => "".to_owned(),
    };
    proof {
        reveal_strlit("");
        assert(""@ =~= Seq::<char>::empty());
    }
    if content.as_str().is_empty() && tool_calls.len() == 0 {
        return Err(
            LlmError::InvalidResponse(
                "assistant message had neither content nor tool_calls".to_owned(),
            ),
        );
    }
    Ok(
        LlmResponse {
            content,
            prompt_tokens: usage.prompt_tokens,
            completion_tokens: usage.completion_tokens,
            tool_calls,
        },
    )
}

proof fn lemma_assembled_error(
    calls: Seq<ToolCallView>,
    arguments: Seq<Result<Seq<char>, Seq<char>>>,
    i: int,
)
    requires
        0 <= i <= calls.len(),
        assembled(calls.take(i), arguments) is Err,
    ensures
        assembled(calls, arguments) == assembled(calls.take(i), arguments),
    decreases calls.len(),
{
    if i < calls.len() {
        assert(calls.drop_last().take(i) =~= calls.take(i));
        lemma_assembled_error(calls.drop_last(), arguments, i);
    } else {
        assert(calls.take(i) =~= calls);
    }
}

/// What a response on the wire says, the arguments of the tool calls read as
/// JSON. Only the first of the choices counts.
pub open spec fn response_of(response: ApiResponse) -> Result<ResponseView, Seq<char>> {
    if response.choices@.len() == 0 {
        Err("no choices returned"@)
    } else {
        let message = response.choices@[0];
        read_message(
            content_of(message),
            calls_of(message),
            parsed_arguments(calls_of(message)),
            response.usage,
        )
    }
}

/// Whether `r` is what came back for a request, as it is read.
pub open spec fn is_reading(reply: ApiReply, r: Result<LlmResponse, LlmError>) -> bool {
    match reply {
        ApiReply::Failed(what) => r matches Err(LlmError::ApiError { status, message }) && status
            == 0 && message@ == what@,
        ApiReply::Refused { status: refused, body } => if refused == 429 {
            r matches Err(LlmError::RateLimit)
        } else {
            r matches Err(LlmError::ApiError { status, message }) && status == refused && message@
                == body@
        },
        ApiReply::Unreadable(what) => r matches Err(LlmError::InvalidResponse(message)) && message@
            == what@,
        ApiReply::Response(response) => is_response(r, response_of(response)),
    }
}

/// Reads what came back for a request. Status 429 is a rate limit; any other
/// status that is not a success is an API error, as is a failed transfer, with
/// status 0.
pub fn interpret(reply: ApiReply) -> (r: Result<LlmResponse, LlmError>)
    ensures
        match reply {
            ApiReply::Failed(what) => r matches Err(LlmError::ApiError { status, message }) && status
                == 0 && message@ == what@,
            ApiReply::Refused { status: refused, body } => if refused == 429 {
                r matches Err(LlmError::RateLimit)
            } else {
                r matches Err(LlmError::ApiError { status, message }) && status == refused
                    && message@ == body@
            },
            ApiReply::Unreadable(what) => r matches Err(LlmError::InvalidResponse(message))
                && message@ == what@,
            ApiReply::Response(response) => is_response(r, response_of(response)),
        },
        is_reading(reply, r),
{
    match reply {
        ApiReply::Failed(what) => Err(LlmError::ApiError { status: 0, message: what }),
        ApiReply::Refused { status, body } => {
            if status == 429 {
                Err(LlmError::RateLimit)
            } else {
                Err(LlmError::ApiError { status, message: body })
            }
        },
        ApiReply::Unreadable(what) => Err(LlmError::InvalidResponse(what)),
        ApiReply::Response(response) => {
            let mut choices = response.choices;
            if choices.len() == 0 {
                return Err(LlmError::InvalidResponse("no choices returned".to_owned()));
            }
            let message = choices.swap_remove(0);
            let calls = match message.tool_calls {
                Some(calls) => calls,
                None => Vec::new(),
            };
            assert(api_calls_view(calls@) =~= calls_of(message));
            let arguments = parse_arguments(&calls);
            assert(arguments@.len() == arguments_view(arguments@).len());
            assert(calls@.len() == parsed_arguments(api_calls_view(calls@)).len());
            assemble_response(message.content, calls, arguments, response.usage)
        },
    }
}

impl OpenRouterClient {
    /// Creates a new OpenRouter client. The endpoint is the base URL followed by
    /// the path of the chat completions.
    pub fn new(base_url: String, api_key: String, model: String) -> (r: Self)
        ensures
            r@ == (ClientView {
                api_key: api_key@,
                chat_url: base_url@ + "/chat/completions"@,
                model: model@,
                default_temperature: None,
            }),
    {
        OpenRouterClient {
            api_key,
            chat_url: join2(base_url.as_str(), "/chat/completions"),
            model,
            default_temperature: None,
        }
    }

    /// Returns a two-stage builder for constructing an [`OpenRouterClient`].
    ///
    /// The first stage requires an API key; subsequent fields are optional
    /// with sensible defaults.
    pub fn builder() -> (r: OpenRouterClientBuilderInit)
        ensures
            r == OpenRouterClientBuilderInit,
    {
        OpenRouterClientBuilderInit
    }

    /// Returns the configured default model name.
    pub fn model(&self) -> (r: &str)
        ensures
            r@ == self@.model,
    {
        self.model.as_str()
    }

    /// Returns the configured default temperature, if any.
    pub fn default_temperature(&self) -> (r: Option<Temperature>)
        ensures
            r == self@.default_temperature,
    {
        self.default_temperature
    }

    /// Returns the endpoint.
    pub fn chat_url(&self) -> (r: &str)
        ensures
            r@ == self@.chat_url,
    {
        self.chat_url.as_str()
    }

    /// The headers of every request, as names and values.
    pub fn headers(&self) -> (r: Vec<(String, String)>)
        ensures
            r@.len() == 4,
            r@[0].0@ == "Content-Type"@,
            r@[0].1@ == "application/json"@,
            r@[1].0@ == "Authorization"@,
            r@[1].1@ == "Bearer "@ + self@.api_key,
            r@[2].0@ == "HTTP-Referer"@,
            r@[2].1@ == "https://github.com/yuann3/mra"@,
            r@[3].0@ == "X-Title"@,
            r@[3].1@ == "mra"@,
    {
        let mut headers: Vec<(String, String)> = Vec::new();
        headers.push(("Content-Type".to_owned(), "application/json".to_owned()));
        headers.push(("Authorization".to_owned(), join2("Bearer ", self.api_key.as_str())));
        headers.push(("HTTP-Referer".to_owned(), "https://github.com/yuann3/mra".to_owned()));
        headers.push(("X-Title".to_owned(), "mra".to_owned()));
        headers
    }

    /// The request that goes over the wire.
    pub fn api_request(&self, request: &LlmRequest) -> (r: ApiRequest)
        ensures
            r@ == self@.wire_request(request@),
            crate::llm::tools_view(r.tools) == crate::llm::tools_view(request.tools),
            r.max_tokens == request.max_tokens,
            r.messages@.len() == request.messages@.len(),
    {
        let model = match &request.model {
            Some(model) => model.clone(),
            None => self.model.clone(),
        };
        let mut messages: Vec<ApiOutMessage> = Vec::new();
        let mut i: usize = 0;
        while i < request.messages.len()
            invariant
                i <= request.messages@.len(),
                messages@.len() == i,
                forall|j: int|
                    0 <= j < i ==> (#[trigger] messages@[j])@ == wire_message(
                        request.messages@[j]@,
                    ),
            decreases request.messages@.len() - i,
        {
            messages.push(wire(&request.messages[i]));
            i += 1;
        }
        let temperature = match request.temperature {
            Some(temperature) => Some(temperature),
            None => self.default_temperature,
        };
        assert(api_messages_view(messages@) =~= request@.messages.map_values(
            |message: MessageView| wire_message(message),
        ));
        ApiRequest {
            model,
            messages,
            temperature,
            max_tokens: request.max_tokens,
            tools: crate::llm::clone_tools(&request.tools),
        }
    }
}

/// Initial stage of [`OpenRouterClient`] builder: requires an API key.
#[derive(Debug, Clone, Copy, PartialEq, Eq, Structural)]
pub struct OpenRouterClientBuilderInit;

impl OpenRouterClientBuilderInit {
    /// Sets the API key and the model for requests that name none, and advances to
    /// the main builder stage.
    pub fn api_key(self, key: &str, default_model: &str) -> (r: OpenRouterClientBuilder)
        ensures
            r.api_key@ == key@,
            r.base_url@ == "https://openrouter.ai/api/v1"@,
            r.default_model@ == default_model@,
            r.default_temperature is None,
    {
        OpenRouterClientBuilder {
            api_key: key.to_owned(),
            base_url: "https://openrouter.ai/api/v1".to_owned(),
            default_model: default_model.to_owned(),
            default_temperature: None,
        }
    }
}

/// Main builder stage for [`OpenRouterClient`].
#[derive(Debug)]
pub struct OpenRouterClientBuilder {
    /// The API key.
    pub api_key: String,
    /// The base URL.
    pub base_url: String,
    /// The model for requests that name none.
    pub default_model: String,
    /// The temperature for requests that name none.
    pub default_temperature: Option<Temperature>,
}

impl OpenRouterClientBuilder {
    /// Overrides the default model.
    pub fn default_model(self, model: &str) -> (r: Self)
        ensures
            r.default_model@ == model@,
            r.api_key == self.api_key,
            r.base_url == self.base_url,
            r.default_temperature == self.default_temperature,
    {
        OpenRouterClientBuilder { default_model: model.to_owned(), ..self }
    }

    /// Sets the default sampling temperature applied when the request's is
    /// `None`.
    pub fn default_temperature(self, temperature: Temperature) -> (r: Self)
        ensures
            r == (OpenRouterClientBuilder { default_temperature: Some(temperature), ..self }),
    {
        OpenRouterClientBuilder { default_temperature: Some(temperature), ..self }
    }

    /// Overrides the base URL (default: `https://openrouter.ai/api/v1`).
    pub fn base_url(self, url: &str) -> (r: Self)
        ensures
            r.base_url@ == url@,
            r.api_key == self.api_key,
            r.default_model == self.default_model,
            r.default_temperature == self.default_temperature,
    {
        OpenRouterClientBuilder { base_url: url.to_owned(), ..self }
    }

    /// Consumes the builder and produces an [`OpenRouterClient`].
    pub fn build(self) -> (r: OpenRouterClient)
        ensures
            r@ == (ClientView {
                api_key: self.api_key@,
                chat_url: self.base_url@ + "/chat/completions"@,
                model: self.default_model@,
                default_temperature: self.default_temperature,
            }),
    {
        let mut client = OpenRouterClient::new(self.base_url, self.api_key, self.default_model);
        client.default_temperature = self.default_temperature;
        client
    }
}

/// A response is never empty: it has text or tool calls.
pub proof fn law_responses_are_not_empty(response: ApiResponse)
    ensures
        response_of(response) matches Ok(view) ==> view.content.len() > 0 || view.tool_calls.len()
            > 0,
{
}

/// A response keeps every call of the message, in order, with its identifier and
/// name.
pub proof fn law_calls_are_kept(
    calls: Seq<ToolCallView>,
    arguments: Seq<Result<Seq<char>, Seq<char>>>,
    i: int,
)
    requires
        assembled(calls, arguments) is Ok,
        0 <= i < calls.len(),
    ensures
        ({
            let kept = assembled(calls, arguments)->Ok_0;
            &&& kept.len() == calls.len()
            &&& kept[i].id == calls[i].id
            &&& kept[i].name == calls[i].name
            &&& arguments[i] == Ok::<Seq<char>, Seq<char>>(kept[i].arguments)
        }),
    decreases calls.len(),
{
    let init = calls.drop_last();
    if i < init.len() {
        law_calls_are_kept(init, arguments, i);
    } else if init.len() > 0 {
        law_calls_are_kept(init, arguments, 0);
    }
}

/// The request on the wire holds all of the request: every turn in order, with the
/// name of its role, its text, its calls and the call it answers; every tool in
/// order, with its name, description and parameters; and the longest answer. The
/// text of a turn is left out only where it is empty beside calls. Model and
/// temperature are those of the request, or the client's where it names none.
pub proof fn law_wire_request_carries_the_request(
    client: ClientView,
    request: LlmRequest,
    wire: ApiRequest,
    i: int,
    j: int,
)
    requires
        wire@ == client.wire_request(request@),
    ensures
        wire.messages@.len() == request.messages@.len(),
        0 <= i < request.messages@.len() ==> {
            let turn = request.messages@[i];
            let sent = wire.messages@[i];
            &&& sent.role@ == turn.role.name()
            &&& match sent.content {
                Some(text) => text@ == turn.content@,
                None => turn.content@.len() == 0 && turn.tool_calls@.len() > 0,
            }
            &&& sent.tool_calls@.len() == turn.tool_calls@.len()
            &&& 0 <= j < turn.tool_calls@.len() ==> {
                &&& sent.tool_calls@[j].id@ == turn.tool_calls@[j].id@
                &&& sent.tool_calls@[j].name@ == turn.tool_calls@[j].name@
                &&& sent.tool_calls@[j].arguments@ == turn.tool_calls@[j].arguments@
            }
            &&& match turn.tool_call_id {
                Some(id) => sent.tool_call_id matches Some(answered) && answered@ == id@,
                None => sent.tool_call_id is None,
            }
        },
        match request.tools {
            Some(tools) => {
                &&& wire.tools matches Some(offered)
                &&& offered@.len() == tools@.len()
                &&& 0 <= j < tools@.len() ==> {
                    &&& offered@[j].name@ == tools@[j].name@
                    &&& offered@[j].description@ == tools@[j].description@
                    &&& offered@[j].parameters@ == tools@[j].parameters@
                }
            },
            None => wire.tools is None,
        },
        wire.max_tokens == request.max_tokens,
        match request.model {
            Some(model) => wire.model@ == model@,
            None => wire.model@ == client.model,
        },
        match request.temperature {
            Some(temperature) => wire.temperature == Some(temperature),
            None => wire.temperature == client.default_temperature,
        },
{
    assert(wire@.messages.len() == request@.messages.len());
    if 0 <= i < request.messages@.len() {
        let turn = request.messages@[i];
        let sent = wire.messages@[i];
        assert(wire@.messages[i] == wire_message(request@.messages[i]));
        assert(sent@ == wire_message(turn@));
        assert(api_calls_view(sent.tool_calls@) == crate::llm::calls_view(turn.tool_calls@));
        if 0 <= j < turn.tool_calls@.len() {
            assert(api_calls_view(sent.tool_calls@)[j] == crate::llm::calls_view(
                turn.tool_calls@,
            )[j]);
        }
    }
    assert(wire@.tools == request@.tools);
    if let Some(tools) = request.tools {
        let offered = wire.tools->0;
        assert(crate::llm::specs_view(offered@) == crate::llm::specs_view(tools@));
        assert(crate::llm::specs_view(offered@).len() == offered@.len());
        if 0 <= j < tools@.len() {
            assert(crate::llm::specs_view(offered@)[j] == crate::llm::specs_view(tools@)[j]);
        }
    }
}

proof fn lemma_assembled_if_all_read(
    calls: Seq<ToolCallView>,
    arguments: Seq<Result<Seq<char>, Seq<char>>>,
)
    requires
        arguments.len() >= calls.len(),
    ensures
        assembled(calls, arguments) is Ok <==> forall|k: int|
            0 <= k < calls.len() ==> (#[trigger] arguments[k]) is Ok,
        assembled(calls, arguments) matches Ok(kept) ==> kept.len() == calls.len(),
    decreases calls.len(),
{
    if calls.len() > 0 {
        lemma_assembled_if_all_read(calls.drop_last(), arguments);
        if assembled(calls, arguments) is Ok {
            assert forall|k: int| 0 <= k < calls.len() implies (#[trigger] arguments[k]) is Ok by {
                if k == calls.len() - 1 {
                    assert(arguments[calls.len() - 1] is Ok);
                }
            }
        }
    }
}

/// What an assistant message says is read whole: its text, all its calls in order,
/// each with its identifier, its name and its arguments as they were read, and the
/// usage. It is read if and only if the arguments of every call could be read and
/// there is text or a call.
pub proof fn law_message_is_read_whole(
    content: Seq<char>,
    calls: Seq<ToolCallView>,
    arguments: Seq<Result<Seq<char>, Seq<char>>>,
    usage: ApiUsage,
    i: int,
)
    requires
        arguments.len() == calls.len(),
    ensures
        ({
            let read = read_message(content, calls, arguments, usage);
            &&& read is Ok <==> (content.len() > 0 || calls.len() > 0) && forall|k: int|
                0 <= k < calls.len() ==> (#[trigger] arguments[k]) is Ok
            &&& read matches Ok(response) ==> {
                &&& response.content == content
                &&& response.prompt_tokens == usage.prompt_tokens
                &&& response.completion_tokens == usage.completion_tokens
                &&& response.tool_calls.len() == calls.len()
                &&& 0 <= i < calls.len() ==> {
                    &&& response.tool_calls[i].id == calls[i].id
                    &&& response.tool_calls[i].name == calls[i].name
                    &&& arguments[i] == Ok::<Seq<char>, Seq<char>>(
                        response.tool_calls[i].arguments,
                    )
                }
            }
        }),
{
    lemma_assembled_if_all_read(calls, arguments);
    if assembled(calls, arguments) is Ok && 0 <= i < calls.len() {
        law_calls_are_kept(calls, arguments, i);
    }
}

/// A response on the wire is read by its first choice: its text, empty if there is
/// none, its calls in order, and the usage. What is no valid response is reported
/// as such.
pub proof fn law_first_choice_is_the_response(
    response: ApiResponse,
    result: Result<LlmResponse, LlmError>,
    i: int,
)
    requires
        is_response(result, response_of(response)),
    ensures
        match result {
            Ok(read) => {
                let choice = response.choices@[0];
                &&& response.choices@.len() > 0
                &&& match choice.content {
                    Some(text) => read.content@ == text@,
                    None => read.content@.len() == 0,
                }
                &&& read.prompt_tokens == response.usage.prompt_tokens
                &&& read.completion_tokens == response.usage.completion_tokens
                &&& match choice.tool_calls {
                    Some(calls) => {
                        &&& read.tool_calls@.len() == calls@.len()
                        &&& 0 <= i < calls@.len() ==> {
                            &&& read.tool_calls@[i].id@ == calls@[i].id@
                            &&& read.tool_calls@[i].name@ == calls@[i].name@
                            &&& crate::json::json_parsed(calls@[i].arguments@) == Ok::<
                                Seq<char>,
                                Seq<char>,
                            >(read.tool_calls@[i].arguments@)
                        }
                    },
                    None => read.tool_calls@.len() == 0,
                }
            },
            Err(error) => error is InvalidResponse,
        },
        response.choices@.len() == 0 ==> result is Err,
        response.choices@.len() > 0 && calls_of(response.choices@[0]).len() == 0 ==> (result is Ok
            <==> (response.choices@[0].content matches Some(text) && text@.len() > 0)),
{
    if response.choices@.len() > 0 {
        let choice = response.choices@[0];
        let calls = calls_of(choice);
        law_message_is_read_whole(
            content_of(choice),
            calls,
            parsed_arguments(calls),
            response.usage,
            i,
        );
        if let Ok(read) = result {
            assert(read@.tool_calls.len() == read.tool_calls@.len());
            if 0 <= i < calls.len() {
                assert(read@.tool_calls[i] == read.tool_calls@[i]@);
                assert(calls[i] == choice.tool_calls->0@[i]@);
            }
        }
    }
}

/// A reply that is not a response is told apart: a rate limit is one if and only if
/// the status says so; any other refusal keeps its status and its body, and is worth
/// another attempt if and only if the server failed; a transfer that failed has
/// status 0 and is not.
pub proof fn law_refusals_are_told_apart(
    reply: ApiReply,
    result: Result<LlmResponse, LlmError>,
)
    requires
        is_reading(reply, result),
    ensures
        !(reply is Response) ==> result is Err,
        (result matches Err(LlmError::RateLimit)) <==> (reply matches ApiReply::Refused {
            status,
            ..
        } && status == 429),
        reply matches ApiReply::Refused { status: refused, body } ==> (refused != 429 ==> {
            &&& result matches Err(LlmError::ApiError { status, message })
            &&& status == refused
            &&& message@ == body@
            &&& result->Err_0.class() is Transient <==> refused >= 500
        }),
        reply matches ApiReply::Failed(what) ==> {
            &&& result matches Err(LlmError::ApiError { status, message })
            &&& status == 0
            &&& message@ == what@
            &&& result->Err_0.class() is Permanent
        },
        reply matches ApiReply::Unreadable(what) ==> {
            &&& result matches Err(LlmError::InvalidResponse(message))
            &&& message@ == what@
        },
{
}

} // verus!
