//! The HTTP interface: what is answered to a request.
//!
//! | Method   | Path                        | Description              |
//! |----------|-----------------------------|--------------------------|
//! | `POST`   | `/agents/:name`             | New session              |
//! | `POST`   | `/agents/:name/:session_id` | Continue a session       |
//! | `GET`    | `/agents/:name/:session_id` | Fetch session history    |
//! | `DELETE` | `/agents/:name/:session_id` | Delete a session         |

use vstd::prelude::*;

use crate::agent::message::AgentReply;
use crate::ids::TaskId;
use crate::json;
use crate::json::Json;
use crate::runtime::roles::RoleRegistry;
use crate::runtime::RuntimeError;
use crate::sequences;
use crate::session;
use crate::session::Message;
use crate::text;
use crate::text::decimal_text;
use crate::text::join2;

verus! {

/// Success.
pub const OK: u16 = 200;

/// Success, with nothing to say.
pub const NO_CONTENT: u16 = 204;

/// The request makes no sense.
pub const BAD_REQUEST: u16 = 400;

/// There is no such thing.
pub const NOT_FOUND: u16 = 404;

/// The request failed.
pub const INTERNAL_SERVER_ERROR: u16 = 500;

/// The body of a prompt request.
#[derive(Debug)]
pub struct PromptBody {
    /// The prompt.
    pub prompt: Option<String>,
    /// The role to apply for this request.
    pub role: Option<String>,
}

/// A refusal: its status and its message.
#[derive(Debug)]
pub struct HttpError {
    /// The status code.
    pub status: u16,
    /// The message.
    pub error: String,
}

/// The token usage of an answer.
#[derive(Debug, Clone, Copy, PartialEq, Eq, Structural)]
pub struct UsageInfo {
    /// Direct LLM token spend for this agent (does not include nested agents).
    pub self_tokens: u64,
    /// End-to-end total including all nested agent calls.
    pub total_tokens: u64,
}

/// An agent's answer.
#[derive(Debug)]
pub struct AgentResponse {
    /// The session.
    pub session_id: String,
    /// What the agent answered.
    pub response: String,
    /// What it cost.
    pub usage: UsageInfo,
}

/// One message of a session.
#[derive(Debug)]
pub struct HistoryMessage {
    /// Whose turn it is.
    pub role: String,
    /// What was said.
    pub content: String,
}

/// The history of a session.
#[derive(Debug)]
pub struct HistoryResponse {
    /// The session.
    pub session_id: String,
    /// Its messages, the oldest first.
    pub messages: Vec<HistoryMessage>,
}

/// Whether the client wants server-sent events, by its `Accept` header.
pub fn wants_sse(accept: Option<&str>) -> (r: bool)
    ensures
        r == (match accept {
            Some(accept) => text::is_within(accept@, "text/event-stream"@),
            None => false,
        }),
{
    match accept {
        Some(accept) => text::contains(accept, "text/event-stream"),
        None => false,
    }
}

/// Whether a prompt is there and not blank.
pub open spec fn has_prompt(body: PromptBody) -> bool {
    body.prompt matches Some(prompt) && !text::is_blank_text(prompt@)
}

/// Whether the role that a body names, if it names one, is known.
pub open spec fn role_is_known(body: PromptBody, roles: RoleRegistry) -> bool {
    body.role matches Some(role) ==> roles@.dom().contains(role@)
}

/// Whether `r` is what a prompt request comes to.
pub open spec fn is_checked(
    body: PromptBody,
    roles: RoleRegistry,
    r: Result<(String, Option<String>), HttpError>,
) -> bool {
    match r {
        Ok((prompt, role)) => {
            &&& has_prompt(body)
            &&& role_is_known(body, roles)
            &&& body.prompt == Some(prompt)
            &&& role == body.role
        },
        Err(error) => error.status == BAD_REQUEST && (!has_prompt(body) || !role_is_known(
            body,
            roles,
        )),
    }
}

/// Checks a prompt request: it needs a prompt that is not blank, and a role, if
/// it names one, that is known. Returns prompt and role.
pub fn check_body(body: PromptBody, roles: &RoleRegistry) -> (r: Result<
    (String, Option<String>),
    HttpError,
>)
    requires
        roles.wf(),
    ensures
        match r {
            Ok((prompt, role)) => {
                &&& has_prompt(body)
                &&& role_is_known(body, *roles)
                &&& body.prompt == Some(prompt)
                &&& role == body.role
            },
            Err(error) => {
                &&& error.status == BAD_REQUEST
                &&& if !has_prompt(body) {
                    error.error@ == "missing or empty `prompt`"@
                } else {
                    &&& !role_is_known(body, *roles)
                    &&& body.role matches Some(role)
                    &&& error.error@ == "unknown role: "@ + role@
                }
            },
        },
        is_checked(body, *roles, r),
{
    match body.prompt {
        Some(prompt) => {
            if text::is_blank(prompt.as_str()) {
                return Err(
                    HttpError {
                        status: BAD_REQUEST,
                        error: "missing or empty `prompt`".to_owned(),
                    },
                );
            }
            match &body.role {
                Some(role) => {
                    if roles.get(role.as_str()).is_none() {
                        return Err(
                            HttpError {
                                status: BAD_REQUEST,
                                error: join2("unknown role: ", role.as_str()),
                            },
                        );
                    }
                },
                None => {},
            }
            Ok((prompt, body.role))
        },
        None => Err(
            HttpError { status: BAD_REQUEST, error: "missing or empty `prompt`".to_owned() },
        ),
    }
}

/// Makes up the identifier of a new session: a random (version 4) identifier in
/// text form.
pub fn new_session_id() -> (r: String)
    ensures
        exists|value: u128|
            crate::ids::is_random_id(value) && r@ == #[trigger] crate::ids::id_text(value),
{
    TaskId::new().to_string()
}

/// The data of the event that carries an agent's output.
pub open spec fn token_data(output: Seq<char>) -> Seq<char> {
    "{\"type\":\"token\",\"content\":"@ + json::json_quoted(output) + "}"@
}

/// The data of the event that ends the stream.
pub open spec fn done_data(session_id: Seq<char>, self_tokens: nat, total_tokens: nat) -> Seq<
    char,
> {
    "{\"type\":\"done\",\"session_id\":"@ + json::json_quoted(session_id)
        + ",\"usage\":{\"self_tokens\":"@ + text::decimal(self_tokens) + ",\"total_tokens\":"@
        + text::decimal(total_tokens) + "}}"@
}

fn token_event(output: &str) -> (r: String)
    ensures
        r@ == token_data(output@),
{
    let mut data = "{\"type\":\"token\",\"content\":".to_owned();
    data.append(Json::string(output).as_str());
    data.append("}");
    data
}

fn done_event(session_id: &str, self_tokens: u64, total_tokens: u64) -> (r: String)
    ensures
        r@ == done_data(session_id@, self_tokens as nat, total_tokens as nat),
{
    let mut data = "{\"type\":\"done\",\"session_id\":".to_owned();
    data.append(Json::string(session_id).as_str());
    data.append(",\"usage\":{\"self_tokens\":");
    data.append(decimal_text(self_tokens).as_str());
    data.append(",\"total_tokens\":");
    data.append(decimal_text(total_tokens).as_str());
    data.append("}}");
    data
}

/// What is answered to a prompt.
#[derive(Debug)]
pub enum PromptAnswer {
    /// Status 200 and a JSON body.
    Json(AgentResponse),
    /// Status 200 and server-sent events with these data, in this order.
    Events(Vec<String>),
    /// A refusal.
    Refused(HttpError),
}

/// Whether `r` is what is answered to a prompt.
pub open spec fn is_answer(
    agent_name: Seq<char>,
    session_id: Option<String>,
    sse: bool,
    outcome: Result<AgentReply, RuntimeError>,
    r: PromptAnswer,
) -> bool {
    match outcome {
        Ok(reply) => {
            let sid = match session_id {
                Some(id) => id@,
                None => ""@,
            };
            if sse {
                &&& r matches PromptAnswer::Events(events)
                &&& sequences::texts(events@) == seq![
                    token_data(reply.output@),
                    done_data(sid, reply.self_tokens as nat, reply.total_tokens as nat),
                ]
            } else {
                &&& r matches PromptAnswer::Json(body)
                &&& body.session_id@ == sid
                &&& body.response == reply.output
                &&& body.usage.self_tokens == reply.self_tokens
                &&& body.usage.total_tokens == reply.total_tokens
            }
        },
        Err(RuntimeError::UnknownAgent(_)) => {
            &&& r matches PromptAnswer::Refused(error)
            &&& error.status == NOT_FOUND
            &&& error.error@ == "unknown agent: "@ + agent_name
        },
        Err(failure) => {
            &&& r matches PromptAnswer::Refused(error)
            &&& error.status == INTERNAL_SERVER_ERROR
            &&& error.error@ == failure.text()
        },
    }
}

/// What is answered to a prompt, when the agent has answered or failed.
pub fn respond(
    agent_name: &str,
    session_id: Option<String>,
    sse: bool,
    outcome: Result<AgentReply, RuntimeError>,
) -> (r: PromptAnswer)
    ensures
        match outcome {
            Ok(reply) => {
                let sid = match session_id {
                    Some(id) => id@,
                    None => ""@,
                };
                if sse {
                    &&& r matches PromptAnswer::Events(events)
                    &&& sequences::texts(events@) == seq![
                        token_data(reply.output@),
                        done_data(sid, reply.self_tokens as nat, reply.total_tokens as nat),
                    ]
                } else {
                    &&& r matches PromptAnswer::Json(body)
                    &&& body.session_id@ == sid
                    &&& body.response == reply.output
                    &&& body.usage.self_tokens == reply.self_tokens
                    &&& body.usage.total_tokens == reply.total_tokens
                }
            },
            Err(RuntimeError::UnknownAgent(_)) => {
                &&& r matches PromptAnswer::Refused(error)
                &&& error.status == NOT_FOUND
                &&& error.error@ == "unknown agent: "@ + agent_name@
            },
            Err(failure) => {
                &&& r matches PromptAnswer::Refused(error)
                &&& error.status == INTERNAL_SERVER_ERROR
                &&& error.error@ == failure.text()
            },
        },
        is_answer(agent_name@, session_id, sse, outcome, r),
{
    match outcome {
        Ok(reply) => {
            let sid = match session_id {
                Some(id) => id,
                None => "".to_owned(),
            };
            if sse {
                let token = token_event(reply.output.as_str());
                let done = done_event(sid.as_str(), reply.self_tokens, reply.total_tokens);
                let mut events: Vec<String> = Vec::new();
                events.push(token);
                events.push(done);
                assert(sequences::texts(events@) =~= seq![token@, done@]);
                PromptAnswer::Events(events)
            } else {
                PromptAnswer::Json(
                    AgentResponse {
                        session_id: sid,
                        response: reply.output,
                        usage: UsageInfo {
                            self_tokens: reply.self_tokens,
                            total_tokens: reply.total_tokens,
                        },
                    },
                )
            }
        },
        Err(RuntimeError::UnknownAgent(_)) => PromptAnswer::Refused(
            HttpError { status: NOT_FOUND, error: join2("unknown agent: ", agent_name) },
        ),
        Err(failure) => PromptAnswer::Refused(
            HttpError { status: INTERNAL_SERVER_ERROR, error: failure.to_string() },
        ),
    }
}

/// Whether one list shows what the other holds: the names of the roles, and the
/// contents.
pub open spec fn shows(shown: Seq<HistoryMessage>, history: Seq<Message>) -> bool {
    &&& shown.len() == history.len()
    &&& forall|i: int|
        0 <= i < shown.len() ==> (#[trigger] shown[i]).role@ == history[i].role.name()
            && shown[i].content@ == history[i].content@
}

/// What is answered to a request for the history of a session.
pub fn history_answer(session_id: &str, loaded: Result<Vec<Message>, String>) -> (r: Result<
    HistoryResponse,
    HttpError,
>)
    ensures
        match loaded {
            Ok(history) => {
                &&& r matches Ok(body)
                &&& body.session_id@ == session_id@
                &&& shows(body.messages@, history@)
            },
            Err(failure) => {
                &&& r matches Err(error)
                &&& error.status == INTERNAL_SERVER_ERROR
                &&& error.error == failure
            },
        },
{
    match loaded {
        Ok(history) => {
            let mut messages: Vec<HistoryMessage> = Vec::new();
            let mut i: usize = 0;
            while i < history.len()
                invariant
                    i <= history@.len(),
                    messages@.len() == i,
                    forall|j: int|
                        0 <= j < i ==> (#[trigger] messages@[j]).role@ == history@[j].role.name()
                            && messages@[j].content@ == history@[j].content@,
                decreases history@.len() - i,
            {
                let message = &history[i];
                messages.push(
                    HistoryMessage {
                        role: message.role.to_chat_role().as_str().to_owned(),
                        content: message.content.clone(),
                    },
                );
                i += 1;
            }
            Ok(HistoryResponse { session_id: session_id.to_owned(), messages })
        },
        Err(failure) => Err(HttpError { status: INTERNAL_SERVER_ERROR, error: failure }),
    }
}

/// What is answered to a request to delete a session: the status of success, or
/// a refusal.
pub fn delete_answer(deleted: Result<(), String>) -> (r: Result<u16, HttpError>)
    ensures
        match deleted {
            Ok(()) => r == Ok::<u16, HttpError>(NO_CONTENT),
            Err(failure) => {
                &&& r matches Err(error)
                &&& error.status == INTERNAL_SERVER_ERROR
                &&& error.error == failure
            },
        },
{
    match deleted {
        Ok(()) => Ok(NO_CONTENT),
        Err(failure) => Err(HttpError { status: INTERNAL_SERVER_ERROR, error: failure }),
    }
}

/// A request is taken if and only if it has a prompt in which something stands, and
/// names no role or one that is known; then prompt and role are its own. Any other is
/// a bad request.
pub proof fn law_requests_need_a_prompt_and_a_known_role(
    body: PromptBody,
    roles: RoleRegistry,
    r: Result<(String, Option<String>), HttpError>,
)
    requires
        is_checked(body, roles, r),
    ensures
        r is Ok <==> (body.prompt matches Some(prompt) && exists|i: int|
            0 <= i < prompt@.len() && !text::is_white(#[trigger] prompt@[i])) && match body.role {
            Some(role) => roles@.dom().contains(role@),
            None => true,
        },
        r matches Ok((prompt, role)) ==> body.prompt == Some(prompt) && body.role == role,
        r matches Err(error) ==> error.status == 400,
{
}

/// An agent that answered is answered with success: the session, the whole output and
/// what it cost, as one body or as two events, the output first. An agent that is not
/// there is not found; any other failure is one of the server, with its message.
pub proof fn law_replies_are_handed_on(
    agent_name: Seq<char>,
    session_id: Option<String>,
    sse: bool,
    outcome: Result<AgentReply, RuntimeError>,
    r: PromptAnswer,
)
    requires
        is_answer(agent_name, session_id, sse, outcome, r),
    ensures
        r is Refused <==> outcome is Err,
        outcome matches Ok(reply) ==> (if sse {
            &&& r matches PromptAnswer::Events(events)
            &&& events@.len() == 2
            &&& text::is_within(events@[0]@, json::json_quoted(reply.output@))
            &&& session_id matches Some(id) ==> text::is_within(
                events@[1]@,
                json::json_quoted(id@),
            )
            &&& text::is_within(events@[1]@, text::decimal(reply.self_tokens as nat))
            &&& text::is_within(events@[1]@, text::decimal(reply.total_tokens as nat))
        } else {
            &&& r matches PromptAnswer::Json(body)
            &&& body.response@ == reply.output@
            &&& body.usage.self_tokens == reply.self_tokens
            &&& body.usage.total_tokens == reply.total_tokens
            &&& session_id matches Some(id) ==> body.session_id@ == id@
        }),
        outcome matches Err(failure) ==> {
            &&& r matches PromptAnswer::Refused(error)
            &&& error.status == 404 <==> failure is UnknownAgent
            &&& error.status == 500 <==> !(failure is UnknownAgent)
            &&& !(failure is UnknownAgent) ==> error.error@ == failure.text()
        },
{
    if let Ok(reply) = outcome {
        if sse {
            let events = r->Events_0;
            let seen = sequences::texts(events@);
            assert(seen.len() == events@.len());
            assert(seen[0] == events@[0]@);
            assert(seen[1] == events@[1]@);
            let output = json::json_quoted(reply.output@);
            text::law_occurrences_split_the_text(
                "{\"type\":\"token\",\"content\":"@,
                output,
                "}"@,
                Seq::empty(),
                0,
            );
            let own = text::decimal(reply.self_tokens as nat);
            let total = text::decimal(reply.total_tokens as nat);
            let sid = match session_id {
                Some(id) => id@,
                None => ""@,
            };
            let id = json::json_quoted(sid);
            let head = "{\"type\":\"done\",\"session_id\":"@;
            let usage = ",\"usage\":{\"self_tokens\":"@;
            let and = ",\"total_tokens\":"@;
            let end = "}}"@;
            let done = done_data(sid, reply.self_tokens as nat, reply.total_tokens as nat);
            assert(done =~= head + id + (usage + own + and + total + end));
            assert(done =~= (head + id + usage) + own + (and + total + end));
            assert(done =~= (head + id + usage + own + and) + total + end);
            text::law_occurrences_split_the_text(
                head,
                id,
                usage + own + and + total + end,
                Seq::empty(),
                0,
            );
            text::law_occurrences_split_the_text(
                head + id + usage,
                own,
                and + total + end,
                Seq::empty(),
                0,
            );
            text::law_occurrences_split_the_text(
                head + id + usage + own + and,
                total,
                end,
                Seq::empty(),
                0,
            );
        }
    }
}

/// A history is shown turn by turn, in order, under the names by which the roles are
/// known.
pub proof fn law_histories_are_shown_whole(
    shown: Seq<HistoryMessage>,
    history: Seq<Message>,
    i: int,
)
    requires
        shows(shown, history),
        0 <= i < history.len(),
    ensures
        shown.len() == history.len(),
        shown[i].content@ == history[i].content@,
        history[i].role is User ==> shown[i].role@ == "user"@,
        history[i].role is Assistant ==> shown[i].role@ == "assistant"@,
        history[i].role is System ==> shown[i].role@ == "system"@,
{
}

} // verus!
