//! What an agent knows while it handles a task: its identity, its conversation
//! and its role, and how a chat and a tool loop proceed.

use vstd::prelude::*;

use crate::agent::message::Task;
use crate::budget::BudgetTracker;
use crate::budget::BudgetView;
use crate::error::AgentError;
use crate::error::LlmError;
use crate::error::ToolError;
use crate::ids::AgentId;
use crate::llm;
use crate::llm::ChatMessage;
use crate::llm::LlmRequest;
use crate::llm::LlmResponse;
use crate::llm::MessageView;
use crate::llm::RequestView;
use crate::llm::ResponseView;
use crate::llm::Role;
use crate::llm::ToolCall;
use crate::llm::ToolCallView;
use crate::runtime::roles::RoleRegistry;
use crate::runtime::roles::RoleView;
use crate::sequences;
use crate::session;
use crate::session::Message;
use crate::session::StoredView;
use crate::text::join2;
use crate::tool::ToolOutput;

verus! {

/// The context of an agent.
pub struct AgentCtx {
    /// This agent's unique identifier.
    pub id: AgentId,
    /// Human-readable name, used as the key for budget tracking.
    pub name: String,
    /// Whether an LLM provider is at hand.
    pub llm: bool,
    /// Per-agent model override. `None` uses the model of the request.
    pub model: Option<String>,
    /// Conversation history for the current session.
    pub history: Vec<Message>,
    /// Session of the current task. `None` for stateless one-shot calls.
    pub session_id: Option<String>,
    /// Whether a session store stands by to save the history.
    pub has_store: bool,
    /// System prompts by role.
    pub role_registry: RoleRegistry,
    /// Active role for the current task.
    pub active_role: Option<String>,
}

/// What an [`AgentCtx`] holds.
#[verifier::ext_equal]
pub struct CtxView {
    /// The agent's identifier.
    pub id: AgentId,
    /// The agent's name.
    pub name: Seq<char>,
    /// Whether an LLM provider is at hand.
    pub llm: bool,
    /// The agent's own model.
    pub model: Option<Seq<char>>,
    /// The conversation so far.
    pub history: Seq<StoredView>,
    /// The session of the current task.
    pub session_id: Option<Seq<char>>,
    /// Whether a session store stands by.
    pub has_store: bool,
    /// The roles.
    pub roles: Map<Seq<char>, RoleView>,
    /// The role of the current task.
    pub active_role: Option<Seq<char>>,
}

impl View for AgentCtx {
    type V = CtxView;

    open spec fn view(&self) -> CtxView {
        CtxView {
            id: self.id,
            name: self.name@,
            llm: self.llm,
            model: sequences::text_of(self.model),
            history: session::history_view(self.history@),
            session_id: sequences::text_of(self.session_id),
            has_store: self.has_store,
            roles: self.role_registry@,
            active_role: sequences::text_of(self.active_role),
        }
    }
}

/// The history as turns of a chat.
pub open spec fn replayed(history: Seq<StoredView>) -> Seq<MessageView> {
    history.map_values(|message: StoredView| message.chat())
}

/// The turns of a request that are stored: all but those of tools.
pub open spec fn stored_turns(messages: Seq<MessageView>) -> Seq<StoredView>
    decreases messages.len(),
{
    if messages.len() == 0 {
        Seq::empty()
    } else {
        let before = stored_turns(messages.drop_last());
        match session::Role::stored(messages.last().role) {
            Some(role) => before.push(StoredView { role, content: messages.last().content }),
            None => before,
        }
    }
}

impl CtxView {
    /// A request with the system prompt of a role before its messages.
    pub open spec fn role_applied(self, role: Seq<char>, request: RequestView) -> RequestView {
        RequestView {
            messages: seq![MessageView::plain(Role::System, self.roles[role].system_prompt)]
                + request.messages,
            ..request
        }
    }

    /// A request with the system prompt of the active role, if there is one.
    pub open spec fn with_active_role(self, request: RequestView) -> RequestView {
        match self.active_role {
            Some(role) => if self.roles.dom().contains(role) {
                self.role_applied(role, request)
            } else {
                request
            },
            None => request,
        }
    }

    /// The request that goes to the provider: all previous turns come first, and
    /// the agent's own model takes precedence.
    pub open spec fn full_request(self, request: RequestView) -> RequestView {
        let request = self.with_active_role(request);
        RequestView {
            model: match self.model {
                Some(model) => Some(model),
                None => request.model,
            },
            messages: replayed(self.history) + request.messages,
            ..request
        }
    }

    /// The context after a successful chat: the turns of the request and the
    /// answer are added to the history. What a role added to the request is not.
    pub open spec fn chatted(self, request: RequestView, response: ResponseView) -> CtxView {
        CtxView {
            history: (self.history + stored_turns(request.messages)).push(
                StoredView { role: session::Role::Assistant, content: response.content },
            ),
            ..self
        }
    }

    /// The context that takes up a task.
    pub open spec fn taken_up(self, task: Task) -> CtxView {
        CtxView {
            session_id: sequences::text_of(task.session_id),
            history: session::history_view(task.history@),
            has_store: task.has_store,
            active_role: sequences::text_of(task.role),
            ..self
        }
    }
}

/// Whether `r` is the first half of a chat of `ctx`: the request for the provider, or
/// why nothing is sent.
pub open spec fn is_begun(
    ctx: CtxView,
    request: RequestView,
    budget: Option<BudgetView>,
    r: Result<LlmRequest, AgentError>,
) -> bool {
    let tripped = budget matches Some(b) && b.exceeded(ctx.name);
    match r {
        Ok(full) => !tripped && ctx.llm && full@ == ctx.full_request(request),
        Err(AgentError::BudgetExceeded) => tripped,
        Err(AgentError::LlmNotConfigured) => !tripped && !ctx.llm,
        Err(_) => false,
    }
}

/// Whether `after` and `r` are what the second half of a chat of `ctx` comes to, given
/// the answer of the provider and what the budget says before and after.
pub open spec fn is_finished(
    ctx: CtxView,
    after: CtxView,
    request: RequestView,
    outcome: Result<LlmResponse, LlmError>,
    budget: Option<BudgetView>,
    charged: Option<BudgetView>,
    r: Result<ChatDone, AgentError>,
) -> bool {
    match outcome {
        Err(error) => {
            &&& r matches Err(AgentError::Llm(inner))
            &&& inner == error
            &&& after == ctx
            &&& charged == budget
        },
        Ok(response) => {
            let tokens = (response.prompt_tokens + response.completion_tokens) as u64;
            &&& charged == (match budget {
                Some(b) => Some(b.charged(ctx.name, tokens)),
                None => None,
            })
            &&& if budget matches Some(b) && b.crosses(ctx.name, tokens) {
                &&& r matches Err(AgentError::BudgetExceeded)
                &&& after == ctx
            } else {
                &&& r matches Ok(done)
                &&& done.response@ == response@
                &&& done.save == (ctx.session_id is Some && ctx.has_store)
                &&& after == ctx.chatted(request, response@)
            }
        },
    }
}

/// What an optional budget tracker knows.
pub open spec fn known_budget(budget: Option<&BudgetTracker>) -> Option<BudgetView> {
    match budget {
        Some(budget) => Some(budget@),
        None => None,
    }
}

/// What a chat leaves to be done.
#[derive(Debug)]
pub struct ChatDone {
    /// The response to hand on.
    pub response: LlmResponse,
    /// Whether the history is to be saved first.
    pub save: bool,
}

impl AgentCtx {
    /// The parts are well-formed.
    pub open spec fn wf(&self) -> bool {
        self.role_registry.wf()
    }

    /// The context of an agent that has not handled a task yet.
    pub fn new(
        id: AgentId,
        name: String,
        llm: bool,
        model: Option<String>,
        role_registry: RoleRegistry,
    ) -> (r: Self)
        requires
            role_registry.wf(),
        ensures
            r.wf(),
            r@ == (CtxView {
                id,
                name: name@,
                llm,
                model: sequences::text_of(model),
                history: Seq::empty(),
                session_id: None,
                has_store: false,
                roles: role_registry@,
                active_role: None,
            }),
    {
        let r = AgentCtx {
            id,
            name,
            llm,
            model,
            history: Vec::new(),
            session_id: None,
            has_store: false,
            role_registry,
            active_role: None,
        };
        assert(r@.history =~= Seq::empty());
        r
    }

    /// Returns `true` if this agent has an LLM provider configured.
    pub fn has_llm(&self) -> (r: bool)
        ensures
            r == self@.llm,
    {
        self.llm
    }

    /// Takes session and role out of a task.
    pub fn take_up(&mut self, task: &mut Task)
        requires
            old(self).wf(),
        ensures
            final(self).wf(),
            final(self)@ == old(self)@.taken_up(*old(task)),
            final(task).id == old(task).id,
            final(task).instruction == old(task).instruction,
            final(task).context == old(task).context,
            final(task).session_id is None,
            final(task).history@.len() == 0,
            !final(task).has_store,
            final(task).role is None,
    {
        let mut history: Vec<Message> = Vec::new();
        std::mem::swap(&mut history, &mut task.history);
        self.session_id = task.session_id.take();
        self.history = history;
        self.has_store = task.has_store;
        self.active_role = task.role.take();
        task.has_store = false;
    }

    /// Prepends the named role's system prompt as a System message before the
    /// messages of a request.
    ///
    /// Returns `None` if the role name is not found in the registry.
    pub fn with_role(&self, role_name: &str, request: &LlmRequest) -> (r: Option<LlmRequest>)
        requires
            self.wf(),
        ensures
            match r {
                Some(with_role) => self@.roles.dom().contains(role_name@) && with_role@
                    == self@.role_applied(role_name@, request@),
                None => !self@.roles.dom().contains(role_name@),
            },
    {
        match self.role_registry.get(role_name) {
            None => None,
            Some(role) => {
                let prompt = ChatMessage::plain(Role::System, role.system_prompt.as_str());
                let mut messages: Vec<ChatMessage> = Vec::new();
                messages.push(prompt);
                assert(llm::messages_view(messages@) =~= seq![prompt@]);
                llm::extend_messages(&mut messages, &request.messages);
                Some(request.with_messages(messages))
            },
        }
    }

    /// First half of a chat: the request for the provider.
    ///
    /// Nothing is sent if the budget is already tripped or no provider is at
    /// hand.
    pub fn begin_chat(&self, request: &LlmRequest, budget: Option<&BudgetTracker>) -> (r: Result<
        LlmRequest,
        AgentError,
    >)
        requires
            self.wf(),
            budget matches Some(b) ==> b.wf(),
        ensures
            ({
                let tripped = budget matches Some(b) && b@.exceeded(self@.name);
                match r {
                    Ok(full) => !tripped && self@.llm && full@ == self@.full_request(request@),
                    Err(AgentError::BudgetExceeded) => tripped,
                    Err(AgentError::LlmNotConfigured) => !tripped && !self@.llm,
                    Err(_) => false,
                }
            }),
            is_begun(self@, request@, known_budget(budget), r),
    {
        if let Some(budget) = budget {
            if budget.is_exceeded(self.name.as_str()) {
                return Err(AgentError::BudgetExceeded);
            }
        }
        if !self.llm {
            return Err(AgentError::LlmNotConfigured);
        }
        let with_role = match &self.active_role {
            Some(role) => {
                match self.with_role(role.as_str(), request) {
                    Some(with_role) => with_role,
                    None => request.clone(),
                }
            },
            None => request.clone(),
        };
        let mut messages: Vec<ChatMessage> = Vec::new();
        let mut i: usize = 0;
        while i < self.history.len()
            invariant
                i <= self.history@.len(),
                messages@.len() == i,
                forall|j: int| 0 <= j < i ==> (#[trigger] messages@[j])@ == self.history@[j]@.chat(),
            decreases self.history@.len() - i,
        {
            messages.push(self.history[i].to_chat_message());
            i += 1;
        }
        assert(llm::messages_view(messages@) =~= replayed(self@.history));
        llm::extend_messages(&mut messages, &with_role.messages);
        let full = with_role.with_messages(messages);
        let model = match &self.model {
            Some(model) => Some(model.clone()),
            None => sequences::clone_text(&full.model),
        };
        Ok(LlmRequest { model, ..full })
    }

    /// Second half of a chat, once the provider has answered: the tokens are
    /// charged, the turns are added to the history.
    ///
    /// The tokens count even if they cross a limit; the history stays as it was
    /// then.
    pub fn finish_chat(
        &mut self,
        request: &LlmRequest,
        outcome: Result<LlmResponse, LlmError>,
        budget: Option<&mut BudgetTracker>,
    ) -> (r: Result<ChatDone, AgentError>)
        requires
            old(self).wf(),
            budget matches Some(b) ==> b.wf(),
            budget is Some ==> (outcome matches Ok(response) ==> response.countable()),
        ensures
            final(self).wf(),
            match outcome {
                Err(error) => {
                    &&& r matches Err(AgentError::Llm(inner))
                    &&& inner == error
                    &&& final(self)@ == old(self)@
                    &&& budget matches Some(b) ==> *final(b) == *b
                },
                Ok(response) => {
                    let tokens = (response.prompt_tokens + response.completion_tokens) as u64;
                    let crossed = budget matches Some(b) && b@.crosses(old(self)@.name, tokens);
                    &&& budget matches Some(b) ==> final(b).wf() && final(b)@ == b@.charged(
                        old(self)@.name,
                        tokens,
                    )
                    &&& match r {
                        Ok(done) => {
                            &&& !crossed
                            &&& done.response@ == response@
                            &&& done.save == (old(self)@.session_id is Some
                                && old(self)@.has_store)
                            &&& final(self)@ == old(self)@.chatted(request@, response@)
                        },
                        Err(AgentError::BudgetExceeded) => crossed && final(self)@ == old(self)@,
                        Err(_) => false,
                    }
                },
            },
            match budget {
                Some(b) => is_finished(
                    old(self)@,
                    final(self)@,
                    request@,
                    outcome,
                    Some(b@),
                    Some(final(b)@),
                    r,
                ),
                None => is_finished(old(self)@, final(self)@, request@, outcome, None, None, r),
            },
    {
        let response = match outcome {
            Ok(response) => response,
            Err(error) => {
                return Err(AgentError::Llm(error));
            },
        };
        if let Some(budget) = budget {
            match budget.charge(self.name.as_str(), response.total_tokens()) {
                Ok(()) => {},
                Err(error) => {
                    return Err(error);
                },
            }
        }
        let ghost before = self@;
        let ghost turns = request@.messages;
        let mut i: usize = 0;
        assert(turns.take(0) =~= Seq::empty());
        assert(before.history + Seq::<StoredView>::empty() =~= before.history);
        while i < request.messages.len()
            invariant
                self.wf(),
                i <= request.messages@.len(),
                turns == request@.messages,
                self@ == (CtxView {
                    history: before.history + stored_turns(turns.take(i as int)),
                    ..before
                }),
            decreases request.messages@.len() - i,
        {
            let message = &request.messages[i];
            let ghost stored = stored_turns(turns.take(i as int));
            proof {
                assert(turns.take(i + 1).drop_last() =~= turns.take(i as int));
                assert(turns.take(i + 1).last() == message@);
            }
            match session::Role::from_chat_role(message.role) {
                Some(role) => {
                    let turn = Message { role, content: message.content.clone() };
                    let ghost history = self.history@;
                    self.history.push(turn);
                    proof {
                        assert(session::history_view(history.push(turn)) =~= session::history_view(
                            history,
                        ).push(turn@));
                        assert((before.history + stored).push(turn@) =~= before.history
                            + stored.push(turn@));
                    }
                },
                None => {},
            }
            i += 1;
        }
        assert(turns.take(i as int) =~= turns);
        let answer = Message {
            role: session::Role::Assistant,
            content: response.content.clone(),
        };
        let ghost history = self.history@;
        self.history.push(answer);
        assert(session::history_view(history.push(answer)) =~= session::history_view(history).push(
            answer@,
        ));
        let save = self.session_id.is_some() && self.has_store;
        Ok(ChatDone { response, save })
    }
}

/// The error of a chat whose history could not be saved.
pub fn save_failed(error: &str) -> (r: AgentError)
    ensures
        r matches AgentError::HandlerFailed(what) && what@ == "session save failed: "@ + error@,
{
    AgentError::HandlerFailed(join2("session save failed: ", error))
}

/// What a tool loop hands back when it finishes.
///
/// Contains the last LLM response, how many rounds it took, and the
/// total token spend across every LLM call in the loop. If the loop
/// hit its cap while the LLM was still requesting tool calls,
/// `response.tool_calls` will be non-empty: the caller decides what
/// to do with that.
#[derive(Debug)]
pub struct ToolLoopResult {
    /// The last response from the LLM. Usually plain text, but may
    /// still contain `tool_calls` if the iteration cap was reached.
    pub response: LlmResponse,
    /// How many LLM calls were made (1 = no tool use, just a direct answer).
    pub iterations: usize,
    /// Sum of `prompt_tokens` across every LLM call in the loop.
    pub total_prompt_tokens: u64,
    /// Sum of `completion_tokens` across every LLM call in the loop.
    pub total_completion_tokens: u64,
}

/// What a tool loop does next.
#[derive(Debug)]
pub enum LoopStep {
    /// The loop is over.
    Done(ToolLoopResult),
    /// These tools are to be invoked, and their results handed in, in order.
    CallTools(Vec<ToolCall>),
}

/// The standard tool-use loop: the LLM is asked, the tools it wants are invoked,
/// their results are fed back, until it answers with plain text or the cap on LLM
/// calls is reached.
pub struct ToolLoop {
    request: LlmRequest,
    max_iterations: usize,
    iterations: usize,
    total_prompt_tokens: u64,
    total_completion_tokens: u64,
}

/// What a [`ToolLoop`] knows.
#[verifier::ext_equal]
pub struct LoopView {
    /// The next request.
    pub request: RequestView,
    /// The cap on LLM calls.
    pub max_iterations: nat,
    /// The LLM calls made.
    pub iterations: nat,
    /// The prompt tokens spent.
    pub total_prompt_tokens: nat,
    /// The completion tokens spent.
    pub total_completion_tokens: nat,
}

impl LoopView {
    /// The loop at its start.
    pub open spec fn started(request: RequestView, max_iterations: nat) -> LoopView {
        LoopView {
            request,
            max_iterations,
            iterations: 0,
            total_prompt_tokens: 0,
            total_completion_tokens: 0,
        }
    }

    /// The loop ends with this response: no tools are wanted, or the cap is
    /// reached.
    pub open spec fn ends_with(self, response: ResponseView) -> bool {
        response.tool_calls.len() == 0 || self.iterations + 1 == self.max_iterations
    }

    /// The loop after a response: it counts, and unless it ends the loop it
    /// becomes a turn of the conversation.
    pub open spec fn answered(self, response: ResponseView) -> LoopView {
        LoopView {
            iterations: self.iterations + 1,
            total_prompt_tokens: self.total_prompt_tokens + response.prompt_tokens as nat,
            total_completion_tokens: self.total_completion_tokens
                + response.completion_tokens as nat,
            request: if self.ends_with(response) {
                self.request
            } else {
                RequestView {
                    messages: self.request.messages.push(
                        MessageView {
                            role: Role::Assistant,
                            content: response.content,
                            tool_calls: response.tool_calls,
                            tool_call_id: None,
                        },
                    ),
                    ..self.request
                }
            },
            ..self
        }
    }

    /// The loop after the result of a tool: it becomes a turn that answers the
    /// call.
    pub open spec fn tool_answered(self, id: Seq<char>, content: Seq<char>) -> LoopView {
        LoopView {
            request: RequestView {
                messages: self.request.messages.push(
                    MessageView {
                        role: Role::Tool,
                        content,
                        tool_calls: Seq::empty(),
                        tool_call_id: Some(id),
                    },
                ),
                ..self.request
            },
            ..self
        }
    }

    /// The sums can take the tokens of a response.
    pub open spec fn room(self, response: ResponseView) -> bool {
        self.total_prompt_tokens + response.prompt_tokens <= u64::MAX
            && self.total_completion_tokens + response.completion_tokens <= u64::MAX
    }
}

impl View for ToolLoop {
    type V = LoopView;

    closed spec fn view(&self) -> LoopView {
        LoopView {
            request: self.request@,
            max_iterations: self.max_iterations as nat,
            iterations: self.iterations as nat,
            total_prompt_tokens: self.total_prompt_tokens as nat,
            total_completion_tokens: self.total_completion_tokens as nat,
        }
    }
}

/// The text that a tool's result is fed back as; an error is told to the LLM.
pub open spec fn tool_text(result: Result<ToolOutput, ToolError>) -> Seq<char> {
    match result {
        Ok(output) => output.content@,
        Err(error) => "Tool error: "@ + error.text(),
    }
}

impl ToolLoop {
    /// Starts a loop. A loop without any LLM call is an error.
    pub fn start(request: &LlmRequest, max_iterations: usize) -> (r: Result<Self, AgentError>)
        ensures
            match r {
                Ok(tool_loop) => max_iterations > 0 && tool_loop@ == LoopView::started(
                    request@,
                    max_iterations as nat,
                ),
                Err(error) => {
                    &&& max_iterations == 0
                    &&& error matches AgentError::HandlerFailed(what)
                    &&& what@ == "chat_with_tools called with max_iterations = 0"@
                },
            },
    {
        if max_iterations == 0 {
            return Err(
                AgentError::HandlerFailed(
                    "chat_with_tools called with max_iterations = 0".to_owned(),
                ),
            );
        }
        Ok(ToolLoop::begin(request, max_iterations))
    }

    /// A loop before its first LLM call.
    pub fn begin(request: &LlmRequest, max_iterations: usize) -> (r: Self)
        ensures
            r@ == LoopView::started(request@, max_iterations as nat),
    {
        ToolLoop {
            request: request.clone(),
            max_iterations,
            iterations: 0,
            total_prompt_tokens: 0,
            total_completion_tokens: 0,
        }
    }

    /// The next request for the LLM.
    pub fn request(&self) -> (r: &LlmRequest)
        ensures
            r@ == self@.request,
    {
        &self.request
    }

    /// The number of LLM calls made.
    pub fn iterations(&self) -> (r: usize)
        ensures
            r == self@.iterations,
    {
        self.iterations
    }

    /// Whether the sums can take the tokens of a response.
    pub fn has_room(&self, response: &LlmResponse) -> (r: bool)
        ensures
            r == self@.room(response@),
    {
        response.prompt_tokens <= u64::MAX - self.total_prompt_tokens
            && response.completion_tokens <= u64::MAX - self.total_completion_tokens
    }

    /// Takes a response of the LLM and says what comes next.
    pub fn on_response(&mut self, response: LlmResponse) -> (r: LoopStep)
        requires
            old(self)@.iterations < old(self)@.max_iterations,
            old(self)@.room(response@),
        ensures
            final(self)@ == old(self)@.answered(response@),
            match r {
                LoopStep::Done(result) => {
                    &&& old(self)@.ends_with(response@)
                    &&& result.response@ == response@
                    &&& result.iterations == final(self)@.iterations
                    &&& result.total_prompt_tokens == final(self)@.total_prompt_tokens
                    &&& result.total_completion_tokens == final(self)@.total_completion_tokens
                },
                LoopStep::CallTools(calls) => !old(self)@.ends_with(response@) && llm::calls_view(
                    calls@,
                ) == response@.tool_calls,
            },
    {
        let ghost before = self@;
        self.iterations = self.iterations + 1;
        self.total_prompt_tokens = self.total_prompt_tokens + response.prompt_tokens;
        self.total_completion_tokens = self.total_completion_tokens + response.completion_tokens;
        if response.tool_calls.len() == 0 || self.iterations == self.max_iterations {
            return LoopStep::Done(
                ToolLoopResult {
                    response,
                    iterations: self.iterations,
                    total_prompt_tokens: self.total_prompt_tokens,
                    total_completion_tokens: self.total_completion_tokens,
                },
            );
        }
        let turn = ChatMessage {
            role: Role::Assistant,
            content: response.content,
            tool_calls: llm::clone_calls(&response.tool_calls),
            tool_call_id: None,
        };
        assert(llm::messages_view(self.request.messages@.push(turn)) =~= llm::messages_view(
            self.request.messages@,
        ).push(turn@));
        self.request.messages.push(turn);
        LoopStep::CallTools(response.tool_calls)
    }

    /// Takes the result of a tool that was called.
    pub fn on_tool_result(&mut self, call: &ToolCall, result: Result<ToolOutput, ToolError>)
        ensures
            final(self)@ == old(self)@.tool_answered(call.id@, tool_text(result)),
    {
        let content = match result {
            Ok(output) => output.content,
            Err(error) => join2("Tool error: ", error.to_string().as_str()),
        };
        let turn = ChatMessage {
            role: Role::Tool,
            content,
            tool_calls: Vec::new(),
            tool_call_id: Some(call.id.clone()),
        };
        assert(turn@.tool_calls =~= Seq::empty());
        assert(llm::messages_view(self.request.messages@.push(turn)) =~= llm::messages_view(
            self.request.messages@,
        ).push(turn@));
        self.request.messages.push(turn);
    }
}

/// All previous turns are replayed before the new ones.
pub proof fn law_history_is_replayed(ctx: CtxView, request: RequestView)
    ensures
        ctx.full_request(request).messages.len() >= ctx.history.len() + request.messages.len(),
        ctx.full_request(request).messages.take(ctx.history.len() as int) == replayed(ctx.history),
        ctx.full_request(request).messages.skip(
            ctx.full_request(request).messages.len() - request.messages.len(),
        ) == request.messages,
{
    let full = ctx.full_request(request).messages;
    assert(full.take(ctx.history.len() as int) =~= replayed(ctx.history));
    assert(full.skip(full.len() - request.messages.len()) =~= request.messages);
}

/// A conversation is carried on: what a chat saves in a session is what the next
/// task of that session begins with, and it comes first in the next request, the
/// turns in their order and the answer last.
pub proof fn law_conversation_is_carried_on(
    ctx: CtxView,
    sessions: session::SessionsView,
    id: Seq<char>,
    request: RequestView,
    response: ResponseView,
    next: Task,
    next_request: RequestView,
)
    requires
        session::history_view(next.history@) == session::loaded(
            sessions.insert(id, ctx.chatted(request, response).history),
            id,
        ),
    ensures
        ({
            let turns = stored_turns(request.messages);
            let full = ctx.chatted(request, response).taken_up(next).full_request(next_request);
            full.messages.take((ctx.history.len() + turns.len() + 1) as int) == (replayed(
                ctx.history,
            ) + replayed(turns)).push(MessageView::plain(Role::Assistant, response.content))
        }),
{
    let turns = stored_turns(request.messages);
    let full = ctx.chatted(request, response).taken_up(next).full_request(next_request);
    let k = (ctx.history.len() + turns.len() + 1) as int;
    assert(full.messages.take(k) =~= (replayed(ctx.history) + replayed(turns)).push(
        MessageView::plain(Role::Assistant, response.content),
    ));
}

/// The system prompt of a role affects one request only: the history after the
/// chat is the same with any active role and with none.
pub proof fn law_role_prompt_is_not_stored(
    ctx: CtxView,
    role: Option<Seq<char>>,
    request: RequestView,
    response: ResponseView,
)
    ensures
        (CtxView { active_role: role, ..ctx }).chatted(request, response).history == ctx.chatted(
            request,
            response,
        ).history,
{
}

/// A chat adds the turns of the request that are not a tool's, and one answer, to
/// the end of the history.
pub proof fn law_history_grows(ctx: CtxView, request: RequestView, response: ResponseView)
    ensures
        ctx.chatted(request, response).history.take(ctx.history.len() as int) == ctx.history,
        ctx.chatted(request, response).history.len() == ctx.history.len() + request.messages.filter(
            |message: MessageView| !(message.role is Tool),
        ).len() + 1,
{
    let after = ctx.chatted(request, response).history;
    assert(after.take(ctx.history.len() as int) =~= ctx.history);
    lemma_stored_turns_len(request.messages);
}

proof fn lemma_stored_turns_len(messages: Seq<MessageView>)
    ensures
        stored_turns(messages).len() == messages.filter(
            |message: MessageView| !(message.role is Tool),
        ).len(),
    decreases messages.len(),
{
    reveal(Seq::filter);
    if messages.len() > 0 {
        lemma_stored_turns_len(messages.drop_last());
    }
}

/// The loop after a series of responses.
pub open spec fn after_responses(start: LoopView, responses: Seq<ResponseView>) -> LoopView
    decreases responses.len(),
{
    if responses.len() == 0 {
        start
    } else {
        after_responses(start, responses.drop_last()).answered(responses.last())
    }
}

/// The sum of the prompt tokens of a series of responses.
pub open spec fn prompt_sum(responses: Seq<ResponseView>) -> nat
    decreases responses.len(),
{
    if responses.len() == 0 {
        0
    } else {
        prompt_sum(responses.drop_last()) + responses.last().prompt_tokens as nat
    }
}

/// The sum of the completion tokens of a series of responses.
pub open spec fn completion_sum(responses: Seq<ResponseView>) -> nat
    decreases responses.len(),
{
    if responses.len() == 0 {
        0
    } else {
        completion_sum(responses.drop_last()) + responses.last().completion_tokens as nat
    }
}

/// A loop counts every response once and sums up the tokens of all of them.
pub proof fn law_loop_counts_everything(
    request: RequestView,
    max_iterations: nat,
    responses: Seq<ResponseView>,
)
    ensures
        ({
            let after = after_responses(LoopView::started(request, max_iterations), responses);
            &&& after.iterations == responses.len()
            &&& after.max_iterations == max_iterations
            &&& after.total_prompt_tokens == prompt_sum(responses)
            &&& after.total_completion_tokens == completion_sum(responses)
        }),
    decreases responses.len(),
{
    if responses.len() > 0 {
        law_loop_counts_everything(request, max_iterations, responses.drop_last());
    }
}

/// The loop ends at the latest with the response that reaches the cap.
pub proof fn law_loop_ends_at_cap(
    request: RequestView,
    max_iterations: nat,
    responses: Seq<ResponseView>,
    last: ResponseView,
)
    requires
        responses.len() + 1 == max_iterations,
    ensures
        after_responses(LoopView::started(request, max_iterations), responses).ends_with(last),
{
    law_loop_counts_everything(request, max_iterations, responses);
}

/// The turns that a chat stores keep their role and their text: replayed, they are
/// the turns of the request that are not a tool's, in order, as turns of text.
pub proof fn law_stored_turns_keep_role_and_text(messages: Seq<MessageView>)
    ensures
        replayed(stored_turns(messages)) == messages.filter(
            |message: MessageView| !(message.role is Tool),
        ).map_values(
            |message: MessageView|
                MessageView {
                    role: message.role,
                    content: message.content,
                    tool_calls: Seq::empty(),
                    tool_call_id: None,
                },
        ),
    decreases messages.len(),
{
    let keep = |message: MessageView| !(message.role is Tool);
    let text = |message: MessageView|
        MessageView {
            role: message.role,
            content: message.content,
            tool_calls: Seq::empty(),
            tool_call_id: None,
        };
    reveal(Seq::filter);
    if messages.len() == 0 {
        assert(replayed(stored_turns(messages)) =~= messages.filter(keep).map_values(text));
    } else {
        let init = messages.drop_last();
        let last = messages.last();
        law_stored_turns_keep_role_and_text(init);
        session::law_roles_survive_storage(last.role, session::Role::User);
        if let Some(role) = session::Role::stored(last.role) {
            let turn = StoredView { role, content: last.content };
            assert(replayed(stored_turns(init).push(turn)) =~= replayed(stored_turns(init)).push(
                turn.chat(),
            ));
            assert(init.filter(keep).push(last).map_values(text) =~= init.filter(keep).map_values(
                text,
            ).push(text(last)));
            assert(turn.chat() == text(last));
        }
    }
}

/// After a chat the history is what it was, followed by the turns of the request
/// that are not a tool's, each in its role and with its text, and by the answer as
/// the assistant's turn. Nothing else of the agent changes.
pub proof fn law_chat_stores_the_exchange(
    ctx: CtxView,
    request: RequestView,
    response: ResponseView,
)
    ensures
        ({
            let after = ctx.chatted(request, response);
            let turns = request.messages.filter(
                |message: MessageView| !(message.role is Tool),
            );
            &&& after.history.len() == ctx.history.len() + turns.len() + 1
            &&& forall|i: int|
                0 <= i < ctx.history.len() ==> #[trigger] after.history[i] == ctx.history[i]
            &&& forall|i: int|
                0 <= i < turns.len() ==> {
                    let stored = #[trigger] after.history[ctx.history.len() + i];
                    &&& stored.content == turns[i].content
                    &&& stored.role is User <==> turns[i].role is User
                    &&& stored.role is Assistant <==> turns[i].role is Assistant
                    &&& stored.role is System <==> turns[i].role is System
                }
            &&& after.history.last().role is Assistant
            &&& after.history.last().content == response.content
            &&& after == (CtxView { history: after.history, ..ctx })
        }),
{
    let after = ctx.chatted(request, response);
    let turns = request.messages.filter(|message: MessageView| !(message.role is Tool));
    let stored = stored_turns(request.messages);
    law_stored_turns_keep_role_and_text(request.messages);
    let shown = replayed(stored);
    assert(shown.len() == turns.len());
    assert forall|i: int| 0 <= i < turns.len() implies {
        let kept = #[trigger] after.history[ctx.history.len() + i];
        &&& kept.content == turns[i].content
        &&& kept.role is User <==> turns[i].role is User
        &&& kept.role is Assistant <==> turns[i].role is Assistant
        &&& kept.role is System <==> turns[i].role is System
    } by {
        assert(after.history[ctx.history.len() + i] == stored[i]);
        assert(shown[i] == stored[i].chat());
        assert(shown[i].role == turns[i].role);
        assert(shown[i].content == turns[i].content);
    }
}

/// What goes to the provider: the stored turns, each in its role and with its text;
/// then the prompt of the active role, if it is known, as a system turn; then the
/// turns of the request as they are. The agent's own model takes precedence; the
/// temperature, the longest answer and the tools are those of the request.
pub proof fn law_provider_gets_the_whole_conversation(ctx: CtxView, request: RequestView)
    ensures
        ({
            let full = ctx.full_request(request);
            let old = ctx.history.len();
            let prompt = ctx.active_role matches Some(role) && ctx.roles.dom().contains(role);
            let extra: nat = if prompt {
                1
            } else {
                0
            };
            &&& full.messages.len() == old + extra + request.messages.len()
            &&& forall|i: int|
                0 <= i < old ==> {
                    let turn = #[trigger] full.messages[i];
                    &&& turn.content == ctx.history[i].content
                    &&& turn.tool_calls.len() == 0
                    &&& turn.tool_call_id is None
                    &&& turn.role is User <==> ctx.history[i].role is User
                    &&& turn.role is Assistant <==> ctx.history[i].role is Assistant
                    &&& turn.role is System <==> ctx.history[i].role is System
                }
            &&& prompt ==> {
                let turn = full.messages[old as int];
                &&& turn.role is System
                &&& turn.content == ctx.roles[ctx.active_role->0].system_prompt
                &&& turn.tool_calls.len() == 0
                &&& turn.tool_call_id is None
            }
            &&& forall|i: int|
                old + extra <= i < full.messages.len() ==> #[trigger] full.messages[i]
                    == request.messages[i - old - extra]
            &&& full.model == (if ctx.model is Some {
                ctx.model
            } else {
                request.model
            })
            &&& full.temperature == request.temperature
            &&& full.max_tokens == request.max_tokens
            &&& full.tools == request.tools
        }),
{
}

/// A request with a role has the role's prompt as a system turn before its own
/// turns, and is otherwise the same.
pub proof fn law_role_prompt_comes_first(ctx: CtxView, role: Seq<char>, request: RequestView)
    ensures
        ({
            let with_role = ctx.role_applied(role, request);
            &&& with_role.messages.len() == request.messages.len() + 1
            &&& with_role.messages[0].role is System
            &&& with_role.messages[0].content == ctx.roles[role].system_prompt
            &&& with_role.messages[0].tool_calls.len() == 0
            &&& with_role.messages.drop_first() == request.messages
            &&& with_role == (RequestView { messages: with_role.messages, ..request })
        }),
{
    assert(ctx.role_applied(role, request).messages.drop_first() =~= request.messages);
}

/// An agent that takes up a task works with the session, the history, the store and
/// the role of that task, whatever it worked with before, and stays the same agent.
pub proof fn law_task_brings_its_session(ctx: CtxView, task: Task)
    ensures
        ({
            let after = ctx.taken_up(task);
            &&& match task.session_id {
                Some(id) => after.session_id == Some(id@),
                None => after.session_id is None,
            }
            &&& match task.role {
                Some(role) => after.active_role == Some(role@),
                None => after.active_role is None,
            }
            &&& after.has_store == task.has_store
            &&& after.history.len() == task.history@.len()
            &&& forall|i: int|
                0 <= i < task.history@.len() ==> (#[trigger] after.history[i]).role
                    == task.history@[i].role && after.history[i].content
                    == task.history@[i].content@
            &&& after.id == ctx.id
            &&& after.name == ctx.name
            &&& after.llm == ctx.llm
            &&& after.model == ctx.model
            &&& after.roles == ctx.roles
        }),
{
}

/// A response that asks for tools before the cap is reached goes on as the next
/// turn: the request is the previous one followed by exactly one assistant turn,
/// with the text of the response and all its calls, in order. Any other response
/// ends the loop, and the request stays as it was.
pub proof fn law_response_becomes_a_turn(state: LoopView, response: ResponseView)
    ensures
        ({
            let before = state.request;
            let after = state.answered(response).request;
            let goes_on = response.tool_calls.len() > 0 && state.iterations + 1
                != state.max_iterations;
            &&& state.ends_with(response) <==> !goes_on
            &&& !goes_on ==> after == before
            &&& goes_on ==> {
                &&& after.messages.len() == before.messages.len() + 1
                &&& after.messages.drop_last() == before.messages
                &&& after.messages.last().role is Assistant
                &&& after.messages.last().content == response.content
                &&& after.messages.last().tool_calls == response.tool_calls
                &&& after.messages.last().tool_call_id is None
            }
            &&& after.model == before.model
            &&& after.temperature == before.temperature
            &&& after.max_tokens == before.max_tokens
            &&& after.tools == before.tools
            &&& state.answered(response).max_iterations == state.max_iterations
            &&& state.answered(response).iterations == state.iterations + 1
            &&& state.answered(response).total_prompt_tokens == state.total_prompt_tokens
                + response.prompt_tokens
            &&& state.answered(response).total_completion_tokens
                == state.total_completion_tokens + response.completion_tokens
        }),
{
    let after = state.answered(response).request;
    if !state.ends_with(response) {
        assert(after.messages.drop_last() =~= state.request.messages);
    }
}

/// The result of a tool becomes a turn of its own that answers the call: the request
/// is the previous one followed by it. Nothing is counted.
pub proof fn law_tool_result_answers_its_call(
    state: LoopView,
    id: Seq<char>,
    content: Seq<char>,
)
    ensures
        ({
            let before = state.request;
            let after = state.tool_answered(id, content);
            &&& after.request.messages.len() == before.messages.len() + 1
            &&& after.request.messages.drop_last() == before.messages
            &&& after.request.messages.last().role is Tool
            &&& after.request.messages.last().content == content
            &&& after.request.messages.last().tool_call_id == Some(id)
            &&& after.request.messages.last().tool_calls.len() == 0
            &&& after.request == (RequestView { messages: after.request.messages, ..before })
            &&& after == (LoopView { request: after.request, ..state })
        }),
{
    assert(state.tool_answered(id, content).request.messages.drop_last()
        =~= state.request.messages);
}

/// Whether the turn at `i` asks for a call with this identifier.
pub open spec fn asks_for(messages: Seq<MessageView>, i: int, id: Seq<char>) -> bool {
    &&& 0 <= i < messages.len()
    &&& messages[i].role is Assistant
    &&& exists|k: int|
        0 <= k < messages[i].tool_calls.len() && (#[trigger] messages[i].tool_calls[k]).id == id
}

/// Whether every tool turn answers a call that an assistant turn before it asks for.
pub open spec fn answers_are_asked_for(messages: Seq<MessageView>) -> bool {
    forall|i: int|
        0 <= i < messages.len() && (#[trigger] messages[i]).role is Tool ==> {
            &&& messages[i].tool_call_id matches Some(id)
            &&& exists|j: int| j < i && #[trigger] asks_for(messages, j, id)
        }
}

proof fn lemma_asked_for_stays(messages: Seq<MessageView>, more: MessageView, by: int)
    requires
        answers_are_asked_for(messages),
        more.role is Tool ==> more.tool_call_id is Some,
        more.role is Tool ==> asks_for(messages, by, more.tool_call_id->0),
    ensures
        answers_are_asked_for(messages.push(more)),
{
    let after = messages.push(more);
    assert forall|i: int| 0 <= i < after.len() && (#[trigger] after[i]).role is Tool implies {
        &&& after[i].tool_call_id matches Some(id)
        &&& exists|j: int| j < i && #[trigger] asks_for(after, j, id)
    } by {
        let id = after[i].tool_call_id->0;
        if i < messages.len() {
            assert(messages[i] == after[i]);
            let j = choose|j: int| j < i && #[trigger] asks_for(messages, j, id);
            assert(messages[j] == after[j]);
            assert(asks_for(after, j, id));
        } else {
            assert(messages[by] == after[by]);
            assert(asks_for(after, by, id));
        }
    }
}

/// The model is always shown its own calls: in a loop whose first request has no
/// tool turn that was not asked for, a response and the results of its calls leave
/// none either.
pub proof fn law_every_tool_turn_answers_a_call(
    state: LoopView,
    response: ResponseView,
    k: int,
    content: Seq<char>,
)
    requires
        answers_are_asked_for(state.request.messages),
    ensures
        answers_are_asked_for(state.answered(response).request.messages),
        !state.ends_with(response) && 0 <= k < response.tool_calls.len() ==> {
            let asked = state.answered(response);
            let id = response.tool_calls[k].id;
            &&& asks_for(asked.request.messages, asked.request.messages.len() - 1, id)
            &&& answers_are_asked_for(asked.tool_answered(id, content).request.messages)
        },
{
    law_response_becomes_a_turn(state, response);
    let asked = state.answered(response).request.messages;
    if !state.ends_with(response) {
        let turn = asked.last();
        assert(asked =~= state.request.messages.push(turn));
        lemma_asked_for_stays(state.request.messages, turn, 0);
        if 0 <= k < response.tool_calls.len() {
            let id = response.tool_calls[k].id;
            assert(asked[asked.len() - 1].tool_calls[k].id == id);
            assert(asks_for(asked, asked.len() - 1, id));
            let after = state.answered(response).tool_answered(id, content).request.messages;
            law_tool_result_answers_its_call(state.answered(response), id, content);
            assert(after =~= asked.push(after.last()));
            assert(after.last().tool_call_id == Some(id));
            lemma_asked_for_stays(asked, after.last(), asked.len() - 1);
        }
    }
}

/// A call that was asked for stays asked for, whatever follows.
pub proof fn law_calls_stay_in_the_conversation(
    state: LoopView,
    response: ResponseView,
    id: Seq<char>,
    content: Seq<char>,
    i: int,
    asked: Seq<char>,
)
    requires
        asks_for(state.request.messages, i, asked),
    ensures
        asks_for(state.answered(response).request.messages, i, asked),
        asks_for(state.tool_answered(id, content).request.messages, i, asked),
{
    let answered = state.answered(response).request.messages;
    let told = state.tool_answered(id, content).request.messages;
    assert(answered[i] == state.request.messages[i]);
    assert(told[i] == state.request.messages[i]);
}

/// The text of a result is fed back as it is, and of an error the LLM is told the
/// whole message.
pub proof fn law_tool_errors_are_told(result: Result<ToolOutput, ToolError>)
    ensures
        result matches Ok(output) ==> tool_text(result) == output.content@,
        result matches Err(error) ==> {
            &&& tool_text(result).len() > error.text().len()
            &&& tool_text(result).skip(tool_text(result).len() - error.text().len())
                == error.text()
        },
{
    reveal_strlit("Tool error: ");
    if let Err(error) = result {
        let told = tool_text(result);
        assert(told.skip(told.len() - error.text().len()) =~= error.text());
    }
}

/// A loop begins with the request that it is given, and with nothing counted.
pub proof fn law_loop_begins_with_its_request(request: RequestView, max_iterations: nat)
    ensures
        ({
            let start = LoopView::started(request, max_iterations);
            &&& start.request == request
            &&& start.max_iterations == max_iterations
            &&& start.iterations == 0
            &&& start.total_prompt_tokens == 0
            &&& start.total_completion_tokens == 0
        }),
{
}

/// Nothing is sent for an agent whose budget, or that of the run, is exhausted, nor
/// without a provider. Otherwise the whole conversation is sent.
pub proof fn law_exhausted_budget_sends_nothing(
    ctx: CtxView,
    request: RequestView,
    budget: Option<BudgetView>,
    r: Result<LlmRequest, AgentError>,
)
    requires
        is_begun(ctx, request, budget, r),
    ensures
        (budget matches Some(b) && (b.global.tripped || (b.agents.dom().contains(ctx.name)
            && b.agents[ctx.name].tripped))) <==> (r matches Err(AgentError::BudgetExceeded)),
        r is Ok ==> ctx.llm,
        ctx.llm && budget is None ==> r is Ok,
        !ctx.llm ==> r is Err,
        r matches Ok(full) ==> {
            &&& full.messages@.len() >= ctx.history.len() + request.messages.len()
            &&& full.temperature == request.temperature
            &&& full.max_tokens == request.max_tokens
        },
{
    if let Ok(full) = r {
        assert(full@.messages.len() == full.messages@.len());
    }
}

/// The tokens of an answer are charged to the agent and to the run, whatever comes of
/// it. An answer that takes a sum above its limit is lost on the agent, and the
/// conversation stays as it was; so it does where the provider failed, and then nothing
/// is charged. Any other answer is handed on, and the history is to be saved if and only
/// if the task has a session and a store stands by.
pub proof fn law_answers_are_charged_and_kept(
    ctx: CtxView,
    after: CtxView,
    request: RequestView,
    outcome: Result<LlmResponse, LlmError>,
    budget: BudgetView,
    charged: BudgetView,
    r: Result<ChatDone, AgentError>,
)
    requires
        is_finished(ctx, after, request, outcome, Some(budget), Some(charged), r),
        outcome matches Ok(response) ==> {
            let tokens = response.prompt_tokens + response.completion_tokens;
            &&& budget.global.used + tokens <= u64::MAX
            &&& budget.agents.dom().contains(ctx.name) ==> budget.agents[ctx.name].used + tokens
                <= u64::MAX
        },
    ensures
        outcome matches Err(error) ==> {
            &&& r matches Err(AgentError::Llm(told)) && told == error
            &&& after == ctx
            &&& charged == budget
        },
        outcome matches Ok(response) ==> {
            let tokens = response.prompt_tokens + response.completion_tokens;
            let over = (budget.global.limit matches Some(limit) && budget.global.used + tokens
                > limit) || (budget.agents.dom().contains(ctx.name) && (
            budget.agents[ctx.name].limit matches Some(limit) && budget.agents[ctx.name].used
                + tokens > limit));
            &&& charged.global.used == budget.global.used + tokens
            &&& budget.agents.dom().contains(ctx.name) ==> charged.agents[ctx.name].used
                == budget.agents[ctx.name].used + tokens
            &&& over ==> (r matches Err(AgentError::BudgetExceeded)) && after == ctx
            &&& !over ==> {
                &&& r matches Ok(done)
                &&& done.response.content@ == response.content@
                &&& done.response.prompt_tokens == response.prompt_tokens
                &&& done.response.completion_tokens == response.completion_tokens
                &&& done.response.tool_calls@.len() == response.tool_calls@.len()
                &&& done.save <==> ctx.session_id is Some && ctx.has_store
                &&& after.history.len() > ctx.history.len()
                &&& after.history.last().content == response.content@
            }
        },
{
    if let Ok(response) = outcome {
        let tokens = (response.prompt_tokens + response.completion_tokens) as u64;
        crate::budget::law_charge_passes_within_the_limits(budget, ctx.name, tokens);
        crate::budget::law_charge_adds_up(budget.global, tokens);
        if let Ok(done) = r {
            law_chat_stores_the_exchange(ctx, request, response@);
            assert(done.response@.tool_calls.len() == done.response.tool_calls@.len());
            assert(response@.tool_calls.len() == response.tool_calls@.len());
        }
    }
}

} // verus!
