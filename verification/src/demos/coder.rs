//! A coding agent with a tool loop of its own, so that each tool call can be shown
//! as it happens.

use vstd::prelude::*;

use crate::agent::ctx::LoopStep;
use crate::agent::ctx::LoopView;
use crate::agent::ctx::ToolLoop;
use crate::agent::message::AgentReply;
use crate::error::ToolError;
use crate::ids::TaskId;
use crate::llm;
use crate::llm::LlmRequest;
use crate::llm::LlmResponse;
use crate::llm::MessageView;
use crate::llm::RequestView;
use crate::llm::ResponseView;
use crate::llm::Role;
use crate::llm::Temperature;
use crate::llm::ToolCall;
use crate::tool::ToolOutput;
use crate::tool::ToolSpec;
use crate::tool::ToolSpecView;

verus! {

/// The LLM calls that the agent makes at most.
pub const MAX_ITERATIONS: usize = 10;

/// The instructions to the model.
pub const SYSTEM_PROMPT: &'static str =
    "You are a code quality agent. You have access to shell, read_file, and edit_file tools. Run cargo clippy, then fix any warnings you find. Read files to understand the code before making changes. Use edit_file with exact old_text matches to make surgical edits.";

/// What the agent does next.
#[derive(Debug)]
pub enum CoderStep {
    /// The work is done.
    Reply(AgentReply),
    /// These tools are to be invoked, and their results handed in, in order.
    CallTools(Vec<ToolCall>),
}

/// The agent at work on a task.
pub struct CoderLoop {
    task_id: TaskId,
    rounds: ToolLoop,
    total_tokens: u64,
}

/// The first request for a task.
pub open spec fn first_request(instruction: Seq<char>, tools: Seq<ToolSpecView>) -> RequestView {
    RequestView {
        model: None,
        messages: seq![
            MessageView::plain(Role::System, SYSTEM_PROMPT@),
            MessageView::plain(Role::User, instruction),
        ],
        temperature: Some(Temperature { bits: 0x3e4c_cccd }),
        max_tokens: Some(4096),
        tools: Some(tools),
    }
}

/// Whether `reply` ends the work on a task with this output after these rounds.
pub open spec fn is_end(
    task: TaskId,
    rounds: LoopView,
    output: Seq<char>,
    reply: AgentReply,
) -> bool {
    &&& reply.task_id == task
    &&& reply.output@ == output
    &&& reply.self_tokens == rounds.total_prompt_tokens + rounds.total_completion_tokens
    &&& reply.total_tokens == reply.self_tokens
}

/// Whether `step` is what follows a response.
pub open spec fn is_step(
    task: TaskId,
    rounds: LoopView,
    response: ResponseView,
    step: CoderStep,
) -> bool {
    match step {
        CoderStep::Reply(reply) => {
            &&& response.tool_calls.len() == 0
            &&& is_end(task, rounds.answered(response), response.content, reply)
        },
        CoderStep::CallTools(calls) => {
            &&& response.tool_calls.len() > 0
            &&& llm::calls_view(calls@) == response.tool_calls
        },
    }
}

impl CoderLoop {
    /// The rounds so far.
    pub closed spec fn rounds(&self) -> LoopView {
        self.rounds@
    }

    /// The task at work.
    pub closed spec fn task(&self) -> TaskId {
        self.task_id
    }

    /// The cap is as it should be, and all tokens are counted.
    pub closed spec fn wf(&self) -> bool {
        &&& self.rounds@.max_iterations == MAX_ITERATIONS + 1
        &&& self.total_tokens == self.rounds@.total_prompt_tokens
            + self.rounds@.total_completion_tokens
    }

    /// The count of tokens can take those of a response.
    pub open spec fn room(&self, response: ResponseView) -> bool {
        self.rounds().total_prompt_tokens + self.rounds().total_completion_tokens
            + response.prompt_tokens + response.completion_tokens <= u64::MAX
    }

    /// Takes up a task. The temperature is 0.2.
    pub fn start(task_id: TaskId, instruction: &str, tools: Vec<ToolSpec>) -> (r: Self)
        ensures
            r.wf(),
            r.task() == task_id,
            r.rounds() == LoopView::started(
                first_request(instruction@, llm::specs_view(tools@)),
                (MAX_ITERATIONS + 1) as nat,
            ),
    {
        let ghost specs = llm::specs_view(tools@);
        let request = LlmRequest::builder().system(SYSTEM_PROMPT).user(instruction).temperature(
            Temperature { bits: 0x3e4c_cccd },
        ).max_tokens(4096).tools(tools).build();
        assert(request@.messages =~= first_request(instruction@, specs).messages);
        let rounds = ToolLoop::begin(&request, MAX_ITERATIONS + 1);
        CoderLoop { task_id, rounds, total_tokens: 0 }
    }

    /// The next request for the LLM.
    pub fn request(&self) -> (r: &LlmRequest)
        ensures
            r@ == self.rounds().request,
    {
        self.rounds.request()
    }

    /// The number of LLM calls made.
    pub fn iterations(&self) -> (r: usize)
        ensures
            r == self.rounds().iterations,
    {
        self.rounds.iterations()
    }

    /// Whether the count of tokens can take those of a response.
    pub fn has_room(&self, response: &LlmResponse) -> (r: bool)
        requires
            self.wf(),
        ensures
            r == self.room(response@),
    {
        response.prompt_tokens <= u64::MAX - self.total_tokens && response.completion_tokens
            <= u64::MAX - self.total_tokens - response.prompt_tokens
    }

    /// Takes a response of the LLM: one without tool calls is the answer.
    pub fn on_response(&mut self, response: LlmResponse) -> (r: CoderStep)
        requires
            old(self).wf(),
            old(self).rounds().iterations < MAX_ITERATIONS,
            old(self).room(response@),
        ensures
            final(self).wf(),
            final(self).task() == old(self).task(),
            final(self).rounds() == old(self).rounds().answered(response@),
            match r {
                CoderStep::Reply(reply) => {
                    &&& response@.tool_calls.len() == 0
                    &&& reply.task_id == old(self).task()
                    &&& reply.output@ == response@.content
                    &&& reply.self_tokens == final(self).rounds().total_prompt_tokens
                        + final(self).rounds().total_completion_tokens
                    &&& reply.total_tokens == reply.self_tokens
                },
                CoderStep::CallTools(calls) => {
                    &&& response@.tool_calls.len() > 0
                    &&& llm::calls_view(calls@) == response@.tool_calls
                },
            },
            is_step(old(self).task(), old(self).rounds(), response@, r),
    {
        self.total_tokens = self.total_tokens + response.prompt_tokens + response.completion_tokens;
        match self.rounds.on_response(response) {
            LoopStep::Done(result) => CoderStep::Reply(
                AgentReply {
                    task_id: self.task_id,
                    output: result.response.content,
                    self_tokens: self.total_tokens,
                    total_tokens: self.total_tokens,
                },
            ),
            LoopStep::CallTools(calls) => CoderStep::CallTools(calls),
        }
    }

    /// Takes the result of a tool that was called.
    pub fn on_tool_result(&mut self, call: &ToolCall, result: Result<ToolOutput, ToolError>)
        requires
            old(self).wf(),
        ensures
            final(self).wf(),
            final(self).task() == old(self).task(),
            final(self).rounds() == old(self).rounds().tool_answered(
                call.id@,
                crate::agent::ctx::tool_text(result),
            ),
    {
        self.rounds.on_tool_result(call, result);
    }

    /// What comes when the tools of a round are done: another round, or the end
    /// if the cap is reached.
    pub fn on_round_done(&self) -> (r: Option<AgentReply>)
        requires
            self.wf(),
        ensures
            match r {
                None => self.rounds().iterations < MAX_ITERATIONS,
                Some(reply) => {
                    &&& self.rounds().iterations >= MAX_ITERATIONS
                    &&& reply.task_id == self.task()
                    &&& reply.output@ == "Max iterations reached"@
                    &&& is_end(
                        self.task(),
                        self.rounds(),
                        "Max iterations reached"@,
                        reply,
                    )
                    &&& reply.self_tokens == self.rounds().total_prompt_tokens
                        + self.rounds().total_completion_tokens
                    &&& reply.total_tokens == reply.self_tokens
                },
            },
    {
        if self.rounds.iterations() < MAX_ITERATIONS {
            None
        } else {
            Some(
                AgentReply {
                    task_id: self.task_id,
                    output: "Max iterations reached".to_owned(),
                    self_tokens: self.total_tokens,
                    total_tokens: self.total_tokens,
                },
            )
        }
    }
}

/// The agent asks the model with its instructions first and the task, word for word,
/// second, and offers all its tools.
pub proof fn law_task_and_tools_are_handed_over(instruction: Seq<char>, tools: Seq<ToolSpecView>)
    ensures
        ({
            let request = first_request(instruction, tools);
            &&& request.messages.len() == 2
            &&& request.messages[0].role is System
            &&& request.messages[0].content == SYSTEM_PROMPT@
            &&& request.messages[1].role is User
            &&& request.messages[1].content == instruction
            &&& request.messages[0].tool_calls.len() == 0
            &&& request.messages[1].tool_calls.len() == 0
            &&& request.tools == Some(tools)
            &&& request.model is None
        }),
{
}

/// A response without calls is the answer to the task, word for word, and what all
/// rounds cost is counted; any other asks for all its calls, in order.
pub proof fn law_answer_ends_the_work(
    task: TaskId,
    rounds: LoopView,
    response: ResponseView,
    step: CoderStep,
    i: int,
)
    requires
        is_step(task, rounds, response, step),
    ensures
        step is Reply <==> response.tool_calls.len() == 0,
        step matches CoderStep::Reply(reply) ==> {
            &&& reply.task_id == task
            &&& reply.output@ == response.content
            &&& reply.self_tokens == rounds.total_prompt_tokens + rounds.total_completion_tokens
                + response.prompt_tokens + response.completion_tokens
            &&& reply.total_tokens == reply.self_tokens
        },
        step matches CoderStep::CallTools(calls) ==> {
            &&& calls@.len() == response.tool_calls.len()
            &&& 0 <= i < calls@.len() ==> {
                &&& calls@[i].id@ == response.tool_calls[i].id
                &&& calls@[i].name@ == response.tool_calls[i].name
                &&& calls@[i].arguments@ == response.tool_calls[i].arguments
            }
        },
{
    if let CoderStep::CallTools(calls) = step {
        assert(llm::calls_view(calls@).len() == calls@.len());
        if 0 <= i < calls@.len() {
            assert(llm::calls_view(calls@)[i] == calls@[i]@);
        }
    }
}

} // verus!
