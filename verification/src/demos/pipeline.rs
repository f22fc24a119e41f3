//! A chain of three agents: the researcher hands its notes to the writer, the
//! writer its article to the editor.

use vstd::prelude::*;

use crate::agent::message::AgentReply;
use crate::ids::TaskId;
use crate::llm::LlmRequest;
use crate::llm::LlmResponse;
use crate::llm::MessageView;
use crate::llm::RequestView;
use crate::llm::Role;
use crate::llm::Temperature;

verus! {

/// A place in the chain.
#[derive(Debug, Clone, Copy, PartialEq, Eq, Structural)]
pub enum Stage {
    /// Researches a topic.
    Researcher,
    /// Turns research notes into an article.
    Writer,
    /// Polishes a draft.
    Editor,
}

impl Stage {
    /// The name of the agent.
    pub open spec fn name_text(self) -> Seq<char> {
        match self {
            Stage::Researcher => "researcher"@,
            Stage::Writer => "writer"@,
            Stage::Editor => "editor"@,
        }
    }

    /// The name of the agent.
    pub fn name(self) -> (r: &'static str)
        ensures
            r@ == self.name_text(),
    {
        match self {
            Stage::Researcher => "researcher",
            Stage::Writer => "writer",
            Stage::Editor => "editor",
        }
    }

    /// The stage that gets the work next, if there is one.
    pub open spec fn next_stage(self) -> Option<Stage> {
        match self {
            Stage::Researcher => Some(Stage::Writer),
            Stage::Writer => Some(Stage::Editor),
            Stage::Editor => None,
        }
    }

    /// The stage that gets the work next, if there is one.
    pub fn next(self) -> (r: Option<Stage>)
        ensures
            r == self.next_stage(),
    {
        match self {
            Stage::Researcher => Some(Stage::Writer),
            Stage::Writer => Some(Stage::Editor),
            Stage::Editor => None,
        }
    }

    /// The instructions to the model.
    pub open spec fn prompt(self) -> Seq<char> {
        match self {
            Stage::Researcher =>
                "You are a research assistant. Produce concise notes with key facts."@,
            Stage::Writer =>
                "You are a writer. Turn research notes into a clear, engaging article."@,
            Stage::Editor =>
                "You are an editor. Polish the article for clarity, grammar, and flow."@,
        }
    }

    /// What the model is asked: 0.7 is the temperature of the writer, 0.3 that of
    /// the others.
    pub open spec fn asked(self, instruction: Seq<char>) -> RequestView {
        RequestView {
            model: None,
            messages: seq![
                MessageView::plain(Role::System, self.prompt()),
                MessageView::plain(Role::User, instruction),
            ],
            temperature: Some(
                Temperature {
                    bits: if self is Writer {
                        0x3f33_3333
                    } else {
                        0x3e99_999a
                    },
                },
            ),
            max_tokens: Some(
                if self is Researcher {
                    1024
                } else {
                    2048
                },
            ),
            tools: None,
        }
    }

    /// What the model is asked.
    pub fn request(self, instruction: &str) -> (r: LlmRequest)
        ensures
            r@ == self.asked(instruction@),
    {
        let (prompt, bits, max_tokens): (&'static str, u32, u32) = match self {
            Stage::Researcher => (
                "You are a research assistant. Produce concise notes with key facts.",
                0x3e99_999a,
                1024,
            ),
            Stage::Writer => (
                "You are a writer. Turn research notes into a clear, engaging article.",
                0x3f33_3333,
                2048,
            ),
            Stage::Editor => (
                "You are an editor. Polish the article for clarity, grammar, and flow.",
                0x3e99_999a,
                2048,
            ),
        };
        let r = LlmRequest::builder().system(prompt).user(instruction).temperature(
            Temperature { bits },
        ).max_tokens(max_tokens).build();
        assert(r@.messages =~= self.asked(instruction@).messages);
        r
    }
}

/// Whether `r` is a reply to a task with this output, of an agent that spent
/// `self_tokens` itself and `nested` through others.
pub open spec fn is_reply(
    task_id: TaskId,
    output: Seq<char>,
    self_tokens: int,
    nested: int,
    r: AgentReply,
) -> bool {
    &&& r.task_id == task_id
    &&& r.output@ == output
    &&& r.self_tokens == self_tokens
    &&& r.total_tokens == self_tokens + nested
}

/// The reply of an agent that answers by itself.
pub fn own_reply(task_id: TaskId, response: LlmResponse) -> (r: AgentReply)
    requires
        response.countable(),
    ensures
        r.task_id == task_id,
        r.output == response.content,
        r.self_tokens == response.prompt_tokens + response.completion_tokens,
        r.total_tokens == r.self_tokens,
        is_reply(
            task_id,
            response.content@,
            response.prompt_tokens + response.completion_tokens,
            0,
            r,
        ),
{
    let tokens: u64 = response.total_tokens();
    AgentReply { task_id, output: response.content, self_tokens: tokens, total_tokens: tokens }
}

/// The reply of an agent that handed its work on: the output is that of the peer,
/// and what the peer cost is added to the total.
pub fn delegated_reply(task_id: TaskId, self_tokens: u64, nested: AgentReply) -> (r: AgentReply)
    requires
        self_tokens + nested.total_tokens <= u64::MAX,
    ensures
        r.task_id == task_id,
        r.output == nested.output,
        r.self_tokens == self_tokens,
        r.total_tokens == self_tokens + nested.total_tokens,
        is_reply(task_id, nested.output@, self_tokens as int, nested.total_tokens as int, r),
{
    AgentReply {
        task_id,
        output: nested.output,
        self_tokens,
        total_tokens: self_tokens + nested.total_tokens,
    }
}

/// The work goes once through the chain: from the researcher to the writer, from the
/// writer to the editor, and there it ends. No stage gets it twice.
pub proof fn law_work_goes_once_through_the_chain(stage: Stage)
    ensures
        stage.next_stage() != Some(stage),
        stage.next_stage() is None <==> stage is Editor,
        stage.next_stage() matches Some(next) ==> !(next is Researcher) && (next.next_stage() is None
            <==> stage is Writer),
{
}

/// Every stage asks the model with its own instructions first and the work, word for
/// word, second; it offers no tools and names no model.
pub proof fn law_stages_ask_for_the_work(stage: Stage, other: Stage, instruction: Seq<char>)
    ensures
        ({
            let asked = stage.asked(instruction);
            &&& asked.messages.len() == 2
            &&& asked.messages[0].role is System
            &&& asked.messages[0].content == stage.prompt()
            &&& asked.messages[1].role is User
            &&& asked.messages[1].content == instruction
            &&& asked.messages[0].tool_calls.len() == 0 && asked.messages[1].tool_calls.len() == 0
            &&& asked.tools is None
            &&& asked.model is None
            &&& asked.temperature is Some
            &&& asked.max_tokens is Some
            &&& other.asked(instruction).temperature == asked.temperature <==> (stage is Writer
                <==> other is Writer)
        }),
{
}

/// What a chain of agents cost in total is what each of them spent itself: nothing is
/// counted twice and nothing is left out. The output is that of the last.
pub proof fn law_total_is_the_sum_over_the_chain(
    researcher: AgentReply,
    writer: AgentReply,
    editor: AgentReply,
    output: Seq<char>,
    a: TaskId,
    b: TaskId,
    c: TaskId,
    x: int,
    y: int,
    z: int,
)
    requires
        is_reply(c, output, z, 0, editor),
        is_reply(b, editor.output@, y, editor.total_tokens as int, writer),
        is_reply(a, writer.output@, x, writer.total_tokens as int, researcher),
    ensures
        researcher.total_tokens == researcher.self_tokens + writer.self_tokens
            + editor.self_tokens,
        researcher.self_tokens == x && writer.self_tokens == y && editor.self_tokens == z,
        researcher.output@ == output,
        researcher.task_id == a,
{
}

} // verus!
