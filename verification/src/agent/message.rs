//! Work for agents and what comes back.

use vstd::prelude::*;

use crate::ids::TaskId;
use crate::json::Json;
use crate::session;
use crate::session::Message;

verus! {

/// A unit of work submitted to an agent.
///
/// The session fields and the role are set by the runtime before dispatch. User
/// code creates tasks with [`Task::new`].
#[derive(Debug)]
pub struct Task {
    /// Unique identifier for correlation with [`AgentReply::task_id`].
    pub id: TaskId,
    /// Human-readable instruction describing the work.
    pub instruction: String,
    /// Optional structured input (default: `null`).
    pub context: Json,
    /// Session the task belongs to. `None` for stateless one-shot calls.
    pub session_id: Option<String>,
    /// Conversation history loaded before dispatch.
    pub history: Vec<Message>,
    /// Whether a session store stands by to save the history.
    pub has_store: bool,
    /// Optional role name to apply.
    pub role: Option<String>,
}

impl Task {
    /// Creates a new task with a generated [`TaskId`] and null context.
    pub fn new(instruction: &str) -> (r: Self)
        ensures
            crate::ids::is_random_id(r.id.value),
            r.instruction@ == instruction@,
            r.context@ == "null"@,
            r.session_id is None,
            session::history_view(r.history@) == Seq::<session::StoredView>::empty(),
            !r.has_store,
            r.role is None,
    {
        let r = Task {
            id: TaskId::new(),
            instruction: instruction.to_owned(),
            context: Json::null(),
            session_id: None,
            history: Vec::new(),
            has_store: false,
            role: None,
        };
        assert(session::history_view(r.history@) =~= Seq::empty());
        r
    }
}

/// The result produced by an agent after processing a [`Task`].
#[derive(Debug)]
pub struct AgentReply {
    /// The id of the [`Task`] this reply corresponds to.
    pub task_id: TaskId,
    /// The agent's output text.
    pub output: String,
    /// This agent's direct LLM token usage (not including nested agents).
    pub self_tokens: u64,
    /// End-to-end pipeline total (self + nested agents). Telemetry only.
    pub total_tokens: u64,
}

} // verus!
