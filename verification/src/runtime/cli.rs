//! One-shot dispatch from the command line.
//!
//! Sessions are in memory and lost when the process exits.

use vstd::prelude::*;

use crate::agent::message::AgentReply;
use crate::runtime::RuntimeError;
use crate::text::join3;

verus! {

/// The usage text where an agent was named without a prompt.
pub fn missing_prompt(agent_name: &str, prompt: &str) -> (r: Option<String>)
    ensures
        match r {
            Some(usage) => prompt@.len() == 0 && usage@ == "usage: <binary> "@ + agent_name@
                + " <prompt>"@,
            None => prompt@.len() > 0,
        },
{
    if prompt.is_empty() {
        Some(join3("usage: <binary> ", agent_name, " <prompt>"))
    } else {
        None
    }
}

/// What is left to do when an agent has answered.
#[derive(Debug)]
pub enum CliOutcome {
    /// Print this to stdout; the run succeeded.
    Print(String),
    /// Print this to stderr and exit with code 1.
    Fail(String),
    /// Report this error.
    Error(RuntimeError),
}

/// What is left to do when an agent has answered.
pub fn cli_outcome(reply: Result<AgentReply, RuntimeError>) -> (r: CliOutcome)
    ensures
        match reply {
            Ok(reply) => r == CliOutcome::Print(reply.output),
            Err(RuntimeError::UnknownAgent(name)) => r matches CliOutcome::Fail(message)
                && message@ == "error: no agent named '"@ + name@ + "'"@,
            Err(error) => r == CliOutcome::Error(error),
        },
{
    match reply {
        Ok(reply) => CliOutcome::Print(reply.output),
        Err(RuntimeError::UnknownAgent(name)) => {
            CliOutcome::Fail(join3("error: no agent named '", name.as_str(), "'"))
        },
        Err(error) => CliOutcome::Error(error),
    }
}

} // verus!
