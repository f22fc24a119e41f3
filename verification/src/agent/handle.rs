//! What callers of an agent are told.

use vstd::prelude::*;

use crate::agent::message::AgentReply;
use crate::error::AgentError;

verus! {

/// What follows an attempt to put a message into a mailbox.
#[derive(Debug)]
pub enum SendStep {
    /// The message was delivered.
    Delivered,
    /// The mailbox was closed. It may have been replaced by a restart: try once
    /// more.
    Retry,
    /// The agent cannot be reached.
    GiveUp(AgentError),
}

/// What follows an attempt to send: one retry is made if the mailbox was closed.
pub fn after_attempt(retried: bool, delivered: bool) -> (r: SendStep)
    ensures
        match r {
            SendStep::Delivered => delivered,
            SendStep::Retry => !delivered && !retried,
            SendStep::GiveUp(error) => !delivered && retried && error is Unavailable,
        },
{
    if delivered {
        SendStep::Delivered
    } else if !retried {
        SendStep::Retry
    } else {
        SendStep::GiveUp(AgentError::Unavailable)
    }
}

/// What the caller is told: the agent's result, or that the agent dropped the
/// task without an answer.
pub fn reply_or_cancelled(received: Option<Result<AgentReply, AgentError>>) -> (r: Result<
    AgentReply,
    AgentError,
>)
    ensures
        match received {
            Some(result) => r == result,
            None => r matches Err(error) && error is Cancelled,
        },
{
    match received {
        Some(result) => result,
        None => Err(AgentError::Cancelled),
    }
}

/// What the caller is told who waits only so long: the result, or that the time
/// has passed.
pub fn reply_or_timeout(received: Option<Result<AgentReply, AgentError>>) -> (r: Result<
    AgentReply,
    AgentError,
>)
    ensures
        match received {
            Some(result) => r == result,
            None => r matches Err(error) && error is Timeout,
        },
{
    match received {
        Some(result) => result,
        None => Err(AgentError::Timeout),
    }
}

} // verus!
