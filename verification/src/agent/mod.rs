//! Agents: their messages, their context and their run loop.

pub mod ctx;
pub mod handle;
pub mod message;
pub mod runner;
