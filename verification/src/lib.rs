//! Supervised language-model agents: the rules that run them.

pub mod agent;
pub mod budget;
pub mod config;
pub mod demos;
pub mod error;
pub mod ids;
pub mod json;
pub mod llm;
pub mod name_map;
pub mod runtime;
pub mod sandbox;
pub mod sequences;
pub mod session;
pub mod supervisor;
pub mod text;
pub mod time;
pub mod tool;
pub mod wasm;
