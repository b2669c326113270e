//! Broker core for driving interactive AI assistant CLIs through
//! pseudo-terminals: path normalization, prompt framing and done-marker
//! detection, replay buffering, session-log harvesting, and the per-agent
//! request state machine.

pub mod text;
pub mod path_mapper;
pub mod rex;
pub mod config;
pub mod agent;
pub mod pty;
pub mod log;
pub mod session;
pub mod jsonval;
pub mod timestamp;
pub mod opencode;
pub mod gemini;
pub mod codex;
pub mod web;
pub mod mcp;
pub mod manager;
