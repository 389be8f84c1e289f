//! Backends that answer a chat turn: an HTTP client for OpenAI-compatible servers, agentic CLIs
//! run as subprocesses, and the small stores around them.

pub mod events;
pub mod history;
pub mod json;
pub mod llm;
pub mod metrics;
pub mod path;
pub mod room_workdirs;
pub mod run;
pub mod span;
pub mod sse;
pub mod subprocess;
pub mod text;
