//! Verified core of the moeb harness kernel: conversation compaction, the
//! agent-loop decision machine, configuration and secrets handling,
//! specification front-matter parsing, retry back-off and the OAuth/MCP
//! session bookkeeping.

pub mod adapters;
pub mod agent;
pub mod attempts;
pub mod compaction;
pub mod config;
pub mod mcp;
pub mod messages;
pub mod numbers;
pub mod outputs;
pub mod oauth;
pub mod project;
pub mod prompt;
pub mod redact;
pub mod replay;
pub mod retry;
pub mod review;
pub mod routing;
pub mod settings;
pub mod spec_parser;
pub mod str_map;
pub mod system;
pub mod text;
pub mod wire;
