pub mod acp;
pub mod agentspec;
pub mod approval_runtime;
pub mod auth;
pub mod background;
pub mod cli;
pub mod config;
pub mod error;
pub mod hooks;
pub mod ids;
pub mod launch;
pub mod llm;
pub mod llm_chat;
pub mod mcp;
pub mod metadata;
pub mod notifications;
pub mod pattern;
pub mod plugin;
pub mod session;
pub mod session_fork;
pub mod session_state;
pub mod skill;
pub mod soul;
pub mod text;
