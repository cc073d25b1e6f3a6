//! Hooks: commands run around tool calls, and how their outcome decides.
pub mod engine;
pub mod events;
pub mod runner;
