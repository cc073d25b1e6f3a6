//! The hook engine's decision for a tool call.
use crate::error::KimiCliError;
use vstd::prelude::*;

verus! {

/// Action returned by a hook trigger.
#[derive(Debug, Clone)]
pub enum HookAction {
    Allow,
    Block { reason: String },
}

/// Engine that executes registered hooks.
#[derive(Debug, Clone, Default)]
pub struct HookEngine;

impl HookEngine {
    /// Triggers the named hook for a tool call: no hook blocks a call yet.
    pub fn trigger(&self, _hook_name: &str, _tool_name: &str, _arguments: &serde_json::Value) -> (r: Result<
        HookAction,
        KimiCliError,
    >)
        ensures
            r matches Ok(HookAction::Allow),
    {
        Ok(HookAction::Allow)
    }
}

} // verus!
