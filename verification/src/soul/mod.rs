//! The agent's conversation state and its rules.
pub mod message;
pub mod dynamic_injection;
pub mod denwa_renji;
pub mod agent;
pub mod approval;
pub mod compaction;
pub mod slash;
pub mod kimisoul;
pub mod context;
pub mod btw;
pub mod toolset;

use vstd::prelude::*;

verus! {

/// Reasons a turn may stop.
#[derive(Debug, Clone, Copy, PartialEq, Eq, Structural)]
pub enum TurnStopReason {
    NoToolCalls,
    ToolRejected,
    MaxStepsReached,
    Cancelled,
}

/// Outcome of a single turn.
#[derive(Debug, Clone)]
pub struct TurnOutcome {
    pub stop_reason: TurnStopReason,
    pub final_message: Option<message::Message>,
    pub step_count: usize,
}

impl TurnOutcome {
    /// The outcome of a turn cancelled before it started.
    pub fn cancelled() -> (r: Self)
        ensures
            r.stop_reason == TurnStopReason::Cancelled,
            r.final_message is None,
            r.step_count == 0,
    {
        TurnOutcome { stop_reason: TurnStopReason::Cancelled, final_message: None, step_count: 0 }
    }
}

} // verus!
