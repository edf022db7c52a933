//! How a run of the interface ends.

use vstd::prelude::*;

use crate::protocol::TokenUsage;

verus! {

/// Summary information produced when the CodexPotter TUI exits.
#[derive(Debug)]
pub struct AppExitInfo {
    /// Total token usage reported by the backend for the session/turn.
    pub token_usage: TokenUsage,
    /// The active thread ID, if known.
    pub thread_id: Option<String>,
    /// Why the TUI exited.
    pub exit_reason: ExitReason,
}

/// Reason why the CodexPotter TUI terminated.
#[derive(Debug)]
pub enum ExitReason {
    /// The run completed normally.
    Completed,
    /// The run was interrupted (Esc).
    Interrupted,
    /// The user interrupted or requested exit.
    UserRequested,
    /// The current task failed.
    TaskFailed(String),
    /// A fatal error occurred and the run cannot continue.
    Fatal(String),
}

/// What an [`ExitReason`] says.
#[verifier::ext_equal]
pub enum ExitReasonV {
    Completed,
    Interrupted,
    UserRequested,
    TaskFailed(Seq<char>),
    Fatal(Seq<char>),
}

impl View for ExitReason {
    type V = ExitReasonV;

    open spec fn view(&self) -> ExitReasonV {
        match *self {
            ExitReason::Completed => ExitReasonV::Completed,
            ExitReason::Interrupted => ExitReasonV::Interrupted,
            ExitReason::UserRequested => ExitReasonV::UserRequested,
            ExitReason::TaskFailed(m) => ExitReasonV::TaskFailed(m@),
            ExitReason::Fatal(m) => ExitReasonV::Fatal(m@),
        }
    }
}

impl ExitReason {
    /// A reason that says the same.
    pub fn duplicate(&self) -> (r: ExitReason)
        ensures
            r@ == self@,
    {
        match self {
            ExitReason::Completed => ExitReason::Completed,
            ExitReason::Interrupted => ExitReason::Interrupted,
            ExitReason::UserRequested => ExitReason::UserRequested,
            ExitReason::TaskFailed(m) => ExitReason::TaskFailed(m.clone()),
            ExitReason::Fatal(m) => ExitReason::Fatal(m.clone()),
        }
    }
}

} // verus!
