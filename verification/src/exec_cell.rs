//! Commands that the transcript shows together.

use vstd::prelude::*;

use crate::protocol::{ExecCommandEndEvent, ExecCommandSource};

verus! {

impl ExecCommandEndEvent {
    /// Whether the user ran the command in the shell.
    pub open spec fn from_user_shell(&self) -> bool {
        self.source == ExecCommandSource::UserShell
    }

    /// Whether the user ran the command in the shell.
    pub fn is_user_shell_command(&self) -> (b: bool)
        ensures
            b == self.from_user_shell(),
    {
        self.source == ExecCommandSource::UserShell
    }

    /// Whether the command went to a session that was already running.
    pub open spec fn from_running_session(&self) -> bool {
        self.source == ExecCommandSource::UnifiedExecInteraction
    }

    /// Whether the command went to a session that was already running.
    pub fn is_unified_exec_interaction(&self) -> (b: bool)
        ensures
            b == self.from_running_session(),
    {
        self.source == ExecCommandSource::UnifiedExecInteraction
    }
}

/// A cell that shows commands together, in the order in which they ended.
#[derive(Debug)]
pub struct ExecCell {
    pub calls: Vec<ExecCommandEndEvent>,
}

/// Whether successful commands may be shown together with the commands of
/// `calls`: it is one command, it succeeded, and the user neither ran it in the
/// shell nor typed it into a running session.
pub open spec fn is_coalescable(calls: Seq<ExecCommandEndEvent>) -> bool {
    &&& calls.len() == 1
    &&& calls[0].exit_code == 0
    &&& !calls[0].from_user_shell()
    &&& !calls[0].from_running_session()
}

/// Whether successful commands may be shown together with those of `cell`.
pub fn can_coalesce_success_ran_cell(cell: &ExecCell) -> (b: bool)
    ensures
        b == is_coalescable(cell.calls@),
{
    if cell.calls.len() != 1 {
        return false;
    }
    let call = &cell.calls[0];
    call.exit_code == 0 && !call.is_user_shell_command() && !call.is_unified_exec_interaction()
}

/// Commands are shown together with a command that stands alone, that the agent ran and
/// that succeeded, and with no other.
pub proof fn law_only_a_single_success_is_joined(calls: Seq<ExecCommandEndEvent>)
    ensures
        is_coalescable(calls) <==> calls.len() == 1 && calls[0].exit_code == 0 && (calls[0].source
            == ExecCommandSource::Agent || calls[0].source
            == ExecCommandSource::UnifiedExecStartup),
{
}

} // verus!
