//! Application-level events that coordinate the parts of the interface.

use vstd::prelude::*;

use crate::protocol::EventMsg;
use crate::transcript::Cell;
use crate::verbosity::Verbosity;

verus! {

/// A request to the backend.
#[derive(Debug)]
pub enum Op {
    /// Stop the running task.
    Interrupt,
    /// Start a task.
    UserInput { text: String },
    /// Look up an entry of the prompt history.
    GetHistoryEntryRequest { offset: usize, log_id: u64 },
}

/// What an [`Op`] asks for.
pub enum OpV {
    Interrupt,
    UserInput { text: Seq<char> },
    GetHistoryEntryRequest { offset: usize, log_id: u64 },
}

impl View for Op {
    type V = OpV;

    open spec fn view(&self) -> OpV {
        match *self {
            Op::Interrupt => OpV::Interrupt,
            Op::UserInput { text } => OpV::UserInput { text: text@ },
            Op::GetHistoryEntryRequest { offset, log_id } => OpV::GetHistoryEntryRequest {
                offset,
                log_id,
            },
        }
    }
}

/// A file that matches a search.
#[derive(Debug)]
pub struct FileMatch {
    pub path: String,
    pub score: u32,
}

/// An application-level event.
#[derive(Debug)]
pub enum AppEvent {
    CodexEvent(EventMsg),
    FatalExitRequest(String),
    /// Forward an `Op` to the backend.
    CodexOp(Op),
    /// Kick off an asynchronous file search for the given query (text after the `@`).
    StartFileSearch(String),
    /// Result of a completed asynchronous file search. The `query` echoes the
    /// search term so the UI can decide whether the results are still
    /// relevant.
    FileSearchResult { query: String, matches: Vec<FileMatch> },
    /// Emit a committed transcript cell through the transcript pipeline, so that
    /// commands which wait to be shown together are shown in front of it.
    EmitHistoryCell(Cell),
    /// Insert a committed transcript cell into the history list.
    InsertHistoryCell(Cell),
    StartCommitAnimation,
    StopCommitAnimation,
    CommitTick,
    /// Apply a user-confirmed syntax theme selection.
    SyntaxThemeSelected { name: String },
    /// Apply a user-confirmed transcript verbosity selection.
    VerbositySelected { verbosity: Verbosity },
    /// Apply a user-confirmed YOLO selection.
    YoloSelected { enabled: bool },
}

} // verus!
