//! The interactive turn: the prompt screen and the running turn behind it.
//!
//! Both are state machines. They take what the terminal, the composer and the
//! backend report, and answer with the actions to perform. The event loops
//! around them perform the actions and report back.

use vstd::prelude::*;

use crate::app_event::{AppEvent, FileMatch, Op, OpV};
use crate::bottom_pane::prompt_footer::PromptFooterContext;
use crate::exit::{AppExitInfo, ExitReason, ExitReasonV};
use crate::key::{KeyCode, KeyEvent, KeyEventKind, KeyModifiers};
use crate::protocol::{EventMsg, PotterRoundOutcome, TokenUsage};
use crate::reasoning_status::{extract_first_bold, first_bold, opt_text};
use crate::slash_command::SlashCommand;
use crate::styled::{append_lines, blank_line_v, lines_view, Line, LineV};
use crate::text;
use crate::transcript::{
    actions_view, Action, ActionV, Cell, CellV, ProcState, RenderOnlyProcessor,
};
use crate::verbosity::Verbosity;

verus! {

/// Placeholder text shown in the bottom-pane composer.
pub const PROMPT_PLACEHOLDER_TEXT: &'static str = "Assign new task to CodexPotter";

/// Controls how a single render-only turn is rendered into the terminal transcript.
#[derive(Clone, Copy, PartialEq, Eq, Structural, Debug)]
pub struct RenderOnlyTurnOptions {
    /// When true, renders the user prompt into the transcript before sending it to the backend.
    pub render_user_prompt: bool,
    /// When true, inserts a blank line before the first emitted history cell of
    /// the turn. This is useful when several turns share one transcript.
    pub pad_before_first_cell: bool,
}

impl Default for RenderOnlyTurnOptions {
    fn default() -> (r: Self)
        ensures
            r.render_user_prompt,
            !r.pad_before_first_cell,
    {
        RenderOnlyTurnOptions { render_user_prompt: true, pad_before_first_cell: false }
    }
}

/// UI state that persists across render-only turns.
#[derive(Debug)]
pub struct RenderOnlyTurnUiState {
    /// Prompts queued while a task is running (collected from the bottom composer).
    pub queued_user_messages: Vec<String>,
    /// Draft composer contents to restore when returning to a prompt screen.
    pub composer_draft: Option<String>,
}

/// Context that persists across turns within a CodexPotter project/session.
#[derive(Debug)]
pub struct RenderOnlyTurnContext {
    /// Nanoseconds on a monotonic clock.
    pub project_started_at: u64,
    pub prompt_footer: PromptFooterContext,
}

/// What the context indicator is to show.
#[derive(Clone, Copy, PartialEq, Eq, Structural, Debug)]
pub enum ContextWindow {
    /// The tokens used so far.
    UsedTokens(i64),
    /// The share of the window that `usage` leaves.
    RemainingOf { usage: TokenUsage, window: i64 },
}

/// An attempt to recover a broken stream.
#[derive(Debug)]
pub struct StreamRecoveryRetryCell {
    pub attempt: u32,
    pub max_attempts: u32,
    pub error_message: String,
}

/// What a [`StreamRecoveryRetryCell`] says.
#[verifier::ext_equal]
pub struct RetryV {
    pub attempt: u32,
    pub max_attempts: u32,
    pub error_message: Seq<char>,
}

/// An action of the running turn.
#[derive(Debug)]
pub enum AppAction {
    /// Act on the transcript.
    Transcript(Action),
    /// Lay out a cell and hand its lines to [`RenderAppState::on_cell_lines`].
    LayOutCell(Cell),
    /// Show lines above the viewport.
    InsertLines(Vec<Line>),
    ScheduleFrame,
    /// Schedule a frame for when a paste is complete.
    ScheduleFrameAfterPaste,
    UpdateStatusHeader(String),
    UpdateStatusHeaderWithDetails { message: String, details: Option<String> },
    SetStatusHeaderPrefix(String),
    SetTaskRunning(bool),
    SetContextWindow(ContextWindow),
    ShowQueuedMessages(Vec<String>),
    SetComposerText(String),
    InsertIntoComposer(String),
    ClearComposer,
    ApplyExternalEdit(String),
    RecordPromptHistory(String),
    LookUpPromptHistory { offset: usize, log_id: u64 },
    ShowThemePicker,
    SaveTheme { name: String },
    ApplyTheme { name: String },
    RestoreTheme,
    SetVerbosity(Verbosity),
    SetYolo(bool),
    ForwardOp(Op),
    StartFileSearch(String),
    ShowFileSearchResult { query: String, matches: Vec<FileMatch> },
    /// Start the timer that shows streamed lines one by one.
    StartCommitTimer,
    /// Show the streamed lines that are due.
    RunCommitTick,
}

/// What an [`AppAction`] does.
pub enum AppActionV {
    Transcript(ActionV),
    LayOutCell(CellV),
    InsertLines(Seq<LineV>),
    ScheduleFrame,
    ScheduleFrameAfterPaste,
    UpdateStatusHeader(Seq<char>),
    UpdateStatusHeaderWithDetails { message: Seq<char>, details: Option<Seq<char>> },
    SetStatusHeaderPrefix(Seq<char>),
    SetTaskRunning(bool),
    SetContextWindow(ContextWindow),
    ShowQueuedMessages(Seq<Seq<char>>),
    SetComposerText(Seq<char>),
    InsertIntoComposer(Seq<char>),
    ClearComposer,
    ApplyExternalEdit(Seq<char>),
    RecordPromptHistory(Seq<char>),
    LookUpPromptHistory { offset: usize, log_id: u64 },
    ShowThemePicker,
    SaveTheme { name: Seq<char> },
    ApplyTheme { name: Seq<char> },
    RestoreTheme,
    SetVerbosity(Verbosity),
    SetYolo(bool),
    ForwardOp(OpV),
    StartFileSearch(Seq<char>),
    ShowFileSearchResult { query: Seq<char>, matches: Seq<FileMatch> },
    StartCommitTimer,
    RunCommitTick,
}

impl View for AppAction {
    type V = AppActionV;

    open spec fn view(&self) -> AppActionV {
        match *self {
            AppAction::Transcript(a) => AppActionV::Transcript(a@),
            AppAction::LayOutCell(c) => AppActionV::LayOutCell(c@),
            AppAction::InsertLines(l) => AppActionV::InsertLines(lines_view(l@)),
            AppAction::ScheduleFrame => AppActionV::ScheduleFrame,
            AppAction::ScheduleFrameAfterPaste => AppActionV::ScheduleFrameAfterPaste,
            AppAction::UpdateStatusHeader(s) => AppActionV::UpdateStatusHeader(s@),
            AppAction::UpdateStatusHeaderWithDetails { message, details } =>
            AppActionV::UpdateStatusHeaderWithDetails {
                message: message@,
                details: opt_text(details),
            },
            AppAction::SetStatusHeaderPrefix(s) => AppActionV::SetStatusHeaderPrefix(s@),
            AppAction::SetTaskRunning(b) => AppActionV::SetTaskRunning(b),
            AppAction::SetContextWindow(c) => AppActionV::SetContextWindow(c),
            AppAction::ShowQueuedMessages(v) => AppActionV::ShowQueuedMessages(text::texts(v@)),
            AppAction::SetComposerText(s) => AppActionV::SetComposerText(s@),
            AppAction::InsertIntoComposer(s) => AppActionV::InsertIntoComposer(s@),
            AppAction::ClearComposer => AppActionV::ClearComposer,
            AppAction::ApplyExternalEdit(s) => AppActionV::ApplyExternalEdit(s@),
            AppAction::RecordPromptHistory(s) => AppActionV::RecordPromptHistory(s@),
            AppAction::LookUpPromptHistory { offset, log_id } =>
            AppActionV::LookUpPromptHistory { offset, log_id },
            AppAction::ShowThemePicker => AppActionV::ShowThemePicker,
            AppAction::SaveTheme { name } => AppActionV::SaveTheme { name: name@ },
            AppAction::ApplyTheme { name } => AppActionV::ApplyTheme { name: name@ },
            AppAction::RestoreTheme => AppActionV::RestoreTheme,
            AppAction::SetVerbosity(v) => AppActionV::SetVerbosity(v),
            AppAction::SetYolo(b) => AppActionV::SetYolo(b),
            AppAction::ForwardOp(op) => AppActionV::ForwardOp(op@),
            AppAction::StartFileSearch(s) => AppActionV::StartFileSearch(s@),
            AppAction::ShowFileSearchResult { query, matches } =>
            AppActionV::ShowFileSearchResult { query: query@, matches: matches@ },
            AppAction::StartCommitTimer => AppActionV::StartCommitTimer,
            AppAction::RunCommitTick => AppActionV::RunCommitTick,
        }
    }
}

/// What `actions` do.
pub open spec fn app_actions_view(actions: Seq<AppAction>) -> Seq<AppActionV> {
    actions.map_values(|a: AppAction| a@)
}

/// The transcript actions `actions`, as actions of the turn.
pub open spec fn on_transcript(actions: Seq<ActionV>) -> Seq<AppActionV> {
    actions.map_values(|a: ActionV| AppActionV::Transcript(a))
}

/// What the bottom pane shows while an event is handled.
#[derive(Debug)]
pub struct PaneFacts {
    /// The status header.
    pub status_header: String,
    /// The reading of the status clock, while the status is shown.
    pub elapsed_secs: Option<u64>,
}

/// What the composer made of a key.
#[derive(Debug)]
pub enum InputResult {
    Submitted(String),
    Queued(String),
    Command(SlashCommand),
    Nothing,
}

/// What to do with a key.
#[derive(Debug)]
pub enum KeyStep {
    /// Perform the actions; the key is used up.
    Done(Vec<AppAction>),
    /// Hand the key to the open popup, and redraw where it asks for it.
    PassToPopup,
    /// Hand the key to the composer, and its answer to [`RenderAppState::on_input`].
    PassToComposer,
}

/// What a [`KeyStep`] asks for.
pub enum KeyStepV {
    Done(Seq<AppActionV>),
    PassToPopup,
    PassToComposer,
}

impl View for KeyStep {
    type V = KeyStepV;

    open spec fn view(&self) -> KeyStepV {
        match *self {
            KeyStep::Done(a) => KeyStepV::Done(app_actions_view(a@)),
            KeyStep::PassToPopup => KeyStepV::PassToPopup,
            KeyStep::PassToComposer => KeyStepV::PassToComposer,
        }
    }
}

/// How saving a theme went.
#[derive(Debug)]
pub enum ThemeSave {
    Saved,
    SaveFailed(String),
    NoHome(String),
}

/// How editing the prompt in an external editor went.
#[derive(Debug)]
pub enum EditorOutcome {
    Edited(String),
    /// There is no editor; the message says so.
    Missing(String),
    Failed(String),
}

/// The state of a [`RenderAppState`].
#[verifier::ext_equal]
pub struct AppState {
    pub processor: ProcState,
    pub queue: Seq<Seq<char>>,
    /// The reasoning text of the current section.
    pub reasoning: Seq<char>,
    /// The header that a stream error hides.
    pub hidden_header: Option<Seq<char>>,
    pub retry: Option<RetryV>,
    pub commit_timer_running: bool,
    pub has_emitted_lines: bool,
    pub exit_after_next_draw: bool,
    pub exit_reason: ExitReasonV,
}

/// Whether `msg` is a reasoning/thinking stream event.
///
/// Reasoning is never rendered in the transcript; it only updates the live
/// status header.
pub open spec fn is_thinking(msg: EventMsg) -> bool {
    msg is AgentReasoning || msg is AgentReasoningDelta || msg is AgentReasoningRawContent
        || msg is AgentReasoningRawContentDelta || msg is AgentReasoningSectionBreak
}

/// Returns true when `msg` is a reasoning/thinking stream event that should not be
/// rendered as a transcript/history item.
pub fn should_filter_thinking_event(msg: &EventMsg) -> (b: bool)
    ensures
        b == is_thinking(*msg),
{
    match msg {
        EventMsg::AgentReasoning { .. }
        | EventMsg::AgentReasoningDelta { .. }
        | EventMsg::AgentReasoningRawContent { .. }
        | EventMsg::AgentReasoningRawContentDelta { .. }
        | EventMsg::AgentReasoningSectionBreak => true,
        _ => false,
    }
}

/// The exit reason that a finished round gives.
pub open spec fn exit_reason_of(outcome: PotterRoundOutcome) -> ExitReasonV {
    match outcome {
        PotterRoundOutcome::Completed => ExitReasonV::Completed,
        PotterRoundOutcome::UserRequested => ExitReasonV::UserRequested,
        PotterRoundOutcome::TaskFailed { message } => ExitReasonV::TaskFailed(message@),
        PotterRoundOutcome::Fatal { message } => ExitReasonV::Fatal(message@),
    }
}

/// What the context indicator is to show: the share of the window that is left
/// where a window is known, else the tokens used.
pub open spec fn context_window_of(s: ProcState) -> ContextWindow {
    match s.model_context_window {
        Some(w) => if w <= 0 {
            ContextWindow::UsedTokens(s.token_usage.total_tokens)
        } else {
            ContextWindow::RemainingOf { usage: s.context_usage, window: w }
        },
        None => ContextWindow::UsedTokens(s.token_usage.total_tokens),
    }
}

impl AppState {
    /// The state at the start of a turn.
    pub open spec fn initial(processor: ProcState, queue: Seq<Seq<char>>) -> AppState {
        AppState {
            processor,
            queue,
            reasoning: seq![],
            hidden_header: None,
            retry: None,
            commit_timer_running: false,
            has_emitted_lines: false,
            exit_after_next_draw: false,
            exit_reason: ExitReasonV::UserRequested,
        }
    }

    /// The state with the reading of the status clock.
    pub open spec fn at(self, pane: PaneFacts) -> AppState {
        AppState {
            processor: ProcState { current_secs: pane.elapsed_secs, ..self.processor },
            ..self
        }
    }

    /// A stream that broke off and is being recovered, or was given up.
    pub open spec fn stream_broke(self, pane: PaneFacts) -> (AppState, Seq<AppActionV>) {
        let (p, a) = self.at(pane).processor.stream_broke();
        (AppState { processor: p, ..self }, on_transcript(a))
    }

    /// Shows again the header that a stream error hid.
    pub open spec fn restore_header(self) -> (AppState, Seq<AppActionV>) {
        match self.hidden_header {
            Some(h) => (
                AppState { hidden_header: None, ..self },
                seq![AppActionV::UpdateStatusHeader(h)],
            ),
            None => (self, seq![]),
        }
    }

    /// Reads reasoning text; its first title becomes the status header.
    pub open spec fn reason(self, chunk: Seq<char>) -> (AppState, Seq<AppActionV>) {
        let buffer = self.reasoning + chunk;
        (
            AppState { reasoning: buffer, ..self },
            match first_bold(buffer) {
                Some(h) => seq![AppActionV::UpdateStatusHeader(h)],
                None => seq![],
            },
        )
    }

    /// Handles an event that is part of the transcript.
    pub open spec fn transcribe(self, msg: EventMsg, pane: PaneFacts) -> (
        AppState,
        Seq<AppActionV>,
    ) {
        let (s, front) = match msg {
            EventMsg::PotterRoundFinished { outcome } => (
                AppState {
                    exit_reason: exit_reason_of(outcome),
                    exit_after_next_draw: true,
                    ..self
                },
                seq![AppActionV::ScheduleFrame],
            ),
            _ => (self, seq![]),
        };
        let (p, a) = s.at(pane).processor.step(msg);
        let back = if msg is TokenCount || msg is TurnStarted {
            seq![AppActionV::SetContextWindow(context_window_of(p))]
        } else if msg is ExecCommandEnd {
            seq![AppActionV::ScheduleFrame]
        } else if msg is PotterRoundFinished {
            seq![AppActionV::SetTaskRunning(false)]
        } else {
            seq![]
        };
        (AppState { processor: p, ..s }, front + on_transcript(a) + back)
    }

    /// Handles an event once a hidden header is shown again.
    pub open spec fn proceed(self, msg: EventMsg, pane: PaneFacts) -> (AppState, Seq<AppActionV>) {
        match msg {
            EventMsg::AgentReasoningDelta { delta } => self.reason(delta@),
            EventMsg::AgentReasoningRawContentDelta { delta } => self.reason(delta@),
            EventMsg::AgentReasoningSectionBreak => (
                AppState { reasoning: seq![], ..self },
                seq![],
            ),
            EventMsg::AgentReasoning { text } => (AppState { reasoning: seq![], ..self }, seq![]),
            EventMsg::AgentReasoningRawContent { text } => {
                let (s, a) = self.reason(text@);
                (AppState { reasoning: seq![], ..s }, a)
            },
            EventMsg::PotterRoundStarted { current, total } => {
                let (s, a) = self.transcribe(msg, pane);
                (
                    s,
                    seq![
                        AppActionV::SetStatusHeaderPrefix(
                            "Round "@ + crate::exec_human_output::round_text(current, total),
                        ),
                    ] + a,
                )
            },
            EventMsg::TurnStarted { model_context_window } => {
                let (s, a) = (AppState { reasoning: seq![], ..self }).transcribe(msg, pane);
                (s, seq![AppActionV::UpdateStatusHeader("Working"@)] + a)
            },
            _ => self.transcribe(msg, pane),
        }
    }

    /// The state after the backend event `msg`, and the actions that it asks for.
    pub open spec fn step(self, msg: EventMsg, pane: PaneFacts) -> (AppState, Seq<AppActionV>) {
        match msg {
            EventMsg::PotterStreamRecoveryUpdate { attempt, max_attempts, error_message } => {
                let (s, a) = (AppState {
                    retry: Some(RetryV { attempt, max_attempts, error_message: error_message@ }),
                    ..self
                }).stream_broke(pane);
                (s, a + seq![AppActionV::ScheduleFrame])
            },
            EventMsg::PotterStreamRecoveryRecovered => (
                AppState { retry: None, ..self },
                seq![AppActionV::ScheduleFrame],
            ),
            EventMsg::PotterStreamRecoveryGaveUp { attempts, max_attempts, error_message } => {
                let (s, a) = (AppState { retry: None, ..self }).stream_broke(pane);
                (
                    s,
                    a + seq![
                        AppActionV::Transcript(
                            ActionV::Insert(
                                CellV::StreamUnrecoverable {
                                    max_attempts,
                                    error_message: error_message@,
                                },
                            ),
                        ),
                        AppActionV::ScheduleFrame,
                    ],
                )
            },
            EventMsg::StreamError { message, additional_details } => (
                AppState {
                    hidden_header: match self.hidden_header {
                        Some(h) => Some(h),
                        None => Some(pane.status_header@),
                    },
                    ..self
                },
                seq![
                    AppActionV::UpdateStatusHeaderWithDetails {
                        message: message@,
                        details: opt_text(additional_details),
                    },
                ],
            ),
            _ => {
                let (s, a) = self.restore_header();
                let (s2, a2) = s.proceed(msg, pane);
                (s2, a + a2)
            },
        }
    }

    /// Ends the turn for the user. What waits is shown first, the task is
    /// interrupted, and the reason stays fatal where it was.
    pub open spec fn quit(self) -> (AppState, Seq<AppActionV>) {
        let (p, a) = self.processor.flush_tools();
        (
            AppState {
                processor: p,
                exit_reason: if self.exit_reason is Fatal {
                    self.exit_reason
                } else {
                    ExitReasonV::UserRequested
                },
                exit_after_next_draw: true,
                ..self
            },
            on_transcript(a) + seq![
                AppActionV::ForwardOp(OpV::Interrupt),
                AppActionV::ScheduleFrame,
            ],
        )
    }

    /// The state after a key, and what to do with it.
    pub open spec fn key_step(self, key: KeyEvent, popup_visible: bool, composer_empty: bool) -> (
        AppState,
        KeyStepV,
    ) {
        let pressed = key.kind == KeyEventKind::Press;
        let ignored = (self, KeyStepV::Done(seq![]));
        if key.kind == KeyEventKind::Release {
            ignored
        } else if key.modifiers == KeyModifiers::alt_only() && key.code == KeyCode::Up
            && self.queue.len() > 0 {
            if !pressed {
                ignored
            } else {
                (
                    AppState { queue: self.queue.drop_last(), ..self },
                    KeyStepV::Done(
                        seq![
                            AppActionV::SetComposerText(self.queue.last()),
                            AppActionV::ShowQueuedMessages(self.queue.drop_last()),
                            AppActionV::ScheduleFrame,
                        ],
                    ),
                )
            }
        } else if key.is_ctrl('c') {
            if !pressed {
                ignored
            } else if popup_visible {
                (self, KeyStepV::PassToPopup)
            } else if composer_empty {
                (self.quit().0, KeyStepV::Done(self.quit().1))
            } else {
                (
                    self,
                    KeyStepV::Done(seq![AppActionV::ClearComposer, AppActionV::ScheduleFrame]),
                )
            }
        } else {
            (self, KeyStepV::PassToComposer)
        }
    }

    /// The state after the composer's answer to a key, and the actions for it.
    pub open spec fn input_step(
        self,
        result: InputResult,
        history_text: Seq<char>,
        task_running: bool,
    ) -> (AppState, Seq<AppActionV>) {
        match result {
            InputResult::Submitted(message) => self.enqueue(message@, history_text),
            InputResult::Queued(message) => self.enqueue(message@, history_text),
            InputResult::Command(SlashCommand::Mention) => (
                self,
                seq![AppActionV::InsertIntoComposer("@"@), AppActionV::ScheduleFrame],
            ),
            InputResult::Command(SlashCommand::Exit) => self.quit(),
            InputResult::Command(SlashCommand::Theme) => if task_running {
                (
                    self,
                    seq![
                        AppActionV::LayOutCell(
                            CellV::Error("'/theme' is disabled while a task is in progress."@),
                        ),
                        AppActionV::ScheduleFrame,
                    ],
                )
            } else {
                (self, seq![AppActionV::ShowThemePicker, AppActionV::ScheduleFrame])
            },
            InputResult::Nothing => (self, seq![]),
        }
    }

    /// Records a prompt and keeps it for when the task is done.
    pub open spec fn enqueue(self, message: Seq<char>, history_text: Seq<char>) -> (
        AppState,
        Seq<AppActionV>,
    ) {
        (
            AppState { queue: self.queue.push(message), ..self },
            seq![
                AppActionV::RecordPromptHistory(history_text),
                AppActionV::ShowQueuedMessages(self.queue.push(message)),
                AppActionV::ScheduleFrame,
            ],
        )
    }

    /// The state after an application event, and the actions for it.
    pub open spec fn app_step(self, event: AppEvent, pane: PaneFacts) -> (
        AppState,
        Seq<AppActionV>,
    ) {
        match event {
            AppEvent::InsertHistoryCell(cell) => (self, seq![AppActionV::LayOutCell(cell@)]),
            AppEvent::EmitHistoryCell(cell) => {
                let (p, a) = self.processor.flush_tools();
                (
                    AppState { processor: p, ..self },
                    on_transcript(a) + seq![AppActionV::LayOutCell(cell@)],
                )
            },
            AppEvent::SyntaxThemeSelected { name } => (
                self,
                seq![AppActionV::SaveTheme { name: name@ }],
            ),
            AppEvent::StartCommitAnimation => if self.commit_timer_running {
                (self, seq![])
            } else {
                (
                    AppState { commit_timer_running: true, ..self },
                    seq![AppActionV::StartCommitTimer],
                )
            },
            AppEvent::StopCommitAnimation => (
                AppState { commit_timer_running: false, ..self },
                seq![],
            ),
            AppEvent::CommitTick => (self, seq![AppActionV::RunCommitTick]),
            AppEvent::CodexEvent(msg) => self.step(msg, pane),
            AppEvent::CodexOp(op) => (
                self,
                match op {
                    Op::GetHistoryEntryRequest { offset, log_id } => seq![
                        AppActionV::LookUpPromptHistory { offset, log_id },
                    ],
                    _ => seq![AppActionV::ForwardOp(op@)],
                },
            ),
            AppEvent::StartFileSearch(query) => (self, seq![AppActionV::StartFileSearch(query@)]),
            AppEvent::FileSearchResult { query, matches } => (
                self,
                seq![
                    AppActionV::ShowFileSearchResult { query: query@, matches: matches@ },
                    AppActionV::ScheduleFrame,
                ],
            ),
            AppEvent::FatalExitRequest(message) => (
                AppState {
                    exit_reason: ExitReasonV::Fatal(message@),
                    exit_after_next_draw: true,
                    ..self
                },
                seq![AppActionV::SetTaskRunning(false), AppActionV::ScheduleFrame],
            ),
            AppEvent::VerbositySelected { verbosity } => (
                self,
                seq![AppActionV::SetVerbosity(verbosity)],
            ),
            AppEvent::YoloSelected { enabled } => (self, seq![AppActionV::SetYolo(enabled)]),
        }
    }

    /// The lines that a cell adds above the viewport: none where it shows
    /// nothing, and a blank line in front of every cell but the first one and
    /// those that go on with the cell before.
    pub open spec fn cell_step(self, display: Seq<LineV>, continues: bool) -> (
        AppState,
        Seq<LineV>,
    ) {
        if display.len() == 0 || continues {
            (self, display)
        } else if self.has_emitted_lines {
            (self, seq![blank_line_v()] + display)
        } else {
            (AppState { has_emitted_lines: true, ..self }, display)
        }
    }
}

/// A running turn.
#[derive(Debug)]
pub struct RenderAppState {
    processor: RenderOnlyProcessor,
    queued_user_messages: Vec<String>,
    reasoning: String,
    stream_error_status_header: Option<String>,
    stream_recovery_retry_cell: Option<StreamRecoveryRetryCell>,
    commit_timer_running: bool,
    has_emitted_history_lines: bool,
    exit_after_next_draw: bool,
    exit_reason: ExitReason,
}

impl View for RenderAppState {
    type V = AppState;

    closed spec fn view(&self) -> AppState {
        AppState {
            processor: self.processor@,
            queue: text::texts(self.queued_user_messages@),
            reasoning: self.reasoning@,
            hidden_header: opt_text(self.stream_error_status_header),
            retry: match self.stream_recovery_retry_cell {
                Some(c) => Some(
                    RetryV {
                        attempt: c.attempt,
                        max_attempts: c.max_attempts,
                        error_message: c.error_message@,
                    },
                ),
                None => None,
            },
            commit_timer_running: self.commit_timer_running,
            has_emitted_lines: self.has_emitted_history_lines,
            exit_after_next_draw: self.exit_after_next_draw,
            exit_reason: self.exit_reason@,
        }
    }
}

fn push_app(out: &mut Vec<AppAction>, action: AppAction)
    ensures
        app_actions_view(final(out)@) == app_actions_view(old(out)@) + seq![action@],
{
    out.push(action);
    assert(app_actions_view(out@) =~= app_actions_view(old(out)@) + seq![action@]);
}

fn one(action: AppAction) -> (r: Vec<AppAction>)
    ensures
        app_actions_view(r@) == seq![action@],
{
    let r = vec![action];
    assert(app_actions_view(r@) =~= seq![action@]);
    r
}

fn two(first: AppAction, second: AppAction) -> (r: Vec<AppAction>)
    ensures
        app_actions_view(r@) == seq![first@, second@],
{
    let r = vec![first, second];
    assert(app_actions_view(r@) =~= seq![first@, second@]);
    r
}

fn none() -> (r: Vec<AppAction>)
    ensures
        app_actions_view(r@) == Seq::<AppActionV>::empty(),
{
    let r: Vec<AppAction> = Vec::new();
    assert(app_actions_view(r@) =~= Seq::<AppActionV>::empty());
    r
}

fn push_transcript(out: &mut Vec<AppAction>, actions: Vec<Action>)
    ensures
        app_actions_view(final(out)@) == app_actions_view(old(out)@) + on_transcript(
            actions_view(actions@),
        ),
{
    let ghost start = app_actions_view(out@);
    let ghost all = actions_view(actions@);
    let mut actions = actions;
    let ghost source = actions@;
    let mut reversed: Vec<Action> = Vec::new();
    while actions.len() > 0
        invariant
            reversed@.len() + actions@.len() == source.len(),
            forall|k: int| 0 <= k < actions@.len() ==> actions@[k] == source[k],
            forall|k: int|
                0 <= k < reversed@.len() ==> reversed@[k] == source[source.len() - 1 - k],
        decreases actions@.len(),
    {
        if let Some(a) = actions.pop() {
            reversed.push(a);
        }
    }
    assert(start + on_transcript(all.take(0)) =~= start);
    while reversed.len() > 0
        invariant
            reversed@.len() <= source.len(),
            all == actions_view(source),
            forall|k: int|
                0 <= k < reversed@.len() ==> reversed@[k] == source[source.len() - 1 - k],
            app_actions_view(out@) == start + on_transcript(
                all.take(source.len() - reversed@.len()),
            ),
        decreases reversed@.len(),
    {
        let ghost n = source.len() - reversed@.len();
        if let Some(a) = reversed.pop() {
            push_app(out, AppAction::Transcript(a));
            proof {
                assert(all.take(n + 1) =~= all.take(n) + seq![all[n]]);
                assert(on_transcript(all.take(n + 1)) =~= on_transcript(all.take(n)) + seq![
                    AppActionV::Transcript(all[n]),
                ]);
                assert(app_actions_view(out@) =~= start + on_transcript(all.take(n + 1)));
            }
        }
    }
    assert(all.take(source.len() as int) =~= all);
}

impl RenderAppState {
    /// The turn that `processor` renders, with the prompts `queued_user_messages`
    /// waiting.
    pub fn new(processor: RenderOnlyProcessor, queued_user_messages: Vec<String>) -> (r: Self)
        ensures
            r@ == AppState::initial(processor@, text::texts(queued_user_messages@)),
    {
        RenderAppState {
            processor,
            queued_user_messages,
            reasoning: String::new(),
            stream_error_status_header: None,
            stream_recovery_retry_cell: None,
            commit_timer_running: false,
            has_emitted_history_lines: false,
            exit_after_next_draw: false,
            exit_reason: ExitReason::UserRequested,
        }
    }

    /// Treats the transcript as one that shows something already.
    pub fn set_has_emitted_history_lines(&mut self, emitted: bool)
        ensures
            final(self)@ == (AppState { has_emitted_lines: emitted, ..old(self)@ }),
    {
        self.has_emitted_history_lines = emitted;
    }

    /// Tells the processor the width of the screen.
    pub fn set_last_rendered_width(&mut self, width: u16)
        ensures
            final(self)@ == (AppState {
                processor: ProcState {
                    last_rendered_width: Some(width),
                    ..old(self)@.processor
                },
                ..old(self)@
            }),
    {
        self.processor.set_last_rendered_width(Some(width));
    }

    /// Whether the turn ends once the next frame is drawn.
    pub fn exit_after_next_draw(&self) -> (b: bool)
        ensures
            b == self@.exit_after_next_draw,
    {
        self.exit_after_next_draw
    }

    /// Whether the timer that shows streamed lines one by one is to run.
    pub fn commit_timer_running(&self) -> (b: bool)
        ensures
            b == self@.commit_timer_running,
    {
        self.commit_timer_running
    }

    /// The processor, for the commands that wait to be shown.
    pub fn processor(&self) -> (r: &RenderOnlyProcessor)
        ensures
            r@ == self@.processor,
    {
        &self.processor
    }

    /// The attempt to recover a broken stream, while there is one.
    pub fn retry_cell(&self) -> (r: Option<&StreamRecoveryRetryCell>)
        ensures
            match r {
                Some(c) => self@.retry == Some(
                    RetryV {
                        attempt: c.attempt,
                        max_attempts: c.max_attempts,
                        error_message: c.error_message@,
                    },
                ),
                None => self@.retry is None,
            },
    {
        self.stream_recovery_retry_cell.as_ref()
    }

    /// What a run that ends now reports.
    pub fn exit_info(&self) -> (r: AppExitInfo)
        ensures
            r.token_usage == self@.processor.token_usage,
            opt_text(r.thread_id) == self@.processor.thread_id,
            r.exit_reason@ == self@.exit_reason,
    {
        AppExitInfo {
            token_usage: self.processor.token_usage(),
            thread_id: self.processor.thread_id(),
            exit_reason: self.exit_reason.duplicate(),
        }
    }

    /// The prompts that wait, in order.
    pub fn queued_messages(&self) -> (r: Vec<String>)
        ensures
            text::texts(r@) == self@.queue,
    {
        let mut r: Vec<String> = Vec::new();
        let mut i: usize = 0;
        while i < self.queued_user_messages.len()
            invariant
                i <= self.queued_user_messages@.len(),
                r@.len() == i,
                forall|k: int|
                    0 <= k < i ==> (#[trigger] r@[k])@ == self.queued_user_messages@[k]@,
            decreases self.queued_user_messages@.len() - i,
        {
            r.push(self.queued_user_messages[i].clone());
            i += 1;
        }
        assert(text::texts(r@) =~= text::texts(self.queued_user_messages@));
        r
    }

    fn stream_broke(&mut self, pane: &PaneFacts) -> (r: Vec<AppAction>)
        ensures
            final(self)@ == old(self)@.stream_broke(*pane).0,
            app_actions_view(r@) == old(self)@.stream_broke(*pane).1,
    {
        let ghost want = self@.stream_broke(*pane).1;
        self.processor.set_current_elapsed_secs(pane.elapsed_secs);
        let actions = self.processor.handle_retryable_stream_error();
        let mut out = none();
        push_transcript(&mut out, actions);
        assert(app_actions_view(out@) =~= want);
        out
    }

    fn reason(&mut self, chunk: &str) -> (r: Vec<AppAction>)
        ensures
            final(self)@ == old(self)@.reason(chunk@).0,
            app_actions_view(r@) == old(self)@.reason(chunk@).1,
    {
        self.reasoning.append(chunk);
        match extract_first_bold(self.reasoning.as_str()) {
            Some(header) => one(AppAction::UpdateStatusHeader(header)),
            None => none(),
        }
    }

    fn transcribe(&mut self, msg: EventMsg, pane: &PaneFacts) -> (r: Vec<AppAction>)
        ensures
            final(self)@ == old(self)@.transcribe(msg, *pane).0,
            app_actions_view(r@) == old(self)@.transcribe(msg, *pane).1,
    {
        let ghost want = self@.transcribe(msg, *pane);
        let mut out = none();
        let update_context = matches!(msg, EventMsg::TokenCount { .. } | EventMsg::TurnStarted { .. });
        let redraw = matches!(msg, EventMsg::ExecCommandEnd { .. });
        let stop = matches!(msg, EventMsg::PotterRoundFinished { .. });
        if let EventMsg::PotterRoundFinished { outcome } = &msg {
            self.exit_reason = match outcome {
                PotterRoundOutcome::Completed => ExitReason::Completed,
                PotterRoundOutcome::UserRequested => ExitReason::UserRequested,
                PotterRoundOutcome::TaskFailed { message } => ExitReason::TaskFailed(
                    message.clone(),
                ),
                PotterRoundOutcome::Fatal { message } => ExitReason::Fatal(message.clone()),
            };
            self.exit_after_next_draw = true;
            push_app(&mut out, AppAction::ScheduleFrame);
        }
        self.processor.set_current_elapsed_secs(pane.elapsed_secs);
        let actions = self.processor.handle_codex_event(msg);
        push_transcript(&mut out, actions);
        if update_context {
            push_app(&mut out, AppAction::SetContextWindow(self.context_window()));
        }
        if redraw {
            push_app(&mut out, AppAction::ScheduleFrame);
        }
        if stop {
            push_app(&mut out, AppAction::SetTaskRunning(false));
        }
        assert(app_actions_view(out@) =~= want.1);
        assert(self@ =~= want.0);
        out
    }

    /// What the context indicator is to show.
    pub fn context_window(&self) -> (r: ContextWindow)
        ensures
            r == context_window_of(self@.processor),
    {
        let total: i64 = self.processor.token_usage().total_tokens;
        match self.processor.model_context_window() {
            None => ContextWindow::UsedTokens(total),
            Some(window) => if window <= 0 {
                ContextWindow::UsedTokens(total)
            } else {
                ContextWindow::RemainingOf { usage: self.processor.context_usage(), window }
            },
        }
    }

    fn proceed(&mut self, msg: EventMsg, pane: &PaneFacts) -> (r: Vec<AppAction>)
        ensures
            final(self)@ == old(self)@.proceed(msg, *pane).0,
            app_actions_view(r@) == old(self)@.proceed(msg, *pane).1,
    {
        let ghost want = self@.proceed(msg, *pane);
        match msg {
            EventMsg::AgentReasoningDelta { delta } => self.reason(delta.as_str()),
            EventMsg::AgentReasoningRawContentDelta { delta } => self.reason(delta.as_str()),
            EventMsg::AgentReasoningSectionBreak => {
                self.reasoning = String::new();
                none()
            },
            EventMsg::AgentReasoning { text: _ } => {
                self.reasoning = String::new();
                none()
            },
            EventMsg::AgentReasoningRawContent { text } => {
                let r = self.reason(text.as_str());
                self.reasoning = String::new();
                r
            },
            EventMsg::PotterRoundStarted { current, total } => {
                let mut prefix = "Round ".to_string();
                prefix.append(text::decimal_string(current as u64).as_str());
                prefix.append("/");
                prefix.append(text::decimal_string(total as u64).as_str());
                assert(prefix@ =~= "Round "@ + crate::exec_human_output::round_text(current, total));
                let mut out = one(AppAction::SetStatusHeaderPrefix(prefix));
                let mut rest = self.transcribe(EventMsg::PotterRoundStarted { current, total }, pane);
                append_actions(&mut out, rest);
                out
            },
            EventMsg::TurnStarted { model_context_window } => {
                self.reasoning = String::new();
                let mut out = one(AppAction::UpdateStatusHeader("Working".to_string()));
                let mut rest = self.transcribe(EventMsg::TurnStarted { model_context_window }, pane);
                append_actions(&mut out, rest);
                out
            },
            other => self.transcribe(other, pane),
        }
    }

    /// Handles a backend event.
    pub fn handle_codex_event(&mut self, msg: EventMsg, pane: &PaneFacts) -> (r: Vec<AppAction>)
        ensures
            final(self)@ == old(self)@.step(msg, *pane).0,
            app_actions_view(r@) == old(self)@.step(msg, *pane).1,
    {
        match msg {
            EventMsg::PotterStreamRecoveryUpdate { attempt, max_attempts, error_message } => {
                self.stream_recovery_retry_cell =
                    Some(StreamRecoveryRetryCell { attempt, max_attempts, error_message });
                let mut out = self.stream_broke(pane);
                push_app(&mut out, AppAction::ScheduleFrame);
                out
            },
            EventMsg::PotterStreamRecoveryRecovered => {
                self.stream_recovery_retry_cell = None;
                one(AppAction::ScheduleFrame)
            },
            EventMsg::PotterStreamRecoveryGaveUp { attempts: _, max_attempts, error_message } => {
                self.stream_recovery_retry_cell = None;
                let ghost shown = error_message@;
                let mut out = self.stream_broke(pane);
                let ghost broke = app_actions_view(out@);
                append_actions(
                    &mut out,
                    two(
                        AppAction::Transcript(
                            Action::Insert(
                                Cell::StreamUnrecoverable { max_attempts, error_message },
                            ),
                        ),
                        AppAction::ScheduleFrame,
                    ),
                );
                out
            },
            EventMsg::StreamError { message, additional_details } => {
                if self.stream_error_status_header.is_none() {
                    self.stream_error_status_header = Some(pane.status_header.clone());
                }
                one(
                    AppAction::UpdateStatusHeaderWithDetails {
                        message,
                        details: additional_details,
                    },
                )
            },
            other => {
                let mut out = match self.stream_error_status_header.take() {
                    Some(header) => one(AppAction::UpdateStatusHeader(header)),
                    None => none(),
                };
                let rest = self.proceed(other, pane);
                append_actions(&mut out, rest);
                out
            },
        }
    }

    fn quit(&mut self) -> (r: Vec<AppAction>)
        ensures
            final(self)@ == old(self)@.quit().0,
            app_actions_view(r@) == old(self)@.quit().1,
    {
        let ghost want = self@.quit();
        let mut actions: Vec<Action> = Vec::new();
        assert(actions_view(actions@) =~= seq![]);
        self.processor.flush_tools(&mut actions);
        let mut out = none();
        push_transcript(&mut out, actions);
        push_app(&mut out, AppAction::ForwardOp(Op::Interrupt));
        if !matches!(self.exit_reason, ExitReason::Fatal(_)) {
            self.exit_reason = ExitReason::UserRequested;
        }
        self.exit_after_next_draw = true;
        push_app(&mut out, AppAction::ScheduleFrame);
        assert(seq![] + old(self)@.processor.flush_tools().1
            =~= old(self)@.processor.flush_tools().1);
        assert(app_actions_view(out@) =~= want.1);
        out
    }

    /// Handles a key, as far as it does not belong to the composer.
    pub fn handle_key_event(
        &mut self,
        key_event: KeyEvent,
        popup_visible: bool,
        composer_empty: bool,
    ) -> (r: KeyStep)
        ensures
            final(self)@ == old(self)@.key_step(key_event, popup_visible, composer_empty).0,
            r@ == old(self)@.key_step(key_event, popup_visible, composer_empty).1,
    {
        if key_event.kind == KeyEventKind::Release {
            return KeyStep::Done(none());
        }
        let is_press = key_event.kind == KeyEventKind::Press;
        if key_event.modifiers.is_alt() && key_event.code == KeyCode::Up
            && self.queued_user_messages.len() > 0 {
            if !is_press {
                return KeyStep::Done(none());
            }
            let ghost before = self@.queue;
            let last = self.queued_user_messages.pop();
            assert(text::texts(self.queued_user_messages@) =~= before.drop_last());
            if let Some(message) = last {
                let queued = self.queued_messages();
                let mut out = two(
                    AppAction::SetComposerText(message),
                    AppAction::ShowQueuedMessages(queued),
                );
                push_app(&mut out, AppAction::ScheduleFrame);
                assert(app_actions_view(out@) =~= seq![
                    AppActionV::SetComposerText(before.last()),
                    AppActionV::ShowQueuedMessages(before.drop_last()),
                    AppActionV::ScheduleFrame,
                ]);
                return KeyStep::Done(out);
            }
            return KeyStep::Done(none());
        }
        if key_event.is_ctrl_c() {
            if !is_press {
                return KeyStep::Done(none());
            }
            if popup_visible {
                return KeyStep::PassToPopup;
            }
            if composer_empty {
                return KeyStep::Done(self.quit());
            }
            return KeyStep::Done(two(AppAction::ClearComposer, AppAction::ScheduleFrame));
        }
        KeyStep::PassToComposer
    }

    /// Handles what the composer made of a key. `history_text` is how the prompt
    /// history keeps a submitted prompt.
    pub fn on_input(&mut self, result: InputResult, history_text: String, task_running: bool) -> (r:
        Vec<AppAction>)
        ensures
            final(self)@ == old(self)@.input_step(result, history_text@, task_running).0,
            app_actions_view(r@) == old(self)@.input_step(result, history_text@, task_running).1,
    {
        match result {
            InputResult::Submitted(message) => self.enqueue(message, history_text),
            InputResult::Queued(message) => self.enqueue(message, history_text),
            InputResult::Command(cmd) => match cmd {
                SlashCommand::Mention => two(
                    AppAction::InsertIntoComposer("@".to_string()),
                    AppAction::ScheduleFrame,
                ),
                SlashCommand::Exit => self.quit(),
                SlashCommand::Theme => {
                    if !cmd.available_during_task() && task_running {
                        let message = text::concat3(
                            "'/",
                            cmd.command(),
                            "' is disabled while a task is in progress.",
                        );
                        proof {
                            reveal_strlit("'/");
                            reveal_strlit("theme");
                            reveal_strlit("' is disabled while a task is in progress.");
                            reveal_strlit("'/theme' is disabled while a task is in progress.");
                            assert(message@
                                =~= "'/theme' is disabled while a task is in progress."@);
                        }
                        two(
                            AppAction::LayOutCell(Cell::Error(message)),
                            AppAction::ScheduleFrame,
                        )
                    } else {
                        two(AppAction::ShowThemePicker, AppAction::ScheduleFrame)
                    }
                },
            },
            InputResult::Nothing => none(),
        }
    }

    fn enqueue(&mut self, message: String, history_text: String) -> (r: Vec<AppAction>)
        ensures
            final(self)@ == old(self)@.enqueue(message@, history_text@).0,
            app_actions_view(r@) == old(self)@.enqueue(message@, history_text@).1,
    {
        let ghost before = self@.queue;
        let ghost added = message@;
        self.queued_user_messages.push(message);
        assert(text::texts(self.queued_user_messages@) =~= before.push(added));
        let queued = self.queued_messages();
        let mut out = two(
            AppAction::RecordPromptHistory(history_text),
            AppAction::ShowQueuedMessages(queued),
        );
        push_app(&mut out, AppAction::ScheduleFrame);
        assert(app_actions_view(out@) =~= seq![
            AppActionV::RecordPromptHistory(history_text@),
            AppActionV::ShowQueuedMessages(before.push(added)),
            AppActionV::ScheduleFrame,
        ]);
        out
    }

    /// Handles an application event.
    pub fn handle_app_event(&mut self, event: AppEvent, pane: &PaneFacts) -> (r: Vec<AppAction>)
        ensures
            final(self)@ == old(self)@.app_step(event, *pane).0,
            app_actions_view(r@) == old(self)@.app_step(event, *pane).1,
    {
        match event {
            AppEvent::InsertHistoryCell(cell) => one(AppAction::LayOutCell(cell)),
            AppEvent::EmitHistoryCell(cell) => {
                let ghost flushed = self@.processor.flush_tools().1;
                let mut actions: Vec<Action> = Vec::new();
                assert(actions_view(actions@) =~= seq![]);
                self.processor.flush_tools(&mut actions);
                assert(actions_view(actions@) =~= flushed);
                let mut out = none();
                push_transcript(&mut out, actions);
                assert(app_actions_view(out@) =~= on_transcript(flushed));
                push_app(&mut out, AppAction::LayOutCell(cell));
                out
            },
            AppEvent::SyntaxThemeSelected { name } => one(AppAction::SaveTheme { name }),
            AppEvent::StartCommitAnimation => {
                if self.commit_timer_running {
                    none()
                } else {
                    self.commit_timer_running = true;
                    one(AppAction::StartCommitTimer)
                }
            },
            AppEvent::StopCommitAnimation => {
                self.commit_timer_running = false;
                none()
            },
            AppEvent::CommitTick => one(AppAction::RunCommitTick),
            AppEvent::CodexEvent(msg) => self.handle_codex_event(msg, pane),
            AppEvent::CodexOp(op) => match op {
                Op::GetHistoryEntryRequest { offset, log_id } => one(
                    AppAction::LookUpPromptHistory { offset, log_id },
                ),
                other => one(AppAction::ForwardOp(other)),
            },
            AppEvent::StartFileSearch(query) => one(AppAction::StartFileSearch(query)),
            AppEvent::FileSearchResult { query, matches } => two(
                AppAction::ShowFileSearchResult { query, matches },
                AppAction::ScheduleFrame,
            ),
            AppEvent::FatalExitRequest(message) => {
                self.exit_reason = ExitReason::Fatal(message);
                self.exit_after_next_draw = true;
                two(AppAction::SetTaskRunning(false), AppAction::ScheduleFrame)
            },
            AppEvent::VerbositySelected { verbosity } => one(AppAction::SetVerbosity(verbosity)),
            AppEvent::YoloSelected { enabled } => one(AppAction::SetYolo(enabled)),
        }
    }

    /// The lines that a laid out cell adds above the viewport.
    pub fn on_cell_lines(&mut self, display: Vec<Line>, is_stream_continuation: bool) -> (r: Vec<
        Line,
    >)
        ensures
            final(self)@ == old(self)@.cell_step(
                lines_view(display@),
                is_stream_continuation,
            ).0,
            lines_view(r@) == old(self)@.cell_step(
                lines_view(display@),
                is_stream_continuation,
            ).1,
    {
        if display.len() == 0 || is_stream_continuation {
            return display;
        }
        if self.has_emitted_history_lines {
            let mut lines = vec![Line::blank()];
            assert(lines_view(lines@) =~= seq![blank_line_v()]);
            append_lines(&mut lines, display);
            return lines;
        }
        self.has_emitted_history_lines = true;
        display
    }

    /// The backend went away.
    pub fn on_backend_closed(&mut self) -> (r: Vec<AppAction>)
        ensures
            if old(self)@.exit_after_next_draw {
                final(self)@ == old(self)@ && app_actions_view(r@) == Seq::<AppActionV>::empty()
            } else {
                &&& final(self)@ == (AppState {
                    exit_reason: ExitReasonV::Fatal("Backend disconnected"@),
                    exit_after_next_draw: true,
                    ..old(self)@
                })
                &&& app_actions_view(r@) == seq![AppActionV::ScheduleFrame]
            },
    {
        if self.exit_after_next_draw {
            none()
        } else {
            self.exit_reason = ExitReason::Fatal("Backend disconnected".to_string());
            self.exit_after_next_draw = true;
            one(AppAction::ScheduleFrame)
        }
    }

    /// The lines between the transcript and the bottom pane.
    pub open spec fn transient(
        has_emitted: bool,
        ran: Option<Seq<LineV>>,
        exploring: Option<Seq<LineV>>,
        retry: Option<Seq<LineV>>,
        status_visible: bool,
    ) -> Seq<LineV> {
        let live = live_block(ran) + live_block(exploring) + live_block(retry);
        if live.len() == 0 && has_emitted && !status_visible {
            seq![blank_line_v()]
        } else {
            live
        }
    }

    /// The lines between the transcript and the bottom pane: the commands that
    /// wait and a recovery attempt, each behind a blank line, as they are laid
    /// out. Where there are none, a blank line keeps the pane off the transcript,
    /// unless the status does.
    pub fn build_transient_lines(
        &self,
        ran: Option<Vec<Line>>,
        exploring: Option<Vec<Line>>,
        retry: Option<Vec<Line>>,
        status_visible: bool,
    ) -> (r: Vec<Line>)
        ensures
            lines_view(r@) == RenderAppState::transient(
                self@.has_emitted_lines,
                opt_lines(ran),
                opt_lines(exploring),
                opt_lines(retry),
                status_visible,
            ),
    {
        let mut lines: Vec<Line> = Vec::new();
        assert(lines_view(lines@) =~= seq![]);
        push_live(&mut lines, ran);
        push_live(&mut lines, exploring);
        push_live(&mut lines, retry);
        assert(lines_view(lines@) =~= live_block(opt_lines(ran)) + live_block(opt_lines(exploring))
            + live_block(opt_lines(retry)));
        assert(lines@.len() == lines_view(lines@).len());
        if lines.len() == 0 && self.has_emitted_history_lines && !status_visible {
            lines.push(Line::blank());
            assert(lines_view(lines@) =~= seq![blank_line_v()]);
        }
        lines
    }
}

/// What the lines in `lines` show, if there are any.
pub open spec fn opt_lines(lines: Option<Vec<Line>>) -> Option<Seq<LineV>> {
    match lines {
        Some(l) => Some(lines_view(l@)),
        None => None,
    }
}

/// `lines` behind a blank line.
pub open spec fn live_block(lines: Option<Seq<LineV>>) -> Seq<LineV> {
    match lines {
        Some(l) => seq![blank_line_v()] + l,
        None => seq![],
    }
}

fn push_live(out: &mut Vec<Line>, lines: Option<Vec<Line>>)
    ensures
        lines_view(final(out)@) == lines_view(old(out)@) + live_block(opt_lines(lines)),
{
    let ghost start = lines_view(out@);
    if let Some(block) = lines {
        let ghost shown = lines_view(block@);
        out.push(Line::blank());
        assert(lines_view(out@) =~= start + seq![blank_line_v()]);
        append_lines(out, block);
        assert(start + seq![blank_line_v()] + shown =~= start + (seq![blank_line_v()] + shown));
    } else {
        assert(start + seq![] =~= start);
    }
}

fn append_actions(out: &mut Vec<AppAction>, tail: Vec<AppAction>)
    ensures
        app_actions_view(final(out)@) == app_actions_view(old(out)@) + app_actions_view(tail@),
{
    let ghost added = tail@;
    let mut tail = tail;
    out.append(&mut tail);
    assert(app_actions_view(out@) =~= app_actions_view(old(out)@) + app_actions_view(added));
}

/// The action for how editing the prompt elsewhere went.
pub open spec fn editor_action(outcome: EditorOutcome) -> AppActionV {
    match outcome {
        EditorOutcome::Edited(t) => AppActionV::ApplyExternalEdit(t@),
        EditorOutcome::Missing(message) => AppActionV::LayOutCell(CellV::Error(message@)),
        EditorOutcome::Failed(err) => AppActionV::LayOutCell(
            CellV::Error("Failed to open editor: "@ + err@),
        ),
    }
}

/// The actions for how saving a theme went: the theme is used, or the one that is
/// configured comes back and an error is shown.
pub open spec fn theme_save_actions(name: Seq<char>, outcome: ThemeSave) -> Seq<AppActionV> {
    match outcome {
        ThemeSave::Saved => seq![AppActionV::ApplyTheme { name }, AppActionV::ScheduleFrame],
        ThemeSave::SaveFailed(err) => seq![
            AppActionV::RestoreTheme,
            AppActionV::LayOutCell(CellV::Error("Failed to save theme: "@ + err@)),
            AppActionV::ScheduleFrame,
        ],
        ThemeSave::NoHome(err) => seq![
            AppActionV::RestoreTheme,
            AppActionV::LayOutCell(CellV::Error("Failed to find CODEX_HOME: "@ + err@)),
            AppActionV::ScheduleFrame,
        ],
    }
}

/// The actions for how saving a theme went.
pub fn on_theme_save(name: String, outcome: ThemeSave) -> (r: Vec<AppAction>)
    ensures
        app_actions_view(r@) == theme_save_actions(name@, outcome),
{
    let message = match outcome {
        ThemeSave::Saved => {
            return two(AppAction::ApplyTheme { name }, AppAction::ScheduleFrame);
        },
        ThemeSave::SaveFailed(err) => text::concat("Failed to save theme: ", err.as_str()),
        ThemeSave::NoHome(err) => text::concat("Failed to find CODEX_HOME: ", err.as_str()),
    };
    let mut out = two(AppAction::RestoreTheme, AppAction::LayOutCell(Cell::Error(message)));
    let ghost shown = message@;
    push_app(&mut out, AppAction::ScheduleFrame);
    assert(app_actions_view(out@) =~= seq![
        AppActionV::RestoreTheme,
        AppActionV::LayOutCell(CellV::Error(shown)),
        AppActionV::ScheduleFrame,
    ]);
    out
}

/// The action for how editing the prompt in an external editor went.
pub fn on_editor_outcome(outcome: EditorOutcome) -> (r: AppAction)
    ensures
        r@ == editor_action(outcome),
{
    match outcome {
        EditorOutcome::Edited(text) => AppAction::ApplyExternalEdit(text),
        EditorOutcome::Missing(message) => AppAction::LayOutCell(Cell::Error(message)),
        EditorOutcome::Failed(err) => AppAction::LayOutCell(
            Cell::Error(text::concat("Failed to open editor: ", err.as_str())),
        ),
    }
}

/// The cells that start a turn: the warnings, then the prompt of the user where
/// it is shown.
pub open spec fn start_cells(
    warnings: Seq<Seq<char>>,
    prompt: Seq<char>,
    options: RenderOnlyTurnOptions,
) -> Seq<AppActionV> {
    warnings.map_values(|w: Seq<char>| AppActionV::LayOutCell(CellV::Warning(w)))
        + if options.render_user_prompt {
        seq![AppActionV::LayOutCell(CellV::UserPrompt(prompt))]
    } else {
        seq![]
    }
}

/// The actions that start a turn: its first cells, the prompt for the backend,
/// the prompts that still wait, and the status of a running task.
pub open spec fn turn_start(
    warnings: Seq<Seq<char>>,
    prompt: Seq<char>,
    options: RenderOnlyTurnOptions,
    queue: Seq<Seq<char>>,
) -> Seq<AppActionV> {
    start_cells(warnings, prompt, options) + seq![
        AppActionV::ForwardOp(OpV::UserInput { text: prompt }),
        AppActionV::ShowQueuedMessages(queue),
        AppActionV::SetTaskRunning(true),
        AppActionV::ScheduleFrame,
    ]
}

/// Starts a turn in the working directory `cwd` with the prompts of earlier
/// turns that still wait. Returns the turn and the actions that it starts with.
pub fn begin_turn(
    cwd: String,
    prompt: &str,
    options: RenderOnlyTurnOptions,
    startup_warnings: &Vec<String>,
    queued_user_messages: Vec<String>,
) -> (r: (RenderAppState, Vec<AppAction>))
    ensures
        r.0@ == (AppState {
            has_emitted_lines: options.pad_before_first_cell,
            ..AppState::initial(ProcState::initial(cwd@), text::texts(queued_user_messages@))
        }),
        app_actions_view(r.1@) == turn_start(
            text::texts(startup_warnings@),
            prompt@,
            options,
            text::texts(queued_user_messages@),
        ),
{
    let ghost shown = start_cells(text::texts(startup_warnings@), prompt@, options);
    let ghost queue = text::texts(queued_user_messages@);
    let mut out = none();
    let mut i: usize = 0;
    assert(shown.take(0) =~= Seq::<AppActionV>::empty());
    while i < startup_warnings.len()
        invariant
            i <= startup_warnings@.len(),
            shown == start_cells(text::texts(startup_warnings@), prompt@, options),
            app_actions_view(out@) == shown.take(i as int),
        decreases startup_warnings@.len() - i,
    {
        push_app(&mut out, AppAction::LayOutCell(Cell::Warning(startup_warnings[i].clone())));
        assert(shown[i as int] == AppActionV::LayOutCell(
            CellV::Warning(startup_warnings@[i as int]@),
        ));
        assert(shown.take(i + 1) =~= shown.take(i as int) + seq![shown[i as int]]);
        i += 1;
    }
    if options.render_user_prompt {
        push_app(&mut out, AppAction::LayOutCell(Cell::UserPrompt(prompt.to_string())));
    }
    assert(app_actions_view(out@) =~= shown);
    push_app(&mut out, AppAction::ForwardOp(Op::UserInput { text: prompt.to_string() }));
    let processor = RenderOnlyProcessor::new(cwd);
    let mut app = RenderAppState::new(processor, queued_user_messages);
    app.set_has_emitted_history_lines(options.pad_before_first_cell);
    push_app(&mut out, AppAction::ShowQueuedMessages(app.queued_messages()));
    push_app(&mut out, AppAction::SetTaskRunning(true));
    push_app(&mut out, AppAction::ScheduleFrame);
    assert(app_actions_view(out@) =~= shown + seq![
        AppActionV::ForwardOp(OpV::UserInput { text: prompt@ }),
        AppActionV::ShowQueuedMessages(queue),
        AppActionV::SetTaskRunning(true),
        AppActionV::ScheduleFrame,
    ]);
    (app, out)
}

/// Whether `a` changes the transcript.
pub open spec fn touches_transcript(a: AppActionV) -> bool {
    a is Transcript || a is LayOutCell || a is InsertLines
}

/// Reasoning never reaches the transcript: a thinking event asks for no action
/// on it and leaves the processor as it was.
pub proof fn law_thinking_is_never_transcribed(s: AppState, msg: EventMsg, pane: PaneFacts)
    requires
        is_thinking(msg),
    ensures
        s.step(msg, pane).0.processor == s.processor,
        forall|i: int|
            0 <= i < s.step(msg, pane).1.len() ==> !touches_transcript(
                #[trigger] s.step(msg, pane).1[i],
            ),
{
}

/// The header that a stream error hides comes back as it was: however many
/// stream errors follow each other, the first event behind them that is not
/// about recovery shows the header from before the first error.
pub proof fn law_hidden_header_comes_back(
    s: AppState,
    first: EventMsg,
    first_pane: PaneFacts,
    second: EventMsg,
    second_pane: PaneFacts,
    msg: EventMsg,
    pane: PaneFacts,
)
    requires
        s.hidden_header is None,
        first is StreamError,
        second is StreamError,
        !(msg is StreamError),
        !(msg is PotterStreamRecoveryUpdate),
        !(msg is PotterStreamRecoveryRecovered),
        !(msg is PotterStreamRecoveryGaveUp),
    ensures
        ({
            let broken = s.step(first, first_pane).0.step(second, second_pane).0;
            let (t, actions) = broken.step(msg, pane);
            &&& actions.len() > 0
            &&& actions[0] == AppActionV::UpdateStatusHeader(first_pane.status_header@)
            &&& t.hidden_header is None
        }),
{
}

/// A fatal reason survives an exit that the user asks for.
pub proof fn law_fatal_reason_survives_quit(s: AppState)
    ensures
        s.exit_reason is Fatal ==> s.quit().0.exit_reason == s.exit_reason,
        !(s.exit_reason is Fatal) ==> s.quit().0.exit_reason == ExitReasonV::UserRequested,
        s.quit().0.exit_after_next_draw,
        s.quit().0.processor.exploring is None,
        s.quit().0.processor.ran is None,
{
}

/// A turn ends only through the user, a fatal request or the end of its round:
/// no other backend event asks for the exit.
pub proof fn law_only_round_end_exits(s: AppState, msg: EventMsg, pane: PaneFacts)
    requires
        !(msg is PotterRoundFinished),
    ensures
        s.step(msg, pane).0.exit_after_next_draw == s.exit_after_next_draw,
        s.step(msg, pane).0.exit_reason == s.exit_reason,
{
}

/// The last prompt that was queued is the first that comes back for editing, and
/// the queue is then what it was before.
pub proof fn law_queued_prompt_comes_back(
    s: AppState,
    message: Seq<char>,
    history_text: Seq<char>,
    popup_visible: bool,
    composer_empty: bool,
)
    ensures
        ({
            let queued = s.enqueue(message, history_text).0;
            let key = KeyEvent {
                code: KeyCode::Up,
                modifiers: KeyModifiers::alt_only(),
                kind: KeyEventKind::Press,
            };
            let (t, step) = queued.key_step(key, popup_visible, composer_empty);
            &&& t == s
            &&& step matches KeyStepV::Done(actions)
            &&& actions[0] == AppActionV::SetComposerText(message)
        }),
{
    assert(s.queue.push(message).drop_last() =~= s.queue);
}

/// Cells that show something are kept apart by one blank line: the second of two
/// cells has one in front of it, unless it goes on with the first.
pub proof fn law_cells_are_kept_apart(s: AppState, first: Seq<LineV>, second: Seq<LineV>)
    requires
        first.len() > 0,
        second.len() > 0,
    ensures
        ({
            let after = s.cell_step(first, false).0;
            &&& after.has_emitted_lines
            &&& after.cell_step(second, false).1 == seq![blank_line_v()] + second
            &&& after.cell_step(second, true).1 == second
        }),
{
}

/// A round that ends ends the turn for the reason that the round gives: it completed,
/// the user asked for it, or the task or the whole run failed with the same message.
/// Rounds that end differently are told apart.
pub proof fn law_turn_ends_as_its_round(
    s: AppState,
    outcome: PotterRoundOutcome,
    other: PotterRoundOutcome,
    pane: PaneFacts,
)
    ensures
        ({
            let (t, actions) = s.step(EventMsg::PotterRoundFinished { outcome }, pane);
            let (u, _) = s.step(EventMsg::PotterRoundFinished { outcome: other }, pane);
            &&& t.exit_after_next_draw
            &&& outcome is Completed <==> t.exit_reason is Completed
            &&& outcome is UserRequested <==> t.exit_reason is UserRequested
            &&& outcome is TaskFailed <==> t.exit_reason is TaskFailed
            &&& outcome is Fatal <==> t.exit_reason is Fatal
            &&& outcome matches PotterRoundOutcome::TaskFailed { message } ==> t.exit_reason
                == ExitReasonV::TaskFailed(message@)
            &&& outcome matches PotterRoundOutcome::Fatal { message } ==> t.exit_reason
                == ExitReasonV::Fatal(message@)
            &&& t.exit_reason == u.exit_reason ==> (outcome is Completed <==> other is Completed)
                && (outcome is UserRequested <==> other is UserRequested) && (outcome is TaskFailed
                <==> other is TaskFailed)
            &&& actions.contains(AppActionV::ScheduleFrame)
            &&& actions.last() == AppActionV::SetTaskRunning(false)
        }),
{
    let (r, a) = s.restore_header();
    let (t, actions) = s.step(EventMsg::PotterRoundFinished { outcome }, pane);
    assert(actions[a.len() as int] is ScheduleFrame);
}

/// A fatal request ends the turn with its own message, and the task with it.
pub proof fn law_fatal_request_ends_the_turn(s: AppState, message: String, pane: PaneFacts)
    ensures
        ({
            let (t, actions) = s.app_step(AppEvent::FatalExitRequest(message), pane);
            &&& t.exit_after_next_draw && t.exit_reason == ExitReasonV::Fatal(message@)
            &&& actions.contains(AppActionV::SetTaskRunning(false))
            &&& actions.contains(AppActionV::ScheduleFrame)
        }),
{
    let actions = s.app_step(AppEvent::FatalExitRequest(message), pane).1;
    assert(actions[0] == AppActionV::SetTaskRunning(false));
    assert(actions[1] is ScheduleFrame);
}

/// Whether Ctrl+C is pressed.
pub open spec fn presses_ctrl_c(key: KeyEvent) -> bool {
    key.kind == KeyEventKind::Press && key.code == KeyCode::Char('c') && key.modifiers.control
}

/// Ctrl+C belongs to an open popup first; then it clears what is written; only with
/// nothing written does it interrupt the task and end the turn. No other key ends a
/// turn, and a key that is released does nothing at all.
pub proof fn law_ctrl_c_ends_the_turn_last(
    s: AppState,
    key: KeyEvent,
    popup_visible: bool,
    composer_empty: bool,
)
    ensures
        ({
            let (t, step) = s.key_step(key, popup_visible, composer_empty);
            &&& presses_ctrl_c(key) && popup_visible ==> t == s && step is PassToPopup
            &&& presses_ctrl_c(key) && !popup_visible && !composer_empty ==> t == s && (
            step matches KeyStepV::Done(actions) && actions.contains(AppActionV::ClearComposer))
            &&& presses_ctrl_c(key) && !popup_visible && composer_empty ==> t.exit_after_next_draw
                && (step matches KeyStepV::Done(actions) && actions.contains(
                AppActionV::ForwardOp(OpV::Interrupt),
            ) && actions.contains(AppActionV::ScheduleFrame))
            &&& !(presses_ctrl_c(key) && !popup_visible && composer_empty)
                ==> t.exit_after_next_draw == s.exit_after_next_draw && t.exit_reason
                == s.exit_reason && t.processor == s.processor
            &&& key.kind == KeyEventKind::Release ==> t == s && (step matches KeyStepV::Done(
                actions,
            ) && actions.len() == 0)
            &&& key.code is Enter && key.kind == KeyEventKind::Press ==> t == s && step
                is PassToComposer
            &&& (key.code matches KeyCode::Char(c) && c != 'c') && key.kind == KeyEventKind::Press
                ==> t == s && step is PassToComposer
        }),
{
    let (t, step) = s.key_step(key, popup_visible, composer_empty);
    if presses_ctrl_c(key) && !popup_visible {
        let actions = step->Done_0;
        let waited = s.processor.flush_tools().1.len() as int;
        if composer_empty {
            assert(actions[waited] == AppActionV::ForwardOp(OpV::Interrupt));
            assert(actions[waited + 1] is ScheduleFrame);
        } else {
            assert(actions[0] is ClearComposer);
        }
    }
}

/// Alt+Up takes the last prompt that waits back into the composer, and only that
/// one; with none waiting it is a key like any other.
pub proof fn law_alt_up_takes_the_last_prompt(
    s: AppState,
    key: KeyEvent,
    popup_visible: bool,
    composer_empty: bool,
)
    requires
        key.kind == KeyEventKind::Press,
        key.code == KeyCode::Up,
        key.modifiers.alt && !key.modifiers.shift && !key.modifiers.control
            && !key.modifiers.other,
    ensures
        ({
            let (t, step) = s.key_step(key, popup_visible, composer_empty);
            let n = s.queue.len() as int;
            &&& n > 0 ==> t.queue.len() == n - 1 && (forall|i: int|
                0 <= i < n - 1 ==> #[trigger] t.queue[i] == s.queue[i]) && (
            step matches KeyStepV::Done(actions) && actions[0] == AppActionV::SetComposerText(
                s.queue[n - 1],
            ) && actions[1] == AppActionV::ShowQueuedMessages(t.queue))
            &&& n == 0 ==> t == s && step is PassToComposer
        }),
{
}

/// A prompt that is sent while a task runs waits behind those that wait already,
/// whether it was submitted or queued, and is recorded in the history.
pub proof fn law_prompts_wait_in_order(
    s: AppState,
    message: String,
    history_text: Seq<char>,
    task_running: bool,
)
    ensures
        forall|result: InputResult|
            (result == InputResult::Submitted(message) || result == InputResult::Queued(message))
                ==> {
                let (t, actions) = #[trigger] s.input_step(result, history_text, task_running);
                let n = s.queue.len() as int;
                &&& t.queue.len() == n + 1 && t.queue[n] == message@
                &&& forall|i: int| 0 <= i < n ==> #[trigger] t.queue[i] == s.queue[i]
                &&& actions.contains(AppActionV::RecordPromptHistory(history_text))
                &&& actions.contains(AppActionV::ShowQueuedMessages(t.queue))
                &&& !t.exit_after_next_draw || s.exit_after_next_draw
            },
{
    assert forall|result: InputResult|
        (result == InputResult::Submitted(message) || result == InputResult::Queued(message))
            implies {
        let (t, actions) = #[trigger] s.input_step(result, history_text, task_running);
        let n = s.queue.len() as int;
        &&& t.queue.len() == n + 1 && t.queue[n] == message@
        &&& forall|i: int| 0 <= i < n ==> #[trigger] t.queue[i] == s.queue[i]
        &&& actions.contains(AppActionV::RecordPromptHistory(history_text))
        &&& actions.contains(AppActionV::ShowQueuedMessages(t.queue))
        &&& !t.exit_after_next_draw || s.exit_after_next_draw
    } by {
        let (t, actions) = s.input_step(result, history_text, task_running);
        assert(actions[0] == AppActionV::RecordPromptHistory(history_text));
        assert(actions[1] == AppActionV::ShowQueuedMessages(t.queue));
    }
}

/// A slash command does its own work: a mention is written into the composer, the
/// theme can be picked exactly while no task runs, and exit ends the turn as Ctrl+C
/// does. Without an answer nothing happens.
pub proof fn law_commands_do_their_work(s: AppState, history_text: Seq<char>, task_running: bool)
    ensures
        ({
            let mention = s.input_step(
                InputResult::Command(SlashCommand::Mention),
                history_text,
                task_running,
            );
            let theme = s.input_step(
                InputResult::Command(SlashCommand::Theme),
                history_text,
                task_running,
            );
            let exit = s.input_step(
                InputResult::Command(SlashCommand::Exit),
                history_text,
                task_running,
            );
            let nothing = s.input_step(InputResult::Nothing, history_text, task_running);
            &&& mention.0 == s && mention.1.contains(AppActionV::InsertIntoComposer("@"@))
            &&& theme.0 == s && (theme.1.contains(AppActionV::ShowThemePicker) <==> !task_running)
            &&& task_running ==> (theme.1[0] matches AppActionV::LayOutCell(CellV::Error(_)))
            &&& exit.0.exit_after_next_draw && exit.1.contains(
                AppActionV::ForwardOp(OpV::Interrupt),
            )
            &&& nothing.0 == s && nothing.1.len() == 0
        }),
{
    let mention = s.input_step(
        InputResult::Command(SlashCommand::Mention),
        history_text,
        task_running,
    ).1;
    assert(mention[0] == AppActionV::InsertIntoComposer("@"@));
    let theme = s.input_step(
        InputResult::Command(SlashCommand::Theme),
        history_text,
        task_running,
    ).1;
    if !task_running {
        assert(theme[0] is ShowThemePicker);
    }
    let exit = s.input_step(InputResult::Command(SlashCommand::Exit), history_text, task_running).1;
    let waited = s.processor.flush_tools().1.len() as int;
    assert(exit[waited] == AppActionV::ForwardOp(OpV::Interrupt));
}

/// The context indicator shows what is left of the window where a window is known,
/// measured by the last request, and else the tokens used in all; it is told at
/// every count and at the start of a turn.
pub proof fn law_context_indicator_follows_the_count(
    s: AppState,
    info: crate::protocol::TokenUsageInfo,
    pane: PaneFacts,
)
    ensures
        ({
            let (t, actions) = s.step(EventMsg::TokenCount { info: Some(info) }, pane);
            let window = match info.model_context_window {
                Some(w) => Some(w),
                None => s.processor.model_context_window,
            };
            &&& t.processor.token_usage == info.total_token_usage
            &&& actions.last() == AppActionV::SetContextWindow(
                if window matches Some(w) && w > 0 {
                    ContextWindow::RemainingOf { usage: info.last_token_usage, window: window->0 }
                } else {
                    ContextWindow::UsedTokens(info.total_token_usage.total_tokens)
                },
            )
        }),
        forall|window: Option<i64>|
            (#[trigger] s.step(EventMsg::TurnStarted { model_context_window: window }, pane)).1.last()
                is SetContextWindow,
{
}

/// A turn that starts says that it works, and forgets the reasoning before it; a
/// round that starts names its number in front of the status.
pub proof fn law_status_names_what_starts(
    s: AppState,
    window: Option<i64>,
    current: u32,
    total: u32,
    pane: PaneFacts,
)
    requires
        s.hidden_header is None,
    ensures
        ({
            let (t, actions) = s.step(
                EventMsg::TurnStarted { model_context_window: window },
                pane,
            );
            &&& actions[0] == AppActionV::UpdateStatusHeader("Working"@)
            &&& t.reasoning.len() == 0
        }),
        s.step(EventMsg::PotterRoundStarted { current, total }, pane).1[0]
            == AppActionV::SetStatusHeaderPrefix(
            "Round "@ + text::decimal(current as nat) + "/"@ + text::decimal(total as nat),
        ),
{
    assert("Round "@ + (text::decimal(current as nat) + "/"@ + text::decimal(total as nat))
        =~= "Round "@ + text::decimal(current as nat) + "/"@ + text::decimal(total as nat));
}

/// The status names the first title of the reasoning of a section, whether it is
/// told as a summary or raw; the end of a section forgets the text.
pub proof fn law_reasoning_names_the_status(s: AppState, delta: String, pane: PaneFacts)
    requires
        s.hidden_header is None,
    ensures
        forall|msg: EventMsg|
            (msg == (EventMsg::AgentReasoningDelta { delta }) || msg == (
            EventMsg::AgentReasoningRawContentDelta { delta })) ==> {
                let (t, actions) = #[trigger] s.step(msg, pane);
                &&& t.reasoning == s.reasoning + delta@
                &&& match first_bold(s.reasoning + delta@) {
                    Some(title) => actions == seq![AppActionV::UpdateStatusHeader(title)],
                    None => actions.len() == 0,
                }
            },
        s.step(EventMsg::AgentReasoningSectionBreak, pane).0.reasoning.len() == 0,
        s.step(EventMsg::AgentReasoning { text: delta }, pane).0.reasoning.len() == 0,
        s.step(EventMsg::AgentReasoningRawContent { text: delta }, pane).0.reasoning.len() == 0,
{
}

/// An attempt to recover the stream is shown until it succeeds or is given up; giving
/// up is told in the transcript. Each breaks off what was streamed.
pub proof fn law_recovery_is_shown_until_it_ends(
    s: AppState,
    attempt: u32,
    max_attempts: u32,
    error_message: String,
    pane: PaneFacts,
)
    ensures
        ({
            let tried = s.step(
                EventMsg::PotterStreamRecoveryUpdate { attempt, max_attempts, error_message },
                pane,
            );
            let recovered = tried.0.step(EventMsg::PotterStreamRecoveryRecovered, pane);
            let given_up = tried.0.step(
                EventMsg::PotterStreamRecoveryGaveUp {
                    attempts: attempt,
                    max_attempts,
                    error_message,
                },
                pane,
            );
            let told = given_up.1;
            let n = told.len() as int;
            &&& tried.0.retry == Some(
                RetryV { attempt, max_attempts, error_message: error_message@ },
            )
            &&& !tried.0.processor.saw_agent_delta
            &&& tried.1.contains(
                AppActionV::Transcript(ActionV::FinalizeAgentStream),
            )
            &&& recovered.0.retry is None && recovered.0.exit_after_next_draw
                == s.exit_after_next_draw
            &&& given_up.0.retry is None
            &&& told[n - 2] == AppActionV::Transcript(
                ActionV::Insert(
                    CellV::StreamUnrecoverable { max_attempts, error_message: error_message@ },
                ),
            )
            &&& tried.1.last() is ScheduleFrame && recovered.1.last() is ScheduleFrame
                && told[n - 1] is ScheduleFrame
        }),
{
    let tried = s.step(
        EventMsg::PotterStreamRecoveryUpdate { attempt, max_attempts, error_message },
        pane,
    );
    let waited = s.at(pane).processor.flush_tools().1.len() as int;
    assert(tried.1[waited] == AppActionV::Transcript(ActionV::FinalizeAgentStream));
}

/// A stream error is shown in the status, with its own words and details, and hides
/// the header that is shown then; it adds nothing to the transcript.
pub proof fn law_stream_error_is_shown_in_the_status(
    s: AppState,
    message: String,
    additional_details: Option<String>,
    pane: PaneFacts,
)
    ensures
        ({
            let (t, actions) = s.step(
                EventMsg::StreamError { message, additional_details },
                pane,
            );
            &&& actions.len() == 1
            &&& actions[0] matches AppActionV::UpdateStatusHeaderWithDetails { message: m, details }
            &&& m == message@
            &&& additional_details matches Some(d) ==> details == Some(d@)
            &&& additional_details is None ==> details is None
            &&& s.hidden_header is None ==> t.hidden_header == Some(pane.status_header@)
            &&& s.hidden_header is Some ==> t.hidden_header == s.hidden_header
            &&& t.processor == s.processor
        }),
{
}

/// Whether `msg` goes to the transcript.
pub open spec fn goes_to_the_transcript(msg: EventMsg) -> bool {
    !is_thinking(msg) && !(msg is StreamError) && !(msg is PotterStreamRecoveryUpdate) && !(msg
        is PotterStreamRecoveryRecovered) && !(msg is PotterStreamRecoveryGaveUp)
}

/// Whether `asked` is done among `actions`, all of it and in order, and nothing else
/// among them touches the transcript.
pub open spec fn obeys(actions: Seq<AppActionV>, asked: Seq<ActionV>) -> bool {
    exists|from: int|
        #![trigger actions.subrange(from, from + asked.len())]
        {
            &&& 0 <= from && from + asked.len() <= actions.len()
            &&& forall|i: int|
                0 <= i < asked.len() ==> #[trigger] actions[from + i] == AppActionV::Transcript(
                    asked[i],
                )
            &&& forall|i: int|
                (0 <= i < from || from + asked.len() <= i < actions.len()) ==> !touches_transcript(
                    #[trigger] actions[i],
                )
        }
}

proof fn lemma_obeys(front: Seq<AppActionV>, asked: Seq<ActionV>, back: Seq<AppActionV>)
    requires
        forall|i: int| 0 <= i < front.len() ==> !touches_transcript(#[trigger] front[i]),
        forall|i: int| 0 <= i < back.len() ==> !touches_transcript(#[trigger] back[i]),
    ensures
        obeys(front + on_transcript(asked) + back, asked),
{
    let actions = front + on_transcript(asked) + back;
    let from = front.len() as int;
    let window = actions.subrange(from, from + asked.len());
    assert forall|i: int| 0 <= i < asked.len() implies #[trigger] actions[from + i]
        == AppActionV::Transcript(asked[i]) by {
        assert(on_transcript(asked)[i] == AppActionV::Transcript(asked[i]));
    }
    assert forall|i: int|
        (0 <= i < from || from + asked.len() <= i < actions.len()) implies !touches_transcript(
        #[trigger] actions[i],
    ) by {
        if i < from {
            assert(actions[i] == front[i]);
        } else {
            assert(actions[i] == back[i - from - asked.len()]);
        }
    }
}

proof fn lemma_transcribed(s: AppState, msg: EventMsg, pane: PaneFacts, front: Seq<AppActionV>)
    requires
        forall|i: int| 0 <= i < front.len() ==> !touches_transcript(#[trigger] front[i]),
    ensures
        ({
            let asked = s.at(pane).processor.step(msg);
            let (t, actions) = s.transcribe(msg, pane);
            &&& t.processor == asked.0
            &&& obeys(front + actions, asked.1)
        }),
{
    let (p, asked) = s.at(pane).processor.step(msg);
    let first = if msg is PotterRoundFinished {
        seq![AppActionV::ScheduleFrame]
    } else {
        seq![]
    };
    let back = if msg is TokenCount || msg is TurnStarted {
        seq![AppActionV::SetContextWindow(context_window_of(p))]
    } else if msg is ExecCommandEnd {
        seq![AppActionV::ScheduleFrame]
    } else if msg is PotterRoundFinished {
        seq![AppActionV::SetTaskRunning(false)]
    } else {
        seq![]
    };
    lemma_obeys(front + first, asked, back);
    assert(front + s.transcribe(msg, pane).1 =~= front + first + on_transcript(asked) + back);
}

/// What the transcript asks for is done, all of it and in order, with the clock of
/// the status; what stands around it leaves the transcript alone.
#[verifier::rlimit(60)]
#[verifier::spinoff_prover]
pub proof fn law_transcript_is_obeyed(s: AppState, msg: EventMsg, pane: PaneFacts)
    requires
        goes_to_the_transcript(msg),
    ensures
        ({
            let (t, actions) = s.step(msg, pane);
            let clocked = ProcState { current_secs: pane.elapsed_secs, ..s.processor };
            let (p, asked) = clocked.step(msg);
            t.processor == p && obeys(actions, asked)
        }),
{
    let (r, hidden) = s.restore_header();
    let clocked = ProcState { current_secs: pane.elapsed_secs, ..s.processor };
    assert(clocked == r.at(pane).processor);
    let actions = s.step(msg, pane).1;
    if msg is TurnStarted {
        let u = AppState { reasoning: seq![], ..r };
        assert(clocked == u.at(pane).processor);
        let front = hidden + seq![AppActionV::UpdateStatusHeader("Working"@)];
        lemma_transcribed(u, msg, pane, front);
        assert(actions =~= front + u.transcribe(msg, pane).1);
    } else if msg is PotterRoundStarted {
        let front = hidden + seq![
            AppActionV::SetStatusHeaderPrefix(
                "Round "@ + crate::exec_human_output::round_text(msg->current, msg->total),
            ),
        ];
        lemma_transcribed(r, msg, pane, front);
        assert(actions =~= front + r.transcribe(msg, pane).1);
    } else {
        lemma_transcribed(r, msg, pane, hidden);
        assert(actions =~= hidden + r.transcribe(msg, pane).1);
    }
}

/// What the application asks for is passed on with its own words.
pub proof fn law_application_events_are_passed_on(
    s: AppState,
    text: String,
    matches: Vec<FileMatch>,
    cell: Cell,
    offset: usize,
    log_id: u64,
    verbosity: Verbosity,
    enabled: bool,
    pane: PaneFacts,
)
    ensures
        s.app_step(AppEvent::InsertHistoryCell(cell), pane) == (
            s,
            seq![AppActionV::LayOutCell(cell@)],
        ),
        s.app_step(AppEvent::EmitHistoryCell(cell), pane).1.last() == AppActionV::LayOutCell(cell@),
        s.app_step(AppEvent::EmitHistoryCell(cell), pane).0.processor.ran is None,
        s.app_step(AppEvent::EmitHistoryCell(cell), pane).0.processor.exploring is None,
        s.app_step(AppEvent::SyntaxThemeSelected { name: text }, pane) == (
            s,
            seq![AppActionV::SaveTheme { name: text@ }],
        ),
        s.app_step(AppEvent::CodexOp(Op::Interrupt), pane) == (
            s,
            seq![AppActionV::ForwardOp(OpV::Interrupt)],
        ),
        s.app_step(AppEvent::CodexOp(Op::UserInput { text }), pane) == (
            s,
            seq![AppActionV::ForwardOp(OpV::UserInput { text: text@ })],
        ),
        s.app_step(AppEvent::CodexOp(Op::GetHistoryEntryRequest { offset, log_id }), pane) == (
            s,
            seq![AppActionV::LookUpPromptHistory { offset, log_id }],
        ),
        s.app_step(AppEvent::StartFileSearch(text), pane) == (
            s,
            seq![AppActionV::StartFileSearch(text@)],
        ),
        s.app_step(AppEvent::FileSearchResult { query: text, matches }, pane).1[0]
            == (AppActionV::ShowFileSearchResult { query: text@, matches: matches@ }),
        s.app_step(AppEvent::VerbositySelected { verbosity }, pane) == (
            s,
            seq![AppActionV::SetVerbosity(verbosity)],
        ),
        s.app_step(AppEvent::YoloSelected { enabled }, pane) == (
            s,
            seq![AppActionV::SetYolo(enabled)],
        ),
        s.app_step(AppEvent::CommitTick, pane) == (s, seq![AppActionV::RunCommitTick]),
{
}

/// The timer of the animation is started once however often it is asked for, and
/// again after it was stopped.
pub proof fn law_animation_runs_once(s: AppState, pane: PaneFacts)
    ensures
        ({
            let first = s.app_step(AppEvent::StartCommitAnimation, pane);
            let second = first.0.app_step(AppEvent::StartCommitAnimation, pane);
            let stopped = first.0.app_step(AppEvent::StopCommitAnimation, pane);
            let again = stopped.0.app_step(AppEvent::StartCommitAnimation, pane);
            &&& first.0.commit_timer_running && !stopped.0.commit_timer_running
            &&& !s.commit_timer_running ==> first.1 == seq![AppActionV::StartCommitTimer]
            &&& second.1.len() == 0 && stopped.1.len() == 0
            &&& again.1 == seq![AppActionV::StartCommitTimer]
        }),
{
}

/// A turn starts with its warnings in order; the prompt is shown exactly where that
/// is asked for, goes to the backend once, and the task runs.
pub proof fn law_turn_starts_with_its_prompt(
    warnings: Seq<Seq<char>>,
    prompt: Seq<char>,
    options: RenderOnlyTurnOptions,
    queue: Seq<Seq<char>>,
)
    ensures
        ({
            let actions = turn_start(warnings, prompt, options, queue);
            let n = actions.len() as int;
            &&& forall|i: int|
                0 <= i < warnings.len() ==> #[trigger] actions[i] == AppActionV::LayOutCell(
                    CellV::Warning(warnings[i]),
                )
            &&& n == warnings.len() + 4 + (if options.render_user_prompt {
                1int
            } else {
                0
            })
            &&& options.render_user_prompt ==> actions[warnings.len() as int]
                == AppActionV::LayOutCell(CellV::UserPrompt(prompt))
            &&& actions[n - 4] == AppActionV::ForwardOp(OpV::UserInput { text: prompt })
            &&& actions[n - 3] == AppActionV::ShowQueuedMessages(queue)
            &&& actions[n - 2] == AppActionV::SetTaskRunning(true)
            &&& actions[n - 1] is ScheduleFrame
        }),
{
}

/// A theme is used exactly where it was saved; else the one from before comes back
/// and an error says why. A prompt edited elsewhere is taken over; else an error says
/// why not.
pub proof fn law_failures_are_told(name: Seq<char>, text: String)
    ensures
        theme_save_actions(name, ThemeSave::Saved).contains(AppActionV::ApplyTheme { name }),
        !theme_save_actions(name, ThemeSave::Saved).contains(AppActionV::RestoreTheme),
        forall|outcome: ThemeSave|
            (outcome == ThemeSave::SaveFailed(text) || outcome == ThemeSave::NoHome(text)) ==> {
                let actions = #[trigger] theme_save_actions(name, outcome);
                &&& actions[0] is RestoreTheme
                &&& !actions.contains(AppActionV::ApplyTheme { name })
                &&& actions[1] matches AppActionV::LayOutCell(CellV::Error(said))
                &&& said.len() >= text@.len()
                &&& said.skip(said.len() - text@.len()) == text@
            },
        editor_action(EditorOutcome::Edited(text)) == AppActionV::ApplyExternalEdit(text@),
        editor_action(EditorOutcome::Missing(text)) == AppActionV::LayOutCell(CellV::Error(text@)),
        (editor_action(EditorOutcome::Failed(text)) matches AppActionV::LayOutCell(
            CellV::Error(said),
        ) && said.len() >= text@.len() && said.skip(said.len() - text@.len()) == text@),
{
    let saved = theme_save_actions(name, ThemeSave::Saved);
    assert(saved[0] == AppActionV::ApplyTheme { name });
    assert forall|outcome: ThemeSave|
        (outcome == ThemeSave::SaveFailed(text) || outcome == ThemeSave::NoHome(text)) implies {
        let actions = #[trigger] theme_save_actions(name, outcome);
        &&& actions[0] is RestoreTheme
        &&& !actions.contains(AppActionV::ApplyTheme { name })
        &&& actions[1] matches AppActionV::LayOutCell(CellV::Error(said))
        &&& said.len() >= text@.len()
        &&& said.skip(said.len() - text@.len()) == text@
    } by {
        let a = "Failed to save theme: "@ + text@;
        assert(a.skip(a.len() - text@.len()) =~= text@);
        let b = "Failed to find CODEX_HOME: "@ + text@;
        assert(b.skip(b.len() - text@.len()) =~= text@);
    }
    let c = "Failed to open editor: "@ + text@;
    assert(c.skip(c.len() - text@.len()) =~= text@);
}

/// What waits is shown above the pane: the commands that ran, those that explored,
/// and a recovery attempt, in that order, each behind a blank line and whole. With
/// nothing waiting, one blank line stands there exactly where the transcript has
/// lines and the status does not keep them off.
pub proof fn law_waiting_lines_are_shown_whole(
    has_emitted: bool,
    ran: Option<Seq<LineV>>,
    exploring: Option<Seq<LineV>>,
    retry: Option<Seq<LineV>>,
    status_visible: bool,
)
    ensures
        ({
            let lines = RenderAppState::transient(
                has_emitted,
                ran,
                exploring,
                retry,
                status_visible,
            );
            let a = match ran {
                Some(l) => l.len() as int + 1,
                None => 0,
            };
            let b = match exploring {
                Some(l) => l.len() as int + 1,
                None => 0,
            };
            &&& ran matches Some(l) ==> lines[0] == blank_line_v() && lines.subrange(1, a) == l
            &&& exploring matches Some(l) ==> lines[a] == blank_line_v() && lines.subrange(
                a + 1,
                a + b,
            ) == l
            &&& retry matches Some(l) ==> lines[a + b] == blank_line_v() && lines.skip(a + b + 1)
                == l
            &&& ran is None && exploring is None && retry is None ==> lines.len() == (
            if has_emitted && !status_visible {
                1int
            } else {
                0
            })
        }),
{
    let lines = RenderAppState::transient(has_emitted, ran, exploring, retry, status_visible);
    let a = match ran {
        Some(l) => l.len() as int + 1,
        None => 0,
    };
    let b = match exploring {
        Some(l) => l.len() as int + 1,
        None => 0,
    };
    if let Some(l) = ran {
        assert(lines.subrange(1, a) =~= l);
    }
    if let Some(l) = exploring {
        assert(lines.subrange(a + 1, a + b) =~= l);
    }
    if let Some(l) = retry {
        assert(lines.skip(a + b + 1) =~= l);
    }
}

/// A turn that starts has not been told to end; should it end without a word about it, the
/// user asked for that. The prompts that wait are those it was given.
pub proof fn law_turn_starts_unended(processor: ProcState, queue: Seq<Seq<char>>)
    ensures
        ({
            let s = AppState::initial(processor, queue);
            &&& !s.exit_after_next_draw
            &&& s.exit_reason == ExitReasonV::UserRequested
            &&& s.queue == queue
            &&& s.processor == processor
            &&& s.reasoning.len() == 0
            &&& s.hidden_header is None && s.retry is None
            &&& !s.commit_timer_running && !s.has_emitted_lines
        }),
{
}

/// A command that has ended is followed by a frame, so that the waiting commands show.
pub proof fn law_ended_command_is_drawn(
    s: AppState,
    command: crate::protocol::ExecCommandEndEvent,
    pane: PaneFacts,
)
    ensures
        s.step(EventMsg::ExecCommandEnd { command }, pane).1.len() > 0,
        s.step(EventMsg::ExecCommandEnd { command }, pane).1.last() == AppActionV::ScheduleFrame,
{
}

} // verus!
