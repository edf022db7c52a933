//! The transcript processor of an interactive turn.
//!
//! It turns backend events into a sequence of actions on the transcript and on
//! the streams that lay out agent and plan text. The streams themselves, which
//! decide when a line is complete, live around it.

use vstd::prelude::*;

use crate::exec_cell::{can_coalesce_success_ran_cell, is_coalescable, ExecCell};
use crate::history_cell::{AgentMessageCell, PlainHistoryCell};
use crate::protocol::{
    ChangedFile, EventMsg, ExecCommandEndEvent, ProjectSummary, TokenUsage, UpdatePlanArgs,
};
use crate::reasoning_status::opt_text;
use crate::styled::Line;

verus! {

/// A cell that is added to the transcript.
#[derive(Debug)]
pub enum Cell {
    UserPrompt(String),
    ProjectHint(String),
    RoundStarted { current: u32, total: u32 },
    ProjectSucceeded(ProjectSummary),
    Separator(Option<u64>),
    Warning(String),
    Deprecation { summary: String, details: Option<String> },
    PlanUpdate(UpdatePlanArgs),
    WebSearch(String),
    ViewImage { path: String, cwd: String },
    Exec(ExecCell),
    Patch { changes: Vec<ChangedFile>, cwd: String },
    PatchFailure(String),
    Collab(PlainHistoryCell),
    Error(String),
    StreamUnrecoverable { max_attempts: u32, error_message: String },
}

/// What a [`Cell`] holds.
pub enum CellV {
    UserPrompt(Seq<char>),
    ProjectHint(Seq<char>),
    RoundStarted { current: u32, total: u32 },
    ProjectSucceeded(ProjectSummary),
    Separator(Option<u64>),
    Warning(Seq<char>),
    Deprecation { summary: Seq<char>, details: Option<Seq<char>> },
    PlanUpdate(UpdatePlanArgs),
    WebSearch(Seq<char>),
    ViewImage { path: Seq<char>, cwd: Seq<char> },
    Exec(Seq<ExecCommandEndEvent>),
    Patch { changes: Seq<ChangedFile>, cwd: Seq<char> },
    PatchFailure(Seq<char>),
    Collab(PlainHistoryCell),
    Error(Seq<char>),
    StreamUnrecoverable { max_attempts: u32, error_message: Seq<char> },
}

impl View for Cell {
    type V = CellV;

    open spec fn view(&self) -> CellV {
        match *self {
            Cell::UserPrompt(s) => CellV::UserPrompt(s@),
            Cell::ProjectHint(s) => CellV::ProjectHint(s@),
            Cell::RoundStarted { current, total } => CellV::RoundStarted { current, total },
            Cell::ProjectSucceeded(p) => CellV::ProjectSucceeded(p),
            Cell::Separator(e) => CellV::Separator(e),
            Cell::Warning(s) => CellV::Warning(s@),
            Cell::Deprecation { summary, details } => CellV::Deprecation {
                summary: summary@,
                details: opt_text(details),
            },
            Cell::PlanUpdate(u) => CellV::PlanUpdate(u),
            Cell::WebSearch(s) => CellV::WebSearch(s@),
            Cell::ViewImage { path, cwd } => CellV::ViewImage { path: path@, cwd: cwd@ },
            Cell::Exec(c) => CellV::Exec(c.calls@),
            Cell::Patch { changes, cwd } => CellV::Patch { changes: changes@, cwd: cwd@ },
            Cell::PatchFailure(s) => CellV::PatchFailure(s@),
            Cell::Collab(c) => CellV::Collab(c),
            Cell::Error(s) => CellV::Error(s@),
            Cell::StreamUnrecoverable { max_attempts, error_message } =>
            CellV::StreamUnrecoverable { max_attempts, error_message: error_message@ },
        }
    }
}

/// An action on the transcript and its streams.
#[derive(Debug)]
pub enum Action {
    /// Add a cell to the transcript.
    Insert(Cell),
    /// Show an agent message as a cell of its own, unless it lays out to nothing.
    ShowAgentMessage(String),
    /// Feed agent text to the agent stream and show the lines that it completes.
    PushAgentDelta(String),
    /// Show the rest of the agent stream.
    FinalizeAgentStream,
    /// Start a plan stream for text of the given width.
    OpenPlanStream { width: Option<usize> },
    /// Feed plan text to the plan stream and show the lines that it completes.
    PushPlanDelta(String),
    /// Show the rest of the plan stream and end it.
    FinalizePlanStream,
    /// End the plan stream without showing its rest.
    DropPlanStream,
    /// Forget the pace at which streamed lines are shown.
    ResetChunking,
    /// Stop showing streamed lines one by one.
    StopCommitAnimation,
}

/// What an [`Action`] does.
pub enum ActionV {
    Insert(CellV),
    ShowAgentMessage(Seq<char>),
    PushAgentDelta(Seq<char>),
    FinalizeAgentStream,
    OpenPlanStream { width: Option<usize> },
    PushPlanDelta(Seq<char>),
    FinalizePlanStream,
    DropPlanStream,
    ResetChunking,
    StopCommitAnimation,
}

impl View for Action {
    type V = ActionV;

    open spec fn view(&self) -> ActionV {
        match *self {
            Action::Insert(c) => ActionV::Insert(c@),
            Action::ShowAgentMessage(s) => ActionV::ShowAgentMessage(s@),
            Action::PushAgentDelta(s) => ActionV::PushAgentDelta(s@),
            Action::FinalizeAgentStream => ActionV::FinalizeAgentStream,
            Action::OpenPlanStream { width } => ActionV::OpenPlanStream { width },
            Action::PushPlanDelta(s) => ActionV::PushPlanDelta(s@),
            Action::FinalizePlanStream => ActionV::FinalizePlanStream,
            Action::DropPlanStream => ActionV::DropPlanStream,
            Action::ResetChunking => ActionV::ResetChunking,
            Action::StopCommitAnimation => ActionV::StopCommitAnimation,
        }
    }
}

/// What `actions` do.
pub open spec fn actions_view(actions: Seq<Action>) -> Seq<ActionV> {
    actions.map_values(|a: Action| a@)
}

/// The state of a [`RenderOnlyProcessor`].
#[verifier::ext_equal]
pub struct ProcState {
    pub token_usage: TokenUsage,
    pub context_usage: TokenUsage,
    pub model_context_window: Option<i64>,
    pub thread_id: Option<Seq<char>>,
    pub cwd: Seq<char>,
    pub last_rendered_width: Option<u16>,
    pub plan_open: bool,
    pub saw_agent_delta: bool,
    pub saw_plan_delta: bool,
    pub needs_separator: bool,
    pub had_work: bool,
    pub last_separator_secs: Option<u64>,
    pub current_secs: Option<u64>,
    /// Commands that only explored, not shown yet.
    pub exploring: Option<Seq<ExecCommandEndEvent>>,
    /// Commands that succeeded, not shown yet.
    pub ran: Option<Seq<ExecCommandEndEvent>>,
    pub pending_summary: Option<ProjectSummary>,
}

/// The columns that a plan is laid out for on a screen of `width` columns.
pub open spec fn plan_width(width: Option<u16>) -> Option<usize> {
    match width {
        Some(w) => Some(
            if w > 4 {
                (w - 4) as usize
            } else {
                0
            },
        ),
        None => None,
    }
}

/// The seconds of work since the last divider, `current` being the reading of
/// the clock. A clock that reads less than before has started anew.
pub open spec fn worked_secs(last: Option<u64>, current: u64) -> u64 {
    match last {
        Some(l) => if current < l {
            current
        } else {
            (current - l) as u64
        },
        None => current,
    }
}

/// Shows the prompt of the user, unless it is empty.
pub open spec fn prompt_actions(user_message: Option<String>) -> Seq<ActionV> {
    match user_message {
        Some(m) => if m@.len() > 0 {
            seq![ActionV::Insert(CellV::UserPrompt(m@))]
        } else {
            seq![]
        },
        None => seq![],
    }
}

impl ProcState {
    /// The state before any event.
    pub open spec fn initial(cwd: Seq<char>) -> ProcState {
        ProcState {
            token_usage: TokenUsage::zero(),
            context_usage: TokenUsage::zero(),
            model_context_window: None,
            thread_id: None,
            cwd,
            last_rendered_width: None,
            plan_open: false,
            saw_agent_delta: false,
            saw_plan_delta: false,
            needs_separator: false,
            had_work: false,
            last_separator_secs: None,
            current_secs: None,
            exploring: None,
            ran: None,
            pending_summary: None,
        }
    }

    /// Adds `cell`, which calls for a divider in front of the next message.
    pub open spec fn insert(self, cell: CellV) -> (ProcState, Seq<ActionV>) {
        (ProcState { needs_separator: true, ..self }, seq![ActionV::Insert(cell)])
    }

    /// Shows the commands that only explored.
    pub open spec fn flush_exploring(self) -> (ProcState, Seq<ActionV>) {
        match self.exploring {
            Some(calls) => (
                ProcState { exploring: None, needs_separator: true, ..self },
                seq![ActionV::Insert(CellV::Exec(calls))],
            ),
            None => (self, seq![]),
        }
    }

    /// Shows the commands that succeeded.
    pub open spec fn flush_ran(self) -> (ProcState, Seq<ActionV>) {
        match self.ran {
            Some(calls) => (
                ProcState { ran: None, needs_separator: true, ..self },
                seq![ActionV::Insert(CellV::Exec(calls))],
            ),
            None => (self, seq![]),
        }
    }

    /// Shows all commands that have not been shown yet.
    pub open spec fn flush_tools(self) -> (ProcState, Seq<ActionV>) {
        let (s1, a1) = self.flush_exploring();
        let (s2, a2) = s1.flush_ran();
        (s2, a1 + a2)
    }

    /// Ends the plan stream, if there is one, showing its rest.
    pub open spec fn close_plan(self) -> (ProcState, Seq<ActionV>) {
        if self.plan_open {
            (ProcState { plan_open: false, ..self }, seq![ActionV::FinalizePlanStream])
        } else {
            (self, seq![])
        }
    }

    /// Shows the rest of both streams.
    pub open spec fn close_streams(self) -> (ProcState, Seq<ActionV>) {
        let (s, a) = self.close_plan();
        (s, seq![ActionV::FinalizeAgentStream] + a)
    }

    /// The divider in front of a message: shown where something called for one
    /// and work was done; either way it is no longer called for.
    pub open spec fn separate(self) -> (ProcState, Seq<ActionV>) {
        if self.needs_separator && self.had_work {
            let elapsed = match self.current_secs {
                Some(c) => Some(worked_secs(self.last_separator_secs, c)),
                None => None,
            };
            (
                ProcState {
                    needs_separator: false,
                    had_work: false,
                    last_separator_secs: match self.current_secs {
                        Some(c) => Some(c),
                        None => self.last_separator_secs,
                    },
                    ..self
                },
                seq![ActionV::Insert(CellV::Separator(elapsed))],
            )
        } else {
            (ProcState { needs_separator: false, ..self }, seq![])
        }
    }

    /// Shows the waiting summary, if there is one.
    pub open spec fn summarize(self) -> (ProcState, Seq<ActionV>) {
        match self.pending_summary {
            Some(p) => (
                ProcState { pending_summary: None, ..self },
                seq![ActionV::Insert(CellV::ProjectSucceeded(p))],
            ),
            None => (self, seq![]),
        }
    }

    /// Shows `cell` behind all waiting commands; `work` where it reports work.
    pub open spec fn report(self, cell: CellV, work: bool) -> (ProcState, Seq<ActionV>) {
        let (s, a) = self.flush_tools();
        (
            ProcState { needs_separator: true, had_work: s.had_work || work, ..s },
            a + seq![ActionV::Insert(cell)],
        )
    }

    /// Shows the cell of a collaboration behind all streamed text and all
    /// waiting commands.
    pub open spec fn collaborate(self, cell: PlainHistoryCell) -> (ProcState, Seq<ActionV>) {
        let (s, a) = self.close_streams();
        let (s2, a2) = s.report(CellV::Collab(cell), true);
        (s2, a + a2)
    }

    /// A stream that broke off: all that is known is shown, and the next message
    /// starts afresh.
    pub open spec fn stream_broke(self) -> (ProcState, Seq<ActionV>) {
        let (s, a) = self.flush_tools();
        let (s2, a2) = s.close_streams();
        (
            ProcState {
                saw_agent_delta: false,
                saw_plan_delta: false,
                needs_separator: true,
                ..s2
            },
            a + a2 + seq![ActionV::ResetChunking, ActionV::StopCommitAnimation],
        )
    }

    /// A command that ended. Commands that only explore wait to be shown
    /// together, and so do commands that succeed; each kind ends the wait of the
    /// other, and any other command ends both.
    pub open spec fn command_ended(self, call: ExecCommandEndEvent) -> (ProcState, Seq<ActionV>) {
        let (s, a) = self.close_streams();
        let (s2, a2) = if call.exploring {
            let (t, b) = s.flush_ran();
            (
                ProcState {
                    exploring: Some(
                        match t.exploring {
                            Some(calls) => calls.push(call),
                            None => seq![call],
                        },
                    ),
                    ..t
                },
                b,
            )
        } else if is_coalescable(seq![call]) {
            let (t, b) = s.flush_exploring();
            (
                ProcState {
                    ran: Some(
                        match t.ran {
                            Some(calls) => calls.push(call),
                            None => seq![call],
                        },
                    ),
                    ..t
                },
                b,
            )
        } else {
            let (t, b) = s.flush_tools();
            (
                ProcState { needs_separator: true, ..t },
                b + seq![ActionV::Insert(CellV::Exec(seq![call]))],
            )
        };
        (ProcState { had_work: true, ..s2 }, a + a2)
    }

    /// Agent text that arrived.
    pub open spec fn agent_delta(self, delta: Seq<char>) -> (ProcState, Seq<ActionV>) {
        let (s, a) = self.flush_tools();
        let (s2, a2) = if s.saw_agent_delta {
            (s, seq![])
        } else {
            s.separate()
        };
        (
            ProcState { saw_agent_delta: true, ..s2 },
            a + a2 + seq![ActionV::PushAgentDelta(delta)],
        )
    }

    /// Plan text that arrived.
    pub open spec fn plan_delta(self, delta: Seq<char>) -> (ProcState, Seq<ActionV>) {
        let (s, a) = self.flush_tools();
        let (s2, a2) = if s.saw_agent_delta || s.saw_plan_delta {
            (s, seq![])
        } else {
            s.separate()
        };
        let open = if s2.plan_open {
            seq![]
        } else {
            seq![ActionV::OpenPlanStream { width: plan_width(s2.last_rendered_width) }]
        };
        (
            ProcState { saw_plan_delta: true, plan_open: true, ..s2 },
            a + a2 + open + seq![ActionV::PushPlanDelta(delta)],
        )
    }

    /// A finished agent message, which is only shown where it was not streamed.
    pub open spec fn agent_message(self, message: Seq<char>) -> (ProcState, Seq<ActionV>) {
        let (s, a) = self.flush_tools();
        if s.saw_agent_delta {
            (s, a)
        } else {
            let (s2, a2) = s.separate();
            (s2, a + a2 + seq![ActionV::ShowAgentMessage(message)])
        }
    }

    /// The end of a turn.
    pub open spec fn end_turn(self) -> (ProcState, Seq<ActionV>) {
        let (s, a) = self.flush_tools();
        let (s2, a2) = s.close_streams();
        (s2, a + a2 + seq![ActionV::StopCommitAnimation])
    }

    /// The state after the event `msg`, and the actions that it asks for.
    pub open spec fn step(self, msg: EventMsg) -> (ProcState, Seq<ActionV>) {
        match msg {
            EventMsg::SessionConfigured { session_id, cwd } => (
                ProcState { thread_id: Some(session_id@), cwd: cwd@, ..self },
                seq![],
            ),
            EventMsg::PotterProjectStarted { user_message, user_prompt_file } => {
                let (s, a) = self.flush_tools();
                let prompt = prompt_actions(user_message);
                (
                    ProcState { needs_separator: true, ..s },
                    a + prompt + seq![ActionV::Insert(CellV::ProjectHint(user_prompt_file@))],
                )
            },
            EventMsg::PotterRoundStarted { current, total } => self.report(
                CellV::RoundStarted { current, total },
                false,
            ),
            EventMsg::PotterProjectSucceeded { project } => {
                let (s, a) = self.flush_tools();
                (ProcState { pending_summary: Some(project), ..s }, a)
            },
            EventMsg::PotterRoundFinished { outcome } => {
                let (s, a) = self.flush_tools();
                let (s2, a2) = s.summarize();
                (s2, a + a2)
            },
            EventMsg::TokenCount { info } => match info {
                Some(i) => (
                    ProcState {
                        token_usage: i.total_token_usage,
                        context_usage: i.last_token_usage,
                        model_context_window: match i.model_context_window {
                            Some(w) => Some(w),
                            None => self.model_context_window,
                        },
                        ..self
                    },
                    seq![],
                ),
                None => (self, seq![]),
            },
            EventMsg::TurnStarted { model_context_window } => (
                ProcState {
                    model_context_window,
                    plan_open: false,
                    saw_agent_delta: false,
                    saw_plan_delta: false,
                    ..self
                },
                seq![ActionV::ResetChunking, ActionV::DropPlanStream],
            ),
            EventMsg::AgentMessageDelta { delta } => self.agent_delta(delta@),
            EventMsg::PlanDelta { delta } => self.plan_delta(delta@),
            EventMsg::AgentMessage { message } => self.agent_message(message@),
            EventMsg::TurnComplete => {
                let (s, a) = self.end_turn();
                let (s2, a2) = s.summarize();
                (s2, a + a2)
            },
            EventMsg::TurnAborted { reason } => self.end_turn(),
            EventMsg::Warning { message } => self.report(CellV::Warning(message@), false),
            EventMsg::ContextCompacted => {
                let (s, a) = self.flush_tools();
                (s, a + seq![ActionV::ShowAgentMessage("Context compacted"@)])
            },
            EventMsg::DeprecationNotice { summary, details } => self.report(
                CellV::Deprecation { summary: summary@, details: opt_text(details) },
                false,
            ),
            EventMsg::PlanUpdate { update } => self.report(CellV::PlanUpdate(update), false),
            EventMsg::WebSearchEnd { query } => self.report(CellV::WebSearch(query@), true),
            EventMsg::ViewImageToolCall { path } => self.report(
                CellV::ViewImage { path: path@, cwd: self.cwd },
                false,
            ),
            EventMsg::ExecCommandEnd { command } => self.command_ended(command),
            EventMsg::PatchApplyEnd { success, stderr, changes } => self.report(
                if success {
                    CellV::Patch { changes: changes@, cwd: self.cwd }
                } else {
                    CellV::PatchFailure(stderr@)
                },
                true,
            ),
            EventMsg::CollabAgentSpawnEnd { cell }
            | EventMsg::CollabAgentInteractionEnd { cell }
            | EventMsg::CollabWaitingBegin { cell }
            | EventMsg::CollabWaitingEnd { cell }
            | EventMsg::CollabCloseEnd { cell }
            | EventMsg::CollabResumeBegin { cell }
            | EventMsg::CollabResumeEnd { cell } => self.collaborate(cell),
            EventMsg::Error { message } => {
                let (s, a) = self.end_turn();
                (
                    ProcState {
                        saw_agent_delta: false,
                        saw_plan_delta: false,
                        needs_separator: true,
                        ..s
                    },
                    a + seq![ActionV::Insert(CellV::Error(message@))],
                )
            },
            _ => (self, seq![]),
        }
    }
}

/// Turns the backend events of a turn into transcript actions.
#[derive(Debug)]
pub struct RenderOnlyProcessor {
    token_usage: TokenUsage,
    context_usage: TokenUsage,
    model_context_window: Option<i64>,
    thread_id: Option<String>,
    cwd: String,
    last_rendered_width: Option<u16>,
    plan_open: bool,
    saw_agent_delta: bool,
    saw_plan_delta: bool,
    needs_final_message_separator: bool,
    had_work_activity: bool,
    last_separator_elapsed_secs: Option<u64>,
    current_elapsed_secs: Option<u64>,
    pending_exploring_cell: Option<ExecCell>,
    pending_success_ran_cell: Option<ExecCell>,
    pending_project_succeeded: Option<ProjectSummary>,
}

/// The commands of `cell`, if there is one.
pub open spec fn opt_calls(cell: Option<ExecCell>) -> Option<Seq<ExecCommandEndEvent>> {
    match cell {
        Some(c) => Some(c.calls@),
        None => None,
    }
}

impl View for RenderOnlyProcessor {
    type V = ProcState;

    closed spec fn view(&self) -> ProcState {
        ProcState {
            token_usage: self.token_usage,
            context_usage: self.context_usage,
            model_context_window: self.model_context_window,
            thread_id: opt_text(self.thread_id),
            cwd: self.cwd@,
            last_rendered_width: self.last_rendered_width,
            plan_open: self.plan_open,
            saw_agent_delta: self.saw_agent_delta,
            saw_plan_delta: self.saw_plan_delta,
            needs_separator: self.needs_final_message_separator,
            had_work: self.had_work_activity,
            last_separator_secs: self.last_separator_elapsed_secs,
            current_secs: self.current_elapsed_secs,
            exploring: opt_calls(self.pending_exploring_cell),
            ran: opt_calls(self.pending_success_ran_cell),
            pending_summary: self.pending_project_succeeded,
        }
    }
}

fn push_action(out: &mut Vec<Action>, action: Action)
    ensures
        actions_view(final(out)@) == actions_view(old(out)@) + seq![action@],
{
    out.push(action);
    assert(actions_view(out@) =~= actions_view(old(out)@) + seq![action@]);
}

impl RenderOnlyProcessor {
    /// A processor for the working directory `cwd`.
    pub fn new(cwd: String) -> (r: Self)
        ensures
            r@ == ProcState::initial(cwd@),
    {
        RenderOnlyProcessor {
            token_usage: TokenUsage::none(),
            context_usage: TokenUsage::none(),
            model_context_window: None,
            thread_id: None,
            cwd,
            last_rendered_width: None,
            plan_open: false,
            saw_agent_delta: false,
            saw_plan_delta: false,
            needs_final_message_separator: false,
            had_work_activity: false,
            last_separator_elapsed_secs: None,
            current_elapsed_secs: None,
            pending_exploring_cell: None,
            pending_success_ran_cell: None,
            pending_project_succeeded: None,
        }
    }

    /// Tells the processor the reading of the status clock.
    pub fn set_current_elapsed_secs(&mut self, secs: Option<u64>)
        ensures
            final(self)@ == (ProcState { current_secs: secs, ..old(self)@ }),
    {
        self.current_elapsed_secs = secs;
    }

    /// Tells the processor the width of the screen.
    pub fn set_last_rendered_width(&mut self, width: Option<u16>)
        ensures
            final(self)@ == (ProcState { last_rendered_width: width, ..old(self)@ }),
    {
        self.last_rendered_width = width;
    }

    /// The session total of used tokens.
    pub fn token_usage(&self) -> (r: TokenUsage)
        ensures
            r == self@.token_usage,
    {
        self.token_usage
    }

    /// The tokens of the last request.
    pub fn context_usage(&self) -> (r: TokenUsage)
        ensures
            r == self@.context_usage,
    {
        self.context_usage
    }

    /// The context window of the model.
    pub fn model_context_window(&self) -> (r: Option<i64>)
        ensures
            r == self@.model_context_window,
    {
        self.model_context_window
    }

    /// The session, once it is known.
    pub fn thread_id(&self) -> (r: Option<String>)
        ensures
            opt_text(r) == self@.thread_id,
    {
        match &self.thread_id {
            Some(t) => Some(t.clone()),
            None => None,
        }
    }

    /// The commands that only explored and are not shown yet.
    pub fn pending_exploring_cell(&self) -> (r: Option<&ExecCell>)
        ensures
            match r {
                Some(c) => self@.exploring == Some(c.calls@),
                None => self@.exploring is None,
            },
    {
        self.pending_exploring_cell.as_ref()
    }

    /// The commands that succeeded and are not shown yet.
    pub fn pending_success_ran_cell(&self) -> (r: Option<&ExecCell>)
        ensures
            match r {
                Some(c) => self@.ran == Some(c.calls@),
                None => self@.ran is None,
            },
    {
        self.pending_success_ran_cell.as_ref()
    }

    /// Shows a prompt of the user.
    pub fn emit_user_prompt(&self, prompt: String) -> (r: Action)
        ensures
            r@ == ActionV::Insert(CellV::UserPrompt(prompt@)),
    {
        Action::Insert(Cell::UserPrompt(prompt))
    }

    /// Shows the commands that only explored.
    pub fn flush_pending_exploring_cell(&mut self, out: &mut Vec<Action>)
        ensures
            final(self)@ == old(self)@.flush_exploring().0,
            actions_view(final(out)@) == actions_view(old(out)@) + old(self)@.flush_exploring().1,
    {
        if let Some(cell) = self.pending_exploring_cell.take() {
            self.needs_final_message_separator = true;
            push_action(out, Action::Insert(Cell::Exec(cell)));
        } else {
            assert(actions_view(out@) + seq![] =~= actions_view(out@));
        }
    }

    /// Shows the commands that succeeded.
    pub fn flush_pending_success_ran_cell(&mut self, out: &mut Vec<Action>)
        ensures
            final(self)@ == old(self)@.flush_ran().0,
            actions_view(final(out)@) == actions_view(old(out)@) + old(self)@.flush_ran().1,
    {
        if let Some(cell) = self.pending_success_ran_cell.take() {
            self.needs_final_message_separator = true;
            push_action(out, Action::Insert(Cell::Exec(cell)));
        } else {
            assert(actions_view(out@) + seq![] =~= actions_view(out@));
        }
    }

    /// Shows all commands that have not been shown yet.
    pub fn flush_tools(&mut self, out: &mut Vec<Action>)
        ensures
            final(self)@ == old(self)@.flush_tools().0,
            actions_view(final(out)@) == actions_view(old(out)@) + old(self)@.flush_tools().1,
    {
        let ghost start = actions_view(out@);
        let ghost a1 = self@.flush_exploring().1;
        self.flush_pending_exploring_cell(out);
        let ghost a2 = self@.flush_ran().1;
        self.flush_pending_success_ran_cell(out);
        assert(start + a1 + a2 =~= start + (a1 + a2));
    }

    fn flush_plan_stream(&mut self, out: &mut Vec<Action>)
        ensures
            final(self)@ == old(self)@.close_plan().0,
            actions_view(final(out)@) == actions_view(old(out)@) + old(self)@.close_plan().1,
    {
        if self.plan_open {
            self.plan_open = false;
            push_action(out, Action::FinalizePlanStream);
        } else {
            assert(actions_view(out@) + seq![] =~= actions_view(out@));
        }
    }

    fn close_streams(&mut self, out: &mut Vec<Action>)
        ensures
            final(self)@ == old(self)@.close_streams().0,
            actions_view(final(out)@) == actions_view(old(out)@) + old(self)@.close_streams().1,
    {
        let ghost start = actions_view(out@);
        let ghost a = self@.close_plan().1;
        push_action(out, Action::FinalizeAgentStream);
        self.flush_plan_stream(out);
        assert(start + seq![ActionV::FinalizeAgentStream] + a =~= start + (seq![
            ActionV::FinalizeAgentStream,
        ] + a));
    }

    fn worked_elapsed_from(&mut self, current_elapsed: u64) -> (r: u64)
        ensures
            r == worked_secs(old(self)@.last_separator_secs, current_elapsed),
            final(self)@ == (ProcState {
                last_separator_secs: Some(current_elapsed),
                ..old(self)@
            }),
    {
        let baseline: u64 = match self.last_separator_elapsed_secs {
            Some(last) => if current_elapsed < last {
                0
            } else {
                last
            },
            None => 0,
        };
        let elapsed: u64 = current_elapsed.saturating_sub(baseline);
        self.last_separator_elapsed_secs = Some(current_elapsed);
        elapsed
    }

    fn maybe_emit_final_message_separator(&mut self, out: &mut Vec<Action>)
        ensures
            final(self)@ == old(self)@.separate().0,
            actions_view(final(out)@) == actions_view(old(out)@) + old(self)@.separate().1,
    {
        if self.needs_final_message_separator && self.had_work_activity {
            let elapsed_seconds: Option<u64> = match self.current_elapsed_secs {
                Some(current) => Some(self.worked_elapsed_from(current)),
                None => None,
            };
            push_action(out, Action::Insert(Cell::Separator(elapsed_seconds)));
            self.needs_final_message_separator = false;
            self.had_work_activity = false;
        } else {
            self.needs_final_message_separator = false;
            assert(actions_view(out@) + seq![] =~= actions_view(out@));
        }
    }

    fn report_summary(&mut self, out: &mut Vec<Action>)
        ensures
            final(self)@ == old(self)@.summarize().0,
            actions_view(final(out)@) == actions_view(old(out)@) + old(self)@.summarize().1,
    {
        if let Some(project) = self.pending_project_succeeded.take() {
            push_action(out, Action::Insert(Cell::ProjectSucceeded(project)));
        } else {
            assert(actions_view(out@) + seq![] =~= actions_view(out@));
        }
    }

    fn report(&mut self, cell: Cell, work: bool, out: &mut Vec<Action>)
        ensures
            final(self)@ == old(self)@.report(cell@, work).0,
            actions_view(final(out)@) == actions_view(old(out)@) + old(self)@.report(
                cell@,
                work,
            ).1,
    {
        let ghost start = actions_view(out@);
        let ghost a = self@.flush_tools().1;
        let ghost shown = cell@;
        self.flush_tools(out);
        self.needs_final_message_separator = true;
        push_action(out, Action::Insert(cell));
        self.had_work_activity = self.had_work_activity || work;
        assert(start + a + seq![ActionV::Insert(shown)] =~= start + (a + seq![
            ActionV::Insert(shown),
        ]));
    }

    /// Shows the cell of a collaboration.
    fn on_collab_event(&mut self, cell: PlainHistoryCell, out: &mut Vec<Action>)
        ensures
            final(self)@ == old(self)@.collaborate(cell).0,
            actions_view(final(out)@) == actions_view(old(out)@) + old(self)@.collaborate(cell).1,
    {
        let ghost start = actions_view(out@);
        let ghost a = self@.close_streams().1;
        self.close_streams(out);
        let ghost b = self@.report(CellV::Collab(cell), true).1;
        self.report(Cell::Collab(cell), true, out);
        assert(start + a + b =~= start + (a + b));
    }

    /// A stream that broke off: all that is known is shown, and the next message
    /// starts afresh.
    pub fn handle_retryable_stream_error(&mut self) -> (r: Vec<Action>)
        ensures
            final(self)@ == old(self)@.stream_broke().0,
            actions_view(r@) == old(self)@.stream_broke().1,
    {
        let mut out: Vec<Action> = Vec::new();
        self.flush_tools(&mut out);
        self.close_streams(&mut out);
        push_action(&mut out, Action::ResetChunking);
        push_action(&mut out, Action::StopCommitAnimation);
        self.saw_agent_delta = false;
        self.saw_plan_delta = false;
        self.needs_final_message_separator = true;
        assert(actions_view(out@) =~= old(self)@.stream_broke().1);
        out
    }

    fn on_command_ended(&mut self, command: ExecCommandEndEvent, out: &mut Vec<Action>)
        ensures
            final(self)@ == old(self)@.command_ended(command).0,
            actions_view(final(out)@) == actions_view(old(out)@) + old(self)@.command_ended(
                command,
            ).1,
    {
        let ghost start = actions_view(out@);
        let ghost a = self@.close_streams().1;
        self.close_streams(out);
        let ghost s = self@;
        let exploring = command.exploring;
        let calls = vec![command];
        assert(calls@ =~= seq![command]);
        let mut cell = ExecCell { calls };
        if exploring {
            let ghost b = self@.flush_ran().1;
            self.flush_pending_success_ran_cell(out);
            let pending = self.pending_exploring_cell.take();
            match pending {
                Some(mut pending) => {
                    let ghost before = pending.calls@;
                    pending.calls.append(&mut cell.calls);
                    assert(pending.calls@ =~= before.push(command));
                    self.pending_exploring_cell = Some(pending);
                },
                None => {
                    self.pending_exploring_cell = Some(cell);
                },
            }
            assert(start + a + b =~= start + (a + b));
        } else if can_coalesce_success_ran_cell(&cell) {
            let ghost b = self@.flush_exploring().1;
            self.flush_pending_exploring_cell(out);
            let pending = self.pending_success_ran_cell.take();
            match pending {
                Some(mut pending) => {
                    let ghost before = pending.calls@;
                    pending.calls.append(&mut cell.calls);
                    assert(pending.calls@ =~= before.push(command));
                    self.pending_success_ran_cell = Some(pending);
                },
                None => {
                    self.pending_success_ran_cell = Some(cell);
                },
            }
            assert(start + a + b =~= start + (a + b));
        } else {
            let ghost b = self@.flush_tools().1;
            let ghost c = seq![ActionV::Insert(CellV::Exec(seq![command]))];
            self.flush_tools(out);
            self.needs_final_message_separator = true;
            push_action(out, Action::Insert(Cell::Exec(cell)));
            assert(start + a + b + c =~= start + (a + (b + c)));
        }
        self.had_work_activity = true;
    }
}

impl RenderOnlyProcessor {
    fn on_agent_delta(&mut self, delta: String) -> (r: Vec<Action>)
        ensures
            final(self)@ == old(self)@.agent_delta(delta@).0,
            actions_view(r@) == old(self)@.agent_delta(delta@).1,
    {
        let ghost want = self@.agent_delta(delta@).1;
        let mut out: Vec<Action> = Vec::new();
        self.flush_tools(&mut out);
        if !self.saw_agent_delta {
            self.maybe_emit_final_message_separator(&mut out);
        }
        self.saw_agent_delta = true;
        push_action(&mut out, Action::PushAgentDelta(delta));
        assert(actions_view(out@) =~= want);
        out
    }

    fn on_plan_delta(&mut self, delta: String) -> (r: Vec<Action>)
        ensures
            final(self)@ == old(self)@.plan_delta(delta@).0,
            actions_view(r@) == old(self)@.plan_delta(delta@).1,
    {
        let ghost want = self@.plan_delta(delta@).1;
        let mut out: Vec<Action> = Vec::new();
        self.flush_tools(&mut out);
        if !self.saw_agent_delta && !self.saw_plan_delta {
            self.maybe_emit_final_message_separator(&mut out);
        }
        self.saw_plan_delta = true;
        if !self.plan_open {
            let width: Option<usize> = match self.last_rendered_width {
                Some(w) => Some(w.saturating_sub(4) as usize),
                None => None,
            };
            self.plan_open = true;
            push_action(&mut out, Action::OpenPlanStream { width });
        }
        push_action(&mut out, Action::PushPlanDelta(delta));
        assert(actions_view(out@) =~= want);
        out
    }

    fn on_agent_message(&mut self, message: String) -> (r: Vec<Action>)
        ensures
            final(self)@ == old(self)@.agent_message(message@).0,
            actions_view(r@) == old(self)@.agent_message(message@).1,
    {
        let ghost want = self@.agent_message(message@).1;
        let mut out: Vec<Action> = Vec::new();
        self.flush_tools(&mut out);
        if self.saw_agent_delta {
            assert(actions_view(out@) =~= want);
            return out;
        }
        self.maybe_emit_final_message_separator(&mut out);
        push_action(&mut out, Action::ShowAgentMessage(message));
        assert(actions_view(out@) =~= want);
        out
    }

    fn on_turn_end(&mut self) -> (r: Vec<Action>)
        ensures
            final(self)@ == old(self)@.end_turn().0,
            actions_view(r@) == old(self)@.end_turn().1,
    {
        let ghost want = self@.end_turn().1;
        let mut out: Vec<Action> = Vec::new();
        self.flush_tools(&mut out);
        self.close_streams(&mut out);
        push_action(&mut out, Action::StopCommitAnimation);
        assert(actions_view(out@) =~= want);
        out
    }

    fn flushed_tools(&mut self) -> (r: Vec<Action>)
        ensures
            final(self)@ == old(self)@.flush_tools().0,
            actions_view(r@) == old(self)@.flush_tools().1,
    {
        let ghost want = self@.flush_tools().1;
        let mut out: Vec<Action> = Vec::new();
        self.flush_tools(&mut out);
        assert(actions_view(out@) =~= want);
        out
    }

    fn reported(&mut self, cell: Cell, work: bool) -> (r: Vec<Action>)
        ensures
            final(self)@ == old(self)@.report(cell@, work).0,
            actions_view(r@) == old(self)@.report(cell@, work).1,
    {
        let ghost want = self@.report(cell@, work).1;
        let mut out: Vec<Action> = Vec::new();
        self.report(cell, work, &mut out);
        assert(actions_view(out@) =~= want);
        out
    }

    fn collaborated(&mut self, cell: PlainHistoryCell) -> (r: Vec<Action>)
        ensures
            final(self)@ == old(self)@.collaborate(cell).0,
            actions_view(r@) == old(self)@.collaborate(cell).1,
    {
        let ghost want = self@.collaborate(cell).1;
        let mut out: Vec<Action> = Vec::new();
        self.on_collab_event(cell, &mut out);
        assert(actions_view(out@) =~= want);
        out
    }

    /// Turns a backend event into transcript actions.
    pub fn handle_codex_event(&mut self, msg: EventMsg) -> (r: Vec<Action>)
        ensures
            final(self)@ == old(self)@.step(msg).0,
            actions_view(r@) == old(self)@.step(msg).1,
    {
        let mut out: Vec<Action> = Vec::new();
        assert(actions_view(out@) =~= seq![]);
        match msg {
            EventMsg::SessionConfigured { session_id, cwd } => {
                self.thread_id = Some(session_id);
                self.cwd = cwd;
            },
            EventMsg::PotterProjectStarted { user_message, user_prompt_file } => {
                out = self.flushed_tools();
                let ghost flushed = actions_view(out@);
                let ghost prompt = prompt_actions(user_message);
                if let Some(message) = user_message {
                    if !message.as_str().is_empty() {
                        let action = self.emit_user_prompt(message);
                        push_action(&mut out, action);
                    }
                }
                assert(actions_view(out@) =~= flushed + prompt);
                self.needs_final_message_separator = true;
                push_action(&mut out, Action::Insert(Cell::ProjectHint(user_prompt_file)));
            },
            EventMsg::PotterRoundStarted { current, total } => {
                out = self.reported(Cell::RoundStarted { current, total }, false);
            },
            EventMsg::PotterProjectSucceeded { project } => {
                out = self.flushed_tools();
                self.pending_project_succeeded = Some(project);
            },
            EventMsg::PotterRoundFinished { outcome: _ } => {
                out = self.flushed_tools();
                self.report_summary(&mut out);
            },
            EventMsg::TokenCount { info } => {
                if let Some(i) = info {
                    self.token_usage = i.total_token_usage;
                    self.context_usage = i.last_token_usage;
                    if i.model_context_window.is_some() {
                        self.model_context_window = i.model_context_window;
                    }
                }
            },
            EventMsg::TurnStarted { model_context_window } => {
                self.model_context_window = model_context_window;
                self.plan_open = false;
                self.saw_agent_delta = false;
                self.saw_plan_delta = false;
                out.push(Action::ResetChunking);
                out.push(Action::DropPlanStream);
                assert(actions_view(out@) =~= seq![
                    ActionV::ResetChunking,
                    ActionV::DropPlanStream,
                ]);
            },
            EventMsg::AgentMessageDelta { delta } => {
                out = self.on_agent_delta(delta);
            },
            EventMsg::PlanDelta { delta } => {
                out = self.on_plan_delta(delta);
            },
            EventMsg::AgentMessage { message } => {
                out = self.on_agent_message(message);
            },
            EventMsg::TurnComplete => {
                out = self.on_turn_end();
                self.report_summary(&mut out);
            },
            EventMsg::TurnAborted { reason: _ } => {
                out = self.on_turn_end();
            },
            EventMsg::Warning { message } => {
                out = self.reported(Cell::Warning(message), false);
            },
            EventMsg::ContextCompacted => {
                out = self.flushed_tools();
                push_action(&mut out, Action::ShowAgentMessage("Context compacted".to_string()));
            },
            EventMsg::DeprecationNotice { summary, details } => {
                out = self.reported(Cell::Deprecation { summary, details }, false);
            },
            EventMsg::PlanUpdate { update } => {
                out = self.reported(Cell::PlanUpdate(update), false);
            },
            EventMsg::WebSearchEnd { query } => {
                out = self.reported(Cell::WebSearch(query), true);
            },
            EventMsg::ViewImageToolCall { path } => {
                let cwd = self.cwd.clone();
                out = self.reported(Cell::ViewImage { path, cwd }, false);
            },
            EventMsg::ExecCommandEnd { command } => {
                let ghost want = self@.command_ended(command).1;
                self.on_command_ended(command, &mut out);
                assert(actions_view(out@) =~= want);
            },
            EventMsg::PatchApplyEnd { success, stderr, changes } => {
                if success {
                    let cwd = self.cwd.clone();
                    out = self.reported(Cell::Patch { changes, cwd }, true);
                } else {
                    out = self.reported(Cell::PatchFailure(stderr), true);
                }
            },
            EventMsg::CollabAgentSpawnEnd { cell }
            | EventMsg::CollabAgentInteractionEnd { cell }
            | EventMsg::CollabWaitingBegin { cell }
            | EventMsg::CollabWaitingEnd { cell }
            | EventMsg::CollabCloseEnd { cell }
            | EventMsg::CollabResumeBegin { cell }
            | EventMsg::CollabResumeEnd { cell } => {
                out = self.collaborated(cell);
            },
            EventMsg::Error { message } => {
                out = self.on_turn_end();
                self.saw_agent_delta = false;
                self.saw_plan_delta = false;
                self.needs_final_message_separator = true;
                push_action(&mut out, Action::Insert(Cell::Error(message)));
            },
            _ => {},
        }
        out
    }
}

/// The commands that `actions` show, in order.
pub open spec fn shown_calls(actions: Seq<ActionV>) -> Seq<ExecCommandEndEvent>
    decreases actions.len(),
{
    if actions.len() == 0 {
        seq![]
    } else {
        shown_calls(actions.drop_last()) + match actions.last() {
            ActionV::Insert(CellV::Exec(calls)) => calls,
            _ => seq![],
        }
    }
}

/// The commands of `calls`, none where there is nothing.
pub open spec fn waiting(calls: Option<Seq<ExecCommandEndEvent>>) -> Seq<ExecCommandEndEvent> {
    match calls {
        Some(c) => c,
        None => seq![],
    }
}

/// The commands that wait to be shown.
pub open spec fn waiting_calls(s: ProcState) -> Seq<ExecCommandEndEvent> {
    waiting(s.exploring) + waiting(s.ran)
}

/// What holds of every state that events lead to: commands of at most one kind
/// wait to be shown.
pub open spec fn one_kind_waits(s: ProcState) -> bool {
    s.exploring is None || s.ran is None
}

proof fn lemma_shown_push(actions: Seq<ActionV>, a: ActionV)
    ensures
        shown_calls(actions + seq![a]) == shown_calls(actions) + match a {
            ActionV::Insert(CellV::Exec(calls)) => calls,
            _ => seq![],
        },
{
    assert((actions + seq![a]).drop_last() =~= actions);
}

proof fn lemma_shown_concat(a: Seq<ActionV>, b: Seq<ActionV>)
    ensures
        shown_calls(a + b) == shown_calls(a) + shown_calls(b),
    decreases b.len(),
{
    if b.len() == 0 {
        assert(a + b =~= a);
        assert(shown_calls(a) + shown_calls(b) =~= shown_calls(a));
    } else {
        assert((a + b).drop_last() =~= a + b.drop_last());
        lemma_shown_concat(a, b.drop_last());
        assert(shown_calls(a + b) =~= shown_calls(a) + shown_calls(b));
    }
}

proof fn lemma_flush_tools_shows(s: ProcState)
    requires
        one_kind_waits(s),
    ensures
        shown_calls(s.flush_tools().1) == waiting_calls(s),
        s.flush_tools().0.exploring is None,
        s.flush_tools().0.ran is None,
{
    let a1 = s.flush_exploring().1;
    let a2 = s.flush_exploring().0.flush_ran().1;
    lemma_shown_concat(a1, a2);
    assert(seq![] + a1 =~= a1);
    assert(seq![] + a2 =~= a2);
    if a1.len() > 0 {
        lemma_shown_push(seq![], a1[0]);
    }
    if a2.len() > 0 {
        lemma_shown_push(seq![], a2[0]);
    }
    assert(shown_calls(a1) =~= waiting(s.exploring));
    assert(shown_calls(a2) =~= waiting(s.ran));
}

proof fn lemma_close_streams_shows_none(s: ProcState)
    ensures
        shown_calls(s.close_streams().1) == Seq::<ExecCommandEndEvent>::empty(),
        s.close_streams().0.exploring == s.exploring,
        s.close_streams().0.ran == s.ran,
{
    let plan = s.close_plan().1;
    let start = seq![ActionV::FinalizeAgentStream];
    assert(seq![] + start =~= start);
    lemma_shown_push(seq![], ActionV::FinalizeAgentStream);
    lemma_shown_concat(start, plan);
    if plan.len() > 0 {
        assert(seq![] + plan =~= plan);
        lemma_shown_push(seq![], plan[0]);
    }
    assert(shown_calls(s.close_streams().1) =~= Seq::<ExecCommandEndEvent>::empty());
}

/// No command is lost, shown twice or shown out of order: what an ended command
/// makes the transcript show, followed by what waits afterwards, is what waited
/// before, followed by the command.
pub proof fn law_commands_are_shown_once_in_order(s: ProcState, call: ExecCommandEndEvent)
    requires
        one_kind_waits(s),
    ensures
        ({
            let (t, actions) = s.command_ended(call);
            &&& shown_calls(actions) + waiting_calls(t) == waiting_calls(s).push(call)
            &&& one_kind_waits(t)
        }),
{
    let (s1, a) = s.close_streams();
    let (t, actions) = s.command_ended(call);
    lemma_close_streams_shows_none(s);
    if call.exploring {
        let b = s1.flush_ran().1;
        lemma_shown_concat(a, b);
        if b.len() > 0 {
            assert(seq![] + b =~= b);
            lemma_shown_push(seq![], b[0]);
        }
        assert(shown_calls(b) =~= waiting(s.ran));
        assert(shown_calls(actions) + waiting_calls(t) =~= waiting_calls(s).push(call));
    } else if is_coalescable(seq![call]) {
        let b = s1.flush_exploring().1;
        lemma_shown_concat(a, b);
        if b.len() > 0 {
            assert(seq![] + b =~= b);
            lemma_shown_push(seq![], b[0]);
        }
        assert(shown_calls(b) =~= waiting(s.exploring));
        assert(shown_calls(actions) + waiting_calls(t) =~= waiting_calls(s).push(call));
    } else {
        let b = s1.flush_tools().1;
        lemma_flush_tools_shows(s1);
        let shown = ActionV::Insert(CellV::Exec(seq![call]));
        lemma_shown_push(b, shown);
        lemma_shown_concat(a, b + seq![shown]);
        assert(shown_calls(actions) + waiting_calls(t) =~= waiting_calls(s).push(call));
    }
}

/// Whether `msg` adds something to the transcript behind the commands that wait.
pub open spec fn ends_the_wait(msg: EventMsg) -> bool {
    match msg {
        EventMsg::PotterProjectStarted { .. }
        | EventMsg::PotterRoundStarted { .. }
        | EventMsg::PotterProjectSucceeded { .. }
        | EventMsg::PotterRoundFinished { .. }
        | EventMsg::AgentMessageDelta { .. }
        | EventMsg::PlanDelta { .. }
        | EventMsg::AgentMessage { .. }
        | EventMsg::TurnComplete
        | EventMsg::TurnAborted { .. }
        | EventMsg::Warning { .. }
        | EventMsg::ContextCompacted
        | EventMsg::DeprecationNotice { .. }
        | EventMsg::PlanUpdate { .. }
        | EventMsg::WebSearchEnd { .. }
        | EventMsg::ViewImageToolCall { .. }
        | EventMsg::PatchApplyEnd { .. }
        | EventMsg::CollabAgentSpawnEnd { .. }
        | EventMsg::CollabAgentInteractionEnd { .. }
        | EventMsg::CollabWaitingBegin { .. }
        | EventMsg::CollabWaitingEnd { .. }
        | EventMsg::CollabCloseEnd { .. }
        | EventMsg::CollabResumeBegin { .. }
        | EventMsg::CollabResumeEnd { .. }
        | EventMsg::Error { .. } => true,
        _ => false,
    }
}

/// Everything else that is shown stands behind the commands that waited: after
/// such an event none waits any more, and any other event but a command leaves
/// them waiting as they were.
#[verifier::rlimit(60)]
#[verifier::spinoff_prover]
pub proof fn law_waiting_commands_stay_in_front(s: ProcState, msg: EventMsg)
    requires
        one_kind_waits(s),
        !(msg is ExecCommandEnd),
    ensures
        ({
            let t = s.step(msg).0;
            if ends_the_wait(msg) {
                waiting_calls(t) == Seq::<ExecCommandEndEvent>::empty()
            } else {
                t.exploring == s.exploring && t.ran == s.ran
            }
        }),
        one_kind_waits(s.step(msg).0),
{
    lemma_flush_tools_shows(s);
    lemma_close_streams_shows_none(s);
    lemma_close_streams_shows_none(s.flush_tools().0);
    lemma_flush_tools_shows(s.close_streams().0);
    assert(waiting(None) + waiting(None) =~= Seq::<ExecCommandEndEvent>::empty());
}

/// A divider is shown only in front of a message that follows work, and the
/// same work never gets a second one.
pub proof fn law_divider_needs_new_work(s: ProcState)
    ensures
        s.separate().1.len() > 0 <==> s.needs_separator && s.had_work,
        s.separate().0.separate().1.len() == 0,
{
}

/// The dividers of a turn share out its time: two dividers, with the clock at
/// `first` and then at `second`, show `second` seconds together.
pub proof fn law_dividers_share_out_the_time(first: u64, second: u64)
    requires
        first <= second,
    ensures
        worked_secs(None, first) + worked_secs(Some(first), second) == second,
{
}

/// The cell that shows an agent message, given how it is laid out; a message that
/// lays out to nothing is not shown.
pub fn agent_message_cell(lines: Vec<Line>) -> (r: Option<AgentMessageCell>)
    ensures
        match r {
            Some(cell) => lines@.len() > 0 && cell.lines == lines && cell.is_first_line,
            None => lines@.len() == 0,
        },
{
    if lines.len() == 0 {
        None
    } else {
        Some(AgentMessageCell::new(lines, true))
    }
}

/// Whether showing streamed lines one by one stops after a step, given whether
/// there was a stream and whether all of them have nothing left to show.
pub fn stops_animation(has_controller: bool, all_idle: bool) -> (b: bool)
    ensures
        b == (has_controller && all_idle),
{
    has_controller && all_idle
}

/// A patch is shown by its outcome: one that was applied as the changes that it
/// makes in the working directory, one that was not as what the tool said. It comes
/// last, and nothing else of the kind is shown.
pub proof fn law_patch_is_shown_by_its_outcome(
    s: ProcState,
    success: bool,
    stderr: String,
    changes: Vec<ChangedFile>,
)
    ensures
        ({
            let actions = s.step(EventMsg::PatchApplyEnd { success, stderr, changes }).1;
            let n = actions.len() as int;
            &&& n > 0
            &&& match actions[n - 1] {
                ActionV::Insert(CellV::Patch { changes: shown, cwd }) => success && shown
                    == changes@ && cwd == s.cwd,
                ActionV::Insert(CellV::PatchFailure(said)) => !success && said == stderr@,
                _ => false,
            }
            &&& forall|i: int|
                0 <= i < n - 1 ==> (#[trigger] actions[i] matches ActionV::Insert(CellV::Exec(_)))
        }),
{
}

/// The last action for an event.
pub open spec fn last_action(s: ProcState, msg: EventMsg) -> ActionV {
    s.step(msg).1.last()
}

/// A notice is shown as what it is, with its own words.
pub proof fn law_notices_keep_their_words(
    s: ProcState,
    message: String,
    details: Option<String>,
    update: UpdatePlanArgs,
)
    ensures
        last_action(s, EventMsg::Warning { message }) == ActionV::Insert(CellV::Warning(message@)),
        last_action(s, EventMsg::Error { message }) == ActionV::Insert(CellV::Error(message@)),
        last_action(s, EventMsg::WebSearchEnd { query: message }) == ActionV::Insert(
            CellV::WebSearch(message@),
        ),
        last_action(s, EventMsg::ViewImageToolCall { path: message }) == ActionV::Insert(
            CellV::ViewImage { path: message@, cwd: s.cwd },
        ),
        last_action(s, EventMsg::PlanUpdate { update }) == ActionV::Insert(
            CellV::PlanUpdate(update),
        ),
        (last_action(s, EventMsg::DeprecationNotice { summary: message, details }) matches
            ActionV::Insert(CellV::Deprecation { summary, details: shown }) && summary == message@
            && (details matches Some(d) ==> shown == Some(d@)) && (details is None ==> shown
            is None)),
        last_action(s, EventMsg::ContextCompacted) == ActionV::ShowAgentMessage(
            "Context compacted"@,
        ),
{
}

/// What another agent did is shown as it was laid out, whichever event told of it,
/// behind all streamed text.
pub proof fn law_collaboration_is_shown(s: ProcState, cell: PlainHistoryCell)
    ensures
        forall|msg: EventMsg|
            (msg == (EventMsg::CollabAgentSpawnEnd { cell }) || msg == (
            EventMsg::CollabAgentInteractionEnd { cell }) || msg == (EventMsg::CollabWaitingBegin {
                cell,
            }) || msg == (EventMsg::CollabWaitingEnd { cell }) || msg == (
            EventMsg::CollabCloseEnd { cell }) || msg == (EventMsg::CollabResumeBegin { cell })
                || msg == (EventMsg::CollabResumeEnd { cell })) ==> {
                let actions = (#[trigger] s.step(msg)).1;
                &&& actions.last() == ActionV::Insert(CellV::Collab(cell))
                &&& actions[0] is FinalizeAgentStream
                &&& s.plan_open ==> actions[1] is FinalizePlanStream
            },
{
}

/// A project that starts shows the prompt of the user, unless it is empty, and
/// then the file that holds it; a round shows its own number.
pub proof fn law_starts_are_shown(
    s: ProcState,
    user_message: Option<String>,
    user_prompt_file: String,
    current: u32,
    total: u32,
)
    ensures
        ({
            let actions = s.step(
                EventMsg::PotterProjectStarted { user_message, user_prompt_file },
            ).1;
            let n = actions.len() as int;
            &&& n > 0
            &&& actions[n - 1] == ActionV::Insert(CellV::ProjectHint(user_prompt_file@))
            &&& (user_message matches Some(m) && m@.len() > 0) ==> n > 1 && actions[n - 2]
                == ActionV::Insert(CellV::UserPrompt(user_message->0@))
            &&& !(user_message matches Some(m) && m@.len() > 0) ==> forall|i: int|
                0 <= i < n ==> !(#[trigger] actions[i] matches ActionV::Insert(
                    CellV::UserPrompt(_),
                ))
        }),
        last_action(s, EventMsg::PotterRoundStarted { current, total }) == ActionV::Insert(
            CellV::RoundStarted { current, total },
        ),
{
}

/// The summary of a project waits for the end of its round or turn, is shown there
/// last, and is shown once; a turn that is aborted leaves it waiting.
pub proof fn law_summary_is_shown_once(
    s: ProcState,
    project: ProjectSummary,
    outcome: crate::protocol::PotterRoundOutcome,
    reason: crate::protocol::TurnAbortReason,
)
    ensures
        ({
            let told = s.step(EventMsg::PotterProjectSucceeded { project });
            let shown = ActionV::Insert(CellV::ProjectSucceeded(project));
            let by_round = told.0.step(EventMsg::PotterRoundFinished { outcome });
            let by_turn = told.0.step(EventMsg::TurnComplete);
            let aborted = told.0.step(EventMsg::TurnAborted { reason });
            &&& forall|i: int|
                0 <= i < told.1.len() ==> !(#[trigger] told.1[i] matches ActionV::Insert(
                    CellV::ProjectSucceeded(_),
                ))
            &&& by_round.1.last() == shown && by_turn.1.last() == shown
            &&& by_round.0.step(EventMsg::TurnComplete).1.last() is StopCommitAnimation
            &&& by_turn.0.step(EventMsg::PotterRoundFinished { outcome }).1.len() == 0
            &&& aborted.1.last() is StopCommitAnimation
            &&& aborted.0.step(EventMsg::PotterRoundFinished { outcome }).1.last() == shown
        }),
{
}

/// Agent text is passed on as it arrives. A finished message is shown where none of
/// it was streamed, and not again where it was, until a turn starts anew or an error
/// breaks it off.
pub proof fn law_message_is_streamed_or_shown(
    s: ProcState,
    delta: String,
    message: String,
    window: Option<i64>,
    error: String,
)
    ensures
        ({
            let streamed = s.step(EventMsg::AgentMessageDelta { delta });
            let finished = streamed.0.step(EventMsg::AgentMessage { message });
            let anew = streamed.0.step(EventMsg::TurnStarted { model_context_window: window }).0;
            let broken = streamed.0.step(EventMsg::Error { message: error }).0;
            &&& streamed.1.last() == ActionV::PushAgentDelta(delta@)
            &&& finished.1.len() == 0
            &&& last_action(anew, EventMsg::AgentMessage { message }) == ActionV::ShowAgentMessage(
                message@,
            )
            &&& last_action(broken, EventMsg::AgentMessage { message })
                == ActionV::ShowAgentMessage(message@)
        }),
        !s.saw_agent_delta ==> last_action(s, EventMsg::AgentMessage { message })
            == ActionV::ShowAgentMessage(message@),
{
}

/// Plan text is passed on as it arrives, to a plan that is opened for it where none
/// is open, four columns narrower than the screen; the end of a turn shows the rest
/// of it, and a turn that starts drops it.
pub proof fn law_plan_is_streamed(s: ProcState, delta: String, window: Option<i64>)
    ensures
        ({
            let (t, actions) = s.step(EventMsg::PlanDelta { delta });
            let n = actions.len() as int;
            let ended = t.step(EventMsg::TurnComplete);
            let dropped = t.step(EventMsg::TurnStarted { model_context_window: window });
            &&& actions[n - 1] == ActionV::PushPlanDelta(delta@)
            &&& !s.plan_open ==> n > 1 && (actions[n - 2] matches ActionV::OpenPlanStream { width }
                && (s.last_rendered_width matches Some(w) ==> width matches Some(cols) && (w >= 4
                ==> cols == w - 4) && (w < 4 ==> cols == 0)))
            &&& s.plan_open ==> forall|i: int|
                0 <= i < n ==> !(#[trigger] actions[i] is OpenPlanStream)
            &&& ended.1.contains(ActionV::FinalizePlanStream) && !ended.0.plan_open
            &&& dropped.1.contains(ActionV::DropPlanStream) && !dropped.0.plan_open
        }),
{
    let (t, actions) = s.step(EventMsg::PlanDelta { delta });
    let ended = t.step(EventMsg::TurnComplete);
    assert(ended.1[1] is FinalizePlanStream);
    let dropped = t.step(EventMsg::TurnStarted { model_context_window: window });
    assert(dropped.1[1] is DropPlanStream);
}

/// The end of a turn, its abortion and an error show what is left of the streams
/// and stop the animation; an error comes behind all of that.
pub proof fn law_end_of_turn_shows_the_streams(
    s: ProcState,
    reason: crate::protocol::TurnAbortReason,
    message: String,
)
    ensures
        forall|msg: EventMsg|
            (msg is TurnComplete || msg == (EventMsg::TurnAborted { reason }) || msg == (
            EventMsg::Error { message })) ==> {
                let actions = (#[trigger] s.step(msg)).1;
                &&& actions.contains(ActionV::FinalizeAgentStream)
                &&& s.plan_open ==> actions.contains(ActionV::FinalizePlanStream)
                &&& actions.contains(ActionV::StopCommitAnimation)
            },
{
    assert forall|msg: EventMsg|
        (msg is TurnComplete || msg == (EventMsg::TurnAborted { reason }) || msg == (
        EventMsg::Error { message })) implies {
        let actions = (#[trigger] s.step(msg)).1;
        &&& actions.contains(ActionV::FinalizeAgentStream)
        &&& s.plan_open ==> actions.contains(ActionV::FinalizePlanStream)
        &&& actions.contains(ActionV::StopCommitAnimation)
    } by {
        let actions = s.step(msg).1;
        let waited = s.flush_tools().1.len() as int;
        assert(actions[waited] is FinalizeAgentStream);
        if s.plan_open {
            assert(actions[waited + 1] is FinalizePlanStream);
            assert(actions[waited + 2] is StopCommitAnimation);
        } else {
            assert(actions[waited + 1] is StopCommitAnimation);
        }
    }
}

/// Whether a divider is among `actions`.
pub open spec fn shows_divider(actions: Seq<ActionV>) -> bool {
    exists|i: int|
        0 <= i < actions.len() && (#[trigger] actions[i] matches ActionV::Insert(
            CellV::Separator(_),
        ))
}

/// Whether `msg` tells of work: a command, a search, a patch or another agent.
pub open spec fn tells_of_work(msg: EventMsg) -> bool {
    ||| msg is ExecCommandEnd
    ||| msg is WebSearchEnd
    ||| msg is PatchApplyEnd
    ||| msg is CollabAgentSpawnEnd
    ||| msg is CollabAgentInteractionEnd
    ||| msg is CollabWaitingBegin
    ||| msg is CollabWaitingEnd
    ||| msg is CollabCloseEnd
    ||| msg is CollabResumeBegin
    ||| msg is CollabResumeEnd
}

/// Work is remembered exactly until a divider is shown for it.
#[verifier::rlimit(60)]
#[verifier::spinoff_prover]
pub proof fn law_work_is_remembered_until_its_divider(s: ProcState, msg: EventMsg)
    ensures
        s.step(msg).0.had_work == (tells_of_work(msg) || s.had_work && !shows_divider(
            s.step(msg).1,
        )),
{
    let (t, actions) = s.step(msg);
    let (f, waited) = s.flush_tools();
    assert(!shows_divider(waited));
    if msg is AgentMessage || msg is AgentMessageDelta || msg is PlanDelta {
        if f.needs_separator && f.had_work {
            if actions.len() > waited.len() {
                assert(actions[waited.len() as int] == f.separate().1[0] || f.saw_agent_delta || (
                msg is PlanDelta && f.saw_plan_delta));
            }
        }
    }
}

/// A divider stands directly in front of the message that it belongs to. It is
/// shown exactly where work was done and something was shown since the last words,
/// and says how long the work took: the time since the last divider.
pub proof fn law_divider_stands_in_front_of_its_message(s: ProcState, message: String)
    requires
        !s.saw_agent_delta,
    ensures
        ({
            let actions = s.step(EventMsg::AgentMessage { message }).1;
            let n = actions.len() as int;
            &&& actions[n - 1] == ActionV::ShowAgentMessage(message@)
            &&& shows_divider(actions) <==> s.had_work && (s.needs_separator || s.exploring is Some
                || s.ran is Some)
            &&& shows_divider(actions) ==> n > 1 && (actions[n - 2] matches ActionV::Insert(
                CellV::Separator(elapsed),
            ) && match (s.current_secs, s.last_separator_secs) {
                (None, _) => elapsed is None,
                (Some(now), None) => elapsed == Some(now),
                (Some(now), Some(before)) => now >= before ==> elapsed == Some(
                    (now - before) as u64,
                ),
            })
        }),
{
    let actions = s.step(EventMsg::AgentMessage { message }).1;
    let (f, waited) = s.flush_tools();
    if f.needs_separator && f.had_work {
        assert(actions[waited.len() as int] == f.separate().1[0]);
    }
}

/// Whether `t` knows the same numbers and the same session as `s`.
pub open spec fn knows_the_same(s: ProcState, t: ProcState) -> bool {
    &&& t.token_usage == s.token_usage
    &&& t.context_usage == s.context_usage
    &&& t.model_context_window == s.model_context_window
    &&& t.thread_id == s.thread_id
    &&& t.cwd == s.cwd
}

proof fn lemma_parts_know_the_same(s: ProcState)
    ensures
        knows_the_same(s, s.flush_exploring().0),
        knows_the_same(s, s.flush_ran().0),
        knows_the_same(s, s.flush_tools().0),
        knows_the_same(s, s.close_streams().0),
        knows_the_same(s, s.separate().0),
        knows_the_same(s, s.summarize().0),
        forall|cell: CellV, work: bool| knows_the_same(s, (#[trigger] s.report(cell, work)).0),
{
}

proof fn lemma_steps_know_the_same(s: ProcState)
    ensures
        knows_the_same(s, s.end_turn().0),
        knows_the_same(s, s.end_turn().0.summarize().0),
        knows_the_same(s, s.flush_tools().0.summarize().0),
        forall|call: ExecCommandEndEvent|
            knows_the_same(s, (#[trigger] s.command_ended(call)).0),
        forall|cell: PlainHistoryCell| knows_the_same(s, (#[trigger] s.collaborate(cell)).0),
        forall|text: Seq<char>| knows_the_same(s, (#[trigger] s.agent_delta(text)).0),
        forall|text: Seq<char>| knows_the_same(s, (#[trigger] s.plan_delta(text)).0),
        forall|text: Seq<char>| knows_the_same(s, (#[trigger] s.agent_message(text)).0),
{
    lemma_parts_know_the_same(s);
    lemma_parts_know_the_same(s.flush_tools().0);
    lemma_parts_know_the_same(s.close_streams().0);
}

/// The usage that is known is the one that was reported last: no other event
/// changes it, nor the session, once it is known.
#[verifier::rlimit(100)]
#[verifier::spinoff_prover]
pub proof fn law_reported_numbers_are_kept(s: ProcState, msg: EventMsg)
    ensures
        ({
            let t = s.step(msg).0;
            match msg {
                EventMsg::TokenCount { info: Some(info) } => {
                    &&& t.token_usage == info.total_token_usage
                    &&& t.context_usage == info.last_token_usage
                    &&& info.model_context_window is Some ==> t.model_context_window
                        == info.model_context_window
                    &&& info.model_context_window is None ==> t.model_context_window
                        == s.model_context_window
                    &&& t.thread_id == s.thread_id && t.cwd == s.cwd
                },
                EventMsg::TurnStarted { model_context_window } => {
                    &&& t.model_context_window == model_context_window
                    &&& t.token_usage == s.token_usage && t.context_usage == s.context_usage
                    &&& t.thread_id == s.thread_id && t.cwd == s.cwd
                },
                EventMsg::SessionConfigured { session_id, cwd } => {
                    &&& t.thread_id == Some(session_id@) && t.cwd == cwd@
                    &&& t.token_usage == s.token_usage && t.context_usage == s.context_usage
                    &&& t.model_context_window == s.model_context_window
                },
                _ => knows_the_same(s, t),
            }
        }),
{
    lemma_parts_know_the_same(s);
    lemma_steps_know_the_same(s);
}

/// A command is shown at once where it failed, where the user ran it in the shell,
/// or where it went to a running session; any other command that succeeded, and one
/// that only explored, waits to be shown with its like.
pub proof fn law_only_quiet_commands_wait(s: ProcState, command: ExecCommandEndEvent)
    ensures
        ({
            let (t, actions) = s.step(EventMsg::ExecCommandEnd { command });
            let loud = command.exit_code != 0 || command.source
                == crate::protocol::ExecCommandSource::UserShell || command.source
                == crate::protocol::ExecCommandSource::UnifiedExecInteraction;
            let last = actions.last();
            &&& !command.exploring && loud ==> last == ActionV::Insert(CellV::Exec(seq![command]))
                && t.exploring is None && t.ran is None
            &&& !command.exploring && !loud ==> (t.ran matches Some(calls) && calls.last()
                == command) && t.exploring is None
            &&& command.exploring ==> (t.exploring matches Some(calls) && calls.last() == command)
                && t.ran is None
        }),
{
}

/// The cells that call for a divider do so whatever was there before.
pub open spec fn is_a_cell_of_its_own(msg: EventMsg) -> bool {
    ||| msg is Warning
    ||| msg is Error
    ||| msg is DeprecationNotice
    ||| msg is PlanUpdate
    ||| msg is ViewImageToolCall
    ||| msg is PotterRoundStarted
    ||| msg is PotterProjectStarted
    ||| tells_of_work(msg) && !(msg is ExecCommandEnd)
}

/// A message that follows such a cell and work comes behind a divider.
pub proof fn law_cells_call_for_a_divider(s: ProcState, msg: EventMsg, message: String)
    requires
        is_a_cell_of_its_own(msg),
        s.had_work || tells_of_work(msg),
        !s.step(msg).0.saw_agent_delta,
    ensures
        shows_divider(s.step(msg).0.step(EventMsg::AgentMessage { message }).1),
{
    let t = s.step(msg).0;
    assert(t.needs_separator);
    assert(t.had_work);
    law_divider_stands_in_front_of_its_message(t, message);
}

/// A divider tells the time since the divider before it: what the clock has gone on since
/// then, or all that it reads where there was none before or the clock has started anew. The
/// next one counts from what the clock reads now. Without a clock it tells no time.
pub proof fn law_divider_tells_the_time_since_the_last(s: ProcState, message: String)
    requires
        s.needs_separator && s.had_work,
        !s.saw_agent_delta,
        s.exploring is None && s.ran is None,
    ensures
        ({
            let (t, actions) = s.step(EventMsg::AgentMessage { message });
            &&& actions.len() == 2
            &&& s.current_secs is None ==> actions[0] == ActionV::Insert(CellV::Separator(None))
                && t.last_separator_secs == s.last_separator_secs
            &&& s.current_secs matches Some(now) ==> {
                &&& t.last_separator_secs == Some(now)
                &&& s.last_separator_secs is None ==> actions[0] == ActionV::Insert(
                    CellV::Separator(Some(now)),
                )
                &&& s.last_separator_secs matches Some(last) ==> actions[0] == ActionV::Insert(
                    CellV::Separator(
                        Some(
                            if now >= last {
                                (now - last) as u64
                            } else {
                                now
                            },
                        ),
                    ),
                )
            }
            &&& !t.needs_separator && !t.had_work
        }),
{
}

/// A command that does not wait is shown at once, behind the commands that do, and calls for
/// a divider.
pub proof fn law_loud_command_is_shown_at_once(s: ProcState, command: ExecCommandEndEvent)
    requires
        !command.exploring,
        command.exit_code != 0 || command.source == crate::protocol::ExecCommandSource::UserShell
            || command.source == crate::protocol::ExecCommandSource::UnifiedExecInteraction,
    ensures
        ({
            let (t, actions) = s.step(EventMsg::ExecCommandEnd { command });
            &&& actions.len() > 0
            &&& actions.last() == ActionV::Insert(CellV::Exec(seq![command]))
            &&& t.needs_separator && t.had_work
            &&& t.exploring is None && t.ran is None
        }),
{
}

/// A stream that broke off shows what is known and starts afresh: nothing counts as streamed,
/// no command waits, and the chunks and the animation of the text start anew.
pub proof fn law_broken_stream_starts_afresh(s: ProcState)
    ensures
        ({
            let (t, actions) = s.stream_broke();
            let n = actions.len() as int;
            &&& n >= 3
            &&& actions[n - 1] == ActionV::StopCommitAnimation
            &&& actions[n - 2] == ActionV::ResetChunking
            &&& actions.contains(ActionV::FinalizeAgentStream)
            &&& s.plan_open ==> actions.contains(ActionV::FinalizePlanStream)
            &&& !t.saw_agent_delta && !t.saw_plan_delta && !t.plan_open
            &&& t.needs_separator
            &&& t.exploring is None && t.ran is None
        }),
{
    let (t, actions) = s.stream_broke();
    let n = actions.len() as int;
    if s.plan_open {
        assert(actions[n - 4] == ActionV::FinalizeAgentStream);
        assert(actions[n - 3] == ActionV::FinalizePlanStream);
    } else {
        assert(actions[n - 3] == ActionV::FinalizeAgentStream);
    }
}

/// A divider stands in front of what is streamed first, agent text or plan, and not a second
/// time in front of the rest.
pub proof fn law_streams_share_a_divider(s: ProcState, delta: String)
    requires
        s.exploring is None && s.ran is None,
    ensures
        ({
            let agent = s.step(EventMsg::AgentMessageDelta { delta });
            let plan = s.step(EventMsg::PlanDelta { delta });
            let due = s.needs_separator && s.had_work;
            &&& agent.1.len() == if due && !s.saw_agent_delta {
                2int
            } else {
                1
            }
            &&& agent.0.saw_agent_delta
            &&& plan.1.len() == (if due && !s.saw_agent_delta && !s.saw_plan_delta {
                2int
            } else {
                1
            }) + (if s.plan_open {
                0int
            } else {
                1
            })
            &&& plan.0.saw_plan_delta && plan.0.plan_open
        }),
{
}

/// A new processor knows nothing but the working directory, and nothing waits.
pub proof fn law_new_processor_is_empty(cwd: Seq<char>)
    ensures
        ({
            let s = ProcState::initial(cwd);
            &&& s.cwd == cwd
            &&& s.thread_id is None && s.model_context_window is None
            &&& s.token_usage.total_tokens == 0 && s.context_usage.total_tokens == 0
            &&& !s.plan_open && !s.saw_agent_delta && !s.saw_plan_delta
            &&& !s.needs_separator && !s.had_work
            &&& s.exploring is None && s.ran is None && s.pending_summary is None
            &&& s.last_separator_secs is None
        }),
{
}

} // verus!
