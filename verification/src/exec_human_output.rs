//! Headless human-readable transcript rendering.
//!
//! The renderer is append-only: it follows the visibility policy of the
//! interactive verbosity modes, but it never rewrites what it has shown. Markdown,
//! diffs and the cells of other components are laid out around it; what they
//! come to is handed in with each event as an [`EventContext`].

use vstd::prelude::*;

use crate::history_cell::{
    error_lines, new_error_event, plan_update_lines, DeprecationNoticeCell, FinalMessageSeparator,
    HistoryCell, PlanUpdateCell,
};
use crate::potter_project_summary::{can_shorten, short_commit, short_git_commit};
use crate::protocol::{
    EventMsg, ExecCommandEndEvent, HookEventName, HookOutputEntry, HookOutputEntryKind,
    HookRunStatus, ProjectSummary, TokenUsage, TurnAbortReason, UpdatePlanArgs,
};
use crate::reasoning_status::{opt_text, ReasoningStatusTracker, TrackerState};
use crate::status_line::{elapsed_compact, fmt_elapsed_compact, render_status_line, StatusLine};
use crate::styled::{
    blank_line_v, dim_lines, dim_lines_v, duplicate_lines, lemma_spans_text, line_text, line_v,
    lines_view, span_v, spans_text, spans_view, text_line_v, Color, Line, LineV, Span, SpanV, Style,
};
use crate::text;
use crate::verbosity::Verbosity;

verus! {

/// The columns that output is laid out for where the width is not known.
pub const DEFAULT_RENDER_WIDTH: u16 = 120;

/// The nanoseconds of a second.
pub const NANOS_PER_SEC: u64 = 1_000_000_000;

/// Output blocks, each a sequence of lines.
pub type Blocks = Seq<Seq<LineV>>;

/// What `blocks` show.
pub open spec fn blocks_view(blocks: Seq<Vec<Line>>) -> Blocks {
    blocks.map_values(|b: Vec<Line>| lines_view(b@))
}

/// What stands around an event: the time, and the layouts that other components
/// have for it.
#[derive(Debug)]
pub struct EventContext {
    /// Nanoseconds on a monotonic clock.
    pub now: u64,
    /// How the agent text streamed so far is laid out.
    pub stream_lines: Vec<Line>,
    /// How the plan text streamed so far is laid out, if there is anything to show.
    pub plan_lines: Option<Vec<Line>>,
    /// How the cell or the message of the event is laid out.
    pub cell_lines: Vec<Line>,
    /// The path of the event, as it is shown to the user.
    pub display_path: String,
    /// The share of the context window that is left, in percent.
    pub context_percent: i64,
    /// The total of used tokens, in compact notation.
    pub used_tokens: String,
}

/// `line` with `from` at the start of its first span replaced by `to`.
///
/// The replacement and the rest of that span keep its style; either is left out
/// where it is empty. A line that does not start with `from` stays as it is.
pub open spec fn replaced_prefix(line: LineV, from: Seq<char>, to: Seq<char>) -> LineV {
    if line.spans.len() == 0 {
        line
    } else {
        let first = line.spans[0];
        match text::strip_prefix(first.content, from) {
            None => line,
            Some(rest) => {
                let head = if to.len() > 0 {
                    seq![span_v(to, first.style)]
                } else {
                    seq![]
                };
                let kept = if rest.len() > 0 {
                    seq![span_v(rest, first.style)]
                } else {
                    seq![]
                };
                LineV { style: line.style, spans: head + kept + line.spans.skip(1) }
            },
        }
    }
}

fn replace_prefix(line: Line, from: &str, to: &str) -> (r: Line)
    ensures
        r@ == replaced_prefix(line@, from@, to@),
{
    if line.spans.len() == 0 {
        return line;
    }
    let style = line.spans[0].style;
    let rest = match text::without_prefix(line.spans[0].content.as_str(), from) {
        None => {
            return line;
        },
        Some(rest) => rest.to_string(),
    };
    let mut spans: Vec<Span> = Vec::new();
    if !to.is_empty() {
        spans.push(Span::of(to, style));
    }
    if !rest.as_str().is_empty() {
        spans.push(Span::of(rest.as_str(), style));
    }
    let ghost head = spans_view(spans@);
    let ghost first = line@.spans[0];
    proof {
        let want = replaced_prefix(line@, from@, to@);
        assert(first.content == line.spans@[0].content@);
        assert(want.spans =~= head + line@.spans.skip(1));
    }
    let mut i: usize = 1;
    let ghost kept = spans@;
    assert(spans_view(spans@) =~= head + line@.spans.subrange(1, 1));
    while i < line.spans.len()
        invariant
            1 <= i <= line.spans@.len(),
            spans_view(spans@) == head + line@.spans.subrange(1, i as int),
        decreases line.spans@.len() - i,
    {
        let ghost before = spans@;
        spans.push(line.spans[i].duplicate());
        assert(spans_view(spans@) =~= spans_view(before).push(line@.spans[i as int]));
        assert(spans_view(spans@) =~= head + line@.spans.subrange(1, i + 1));
        i += 1;
    }
    assert(line@.spans.subrange(1, i as int) =~= line@.spans.skip(1));
    Line { style: line.style, spans }
}

/// `line` at position `index` of a block, without the transcript chrome: the
/// bullet goes, and behind the first line the branch and the deep indent become
/// an indent of two columns.
pub open spec fn normalized_line(index: int, line: LineV) -> LineV {
    let bare = replaced_prefix(line, "• "@, ""@);
    if index == 0 {
        bare
    } else {
        replaced_prefix(replaced_prefix(bare, "  └ "@, "  "@), "    "@, "  "@)
    }
}

/// `lines` without the transcript chrome.
pub open spec fn normalized(lines: Seq<LineV>) -> Seq<LineV> {
    lines.map(|i: int, l: LineV| normalized_line(i, l))
}

fn normalize_general_lines(lines: &Vec<Line>) -> (r: Vec<Line>)
    ensures
        lines_view(r@) == normalized(lines_view(lines@)),
{
    let mut out: Vec<Line> = Vec::new();
    let mut i: usize = 0;
    while i < lines.len()
        invariant
            i <= lines@.len(),
            out@.len() == i,
            forall|k: int|
                0 <= k < i ==> (#[trigger] out@[k])@ == normalized_line(k, lines@[k]@),
        decreases lines@.len() - i,
    {
        let bare = replace_prefix(lines[i].duplicate(), "• ", "");
        if i == 0 {
            out.push(bare);
        } else {
            out.push(replace_prefix(replace_prefix(bare, "  └ ", "  "), "    ", "  "));
        }
        i += 1;
    }
    assert(lines_view(out@) =~= normalized(lines_view(lines@)));
    out
}

/// `line` as a block of its own: without bullet, branch and deep indent.
pub open spec fn standalone_line(line: LineV) -> LineV {
    replaced_prefix(
        replaced_prefix(replaced_prefix(line, "• "@, ""@), "  └ "@, ""@),
        "    "@,
        ""@,
    )
}

fn normalize_standalone_line(line: Line) -> (r: Line)
    ensures
        r@ == standalone_line(line@),
{
    replace_prefix(replace_prefix(replace_prefix(line, "• ", ""), "  └ ", ""), "    ", "")
}

/// The name of a hook event.
pub open spec fn hook_label(event_name: HookEventName) -> Seq<char> {
    match event_name {
        HookEventName::SessionStart => "session-start"@,
        HookEventName::Stop => "stop"@,
    }
}

/// The name of a hook event.
pub fn hook_event_label(event_name: HookEventName) -> (r: &'static str)
    ensures
        r@ == hook_label(event_name),
{
    match event_name {
        HookEventName::SessionStart => "session-start",
        HookEventName::Stop => "stop",
    }
}

/// The name of a hook outcome.
pub open spec fn hook_status(status: HookRunStatus) -> Seq<char> {
    match status {
        HookRunStatus::Running => "running"@,
        HookRunStatus::Completed => "completed"@,
        HookRunStatus::Failed => "failed"@,
        HookRunStatus::Blocked => "blocked"@,
        HookRunStatus::Stopped => "stopped"@,
    }
}

fn hook_status_label(status: HookRunStatus) -> (r: &'static str)
    ensures
        r@ == hook_status(status),
{
    match status {
        HookRunStatus::Running => "running",
        HookRunStatus::Completed => "completed",
        HookRunStatus::Failed => "failed",
        HookRunStatus::Blocked => "blocked",
        HookRunStatus::Stopped => "stopped",
    }
}

/// What stands in front of a line of hook output.
pub open spec fn hook_entry_prefix(kind: HookOutputEntryKind) -> Seq<char> {
    match kind {
        HookOutputEntryKind::Warning => "warning: "@,
        HookOutputEntryKind::Stop => "stop: "@,
        HookOutputEntryKind::Feedback => "feedback: "@,
        HookOutputEntryKind::Context => "hook context: "@,
        HookOutputEntryKind::Error => "error: "@,
    }
}

fn hook_entry_label(kind: HookOutputEntryKind) -> (r: &'static str)
    ensures
        r@ == hook_entry_prefix(kind),
{
    match kind {
        HookOutputEntryKind::Warning => "warning: ",
        HookOutputEntryKind::Stop => "stop: ",
        HookOutputEntryKind::Feedback => "feedback: ",
        HookOutputEntryKind::Context => "hook context: ",
        HookOutputEntryKind::Error => "error: ",
    }
}

/// The block for a hook that starts.
pub open spec fn hook_started_lines(
    event_name: HookEventName,
    status_message: Option<String>,
) -> Seq<LineV> {
    let base = "Running "@ + hook_label(event_name) + " hook"@;
    seq![
        text_line_v(
            match status_message {
                Some(m) => if m@.len() > 0 {
                    base + ": "@ + m@
                } else {
                    base
                },
                None => base,
            },
        ),
    ]
}

fn render_hook_started(event_name: HookEventName, status_message: &Option<String>) -> (r: Vec<Line>)
    ensures
        lines_view(r@) == hook_started_lines(event_name, *status_message),
{
    let mut message = text::concat3("Running ", hook_event_label(event_name), " hook");
    if let Some(m) = status_message {
        if !m.as_str().is_empty() {
            message.append(": ");
            message.append(m.as_str());
        }
    }
    let lines = vec![Line::from_text(message.as_str())];
    assert(lines_view(lines@) =~= seq![lines@[0]@]);
    lines
}

/// The line for one line of hook output.
pub open spec fn hook_entry_line(entry: HookOutputEntry) -> LineV {
    text_line_v("  "@ + hook_entry_prefix(entry.kind) + entry.text@)
}

/// The block for a hook that has ended.
pub open spec fn hook_completed_lines(
    event_name: HookEventName,
    status: HookRunStatus,
    entries: Seq<HookOutputEntry>,
) -> Seq<LineV> {
    seq![text_line_v(hook_label(event_name) + " hook ("@ + hook_status(status) + ")"@)]
        + entries.map_values(|e: HookOutputEntry| hook_entry_line(e))
}

fn render_hook_completed(
    event_name: HookEventName,
    status: HookRunStatus,
    entries: &Vec<HookOutputEntry>,
) -> (r: Vec<Line>)
    ensures
        lines_view(r@) == hook_completed_lines(event_name, status, entries@),
{
    let mut header = text::concat3(
        hook_event_label(event_name),
        " hook (",
        hook_status_label(status),
    );
    header.append(")");
    let mut lines: Vec<Line> = Vec::new();
    lines.push(Line::from_text(header.as_str()));
    let mut i: usize = 0;
    while i < entries.len()
        invariant
            i <= entries@.len(),
            lines@.len() == i + 1,
            lines@[0]@ == hook_completed_lines(event_name, status, entries@)[0],
            forall|k: int| 1 <= k <= i ==> (#[trigger] lines@[k])@ == hook_entry_line(entries@[k - 1]),
        decreases entries@.len() - i,
    {
        let content = text::concat3(
            "  ",
            hook_entry_label(entries[i].kind),
            entries[i].text.as_str(),
        );
        lines.push(Line::from_text(content.as_str()));
        i += 1;
    }
    assert(lines_view(lines@) =~= hook_completed_lines(event_name, status, entries@));
    lines
}

/// The output of a command: what was collected while it ran, or else what it
/// wrote to its two streams.
pub open spec fn collected_output(command: ExecCommandEndEvent) -> Seq<char> {
    if command.aggregated_output@.len() > 0 {
        command.aggregated_output@
    } else {
        command.stdout@ + command.stderr@
    }
}

/// The output of a command, as its transcript cell shows it.
pub fn command_output(command: &ExecCommandEndEvent) -> (r: String)
    ensures
        r@ == collected_output(*command),
{
    if !command.aggregated_output.as_str().is_empty() {
        command.aggregated_output.clone()
    } else {
        text::concat(command.stdout.as_str(), command.stderr.as_str())
    }
}

/// A project summary that waits for the end of its round.
#[verifier::ext_equal]
pub struct SummaryV {
    pub budget_exhausted: bool,
    pub rounds: u32,
    pub duration_secs: u64,
    pub user_prompt_file: Seq<char>,
    pub git_commit_start: Seq<char>,
    pub git_commit_end: Seq<char>,
}

/// The summary of `project`.
pub open spec fn summary_of(project: ProjectSummary, budget_exhausted: bool) -> SummaryV {
    SummaryV {
        budget_exhausted,
        rounds: project.rounds,
        duration_secs: project.duration_secs,
        user_prompt_file: project.user_prompt_file@,
        git_commit_start: project.git_commit_start@,
        git_commit_end: project.git_commit_end@,
    }
}

/// The block that shows `summary`, its title in the color `accent`.
pub open spec fn summary_lines(summary: SummaryV, accent: Color) -> Seq<LineV> {
    let plain = Style::plain();
    let cyan = Style::plain().spec_fg(Color::Cyan);
    let title = seq![
        span_v("CodexPotter summary:"@, plain.spec_fg(accent).spec_bold()),
        span_v(" "@, plain),
        span_v(text::decimal(summary.rounds as nat) + " rounds"@, plain.spec_bold()),
        span_v(" in "@, plain),
        span_v(elapsed_compact(summary.duration_secs as nat), plain.spec_bold()),
    ] + if summary.budget_exhausted {
        seq![
            span_v(" "@, plain),
            span_v("(Budget exhausted)"@, plain.spec_fg(Color::Red)),
        ]
    } else {
        seq![]
    };
    let git = if summary.git_commit_start.len() == 0 && summary.git_commit_end.len() == 0 {
        seq![]
    } else {
        seq![
            line_v(
                seq![
                    span_v("  Git:               "@, plain),
                    span_v(short_commit(summary.git_commit_start), cyan),
                    span_v(" -> "@, plain),
                    span_v(short_commit(summary.git_commit_end), cyan),
                ],
            ),
        ]
    };
    let history = seq![
        line_v(
            seq![
                span_v("  Task history:      "@, plain),
                span_v(summary.user_prompt_file, cyan),
            ],
        ),
    ];
    seq![line_v(title), blank_line_v()] + git + history
}

#[derive(Debug)]
struct PendingProjectSummary {
    budget_exhausted: bool,
    rounds: u32,
    duration_secs: u64,
    user_prompt_file: String,
    git_commit_start: String,
    git_commit_end: String,
}

impl PendingProjectSummary {
    spec fn summary(&self) -> SummaryV {
        SummaryV {
            budget_exhausted: self.budget_exhausted,
            rounds: self.rounds,
            duration_secs: self.duration_secs,
            user_prompt_file: self.user_prompt_file@,
            git_commit_start: self.git_commit_start@,
            git_commit_end: self.git_commit_end@,
        }
    }

    fn of(project: &ProjectSummary, budget_exhausted: bool) -> (r: Self)
        ensures
            r.summary() == summary_of(*project, budget_exhausted),
    {
        PendingProjectSummary {
            budget_exhausted,
            rounds: project.rounds,
            duration_secs: project.duration_secs,
            user_prompt_file: project.user_prompt_file.clone(),
            git_commit_start: project.git_commit_start.clone(),
            git_commit_end: project.git_commit_end.clone(),
        }
    }

    fn render(&self, accent: Color) -> (r: Vec<Line>)
        requires
            can_shorten(self.git_commit_start@),
            can_shorten(self.git_commit_end@),
        ensures
            lines_view(r@) == summary_lines(self.summary(), accent),
    {
        let plain = Style::new();
        let cyan = Style::new().with_fg(Color::Cyan);
        let rounds = text::concat(text::decimal_string(self.rounds as u64).as_str(), " rounds");
        let mut title = vec![
            Span::of("CodexPotter summary:", plain.with_fg(accent).bold()),
            Span::plain(" "),
            Span::of(rounds.as_str(), plain.bold()),
            Span::plain(" in "),
            Span::of(fmt_elapsed_compact(self.duration_secs).as_str(), plain.bold()),
        ];
        if self.budget_exhausted {
            title.push(Span::plain(" "));
            title.push(Span::of("(Budget exhausted)", plain.with_fg(Color::Red)));
        }
        let ghost want = summary_lines(self.summary(), accent);
        let title = Line::from_spans(title);
        assert(title@.spans =~= want[0].spans);
        let mut lines = vec![title, Line::blank()];
        if !(self.git_commit_start.as_str().is_empty() && self.git_commit_end.as_str().is_empty()) {
            let git = vec![
                Span::plain("  Git:               "),
                Span::of(short_git_commit(self.git_commit_start.as_str()).as_str(), cyan),
                Span::plain(" -> "),
                Span::of(short_git_commit(self.git_commit_end.as_str()).as_str(), cyan),
            ];
            let git = Line::from_spans(git);
            assert(git@.spans =~= want[2].spans);
            lines.push(git);
        }
        let history = vec![
            Span::plain("  Task history:      "),
            Span::of(self.user_prompt_file.as_str(), cyan),
        ];
        let history = Line::from_spans(history);
        assert(history@.spans =~= want.last().spans);
        lines.push(history);
        assert(lines_view(lines@) =~= want);
        lines
    }
}

/// The state of an [`ExecHumanRenderer`].
#[verifier::ext_equal]
pub struct ExecState {
    pub cwd: Seq<char>,
    pub width: Option<u16>,
    pub color_enabled: bool,
    pub accent: Color,
    pub verbosity: Verbosity,
    /// The agent text streamed since the stream was last laid out.
    pub stream: Seq<char>,
    pub saw_agent_delta: bool,
    /// The plan text streamed so far, while a plan is being streamed.
    pub plan_stream: Option<Seq<char>>,
    /// The finished agent message that waits to be shown in the compact view.
    pub pending_message: Option<Seq<LineV>>,
    /// Whether the waiting message has been shown already.
    pub pending_message_visible: bool,
    pub pending_summary: Option<SummaryV>,
    pub pending_separator: bool,
    pub separator_baseline: Option<u64>,
    pub project_started_at: Option<u64>,
    pub status_started_at: Option<u64>,
    pub status_header_prefix: Option<Seq<char>>,
    pub token_usage: TokenUsage,
    pub context_usage: TokenUsage,
    pub model_context_window: Option<i64>,
    pub reasoning: TrackerState,
}

/// The seconds from `earlier` to `now`, none where `now` is not later.
pub open spec fn secs_between(earlier: u64, now: u64) -> u64 {
    if now > earlier {
        ((now - earlier) / NANOS_PER_SEC as int) as u64
    } else {
        0
    }
}

/// The nanoseconds from `earlier` to `now`, none where `now` is not later.
pub open spec fn nanos_between(earlier: u64, now: u64) -> nat {
    if now > earlier {
        (now - earlier) as nat
    } else {
        0
    }
}

/// An agent message as a block, dim where it is not the last word.
pub open spec fn message_block(lines: Seq<LineV>, dim: bool) -> Seq<LineV> {
    if dim {
        dim_lines_v(lines)
    } else {
        lines
    }
}

impl ExecState {
    /// The state before any event.
    pub open spec fn initial(
        verbosity: Verbosity,
        width: Option<u16>,
        color_enabled: bool,
        cwd: Seq<char>,
        accent: Color,
    ) -> ExecState {
        ExecState {
            cwd,
            width,
            color_enabled,
            accent,
            verbosity,
            stream: seq![],
            saw_agent_delta: false,
            plan_stream: None,
            pending_message: None,
            pending_message_visible: false,
            pending_summary: None,
            pending_separator: false,
            separator_baseline: None,
            project_started_at: None,
            status_started_at: None,
            status_header_prefix: None,
            token_usage: TokenUsage::zero(),
            context_usage: TokenUsage::zero(),
            model_context_window: None,
            reasoning: TrackerState::empty(),
        }
    }

    /// The commits of a waiting summary can be shortened.
    pub open spec fn wf(self) -> bool {
        self.pending_summary matches Some(s) ==> can_shorten(s.git_commit_start) && can_shorten(
            s.git_commit_end,
        )
    }

    /// The columns that cells are laid out for.
    pub open spec fn cell_width(self) -> u16 {
        match self.width {
            Some(w) => if w == 0 {
                1
            } else {
                w
            },
            None => DEFAULT_RENDER_WIDTH,
        }
    }

    /// The divider in front of a message that follows work, in the simple view.
    #[verifier::opaque]
    pub open spec fn separator(self, now: u64) -> (ExecState, Blocks) {
        if self.verbosity != Verbosity::Simple || !self.pending_separator {
            (self, seq![])
        } else {
            let elapsed = match self.separator_baseline {
                Some(baseline) => Some(secs_between(baseline, now)),
                None => None,
            };
            let cell = FinalMessageSeparator { elapsed_seconds: elapsed };
            (
                ExecState {
                    pending_separator: false,
                    separator_baseline: Some(now),
                    ..self
                },
                seq![normalized(cell.shown(self.cell_width()))],
            )
        }
    }

    /// Shows the agent text that has not been shown yet. In the compact view it
    /// is dim unless it is final, and nothing is shown twice.
    #[verifier::opaque]
    pub open spec fn flush_agent(self, final_message: bool, ctx: EventContext) -> (
        ExecState,
        Blocks,
    ) {
        let lines = lines_view(ctx.stream_lines@);
        let taken = ExecState { saw_agent_delta: false, stream: seq![], ..self };
        if self.verbosity == Verbosity::Minimal {
            if self.saw_agent_delta {
                (
                    taken,
                    if lines.len() > 0 {
                        seq![message_block(lines, !final_message)]
                    } else {
                        seq![]
                    },
                )
            } else {
                match self.pending_message {
                    Some(pending) => (
                        ExecState {
                            pending_message: None,
                            pending_message_visible: false,
                            ..self
                        },
                        if self.pending_message_visible {
                            seq![]
                        } else {
                            seq![message_block(pending, !final_message)]
                        },
                    ),
                    None => (self, seq![]),
                }
            }
        } else if self.saw_agent_delta {
            if lines.len() > 0 {
                let (after, divider) = taken.separator(ctx.now);
                (after, divider + seq![lines])
            } else {
                (taken, seq![])
            }
        } else {
            (self, seq![])
        }
    }

    /// Shows the plan that is being streamed; the compact view drops it.
    #[verifier::opaque]
    pub open spec fn flush_plan(self, ctx: EventContext) -> (ExecState, Blocks) {
        let closed = ExecState { plan_stream: None, ..self };
        if self.verbosity == Verbosity::Minimal || self.plan_stream is None {
            (closed, seq![])
        } else {
            match ctx.plan_lines {
                None => (closed, seq![]),
                Some(lines) => {
                    let (after, divider) = closed.separator(ctx.now);
                    (after, divider + seq![normalized(lines_view(lines@))])
                },
            }
        }
    }

    /// Shows all streamed text that has not been shown yet.
    #[verifier::opaque]
    pub open spec fn flush(self, final_message: bool, ctx: EventContext) -> (ExecState, Blocks) {
        let (s1, b1) = self.flush_agent(final_message, ctx);
        let (s2, b2) = s1.flush_plan(ctx);
        (s2, b1 + b2)
    }

    /// Notes that concrete work was done, which only matters in the simple view.
    #[verifier::opaque]
    pub open spec fn worked(self, now: u64) -> ExecState {
        if self.verbosity != Verbosity::Simple {
            self
        } else {
            ExecState {
                pending_separator: true,
                separator_baseline: match self.separator_baseline {
                    Some(b) => Some(b),
                    None => Some(now),
                },
                ..self
            }
        }
    }

    /// Shows `block` behind all streamed text; `work` where it reports work.
    #[verifier::opaque]
    pub open spec fn report(self, ctx: EventContext, block: Seq<LineV>, work: bool) -> (
        ExecState,
        Blocks,
    ) {
        let (s, b) = self.flush(false, ctx);
        (
            if work {
                s.worked(ctx.now)
            } else {
                s
            },
            b + seq![block],
        )
    }

    /// Shows the waiting project summary, if there is one.
    #[verifier::opaque]
    pub open spec fn summarize(self) -> (ExecState, Blocks) {
        match self.pending_summary {
            Some(summary) => (
                ExecState { pending_summary: None, ..self },
                seq![summary_lines(summary, self.accent)],
            ),
            None => (self, seq![]),
        }
    }

    /// Keeps the message `lines` back in the compact view. A message that waited
    /// before and was not shown yet is shown dim; an empty message changes nothing.
    #[verifier::opaque]
    pub open spec fn hold_message(self, lines: Seq<LineV>) -> (ExecState, Blocks) {
        if lines.len() == 0 {
            (self, seq![])
        } else {
            (
                ExecState {
                    pending_message: Some(lines),
                    pending_message_visible: false,
                    ..self
                },
                match self.pending_message {
                    Some(previous) => if self.pending_message_visible {
                        seq![]
                    } else {
                        seq![message_block(previous, true)]
                    },
                    None => seq![],
                },
            )
        }
    }

    /// Shows the finished agent message: what was streamed, or else the message
    /// of the event. The compact view keeps it back.
    #[verifier::opaque]
    pub open spec fn finish_message(self, ctx: EventContext) -> (ExecState, Blocks) {
        let taken = if self.saw_agent_delta {
            ExecState { saw_agent_delta: false, stream: seq![], ..self }
        } else {
            self
        };
        let lines = if self.saw_agent_delta {
            lines_view(ctx.stream_lines@)
        } else {
            lines_view(ctx.cell_lines@)
        };
        if self.verbosity == Verbosity::Minimal {
            taken.hold_message(lines)
        } else if lines.len() > 0 {
            let (after, divider) = taken.separator(ctx.now);
            (after, divider + seq![lines])
        } else {
            (taken, seq![])
        }
    }

    /// What the context indicator of a status hint shows.
    pub open spec fn context_display(self, ctx: EventContext) -> (Option<i64>, Option<Seq<char>>) {
        if self.model_context_window matches Some(w) && w > 0 {
            (Some(ctx.context_percent), None)
        } else {
            (
                None,
                if self.token_usage.total_tokens > 0 {
                    Some(ctx.used_tokens@)
                } else {
                    None
                },
            )
        }
    }

    /// The seconds that the header of a status hint shows.
    pub open spec fn status_elapsed(self, now: u64) -> u64 {
        match self.status_started_at {
            Some(started) => secs_between(started, now),
            None => 0,
        }
    }

    /// The seconds that the prefix of a status hint shows: those since the
    /// project started.
    pub open spec fn prefix_elapsed(self, now: u64) -> Option<u64> {
        match (self.project_started_at, self.status_started_at) {
            (Some(project), Some(status)) => {
                let sum = nanos_between(project, status) + nanos_between(status, now);
                Some(
                    ((if sum <= u64::MAX {
                        sum
                    } else {
                        u64::MAX as nat
                    }) / NANOS_PER_SEC as nat) as u64,
                )
            },
            (Some(project), None) => Some(secs_between(project, now)),
            (None, _) => None,
        }
    }

    /// The block of the status hint for `header`.
    pub open spec fn hint_block(self, header: Seq<char>, ctx: EventContext) -> Seq<LineV> {
        let prefix = match self.status_header_prefix {
            Some(p) => p + match self.prefix_elapsed(ctx.now) {
                Some(secs) => crate::status_line::elapsed_note(secs as nat),
                None => seq![],
            } + " · "@,
            None => seq![],
        };
        let shown = "• "@ + prefix + header + crate::status_line::elapsed_note(
            self.status_elapsed(ctx.now) as nat,
        ) + " · "@ + crate::bottom_pane::footer::context_window_label(
            self.context_display(ctx).0,
            self.context_display(ctx).1,
        );
        seq![line_v(seq![span_v(shown, Style::plain().spec_dim())])]
    }

    /// Reads reasoning text, and shows a hint where it names a new title.
    #[verifier::opaque]
    pub open spec fn reason(self, chunk: Seq<char>, ctx: EventContext) -> (ExecState, Blocks) {
        (
            ExecState { reasoning: self.reasoning.after(chunk), ..self },
            match self.reasoning.emitted(chunk) {
                Some(header) => seq![self.hint_block(header, ctx)],
                None => seq![],
            },
        )
    }

    /// The blocks for an applied patch: the whole diff in the simple view, one
    /// block for each file in the compact view.
    #[verifier::opaque]
    pub open spec fn patch_blocks(self, lines: Seq<LineV>) -> Blocks {
        if self.verbosity == Verbosity::Simple {
            seq![normalized(lines)]
        } else if lines.len() == 0 {
            seq![]
        } else if lines.len() == 1 {
            seq![normalized(lines)]
        } else {
            lines.skip(1).map_values(|l: LineV| seq![standalone_line(l)])
        }
    }

    /// Shows an applied patch behind all streamed text.
    #[verifier::opaque]
    pub open spec fn patch(self, ctx: EventContext) -> (ExecState, Blocks) {
        let (s, b) = self.flush(false, ctx);
        let blocks = s.patch_blocks(lines_view(ctx.cell_lines@));
        (
            if blocks.len() > 0 {
                s.worked(ctx.now)
            } else {
                s
            },
            b + blocks,
        )
    }

    /// The state after the event `msg` and the blocks that it shows.
    pub open spec fn step(self, msg: EventMsg, ctx: EventContext) -> (ExecState, Blocks) {
        let now = ctx.now;
        let none: Blocks = seq![];
        match msg {
            EventMsg::SessionConfigured { session_id, cwd } => (
                ExecState { cwd: cwd@, stream: seq![], ..self },
                none,
            ),
            EventMsg::TurnStarted { model_context_window } => (
                ExecState {
                    pending_separator: false,
                    separator_baseline: Some(now),
                    status_started_at: Some(now),
                    model_context_window,
                    reasoning: TrackerState::empty(),
                    ..self
                },
                none,
            ),
            EventMsg::PotterProjectStarted { user_message, user_prompt_file } => (
                ExecState {
                    project_started_at: match self.project_started_at {
                        Some(t) => Some(t),
                        None => Some(now),
                    },
                    ..self
                },
                seq![project_hint_lines(user_prompt_file@)],
            ),
            EventMsg::PotterRoundStarted { current, total } => (
                ExecState {
                    pending_separator: false,
                    separator_baseline: Some(now),
                    status_header_prefix: Some("Round "@ + round_text(current, total)),
                    ..self
                },
                seq![round_lines(current, total, self.accent)],
            ),
            EventMsg::TokenCount { info } => match info {
                Some(i) => (
                    ExecState {
                        token_usage: i.total_token_usage,
                        context_usage: i.last_token_usage,
                        model_context_window: match i.model_context_window {
                            Some(w) => Some(w),
                            None => self.model_context_window,
                        },
                        ..self
                    },
                    none,
                ),
                None => (self, none),
            },
            EventMsg::PotterProjectSucceeded { project } => (
                ExecState { pending_summary: Some(summary_of(project, false)), ..self },
                none,
            ),
            EventMsg::PotterProjectBudgetExhausted { project } => (
                ExecState { pending_summary: Some(summary_of(project, true)), ..self },
                none,
            ),
            EventMsg::PotterRoundFinished { outcome } => {
                let (s, b) = self.flush(false, ctx);
                let (s2, b2) = s.summarize();
                (s2, b + b2)
            },
            EventMsg::TurnComplete => {
                let (s, b) = self.flush(true, ctx);
                let (s2, b2) = s.summarize();
                (s2, b + b2)
            },
            EventMsg::TurnAborted { reason } => if reason == TurnAbortReason::Interrupted {
                self.report(
                    ctx,
                    normalized(
                        error_lines(
                            "Conversation interrupted - tell the model what to do differently."@,
                        ),
                    ),
                    false,
                )
            } else {
                self.flush(false, ctx)
            },
            EventMsg::AgentMessageDelta { delta } => {
                let (s, b) = if self.verbosity == Verbosity::Minimal && !self.saw_agent_delta {
                    self.flush_agent(false, ctx)
                } else {
                    (self, none)
                };
                (
                    ExecState {
                        saw_agent_delta: s.saw_agent_delta || delta@.len() > 0,
                        stream: s.stream + delta@,
                        ..s
                    },
                    b,
                )
            },
            EventMsg::AgentReasoningDelta { delta } => self.reason(delta@, ctx),
            EventMsg::AgentReasoningRawContentDelta { delta } => self.reason(delta@, ctx),
            EventMsg::AgentReasoningSectionBreak => (
                ExecState { reasoning: TrackerState::empty(), ..self },
                none,
            ),
            EventMsg::AgentReasoning { text } => {
                let (s, b) = self.reason(text@, ctx);
                (ExecState { reasoning: TrackerState::empty(), ..s }, b)
            },
            EventMsg::AgentReasoningRawContent { text } => {
                let (s, b) = self.reason(text@, ctx);
                (ExecState { reasoning: TrackerState::empty(), ..s }, b)
            },
            EventMsg::AgentMessage { message } => self.finish_message(ctx),
            EventMsg::PlanDelta { delta } => if self.verbosity == Verbosity::Minimal {
                (self, none)
            } else {
                (
                    ExecState {
                        plan_stream: Some(
                            match self.plan_stream {
                                Some(p) => p + delta@,
                                None => delta@,
                            },
                        ),
                        ..self
                    },
                    none,
                )
            },
            EventMsg::PlanUpdate { update } => if self.verbosity == Verbosity::Minimal {
                self.flush(false, ctx)
            } else {
                let cell = PlanUpdateCell { explanation: update.explanation, plan: update.plan };
                self.report(ctx, normalized(cell.shown(self.cell_width())), false)
            },
            EventMsg::ContextCompacted => self.report(
                ctx,
                seq![text_line_v("Context compacted"@)],
                false,
            ),
            EventMsg::Warning { message } => self.report(
                ctx,
                normalized(lines_view(ctx.cell_lines@)),
                false,
            ),
            EventMsg::Error { message } => self.report(
                ctx,
                normalized(error_lines(message@)),
                false,
            ),
            EventMsg::DeprecationNotice { summary, details } => {
                let cell = DeprecationNoticeCell { summary, details };
                self.report(ctx, normalized(cell.shown(self.cell_width())), false)
            },
            EventMsg::RequestPermissions => self.report(
                ctx,
                normalized(lines_view(ctx.cell_lines@)),
                true,
            ),
            EventMsg::RequestUserInput => self.report(
                ctx,
                normalized(lines_view(ctx.cell_lines@)),
                false,
            ),
            EventMsg::ElicitationRequest => self.report(
                ctx,
                normalized(lines_view(ctx.cell_lines@)),
                false,
            ),
            EventMsg::GuardianAssessment => self.report(
                ctx,
                normalized(lines_view(ctx.cell_lines@)),
                true,
            ),
            EventMsg::WebSearchEnd { query } => if self.verbosity == Verbosity::Minimal {
                (self, none)
            } else {
                self.report(ctx, search_lines(query@), true)
            },
            EventMsg::ViewImageToolCall { path } => if self.verbosity == Verbosity::Minimal {
                (self, none)
            } else {
                self.report(ctx, image_lines(ctx.display_path@), true)
            },
            EventMsg::ExecCommandEnd { command } => if self.verbosity == Verbosity::Minimal {
                (self, none)
            } else {
                self.report(ctx, normalized(lines_view(ctx.cell_lines@)), true)
            },
            EventMsg::PatchApplyEnd { success, stderr, changes } => if success {
                self.patch(ctx)
            } else {
                self.report(ctx, normalized(lines_view(ctx.cell_lines@)), true)
            },
            EventMsg::HookStarted { event_name, status_message } => self.report(
                ctx,
                hook_started_lines(event_name, status_message),
                true,
            ),
            EventMsg::HookCompleted { event_name, status, entries } => self.report(
                ctx,
                hook_completed_lines(event_name, status, entries@),
                true,
            ),
            EventMsg::CollabAgentSpawnEnd { cell }
            | EventMsg::CollabAgentInteractionEnd { cell }
            | EventMsg::CollabWaitingBegin { cell }
            | EventMsg::CollabWaitingEnd { cell }
            | EventMsg::CollabCloseEnd { cell }
            | EventMsg::CollabResumeBegin { cell }
            | EventMsg::CollabResumeEnd { cell } => self.report(
                ctx,
                normalized(lines_view(cell.lines@)),
                true,
            ),
            EventMsg::PotterStreamRecoveryUpdate { attempt, max_attempts, error_message } =>
            self.report(ctx, normalized(lines_view(ctx.cell_lines@)), false),
            EventMsg::PotterStreamRecoveryGaveUp { attempts, max_attempts, error_message } =>
            self.report(ctx, normalized(lines_view(ctx.cell_lines@)), false),
            EventMsg::PotterStreamRecoveryRecovered => (self, none),
            EventMsg::StreamError { message, additional_details } => (self, none),
            EventMsg::Other => (self, none),
        }
    }
}

/// The block for a project that was created.
pub open spec fn project_hint_lines(user_prompt_file: Seq<char>) -> Seq<LineV> {
    seq![
        line_v(
            seq![
                span_v("Project created: "@, Style::plain().spec_dim()),
                span_v(user_prompt_file, Style::plain()),
            ],
        ),
    ]
}

/// The number of a round, such as `1/10`.
pub open spec fn round_text(current: u32, total: u32) -> Seq<char> {
    text::decimal(current as nat) + "/"@ + text::decimal(total as nat)
}

/// The block for a round that starts, its title in the color `accent`.
pub open spec fn round_lines(current: u32, total: u32, accent: Color) -> Seq<LineV> {
    seq![
        line_v(
            seq![
                span_v("CodexPotter: "@, Style::plain().spec_fg(accent).spec_bold()),
                span_v("iteration round "@ + round_text(current, total), Style::plain()),
            ],
        ),
    ]
}

/// The block for a web search.
pub open spec fn search_lines(query: Seq<char>) -> Seq<LineV> {
    seq![
        line_v(seq![span_v("Searched"@, Style::plain().spec_bold())]),
        text_line_v("  "@ + query),
    ]
}

/// The block for an image that was viewed.
pub open spec fn image_lines(display_path: Seq<char>) -> Seq<LineV> {
    seq![
        line_v(seq![span_v("Viewed Image"@, Style::plain().spec_bold())]),
        line_v(
            seq![
                span_v("  "@, Style::plain()),
                span_v(display_path, Style::plain().spec_dim()),
            ],
        ),
    ]
}

/// Append-only human-readable renderer.
#[derive(Debug)]
pub struct ExecHumanRenderer {
    cwd: String,
    width: Option<u16>,
    color_enabled: bool,
    accent: Color,
    verbosity: Verbosity,
    stream: String,
    saw_agent_delta: bool,
    plan_stream: Option<String>,
    pending_minimal_agent_message_lines: Option<Vec<Line>>,
    pending_minimal_agent_message_visible: bool,
    pending_project_summary: Option<PendingProjectSummary>,
    pending_simple_final_message_separator: bool,
    separator_baseline: Option<u64>,
    project_started_at: Option<u64>,
    status_started_at: Option<u64>,
    status_header_prefix: Option<String>,
    token_usage: TokenUsage,
    context_usage: TokenUsage,
    model_context_window: Option<i64>,
    reasoning_status: ReasoningStatusTracker,
}

impl View for ExecHumanRenderer {
    type V = ExecState;

    closed spec fn view(&self) -> ExecState {
        ExecState {
            cwd: self.cwd@,
            width: self.width,
            color_enabled: self.color_enabled,
            accent: self.accent,
            verbosity: self.verbosity,
            stream: self.stream@,
            saw_agent_delta: self.saw_agent_delta,
            plan_stream: opt_text(self.plan_stream),
            pending_message: match self.pending_minimal_agent_message_lines {
                Some(lines) => Some(lines_view(lines@)),
                None => None,
            },
            pending_message_visible: self.pending_minimal_agent_message_visible,
            pending_summary: match self.pending_project_summary {
                Some(s) => Some(s.summary()),
                None => None,
            },
            pending_separator: self.pending_simple_final_message_separator,
            separator_baseline: self.separator_baseline,
            project_started_at: self.project_started_at,
            status_started_at: self.status_started_at,
            status_header_prefix: opt_text(self.status_header_prefix),
            token_usage: self.token_usage,
            context_usage: self.context_usage,
            model_context_window: self.model_context_window,
            reasoning: self.reasoning_status@,
        }
    }
}

fn push_block(out: &mut Vec<Vec<Line>>, block: Vec<Line>)
    ensures
        blocks_view(final(out)@) == blocks_view(old(out)@) + seq![lines_view(block@)],
{
    out.push(block);
    assert(blocks_view(out@) =~= blocks_view(old(out)@) + seq![lines_view(block@)]);
}

/// Whether the commits that `msg` names can be shortened.
pub open spec fn event_ok(msg: EventMsg) -> bool {
    match msg {
        EventMsg::PotterProjectSucceeded { project } => can_shorten(project.git_commit_start@)
            && can_shorten(project.git_commit_end@),
        EventMsg::PotterProjectBudgetExhausted { project } => can_shorten(
            project.git_commit_start@,
        ) && can_shorten(project.git_commit_end@),
        _ => true,
    }
}

impl ExecHumanRenderer {
    /// Create a renderer for the working directory `cwd`. Titles are shown in the
    /// color `accent`.
    pub fn new(
        verbosity: Verbosity,
        width: Option<u16>,
        color_enabled: bool,
        cwd: String,
        accent: Color,
    ) -> (r: Self)
        ensures
            r@ == ExecState::initial(verbosity, width, color_enabled, cwd@, accent),
            r@.wf(),
    {
        let r = ExecHumanRenderer {
            cwd,
            width,
            color_enabled,
            accent,
            verbosity,
            stream: String::new(),
            saw_agent_delta: false,
            plan_stream: None,
            pending_minimal_agent_message_lines: None,
            pending_minimal_agent_message_visible: false,
            pending_project_summary: None,
            pending_simple_final_message_separator: false,
            separator_baseline: None,
            project_started_at: None,
            status_started_at: None,
            status_header_prefix: None,
            token_usage: TokenUsage::none(),
            context_usage: TokenUsage::none(),
            model_context_window: None,
            reasoning_status: ReasoningStatusTracker::new(),
        };
        assert(r@ =~= ExecState::initial(verbosity, width, color_enabled, cwd@, accent));
        r
    }

    /// Provide the project start time used by status hints.
    pub fn set_project_started_at(&mut self, started_at: u64)
        ensures
            final(self)@ == (ExecState { project_started_at: Some(started_at), ..old(self)@ }),
    {
        self.project_started_at = Some(started_at);
    }

    /// The working directory of the session.
    pub fn cwd(&self) -> (r: &str)
        ensures
            r@ == self@.cwd,
    {
        self.cwd.as_str()
    }

    /// Whether output is colored.
    pub fn color_enabled(&self) -> (r: bool)
        ensures
            r == self@.color_enabled,
    {
        self.color_enabled
    }

    /// The agent text that is to be laid out for [`EventContext::stream_lines`].
    pub fn stream_text(&self) -> (r: &str)
        ensures
            r@ == self@.stream,
    {
        self.stream.as_str()
    }

    /// The plan text that is to be laid out for [`EventContext::plan_lines`].
    pub fn plan_text(&self) -> (r: Option<&str>)
        ensures
            crate::history_cell::opt_str(r) == self@.plan_stream,
    {
        match &self.plan_stream {
            Some(p) => Some(p.as_str()),
            None => None,
        }
    }

    /// The last reported usage and context window, from which
    /// [`EventContext::context_percent`] follows.
    pub fn context_usage(&self) -> (r: (TokenUsage, Option<i64>))
        ensures
            r.0 == self@.context_usage,
            r.1 == self@.model_context_window,
    {
        (self.context_usage, self.model_context_window)
    }

    /// The total of used tokens, from which [`EventContext::used_tokens`] follows.
    pub fn total_tokens(&self) -> (r: i64)
        ensures
            r == self@.token_usage.total_tokens,
    {
        self.token_usage.total_tokens
    }

    /// The columns that cells are laid out for.
    pub fn cell_width(&self) -> (r: u16)
        ensures
            r == self@.cell_width(),
    {
        match self.width {
            Some(w) => if w == 0 {
                1
            } else {
                w
            },
            None => DEFAULT_RENDER_WIDTH,
        }
    }

    /// Render a fatal error block.
    pub fn render_error_block(&self, message: &str) -> (r: Vec<Line>)
        ensures
            lines_view(r@) == normalized(error_lines(message@)),
    {
        normalize_general_lines(&new_error_event(message).lines)
    }

    /// Flush buffered transcript state before an abnormal exit.
    pub fn flush_for_exit(&mut self, ctx: &EventContext) -> (r: Vec<Vec<Line>>)
        requires
            old(self)@.wf(),
        ensures
            (final(self)@, blocks_view(r@)) == old(self)@.flush(false, *ctx),
            final(self)@.wf(),
    {
        let mut out: Vec<Vec<Line>> = Vec::new();
        assert(blocks_view(out@) =~= seq![]);
        self.flush(false, ctx, &mut out);
        assert(blocks_view(out@) =~= old(self)@.flush(false, *ctx).1);
        out
    }

    /// Return whether minimal-mode output still has a hidden completed agent message
    /// waiting for an idle flush.
    pub fn needs_idle_agent_message_flush(&self) -> (r: bool)
        ensures
            r == (self@.verbosity == Verbosity::Minimal && self@.pending_message is Some
                && !self@.pending_message_visible),
    {
        self.verbosity == Verbosity::Minimal && self.pending_minimal_agent_message_lines.is_some()
            && !self.pending_minimal_agent_message_visible
    }

    /// Render the hidden minimal-mode agent message as a dim block. It stays
    /// pending, but is not shown a second time.
    pub fn flush_idle_agent_message(&mut self) -> (r: Option<Vec<Line>>)
        requires
            old(self)@.wf(),
        ensures
            final(self)@.wf(),
            if old(self)@.verbosity == Verbosity::Minimal && old(self)@.pending_message is Some
                && !old(self)@.pending_message_visible {
                &&& r matches Some(lines)
                &&& lines_view(lines@) == dim_lines_v(old(self)@.pending_message->0)
                &&& final(self)@ == (ExecState { pending_message_visible: true, ..old(self)@ })
            } else {
                r is None && final(self)@ == old(self)@
            },
    {
        if !self.needs_idle_agent_message_flush() {
            return None;
        }
        let lines = match &self.pending_minimal_agent_message_lines {
            Some(lines) => duplicate_lines(lines),
            None => {
                return None;
            },
        };
        self.pending_minimal_agent_message_visible = true;
        Some(dim_lines(lines))
    }

    fn push_simple_final_message_separator(&mut self, now: u64, out: &mut Vec<Vec<Line>>)
        requires
            old(self)@.wf(),
        ensures
            final(self)@ == old(self)@.separator(now).0,
            blocks_view(final(out)@) == blocks_view(old(out)@) + old(self)@.separator(now).1,
            final(self)@.wf(),
    {
        proof {
            reveal(ExecState::separator);
        }
        if self.verbosity != Verbosity::Simple || !self.pending_simple_final_message_separator {
            assert(blocks_view(out@) =~= blocks_view(out@) + seq![]);
            return;
        }
        let elapsed_seconds: Option<u64> = match self.separator_baseline {
            Some(baseline) => Some(now.saturating_sub(baseline) / NANOS_PER_SEC),
            None => None,
        };
        self.pending_simple_final_message_separator = false;
        self.separator_baseline = Some(now);
        let cell = FinalMessageSeparator::new(elapsed_seconds);
        let lines = cell.display_lines(self.cell_width());
        push_block(out, normalize_general_lines(&lines));
    }

    fn flush_agent_output(&mut self, final_message: bool, ctx: &EventContext, out: &mut Vec<
        Vec<Line>,
    >)
        requires
            old(self)@.wf(),
        ensures
            final(self)@ == old(self)@.flush_agent(final_message, *ctx).0,
            blocks_view(final(out)@) == blocks_view(old(out)@) + old(self)@.flush_agent(
                final_message,
                *ctx,
            ).1,
            final(self)@.wf(),
    {
        proof {
            reveal(ExecState::flush_agent);
        }
        assert(blocks_view(out@) + seq![] =~= blocks_view(out@));
        if self.verbosity == Verbosity::Minimal {
            if self.saw_agent_delta {
                self.stream = String::new();
                self.saw_agent_delta = false;
                if ctx.stream_lines.len() > 0 {
                    let lines = duplicate_lines(&ctx.stream_lines);
                    if final_message {
                        push_block(out, lines);
                    } else {
                        push_block(out, dim_lines(lines));
                    }
                }
            } else if self.pending_minimal_agent_message_lines.is_some() {
                let pending = self.pending_minimal_agent_message_lines.take();
                let was_visible = self.pending_minimal_agent_message_visible;
                self.pending_minimal_agent_message_visible = false;
                if !was_visible {
                    if let Some(lines) = pending {
                        if final_message {
                            push_block(out, lines);
                        } else {
                            push_block(out, dim_lines(lines));
                        }
                    }
                }
            }
            return;
        }
        if self.saw_agent_delta {
            self.stream = String::new();
            self.saw_agent_delta = false;
            if ctx.stream_lines.len() > 0 {
                let ghost before = blocks_view(out@);
                let ghost divider = self@.separator(ctx.now).1;
                self.push_simple_final_message_separator(ctx.now, out);
                let lines = duplicate_lines(&ctx.stream_lines);
                push_block(out, lines);
                assert(before + divider + seq![lines_view(ctx.stream_lines@)] =~= before + (divider
                    + seq![lines_view(ctx.stream_lines@)]));
            }
        }
    }

    fn flush_plan_stream(&mut self, ctx: &EventContext, out: &mut Vec<Vec<Line>>)
        requires
            old(self)@.wf(),
        ensures
            final(self)@ == old(self)@.flush_plan(*ctx).0,
            blocks_view(final(out)@) == blocks_view(old(out)@) + old(self)@.flush_plan(*ctx).1,
            final(self)@.wf(),
    {
        proof {
            reveal(ExecState::flush_plan);
        }
        assert(blocks_view(out@) + seq![] =~= blocks_view(out@));
        let had_plan = self.plan_stream.is_some();
        self.plan_stream = None;
        if self.verbosity == Verbosity::Minimal || !had_plan {
            return;
        }
        if let Some(lines) = &ctx.plan_lines {
            let ghost before = blocks_view(out@);
            let ghost divider = self@.separator(ctx.now).1;
            self.push_simple_final_message_separator(ctx.now, out);
            push_block(out, normalize_general_lines(lines));
            assert(before + divider + seq![normalized(lines_view(lines@))] =~= before + (divider
                + seq![normalized(lines_view(lines@))]));
        }
    }

    fn flush(&mut self, final_message: bool, ctx: &EventContext, out: &mut Vec<Vec<Line>>)
        requires
            old(self)@.wf(),
        ensures
            final(self)@ == old(self)@.flush(final_message, *ctx).0,
            blocks_view(final(out)@) == blocks_view(old(out)@) + old(self)@.flush(
                final_message,
                *ctx,
            ).1,
            final(self)@.wf(),
    {
        proof {
            reveal(ExecState::flush);
        }
        let ghost before = blocks_view(out@);
        let ghost s1 = self@.flush_agent(final_message, *ctx);
        self.flush_agent_output(final_message, ctx, out);
        let ghost s2 = self@.flush_plan(*ctx);
        self.flush_plan_stream(ctx, out);
        assert(before + s1.1 + s2.1 =~= before + (s1.1 + s2.1));
    }

    fn mark_work_activity(&mut self, now: u64)
        requires
            old(self)@.wf(),
        ensures
            final(self)@ == old(self)@.worked(now),
            final(self)@.wf(),
    {
        proof {
            reveal(ExecState::worked);
        }
        if self.verbosity != Verbosity::Simple {
            return;
        }
        self.pending_simple_final_message_separator = true;
        if self.separator_baseline.is_none() {
            self.separator_baseline = Some(now);
        }
    }

    fn report(&mut self, ctx: &EventContext, block: Vec<Line>, work: bool, out: &mut Vec<Vec<Line>>)
        requires
            old(self)@.wf(),
        ensures
            final(self)@ == old(self)@.report(*ctx, lines_view(block@), work).0,
            blocks_view(final(out)@) == blocks_view(old(out)@) + old(self)@.report(
                *ctx,
                lines_view(block@),
                work,
            ).1,
            final(self)@.wf(),
    {
        proof {
            reveal(ExecState::report);
        }
        let ghost before = blocks_view(out@);
        let ghost s1 = self@.flush(false, *ctx);
        let ghost shown = lines_view(block@);
        self.flush(false, ctx, out);
        push_block(out, block);
        if work {
            self.mark_work_activity(ctx.now);
        }
        assert(before + s1.1 + seq![shown] =~= before + (s1.1 + seq![shown]));
    }

    fn report_summary(&mut self, out: &mut Vec<Vec<Line>>)
        requires
            old(self)@.wf(),
        ensures
            final(self)@ == old(self)@.summarize().0,
            blocks_view(final(out)@) == blocks_view(old(out)@) + old(self)@.summarize().1,
            final(self)@.wf(),
    {
        proof {
            reveal(ExecState::summarize);
        }
        let pending = self.pending_project_summary.take();
        if let Some(summary) = pending {
            push_block(out, summary.render(self.accent));
        } else {
            assert(blocks_view(out@) + seq![] =~= blocks_view(out@));
        }
    }

    fn store_pending_minimal_agent_message(&mut self, lines: Vec<Line>, out: &mut Vec<Vec<Line>>)
        requires
            old(self)@.wf(),
        ensures
            final(self)@ == old(self)@.hold_message(lines_view(lines@)).0,
            blocks_view(final(out)@) == blocks_view(old(out)@) + old(self)@.hold_message(
                lines_view(lines@),
            ).1,
            final(self)@.wf(),
    {
        proof {
            reveal(ExecState::hold_message);
        }
        assert(blocks_view(out@) + seq![] =~= blocks_view(out@));
        if lines.len() == 0 {
            return;
        }
        let previous = self.pending_minimal_agent_message_lines.take();
        self.pending_minimal_agent_message_lines = Some(lines);
        if let Some(previous) = previous {
            if !self.pending_minimal_agent_message_visible {
                push_block(out, dim_lines(previous));
            }
        }
        self.pending_minimal_agent_message_visible = false;
    }

    /// What the context indicator shows: the share of the window that is left
    /// where a window is known, else the tokens used where there are any.
    pub fn current_context_window_display(&self, ctx: &EventContext) -> (r: (
        Option<i64>,
        Option<String>,
    ))
        ensures
            r.0 == self@.context_display(*ctx).0,
            opt_text(r.1) == self@.context_display(*ctx).1,
    {
        if let Some(window) = self.model_context_window {
            if window > 0 {
                return (Some(ctx.context_percent), None);
            }
        }
        if self.token_usage.total_tokens > 0 {
            (None, Some(ctx.used_tokens.clone()))
        } else {
            (None, None)
        }
    }

    fn build_status_hint_lines(&self, header: String, ctx: &EventContext) -> (r: Vec<Line>)
        ensures
            lines_view(r@) == self@.hint_block(header@, *ctx),
    {
        let elapsed_nanos: u64 = match self.status_started_at {
            Some(started) => ctx.now.saturating_sub(started),
            None => 0,
        };
        let prefix_nanos: Option<u64> = match (self.project_started_at, self.status_started_at) {
            (Some(project), Some(status)) => {
                let lead: u64 = status.saturating_sub(project);
                Some(lead.saturating_add(elapsed_nanos))
            },
            (Some(project), None) => Some(ctx.now.saturating_sub(project)),
            (None, _) => None,
        };
        let (context_window_percent, context_window_used_tokens) =
            self.current_context_window_display(ctx);
        let status = StatusLine {
            header,
            header_prefix: match &self.status_header_prefix {
                Some(p) => Some(p.clone()),
                None => None,
            },
            header_prefix_elapsed: match prefix_nanos {
                Some(n) => Some(n / NANOS_PER_SEC),
                None => None,
            },
            elapsed: elapsed_nanos / NANOS_PER_SEC,
            context_window_percent,
            context_window_used_tokens,
        };
        assert(status.elapsed == self@.status_elapsed(ctx.now));
        assert(status.header_prefix_elapsed == self@.prefix_elapsed(ctx.now));
        let lines = vec![render_status_line(&status)];
        assert(lines_view(lines@) =~= seq![status.shown()]);
        lines
    }

    fn maybe_render_reasoning_status_hint(
        &mut self,
        chunk: &str,
        ctx: &EventContext,
        out: &mut Vec<Vec<Line>>,
    )
        requires
            old(self)@.wf(),
        ensures
            final(self)@ == old(self)@.reason(chunk@, *ctx).0,
            blocks_view(final(out)@) == blocks_view(old(out)@) + old(self)@.reason(chunk@, *ctx).1,
            final(self)@.wf(),
    {
        proof {
            reveal(ExecState::reason);
        }
        match self.reasoning_status.on_delta(chunk) {
            Some(header) => {
                let block = self.build_status_hint_lines(header, ctx);
                push_block(out, block);
            },
            None => {
                assert(blocks_view(out@) + seq![] =~= blocks_view(out@));
            },
        }
    }

    fn render_patch_blocks(&self, lines: &Vec<Line>) -> (r: Vec<Vec<Line>>)
        ensures
            blocks_view(r@) == self@.patch_blocks(lines_view(lines@)),
    {
        proof {
            reveal(ExecState::patch_blocks);
        }
        let mut out: Vec<Vec<Line>> = Vec::new();
        let ghost source = lines_view(lines@);
        assert(blocks_view(out@) =~= seq![]);
        if self.verbosity == Verbosity::Simple || lines.len() == 1 {
            push_block(&mut out, normalize_general_lines(lines));
            assert(blocks_view(out@) =~= seq![normalized(source)]);
            return out;
        }
        if lines.len() == 0 {
            return out;
        }
        let mut i: usize = 1;
        while i < lines.len()
            invariant
                1 <= i <= lines@.len(),
                source == lines_view(lines@),
                out@.len() == i - 1,
                forall|k: int|
                    0 <= k < i - 1 ==> lines_view((#[trigger] out@[k])@) == seq![
                        standalone_line(source[k + 1]),
                    ],
            decreases lines@.len() - i,
        {
            let block = vec![normalize_standalone_line(lines[i].duplicate())];
            assert(lines_view(block@) =~= seq![standalone_line(source[i as int])]);
            out.push(block);
            i += 1;
        }
        assert(blocks_view(out@) =~= self@.patch_blocks(source));
        out
    }
}

fn render_project_hint_block(user_prompt_file: &str) -> (r: Vec<Line>)
    ensures
        lines_view(r@) == project_hint_lines(user_prompt_file@),
{
    let spans = vec![
        Span::of("Project created: ", Style::new().dim()),
        Span::plain(user_prompt_file),
    ];
    let line = Line::from_spans(spans);
    assert(line@.spans =~= project_hint_lines(user_prompt_file@)[0].spans);
    let lines = vec![line];
    assert(lines_view(lines@) =~= seq![line@]);
    lines
}

fn render_round_text(current: u32, total: u32) -> (r: String)
    ensures
        r@ == round_text(current, total),
{
    text::concat3(
        text::decimal_string(current as u64).as_str(),
        "/",
        text::decimal_string(total as u64).as_str(),
    )
}

fn render_round_block(current: u32, total: u32, accent: Color) -> (r: Vec<Line>)
    ensures
        lines_view(r@) == round_lines(current, total, accent),
{
    let round = text::concat("iteration round ", render_round_text(current, total).as_str());
    let spans = vec![
        Span::of("CodexPotter: ", Style::new().with_fg(accent).bold()),
        Span::plain(round.as_str()),
    ];
    let line = Line::from_spans(spans);
    assert(line@.spans =~= round_lines(current, total, accent)[0].spans);
    let lines = vec![line];
    assert(lines_view(lines@) =~= seq![line@]);
    lines
}

fn render_search_block(query: &str) -> (r: Vec<Line>)
    ensures
        lines_view(r@) == search_lines(query@),
{
    let lines = vec![
        Line::from_styled("Searched", Style::new().bold()),
        Line::from_text(text::concat("  ", query).as_str()),
    ];
    assert(lines_view(lines@) =~= search_lines(query@));
    lines
}

fn render_image_block(display_path: &str) -> (r: Vec<Line>)
    ensures
        lines_view(r@) == image_lines(display_path@),
{
    let spans = vec![Span::plain("  "), Span::of(display_path, Style::new().dim())];
    let second = Line::from_spans(spans);
    assert(second@.spans =~= image_lines(display_path@)[1].spans);
    let lines = vec![Line::from_styled("Viewed Image", Style::new().bold()), second];
    assert(lines_view(lines@) =~= image_lines(display_path@));
    lines
}

fn render_text_block(content: &str) -> (r: Vec<Line>)
    ensures
        lines_view(r@) == seq![text_line_v(content@)],
{
    let lines = vec![Line::from_text(content)];
    assert(lines_view(lines@) =~= seq![lines@[0]@]);
    lines
}

/// The lines that the plan `update` shows, without transcript chrome.
fn render_plan_update(update: &UpdatePlanArgs, width: u16) -> (r: Vec<Line>)
    ensures
        lines_view(r@) == normalized(
            (PlanUpdateCell { explanation: update.explanation, plan: update.plan }).shown(width),
        ),
{
    let lines = plan_update_lines(update, width);
    normalize_general_lines(&lines)
}

impl ExecHumanRenderer {
    /// Render one protocol event into zero or more append-only output blocks.
    #[verifier::rlimit(60)]
    #[verifier::spinoff_prover]
    pub fn handle_event(&mut self, msg: &EventMsg, ctx: &EventContext) -> (r: Vec<Vec<Line>>)
        requires
            old(self)@.wf(),
            event_ok(*msg),
        ensures
            final(self)@ == old(self)@.step(*msg, *ctx).0,
            blocks_view(r@) == old(self)@.step(*msg, *ctx).1,
            final(self)@.wf(),
    {
        let mut out: Vec<Vec<Line>> = Vec::new();
        let ghost start = self@;
        assert(blocks_view(out@) =~= seq![]);
        match msg {
            EventMsg::SessionConfigured { session_id: _, cwd } => {
                self.cwd = cwd.clone();
                self.stream = String::new();
            },
            EventMsg::TurnStarted { model_context_window } => {
                self.pending_simple_final_message_separator = false;
                self.separator_baseline = Some(ctx.now);
                self.status_started_at = Some(ctx.now);
                self.model_context_window = *model_context_window;
                self.reasoning_status.reset();
            },
            EventMsg::PotterProjectStarted { user_message: _, user_prompt_file } => {
                if self.project_started_at.is_none() {
                    self.project_started_at = Some(ctx.now);
                }
                out.push(render_project_hint_block(user_prompt_file.as_str()));
                assert(blocks_view(out@) =~= seq![lines_view(out@[0]@)]);
            },
            EventMsg::PotterRoundStarted { current, total } => {
                self.pending_simple_final_message_separator = false;
                self.separator_baseline = Some(ctx.now);
                self.status_header_prefix =
                    Some(text::concat("Round ", render_round_text(*current, *total).as_str()));
                out.push(render_round_block(*current, *total, self.accent));
                assert(blocks_view(out@) =~= seq![lines_view(out@[0]@)]);
            },
            EventMsg::TokenCount { info } => {
                if let Some(i) = info {
                    self.token_usage = i.total_token_usage;
                    self.context_usage = i.last_token_usage;
                    if i.model_context_window.is_some() {
                        self.model_context_window = i.model_context_window;
                    }
                }
            },
            EventMsg::PotterProjectSucceeded { project } => {
                self.pending_project_summary = Some(PendingProjectSummary::of(project, false));
            },
            EventMsg::PotterProjectBudgetExhausted { project } => {
                self.pending_project_summary = Some(PendingProjectSummary::of(project, true));
            },
            EventMsg::PotterRoundFinished { outcome: _ } => {
                out = self.finish(false, ctx);
            },
            EventMsg::TurnComplete => {
                out = self.finish(true, ctx);
            },
            EventMsg::TurnAborted { reason } => {
                if *reason == TurnAbortReason::Interrupted {
                    let block = self.render_error_block(
                        "Conversation interrupted - tell the model what to do differently.",
                    );
                    out = self.reported(ctx, block, false);
                } else {
                    out = self.flush_for_exit(ctx);
                }
            },
            EventMsg::AgentMessageDelta { delta } => {
                if self.verbosity == Verbosity::Minimal && !self.saw_agent_delta {
                    self.flush_agent_output(false, ctx, &mut out);
                    assert(blocks_view(out@) =~= start.flush_agent(false, *ctx).1);
                }
                self.saw_agent_delta = self.saw_agent_delta || !delta.as_str().is_empty();
                self.stream.append(delta.as_str());
            },
            EventMsg::AgentReasoningDelta { delta } => {
                out = self.reasoned(delta.as_str(), ctx);
            },
            EventMsg::AgentReasoningRawContentDelta { delta } => {
                out = self.reasoned(delta.as_str(), ctx);
            },
            EventMsg::AgentReasoningSectionBreak => {
                self.reasoning_status.on_section_break();
            },
            EventMsg::AgentReasoning { text } => {
                out = self.reasoned(text.as_str(), ctx);
                self.reasoning_status.on_final();
            },
            EventMsg::AgentReasoningRawContent { text } => {
                out = self.reasoned(text.as_str(), ctx);
                self.reasoning_status.on_final();
            },
            EventMsg::AgentMessage { message: _ } => {
                out = self.handle_agent_message(ctx);
            },
            EventMsg::PlanDelta { delta } => {
                if self.verbosity != Verbosity::Minimal {
                    let mut plan = match self.plan_stream.take() {
                        Some(p) => p,
                        None => String::new(),
                    };
                    plan.append(delta.as_str());
                    assert(Seq::<char>::empty() + delta@ =~= delta@);
                    self.plan_stream = Some(plan);
                }
            },
            EventMsg::PlanUpdate { update } => {
                if self.verbosity == Verbosity::Minimal {
                    out = self.flush_for_exit(ctx);
                } else {
                    let block = render_plan_update(update, self.cell_width());
                    out = self.reported(ctx, block, false);
                }
            },
            EventMsg::ContextCompacted => {
                out = self.reported(ctx, render_text_block("Context compacted"), false);
            },
            EventMsg::Warning { message: _ } => {
                out = self.reported(ctx, normalize_general_lines(&ctx.cell_lines), false);
            },
            EventMsg::Error { message } => {
                let block = self.render_error_block(message.as_str());
                out = self.reported(ctx, block, false);
            },
            EventMsg::DeprecationNotice { summary, details } => {
                let cell = DeprecationNoticeCell {
                    summary: summary.clone(),
                    details: match details {
                        Some(d) => Some(d.clone()),
                        None => None,
                    },
                };
                let lines = cell.display_lines(self.cell_width());
                out = self.reported(ctx, normalize_general_lines(&lines), false);
            },
            EventMsg::RequestPermissions => {
                out = self.reported(ctx, normalize_general_lines(&ctx.cell_lines), true);
            },
            EventMsg::RequestUserInput => {
                out = self.reported(ctx, normalize_general_lines(&ctx.cell_lines), false);
            },
            EventMsg::ElicitationRequest => {
                out = self.reported(ctx, normalize_general_lines(&ctx.cell_lines), false);
            },
            EventMsg::GuardianAssessment => {
                out = self.reported(ctx, normalize_general_lines(&ctx.cell_lines), true);
            },
            EventMsg::WebSearchEnd { query } => {
                if self.verbosity != Verbosity::Minimal {
                    out = self.reported(ctx, render_search_block(query.as_str()), true);
                }
            },
            EventMsg::ViewImageToolCall { path: _ } => {
                if self.verbosity == Verbosity::Simple {
                    out = self.reported(
                        ctx,
                        render_image_block(ctx.display_path.as_str()),
                        true);
                }
            },
            EventMsg::ExecCommandEnd { command: _ } => {
                if self.verbosity != Verbosity::Minimal {
                    out = self.reported(ctx, normalize_general_lines(&ctx.cell_lines), true);
                }
            },
            EventMsg::PatchApplyEnd { success, stderr: _, changes: _ } => {
                if *success {
                    out = self.patched(ctx);
                } else {
                    out = self.reported(ctx, normalize_general_lines(&ctx.cell_lines), true);
                }
            },
            EventMsg::HookStarted { event_name, status_message } => {
                out = self.reported(
                    ctx,
                    render_hook_started(*event_name, status_message),
                    true);
            },
            EventMsg::HookCompleted { event_name, status, entries } => {
                out = self.reported(
                    ctx,
                    render_hook_completed(*event_name, *status, entries),
                    true);
            },
            EventMsg::CollabAgentSpawnEnd { cell }
            | EventMsg::CollabAgentInteractionEnd { cell }
            | EventMsg::CollabWaitingBegin { cell }
            | EventMsg::CollabWaitingEnd { cell }
            | EventMsg::CollabCloseEnd { cell }
            | EventMsg::CollabResumeBegin { cell }
            | EventMsg::CollabResumeEnd { cell } => {
                out = self.reported(ctx, normalize_general_lines(&cell.lines), true);
            },
            EventMsg::PotterStreamRecoveryUpdate { .. } => {
                out = self.reported(ctx, normalize_general_lines(&ctx.cell_lines), false);
            },
            EventMsg::PotterStreamRecoveryGaveUp { .. } => {
                out = self.reported(ctx, normalize_general_lines(&ctx.cell_lines), false);
            },
            EventMsg::PotterStreamRecoveryRecovered
            | EventMsg::StreamError { .. }
            | EventMsg::Other => {},
        }
        out
    }

    fn handle_agent_message(&mut self, ctx: &EventContext) -> (r: Vec<Vec<Line>>)
        requires
            old(self)@.wf(),
        ensures
            final(self)@ == old(self)@.finish_message(*ctx).0,
            blocks_view(r@) == old(self)@.finish_message(*ctx).1,
            final(self)@.wf(),
    {
        proof {
            reveal(ExecState::finish_message);
        }
        let mut out: Vec<Vec<Line>> = Vec::new();
        let lines = if self.saw_agent_delta {
            self.stream = String::new();
            self.saw_agent_delta = false;
            duplicate_lines(&ctx.stream_lines)
        } else {
            duplicate_lines(&ctx.cell_lines)
        };
        assert(blocks_view(out@) =~= seq![]);
        if self.verbosity == Verbosity::Minimal {
            let ghost held = self@.hold_message(lines_view(lines@)).1;
            self.store_pending_minimal_agent_message(lines, &mut out);
            assert(seq![] + held =~= held);
        } else if lines.len() > 0 {
            let ghost divider = self@.separator(ctx.now).1;
            let ghost shown = lines_view(lines@);
            self.push_simple_final_message_separator(ctx.now, &mut out);
            push_block(&mut out, lines);
            assert(seq![] + divider + seq![shown] =~= divider + seq![shown]);
        }
        out
    }

    fn reported(&mut self, ctx: &EventContext, block: Vec<Line>, work: bool) -> (r: Vec<Vec<Line>>)
        requires
            old(self)@.wf(),
        ensures
            final(self)@ == old(self)@.report(*ctx, lines_view(block@), work).0,
            blocks_view(r@) == old(self)@.report(*ctx, lines_view(block@), work).1,
            final(self)@.wf(),
    {
        let ghost shown = old(self)@.report(*ctx, lines_view(block@), work).1;
        let mut out: Vec<Vec<Line>> = Vec::new();
        assert(blocks_view(out@) =~= seq![]);
        self.report(ctx, block, work, &mut out);
        assert(blocks_view(out@) =~= shown);
        out
    }

    fn finish(&mut self, final_message: bool, ctx: &EventContext) -> (r: Vec<Vec<Line>>)
        requires
            old(self)@.wf(),
        ensures
            final(self)@ == old(self)@.flush(final_message, *ctx).0.summarize().0,
            blocks_view(r@) == old(self)@.flush(final_message, *ctx).1 + old(self)@.flush(
                final_message,
                *ctx,
            ).0.summarize().1,
            final(self)@.wf(),
    {
        let mut out: Vec<Vec<Line>> = Vec::new();
        assert(blocks_view(out@) =~= seq![]);
        self.flush(final_message, ctx, &mut out);
        assert(blocks_view(out@) =~= old(self)@.flush(final_message, *ctx).1);
        self.report_summary(&mut out);
        out
    }

    fn reasoned(&mut self, chunk: &str, ctx: &EventContext) -> (r: Vec<Vec<Line>>)
        requires
            old(self)@.wf(),
        ensures
            final(self)@ == old(self)@.reason(chunk@, *ctx).0,
            blocks_view(r@) == old(self)@.reason(chunk@, *ctx).1,
            final(self)@.wf(),
    {
        let mut out: Vec<Vec<Line>> = Vec::new();
        assert(blocks_view(out@) =~= seq![]);
        self.maybe_render_reasoning_status_hint(chunk, ctx, &mut out);
        assert(blocks_view(out@) =~= old(self)@.reason(chunk@, *ctx).1);
        out
    }

    fn patched(&mut self, ctx: &EventContext) -> (r: Vec<Vec<Line>>)
        requires
            old(self)@.wf(),
        ensures
            final(self)@ == old(self)@.patch(*ctx).0,
            blocks_view(r@) == old(self)@.patch(*ctx).1,
            final(self)@.wf(),
    {
        proof {
            reveal(ExecState::patch);
        }
        let mut out = self.flush_for_exit(ctx);
        let mut blocks = self.render_patch_blocks(&ctx.cell_lines);
        let ghost shown = blocks@;
        let ghost before = out@;
        let work = blocks.len() > 0;
        out.append(&mut blocks);
        assert(blocks_view(out@) =~= blocks_view(before) + blocks_view(shown));
        if work {
            self.mark_work_activity(ctx.now);
        }
        out
    }
}

/// What holds of every state that events lead to: a divider only waits in the
/// simple view, and knows since when; a message is only held back in the compact view, and never
/// while newer agent text is being streamed.
pub open spec fn is_reachable_shape(s: ExecState) -> bool {
    &&& s.pending_separator ==> s.verbosity == Verbosity::Simple && s.separator_baseline is Some
    &&& s.pending_message is Some ==> s.verbosity == Verbosity::Minimal && !s.saw_agent_delta
    &&& s.pending_message_visible ==> s.pending_message is Some
}

proof fn lemma_flush_keeps(s: ExecState, final_message: bool, ctx: EventContext)
    ensures
        ({
            let t = s.flush(final_message, ctx).0;
            &&& is_reachable_shape(s) ==> is_reachable_shape(t)
            &&& same_settings(s, t)
            &&& t.pending_summary == s.pending_summary
            &&& !t.saw_agent_delta
            &&& t.plan_stream is None
            &&& is_reachable_shape(s) ==> t.pending_message is None
            &&& t.reasoning == s.reasoning
        }),
{
    reveal(ExecState::flush);
    reveal(ExecState::flush_agent);
    reveal(ExecState::flush_plan);
    reveal(ExecState::separator);
}

/// Whether `t` has the settings of `s`.
pub open spec fn same_settings(s: ExecState, t: ExecState) -> bool {
    &&& t.verbosity == s.verbosity
    &&& t.width == s.width
    &&& t.color_enabled == s.color_enabled
    &&& t.accent == s.accent
}

/// No event changes the settings of the renderer.
pub proof fn law_settings_never_change(s: ExecState, msg: EventMsg, ctx: EventContext)
    ensures
        same_settings(s, s.step(msg, ctx).0),
{
    lemma_flush_keeps(s, true, ctx);
    lemma_flush_keeps(s, false, ctx);
    assert forall|block: Seq<LineV>, work: bool|
        same_settings(s, (#[trigger] s.report(ctx, block, work)).0) by {
        reveal(ExecState::report);
        reveal(ExecState::worked);
    }
    assert forall|chunk: Seq<char>| same_settings(s, (#[trigger] s.reason(chunk, ctx)).0) by {
        reveal(ExecState::reason);
    }
    assert(same_settings(s, s.flush(true, ctx).0.summarize().0)) by {
        reveal(ExecState::summarize);
    }
    assert(same_settings(s, s.flush(false, ctx).0.summarize().0)) by {
        reveal(ExecState::summarize);
    }
    assert(same_settings(s, s.patch(ctx).0)) by {
        reveal(ExecState::patch);
        reveal(ExecState::worked);
    }
    assert(same_settings(s, s.flush_agent(false, ctx).0)) by {
        reveal(ExecState::flush_agent);
        reveal(ExecState::separator);
    }
    assert(same_settings(s, s.finish_message(ctx).0)) by {
        reveal(ExecState::finish_message);
        reveal(ExecState::hold_message);
        reveal(ExecState::separator);
    }
}

/// Every event keeps the shape that the initial state has.
pub proof fn law_events_keep_the_shape(s: ExecState, msg: EventMsg, ctx: EventContext)
    requires
        is_reachable_shape(s),
    ensures
        is_reachable_shape(s.step(msg, ctx).0),
{
    lemma_flush_keeps(s, true, ctx);
    lemma_flush_keeps(s, false, ctx);
    assert forall|block: Seq<LineV>, work: bool| is_reachable_shape((#[trigger] s.report(ctx, block, work)).0) by {
        reveal(ExecState::report);
        reveal(ExecState::worked);
    }
    reveal(ExecState::summarize);
    assert(is_reachable_shape(s.patch(ctx).0)) by {
        reveal(ExecState::patch);
        reveal(ExecState::worked);
    }
    reveal(ExecState::reason);
    assert(({
        let t = s.flush_agent(false, ctx).0;
        is_reachable_shape(t) && (s.verbosity == Verbosity::Minimal ==> t.pending_message is None)
    })) by {
        reveal(ExecState::flush_agent);
        reveal(ExecState::separator);
    }
    assert(is_reachable_shape(s.finish_message(ctx).0)) by {
        reveal(ExecState::finish_message);
        reveal(ExecState::hold_message);
        reveal(ExecState::separator);
    }
}

/// At the end of a round nothing is left to be shown: no agent text, no plan, no
/// message held back and no summary.
pub proof fn law_round_end_shows_everything(
    s: ExecState,
    outcome: crate::protocol::PotterRoundOutcome,
    ctx: EventContext,
)
    requires
        is_reachable_shape(s),
    ensures
        ({
            let t = s.step(EventMsg::PotterRoundFinished { outcome }, ctx).0;
            &&& !t.saw_agent_delta
            &&& t.plan_stream is None
            &&& t.pending_message is None
            &&& t.pending_summary is None
        }),
        s.pending_summary matches Some(summary) ==> ({
            let blocks = s.step(EventMsg::PotterRoundFinished { outcome }, ctx).1;
            blocks.len() > 0 && blocks.last() == summary_lines(summary, s.accent)
        }),
{
    lemma_flush_keeps(s, false, ctx);
    reveal(ExecState::summarize);
}

/// The compact view shows nothing for searches, images and commands, and they
/// change nothing.
pub proof fn law_compact_view_hides_tools(
    s: ExecState,
    query: String,
    path: String,
    command: ExecCommandEndEvent,
    ctx: EventContext,
)
    requires
        s.verbosity == Verbosity::Minimal,
    ensures
        s.step(EventMsg::WebSearchEnd { query }, ctx) == (s, Seq::<Seq<LineV>>::empty()),
        s.step(EventMsg::ViewImageToolCall { path }, ctx) == (s, Seq::<Seq<LineV>>::empty()),
        s.step(EventMsg::ExecCommandEnd { command }, ctx) == (s, Seq::<Seq<LineV>>::empty()),
{
}

/// A message held back in the compact view is shown in full when the turn is
/// complete, unless it was shown before; either way it is shown once.
pub proof fn law_held_message_is_shown_once(s: ExecState, ctx: EventContext)
    requires
        is_reachable_shape(s),
        s.pending_message is Some,
        s.pending_summary is None,
    ensures
        s.step(EventMsg::TurnComplete, ctx).1 == if s.pending_message_visible {
            Seq::<Seq<LineV>>::empty()
        } else {
            seq![s.pending_message->0]
        },
        s.step(EventMsg::TurnComplete, ctx).0.pending_message is None,
{
    reveal(ExecState::flush);
    reveal(ExecState::flush_agent);
    reveal(ExecState::flush_plan);
    reveal(ExecState::summarize);
    assert(s.step(EventMsg::TurnComplete, ctx).1 =~= if s.pending_message_visible {
        Seq::<Seq<LineV>>::empty()
    } else {
        seq![s.pending_message->0]
    });
}

/// In the simple view a divider stands in front of the first message behind
/// concrete work, and in front of no other message.
pub proof fn law_divider_stands_behind_work(s: ExecState, message: String, ctx: EventContext)
    requires
        s.verbosity == Verbosity::Simple,
        !s.saw_agent_delta,
        ctx.cell_lines@.len() > 0,
    ensures
        ({
            let (t, blocks) = s.step(EventMsg::AgentMessage { message }, ctx);
            &&& blocks.len() == if s.pending_separator {
                2int
            } else {
                1
            }
            &&& blocks.last() == lines_view(ctx.cell_lines@)
            &&& !t.pending_separator
        }),
{
    reveal(ExecState::finish_message);
    reveal(ExecState::separator);
}

/// Whether `msg` starts a turn or a round.
pub open spec fn starts_work_anew(msg: EventMsg) -> bool {
    msg is TurnStarted || msg is PotterRoundStarted
}

/// Whether `msg` reports work that the simple view shows: a command, a search, an
/// image, a patch, a hook, another agent, or a request for permission.
pub open spec fn reports_work(msg: EventMsg) -> bool {
    match msg {
        EventMsg::RequestPermissions
        | EventMsg::GuardianAssessment
        | EventMsg::WebSearchEnd { .. }
        | EventMsg::ViewImageToolCall { .. }
        | EventMsg::ExecCommandEnd { .. }
        | EventMsg::PatchApplyEnd { .. }
        | EventMsg::HookStarted { .. }
        | EventMsg::HookCompleted { .. }
        | EventMsg::CollabAgentSpawnEnd { .. }
        | EventMsg::CollabAgentInteractionEnd { .. }
        | EventMsg::CollabWaitingBegin { .. }
        | EventMsg::CollabWaitingEnd { .. }
        | EventMsg::CollabCloseEnd { .. }
        | EventMsg::CollabResumeBegin { .. }
        | EventMsg::CollabResumeEnd { .. } => true,
        _ => false,
    }
}

/// Whether `msg` shows streamed text before anything of its own.
pub open spec fn shows_streams(msg: EventMsg) -> bool {
    match msg {
        EventMsg::PotterRoundFinished { .. }
        | EventMsg::TurnComplete
        | EventMsg::TurnAborted { .. }
        | EventMsg::PlanUpdate { .. }
        | EventMsg::ContextCompacted
        | EventMsg::Warning { .. }
        | EventMsg::Error { .. }
        | EventMsg::DeprecationNotice { .. }
        | EventMsg::RequestUserInput
        | EventMsg::ElicitationRequest
        | EventMsg::PotterStreamRecoveryUpdate { .. }
        | EventMsg::PotterStreamRecoveryGaveUp { .. } => true,
        _ => reports_work(msg),
    }
}

/// Whether the simple view shows agent text or a plan at `msg`.
pub open spec fn shows_words(s: ExecState, msg: EventMsg, ctx: EventContext) -> bool {
    if msg is AgentMessage {
        if s.saw_agent_delta {
            ctx.stream_lines@.len() > 0
        } else {
            ctx.cell_lines@.len() > 0
        }
    } else {
        shows_streams(msg) && (s.saw_agent_delta && ctx.stream_lines@.len() > 0 || s.plan_stream
            is Some && ctx.plan_lines is Some)
    }
}

/// Whether the simple view shows a divider at `msg`: it waits, and there are words
/// to put it in front of.
pub open spec fn shows_divider(s: ExecState, msg: EventMsg, ctx: EventContext) -> bool {
    s.pending_separator && shows_words(s, msg, ctx)
}

/// The divider that the simple view shows.
pub open spec fn divider_block(s: ExecState, now: u64) -> Seq<LineV> {
    let elapsed = match s.separator_baseline {
        Some(baseline) => Some(secs_between(baseline, now)),
        None => None,
    };
    normalized((FinalMessageSeparator { elapsed_seconds: elapsed }).shown(s.cell_width()))
}

/// The events of a session, each with what came with it.
pub type History = Seq<(EventMsg, EventContext)>;

/// The state after the events of `history`, beginning with `s`.
pub open spec fn after_events(s: ExecState, history: History) -> ExecState
    decreases history.len(),
{
    if history.len() == 0 {
        s
    } else {
        after_events(s, history.drop_last()).step(history.last().0, history.last().1).0
    }
}

/// Whether the event `i` of `history` ends the work before it: it starts a turn or
/// a round, or a divider is shown at it.
pub open spec fn ends_work(s: ExecState, history: History, i: int) -> bool {
    starts_work_anew(history[i].0) || shows_divider(
        after_events(s, history.take(i)),
        history[i].0,
        history[i].1,
    )
}

/// Whether work was reported in `history` since the latest start of a turn or a
/// round and the latest divider.
pub open spec fn worked_since(s: ExecState, history: History) -> bool {
    exists|i: int|
        0 <= i < history.len() && reports_work((#[trigger] history[i]).0) && forall|j: int|
            i < j < history.len() ==> !(#[trigger] ends_work(s, history, j))
}

proof fn lemma_flush_words(s: ExecState, final_message: bool, ctx: EventContext)
    requires
        s.verbosity == Verbosity::Simple,
    ensures
        s.flush(final_message, ctx).0.pending_separator == (s.pending_separator && !(
        s.saw_agent_delta && ctx.stream_lines@.len() > 0 || s.plan_stream is Some && ctx.plan_lines
            is Some)),
        s.flush(final_message, ctx).0.verbosity == Verbosity::Simple,
{
    reveal(ExecState::flush);
    reveal(ExecState::flush_agent);
    reveal(ExecState::flush_plan);
    reveal(ExecState::separator);
    assert(lines_view(ctx.stream_lines@).len() == ctx.stream_lines@.len());
}

proof fn lemma_report_words(s: ExecState, ctx: EventContext, block: Seq<LineV>, work: bool)
    requires
        s.verbosity == Verbosity::Simple,
    ensures
        s.report(ctx, block, work).0.pending_separator == (work || s.flush(
            false,
            ctx,
        ).0.pending_separator),
{
    lemma_flush_words(s, false, ctx);
    reveal(ExecState::report);
    reveal(ExecState::worked);
}

proof fn lemma_step_words(s: ExecState, msg: EventMsg, ctx: EventContext)
    requires
        s.verbosity == Verbosity::Simple,
    ensures
        s.step(msg, ctx).0.pending_separator == if starts_work_anew(msg) {
            false
        } else if reports_work(msg) {
            true
        } else {
            s.pending_separator && !shows_words(s, msg, ctx)
        },
{
    lemma_flush_words(s, true, ctx);
    lemma_flush_words(s, false, ctx);
    assert forall|block: Seq<LineV>, work: bool|
        (#[trigger] s.report(ctx, block, work)).0.pending_separator == (work || s.flush(
            false,
            ctx,
        ).0.pending_separator) by {
        lemma_report_words(s, ctx, block, work);
    }
    assert(s.flush(true, ctx).0.summarize().0.pending_separator == s.flush(
        true,
        ctx,
    ).0.pending_separator) by {
        reveal(ExecState::summarize);
    }
    assert(s.flush(false, ctx).0.summarize().0.pending_separator == s.flush(
        false,
        ctx,
    ).0.pending_separator) by {
        reveal(ExecState::summarize);
    }
    assert(s.patch(ctx).0.pending_separator) by {
        reveal(ExecState::patch);
        reveal(ExecState::patch_blocks);
        reveal(ExecState::worked);
    }
    assert forall|chunk: Seq<char>|
        (#[trigger] s.reason(chunk, ctx)).0.pending_separator == s.pending_separator by {
        reveal(ExecState::reason);
    }
    assert(s.finish_message(ctx).0.pending_separator == (s.pending_separator && !(if s.saw_agent_delta {
        ctx.stream_lines@.len() > 0
    } else {
        ctx.cell_lines@.len() > 0
    }))) by {
        reveal(ExecState::finish_message);
        reveal(ExecState::separator);
        assert(lines_view(ctx.stream_lines@).len() == ctx.stream_lines@.len());
        assert(lines_view(ctx.cell_lines@).len() == ctx.cell_lines@.len());
    }
}

proof fn lemma_verbosity_stays(s: ExecState, history: History)
    ensures
        after_events(s, history).verbosity == s.verbosity,
    decreases history.len(),
{
    if history.len() > 0 {
        lemma_verbosity_stays(s, history.drop_last());
        law_settings_never_change(
            after_events(s, history.drop_last()),
            history.last().0,
            history.last().1,
        );
    }
}

proof fn lemma_shape_stays(s: ExecState, history: History)
    requires
        is_reachable_shape(s),
    ensures
        is_reachable_shape(after_events(s, history)),
    decreases history.len(),
{
    if history.len() > 0 {
        lemma_shape_stays(s, history.drop_last());
        law_events_keep_the_shape(
            after_events(s, history.drop_last()),
            history.last().0,
            history.last().1,
        );
    }
}

/// In the simple view a divider waits exactly where work was reported since the
/// latest start of a turn or a round and the latest divider, whatever happened
/// before.
pub proof fn law_divider_waits_behind_work(s: ExecState, history: History)
    requires
        s.verbosity == Verbosity::Simple,
        !s.pending_separator,
    ensures
        after_events(s, history).pending_separator == worked_since(s, history),
    decreases history.len(),
{
    if history.len() > 0 {
        let before = history.drop_last();
        let last = history.len() - 1;
        let t = after_events(s, before);
        let (msg, ctx) = history.last();
        law_divider_waits_behind_work(s, before);
        lemma_verbosity_stays(s, before);
        lemma_step_words(t, msg, ctx);
        assert forall|j: int| 0 <= j < last implies #[trigger] ends_work(s, history, j)
            == ends_work(s, before, j) by {
            assert(history.take(j) =~= before.take(j));
        }
        assert(history.take(last) =~= before);
        assert(ends_work(s, history, last) == (starts_work_anew(msg) || shows_divider(
            t,
            msg,
            ctx,
        )));
        if reports_work(msg) {
            assert(reports_work(history[last].0));
            assert(worked_since(s, history));
        } else {
            if worked_since(s, before) && !ends_work(s, history, last) {
                let i = choose|i: int|
                    0 <= i < before.len() && reports_work((#[trigger] before[i]).0) && forall|j: int|
                        i < j < before.len() ==> !(#[trigger] ends_work(s, before, j));
                assert(reports_work(history[i].0));
                assert forall|j: int| i < j < history.len() implies !(#[trigger] ends_work(
                    s,
                    history,
                    j,
                )) by {
                    if j < last {
                        assert(!ends_work(s, before, j));
                    }
                }
            }
            if worked_since(s, history) {
                let i = choose|i: int|
                    0 <= i < history.len() && reports_work((#[trigger] history[i]).0)
                        && forall|j: int|
                        i < j < history.len() ==> !(#[trigger] ends_work(s, history, j));
                assert(i != last);
                assert(!ends_work(s, history, last));
                assert(reports_work(before[i].0));
                assert forall|j: int| i < j < before.len() implies !(#[trigger] ends_work(
                    s,
                    before,
                    j,
                )) by {
                    assert(!ends_work(s, history, j));
                }
                assert(worked_since(s, before));
            }
        }
    }
}

/// In the simple view a message that is not streamed comes behind a divider where
/// work was reported since the latest start of a turn or a round and the latest
/// divider, and stands alone otherwise, whatever happened before.
pub proof fn law_message_follows_its_history(
    s: ExecState,
    history: History,
    message: String,
    ctx: EventContext,
)
    requires
        is_reachable_shape(s),
        s.verbosity == Verbosity::Simple,
        !s.pending_separator,
        !after_events(s, history).saw_agent_delta,
        ctx.cell_lines@.len() > 0,
    ensures
        ({
            let t = after_events(s, history);
            t.step(EventMsg::AgentMessage { message }, ctx).1 == if worked_since(s, history) {
                seq![divider_block(t, ctx.now), lines_view(ctx.cell_lines@)]
            } else {
                seq![lines_view(ctx.cell_lines@)]
            }
        }),
        worked_since(s, history) ==> after_events(s, history).separator_baseline is Some,
{
    let t = after_events(s, history);
    lemma_shape_stays(s, history);
    law_divider_waits_behind_work(s, history);
    lemma_verbosity_stays(s, history);
    reveal(ExecState::finish_message);
    reveal(ExecState::separator);
    assert(lines_view(ctx.cell_lines@).len() == ctx.cell_lines@.len());
    let shown = t.step(EventMsg::AgentMessage { message }, ctx).1;
    if worked_since(s, history) {
        assert(shown =~= seq![divider_block(t, ctx.now), lines_view(ctx.cell_lines@)]);
    } else {
        assert(shown =~= seq![lines_view(ctx.cell_lines@)]);
    }
}

/// Whether `line` has a span that says `words` and nothing else.
pub open spec fn says(line: LineV, words: Seq<char>) -> bool {
    exists|i: int| 0 <= i < line.spans.len() && (#[trigger] line.spans[i]).content == words
}

/// What `end` shows last, where it comes behind `report`.
pub open spec fn summary_shown(
    s: ExecState,
    report: EventMsg,
    ctx: EventContext,
    end: EventMsg,
    later: EventContext,
) -> Seq<LineV> {
    s.step(report, ctx).0.step(end, later).1.last()
}

/// The end of a project is told at the end of its round or its turn, in a block of
/// its own behind everything else, and never before. The title of the block says
/// that the budget is exhausted where the project has ended for that reason, and
/// only there; it gives the number of rounds and the time they took. The last line
/// gives the file of the task, and a line in front of it the two commits, unless
/// both are empty.
pub proof fn law_summary_tells_how_the_project_ended(
    s: ExecState,
    project: ProjectSummary,
    ctx: EventContext,
    end: EventMsg,
    later: EventContext,
)
    requires
        end is PotterRoundFinished || end is TurnComplete,
    ensures
        ({
            let succeeded = EventMsg::PotterProjectSucceeded { project };
            let exhausted = EventMsg::PotterProjectBudgetExhausted { project };
            &&& s.step(succeeded, ctx).1.len() == 0
            &&& s.step(exhausted, ctx).1.len() == 0
            &&& s.step(succeeded, ctx).0.step(end, later).1.len() > 0
            &&& s.step(exhausted, ctx).0.step(end, later).1.len() > 0
            &&& !says(summary_shown(s, succeeded, ctx, end, later)[0], "(Budget exhausted)"@)
            &&& says(summary_shown(s, exhausted, ctx, end, later)[0], "(Budget exhausted)"@)
        }),
        forall|report: EventMsg|
            (report == EventMsg::PotterProjectSucceeded { project } || report
                == EventMsg::PotterProjectBudgetExhausted { project }) ==> {
                let block = #[trigger] summary_shown(s, report, ctx, end, later);
                &&& says(block[0], text::decimal(project.rounds as nat) + " rounds"@)
                &&& says(block[0], elapsed_compact(project.duration_secs as nat))
                &&& block.last().spans.last().content == project.user_prompt_file@
                &&& block.len() == if project.git_commit_start@.len() == 0
                    && project.git_commit_end@.len() == 0 {
                    3int
                } else {
                    4
                }
                &&& block.len() == 4 ==> block[2].spans.len() == 4
                    && block[2].spans[1].content == short_commit(project.git_commit_start@)
                    && block[2].spans[3].content == short_commit(project.git_commit_end@)
            },
{
    let succeeded = EventMsg::PotterProjectSucceeded { project };
    let exhausted = EventMsg::PotterProjectBudgetExhausted { project };
    lemma_summary_follows(s, project, false, ctx, end, later);
    lemma_summary_follows(s, project, true, ctx, end, later);
    lemma_summary_block(project, false, s.accent);
    lemma_summary_block(project, true, s.accent);
    assert(summary_shown(s, succeeded, ctx, end, later) == summary_lines(
        summary_of(project, false),
        s.accent,
    ));
    assert(summary_shown(s, exhausted, ctx, end, later) == summary_lines(
        summary_of(project, true),
        s.accent,
    ));
}

#[verifier::spinoff_prover]
proof fn lemma_summary_follows(
    s: ExecState,
    project: ProjectSummary,
    spent: bool,
    ctx: EventContext,
    end: EventMsg,
    later: EventContext,
)
    requires
        end is PotterRoundFinished || end is TurnComplete,
    ensures
        ({
            let report = if spent {
                EventMsg::PotterProjectBudgetExhausted { project }
            } else {
                EventMsg::PotterProjectSucceeded { project }
            };
            let (t, told) = s.step(report, ctx);
            let blocks = t.step(end, later).1;
            &&& told.len() == 0
            &&& blocks.len() > 0
            &&& blocks.last() == summary_lines(summary_of(project, spent), s.accent)
        }),
{
    let t = ExecState { pending_summary: Some(summary_of(project, spent)), ..s };
    lemma_flush_keeps(t, end is TurnComplete, later);
    reveal(ExecState::summarize);
}

#[verifier::spinoff_prover]
proof fn lemma_summary_block(project: ProjectSummary, spent: bool, accent: Color)
    ensures
        ({
            let block = summary_lines(summary_of(project, spent), accent);
            &&& says(block[0], "(Budget exhausted)"@) == spent
            &&& says(block[0], text::decimal(project.rounds as nat) + " rounds"@)
            &&& says(block[0], elapsed_compact(project.duration_secs as nat))
            &&& block.last().spans.last().content == project.user_prompt_file@
            &&& block.len() == if project.git_commit_start@.len() == 0
                && project.git_commit_end@.len() == 0 {
                3int
            } else {
                4
            }
            &&& block.len() == 4 ==> block[2].spans.len() == 4 && block[2].spans[1].content
                == short_commit(project.git_commit_start@) && block[2].spans[3].content
                == short_commit(project.git_commit_end@)
        }),
{
    reveal_strlit("CodexPotter summary:");
    reveal_strlit("(Budget exhausted)");
    reveal_strlit(" rounds");
    reveal_strlit(" in ");
    reveal_strlit(" ");
    crate::status_line::law_elapsed_adds_up(project.duration_secs as nat);
    let block = summary_lines(summary_of(project, spent), accent);
    let title = block[0].spans;
    let mark = "(Budget exhausted)"@;
    assert(title.len() == if spent {
        7int
    } else {
        5
    });
    assert(title[0].content == "CodexPotter summary:"@ && title[0].content.last() == ':');
    assert(title[1].content == " "@ && title[1].content.len() == 1);
    assert(title[2].content == text::decimal(project.rounds as nat) + " rounds"@);
    assert(title[2].content.last() == 's');
    assert(title[3].content == " in "@ && title[3].content.len() == 4);
    assert(title[4].content == elapsed_compact(project.duration_secs as nat));
    assert(mark.last() == ')' && mark.len() == 18);
    if spent {
        assert(title[6].content == mark);
    } else {
        assert forall|i: int| 0 <= i < title.len() implies (#[trigger] title[i]).content != mark by {
            assert(i == 0 || i == 1 || i == 2 || i == 3 || i == 4);
        }
    }
}

/// Whether `c` belongs to the frame that the transcript puts round its lines.
pub open spec fn is_frame(c: char) -> bool {
    c == '•' || c == '└' || c == ' '
}

/// Whether `shown` is `text` with nothing lost but the frame at its start, which at
/// most an indent of two columns replaces.
pub open spec fn loses_only_its_frame(text: Seq<char>, shown: Seq<char>) -> bool {
    exists|frame: Seq<char>, indent: Seq<char>, rest: Seq<char>|
        #![trigger frame + rest, indent + rest]
        {
            &&& text == frame + rest
            &&& shown == indent + rest
            &&& forall|i: int| 0 <= i < frame.len() ==> is_frame(#[trigger] frame[i])
            &&& indent.len() <= 2
            &&& forall|i: int| 0 <= i < indent.len() ==> #[trigger] indent[i] == ' '
        }
}

proof fn lemma_replaced_text(line: LineV, from: Seq<char>, to: Seq<char>)
    ensures
        ({
            let r = replaced_prefix(line, from, to);
            if line.spans.len() > 0 && text::occurs_at(line.spans[0].content, from, 0) {
                exists|rest: Seq<char>|
                    line_text(line) == #[trigger] (from + rest) && line_text(r) == to + rest
            } else {
                r == line
            }
        }),
{
    if line.spans.len() > 0 && text::occurs_at(line.spans[0].content, from, 0) {
        let first = line.spans[0];
        let rest = first.content.skip(from.len() as int);
        let tail = line.spans.skip(1);
        let head = if to.len() > 0 {
            seq![span_v(to, first.style)]
        } else {
            seq![]
        };
        let kept = if rest.len() > 0 {
            seq![span_v(rest, first.style)]
        } else {
            seq![]
        };
        let r = replaced_prefix(line, from, to);
        assert(r.spans == head + kept + tail);
        lemma_spans_text(head + kept, tail);
        lemma_spans_text(head, kept);
        assert(spans_text(head) =~= to) by {
            if to.len() > 0 {
                lemma_one_span(span_v(to, first.style));
            }
        }
        assert(spans_text(kept) =~= rest) by {
            if rest.len() > 0 {
                lemma_one_span(span_v(rest, first.style));
            }
        }
        lemma_spans_text(seq![first], tail);
        lemma_one_span(first);
        assert(line.spans =~= seq![first] + tail);
        assert(first.content =~= from + rest) by {
            assert(first.content.subrange(0, from.len() as int) == from);
        }
        let whole = rest + spans_text(tail);
        assert(line_text(line) =~= from + whole);
        assert(line_text(r) =~= to + whole);
    }
}

proof fn lemma_one_span(span: SpanV)
    ensures
        spans_text(seq![span]) == span.content,
{
    assert(seq![span].drop_last() =~= seq![]);
    assert(spans_text(Seq::<SpanV>::empty()) =~= seq![]);
    assert(spans_text(seq![span]) =~= span.content);
}

/// A block shows a cell of the transcript without the frame round its lines, and
/// nothing else of their text is lost: every line of the cell is a line of the
/// block. A line without a frame stays as it is.
pub proof fn law_block_loses_only_the_frame(lines: Seq<LineV>, i: int)
    requires
        0 <= i < lines.len(),
    ensures
        normalized(lines).len() == lines.len(),
        normalized(lines)[i].style == lines[i].style,
        loses_only_its_frame(line_text(lines[i]), line_text(normalized(lines)[i])),
        lines[i].spans.len() == 0 || lines[i].spans[0].content.len() == 0 || !is_frame(
            lines[i].spans[0].content[0],
        ) ==> normalized(lines)[i] == lines[i],
{
    reveal_strlit("• ");
    reveal_strlit("");
    reveal_strlit("  └ ");
    reveal_strlit("  ");
    reveal_strlit("    ");
    let line = lines[i];
    let bare = replaced_prefix(line, "• "@, ""@);
    lemma_replaced_text(line, "• "@, ""@);
    lemma_replaced_text(bare, "  └ "@, "  "@);
    let flat = replaced_prefix(bare, "  └ "@, "  "@);
    lemma_replaced_text(flat, "    "@, "  "@);
    let shown = normalized(lines)[i];
    if line.spans.len() > 0 && line.spans[0].content.len() > 0 && !is_frame(
        line.spans[0].content[0],
    ) {
        let first = line.spans[0].content;
        lemma_other_start(first, "• "@);
        lemma_other_start(first, "  └ "@);
        lemma_other_start(first, "    "@);
    }
    if line.spans.len() > 0 && line.spans[0].content.len() == 0 {
        assert(!text::occurs_at(line.spans[0].content, "• "@, 0));
        assert(!text::occurs_at(line.spans[0].content, "  └ "@, 0));
        assert(!text::occurs_at(line.spans[0].content, "    "@, 0));
    }
    let t = line_text(line);
    let none = Seq::<char>::empty();
    assert(t =~= none + t);
    assert(loses_only_its_frame(t, t));
    let tb = line_text(bare);
    assert(tb == t || t == "• "@ + tb) by {
        if bare != line {
            let rest = choose|rest: Seq<char>| t == #[trigger] ("• "@ + rest) && tb == ""@ + rest;
            assert(tb =~= rest);
        }
    }
    assert(loses_only_its_frame(t, tb)) by {
        if tb != t {
            let rest = choose|rest: Seq<char>| t == #[trigger] ("• "@ + rest) && tb == ""@ + rest;
            assert(tb =~= none + rest);
        }
    }
    if i > 0 {
        let tf = line_text(flat);
        let ts = line_text(shown);
        lemma_frame_of(t, tb, tf, "  └ "@, bare != flat);
        // A line that has lost its branch starts with a span of two columns, so the
        // deep indent is replaced only where the branch was not.
        if flat != shown && flat != bare {
            assert(flat.spans[0].content == "  "@);
            assert(!text::occurs_at(flat.spans[0].content, "    "@, 0));
            assert(false);
        }
        if flat == bare {
            lemma_frame_of(t, tb, ts, "    "@, flat != shown);
        }
    }
}

proof fn lemma_other_start(s: Seq<char>, p: Seq<char>)
    requires
        s.len() > 0,
        p.len() > 0,
        s[0] != p[0],
    ensures
        !text::occurs_at(s, p, 0),
{
    if text::occurs_at(s, p, 0) {
        assert(s.subrange(0, p.len() as int)[0] == s[0]);
    }
}

/// `bare` is `t` or `t` without a bullet; `after` is `bare` with `from` replaced by
/// two columns, where `changed`.
proof fn lemma_frame_of(
    t: Seq<char>,
    bare: Seq<char>,
    after: Seq<char>,
    from: Seq<char>,
    changed: bool,
)
    requires
        t == bare || t == "• "@ + bare,
        !changed ==> after == bare,
        changed ==> exists|rest: Seq<char>|
            bare == #[trigger] (from + rest) && after == "  "@ + rest,
        forall|i: int| 0 <= i < from.len() ==> is_frame(#[trigger] from[i]),
    ensures
        loses_only_its_frame(t, after),
{
    reveal_strlit("• ");
    reveal_strlit("  ");
    let none = Seq::<char>::empty();
    let bullet = if t == bare {
        none
    } else {
        "• "@
    };
    assert(t =~= bullet + bare);
    if changed {
        let rest = choose|rest: Seq<char>|
            bare == #[trigger] (from + rest) && after == "  "@ + rest;
        let frame = bullet + from;
        assert(t =~= frame + rest);
        assert(forall|i: int| 0 <= i < frame.len() ==> is_frame(#[trigger] frame[i]));
        assert(after == "  "@ + rest);
    } else {
        assert(after =~= none + bare);
        assert(bullet + bare == t);
    }
}

/// Whether `block` shows the lines of `cell`, without their frame.
pub open spec fn shows_cell(block: Seq<LineV>, cell: Seq<LineV>) -> bool {
    &&& block.len() == cell.len()
    &&& forall|i: int|
        #![trigger block[i]]
        0 <= i < cell.len() ==> loses_only_its_frame(line_text(cell[i]), line_text(block[i]))
}

proof fn lemma_shows_cell(cell: Seq<LineV>)
    ensures
        shows_cell(normalized(cell), cell),
{
    assert forall|i: int| #![trigger normalized(cell)[i]] 0 <= i < cell.len() implies
        loses_only_its_frame(line_text(cell[i]), line_text(normalized(cell)[i])) by {
        law_block_loses_only_the_frame(cell, i);
    }
}

/// Notices are shown in a block of their own behind everything that was streamed
/// before, in both views: a warning, what the user is asked, what a guardian found,
/// a recovery and its end, and a patch that failed.
pub proof fn law_notices_are_shown(s: ExecState, msg: EventMsg, ctx: EventContext)
    requires
        msg is Warning || msg is RequestPermissions || msg is RequestUserInput
            || msg is ElicitationRequest || msg is GuardianAssessment
            || msg is PotterStreamRecoveryUpdate || msg is PotterStreamRecoveryGaveUp || (msg
            matches EventMsg::PatchApplyEnd { success, .. } && !success) || (s.verbosity
            == Verbosity::Simple && msg is ExecCommandEnd),
    ensures
        ({
            let (t, blocks) = s.step(msg, ctx);
            &&& blocks.len() > 0
            &&& shows_cell(blocks.last(), lines_view(ctx.cell_lines@))
            &&& !t.saw_agent_delta
            &&& t.plan_stream is None
        }),
{
    lemma_shows_cell(lines_view(ctx.cell_lines@));
    lemma_flush_keeps(s, false, ctx);
    reveal(ExecState::report);
    reveal(ExecState::worked);
}

/// The cell of an event about another agent.
pub open spec fn agent_cell(msg: EventMsg) -> Option<Seq<LineV>> {
    match msg {
        EventMsg::CollabAgentSpawnEnd { cell } => Some(lines_view(cell.lines@)),
        EventMsg::CollabAgentInteractionEnd { cell } => Some(lines_view(cell.lines@)),
        EventMsg::CollabWaitingBegin { cell } => Some(lines_view(cell.lines@)),
        EventMsg::CollabWaitingEnd { cell } => Some(lines_view(cell.lines@)),
        EventMsg::CollabCloseEnd { cell } => Some(lines_view(cell.lines@)),
        EventMsg::CollabResumeBegin { cell } => Some(lines_view(cell.lines@)),
        EventMsg::CollabResumeEnd { cell } => Some(lines_view(cell.lines@)),
        _ => None,
    }
}

/// What happens with other agents is shown in both views, in a block behind
/// everything that was streamed before.
pub proof fn law_other_agents_are_shown(s: ExecState, msg: EventMsg, ctx: EventContext)
    requires
        agent_cell(msg) is Some,
    ensures
        s.step(msg, ctx).1.len() > 0,
        shows_cell(s.step(msg, ctx).1.last(), agent_cell(msg)->0),
{
    lemma_shows_cell(agent_cell(msg)->0);
    reveal(ExecState::report);
}

/// An error is shown last, red and with all its words, and an interruption says
/// what can be done; a turn that ended for another reason says nothing of itself.
pub proof fn law_errors_are_told(
    s: ExecState,
    message: String,
    reason: TurnAbortReason,
    ctx: EventContext,
)
    ensures
        ({
            let blocks = s.step(EventMsg::Error { message }, ctx).1;
            &&& blocks.len() > 0
            &&& blocks.last().len() == 1
            &&& line_text(blocks.last()[0]) == "■ "@ + message@
            &&& blocks.last()[0].spans.len() == 1
            &&& blocks.last()[0].spans[0].style.fg == Some(Color::Red)
        }),
        ({
            let blocks = s.step(EventMsg::TurnAborted { reason }, ctx).1;
            let quiet = s.step(EventMsg::TurnAborted { reason: TurnAbortReason::Replaced }, ctx).1;
            &&& reason == TurnAbortReason::Interrupted ==> {
                &&& blocks == quiet.push(blocks.last())
                &&& line_text(blocks.last()[0])
                    == "■ Conversation interrupted - tell the model what to do differently."@
            }
            &&& reason != TurnAbortReason::Interrupted ==> blocks == quiet
        }),
{
    let words = "Conversation interrupted - tell the model what to do differently."@;
    reveal_strlit("■ ");
    reveal_strlit("Conversation interrupted - tell the model what to do differently.");
    reveal_strlit("■ Conversation interrupted - tell the model what to do differently.");
    assert("■ "@ + words
        =~= "■ Conversation interrupted - tell the model what to do differently."@);
    reveal(ExecState::report);
    lemma_error_block(message@);
    lemma_error_block(words);
    let blocks = s.step(EventMsg::TurnAborted { reason }, ctx).1;
    let quiet = s.step(EventMsg::TurnAborted { reason: TurnAbortReason::Replaced }, ctx).1;
    if reason == TurnAbortReason::Interrupted {
        assert(blocks =~= quiet.push(blocks.last()));
    }
}

proof fn lemma_error_block(message: Seq<char>)
    ensures
        normalized(error_lines(message)) == error_lines(message),
        line_text(error_lines(message)[0]) == "■ "@ + message,
{
    reveal_strlit("■ ");
    let lines = error_lines(message);
    law_block_loses_only_the_frame(lines, 0);
    assert(lines[0].spans[0].content[0] == '■');
    assert(normalized(lines) =~= lines);
    lemma_one_span(lines[0].spans[0]);
}

/// A round that starts is announced by its number and the number of all rounds, and
/// a project that starts by the file of its task.
pub proof fn law_starts_are_announced(
    s: ExecState,
    current: u32,
    total: u32,
    user_message: Option<String>,
    user_prompt_file: String,
    ctx: EventContext,
)
    ensures
        ({
            let (t, blocks) = s.step(EventMsg::PotterRoundStarted { current, total }, ctx);
            let round = text::decimal(current as nat) + "/"@ + text::decimal(total as nat);
            &&& blocks.len() == 1 && blocks[0].len() == 1
            &&& line_text(blocks[0][0]) == "CodexPotter: iteration round "@ + round
            &&& t.status_header_prefix == Some("Round "@ + round)
            &&& !t.pending_separator
        }),
        ({
            let (t, blocks) = s.step(
                EventMsg::PotterProjectStarted { user_message, user_prompt_file },
                ctx,
            );
            &&& blocks.len() == 1 && blocks[0].len() == 1
            &&& line_text(blocks[0][0]) == "Project created: "@ + user_prompt_file@
            &&& s.project_started_at is None ==> t.project_started_at == Some(ctx.now)
            &&& s.project_started_at is Some ==> t.project_started_at == s.project_started_at
        }),
{
    reveal_strlit("CodexPotter: ");
    reveal_strlit("iteration round ");
    reveal_strlit("CodexPotter: iteration round ");
    let round = round_lines(current, total, s.accent)[0].spans;
    assert(round =~= seq![round[0]] + seq![round[1]]);
    lemma_spans_text(seq![round[0]], seq![round[1]]);
    lemma_one_span(round[0]);
    lemma_one_span(round[1]);
    assert(spans_text(round) =~= "CodexPotter: iteration round "@ + round_text(current, total));
    let hint = project_hint_lines(user_prompt_file@)[0].spans;
    assert(hint =~= seq![hint[0]] + seq![hint[1]]);
    lemma_spans_text(seq![hint[0]], seq![hint[1]]);
    lemma_one_span(hint[0]);
    lemma_one_span(hint[1]);
}

/// In the simple view a search is shown by its query and an image by its path, and
/// both count as work.
pub proof fn law_simple_view_shows_tools(
    s: ExecState,
    query: String,
    path: String,
    ctx: EventContext,
)
    requires
        s.verbosity == Verbosity::Simple,
    ensures
        ({
            let (t, blocks) = s.step(EventMsg::WebSearchEnd { query }, ctx);
            &&& blocks.len() > 0
            &&& blocks.last().len() == 2
            &&& says(blocks.last()[0], "Searched"@)
            &&& blocks.last()[1] == text_line_v("  "@ + query@)
            &&& t.pending_separator
        }),
        ({
            let (t, blocks) = s.step(EventMsg::ViewImageToolCall { path }, ctx);
            &&& blocks.len() > 0
            &&& blocks.last().len() == 2
            &&& says(blocks.last()[0], "Viewed Image"@)
            &&& says(blocks.last()[1], ctx.display_path@)
            &&& t.pending_separator
        }),
{
    reveal(ExecState::report);
    reveal(ExecState::worked);
    lemma_flush_keeps(s, false, ctx);
    let search = search_lines(query@);
    assert(search[0].spans[0].content == "Searched"@);
    let image = image_lines(ctx.display_path@);
    assert(image[0].spans[0].content == "Viewed Image"@);
    assert(image[1].spans[1].content == ctx.display_path@);
}

/// A patch that was applied is shown whole in the simple view, in one block. In the
/// compact view its title goes and every other line is a block of its own; a patch
/// of one line is one block, and one without lines shows nothing.
pub proof fn law_applied_patch_is_shown(
    s: ExecState,
    stderr: String,
    changes: Vec<crate::protocol::ChangedFile>,
    ctx: EventContext,
    i: int,
)
    ensures
        ({
            let cell = lines_view(ctx.cell_lines@);
            let (t, blocks) = s.step(
                EventMsg::PatchApplyEnd { success: true, stderr, changes },
                ctx,
            );
            let before = s.flush(false, ctx).1;
            &&& s.verbosity == Verbosity::Simple || cell.len() == 1 ==> blocks.len() == before.len()
                + 1 && shows_cell(blocks.last(), cell)
            &&& s.verbosity == Verbosity::Minimal && cell.len() == 0 ==> blocks == before
            &&& s.verbosity == Verbosity::Minimal && cell.len() > 1 ==> {
                &&& blocks.len() == before.len() + cell.len() - 1
                &&& 1 <= i < cell.len() ==> {
                    let block = blocks[before.len() + i - 1];
                    &&& block.len() == 1
                    &&& line_text(cell[i]).len() >= line_text(block[0]).len()
                    &&& line_text(cell[i]).skip(
                        line_text(cell[i]).len() - line_text(block[0]).len(),
                    ) == line_text(block[0])
                }
            }
        }),
{
    reveal(ExecState::patch);
    reveal(ExecState::patch_blocks);
    lemma_flush_keeps(s, false, ctx);
    let cell = lines_view(ctx.cell_lines@);
    let (t, blocks) = s.step(EventMsg::PatchApplyEnd { success: true, stderr, changes }, ctx);
    let before = s.flush(false, ctx).1;
    lemma_shows_cell(cell);
    if s.verbosity == Verbosity::Minimal && cell.len() == 0 {
        assert(blocks =~= before);
    }
    if s.verbosity == Verbosity::Minimal && cell.len() > 1 && 1 <= i < cell.len() {
        let block = blocks[before.len() + i - 1];
        assert(cell.skip(1)[i - 1] == cell[i]);
        assert(block == seq![standalone_line(cell[i])]);
        let a = replaced_prefix(cell[i], "• "@, ""@);
        let b = replaced_prefix(a, "  └ "@, ""@);
        lemma_replaced_text(cell[i], "• "@, ""@);
        lemma_replaced_text(a, "  └ "@, ""@);
        lemma_replaced_text(b, "    "@, ""@);
        lemma_suffix(cell[i], "• "@);
        lemma_suffix(a, "  └ "@);
        lemma_suffix(b, "    "@);
        let c = replaced_prefix(b, "    "@, ""@);
        lemma_suffix_chain(line_text(cell[i]), line_text(a), line_text(b));
        lemma_suffix_chain(line_text(cell[i]), line_text(b), line_text(c));
    }
}

proof fn lemma_suffix(line: LineV, from: Seq<char>)
    ensures
        text::ends_in(line_text(line), line_text(replaced_prefix(line, from, ""@))),
{
    reveal_strlit("");
    let t = line_text(line);
    let r = line_text(replaced_prefix(line, from, ""@));
    lemma_replaced_text(line, from, ""@);
    if replaced_prefix(line, from, ""@) == line {
        assert(t.skip(0) =~= t);
    } else {
        let rest = choose|rest: Seq<char>| t == #[trigger] (from + rest) && r == ""@ + rest;
        assert(r =~= rest);
        text::lemma_ends_in(from, rest);
    }
}

proof fn lemma_suffix_chain(a: Seq<char>, b: Seq<char>, c: Seq<char>)
    requires
        text::ends_in(a, b),
        text::ends_in(b, c),
    ensures
        text::ends_in(a, c),
{
    assert(a.skip(a.len() - c.len()) =~= b.skip(b.len() - c.len()));
}

/// The compact view shows an agent message that was streamed as it is where it is
/// the last word of its turn, and dim where more comes behind it; the words are the
/// same either way. The simple view never makes it dim.
pub proof fn law_only_the_last_word_is_bright(s: ExecState, message: String, ctx: EventContext)
    requires
        s.saw_agent_delta,
        s.plan_stream is None,
        s.pending_summary is None,
        ctx.stream_lines@.len() > 0,
    ensures
        ({
            let lines = lines_view(ctx.stream_lines@);
            let done = s.step(EventMsg::TurnComplete, ctx).1;
            let more = s.step(EventMsg::Error { message }, ctx).1;
            &&& done.last() == lines
            &&& s.verbosity == Verbosity::Minimal ==> {
                &&& done.len() == 1
                &&& more.len() == 2
                &&& more[0].len() == lines.len()
                &&& forall|i: int|
                    #![trigger lines[i]]
                    0 <= i < lines.len() ==> line_text(more[0][i]) == line_text(lines[i]) && (
                    forall|k: int|
                        0 <= k < lines[i].spans.len() ==> (#[trigger] more[0][i].spans[k])
                            .style.add.dim)
            }
            &&& s.verbosity == Verbosity::Simple ==> more[more.len() - 2] == lines
        }),
{
    reveal(ExecState::flush);
    reveal(ExecState::flush_agent);
    reveal(ExecState::flush_plan);
    reveal(ExecState::summarize);
    reveal(ExecState::separator);
    reveal(ExecState::report);
    let lines = lines_view(ctx.stream_lines@);
    assert(lines.len() == ctx.stream_lines@.len());
    let more = s.step(EventMsg::Error { message }, ctx).1;
    if s.verbosity == Verbosity::Minimal {
        assert forall|i: int| #![trigger lines[i]] 0 <= i < lines.len() implies line_text(
            more[0][i],
        ) == line_text(lines[i]) && (forall|k: int|
            0 <= k < lines[i].spans.len() ==> (#[trigger] more[0][i].spans[k]).style.add.dim) by {
            crate::styled::law_dim_keeps_the_text(lines[i]);
        }
    }
}

/// Streamed text is kept in the order in which it comes, and a plan likewise; the
/// compact view does not keep plans.
pub proof fn law_streams_are_gathered(s: ExecState, delta: String, ctx: EventContext)
    requires
        s.verbosity == Verbosity::Simple || s.saw_agent_delta || s.pending_message is None,
    ensures
        ({
            let (t, blocks) = s.step(EventMsg::AgentMessageDelta { delta }, ctx);
            &&& blocks.len() == 0
            &&& t.stream == s.stream + delta@
            &&& t.saw_agent_delta <==> s.saw_agent_delta || delta@.len() > 0
        }),
        ({
            let (t, blocks) = s.step(EventMsg::PlanDelta { delta }, ctx);
            &&& blocks.len() == 0
            &&& s.verbosity == Verbosity::Minimal ==> t == s
            &&& s.verbosity == Verbosity::Simple ==> t.plan_stream is Some && (s.plan_stream is None
                ==> t.plan_stream->0 == delta@) && (s.plan_stream is Some ==> t.plan_stream->0
                == s.plan_stream->0 + delta@)
        }),
{
    reveal(ExecState::flush_agent);
}

/// A reasoning text that names a title is told in one dim line that names it, and
/// says for how long the status has been running; a text that names none, or the
/// same again, is not told.
pub proof fn law_reasoning_is_hinted(s: ExecState, delta: String, ctx: EventContext)
    ensures
        ({
            let (t, blocks) = s.step(EventMsg::AgentReasoningDelta { delta }, ctx);
            let title = crate::reasoning_status::first_bold(s.reasoning.buffer + delta@);
            &&& title is None || title == s.reasoning.header ==> blocks.len() == 0
            &&& title is Some && title != s.reasoning.header ==> {
                &&& blocks.len() == 1
                &&& blocks[0].len() == 1
                &&& blocks[0][0].spans.len() == 1
                &&& blocks[0][0].spans[0].style.add.dim
                &&& exists|before: Seq<char>, after: Seq<char>|
                    #![trigger before + title->0 + after]
                    blocks[0][0].spans[0].content == before + title->0 + after
            }
            &&& t.reasoning.buffer == s.reasoning.buffer + delta@
        }),
        s.step(EventMsg::AgentReasoningRawContentDelta { delta }, ctx) == s.step(
            EventMsg::AgentReasoningDelta { delta },
            ctx,
        ),
        s.step(EventMsg::AgentReasoning { text: delta }, ctx).1 == s.step(
            EventMsg::AgentReasoningDelta { delta },
            ctx,
        ).1,
        s.step(EventMsg::AgentReasoningRawContent { text: delta }, ctx).1 == s.step(
            EventMsg::AgentReasoningDelta { delta },
            ctx,
        ).1,
        s.step(EventMsg::AgentReasoningSectionBreak, ctx).0.reasoning == TrackerState::empty(),
        s.step(EventMsg::AgentReasoning { text: delta }, ctx).0.reasoning == TrackerState::empty(),
        s.step(EventMsg::AgentReasoningRawContent { text: delta }, ctx).0.reasoning
            == TrackerState::empty(),
{
    reveal(ExecState::reason);
    let title = crate::reasoning_status::first_bold(s.reasoning.buffer + delta@);
    if title is Some && title != s.reasoning.header {
        let header = title->0;
        let (t, blocks) = s.step(EventMsg::AgentReasoningDelta { delta }, ctx);
        let prefix = match s.status_header_prefix {
            Some(p) => p + match s.prefix_elapsed(ctx.now) {
                Some(secs) => crate::status_line::elapsed_note(secs as nat),
                None => seq![],
            } + " · "@,
            None => seq![],
        };
        let before = "• "@ + prefix;
        let note = crate::status_line::elapsed_note(s.status_elapsed(ctx.now) as nat);
        let label = crate::bottom_pane::footer::context_window_label(
            s.context_display(ctx).0,
            s.context_display(ctx).1,
        );
        let after = note + " · "@ + label;
        assert(blocks[0] == s.hint_block(header, ctx));
        assert(blocks[0][0].spans[0].content =~= before + header + after);
    }
}

/// A count of tokens is kept; a window that it does not give stays the one known
/// before, and a turn that starts sets it anew and starts the clock of the status.
pub proof fn law_counts_are_kept(
    s: ExecState,
    info: crate::protocol::TokenUsageInfo,
    model_context_window: Option<i64>,
    ctx: EventContext,
)
    ensures
        ({
            let (t, blocks) = s.step(EventMsg::TokenCount { info: Some(info) }, ctx);
            &&& blocks.len() == 0
            &&& t.token_usage == info.total_token_usage
            &&& t.context_usage == info.last_token_usage
            &&& info.model_context_window is Some ==> t.model_context_window
                == info.model_context_window
            &&& info.model_context_window is None ==> t.model_context_window
                == s.model_context_window
        }),
        s.step(EventMsg::TokenCount { info: None }, ctx).0 == s,
        ({
            let (t, blocks) = s.step(EventMsg::TurnStarted { model_context_window }, ctx);
            &&& blocks.len() == 0
            &&& t.model_context_window == model_context_window
            &&& t.status_started_at == Some(ctx.now)
            &&& t.separator_baseline == Some(ctx.now)
            &&& !t.pending_separator
            &&& t.reasoning == TrackerState::empty()
        }),
{
}

/// A hook that starts is told by its name and what it says of itself, and one that
/// has ended by its name, how it ended and one line for each line of its output, with
/// what kind of line it is in front.
pub proof fn law_hooks_are_told(
    s: ExecState,
    event_name: HookEventName,
    status_message: Option<String>,
    status: HookRunStatus,
    entries: Vec<HookOutputEntry>,
    ctx: EventContext,
)
    ensures
        ({
            let blocks = s.step(EventMsg::HookStarted { event_name, status_message }, ctx).1;
            let name = if event_name == HookEventName::Stop {
                "stop"@
            } else {
                "session-start"@
            };
            let words = match status_message {
                Some(m) => if m@.len() > 0 {
                    ": "@ + m@
                } else {
                    seq![]
                },
                None => seq![],
            };
            &&& blocks.len() > 0
            &&& blocks.last() == seq![text_line_v("Running "@ + name + " hook"@ + words)]
        }),
        ({
            let blocks = s.step(EventMsg::HookCompleted { event_name, status, entries }, ctx).1;
            let name = if event_name == HookEventName::Stop {
                "stop"@
            } else {
                "session-start"@
            };
            let end = if status == HookRunStatus::Completed {
                "completed"@
            } else if status == HookRunStatus::Failed {
                "failed"@
            } else if status == HookRunStatus::Blocked {
                "blocked"@
            } else if status == HookRunStatus::Stopped {
                "stopped"@
            } else {
                "running"@
            };
            &&& blocks.len() > 0
            &&& blocks.last().len() == entries@.len() + 1
            &&& blocks.last()[0] == text_line_v(name + " hook ("@ + end + ")"@)
            &&& forall|i: int|
                #![trigger entries@[i]]
                0 <= i < entries@.len() ==> {
                    let line = blocks.last()[i + 1];
                    let said = entries@[i].text@;
                    &&& entries@[i].kind == HookOutputEntryKind::Warning ==> line == text_line_v(
                        "  "@ + "warning: "@ + said,
                    )
                    &&& entries@[i].kind == HookOutputEntryKind::Error ==> line == text_line_v(
                        "  "@ + "error: "@ + said,
                    )
                    &&& entries@[i].kind == HookOutputEntryKind::Stop ==> line == text_line_v(
                        "  "@ + "stop: "@ + said,
                    )
                    &&& entries@[i].kind == HookOutputEntryKind::Feedback ==> line == text_line_v(
                        "  "@ + "feedback: "@ + said,
                    )
                    &&& entries@[i].kind == HookOutputEntryKind::Context ==> line == text_line_v(
                        "  "@ + "hook context: "@ + said,
                    )
                }
        }),
{
    reveal(ExecState::report);
    let started = s.step(EventMsg::HookStarted { event_name, status_message }, ctx).1;
    let name = if event_name == HookEventName::Stop {
        "stop"@
    } else {
        "session-start"@
    };
    let base = "Running "@ + name + " hook"@;
    assert(base + Seq::<char>::empty() =~= base);
    if let Some(m) = status_message {
        assert(base + (": "@ + m@) =~= base + ": "@ + m@);
    }
    let ended = s.step(EventMsg::HookCompleted { event_name, status, entries }, ctx).1;
    assert(ended.last() == hook_completed_lines(event_name, status, entries@));
}

/// The output of a command is what was collected of it, and where nothing was, what
/// it wrote to its standard output with what it wrote to its standard error behind.
pub proof fn law_output_is_collected(command: ExecCommandEndEvent)
    ensures
        command.aggregated_output@.len() > 0 ==> collected_output(command)
            == command.aggregated_output@,
        command.aggregated_output@.len() == 0 ==> collected_output(command).len()
            == command.stdout@.len() + command.stderr@.len() && collected_output(command).take(
            command.stdout@.len() as int,
        ) == command.stdout@ && text::ends_in(collected_output(command), command.stderr@),
{
    let both = command.stdout@ + command.stderr@;
    assert(both.take(command.stdout@.len() as int) =~= command.stdout@);
    text::lemma_ends_in(command.stdout@, command.stderr@);
}

/// A session says which directory it works in; what was streamed before belongs to another.
pub proof fn law_session_names_its_directory(
    s: ExecState,
    session_id: String,
    cwd: String,
    ctx: EventContext,
)
    ensures
        s.step(EventMsg::SessionConfigured { session_id, cwd }, ctx).0.cwd == cwd@,
        s.step(EventMsg::SessionConfigured { session_id, cwd }, ctx).0.stream.len() == 0,
        s.step(EventMsg::SessionConfigured { session_id, cwd }, ctx).1.len() == 0,
{
}

/// A plan is shown whole in the simple view and not at all in the compact one, a deprecation
/// and a compaction of the context in both; a stream error, a recovery that worked and what
/// the interface does not know are not shown.
#[verifier::spinoff_prover]
pub proof fn law_plans_and_notices_are_shown(
    s: ExecState,
    update: crate::protocol::UpdatePlanArgs,
    summary: String,
    details: Option<String>,
    ctx: EventContext,
)
    ensures
        ({
            let blocks = s.step(EventMsg::PlanUpdate { update }, ctx).1;
            let quiet = s.flush(false, ctx).1;
            &&& s.verbosity == Verbosity::Minimal ==> blocks == quiet
            &&& s.verbosity == Verbosity::Simple ==> blocks.len() == quiet.len() + 1 && shows_cell(
                blocks.last(),
                crate::history_cell::plan_shown(
                    update.explanation,
                    update.plan@,
                    match s.width {
                        Some(w) => if w == 0 {
                            1
                        } else {
                            w
                        },
                        None => DEFAULT_RENDER_WIDTH,
                    },
                ),
            )
        }),
        ({
            let blocks = s.step(EventMsg::ContextCompacted, ctx).1;
            blocks.len() > 0 && blocks.last() == seq![text_line_v("Context compacted"@)]
        }),
        ({
            let blocks = s.step(EventMsg::DeprecationNotice { summary, details }, ctx).1;
            blocks.len() > 0 && shows_cell(
                blocks.last(),
                (DeprecationNoticeCell { summary, details }).shown(s.cell_width()),
            )
        }),
        s.step(EventMsg::StreamError { message: summary, additional_details: details }, ctx) == (
            s,
            Seq::<Seq<LineV>>::empty(),
        ),
        s.step(EventMsg::PotterStreamRecoveryRecovered, ctx) == (s, Seq::<Seq<LineV>>::empty()),
        s.step(EventMsg::Other, ctx) == (s, Seq::<Seq<LineV>>::empty()),
{
    reveal(ExecState::report);
    let cell = PlanUpdateCell { explanation: update.explanation, plan: update.plan };
    lemma_shows_cell(cell.shown(s.cell_width()));
    lemma_shows_cell((DeprecationNoticeCell { summary, details }).shown(s.cell_width()));
}

/// Whole seconds are counted between two readings of the clock; a clock that went back counts
/// as not having moved.
pub proof fn law_seconds_between_readings(earlier: u64, now: u64, n: u64)
    ensures
        now <= earlier ==> secs_between(earlier, now) == 0,
        earlier + n * 1_000_000_000 <= now && now < earlier + (n + 1) * 1_000_000_000
            ==> secs_between(earlier, now) == n,
{
    if earlier + n * 1_000_000_000 <= now && now < earlier + (n + 1) * 1_000_000_000 && now
        > earlier {
        let d = now - earlier;
        assert(d / 1_000_000_000 == n);
    }
}

/// A status hint tells the header and for how many seconds the status has been shown, and what
/// is known of the context: the share of a known window that is left, or else the tokens that
/// were used. In front of it stands the round, with the seconds since the project started.
#[verifier::spinoff_prover]
pub proof fn law_hint_tells_time_and_context(s: ExecState, header: Seq<char>, ctx: EventContext)
    ensures
        ({
            let block = s.hint_block(header, ctx);
            let taken = elapsed_compact(
                match s.status_started_at {
                    Some(started) => secs_between(started, ctx.now) as nat,
                    None => 0,
                },
            );
            let known = s.model_context_window is Some && s.model_context_window->0 > 0;
            let used = if s.token_usage.total_tokens > 0 {
                Some(ctx.used_tokens@)
            } else {
                None
            };
            let context = crate::bottom_pane::footer::context_window_label(
                if known {
                    Some(ctx.context_percent)
                } else {
                    None
                },
                if known {
                    None
                } else {
                    used
                },
            );
            let tail = header + " ("@ + taken + ")"@ + " · "@ + context;
            &&& block.len() == 1 && block[0].spans.len() == 1
            &&& s.status_header_prefix is None ==> block[0].spans[0].content == "• "@ + tail
            &&& s.status_header_prefix matches Some(round) ==> {
                &&& s.project_started_at is None ==> block[0].spans[0].content == "• "@ + round
                    + " · "@ + tail
                &&& s.project_started_at is Some && s.status_started_at is None
                    ==> block[0].spans[0].content == "• "@ + round + " ("@ + elapsed_compact(
                    secs_between(s.project_started_at->0, ctx.now) as nat,
                ) + ")"@ + " · "@ + tail
            }
        }),
{
    let block = s.hint_block(header, ctx);
    let content = block[0].spans[0].content;
    let taken = elapsed_compact(s.status_elapsed(ctx.now) as nat);
    let context = crate::bottom_pane::footer::context_window_label(
        s.context_display(ctx).0,
        s.context_display(ctx).1,
    );
    let tail = header + " ("@ + taken + ")"@ + " · "@ + context;
    match s.status_header_prefix {
        None => {
            assert(content =~= "• "@ + tail);
        },
        Some(round) => match s.project_started_at {
            None => {
                assert(content =~= "• "@ + round + " · "@ + tail);
            },
            Some(start) => {
                if s.status_started_at is None {
                    assert(content =~= "• "@ + round + " ("@ + elapsed_compact(
                        secs_between(start, ctx.now) as nat,
                    ) + ")"@ + " · "@ + tail);
                }
            },
        },
    }
}

/// The time in front of a hint counts from the start of the project, through the start of the
/// status, to now.
pub proof fn law_project_time_counts_from_its_start(s: ExecState, now: u64, start: u64, status: u64)
    requires
        s.project_started_at == Some(start),
        s.status_started_at == Some(status),
        start <= status <= now,
    ensures
        s.prefix_elapsed(now) == Some(secs_between(start, now)),
{
}

/// The compact view shows a message that was held back dim as soon as more text is streamed,
/// unless it was shown before.
pub proof fn law_held_message_makes_room(s: ExecState, delta: String, ctx: EventContext)
    requires
        s.verbosity == Verbosity::Minimal,
        !s.saw_agent_delta,
        s.pending_message is Some,
    ensures
        ({
            let (t, blocks) = s.step(EventMsg::AgentMessageDelta { delta }, ctx);
            &&& t.pending_message is None
            &&& s.pending_message_visible ==> blocks.len() == 0
            &&& !s.pending_message_visible ==> blocks == seq![dim_lines_v(s.pending_message->0)]
            &&& t.stream == s.stream + delta@
        }),
{
    reveal(ExecState::flush_agent);
}

} // verus!
