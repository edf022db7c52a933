//! Transcript cells and the lines that they show.

use vstd::prelude::*;

use crate::protocol::{PlanItemArg, StepStatus, UpdatePlanArgs};
use crate::status_line;
use crate::styled::{
    append_lines, duplicate_lines, lemma_spans_text, line_text, line_v, lines_view, prefix_lines,
    prefix_lines_v, span_v, spans_text, spans_view, Color, Line, LineV, Span, SpanV, Style,
};
use crate::text;
use crate::width;

verus! {

/// Something that the conversation history shows as lines.
pub trait HistoryCell {
    /// The lines that the cell shows at `width` columns.
    spec fn shown(&self, width: u16) -> Seq<LineV>;

    /// Whether the cell goes on with the stream of the cell before it.
    spec fn continues(&self) -> bool;

    /// The lines that the cell shows at `width` columns.
    fn display_lines(&self, width: u16) -> (r: Vec<Line>)
        ensures
            lines_view(r@) == self.shown(width),
    ;

    /// Whether the cell goes on with the stream of the cell before it.
    fn is_stream_continuation(&self) -> (b: bool)
        ensures
            b == self.continues(),
    ;
}

/// A prompt of the user.
#[derive(Debug)]
pub struct UserHistoryCell {
    pub message: String,
}

/// The cell that shows the prompt `message`.
pub fn new_user_prompt(message: String) -> (r: UserHistoryCell)
    ensures
        r.message == message,
{
    UserHistoryCell { message }
}

/// The columns in front of a line of the composer.
pub const LIVE_PREFIX_COLS: u16 = 2;

impl UserHistoryCell {
    /// The columns at which the prompt wraps: the live prefix and one column on
    /// the right stay free, and at least one column is left.
    pub fn wrap_width(width: u16) -> (w: u16)
        ensures
            w == if width > LIVE_PREFIX_COLS + 2 {
                width - (LIVE_PREFIX_COLS + 1)
            } else {
                1
            },
    {
        let w: u16 = width.saturating_sub(LIVE_PREFIX_COLS + 1);
        if w > 1 {
            w
        } else {
            1
        }
    }
}

/// A part of an agent message.
#[derive(Debug)]
pub struct AgentMessageCell {
    pub lines: Vec<Line>,
    pub is_first_line: bool,
}

impl AgentMessageCell {
    /// The cell that shows `lines`; `is_first_line` where the message starts with them.
    pub fn new(lines: Vec<Line>, is_first_line: bool) -> (r: Self)
        ensures
            r.lines == lines,
            r.is_first_line == is_first_line,
    {
        AgentMessageCell { lines, is_first_line }
    }

    /// The prefix of the first wrapped line.
    pub open spec fn initial_indent_v(&self) -> SpanV {
        if self.is_first_line {
            span_v("• "@, Style::plain().spec_dim())
        } else {
            span_v("  "@, Style::plain())
        }
    }

    /// The prefix of the first wrapped line: a dim bullet where the message starts.
    pub fn initial_indent(&self) -> (r: Span)
        ensures
            r@ == self.initial_indent_v(),
    {
        if self.is_first_line {
            Span::of("• ", Style::new().dim())
        } else {
            Span::plain("  ")
        }
    }

    /// Whether the cell goes on with the message of the cell before it.
    pub fn is_stream_continuation(&self) -> (b: bool)
        ensures
            b == !self.is_first_line,
    {
        !self.is_first_line
    }
}

/// A cell that shows its lines as they are.
#[derive(Debug)]
pub struct PlainHistoryCell {
    pub lines: Vec<Line>,
}

impl PlainHistoryCell {
    /// The cell that shows `lines`.
    pub fn new(lines: Vec<Line>) -> (r: Self)
        ensures
            r.lines == lines,
    {
        PlainHistoryCell { lines }
    }
}

impl HistoryCell for PlainHistoryCell {
    open spec fn shown(&self, width: u16) -> Seq<LineV> {
        lines_view(self.lines@)
    }

    open spec fn continues(&self) -> bool {
        false
    }

    fn display_lines(&self, width: u16) -> (r: Vec<Line>) {
        duplicate_lines(&self.lines)
    }

    fn is_stream_continuation(&self) -> (b: bool) {
        false
    }
}

/// Wrapped text with a prefix in front of each line.
#[derive(Debug)]
pub struct PrefixedWrappedHistoryCell {
    pub text: Vec<Line>,
    pub initial_prefix: Line,
    pub subsequent_prefix: Line,
}

impl PrefixedWrappedHistoryCell {
    /// The cell that wraps `text`.
    pub fn new(text: Vec<Line>, initial_prefix: Line, subsequent_prefix: Line) -> (r: Self)
        ensures
            r.text == text,
            r.initial_prefix == initial_prefix,
            r.subsequent_prefix == subsequent_prefix,
    {
        PrefixedWrappedHistoryCell { text, initial_prefix, subsequent_prefix }
    }

    /// The rows that the cell takes on a screen of `width` columns, given how many
    /// lines its text is wrapped into there; without a column there are none.
    pub fn desired_height(&self, wrapped_lines: usize, width: u16) -> (h: u16)
        ensures
            h as int == if width == 0 {
                0
            } else {
                wrapped_lines as int % 65_536
            },
    {
        if width == 0 {
            return 0;
        }
        (wrapped_lines % 65_536) as u16
    }
}

/// The cell for a web search that has ended.
pub fn new_web_search_call(query: &str) -> (r: PrefixedWrappedHistoryCell)
    ensures
        lines_view(r.text@) == seq![
            line_v(
                seq![
                    span_v("Searched"@, Style::plain().spec_bold()),
                    span_v(" "@, Style::plain()),
                    span_v(query@, Style::plain()),
                ],
            ),
        ],
        r.initial_prefix@ == line_v(seq![span_v("• "@, Style::plain().spec_dim())]),
        r.subsequent_prefix@ == line_v(seq![span_v("  "@, Style::plain())]),
{
    let spans = vec![
        Span::of("Searched", Style::new().bold()),
        Span::plain(" "),
        Span::plain(query),
    ];
    let line = Line::from_spans(spans);
    assert(line@.spans =~= seq![
        span_v("Searched"@, Style::plain().spec_bold()),
        span_v(" "@, Style::plain()),
        span_v(query@, Style::plain()),
    ]);
    let text = vec![line];
    assert(lines_view(text@) =~= seq![text@[0]@]);
    PrefixedWrappedHistoryCell {
        text,
        initial_prefix: Line::from_styled("• ", Style::new().dim()),
        subsequent_prefix: Line::from_styled("  ", Style::new()),
    }
}

/// The cell for a warning.
pub fn new_warning_event(message: &str) -> (r: PrefixedWrappedHistoryCell)
    ensures
        lines_view(r.text@) == seq![
            line_v(seq![span_v(message@, Style::plain().spec_fg(Color::Yellow))]),
        ],
        r.initial_prefix@ == line_v(seq![span_v("⚠ "@, Style::plain().spec_fg(Color::Yellow))]),
        r.subsequent_prefix@ == line_v(seq![span_v("  "@, Style::plain())]),
{
    let yellow = Style::new().with_fg(Color::Yellow);
    let text = vec![Line::from_styled(message, yellow)];
    assert(lines_view(text@) =~= seq![text@[0]@]);
    PrefixedWrappedHistoryCell {
        text,
        initial_prefix: Line::from_styled("⚠ ", yellow),
        subsequent_prefix: Line::from_styled("  ", Style::new()),
    }
}

/// What [`new_info_event`] shows.
pub open spec fn info_lines(message: Seq<char>, hint: Option<Seq<char>>) -> Seq<LineV> {
    let head = seq![
        span_v("• "@, Style::plain().spec_dim()),
        span_v(message, Style::plain()),
    ];
    seq![
        line_v(
            match hint {
                Some(h) => head + seq![
                    span_v(" "@, Style::plain()),
                    span_v(h, Style::plain().spec_dim()),
                ],
                None => head,
            },
        ),
    ]
}

/// What the string behind `s` holds, if there is one.
pub open spec fn opt_str(s: Option<&str>) -> Option<Seq<char>> {
    match s {
        Some(t) => Some(t@),
        None => None,
    }
}

/// The cell for a notice with an optional dim hint.
pub fn new_info_event(message: &str, hint: Option<&str>) -> (r: PlainHistoryCell)
    ensures
        lines_view(r.lines@) == info_lines(message@, opt_str(hint)),
{
    let mut spans = vec![Span::of("• ", Style::new().dim()), Span::plain(message)];
    if let Some(h) = hint {
        spans.push(Span::plain(" "));
        spans.push(Span::of(h, Style::new().dim()));
    }
    let line = Line::from_spans(spans);
    assert(line@.spans =~= info_lines(message@, opt_str(hint))[0].spans);
    let lines = vec![line];
    assert(lines_view(lines@) =~= seq![lines@[0]@]);
    PlainHistoryCell { lines }
}

/// What [`new_error_event`] shows.
pub open spec fn error_lines(message: Seq<char>) -> Seq<LineV> {
    seq![line_v(seq![span_v("■ "@ + message, Style::plain().spec_fg(Color::Red))])]
}

/// The cell for an error.
pub fn new_error_event(message: &str) -> (r: PlainHistoryCell)
    ensures
        lines_view(r.lines@) == error_lines(message@),
{
    let content = text::concat("■ ", message);
    let lines = vec![Line::from_styled(content.as_str(), Style::new().with_fg(Color::Red))];
    assert(lines_view(lines@) =~= seq![lines@[0]@]);
    PlainHistoryCell { lines }
}

/// The cell for an image that was viewed, at `display_path`.
pub fn new_view_image_tool_call(display_path: &str) -> (r: PlainHistoryCell)
    ensures
        lines_view(r.lines@) == seq![
            line_v(
                seq![
                    span_v("• "@, Style::plain().spec_dim()),
                    span_v("Viewed Image"@, Style::plain().spec_bold()),
                ],
            ),
            line_v(
                seq![
                    span_v("  └ "@, Style::plain().spec_dim()),
                    span_v(display_path@, Style::plain().spec_dim()),
                ],
            ),
        ],
{
    let first = vec![
        Span::of("• ", Style::new().dim()),
        Span::of("Viewed Image", Style::new().bold()),
    ];
    let second = vec![
        Span::of("  └ ", Style::new().dim()),
        Span::of(display_path, Style::new().dim()),
    ];
    let first = Line::from_spans(first);
    assert(first@.spans =~= seq![
        span_v("• "@, Style::plain().spec_dim()),
        span_v("Viewed Image"@, Style::plain().spec_bold()),
    ]);
    let second = Line::from_spans(second);
    assert(second@.spans =~= seq![
        span_v("  └ "@, Style::plain().spec_dim()),
        span_v(display_path@, Style::plain().spec_dim()),
    ]);
    let lines = vec![first, second];
    assert(lines_view(lines@) =~= seq![lines@[0]@, lines@[1]@]);
    PlainHistoryCell { lines }
}

/// The title of a patch that could not be applied.
pub open spec fn patch_failure_title() -> LineV {
    line_v(
        seq![
            span_v(
                "✘ Failed to apply patch"@,
                Style::plain().spec_fg(Color::Magenta).spec_bold(),
            ),
        ],
    )
}

/// The cell for a patch that could not be applied. `output` is how the error
/// output shows; it is left out where `stderr` is blank.
pub fn new_patch_apply_failure(stderr: &str, output: Vec<Line>) -> (r: PlainHistoryCell)
    ensures
        lines_view(r.lines@) == if text::trim(stderr@).len() == 0 {
            seq![patch_failure_title()]
        } else {
            seq![patch_failure_title()] + lines_view(output@)
        },
{
    let title = Line::from_styled(
        "✘ Failed to apply patch",
        Style::new().with_fg(Color::Magenta).bold(),
    );
    let mut lines = vec![title];
    assert(lines_view(lines@) =~= seq![patch_failure_title()]);
    if !stderr.trim().is_empty() {
        append_lines(&mut lines, output);
    }
    PlainHistoryCell { lines }
}

/// A cell for something that should no longer be used.
#[derive(Debug)]
pub struct DeprecationNoticeCell {
    pub summary: String,
    pub details: Option<String>,
}

/// The cell for something that should no longer be used.
pub fn new_deprecation_notice(summary: String, details: Option<String>) -> (r:
    DeprecationNoticeCell)
    ensures
        r.summary == summary,
        r.details == details,
{
    DeprecationNoticeCell { summary, details }
}

/// The columns that are left of `width` beside `indent`, at least one.
pub open spec fn room(width: nat, indent: nat) -> nat {
    if width > indent + 1 {
        (width - indent) as nat
    } else {
        1
    }
}

/// One line in `style` for each of `parts`.
pub open spec fn styled_lines(parts: Seq<Seq<char>>, style: Style) -> Seq<LineV> {
    parts.map_values(|p: Seq<char>| line_v(seq![span_v(p, style)]))
}

/// The lines of `s` wrapped at `wrap_width` columns, in `style`.
fn wrap_styled(s: &str, wrap_width: usize, style: Style) -> (r: Vec<Line>)
    ensures
        lines_view(r@) == styled_lines(width::wrapped(s@, wrap_width), style),
{
    let parts = width::wrap_text(s, wrap_width);
    let mut lines: Vec<Line> = Vec::new();
    let mut i: usize = 0;
    while i < parts.len()
        invariant
            i <= parts@.len(),
            lines@.len() == i,
            forall|k: int|
                0 <= k < i ==> (#[trigger] lines@[k])@ == line_v(seq![span_v(parts@[k]@, style)]),
        decreases parts@.len() - i,
    {
        lines.push(Line::from_styled(parts[i].as_str(), style));
        i += 1;
    }
    proof {
        let texts = text::texts(parts@);
        assert(lines_view(lines@) =~= styled_lines(texts, style));
    }
    lines
}

impl HistoryCell for DeprecationNoticeCell {
    open spec fn shown(&self, width: u16) -> Seq<LineV> {
        let head = seq![
            line_v(
                seq![
                    span_v("⚠ "@, Style::plain().spec_fg(Color::Red).spec_bold()),
                    span_v(self.summary@, Style::plain().spec_fg(Color::Red)),
                ],
            ),
        ];
        match self.details {
            Some(details) => head + styled_lines(
                width::wrapped(details@, room(width as nat, 4) as usize),
                Style::plain().spec_dim(),
            ),
            None => head,
        }
    }

    open spec fn continues(&self) -> bool {
        false
    }

    fn display_lines(&self, width: u16) -> (r: Vec<Line>) {
        let red = Style::new().with_fg(Color::Red);
        let spans = vec![Span::of("⚠ ", red.bold()), Span::of(self.summary.as_str(), red)];
        let head = Line::from_spans(spans);
        assert(head@.spans =~= seq![
            span_v("⚠ "@, Style::plain().spec_fg(Color::Red).spec_bold()),
            span_v(self.summary@, Style::plain().spec_fg(Color::Red)),
        ]);
        let mut lines = vec![head];
        assert(lines_view(lines@) =~= seq![head@]);
        if let Some(details) = &self.details {
            let wrap_width: usize = if width > 5 { (width - 4) as usize } else { 1 };
            append_lines(
                &mut lines,
                wrap_styled(details.as_str(), wrap_width, Style::new().dim()),
            );
        }
        lines
    }

    fn is_stream_continuation(&self) -> (b: bool) {
        false
    }
}

/// A part of a proposed plan.
#[derive(Debug)]
pub struct ProposedPlanStreamCell {
    pub lines: Vec<Line>,
    pub is_stream_continuation: bool,
}

/// The cell that shows a part of a proposed plan.
pub fn new_proposed_plan_stream(lines: Vec<Line>, is_stream_continuation: bool) -> (r:
    ProposedPlanStreamCell)
    ensures
        r.lines == lines,
        r.is_stream_continuation == is_stream_continuation,
{
    ProposedPlanStreamCell { lines, is_stream_continuation }
}

impl HistoryCell for ProposedPlanStreamCell {
    open spec fn shown(&self, width: u16) -> Seq<LineV> {
        lines_view(self.lines@)
    }

    open spec fn continues(&self) -> bool {
        self.is_stream_continuation
    }

    fn display_lines(&self, width: u16) -> (r: Vec<Line>) {
        duplicate_lines(&self.lines)
    }

    fn is_stream_continuation(&self) -> (b: bool) {
        self.is_stream_continuation
    }
}

/// A plan, shown as a list of check boxes.
#[derive(Debug)]
pub struct PlanUpdateCell {
    pub explanation: Option<String>,
    pub plan: Vec<PlanItemArg>,
}

/// The cell for a plan, styled like a check box list.
pub fn new_plan_update(update: UpdatePlanArgs) -> (r: PlanUpdateCell)
    ensures
        r.explanation == update.explanation,
        r.plan == update.plan,
{
    PlanUpdateCell { explanation: update.explanation, plan: update.plan }
}

/// The check box in front of a step.
pub open spec fn step_box(status: StepStatus) -> Seq<char> {
    match status {
        StepStatus::Completed => "✔ "@,
        StepStatus::InProgress => "□ "@,
        StepStatus::Pending => "□ "@,
    }
}

/// The style of the text of a step.
pub open spec fn step_style(status: StepStatus) -> Style {
    match status {
        StepStatus::Completed => Style::plain().spec_crossed_out().spec_dim(),
        StepStatus::InProgress => Style::plain().spec_fg(Color::Cyan).spec_bold(),
        StepStatus::Pending => Style::plain().spec_dim(),
    }
}

/// The lines of one step: its text, wrapped beside the check box.
pub open spec fn step_lines(item: PlanItemArg, width: u16) -> Seq<LineV> {
    let mark = step_box(item.status);
    let beside = room(width as nat, 4 + width::str_width(mark) as nat) as usize;
    prefix_lines_v(
        styled_lines(width::wrapped(item.step@, beside), step_style(item.status)),
        span_v(mark, Style::plain()),
        span_v("  "@, Style::plain()),
    )
}

/// The lines of all steps, in order.
pub open spec fn plan_lines(plan: Seq<PlanItemArg>, width: u16) -> Seq<LineV>
    decreases plan.len(),
{
    if plan.len() == 0 {
        seq![]
    } else {
        plan_lines(plan.drop_last(), width) + step_lines(plan.last(), width)
    }
}

/// The lines of the explanation, none where it is blank.
pub open spec fn note_lines(explanation: Option<String>, width: u16) -> Seq<LineV> {
    match explanation {
        Some(e) => if text::trim(e@).len() == 0 {
            seq![]
        } else {
            styled_lines(
                width::wrapped(text::trim(e@), room(width as nat, 4) as usize),
                Style::plain().spec_dim().spec_italic(),
            )
        },
        None => seq![],
    }
}

fn render_step(item: &PlanItemArg, width: u16) -> (r: Vec<Line>)
    ensures
        lines_view(r@) == step_lines(*item, width),
{
    let (mark, style) = match item.status {
        StepStatus::Completed => ("✔ ", Style::new().crossed_out().dim()),
        StepStatus::InProgress => ("□ ", Style::new().with_fg(Color::Cyan).bold()),
        StepStatus::Pending => ("□ ", Style::new().dim()),
    };
    let mark_width: usize = width::width_of(mark);
    let left: usize = (width as usize).saturating_sub(4).saturating_sub(mark_width);
    let beside: usize = if left > 1 { left } else { 1 };
    assert(beside == room(width as nat, 4 + width::str_width(mark@) as nat));
    let parts = wrap_styled(item.step.as_str(), beside, style);
    prefix_lines(parts, &Span::plain(mark), &Span::plain("  "))
}

impl HistoryCell for PlanUpdateCell {
    open spec fn shown(&self, width: u16) -> Seq<LineV> {
        plan_shown(self.explanation, self.plan@, width)
    }

    open spec fn continues(&self) -> bool {
        false
    }

    fn display_lines(&self, width: u16) -> (r: Vec<Line>) {
        render_plan(&self.explanation, &self.plan, width)
    }

    fn is_stream_continuation(&self) -> (b: bool) {
        false
    }
}

/// What the plan shows at `width` columns.
pub open spec fn plan_shown(explanation: Option<String>, plan: Seq<PlanItemArg>, width: u16) -> Seq<
    LineV,
> {
    let body = note_lines(explanation, width) + if plan.len() == 0 {
        seq![
            line_v(
                seq![
                    span_v(
                        "(no steps provided)"@,
                        Style::plain().spec_dim().spec_italic(),
                    ),
                ],
            ),
        ]
    } else {
        plan_lines(plan, width)
    };
    seq![
        line_v(
            seq![
                span_v("• "@, Style::plain().spec_dim()),
                span_v("Updated Plan"@, Style::plain().spec_bold()),
            ],
        ),
    ] + prefix_lines_v(
        body,
        span_v("  └ "@, Style::plain().spec_dim()),
        span_v("    "@, Style::plain()),
    )
}

fn render_plan(explanation: &Option<String>, plan: &Vec<PlanItemArg>, width: u16) -> (r: Vec<Line>)
    ensures
        lines_view(r@) == plan_shown(*explanation, plan@, width),
{
    let spans = vec![
        Span::of("• ", Style::new().dim()),
        Span::of("Updated Plan", Style::new().bold()),
    ];
    let title = Line::from_spans(spans);
    assert(title@.spans =~= seq![
        span_v("• "@, Style::plain().spec_dim()),
        span_v("Updated Plan"@, Style::plain().spec_bold()),
    ]);
    let mut lines = vec![title];
    assert(lines_view(lines@) =~= seq![title@]);

    let mut body: Vec<Line> = Vec::new();
    assert(lines_view(body@) =~= seq![]);
    if let Some(explanation) = explanation {
        let note = explanation.as_str().trim();
        if !note.is_empty() {
            let wrap_width: usize = if width > 5 { (width - 4) as usize } else { 1 };
            body = wrap_styled(note, wrap_width, Style::new().dim().italic());
        }
    }
    let ghost note = note_lines(*explanation, width);
    assert(lines_view(body@) == note);
    if plan.is_empty() {
        body.push(Line::from_styled("(no steps provided)", Style::new().dim().italic()));
        assert(lines_view(body@) =~= note + seq![body@.last()@]);
    } else {
        let mut i: usize = 0;
        assert(plan@.take(0) =~= seq![]);
        assert(note + seq![] =~= note);
        while i < plan.len()
            invariant
                i <= plan@.len(),
                lines_view(body@) == note + plan_lines(plan@.take(i as int), width),
            decreases plan@.len() - i,
        {
            append_lines(&mut body, render_step(&plan[i], width));
            proof {
                let next = plan@.take(i + 1);
                assert(next.drop_last() =~= plan@.take(i as int));
                assert(lines_view(body@) =~= note + plan_lines(next, width));
            }
            i += 1;
        }
        assert(plan@.take(i as int) =~= plan@);
    }
    append_lines(
        &mut lines,
        prefix_lines(body, &Span::of("  └ ", Style::new().dim()), &Span::plain("    ")),
    );
    lines
}

/// The lines that the plan `update` shows at `width` columns.
pub fn plan_update_lines(update: &UpdatePlanArgs, width: u16) -> (r: Vec<Line>)
    ensures
        lines_view(r@) == plan_shown(update.explanation, update.plan@, width),
{
    render_plan(&update.explanation, &update.plan, width)
}

/// A visual divider between turns, optionally showing how long the assistant
/// worked.
#[derive(Debug)]
pub struct FinalMessageSeparator {
    pub elapsed_seconds: Option<u64>,
}

impl FinalMessageSeparator {
    /// The divider for work of `elapsed_seconds`.
    pub fn new(elapsed_seconds: Option<u64>) -> (r: Self)
        ensures
            r.elapsed_seconds == elapsed_seconds,
    {
        FinalMessageSeparator { elapsed_seconds }
    }
}

/// The label of a divider for work of `secs` seconds.
pub open spec fn worked_label(secs: nat) -> Seq<char> {
    "─ Worked for "@ + status_line::elapsed_compact(secs) + " ─"@
}

impl HistoryCell for FinalMessageSeparator {
    open spec fn shown(&self, width: u16) -> Seq<LineV> {
        match self.elapsed_seconds {
            Some(secs) => {
                let label = worked_label(secs as nat);
                let used = width::str_width(label);
                let rest = if width as nat > used { (width - used) as nat } else { 0 };
                seq![
                    LineV {
                        style: Style::plain().spec_dim(),
                        spans: seq![
                            span_v(label, Style::plain()),
                            span_v(text::repeated('─', rest), Style::plain()),
                        ],
                    },
                ]
            },
            None => seq![
                line_v(
                    seq![
                        span_v(
                            text::repeated('─', width as nat),
                            Style::plain().spec_dim(),
                        ),
                    ],
                ),
            ],
        }
    }

    open spec fn continues(&self) -> bool {
        false
    }

    fn display_lines(&self, width: u16) -> (r: Vec<Line>) {
        match self.elapsed_seconds {
            Some(secs) => {
                let label = text::concat3(
                    "─ Worked for ",
                    status_line::fmt_elapsed_compact(secs).as_str(),
                    " ─",
                );
                let used: usize = width::width_of(label.as_str());
                let rest: usize = (width as usize).saturating_sub(used);
                let spans = vec![
                    Span::plain(label.as_str()),
                    Span::plain(text::repeat_char('─', rest).as_str()),
                ];
                let line = Line { style: Style::new().dim(), spans };
                assert(line@.spans =~= self.shown(width)[0].spans);
                let lines = vec![line];
                assert(lines_view(lines@) =~= seq![line@]);
                lines
            },
            None => {
                let rule = text::repeat_char('─', width as usize);
                let lines = vec![Line::from_styled(rule.as_str(), Style::new().dim())];
                assert(lines_view(lines@) =~= seq![lines@[0]@]);
                lines
            },
        }
    }

    fn is_stream_continuation(&self) -> (b: bool) {
        false
    }
}

/// The widest of `lines`, in columns.
pub open spec fn max_line_width(lines: Seq<LineV>) -> nat
    decreases lines.len(),
{
    if lines.len() == 0 {
        0
    } else {
        let rest = max_line_width(lines.drop_last());
        let w = width::line_width(lines.last());
        if w > rest {
            w
        } else {
            rest
        }
    }
}

/// The columns that a border leaves for its content: those of the widest line,
/// but never more than `width` has besides the border.
pub open spec fn bordered_width(lines: Seq<LineV>, width: u16) -> nat {
    let widest = max_line_width(lines);
    if widest <= width - 4 {
        widest
    } else {
        (width - 4) as nat
    }
}

/// `line` between the sides of a border, filled up to `content_width` columns.
pub open spec fn bordered_line(line: LineV, content_width: nat) -> LineV {
    let dim = Style::plain().spec_dim();
    let used = width::line_width(line);
    let fill = if used < content_width {
        seq![span_v(text::repeated(' ', (content_width - used) as nat), dim)]
    } else {
        seq![]
    };
    line_v(seq![span_v("│ "@, dim)] + line.spans + fill + seq![span_v(" │"@, dim)])
}

/// The upper or lower side of a border around `content_width` columns.
pub open spec fn border_rule(left: Seq<char>, content_width: nat, right: Seq<char>) -> LineV {
    line_v(
        seq![
            span_v(
                left + text::repeated('─', content_width + 2) + right,
                Style::plain().spec_dim(),
            ),
        ],
    )
}

/// `lines` inside a border sized to the widest of them, clamped to `width`
/// columns. There is no room for a border in fewer than four columns.
pub open spec fn bordered(lines: Seq<LineV>, width: u16) -> Seq<LineV> {
    if width < 4 {
        seq![]
    } else {
        let cw = bordered_width(lines, width);
        seq![border_rule("╭"@, cw, "╮"@)] + lines.map_values(|l: LineV| bordered_line(l, cw))
            + seq![border_rule("╰"@, cw, "╯"@)]
    }
}

/// Render `lines` inside a border sized to the widest of them, but clamped so it
/// never exceeds the available terminal `width`.
pub fn with_border_clamped(lines: Vec<Line>, width: u16) -> (r: Vec<Line>)
    ensures
        lines_view(r@) == bordered(lines_view(lines@), width),
{
    if width < 4 {
        let none: Vec<Line> = Vec::new();
        assert(lines_view(none@) =~= seq![]);
        return none;
    }
    let ghost source = lines_view(lines@);
    let dim = Style::new().dim();

    let mut widest: usize = 0;
    let mut i: usize = 0;
    assert(source.take(0) =~= seq![]);
    while i < lines.len()
        invariant
            i <= lines@.len(),
            source == lines_view(lines@),
            widest == max_line_width(source.take(i as int)),
        decreases lines@.len() - i,
    {
        let w: usize = width::width_of_line(&lines[i]);
        proof {
            let next = source.take(i + 1);
            assert(next.drop_last() =~= source.take(i as int));
            assert(next.last() == lines@[i as int]@);
        }
        if w > widest {
            widest = w;
        }
        i += 1;
    }
    assert(source.take(i as int) =~= source);
    let inner: usize = (width - 4) as usize;
    let content_width: usize = if widest <= inner { widest } else { inner };
    assert(content_width == bordered_width(source, width));

    let rule = text::repeat_char('─', content_width + 2);
    let top = text::concat3("╭", rule.as_str(), "╮");
    let bottom = text::concat3("╰", rule.as_str(), "╯");
    let mut out: Vec<Line> = Vec::new();
    out.push(Line::from_styled(top.as_str(), dim));
    let mut i: usize = 0;
    while i < lines.len()
        invariant
            i <= lines@.len(),
            source == lines_view(lines@),
            dim == Style::plain().spec_dim(),
            out@.len() == i + 1,
            out@[0]@ == border_rule("╭"@, content_width as nat, "╮"@),
            forall|k: int|
                1 <= k <= i ==> (#[trigger] out@[k])@ == bordered_line(
                    source[k - 1],
                    content_width as nat,
                ),
        decreases lines@.len() - i,
    {
        let used: usize = width::width_of_line(&lines[i]);
        let mut spans: Vec<Span> = Vec::new();
        spans.push(Span::of("│ ", dim));
        let mut inner_line = lines[i].duplicate();
        let ghost copied = inner_line@.spans;
        let ghost copied_spans = inner_line.spans@;
        spans.append(&mut inner_line.spans);
        assert(spans_view(spans@) =~= seq![span_v("│ "@, dim)] + copied) by {
            assert(spans@.len() == 1 + copied_spans.len());
            assert(forall|k: int| 1 <= k < spans@.len() ==> spans@[k] == copied_spans[k - 1]);
        }
        let ghost before_fill = spans@;
        if used < content_width {
            let fill = text::repeat_char(' ', content_width - used);
            spans.push(Span::of(fill.as_str(), dim));
        }
        let ghost before_side = spans@;
        spans.push(Span::of(" │", dim));
        proof {
            let line = source[i as int];
            let want = bordered_line(line, content_width as nat);
            assert(line.spans == copied);
            assert(spans_view(spans@) =~= spans_view(before_side) + seq![span_v(" │"@, dim)]);
            if used < content_width {
                assert(spans_view(before_side) =~= spans_view(before_fill) + seq![
                    span_v(text::repeated(' ', (content_width - used) as nat), dim),
                ]);
            } else {
                assert(spans_view(before_side) =~= spans_view(before_fill) + seq![]);
            }
            assert(spans_view(spans@) =~= want.spans);
        }
        out.push(Line::from_spans(spans));
        i += 1;
    }
    let ghost middle = out@;
    out.push(Line::from_styled(bottom.as_str(), dim));
    proof {
        let want = bordered(source, width);
        let cw = content_width as nat;
        assert(want.len() == source.len() + 2);
        assert forall|k: int| 0 <= k < want.len() implies lines_view(out@)[k] == want[k] by {
            if 1 <= k <= source.len() {
                assert(middle[k]@ == bordered_line(source[k - 1], cw));
            }
        }
        assert(lines_view(out@) =~= want);
    }
    out
}

/// The emoji followed by a hair space (U+200A), which leaves a small gap after
/// it across terminals.
pub fn padded_emoji(emoji: &str) -> (r: String)
    ensures
        r@ == emoji@.push('\u{200A}'),
{
    let mut s = emoji.to_string();
    s.push('\u{200A}');
    s
}

/// A newer version, shown inside a border.
#[derive(Debug)]
pub struct UpdateAvailableHistoryCell {
    pub current_version: String,
    pub latest_version: String,
    /// The command that updates, where one is known.
    pub update_command: Option<String>,
}

impl UpdateAvailableHistoryCell {
    /// The cell that announces `latest_version`.
    pub fn new(
        current_version: String,
        latest_version: String,
        update_command: Option<String>,
    ) -> (r: Self)
        ensures
            r.current_version == current_version,
            r.latest_version == latest_version,
            r.update_command == update_command,
    {
        UpdateAvailableHistoryCell { current_version, latest_version, update_command }
    }

    /// How to update.
    pub open spec fn instruction(&self) -> LineV {
        let plain = Style::plain();
        let cyan = Style::plain().spec_fg(Color::Cyan);
        match self.update_command {
            Some(command) => line_v(
                seq![
                    span_v("Run "@, plain),
                    span_v(command@, cyan.spec_bold()),
                    span_v(" to update."@, plain),
                ],
            ),
            None => line_v(
                seq![
                    span_v("See "@, plain),
                    span_v("https://github.com/breezewish/CodexPotter"@, cyan.spec_underlined()),
                    span_v(" for installation options."@, plain),
                ],
            ),
        }
    }

    /// The lines inside the border.
    pub open spec fn content(&self) -> Seq<LineV> {
        let plain = Style::plain();
        let cyan = Style::plain().spec_fg(Color::Cyan);
        seq![
            line_v(
                seq![
                    span_v("✨"@.push('\u{200A}'), cyan.spec_bold()),
                    span_v("Update available!"@, cyan.spec_bold()),
                    span_v(" "@, plain),
                    span_v(
                        self.current_version@ + " -> "@ + self.latest_version@,
                        plain.spec_bold(),
                    ),
                ],
            ),
            self.instruction(),
            line_v(seq![]),
            line_v(seq![span_v("See full release notes:"@, plain)]),
            line_v(
                seq![
                    span_v(
                        "https://github.com/breezewish/CodexPotter/releases/latest"@,
                        cyan.spec_underlined(),
                    ),
                ],
            ),
        ]
    }
}

impl HistoryCell for UpdateAvailableHistoryCell {
    open spec fn shown(&self, width: u16) -> Seq<LineV> {
        bordered(self.content(), width)
    }

    open spec fn continues(&self) -> bool {
        false
    }

    fn display_lines(&self, width: u16) -> (r: Vec<Line>) {
        let plain = Style::new();
        let cyan = Style::new().with_fg(Color::Cyan);
        let instruction = match &self.update_command {
            Some(command) => {
                let spans = vec![
                    Span::plain("Run "),
                    Span::of(command.as_str(), cyan.bold()),
                    Span::plain(" to update."),
                ];
                Line::from_spans(spans)
            },
            None => {
                let spans = vec![
                    Span::plain("See "),
                    Span::of("https://github.com/breezewish/CodexPotter", cyan.underlined()),
                    Span::plain(" for installation options."),
                ];
                Line::from_spans(spans)
            },
        };
        assert(instruction@.spans =~= self.instruction().spans);
        let versions = text::concat3(
            self.current_version.as_str(),
            " -> ",
            self.latest_version.as_str(),
        );
        let title = vec![
            Span::of(padded_emoji("✨").as_str(), cyan.bold()),
            Span::of("Update available!", cyan.bold()),
            Span::plain(" "),
            Span::of(versions.as_str(), plain.bold()),
        ];
        let title = Line::from_spans(title);
        assert(title@.spans =~= self.content()[0].spans);
        let content = vec![
            title,
            instruction,
            Line::blank(),
            Line::from_styled("See full release notes:", plain),
            Line::from_styled(
                "https://github.com/breezewish/CodexPotter/releases/latest",
                cyan.underlined(),
            ),
        ];
        assert(lines_view(content@) =~= self.content());
        with_border_clamped(content, width)
    }

    fn is_stream_continuation(&self) -> (b: bool) {
        false
    }
}

/// The line at which a cell of `line_count` lines starts to show in `height`
/// rows: its last lines win, and an area without rows does not scroll.
pub fn scroll_offset(line_count: usize, height: u16) -> (y: u16)
    ensures
        y == if height == 0 || line_count <= height {
            0
        } else if line_count - height <= u16::MAX {
            line_count - height
        } else {
            u16::MAX as int
        },
{
    if height == 0 {
        return 0;
    }
    let overflow: usize = line_count.saturating_sub(height as usize);
    if overflow <= 65535 {
        overflow as u16
    } else {
        65535
    }
}

/// Whether every character of `s` is whitespace.
pub open spec fn all_whitespace(s: Seq<char>) -> bool {
    forall|i: int| 0 <= i < s.len() ==> text::is_whitespace(#[trigger] s[i])
}

/// Whether `lines` is one line of nothing but whitespace, which always takes
/// one row of the transcript.
pub fn is_single_blank_line(lines: &Vec<Line>) -> (b: bool)
    ensures
        b == (lines@.len() == 1 && forall|i: int|
            0 <= i < lines@[0].spans@.len() ==> all_whitespace(
                #[trigger] lines@[0].spans@[i].content@,
            )),
{
    if lines.len() != 1 {
        return false;
    }
    let line = &lines[0];
    let mut i: usize = 0;
    while i < line.spans.len()
        invariant
            i <= line.spans@.len(),
            lines@.len() == 1,
            *line == lines@[0],
            forall|k: int| 0 <= k < i ==> all_whitespace(#[trigger] line.spans@[k].content@),
        decreases line.spans@.len() - i,
    {
        let chars = text::chars_of(line.spans[i].content.as_str());
        let mut j: usize = 0;
        while j < chars.len()
            invariant
                i < line.spans@.len(),
                lines@.len() == 1,
                *line == lines@[0],
                j <= chars@.len(),
                chars@ == line.spans@[i as int].content@,
                forall|k: int| 0 <= k < j ==> text::is_whitespace(#[trigger] chars@[k]),
            decreases chars@.len() - j,
        {
            if !chars[j].is_whitespace() {
                proof {
                    assert(!text::is_whitespace(line.spans@[i as int].content@[j as int]));
                    assert(!all_whitespace(line.spans@[i as int].content@));
                }
                return false;
            }
            j += 1;
        }
        i += 1;
    }
    true
}

/// What the spans of every line hold.
pub open spec fn contents_of(lines: Seq<LineV>) -> Seq<Seq<Seq<char>>> {
    lines.map_values(|line: LineV| line.spans.map_values(|span: SpanV| span.content))
}

/// The rows that `ratatui` needs for a paragraph of lines of spans with this
/// content, wrapped into `width` columns.
pub uninterp spec fn wrapped_rows(contents: Seq<Seq<Seq<char>>>, width: u16) -> usize;

/// The columns, and the characters of a line, up to which wrapping counts without
/// an overflow.
pub const MAX_WRAP: usize = 16_000;

/// How many characters the spans of a line hold.
pub open spec fn chars_in(spans: Seq<Seq<char>>) -> nat
    decreases spans.len(),
{
    if spans.len() == 0 {
        0
    } else {
        chars_in(spans.drop_last()) + spans.last().len()
    }
}

/// Whether lines with this content can be wrapped into `width` columns: there are
/// not too many columns, or no line is too long.
pub open spec fn can_wrap(contents: Seq<Seq<Seq<char>>>, width: u16) -> bool {
    width <= MAX_WRAP || forall|i: int|
        0 <= i < contents.len() ==> chars_in(#[trigger] contents[i]) <= MAX_WRAP
}

/// Calls `ratatui::widgets::Paragraph::line_count` on a paragraph that wraps and
/// keeps leading whitespace. The rows depend on what the spans hold and on the
/// width, not on styles; without a column there are none. The columns of a line
/// are added up in 16 bits: no sum passes four times the width, nor four times the
/// characters of the line.
#[verifier::external_body]
fn count_wrapped_rows(lines: &Vec<Line>, width: u16) -> (n: usize)
    requires
        can_wrap(contents_of(lines_view(lines@)), width),
    ensures
        n == wrapped_rows(contents_of(lines_view(lines@)), width),
        width == 0 ==> n == 0,
{
    let convert = |line: &Line| {
        let spans = line.spans.iter().map(|s| ratatui::text::Span::raw(s.content.clone()));
        ratatui::text::Line::from(spans.collect::<Vec<_>>())
    };
    let text: Vec<ratatui::text::Line> = lines.iter().map(convert).collect();
    ratatui::widgets::Paragraph::new(text)
        .wrap(ratatui::widgets::Wrap { trim: false })
        .line_count(width)
}

/// The height of a cell of `rows` rows; one that is too high counts as none.
pub fn cell_height(rows: usize) -> (h: u16)
    ensures
        h == if rows <= u16::MAX {
            rows as int
        } else {
            0
        },
{
    if rows <= 65535 {
        rows as u16
    } else {
        0
    }
}

/// The rows that a cell with these lines takes on a screen of `width` columns.
pub fn desired_height(lines: &Vec<Line>, width: u16) -> (h: u16)
    requires
        can_wrap(contents_of(lines_view(lines@)), width),
    ensures
        h == if wrapped_rows(contents_of(lines_view(lines@)), width) <= u16::MAX {
            wrapped_rows(contents_of(lines_view(lines@)), width) as int
        } else {
            0
        },
        width == 0 ==> h == 0,
{
    cell_height(count_wrapped_rows(lines, width))
}

/// The rows that a cell with these lines takes in the transcript: a single line
/// of whitespace takes one.
pub fn desired_transcript_height(lines: &Vec<Line>, width: u16) -> (h: u16)
    requires
        can_wrap(contents_of(lines_view(lines@)), width),
    ensures
        h == if lines@.len() == 1 && forall|i: int|
            0 <= i < lines@[0].spans@.len() ==> all_whitespace(
                #[trigger] lines@[0].spans@[i].content@,
            ) {
            1
        } else if wrapped_rows(contents_of(lines_view(lines@)), width) <= u16::MAX {
            wrapped_rows(contents_of(lines_view(lines@)), width) as int
        } else {
            0
        },
{
    if is_single_blank_line(lines) {
        return 1;
    }
    desired_height(lines, width)
}

proof fn lemma_two_spans(a: SpanV, b: SpanV)
    ensures
        spans_text(seq![a, b]) == a.content + b.content,
        spans_text(seq![a]) == a.content,
{
    assert(seq![a, b].drop_last() =~= seq![a]);
    assert(seq![a].drop_last() =~= seq![]);
    assert(spans_text(Seq::<SpanV>::empty()) =~= seq![]);
    assert(spans_text(seq![a]) =~= a.content);
}

/// A notice, an error and a deprecation show all their words; the hint of a notice
/// stands behind it, and the details of a deprecation on lines of their own.
pub proof fn law_notices_show_their_words(
    message: Seq<char>,
    hint: Seq<char>,
    cell: DeprecationNoticeCell,
    width: u16,
)
    ensures
        info_lines(message, None).len() == 1,
        line_text(info_lines(message, None)[0]) == "• "@ + message,
        info_lines(message, Some(hint)).len() == 1,
        line_text(info_lines(message, Some(hint))[0]) == "• "@ + message + " "@ + hint,
        error_lines(message).len() == 1,
        line_text(error_lines(message)[0]) == "■ "@ + message,
        line_text(cell.shown(width)[0]) == "⚠ "@ + cell.summary@,
        cell.details is None ==> cell.shown(width).len() == 1,
        cell.details matches Some(details) ==> {
            let parts = width::wrapped(
                details@,
                if width > 5 {
                    (width - 4) as usize
                } else {
                    1
                },
            );
            &&& cell.shown(width).len() == parts.len() + 1
            &&& forall|i: int|
                #![trigger parts[i]]
                0 <= i < parts.len() ==> line_text(cell.shown(width)[i + 1]) == parts[i]
        },
{
    let plain = info_lines(message, None)[0].spans;
    lemma_two_spans(plain[0], plain[1]);
    assert(plain =~= seq![plain[0], plain[1]]);
    let hinted = info_lines(message, Some(hint))[0].spans;
    assert(hinted =~= seq![hinted[0], hinted[1]] + seq![hinted[2], hinted[3]]);
    lemma_spans_text(seq![hinted[0], hinted[1]], seq![hinted[2], hinted[3]]);
    lemma_two_spans(hinted[0], hinted[1]);
    lemma_two_spans(hinted[2], hinted[3]);
    assert(spans_text(hinted) =~= "• "@ + message + " "@ + hint);
    lemma_two_spans(error_lines(message)[0].spans[0], error_lines(message)[0].spans[0]);
    let head = cell.shown(width)[0].spans;
    lemma_two_spans(head[0], head[1]);
    assert(head =~= seq![head[0], head[1]]);
    if let Some(details) = cell.details {
        let parts = width::wrapped(
            details@,
            if width > 5 {
                (width - 4) as usize
            } else {
                1
            },
        );
        assert forall|i: int| #![trigger parts[i]] 0 <= i < parts.len() implies line_text(
            cell.shown(width)[i + 1],
        ) == parts[i] by {
            let span = span_v(parts[i], Style::plain().spec_dim());
            assert(cell.shown(width)[i + 1].spans =~= seq![span]);
            lemma_two_spans(span, span);
        }
    }
}

/// The box of a step is checked exactly where the step is completed, and then its
/// text is crossed out; only the step in progress is bright.
pub proof fn law_boxes_tell_the_status(status: StepStatus)
    ensures
        step_box(status) == if status == StepStatus::Completed {
            "✔ "@
        } else {
            "□ "@
        },
        step_style(status).add.crossed_out <==> status == StepStatus::Completed,
        step_style(status).add.dim <==> status != StepStatus::InProgress,
        step_style(status).add.bold <==> status == StepStatus::InProgress,
        step_style(status).fg == Some(Color::Cyan) <==> status == StepStatus::InProgress,
{
}

/// Every step of a plan is shown, in order, one behind the other: the lines of a
/// step stand behind those of all steps before it.
pub proof fn law_every_step_is_shown(plan: Seq<PlanItemArg>, width: u16, i: int)
    requires
        0 <= i < plan.len(),
    ensures
        ({
            let before = plan_lines(plan.take(i), width);
            let step = step_lines(plan[i], width);
            &&& before.len() + step.len() <= plan_lines(plan, width).len()
            &&& plan_lines(plan, width).subrange(
                before.len() as int,
                (before.len() + step.len()) as int,
            ) == step
            &&& i == plan.len() - 1 ==> plan_lines(plan, width).len() == before.len() + step.len()
        }),
    decreases plan.len(),
{
    let rest = plan.drop_last();
    let before = plan_lines(plan.take(i), width);
    let step = step_lines(plan[i], width);
    let end = (before.len() + step.len()) as int;
    if i == plan.len() - 1 {
        assert(plan.take(i) =~= rest);
        assert(plan_lines(plan, width).subrange(before.len() as int, end) =~= step);
    } else {
        law_every_step_is_shown(rest, width, i);
        assert(rest.take(i) =~= plan.take(i));
        assert(plan_lines(plan, width).subrange(before.len() as int, end) =~= plan_lines(
            rest,
            width,
        ).subrange(before.len() as int, end));
    }
}

/// The text of a step stands behind its box, wrapped into the columns beside it, and
/// further lines are indented by two columns.
pub proof fn law_step_stands_behind_its_box(item: PlanItemArg, width: u16, k: int)
    ensures
        ({
            let lines = step_lines(item, width);
            let mark = if item.status == StepStatus::Completed {
                "✔ "@
            } else {
                "□ "@
            };
            let beside = 4 + width::str_width(mark);
            let parts = width::wrapped(
                item.step@,
                if width > beside + 1 {
                    (width - beside) as usize
                } else {
                    1
                },
            );
            &&& lines.len() == parts.len()
            &&& 0 <= k < parts.len() ==> line_text(lines[k]) == (if k == 0 {
                mark
            } else {
                "  "@
            }) + parts[k]
        }),
{
    let mark = step_box(item.status);
    let parts = width::wrapped(
        item.step@,
        room(width as nat, 4 + width::str_width(mark) as nat) as usize,
    );
    let texts = styled_lines(parts, step_style(item.status));
    if 0 <= k < parts.len() {
        crate::styled::law_prefixed_lines_show_the_same(
            texts,
            span_v(mark, Style::plain()),
            span_v("  "@, Style::plain()),
            k,
        );
        let span = span_v(parts[k], step_style(item.status));
        assert(texts[k].spans =~= seq![span]);
        lemma_two_spans(span, span);
    }
}

/// A plan is shown below its title; where it has no steps it says so, and a blank
/// explanation is left out.
pub proof fn law_plan_is_shown_below_its_title(
    explanation: Option<String>,
    plan: Seq<PlanItemArg>,
    width: u16,
)
    ensures
        ({
            let shown = plan_shown(explanation, plan, width);
            let note = note_lines(explanation, width);
            &&& line_text(shown[0]) == "• "@ + "Updated Plan"@
            &&& plan.len() == 0 ==> shown.len() == 2 + note.len() && text::ends_in(
                line_text(shown.last()),
                "(no steps provided)"@,
            )
            &&& plan.len() > 0 ==> shown.len() == 1 + note.len() + plan_lines(plan, width).len()
            &&& forall|i: int|
                #![trigger note[i]]
                0 <= i < note.len() ==> text::ends_in(line_text(shown[i + 1]), line_text(note[i]))
            &&& plan.len() > 0 ==> forall|i: int|
                #![trigger plan_lines(plan, width)[i]]
                0 <= i < plan_lines(plan, width).len() ==> text::ends_in(
                    line_text(shown[1 + note.len() + i]),
                    line_text(plan_lines(plan, width)[i]),
                )
        }),
        explanation is None || text::trim(explanation->0@).len() == 0 ==> note_lines(
            explanation,
            width,
        ).len() == 0,
{
    let shown = plan_shown(explanation, plan, width);
    let note = note_lines(explanation, width);
    let steps = plan_lines(plan, width);
    let none = span_v("(no steps provided)"@, Style::plain().spec_dim().spec_italic());
    let body = note + if plan.len() == 0 {
        seq![line_v(seq![none])]
    } else {
        steps
    };
    let first = span_v("  └ "@, Style::plain().spec_dim());
    let other = span_v("    "@, Style::plain());
    assert(shown.len() == 1 + body.len());
    assert forall|i: int| 0 <= i < body.len() implies text::ends_in(
        line_text(#[trigger] shown[i + 1]),
        line_text(body[i]),
    ) by {
        crate::styled::law_prefixed_lines_show_the_same(body, first, other, i);
        text::lemma_ends_in(
            if i == 0 {
                first.content
            } else {
                other.content
            },
            line_text(body[i]),
        );
    }
    lemma_two_spans(shown[0].spans[0], shown[0].spans[1]);
    assert(shown[0].spans =~= seq![shown[0].spans[0], shown[0].spans[1]]);
    lemma_two_spans(none, none);
    assert forall|i: int| #![trigger note[i]] 0 <= i < note.len() implies text::ends_in(
        line_text(shown[i + 1]),
        line_text(note[i]),
    ) by {
        assert(body[i] == note[i]);
    }
    if plan.len() > 0 {
        assert forall|i: int| #![trigger steps[i]] 0 <= i < steps.len() implies text::ends_in(
            line_text(shown[1 + note.len() + i]),
            line_text(steps[i]),
        ) by {
            let k = note.len() + i;
            assert(body[k] == steps[i]);
            assert(text::ends_in(line_text(shown[k + 1]), line_text(body[k])));
        }
    } else {
        let k = note.len() as int;
        assert(body[k] == line_v(seq![none]));
        assert(text::ends_in(line_text(shown[k + 1]), line_text(body[k])));
    }
}

/// A divider without a time is a rule over the whole width; one with a time says for
/// how long the assistant worked, and the rule behind it reaches the right side.
pub proof fn law_divider_reaches_the_right_side(secs: u64, width: u16)
    ensures
        ({
            let rule = (FinalMessageSeparator { elapsed_seconds: None }).shown(width);
            &&& rule.len() == 1
            &&& line_text(rule[0]).len() == width
            &&& forall|i: int| 0 <= i < width ==> #[trigger] line_text(rule[0])[i] == '─'
        }),
        ({
            let cell = (FinalMessageSeparator { elapsed_seconds: Some(secs) }).shown(width);
            let label = "─ Worked for "@ + status_line::elapsed_compact(secs as nat) + " ─"@;
            let used = width::str_width(label) as int;
            &&& cell.len() == 1
            &&& line_text(cell[0]).take(label.len() as int) == label
            &&& line_text(cell[0]).len() == label.len() + if width > used {
                width - used
            } else {
                0
            }
            &&& forall|i: int|
                label.len() <= i < line_text(cell[0]).len() ==> #[trigger] line_text(cell[0])[i]
                    == '─'
        }),
{
    let rule = (FinalMessageSeparator { elapsed_seconds: None }).shown(width)[0].spans;
    lemma_two_spans(rule[0], rule[0]);
    assert(rule =~= seq![rule[0]]);
    let cell = (FinalMessageSeparator { elapsed_seconds: Some(secs) }).shown(width)[0].spans;
    lemma_two_spans(cell[0], cell[1]);
    assert(cell =~= seq![cell[0], cell[1]]);
    let label = worked_label(secs as nat);
    assert(spans_text(cell).take(label.len() as int) =~= label);
}

/// The widest line is at least as wide as every line, and as wide as one of them.
pub proof fn law_widest_line(lines: Seq<LineV>)
    ensures
        forall|i: int|
            0 <= i < lines.len() ==> width::line_width(#[trigger] lines[i]) <= max_line_width(lines),
        lines.len() > 0 ==> exists|i: int|
            0 <= i < lines.len() && width::line_width(#[trigger] lines[i]) == max_line_width(lines),
        lines.len() == 0 ==> max_line_width(lines) == 0,
    decreases lines.len(),
{
    if lines.len() > 0 {
        let rest = lines.drop_last();
        let last = lines.len() - 1;
        law_widest_line(rest);
        assert(forall|i: int| 0 <= i < last ==> #[trigger] lines[i] == rest[i]);
        assert forall|i: int| 0 <= i < lines.len() implies width::line_width(#[trigger] lines[i])
            <= max_line_width(lines) by {
            if i < last {
                assert(width::line_width(rest[i]) <= max_line_width(rest));
            }
        }
        if width::line_width(lines[last]) > max_line_width(rest) || rest.len() == 0 {
            assert(width::line_width(lines[last]) == max_line_width(lines));
        } else {
            let i = choose|i: int|
                0 <= i < rest.len() && width::line_width(#[trigger] rest[i]) == max_line_width(rest);
            assert(width::line_width(lines[i]) == max_line_width(lines));
        }
    }
}

/// A border stands round its lines: a rule above and below, a side on the left and on
/// the right of every line, and all that the line shows in between. The rules are as
/// long as the widest line with its sides, but never longer than the screen. Where
/// there is no room for a border, nothing is shown.
pub proof fn law_border_surrounds_its_lines(lines: Seq<LineV>, width: u16, i: int)
    ensures
        width < 4 ==> bordered(lines, width).len() == 0,
        width >= 4 ==> {
            let r = bordered(lines, width);
            let widest = max_line_width(lines);
            &&& r.len() == lines.len() + 2
            &&& line_text(r[0]).len() == if widest + 4 <= width {
                widest + 4
            } else {
                width as nat
            }
            &&& line_text(r.last()).len() == line_text(r[0]).len()
            &&& line_text(r[0])[0] == '╭' && line_text(r[0]).last() == '╮'
            &&& line_text(r.last())[0] == '╰' && line_text(r.last()).last() == '╯'
            &&& 0 <= i < lines.len() ==> {
                let n = lines[i].spans.len() as int;
                &&& r[i + 1].spans[0].content == "│ "@
                &&& r[i + 1].spans.subrange(1, n + 1) == lines[i].spans
                &&& r[i + 1].spans.last().content == " │"@
                &&& r[i + 1].spans.len() == n + 2 || (r[i + 1].spans.len() == n + 3
                    && r[i + 1].spans[n + 1].content.len() + width::line_width(lines[i]) + 4
                    == line_text(r[0]).len())
            }
        },
{
    if width >= 4 {
        reveal_strlit("╭");
        reveal_strlit("╮");
        reveal_strlit("╰");
        reveal_strlit("╯");
        let r = bordered(lines, width);
        let top = r[0].spans;
        let bottom = r.last().spans;
        lemma_two_spans(top[0], top[0]);
        lemma_two_spans(bottom[0], bottom[0]);
        assert(top =~= seq![top[0]]);
        assert(bottom =~= seq![bottom[0]]);
        if 0 <= i < lines.len() {
            let n = lines[i].spans.len() as int;
            assert(r[i + 1] == bordered_line(lines[i], bordered_width(lines, width)));
            assert(r[i + 1].spans.subrange(1, n + 1) =~= lines[i].spans);
        }
    }
}

/// The announcement of a newer version shows both versions, the current one first,
/// and the command that updates, or else where to find one.
pub proof fn law_update_is_announced(cell: UpdateAvailableHistoryCell, width: u16)
    ensures
        cell.content()[0].spans.last().content == cell.current_version@ + " -> "@
            + cell.latest_version@,
        cell.update_command matches Some(command) ==> cell.content()[1].spans.len() == 3
            && cell.content()[1].spans[0].content == "Run "@ && cell.content()[1].spans[1].content
            == command@,
        cell.update_command is None ==> cell.content()[1].spans[0].content == "See "@
            && cell.content()[1].spans[1].content == "https://github.com/breezewish/CodexPotter"@,
        cell.content().last().spans[0].content
            == "https://github.com/breezewish/CodexPotter/releases/latest"@,
        width >= 4 ==> cell.shown(width).len() == 7,
        width < 4 ==> cell.shown(width).len() == 0,
{
}

} // verus!
