//! The dialog behind `/verbosity`, with its preview.

use vstd::prelude::*;

use crate::bottom_pane::list_selection_view::{
    SelectionAction, SelectionItem, SelectionViewParams, SideContentWidth,
};
use crate::exec_cell::ExecCell;
use crate::geometry::{clamp_u16, max_int, min_int, sat_add, sat_sub, Rect};
use crate::protocol::{ChangedFile, ExecCommandEndEvent, ExecCommandSource, FileChange};
use crate::reasoning_status::opt_text;
use crate::startup_setup::StartupSetupStep;
use crate::styled::{
    append_lines, blank_line_v, dim_lines, dim_lines_v, line_v, lines_view, span_v, text_line_v,
    Line, LineV, Span, Style,
};
use crate::text;
use crate::verbosity::Verbosity;
use crate::yolo_picker::is_choice;

verus! {

/// The columns that the preview needs beside the choices.
pub const WIDE_PREVIEW_MIN_WIDTH: u16 = 40;

/// The columns in front of the preview beside the choices.
pub const WIDE_PREVIEW_LEFT_INSET: u16 = 2;

/// The rows above and below the preview beside the choices, where there is room.
pub const PREVIEW_FRAME_PADDING: u16 = 1;

/// The rows of the preview below the choices.
pub const NARROW_PREVIEW_HEIGHT: u16 = 4;

/// The rows above `content` rows that stand in the middle of `available` rows.
pub open spec fn centered(available: int, content: int, min_frame: int) -> int {
    let free = sat_sub(available, content);
    let frame = if free >= sat_mul2(min_frame) {
        min_frame
    } else {
        0
    };
    frame + sat_sub(free, sat_mul2(frame)) / 2
}

/// Twice `n`, at most the largest `u16`.
pub open spec fn sat_mul2(n: int) -> int {
    sat_add(n, n)
}

/// The rows above `content` rows that stand in the middle of `available` rows.
pub fn centered_offset(available: u16, content: u16, min_frame: u16) -> (r: u16)
    ensures
        r == centered(available as int, content as int, min_frame as int),
{
    let free: u16 = available.saturating_sub(content);
    let frame: u16 = if free >= min_frame.saturating_add(min_frame) { min_frame } else { 0 };
    frame + free.saturating_sub(frame.saturating_add(frame)) / 2
}

/// What stands in the middle has as many rows above as below, or one fewer.
pub proof fn law_centered_is_in_the_middle(available: u16, content: u16, min_frame: u16)
    requires
        content <= available,
        min_frame < 0x8000,
    ensures
        ({
            let above = centered(available as int, content as int, min_frame as int);
            let below = available - content - above;
            below == above || below == above + 1
        }),
{
}

/// What the cells of the preview show at some width.
#[derive(Debug)]
pub struct PreviewParts {
    pub commentary: Vec<Line>,
    pub ran: Vec<Line>,
    pub patch: Vec<Line>,
    /// The patch as the most compact view shows it.
    pub compact_patch: Vec<Line>,
    pub final_answer: Vec<Line>,
}

/// The lines of the commentary before they are laid out: dim in the most compact
/// view.
pub fn preview_commentary_lines(verbosity: Verbosity, lines: Vec<Line>) -> (r: Vec<Line>)
    ensures
        lines_view(r@) == if verbosity == Verbosity::Minimal {
            dim_lines_v(lines_view(lines@))
        } else {
            lines_view(lines@)
        },
{
    match verbosity {
        Verbosity::Minimal => dim_lines(lines),
        Verbosity::Simple => lines,
    }
}

/// `out` with the lines of a cell behind it, and an empty line between.
pub open spec fn with_cell(out: Seq<LineV>, cell: Seq<LineV>) -> Seq<LineV> {
    if cell.len() == 0 {
        out
    } else if out.len() == 0 {
        cell
    } else {
        out.push(blank_line_v()) + cell
    }
}

fn append_preview_cell(out: &mut Vec<Line>, cell: Vec<Line>)
    ensures
        lines_view(final(out)@) == with_cell(lines_view(old(out)@), lines_view(cell@)),
{
    assert(lines_view(cell@).len() == cell@.len());
    assert(lines_view(out@).len() == out@.len());
    let ghost before = lines_view(out@);
    let ghost added = lines_view(cell@);
    if cell.len() == 0 {
        return;
    }
    if out.len() > 0 {
        out.push(Line::blank());
        assert(lines_view(out@) =~= before.push(blank_line_v()));
    }
    append_lines(out, cell);
    assert(lines_view(out@) =~= with_cell(before, added));
}

/// The full preview: what the interface shows of a short exchange.
pub open spec fn full_preview(
    verbosity: Verbosity,
    commentary: Seq<LineV>,
    ran: Seq<LineV>,
    patch: Seq<LineV>,
    final_answer: Seq<LineV>,
) -> Seq<LineV> {
    let start = with_cell(seq![], commentary);
    let worked = if verbosity == Verbosity::Simple {
        with_cell(start, ran)
    } else {
        start
    };
    with_cell(with_cell(worked, patch), final_answer)
}

/// The full preview.
pub fn build_full_preview_lines(verbosity: Verbosity, parts: PreviewParts) -> (r: Vec<Line>)
    ensures
        lines_view(r@) == full_preview(
            verbosity,
            lines_view(parts.commentary@),
            lines_view(parts.ran@),
            lines_view(parts.patch@),
            lines_view(parts.final_answer@),
        ),
{
    let mut out: Vec<Line> = Vec::new();
    assert(lines_view(out@) =~= seq![]);
    append_preview_cell(&mut out, parts.commentary);
    match verbosity {
        Verbosity::Simple => append_preview_cell(&mut out, parts.ran),
        Verbosity::Minimal => {},
    }
    append_preview_cell(&mut out, parts.patch);
    append_preview_cell(&mut out, parts.final_answer);
    out
}

/// The line at `i`, or an empty one where there is none.
pub open spec fn line_or_blank(lines: Seq<LineV>, i: int) -> LineV {
    if i < lines.len() {
        lines[i]
    } else {
        blank_line_v()
    }
}

/// The compact preview.
pub open spec fn compact_preview(verbosity: Verbosity, ran: Seq<LineV>, patch: Seq<LineV>) -> Seq<
    LineV,
> {
    let style = Style::plain().spec_dim().spec_italic();
    match verbosity {
        Verbosity::Minimal => seq![
            line_v(seq![span_v("commentary is dimmed"@, style)]),
            line_or_blank(patch, 0),
            line_or_blank(patch, 1),
            line_or_blank(patch, 2),
        ],
        Verbosity::Simple => seq![
            line_v(seq![span_v("commentary is normal"@, style)]),
            line_or_blank(ran, 0),
            line_or_blank(patch, 0),
            line_or_blank(patch, 1),
        ],
    }
}

fn nth_line(lines: &Vec<Line>, i: usize) -> (r: Line)
    ensures
        r@ == line_or_blank(lines_view(lines@), i as int),
{
    if i < lines.len() {
        lines[i].duplicate()
    } else {
        Line::blank()
    }
}

fn styled_line(content: &str, style: Style) -> (r: Line)
    ensures
        r@ == line_v(seq![span_v(content@, style)]),
{
    let mut spans: Vec<Span> = Vec::new();
    spans.push(Span::of(content, style));
    let r = Line::from_spans(spans);
    assert(r@.spans =~= seq![span_v(content@, style)]);
    r
}

/// The compact preview, which has as many rows as there are for it.
pub fn build_compact_preview_lines(verbosity: Verbosity, parts: &PreviewParts) -> (r: Vec<Line>)
    ensures
        lines_view(r@) == compact_preview(
            verbosity,
            lines_view(parts.ran@),
            lines_view(parts.compact_patch@),
        ),
        r@.len() == NARROW_PREVIEW_HEIGHT,
{
    let style = Style::new().dim().italic();
    let mut out: Vec<Line> = Vec::new();
    match verbosity {
        Verbosity::Minimal => {
            out.push(styled_line("commentary is dimmed", style));
            out.push(nth_line(&parts.compact_patch, 0));
            out.push(nth_line(&parts.compact_patch, 1));
            out.push(nth_line(&parts.compact_patch, 2));
        },
        Verbosity::Simple => {
            out.push(styled_line("commentary is normal", style));
            out.push(nth_line(&parts.ran, 0));
            out.push(nth_line(&parts.compact_patch, 0));
            out.push(nth_line(&parts.compact_patch, 1));
        },
    }
    assert(lines_view(out@) =~= compact_preview(
        verbosity,
        lines_view(parts.ran@),
        lines_view(parts.compact_patch@),
    ));
    out
}

/// The rows that a preview needs, whichever verbosity is highlighted.
pub fn preview_required_height(minimal_lines: usize, simple_lines: usize) -> (r: u16)
    ensures
        r == min_int(max_int(minimal_lines as int, simple_lines as int), u16::MAX as int),
{
    clamp_u16(if minimal_lines >= simple_lines { minimal_lines } else { simple_lines })
}

/// The columns for which the preview beside the choices is laid out.
pub fn wide_preview_width(width: u16) -> (r: u16)
    ensures
        r == max_int(sat_sub(width as int, WIDE_PREVIEW_LEFT_INSET as int), 1),
{
    let w: u16 = width.saturating_sub(WIDE_PREVIEW_LEFT_INSET);
    if w < 1 {
        1
    } else {
        w
    }
}

/// The part of `area` in which a preview is drawn; at least one column of it.
pub open spec fn preview_area_v(area: Rect, left_inset: u16) -> Option<Rect> {
    let pad = min_int(left_inset as int, area.width - 1);
    if area.spec_is_empty() {
        None
    } else {
        Some(Rect::spec_new(sat_add(area.x as int, pad), area.y as int, area.width - pad, area.height as int))
    }
}

/// The part of `area` in which a preview is drawn.
pub fn preview_area(area: Rect, left_inset: u16) -> (r: Option<Rect>)
    ensures
        r == preview_area_v(area, left_inset),
{
    if area.is_empty() {
        return None;
    }
    let most: u16 = area.width - 1;
    let pad: u16 = if left_inset <= most { left_inset } else { most };
    Some(Rect::new(area.x.saturating_add(pad), area.y, area.width - pad, area.height))
}

/// The lines of a preview as they are drawn: with empty lines in front where it
/// stands in the middle of `height` rows.
///
/// Only the last sixteen bits of the number of lines count.
pub fn frame_preview(lines: Vec<Line>, height: u16, center_vertically: bool) -> (r: Vec<Line>)
    ensures
        ({
            let content = min_int(lines@.len() as int % 0x10000, height as int);
            let pad = if center_vertically && lines@.len() > 0 {
                centered(height as int, content, PREVIEW_FRAME_PADDING as int)
            } else {
                0
            };
            lines_view(r@) == Seq::new(pad as nat, |i: int| blank_line_v()) + lines_view(lines@)
        }),
{
    let n: u16 = (lines.len() % 0x10000) as u16;
    let content: u16 = if n <= height { n } else { height };
    let pad: u16 = if center_vertically && lines.len() > 0 {
        centered_offset(height, content, PREVIEW_FRAME_PADDING)
    } else {
        0
    };
    let mut out: Vec<Line> = Vec::new();
    let mut i: u16 = 0;
    assert(lines_view(out@) =~= Seq::new(0, |i: int| blank_line_v()));
    while i < pad
        invariant
            i <= pad,
            lines_view(out@) == Seq::new(i as nat, |i: int| blank_line_v()),
        decreases pad - i,
    {
        let ghost before = lines_view(out@);
        out.push(Line::blank());
        assert(lines_view(out@) =~= before.push(blank_line_v()));
        assert(lines_view(out@) =~= Seq::new((i + 1) as nat, |i: int| blank_line_v()));
        i += 1;
    }
    append_lines(&mut out, lines);
    out
}

/// The verbosity of a choice.
pub open spec fn verbosity_at(idx: int) -> Option<Verbosity> {
    if idx == 0 {
        Some(Verbosity::Minimal)
    } else if idx == 1 {
        Some(Verbosity::Simple)
    } else {
        None
    }
}

/// The verbosity of the choice at `idx`.
pub fn verbosity_of_choice(idx: usize) -> (r: Option<Verbosity>)
    ensures
        r == verbosity_at(idx as int),
{
    if idx == 0 {
        Some(Verbosity::Minimal)
    } else if idx == 1 {
        Some(Verbosity::Simple)
    } else {
        None
    }
}

/// The lines above the choices on the first start.
pub open spec fn startup_header(setup_step: Option<StartupSetupStep>) -> Seq<LineV> {
    match setup_step {
        Some(step) if step.is_shown() => seq![
            LineV { style: Style::plain().spec_dim(), spans: text_line_v(step.label_v()).spans },
            blank_line_v(),
        ],
        _ => seq![],
    }
}

/// The lines above the choices on the first start.
pub fn startup_picker_header(setup_step: Option<StartupSetupStep>) -> (r: Vec<Line>)
    ensures
        lines_view(r@) == startup_header(setup_step),
{
    let mut out: Vec<Line> = Vec::new();
    if let Some(step) = setup_step {
        if step.should_render() {
            let mut line = Line::from_text(step.label().as_str());
            line.style = line.style.dim();
            out.push(line);
            out.push(Line::blank());
        }
    }
    assert(lines_view(out@) =~= startup_header(setup_step));
    out
}

/// Whether `params` are those of the dialog, apart from the lines below the
/// choices.
pub open spec fn is_verbosity_dialog(
    params: SelectionViewParams,
    current: Option<Verbosity>,
    initial: Verbosity,
    with_actions: bool,
) -> bool {
    &&& opt_text(params.title) == Some("Select Verbosity"@)
    &&& opt_text(params.subtitle) == Some("Choose how interim transcript items are shown"@)
    &&& params.items@.len() == 2
    &&& forall|i: int|
        #![trigger params.items@[i]]
        0 <= i < 2 ==> {
            let verbosity = verbosity_at(i)->0;
            &&& is_choice(
                params.items@[i],
                verbosity.label_v(),
                verbosity.description_v(),
                if with_actions {
                    seq![SelectionAction::VerbositySelected(verbosity)]
                } else {
                    seq![]
                },
            )
            &&& params.items@[i].is_current == (current == Some(verbosity))
            &&& params.items@[i].is_default == (verbosity == Verbosity::Minimal)
        }
    &&& params.initial_selected_idx matches Some(idx) && verbosity_at(idx as int) == Some(initial)
    &&& params.side_content_width == SideContentWidth::Half
    &&& params.side_content_min_width == WIDE_PREVIEW_MIN_WIDTH
    &&& params.fit_popup_height_to_side_content
    &&& params.preserve_side_content_bg
    &&& params.notify_selection_changed
    &&& !params.notify_cancel
    &&& !params.is_searchable
    &&& params.search_placeholder is None
}

fn build_choice(verbosity: Verbosity, is_current: bool, with_action: bool) -> (r: SelectionItem)
    ensures
        is_choice(
            r,
            verbosity.label_v(),
            verbosity.description_v(),
            if with_action {
                seq![SelectionAction::VerbositySelected(verbosity)]
            } else {
                seq![]
            },
        ),
        r.is_current == is_current,
        r.is_default == (verbosity == Verbosity::Minimal),
{
    let mut item = SelectionItem::default();
    item.name = verbosity.label().to_string();
    item.description = Some(verbosity.description().to_string());
    item.is_current = is_current;
    item.is_default =
    match verbosity {
        Verbosity::Minimal => true,
        Verbosity::Simple => false,
    };
    item.dismiss_on_select = true;
    if with_action {
        item.actions.push(SelectionAction::VerbositySelected(verbosity));
        assert(item.actions@ =~= seq![SelectionAction::VerbositySelected(verbosity)]);
    }
    item
}

fn is_same(current: Option<Verbosity>, verbosity: Verbosity) -> (b: bool)
    ensures
        b == (current == Some(verbosity)),
{
    match current {
        Some(v) => v == verbosity,
        None => false,
    }
}

fn build_params(
    current: Option<Verbosity>,
    initial: Verbosity,
    footer_note: Option<Line>,
    footer_hint: Line,
    with_actions: bool,
) -> (r: SelectionViewParams)
    ensures
        is_verbosity_dialog(r, current, initial, with_actions),
        r.footer_note == footer_note,
        r.footer_hint == Some(footer_hint),
{
    let mut params = SelectionViewParams::default();
    params.title = Some("Select Verbosity".to_string());
    params.subtitle = Some("Choose how interim transcript items are shown".to_string());
    params.footer_note = footer_note;
    params.footer_hint = Some(footer_hint);
    let minimal = build_choice(
        Verbosity::Minimal,
        is_same(current, Verbosity::Minimal),
        with_actions,
    );
    let simple = build_choice(
        Verbosity::Simple,
        is_same(current, Verbosity::Simple),
        with_actions,
    );
    params.items.push(minimal);
    params.items.push(simple);
    params.initial_selected_idx =
    Some(
        match initial {
            Verbosity::Minimal => 0,
            Verbosity::Simple => 1,
        },
    );
    params.side_content_width = SideContentWidth::Half;
    params.side_content_min_width = WIDE_PREVIEW_MIN_WIDTH;
    params.fit_popup_height_to_side_content = true;
    params.preserve_side_content_bg = true;
    params.notify_selection_changed = true;
    params
}

/// The dialog behind `/verbosity`. `footer_hint` names the keys that confirm and
/// leave it.
pub fn build_verbosity_picker_params(current: Verbosity, footer_hint: Line) -> (r:
    SelectionViewParams)
    ensures
        is_verbosity_dialog(r, Some(current), current, true),
        r.footer_note is None,
        r.footer_hint == Some(footer_hint),
{
    build_params(Some(current), current, None, footer_hint, true)
}

/// The dialog of the first start: nothing is current yet, and what is picked is
/// left to the caller. Above the choices stand the lines of
/// [`startup_picker_header`].
pub fn build_startup_verbosity_picker_params(footer_hint: Line) -> (r: SelectionViewParams)
    ensures
        is_verbosity_dialog(r, None, Verbosity::Minimal, false),
        r.footer_note matches Some(note) && note@ == (LineV {
            style: Style::plain().spec_dim(),
            spans: text_line_v("You can change this later via /verbosity."@).spans,
        }),
        r.footer_hint == Some(footer_hint),
{
    let mut note = Line::from_text("You can change this later via /verbosity.");
    note.style = note.style.dim();
    build_params(None, Verbosity::Minimal, Some(note), footer_hint, false)
}

/// The commentary of the preview.
pub const PREVIEW_COMMENTARY: &'static str =
    "I'll first align the rollout and rendering pipeline, then implement `/verbosity`.";

/// The answer of the preview.
pub const PREVIEW_FINAL_ANSWER: &'static str = "Final answer text stays fully visible.";

/// The changes that the patch of the preview makes.
pub fn preview_patch_changes() -> (r: Vec<ChangedFile>)
    ensures
        r@.len() == 2,
        r@[0].path@ == "protocol/src/models.rs"@,
        r@[0].change matches FileChange::Update { unified_diff, move_path } && unified_diff@
            == "--- a/protocol/src/models.rs\n+++ b/protocol/src/models.rs\n@@ -3,1 +3,2 @@\n-use serde::Serialize;\n+use serde::Deserialize;\n+use serde::Serialize;\n"@
            && move_path is None,
        r@[1].path@ == "protocol/src/protocol.rs"@,
        r@[1].change matches FileChange::Update { unified_diff, move_path } && unified_diff@
            == "--- a/protocol/src/protocol.rs\n+++ b/protocol/src/protocol.rs\n@@ -10,1 +10,2 @@\n pub struct Foo;\n+pub struct Bar;\n"@
            && move_path is None,
{
    let models = "--- a/protocol/src/models.rs\n+++ b/protocol/src/models.rs\n@@ -3,1 +3,2 @@\n-use serde::Serialize;\n+use serde::Deserialize;\n+use serde::Serialize;\n";
    let protocol = "--- a/protocol/src/protocol.rs\n+++ b/protocol/src/protocol.rs\n@@ -10,1 +10,2 @@\n pub struct Foo;\n+pub struct Bar;\n";
    let mut changes: Vec<ChangedFile> = Vec::new();
    changes.push(
        ChangedFile {
            path: "protocol/src/models.rs".to_string(),
            change: FileChange::Update { unified_diff: models.to_string(), move_path: None },
        },
    );
    changes.push(
        ChangedFile {
            path: "protocol/src/protocol.rs".to_string(),
            change: FileChange::Update { unified_diff: protocol.to_string(), move_path: None },
        },
    );
    changes
}

/// The command of the preview, which succeeds after a moment.
pub fn preview_ran_cell() -> (r: ExecCell)
    ensures
        r.calls@.len() == 1,
        r.calls@[0].call_id@ == "preview-ran"@,
        text::texts(r.calls@[0].command@) == seq!["rg"@, "-n"@, "verbosity"@, "-S"@, "tui/src"@],
        r.calls@[0].source == ExecCommandSource::Agent,
        !r.calls@[0].exploring,
        r.calls@[0].interaction_input is None,
        r.calls@[0].exit_code == 0,
        r.calls@[0].aggregated_output@.len() == 0,
        r.calls@[0].formatted_output@.len() == 0,
        r.calls@[0].duration_nanos == 120_000_000,
{
    let mut command: Vec<String> = Vec::new();
    command.push("rg".to_string());
    command.push("-n".to_string());
    command.push("verbosity".to_string());
    command.push("-S".to_string());
    command.push("tui/src".to_string());
    assert(text::texts(command@) =~= seq!["rg"@, "-n"@, "verbosity"@, "-S"@, "tui/src"@]);
    let mut calls: Vec<ExecCommandEndEvent> = Vec::new();
    calls.push(
        ExecCommandEndEvent {
            call_id: "preview-ran".to_string(),
            command,
            source: ExecCommandSource::Agent,
            exploring: false,
            interaction_input: None,
            exit_code: 0,
            stdout: String::new(),
            stderr: String::new(),
            aggregated_output: String::new(),
            formatted_output: String::new(),
            duration_nanos: 120_000_000,
        },
    );
    ExecCell { calls }
}

/// The first choice is the compact view and the second the simple one; there is no other.
pub proof fn law_choices_name_the_views(idx: int)
    ensures
        verbosity_at(idx) == Some(Verbosity::Minimal) <==> idx == 0,
        verbosity_at(idx) == Some(Verbosity::Simple) <==> idx == 1,
        verbosity_at(idx) is None <==> idx != 0 && idx != 1,
{
}

/// The preview shows the commentary first and the answer last, with the patch in between.
/// What was run is shown in the simple view, in front of the patch, and not in the compact
/// one. A blank line stands between two parts.
pub proof fn law_preview_shows_the_view(
    commentary: Seq<LineV>,
    ran: Seq<LineV>,
    patch: Seq<LineV>,
    answer: Seq<LineV>,
)
    requires
        commentary.len() > 0 && ran.len() > 0 && patch.len() > 0 && answer.len() > 0,
    ensures
        ({
            let gap = seq![blank_line_v()];
            &&& full_preview(Verbosity::Minimal, commentary, ran, patch, answer) == commentary + gap
                + patch + gap + answer
            &&& full_preview(Verbosity::Simple, commentary, ran, patch, answer) == commentary + gap
                + ran + gap + patch + gap + answer
        }),
        compact_preview(Verbosity::Minimal, ran, patch).len() == 4,
        compact_preview(Verbosity::Simple, ran, patch).len() == 4,
        compact_preview(Verbosity::Simple, ran, patch)[1] == ran[0],
        compact_preview(Verbosity::Simple, ran, patch)[2] == patch[0],
        compact_preview(Verbosity::Minimal, ran, patch)[1] == patch[0],
        compact_preview(Verbosity::Minimal, ran, patch)[0].spans[0].content
            == "commentary is dimmed"@,
        compact_preview(Verbosity::Simple, ran, patch)[0].spans[0].content
            == "commentary is normal"@,
        patch.len() > 2 ==> compact_preview(Verbosity::Minimal, ran, patch)[3] == patch[2],
        patch.len() == 1 ==> compact_preview(Verbosity::Minimal, ran, patch)[2] == blank_line_v(),
{
    let gap = seq![blank_line_v()];
    assert(full_preview(Verbosity::Minimal, commentary, ran, patch, answer) =~= commentary + gap
        + patch + gap + answer);
    assert(full_preview(Verbosity::Simple, commentary, ran, patch, answer) =~= commentary + gap
        + ran + gap + patch + gap + answer);
}

/// A preview keeps off the left side by its inset, as far as one column is left for it, and
/// ends where its area ends.
pub proof fn law_preview_keeps_its_inset(area: Rect, left_inset: u16)
    requires
        area.x + area.width <= u16::MAX,
        area.y + area.height <= u16::MAX,
    ensures
        preview_area_v(area, left_inset) is None <==> area.width == 0 || area.height == 0,
        preview_area_v(area, left_inset) matches Some(r) ==> {
            &&& r.width >= 1
            &&& r.x + r.width == area.x + area.width
            &&& r.y == area.y && r.height == area.height
            &&& left_inset < area.width ==> r.x == area.x + left_inset
        },
{
}

/// The step of the first start is named above the choices, with a blank line below, where
/// there are several steps.
pub proof fn law_step_is_named_above_the_choices(step: StartupSetupStep)
    ensures
        startup_header(None).len() == 0,
        step.total <= 1 ==> startup_header(Some(step)).len() == 0,
        step.total > 1 ==> startup_header(Some(step)).len() == 2 && startup_header(Some(step))[0].spans
            == text_line_v(step.label_v()).spans && startup_header(Some(step))[1]
            == blank_line_v(),
{
}

} // verus!
