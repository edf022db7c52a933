//! The question for a verbosity on the first start.

use vstd::prelude::*;

use crate::bottom_pane::list_selection_view::{
    popup_content_width, side_by_side, side_by_side_layout_widths, ListSelectionView,
    ListState, SelectionViewParams, SideContentWidth, ViewEffect,
};
use crate::geometry::{max_int, min_int, sat_add, sat_sub, Rect};
use crate::key::{KeyCode, KeyEvent, KeyEventKind};
use crate::layout::{are_rows_of, is_split, split_vertical, Constraint};
use crate::startup_setup::StartupSetupStep;
use crate::styled::{
    append_lines, blank_line_v, line_v, lines_view, span_v, Color, Line, LineV, Span, SpanV, Style,
};
use crate::verbosity::Verbosity;
use crate::verbosity_picker::{
    build_startup_verbosity_picker_params, is_verbosity_dialog, verbosity_at, verbosity_of_choice,
};

verus! {

/// Whether a step is shown.
pub open spec fn shows_step(setup_step: Option<StartupSetupStep>) -> bool {
    setup_step matches Some(step) && step.is_shown()
}

fn renders_step(setup_step: Option<StartupSetupStep>) -> (b: bool)
    ensures
        b == shows_step(setup_step),
{
    match setup_step {
        Some(step) => step.should_render(),
        None => false,
    }
}

/// The line that names the keys, given how the keys are shown.
pub open spec fn prompt_hint(enter: SpanV, esc: SpanV) -> LineV {
    LineV {
        style: Style::plain().spec_dim(),
        spans: seq![
            span_v("Press "@, Style::plain()),
            enter,
            span_v(" to confirm or "@, Style::plain()),
            esc,
            span_v(" to skip"@, Style::plain()),
        ],
    }
}

/// The line that names the keys, given how the keys are shown.
pub fn prompt_hint_line(enter: Span, esc: Span) -> (r: Line)
    ensures
        r@ == prompt_hint(enter@, esc@),
{
    let ghost want = prompt_hint(enter@, esc@);
    let mut spans: Vec<Span> = Vec::new();
    spans.push(Span::plain("Press "));
    spans.push(enter);
    spans.push(Span::plain(" to confirm or "));
    spans.push(esc);
    spans.push(Span::plain(" to skip"));
    let mut line = Line::from_spans(spans);
    line.style = line.style.dim();
    assert(line@.spans =~= want.spans);
    line
}

/// The note below the choices.
pub open spec fn prompt_note() -> LineV {
    LineV {
        style: Style::plain().spec_dim(),
        spans: seq![
            span_v("You can change this later via "@, Style::plain()),
            span_v("/verbosity"@, Style::plain().spec_fg(Color::Cyan)),
            span_v("."@, Style::plain()),
        ],
    }
}

/// The note below the choices.
pub fn prompt_note_line() -> (r: Line)
    ensures
        r@ == prompt_note(),
{
    let mut spans: Vec<Span> = Vec::new();
    spans.push(Span::plain("You can change this later via "));
    spans.push(Span::of("/verbosity", Style::new().with_fg(Color::Cyan)));
    spans.push(Span::plain("."));
    let mut line = Line::from_spans(spans);
    line.style = line.style.dim();
    assert(line@.spans =~= prompt_note().spans);
    line
}

/// The columns for the note and for the preview below the choices.
pub open spec fn inner_columns(width: int) -> int {
    max_int(sat_sub(max_int(width, 1), 2), 1)
}

/// The columns for the note and for the preview below the choices.
pub fn inner_width(width: u16) -> (r: u16)
    ensures
        r == inner_columns(width as int),
{
    let width: u16 = if width < 1 { 1 } else { width };
    let inner: u16 = width.saturating_sub(2);
    if inner < 1 {
        1
    } else {
        inner
    }
}

/// Whether the preview does not fit beside the choices.
pub open spec fn is_narrow_v(width: int, side: SideContentWidth, min_width: u16) -> bool {
    side_by_side(sat_sub(max_int(width, 1), 4) as u16, side, min_width) is None
}

/// Whether the preview does not fit beside the choices.
pub fn is_narrow(width: u16, side: SideContentWidth, min_width: u16) -> (b: bool)
    ensures
        b == is_narrow_v(width as int, side, min_width),
{
    let width: u16 = if width < 1 { 1 } else { width };
    side_by_side_layout_widths(popup_content_width(width), side, min_width).is_none()
}

/// The rows below the choices: the keys, the note and, where it does not fit
/// beside the choices, the preview with its heading.
pub open spec fn below_rows(note_lines: int, narrow: bool, preview_height: int) -> int {
    sat_add(
        min_int(1 + note_lines, u16::MAX as int),
        if narrow {
            sat_add(preview_height, 3)
        } else {
            0
        },
    )
}

/// The rows that the question takes. `view_height` is what the choices take,
/// `preview_height` what the preview takes, and `note_lines` the number of lines
/// of the note.
pub fn desired_height(
    view_height: u16,
    note_lines: usize,
    narrow: bool,
    preview_height: u16,
    setup_step: Option<StartupSetupStep>,
) -> (r: u16)
    ensures
        r == sat_add(
            sat_add(view_height as int, below_rows(note_lines as int, narrow, preview_height as int)),
            if shows_step(setup_step) {
                1
            } else {
                0
            },
        ),
{
    let fixed: u16 = note_rows(note_lines);
    let preview: u16 = if narrow { preview_height.saturating_add(3) } else { 0 };
    let step: u16 = if renders_step(setup_step) { 1 } else { 0 };
    view_height.saturating_add(fixed.saturating_add(preview)).saturating_add(step)
}

fn note_rows(note_lines: usize) -> (r: u16)
    ensures
        r == min_int(1 + note_lines, u16::MAX as int),
{
    if note_lines < 65535 {
        note_lines as u16 + 1
    } else {
        65535
    }
}

/// Where the step is shown: in the first row, behind two columns.
pub open spec fn step_area_v(area: Rect, setup_step: Option<StartupSetupStep>) -> Option<Rect> {
    let row = Rect::spec_new(area.x as int, area.y as int, area.width as int, 1);
    let inner = Rect {
        x: sat_add(row.x as int, 2) as u16,
        y: row.y,
        width: sat_sub(row.width as int, 2) as u16,
        height: row.height,
    };
    if area.height > 0 && shows_step(setup_step) && !inner.spec_is_empty() {
        Some(inner)
    } else {
        None
    }
}

/// Where the step is shown.
pub fn step_area(area: Rect, setup_step: Option<StartupSetupStep>) -> (r: Option<Rect>)
    ensures
        r == step_area_v(area, setup_step),
{
    if area.height == 0 || !renders_step(setup_step) {
        return None;
    }
    let row = Rect::new(area.x, area.y, area.width, 1);
    let inner = Rect {
        x: row.x.saturating_add(2),
        y: row.y,
        width: row.width.saturating_sub(2),
        height: row.height,
    };
    if inner.is_empty() {
        None
    } else {
        Some(inner)
    }
}

/// How the rows below the step are shared out.
#[derive(Clone, Copy, PartialEq, Eq, Structural, Debug)]
pub struct PromptRows {
    /// The rows below the step.
    pub view_area: Rect,
    pub selection_height: u16,
    pub below_height: u16,
}

/// How the rows below the step are shared out: the keys and the note keep their
/// rows, as long as the choices are left with any.
pub open spec fn prompt_rows_v(
    area: Rect,
    setup_step: Option<StartupSetupStep>,
    view_height: u16,
    note_lines: int,
) -> Option<PromptRows> {
    let top = if shows_step(setup_step) {
        1int
    } else {
        0
    };
    let view_area = Rect::spec_new(
        area.x as int,
        sat_add(area.y as int, top),
        area.width as int,
        area.height - top,
    );
    let least = min_int(1 + note_lines, u16::MAX as int);
    let available = view_area.height as int;
    let selection = if available > least {
        min_int(view_height as int, available - least)
    } else {
        available
    };
    if area.height <= top || view_area.spec_is_empty() {
        None
    } else {
        Some(
            PromptRows {
                view_area,
                selection_height: selection as u16,
                below_height: (available - selection) as u16,
            },
        )
    }
}

/// How the rows below the step are shared out.
pub fn prompt_rows(
    area: Rect,
    setup_step: Option<StartupSetupStep>,
    view_height: u16,
    note_lines: usize,
) -> (r: Option<PromptRows>)
    ensures
        r == prompt_rows_v(area, setup_step, view_height, note_lines as int),
{
    let top: u16 = if renders_step(setup_step) { 1 } else { 0 };
    if area.height <= top {
        return None;
    }
    let view_area = Rect::new(
        area.x,
        area.y.saturating_add(top),
        area.width,
        area.height - top,
    );
    if view_area.is_empty() {
        return None;
    }
    let least: u16 = note_rows(note_lines);
    let available: u16 = view_area.height;
    let selection_height: u16 = if available > least {
        let room: u16 = available - least;
        if view_height <= room {
            view_height
        } else {
            room
        }
    } else {
        available
    };
    Some(
        PromptRows { view_area, selection_height, below_height: available - selection_height },
    )
}

/// The choices never take the rows of the keys and the note, unless nothing else
/// is left for them; together they fill the screen.
pub proof fn law_prompt_keeps_the_note(
    area: Rect,
    setup_step: Option<StartupSetupStep>,
    view_height: u16,
    note_lines: nat,
)
    requires
        prompt_rows_v(area, setup_step, view_height, note_lines as int) is Some,
        note_lines < u16::MAX,
    ensures
        ({
            let rows = prompt_rows_v(area, setup_step, view_height, note_lines as int)->0;
            &&& rows.selection_height + rows.below_height == rows.view_area.height
            &&& rows.view_area.y + rows.view_area.height <= u16::MAX
            &&& rows.view_area.height > 1 + note_lines ==> rows.below_height >= 1 + note_lines
            &&& rows.view_area.height <= 1 + note_lines ==> rows.below_height == 0
        }),
{
}

/// Splits the rows below the step into those of the choices and those below
/// them.
pub fn split_prompt(rows: PromptRows) -> (r: (Rect, Rect))
    ensures
        is_split(
            rows.view_area,
            seq![
                Constraint::Length(rows.selection_height),
                Constraint::Length(rows.below_height),
            ],
            seq![r.0, r.1],
        ),
        are_rows_of(seq![r.0, r.1], rows.view_area, 2),
        rows.selection_height + rows.below_height == rows.view_area.height && rows.view_area.y
            + rows.view_area.height <= u16::MAX ==> r == (
            Rect { height: rows.selection_height, ..rows.view_area },
            Rect {
                y: (rows.view_area.y + rows.selection_height) as u16,
                height: rows.below_height,
                ..rows.view_area
            },
        ),
{
    let constraints = [
        Constraint::Length(rows.selection_height),
        Constraint::Length(rows.below_height),
    ];
    let parts = split_vertical(rows.view_area, constraints.as_slice());
    assert(constraints@ =~= seq![
        Constraint::Length(rows.selection_height),
        Constraint::Length(rows.below_height),
    ]);
    assert(parts@ =~= seq![parts@[0], parts@[1]]);
    assert(parts@[0].x == rows.view_area.x && parts@[1].x == rows.view_area.x);
    (parts[0], parts[1])
}

/// What stands below the choices, and where.
#[derive(Debug)]
pub struct BelowPlan {
    /// Where the keys are named.
    pub hint: Option<Rect>,
    /// Where the lines of the note stand, as far as there is room.
    pub notes: Vec<Rect>,
    /// Where the preview stands.
    pub preview: Option<Rect>,
}

/// A row below the choices.
pub open spec fn below_row(below: Rect, row: int) -> Rect {
    Rect::spec_new(
        sat_add(below.x as int, 2),
        below.y + row,
        sat_sub(below.width as int, 2),
        1,
    )
}

/// How many rows the area has before the coordinates end.
pub open spec fn rows_of(below: Rect) -> int {
    below.spec_bottom() - below.y
}

/// How many lines of the note are shown.
pub open spec fn notes_shown(below: Rect, note_lines: int) -> int {
    min_int(note_lines, sat_sub(rows_of(below), 1))
}

/// Plans what stands below the choices: a row for the keys, one for each line of
/// the note and, where it does not fit beside the choices, the preview in the
/// rows that are left.
pub fn below_plan(below: Rect, note_lines: usize, narrow: bool) -> (r: BelowPlan)
    ensures
        if below.height == 0 || below.width <= 2 {
            r.hint is None && r.notes@.len() == 0 && r.preview is None
        } else {
            let shown = notes_shown(below, note_lines as int);
            &&& r.hint == if rows_of(below) > 0 {
                Some(below_row(below, 0))
            } else {
                None
            }
            &&& r.notes@ == Seq::new(shown as nat, |i: int| below_row(below, 1 + i))
            &&& r.preview == if narrow && 1 + shown < rows_of(below) {
                Some(
                    Rect::spec_new(
                        sat_add(below.x as int, 2),
                        below.y + 1 + shown,
                        below.width - 2,
                        rows_of(below) - 1 - shown,
                    ),
                )
            } else {
                None
            }
        },
{
    let mut notes: Vec<Rect> = Vec::new();
    if below.height == 0 || below.width <= 2 {
        return BelowPlan { hint: None, notes, preview: None };
    }
    let x: u16 = below.x.saturating_add(2);
    let width: u16 = below.width.saturating_sub(2);
    let bottom: u16 = below.bottom();
    let mut y: u16 = below.y;
    let mut hint: Option<Rect> = None;
    if y < bottom {
        hint = Some(Rect::new(x, y, width, 1));
        y = y + 1;
    }
    let ghost shown = notes_shown(below, note_lines as int);
    let mut i: usize = 0;
    while i < note_lines && y < bottom
        invariant
            i <= note_lines,
            bottom == below.spec_bottom(),
            x == sat_add(below.x as int, 2),
            width == sat_sub(below.width as int, 2),
            shown == notes_shown(below, note_lines as int),
            below.y <= y <= bottom,
            rows_of(below) > 0 ==> y == below.y + 1 + i,
            rows_of(below) == 0 ==> y == bottom && i == 0,
            notes@.len() == i,
            i <= shown,
            forall|k: int| 0 <= k < i ==> #[trigger] notes@[k] == below_row(below, 1 + k),
        decreases note_lines - i,
    {
        notes.push(Rect::new(x, y, width, 1));
        y = y + 1;
        i += 1;
    }
    assert(notes@ =~= Seq::new(shown as nat, |i: int| below_row(below, 1 + i)));
    if !narrow || y >= bottom {
        return BelowPlan { hint, notes, preview: None };
    }
    BelowPlan { hint, notes, preview: Some(Rect::new(x, y, width, bottom - y)) }
}

/// The lines of the preview below the choices, with their heading.
pub open spec fn headed_preview(lines: Seq<LineV>) -> Seq<LineV> {
    seq![
        blank_line_v(),
        line_v(seq![span_v("Preview"@, Style::plain().spec_dim().spec_italic())]),
        blank_line_v(),
    ] + lines
}

/// Puts the heading in front of the preview below the choices.
pub fn headed_preview_lines(lines: Vec<Line>) -> (r: Vec<Line>)
    ensures
        lines_view(r@) == headed_preview(lines_view(lines@)),
{
    let ghost tail = lines_view(lines@);
    let mut out: Vec<Line> = Vec::new();
    out.push(Line::blank());
    let mut spans: Vec<Span> = Vec::new();
    spans.push(Span::of("Preview", Style::new().dim().italic()));
    let heading = Line::from_spans(spans);
    assert(heading@.spans =~= seq![span_v("Preview"@, Style::plain().spec_dim().spec_italic())]);
    out.push(heading);
    out.push(Line::blank());
    append_lines(&mut out, lines);
    assert(lines_view(out@) =~= headed_preview(tail));
    out
}

/// What a key does to the question: the choices after it, what they ask for, and
/// whether the screen is drawn anew.
pub open spec fn prompt_key(s: ListState, key: KeyEvent) -> (ListState, Seq<ViewEffect>, bool) {
    if key.kind == KeyEventKind::Release {
        (s, seq![], false)
    } else if key.modifiers.control && (key.code == KeyCode::Char('c') || key.code
        == KeyCode::Char('d')) && key.kind == KeyEventKind::Press {
        (s.cancelled().0, s.cancelled().1, true)
    } else {
        (s.key(key).0, s.key(key).1, true)
    }
}

/// Hands a key to the question. The result is what the choices ask for, and
/// whether the screen is drawn anew.
pub fn on_prompt_key(view: &mut ListSelectionView, key: KeyEvent) -> (r: (Vec<ViewEffect>, bool))
    requires
        old(view)@.wf(),
    ensures
        final(view)@ == prompt_key(old(view)@, key).0,
        r.0@ == prompt_key(old(view)@, key).1,
        r.1 == prompt_key(old(view)@, key).2,
        final(view)@.wf(),
{
    if key.kind == KeyEventKind::Release {
        let none: Vec<ViewEffect> = Vec::new();
        assert(none@ =~= seq![]);
        return (none, false);
    }
    let leaves = key.code == KeyCode::Char('c') || key.code == KeyCode::Char('d');
    if key.modifiers.control && leaves && key.kind == KeyEventKind::Press {
        (view.cancel(), true)
    } else {
        (view.handle_key_event(key), true)
    }
}

/// The verbosity that is previewed after `effects`: that of the choice that was
/// highlighted last.
pub open spec fn previewed(current: Verbosity, effects: Seq<ViewEffect>) -> Verbosity
    decreases effects.len(),
{
    if effects.len() == 0 {
        current
    } else {
        match effects.last() {
            ViewEffect::SelectionChanged(idx) if verbosity_at(idx as int) is Some => verbosity_at(
                idx as int,
            )->0,
            _ => previewed(current, effects.drop_last()),
        }
    }
}

/// The verbosity that is previewed after `effects`.
pub fn previewed_after(current: Verbosity, effects: &Vec<ViewEffect>) -> (r: Verbosity)
    ensures
        r == previewed(current, effects@),
{
    let mut shown = current;
    let mut i: usize = 0;
    assert(effects@.take(0) =~= seq![]);
    while i < effects.len()
        invariant
            i <= effects@.len(),
            shown == previewed(current, effects@.take(i as int)),
        decreases effects@.len() - i,
    {
        assert(effects@.take(i + 1).drop_last() =~= effects@.take(i as int));
        assert(effects@.take(i + 1).last() == effects@[i as int]);
        if let ViewEffect::SelectionChanged(idx) = effects[i] {
            if let Some(verbosity) = verbosity_of_choice(idx) {
                shown = verbosity;
            }
        }
        i += 1;
    }
    assert(effects@.take(i as int) =~= effects@);
    shown
}

/// The verbosity that was picked, where one was.
pub fn picked_verbosity(view: &mut ListSelectionView) -> (r: Option<Verbosity>)
    ensures
        r == match old(view)@.last_selected {
            Some(idx) => verbosity_at(idx as int),
            None => None,
        },
        final(view)@ == (ListState { last_selected: None, ..old(view)@ }),
{
    match view.take_last_selected_index() {
        Some(idx) => verbosity_of_choice(idx),
        None => None,
    }
}

/// The choices on the first start, without the lines that stand below them here.
pub fn build_startup_prompt_params() -> (r: SelectionViewParams)
    ensures
        is_verbosity_dialog(r, None, Verbosity::Minimal, false),
        r.footer_note is None,
        r.footer_hint is None,
{
    let mut params = build_startup_verbosity_picker_params(Line::blank());
    params.footer_note = None;
    params.footer_hint = None;
    params
}

/// Ctrl+C and Ctrl+D leave the question when they are pressed; every other key goes to the
/// choices, and a key that is let go does nothing.
pub proof fn law_keys_of_the_question(s: ListState, key: KeyEvent)
    ensures
        ({
            let (t, effects, redraw) = prompt_key(s, key);
            let leaves = key.modifiers.control && (key.code == KeyCode::Char('c') || key.code
                == KeyCode::Char('d'));
            &&& redraw <==> key.kind != KeyEventKind::Release
            &&& key.kind == KeyEventKind::Release ==> t == s && effects.len() == 0
            &&& leaves && key.kind == KeyEventKind::Press ==> (t, effects) == s.cancelled()
            &&& !leaves && key.kind != KeyEventKind::Release ==> (t, effects) == s.key(key)
        }),
{
}

/// The view that is previewed is that of the choice that was highlighted last; whatever
/// happens besides does not change it.
pub proof fn law_highlighted_view_is_previewed(
    current: Verbosity,
    effects: Seq<ViewEffect>,
    last: ViewEffect,
)
    ensures
        previewed(current, seq![]) == current,
        previewed(current, effects.push(ViewEffect::SelectionChanged(0))) == Verbosity::Minimal,
        previewed(current, effects.push(ViewEffect::SelectionChanged(1))) == Verbosity::Simple,
        !(last is SelectionChanged) ==> previewed(current, effects.push(last)) == previewed(
            current,
            effects,
        ),
{
    assert(effects.push(ViewEffect::SelectionChanged(0)).drop_last() =~= effects);
    assert(effects.push(ViewEffect::SelectionChanged(1)).drop_last() =~= effects);
    assert(effects.push(last).drop_last() =~= effects);
}

/// The step is shown in the first row, two columns off the left side, where there are
/// several steps and there is room; the choices then start in the row below.
pub proof fn law_step_takes_the_first_row(
    area: Rect,
    setup_step: Option<StartupSetupStep>,
    view_height: u16,
    note_lines: int,
)
    requires
        area.x + area.width <= u16::MAX,
        area.y + area.height <= u16::MAX,
        note_lines >= 0,
    ensures
        ({
            let several = setup_step is Some && setup_step->0.total > 1;
            &&& step_area_v(area, setup_step) is Some <==> several && area.height > 0 && area.width
                > 2
            &&& step_area_v(area, setup_step) matches Some(r) ==> r.x == area.x + 2 && r.y == area.y
                && r.height == 1 && r.width == area.width - 2
            &&& prompt_rows_v(area, setup_step, view_height, note_lines) matches Some(rows)
                ==> rows.view_area.y == area.y + (if several {
                1int
            } else {
                0
            }) && rows.selection_height <= rows.view_area.height && rows.view_area.y
                + rows.view_area.height == area.y + area.height
        }),
{
}

/// The preview below the choices stands under its heading, with all its lines.
pub proof fn law_preview_has_a_heading(lines: Seq<LineV>)
    ensures
        headed_preview(lines).len() == lines.len() + 3,
        headed_preview(lines)[1].spans[0].content == "Preview"@,
        headed_preview(lines).skip(3) == lines,
{
    assert(headed_preview(lines).skip(3) =~= lines);
}

} // verus!
