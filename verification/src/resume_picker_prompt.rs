//! The screen on which the user picks a project to resume.
//!
//! The list of projects is a screen of its own; this module decides which keys it
//! gets, how the question ends, and what stands in the last row.

use vstd::prelude::*;

use crate::geometry::{sat_add, sat_sub, Rect};
use crate::human_time::Timestamp;
use crate::key::{KeyCode, KeyEvent, KeyEventKind};
use crate::styled::{line_v, span_v, spans_view, Line, Span, SpanV, Style};
use crate::width::{line_width, width_of_line};

verus! {

/// How the question ended.
#[derive(Debug)]
pub enum ResumePickerOutcome {
    StartFresh,
    /// Resume the project in this directory.
    Resume(String),
    Exit,
}

/// What a [`ResumePickerOutcome`] is.
#[verifier::ext_equal]
pub enum OutcomeV {
    StartFresh,
    Resume(Seq<char>),
    Exit,
}

impl View for ResumePickerOutcome {
    type V = OutcomeV;

    open spec fn view(&self) -> OutcomeV {
        match self {
            ResumePickerOutcome::StartFresh => OutcomeV::StartFresh,
            ResumePickerOutcome::Resume(dir) => OutcomeV::Resume(dir@),
            ResumePickerOutcome::Exit => OutcomeV::Exit,
        }
    }
}

/// The screen.
#[derive(Debug)]
pub struct ResumePickerOverlay {
    now: Timestamp,
    outcome: Option<ResumePickerOutcome>,
}

/// The state of a [`ResumePickerOverlay`].
#[verifier::ext_equal]
pub struct PickerState {
    pub now: Timestamp,
    pub outcome: Option<OutcomeV>,
}

impl PickerState {
    /// What a key does, given the directory of the project that is selected, if
    /// any: the screen after it, and whether the list gets the key.
    pub open spec fn key(self, key: KeyEvent, selected: Option<Seq<char>>) -> (PickerState, bool) {
        if key.kind == KeyEventKind::Release {
            (self, false)
        } else if key.is_ctrl('c') {
            (PickerState { outcome: Some(OutcomeV::Exit), ..self }, false)
        } else if key.is_ctrl('l') {
            (self, false)
        } else if key.modifiers == crate::key::KeyModifiers::none() && key.code == KeyCode::Esc {
            (PickerState { outcome: Some(OutcomeV::StartFresh), ..self }, false)
        } else if key.modifiers == crate::key::KeyModifiers::none() && key.code == KeyCode::Enter {
            match selected {
                Some(dir) => (PickerState { outcome: Some(OutcomeV::Resume(dir)), ..self }, false),
                None => (self, false),
            }
        } else {
            (self, true)
        }
    }
}

/// What an optional outcome is.
pub open spec fn opt_outcome(o: Option<ResumePickerOutcome>) -> Option<OutcomeV> {
    match o {
        Some(outcome) => Some(outcome@),
        None => None,
    }
}

impl View for ResumePickerOverlay {
    type V = PickerState;

    closed spec fn view(&self) -> PickerState {
        PickerState { now: self.now, outcome: opt_outcome(self.outcome) }
    }
}

impl ResumePickerOverlay {
    /// The screen as it opens.
    pub fn new(now: Timestamp) -> (r: Self)
        ensures
            r@ == (PickerState { now, outcome: None }),
    {
        ResumePickerOverlay { now, outcome: None }
    }

    /// Sets the time that ages are counted from.
    pub fn set_now(&mut self, now: Timestamp)
        ensures
            final(self)@ == (PickerState { now, ..old(self)@ }),
    {
        self.now = now;
    }

    /// Whether the question has ended.
    pub fn is_done(&self) -> (b: bool)
        ensures
            b == self@.outcome is Some,
    {
        self.outcome.is_some()
    }

    /// How the question ended, once.
    pub fn take_outcome(&mut self) -> (r: Option<ResumePickerOutcome>)
        ensures
            opt_outcome(r) == old(self)@.outcome,
            final(self)@ == (PickerState { outcome: None, ..old(self)@ }),
    {
        self.outcome.take()
    }

    /// Takes in a key. `selected` is the directory of the project that is
    /// selected, if any; the result says whether the list gets the key.
    pub fn handle_key(&mut self, key: KeyEvent, selected: Option<String>) -> (r: bool)
        ensures
            (final(self)@, r) == old(self)@.key(key, crate::reasoning_status::opt_text(selected)),
    {
        if key.kind == KeyEventKind::Release {
            return false;
        }
        if key.is_ctrl_c() {
            self.outcome = Some(ResumePickerOutcome::Exit);
            return false;
        }
        if key.is_ctrl_l() {
            return false;
        }
        if key.modifiers.is_empty() {
            if key.code == KeyCode::Esc {
                self.outcome = Some(ResumePickerOutcome::StartFresh);
                return false;
            }
            if key.code == KeyCode::Enter {
                if let Some(dir) = selected {
                    self.outcome = Some(ResumePickerOutcome::Resume(dir));
                }
                return false;
            }
        }
        true
    }

    /// How the question ended when nothing more comes: without an answer the
    /// program starts afresh.
    pub fn final_outcome(&mut self) -> (r: ResumePickerOutcome)
        ensures
            r@ == match old(self)@.outcome {
                Some(outcome) => outcome,
                None => OutcomeV::StartFresh,
            },
    {
        match self.take_outcome() {
            Some(outcome) => outcome,
            None => ResumePickerOutcome::StartFresh,
        }
    }
}

/// What the list of projects was answered with.
#[derive(Clone, Copy, PartialEq, Eq, Structural, Debug)]
pub enum OverlayResponse {
    /// The projects.
    List,
    /// The details of a project.
    Details,
}

/// Whether the list of projects takes an answer: details are of no use once it is
/// closed.
pub fn takes_response(response: OverlayResponse, is_open: bool) -> (b: bool)
    ensures
        b == (response == OverlayResponse::List || is_open),
{
    match response {
        OverlayResponse::List => true,
        OverlayResponse::Details => is_open,
    }
}

/// The last row of a screen, and the part of it in which the keys are named.
#[derive(Clone, Copy, PartialEq, Eq, Structural, Debug)]
pub struct FooterArea {
    pub row: Rect,
    pub hints: Option<Rect>,
}

/// The last row of a screen, where it has one.
pub open spec fn footer_area_v(area: Rect) -> Option<FooterArea> {
    let row = Rect::spec_new(
        area.x as int,
        sat_sub(area.spec_bottom(), 1),
        area.width as int,
        1,
    );
    let hints = Rect::spec_new(
        sat_add(row.x as int, 2),
        row.y as int,
        sat_sub(row.width as int, 4),
        row.height as int,
    );
    if area.height == 0 || row.spec_is_empty() {
        None
    } else {
        Some(
            FooterArea {
                row,
                hints: if hints.spec_is_empty() {
                    None
                } else {
                    Some(hints)
                },
            },
        )
    }
}

/// The last row of a screen, where it has one.
pub fn footer_area(area: Rect) -> (r: Option<FooterArea>)
    ensures
        r == footer_area_v(area),
{
    if area.height == 0 {
        return None;
    }
    let row = Rect::new(area.x, area.bottom().saturating_sub(1), area.width, 1);
    if row.is_empty() {
        return None;
    }
    let hints = Rect::new(
        row.x.saturating_add(2),
        row.y,
        row.width.saturating_sub(4),
        row.height,
    );
    if hints.is_empty() {
        Some(FooterArea { row, hints: None })
    } else {
        Some(FooterArea { row, hints: Some(hints) })
    }
}

/// How the keys are shown.
#[derive(Debug)]
pub struct KeyHints {
    pub enter: Span,
    pub esc: Span,
    pub ctrl_c: Span,
    pub tab: Span,
    pub up: Span,
    pub down: Span,
}

/// A key and what it does.
pub open spec fn hint(key: SpanV, what: Seq<char>) -> Seq<SpanV> {
    seq![key, span_v(what, Style::plain().spec_dim())]
}

/// The space between two hints.
pub open spec fn gap() -> Seq<SpanV> {
    seq![span_v("  "@, Style::plain())]
}

/// The hint for the keys that browse.
pub open spec fn browse_hint(keys: KeyHints) -> Seq<SpanV> {
    hint(keys.up@, "/"@) + hint(keys.down@, " browse"@)
}

/// The hints of a row, the fullest first. Each later variant leaves out more.
pub open spec fn hint_variant(keys: KeyHints, i: int) -> Seq<SpanV> {
    let start = hint(keys.enter@, " resume "@) + gap() + hint(keys.esc@, " new "@);
    let quit = start + gap() + hint(keys.ctrl_c@, " quit "@);
    if i == 0 {
        quit + gap() + hint(keys.tab@, " maximize "@) + gap() + browse_hint(keys)
    } else if i == 1 {
        quit + gap() + browse_hint(keys)
    } else if i == 2 {
        quit
    } else {
        start
    }
}

/// The variant for a row of `width` columns: the first that fits, else the last.
pub open spec fn fitting_variant(keys: KeyHints, width: int, i: int) -> Seq<SpanV>
    decreases 3 - i,
{
    if i >= 3 || line_width(line_v(hint_variant(keys, i))) <= width {
        hint_variant(keys, i)
    } else {
        fitting_variant(keys, width, i + 1)
    }
}

fn push_hint(spans: &mut Vec<Span>, key: &Span, what: &str)
    ensures
        spans_view(final(spans)@) == spans_view(old(spans)@) + hint(key@, what@),
{
    let ghost before = spans_view(spans@);
    spans.push(key.duplicate());
    spans.push(Span::of(what, Style::new().dim()));
    assert(spans_view(spans@) =~= before + hint(key@, what@));
}

fn push_gap(spans: &mut Vec<Span>)
    ensures
        spans_view(final(spans)@) == spans_view(old(spans)@) + gap(),
{
    let ghost before = spans_view(spans@);
    spans.push(Span::plain("  "));
    assert(spans_view(spans@) =~= before + gap());
}

fn build_variant(keys: &KeyHints, i: usize) -> (r: Line)
    requires
        i <= 3,
    ensures
        r@ == line_v(hint_variant(*keys, i as int)),
{
    let mut spans: Vec<Span> = Vec::new();
    assert(spans_view(spans@) =~= seq![]);
    push_hint(&mut spans, &keys.enter, " resume ");
    assert(spans_view(spans@) =~= hint(keys.enter@, " resume "@));
    push_gap(&mut spans);
    push_hint(&mut spans, &keys.esc, " new ");
    if i < 3 {
        push_gap(&mut spans);
        push_hint(&mut spans, &keys.ctrl_c, " quit ");
    }
    if i == 0 {
        push_gap(&mut spans);
        push_hint(&mut spans, &keys.tab, " maximize ");
    }
    if i < 2 {
        push_gap(&mut spans);
        let ghost before = spans_view(spans@);
        push_hint(&mut spans, &keys.up, "/");
        push_hint(&mut spans, &keys.down, " browse");
        assert(spans_view(spans@) =~= before + browse_hint(*keys));
    }
    Line::from_spans(spans)
}

/// The hints for a row of `width` columns.
pub fn resume_picker_footer_hint_line(keys: &KeyHints, width: u16) -> (r: Line)
    ensures
        r@ == line_v(fitting_variant(*keys, width as int, 0)),
{
    let mut i: usize = 0;
    while i < 3
        invariant
            i <= 3,
            fitting_variant(*keys, width as int, i as int) == fitting_variant(
                *keys,
                width as int,
                0,
            ),
        decreases 3 - i,
    {
        let line = build_variant(keys, i);
        if width_of_line(&line) <= width as usize {
            return line;
        }
        i += 1;
    }
    build_variant(keys, 3)
}

/// Ctrl+L is kept for the list elsewhere: it neither ends the question nor
/// reaches the list.
pub proof fn law_ctrl_l_changes_nothing(s: PickerState, key: KeyEvent, selected: Option<Seq<char>>)
    requires
        key.is_ctrl('l'),
    ensures
        s.key(key, selected) == (s, false),
{
}

/// An answer is only ever replaced by another answer.
pub proof fn law_answer_stays(s: PickerState, key: KeyEvent, selected: Option<Seq<char>>)
    requires
        s.outcome is Some,
    ensures
        s.key(key, selected).0.outcome is Some,
{
}

/// The keys that answer: Ctrl+C leaves the program, Esc alone starts afresh, Enter alone
/// resumes the project that is selected, where there is one. Every other key but Ctrl+L
/// goes to the list and answers nothing; a key that is let go does nothing.
pub proof fn law_keys_that_answer(s: PickerState, key: KeyEvent, selected: Option<Seq<char>>)
    requires
        s.outcome is None,
    ensures
        ({
            let (t, to_list) = s.key(key, selected);
            let down = key.kind != KeyEventKind::Release;
            let alone = key.modifiers == crate::key::KeyModifiers::none();
            let c = key.modifiers.control && key.code == KeyCode::Char('c');
            let l = key.modifiers.control && key.code == KeyCode::Char('l');
            &&& t.now == s.now
            &&& t.outcome == Some(OutcomeV::Exit) <==> down && c
            &&& t.outcome == Some(OutcomeV::StartFresh) <==> down && alone && key.code
                == KeyCode::Esc
            &&& t.outcome matches Some(OutcomeV::Resume(dir)) ==> down && alone && key.code
                == KeyCode::Enter && selected == Some(dir)
            &&& down && alone && key.code == KeyCode::Enter && selected is Some ==> t.outcome
                == Some(OutcomeV::Resume(selected->0))
            &&& to_list <==> down && !c && !l && !(alone && (key.code == KeyCode::Esc || key.code
                == KeyCode::Enter))
            &&& to_list ==> t == s
        }),
{
}

/// The row of hints always names the keys that resume and start afresh; it names the key
/// that quits unless that does not fit. What is shown fits into the row, unless it is the
/// shortest form.
pub proof fn law_hints_fit(keys: KeyHints, width: int)
    ensures
        ({
            let shown = fitting_variant(keys, width, 0);
            &&& shown.len() >= 5
            &&& shown[0] == keys.enter@ && shown[1].content == " resume "@
            &&& shown[3] == keys.esc@ && shown[4].content == " new "@
            &&& line_width(line_v(shown)) <= width || shown.len() == 5
            &&& line_width(line_v(hint_variant(keys, 0))) <= width ==> shown.len() == 16 && shown[6]
                == keys.ctrl_c@ && shown[9] == keys.tab@ && shown[12] == keys.up@ && shown[14]
                == keys.down@
            &&& shown.len() > 5 ==> shown[6] == keys.ctrl_c@ && shown[7].content == " quit "@
        }),
{
    reveal_with_fuel(fitting_variant, 5);
}

/// The hints stand in the last row of the screen, two columns off both sides; a screen
/// without rows or columns has no such row.
pub proof fn law_footer_is_the_last_row(area: Rect)
    requires
        area.x + area.width <= u16::MAX,
        area.y + area.height <= u16::MAX,
    ensures
        footer_area_v(area) is None <==> area.height == 0 || area.width == 0,
        footer_area_v(area) matches Some(f) ==> {
            &&& f.row.x == area.x && f.row.width == area.width && f.row.height == 1
            &&& f.row.y == area.y + area.height - 1
            &&& f.hints is Some <==> area.width > 4
            &&& f.hints matches Some(h) ==> h.x == area.x + 2 && h.width == area.width - 4 && h.y
                == f.row.y && h.height == 1
        },
{
}

} // verus!
