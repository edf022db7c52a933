//! The prompt screen, on which the user writes a new task.

use vstd::prelude::*;

use crate::app_event::{AppEvent, FileMatch, Op};
use crate::app_server_render::{
    app_actions_view, editor_action, on_editor_outcome, on_theme_save, theme_save_actions,
    AppAction, AppActionV, EditorOutcome, InputResult, ThemeSave,
};
use crate::history_cell::opt_str;
use crate::key::{KeyCode, KeyEvent, KeyEventKind};
use crate::reasoning_status::opt_text;
use crate::slash_command::SlashCommand;
use crate::styled::{blank_line_v, lines_view, Line, LineV, SpanV};
use crate::text;
use crate::transcript::{Cell, CellV};

verus! {

/// What to do when a frame is due.
#[derive(Clone, Copy, PartialEq, Eq, Structural, Debug)]
pub enum DrawStep {
    /// A paste was just taken in: ask for another frame and skip this one.
    Redraw,
    /// A paste is being taken in: ask for a frame when it is complete, and skip this one.
    RedrawAfterPaste,
    Draw,
}

/// Decides what to do when a frame is due.
pub fn on_frame(paste_flushed: bool, in_paste_burst: bool) -> (r: DrawStep)
    ensures
        r == if paste_flushed {
            DrawStep::Redraw
        } else if in_paste_burst {
            DrawStep::RedrawAfterPaste
        } else {
            DrawStep::Draw
        },
{
    if paste_flushed {
        DrawStep::Redraw
    } else if in_paste_burst {
        DrawStep::RedrawAfterPaste
    } else {
        DrawStep::Draw
    }
}

/// What to do with a key on the prompt screen.
#[derive(Clone, Copy, PartialEq, Eq, Structural, Debug)]
pub enum PromptKeyStep {
    Ignore,
    /// Hand the key to the open popup, and redraw where it asks for it.
    PassToPopup,
    /// Clear the viewport and leave without a prompt.
    Cancel,
    ClearComposer,
    OpenEditor,
    PassToComposer,
}

/// What to do with `key` on the prompt screen.
pub open spec fn prompt_key_step(
    key: KeyEvent,
    popup_visible: bool,
    composer_empty: bool,
) -> PromptKeyStep {
    if key.kind == KeyEventKind::Release {
        PromptKeyStep::Ignore
    } else if key.is_ctrl('c') {
        if key.kind != KeyEventKind::Press {
            PromptKeyStep::Ignore
        } else if popup_visible {
            PromptKeyStep::PassToPopup
        } else if composer_empty {
            PromptKeyStep::Cancel
        } else {
            PromptKeyStep::ClearComposer
        }
    } else if key.is_ctrl('g') {
        if key.kind != KeyEventKind::Press {
            PromptKeyStep::Ignore
        } else {
            PromptKeyStep::OpenEditor
        }
    } else {
        PromptKeyStep::PassToComposer
    }
}

/// Decides what to do with `key` on the prompt screen.
pub fn on_prompt_key(key: KeyEvent, popup_visible: bool, composer_empty: bool) -> (r: PromptKeyStep)
    ensures
        r == prompt_key_step(key, popup_visible, composer_empty),
{
    if key.kind == KeyEventKind::Release {
        return PromptKeyStep::Ignore;
    }
    let is_press = key.kind == KeyEventKind::Press;
    if key.is_ctrl_c() {
        if !is_press {
            return PromptKeyStep::Ignore;
        }
        if popup_visible {
            return PromptKeyStep::PassToPopup;
        }
        if composer_empty {
            return PromptKeyStep::Cancel;
        }
        return PromptKeyStep::ClearComposer;
    }
    if key.is_ctrl_g() {
        if !is_press {
            return PromptKeyStep::Ignore;
        }
        return PromptKeyStep::OpenEditor;
    }
    PromptKeyStep::PassToComposer
}

/// What to do with the composer's answer to a key.
#[derive(Debug)]
pub enum PromptStep {
    /// Record the prompt in the history and leave with it.
    Submit(String),
    /// Write `@` into the composer and redraw.
    InsertMention,
    /// Clear the viewport and leave without a prompt.
    Cancel,
    /// Show the theme picker and redraw.
    ShowThemePicker,
    Stay,
}

/// Decides what to do with the composer's answer to a key.
pub fn on_prompt_input(result: InputResult) -> (r: PromptStep)
    ensures
        r == match result {
            InputResult::Submitted(t) => PromptStep::Submit(t),
            InputResult::Queued(t) => PromptStep::Submit(t),
            InputResult::Command(SlashCommand::Mention) => PromptStep::InsertMention,
            InputResult::Command(SlashCommand::Exit) => PromptStep::Cancel,
            InputResult::Command(SlashCommand::Theme) => PromptStep::ShowThemePicker,
            InputResult::Nothing => PromptStep::Stay,
        },
{
    match result {
        InputResult::Submitted(t) => PromptStep::Submit(t),
        InputResult::Queued(t) => PromptStep::Submit(t),
        InputResult::Command(cmd) => match cmd {
            SlashCommand::Mention => PromptStep::InsertMention,
            SlashCommand::Exit => PromptStep::Cancel,
            SlashCommand::Theme => PromptStep::ShowThemePicker,
        },
        InputResult::Nothing => PromptStep::Stay,
    }
}

/// `t` with each carriage return turned into a line feed.
pub open spec fn with_line_feeds(t: Seq<char>) -> Seq<char> {
    t.map_values(
        |c: char|
            if c == '\r' {
                '\n'
            } else {
                c
            },
    )
}

/// `pasted` with each carriage return turned into a line feed, which is what
/// many terminals make of the line feeds of a paste.
pub fn normalize_paste(pasted: &str) -> (r: String)
    ensures
        r@ == with_line_feeds(pasted@),
{
    let chars = text::chars_of(pasted);
    let ghost want = with_line_feeds(pasted@);
    let mut r = String::new();
    let mut i: usize = 0;
    while i < chars.len()
        invariant
            i <= chars@.len(),
            chars@ == pasted@,
            want == with_line_feeds(pasted@),
            r@ == want.take(i as int),
        decreases chars@.len() - i,
    {
        if chars[i] == '\r' {
            r.push('\n');
        } else {
            r.push(chars[i]);
        }
        assert(r@ =~= want.take(i + 1));
        i += 1;
    }
    assert(want.take(i as int) =~= want);
    r
}

/// What to do with an application event on the prompt screen.
#[derive(Debug)]
pub enum PromptEventStep {
    SearchFiles(String),
    /// Show the matches and redraw.
    ShowFileSearchResult { query: String, matches: Vec<FileMatch> },
    SaveTheme { name: String },
    /// Lay out the cell and insert its lines.
    LayOutCell(Cell),
    LookUpPromptHistory { offset: usize, log_id: u64 },
    Ignore,
}

/// Decides what to do with an application event on the prompt screen. Events of
/// a running turn mean nothing there.
pub fn handle_prompt_app_event(event: AppEvent) -> (r: PromptEventStep)
    ensures
        r == match event {
            AppEvent::StartFileSearch(query) => PromptEventStep::SearchFiles(query),
            AppEvent::FileSearchResult { query, matches } =>
            PromptEventStep::ShowFileSearchResult { query, matches },
            AppEvent::SyntaxThemeSelected { name } => PromptEventStep::SaveTheme { name },
            AppEvent::InsertHistoryCell(cell) => PromptEventStep::LayOutCell(cell),
            AppEvent::CodexOp(Op::GetHistoryEntryRequest { offset, log_id }) =>
            PromptEventStep::LookUpPromptHistory { offset, log_id },
            _ => PromptEventStep::Ignore,
        },
{
    match event {
        AppEvent::StartFileSearch(query) => PromptEventStep::SearchFiles(query),
        AppEvent::FileSearchResult { query, matches } => PromptEventStep::ShowFileSearchResult {
            query,
            matches,
        },
        AppEvent::SyntaxThemeSelected { name } => PromptEventStep::SaveTheme { name },
        AppEvent::InsertHistoryCell(cell) => PromptEventStep::LayOutCell(cell),
        AppEvent::CodexOp(op) => match op {
            Op::GetHistoryEntryRequest { offset, log_id } => PromptEventStep::LookUpPromptHistory {
                offset,
                log_id,
            },
            _ => PromptEventStep::Ignore,
        },
        _ => PromptEventStep::Ignore,
    }
}

/// Whether `span` shows something.
pub open spec fn shows_text(span: SpanV) -> bool {
    text::trim(span.content).len() > 0
}

/// Whether a blank line is needed between `lines` and what follows: the last
/// line shows something.
pub open spec fn needs_padding(lines: Seq<LineV>) -> bool {
    lines.len() > 0 && exists|i: int|
        0 <= i < lines.last().spans.len() && shows_text(#[trigger] lines.last().spans[i])
}

/// Whether a blank line is needed between `lines` and the prompt.
pub fn should_pad_prompt_after_history_insert(lines: &Vec<Line>) -> (b: bool)
    ensures
        b == needs_padding(lines_view(lines@)),
{
    if lines.len() == 0 {
        return false;
    }
    let last = &lines[lines.len() - 1];
    let ghost shown = lines_view(lines@).last();
    assert(shown == last@);
    let mut i: usize = 0;
    while i < last.spans.len()
        invariant
            i <= last.spans@.len(),
            lines@.len() > 0,
            shown == last@,
            shown == lines_view(lines@).last(),
            forall|k: int| 0 <= k < i ==> !shows_text(#[trigger] shown.spans[k]),
        decreases last.spans@.len() - i,
    {
        let blank = last.spans[i].content.as_str().trim().is_empty();
        assert(shown.spans[i as int] == last.spans@[i as int]@);
        if !blank {
            assert(shows_text(shown.spans[i as int]));
            return true;
        }
        i += 1;
    }
    false
}

/// The lines that the screen starts with, and whether a blank line follows them.
pub struct StartState {
    pub inserted: Seq<Seq<LineV>>,
    pub pad: bool,
}

/// The state once `lines` are inserted, which they are where there are any.
pub open spec fn inserted(s: StartState, lines: Seq<LineV>) -> StartState {
    if lines.len() == 0 {
        s
    } else {
        StartState { inserted: s.inserted.push(lines), pad: s.pad || needs_padding(lines) }
    }
}

/// The state once the warnings are inserted, in order.
pub open spec fn with_warnings(s: StartState, warnings: Seq<Vec<Line>>) -> StartState
    decreases warnings.len(),
{
    if warnings.len() == 0 {
        s
    } else {
        inserted(with_warnings(s, warnings.drop_last()), lines_view(warnings.last()@))
    }
}

/// What the screen starts with: the banner and a notice of a newer version
/// where they are shown, then the warnings. Without a banner the prompt stands
/// off what is on the screen already.
pub open spec fn startup_v(
    banner: Option<Seq<LineV>>,
    update: Option<Seq<LineV>>,
    warnings: Seq<Vec<Line>>,
) -> StartState {
    let s = match banner {
        Some(lines) => {
            let shown = StartState { inserted: seq![lines], pad: needs_padding(lines) };
            match update {
                Some(u) => inserted(shown, u),
                None => shown,
            }
        },
        None => StartState { inserted: seq![], pad: true },
    };
    with_warnings(s, warnings)
}

/// The lines that the screen starts with, and whether a blank line follows them.
#[derive(Debug)]
pub struct Startup {
    pub inserts: Vec<Vec<Line>>,
    pub should_pad: bool,
}

fn note_insert(startup: &mut Startup, lines: Vec<Line>)
    ensures
        start_view(*final(startup)) == inserted(start_view(*old(startup)), lines_view(lines@)),
{
    if lines.len() > 0 {
        startup.should_pad = startup.should_pad || should_pad_prompt_after_history_insert(&lines);
        startup.inserts.push(lines);
        assert(start_view(*startup).inserted =~= start_view(*old(startup)).inserted.push(
            lines_view(lines@),
        ));
    } else {
        assert(lines_view(lines@).len() == 0);
    }
}

/// What `s` starts with.
pub open spec fn start_view(s: Startup) -> StartState {
    StartState {
        inserted: s.inserts@.map_values(|l: Vec<Line>| lines_view(l@)),
        pad: s.should_pad,
    }
}

/// What the lines in `lines` show, if there are any.
pub open spec fn opt_shown(lines: Option<Vec<Line>>) -> Option<Seq<LineV>> {
    match lines {
        Some(l) => Some(lines_view(l@)),
        None => None,
    }
}

/// What the screen starts with.
pub fn prompt_startup(
    banner: Option<Vec<Line>>,
    update: Option<Vec<Line>>,
    warnings: Vec<Vec<Line>>,
) -> (r: Startup)
    ensures
        start_view(r) == startup_v(opt_shown(banner), opt_shown(update), warnings@),
{
    let mut startup = Startup { inserts: Vec::new(), should_pad: true };
    assert(start_view(startup).inserted =~= seq![]);
    if let Some(lines) = banner {
        startup.should_pad = should_pad_prompt_after_history_insert(&lines);
        startup.inserts.push(lines);
        assert(start_view(startup).inserted =~= seq![lines_view(lines@)]);
        if let Some(lines) = update {
            note_insert(&mut startup, lines);
        }
    }
    let ghost before = start_view(startup);
    let mut i: usize = 0;
    assert(warnings@.take(0) =~= seq![]);
    while i < warnings.len()
        invariant
            i <= warnings@.len(),
            start_view(startup) == with_warnings(before, warnings@.take(i as int)),
        decreases warnings@.len() - i,
    {
        let lines = crate::styled::duplicate_lines(&warnings[i]);
        note_insert(&mut startup, lines);
        proof {
            let upto = warnings@.take(i + 1);
            assert(upto.drop_last() =~= warnings@.take(i as int));
        }
        i += 1;
    }
    assert(warnings@.take(i as int) =~= warnings@);
    startup
}

/// What the prompt screen is told.
#[derive(Debug)]
pub enum PromptEvent {
    FrameDue { paste_flushed: bool, in_paste_burst: bool },
    Key { key: KeyEvent, popup_visible: bool, composer_empty: bool },
    /// The open popup took a key.
    PopupAnswered { needs_redraw: bool },
    /// The composer took a key. `history_text` is how the prompt history keeps a
    /// submitted prompt.
    ComposerAnswered {
        result: InputResult,
        history_text: String,
        needs_redraw: bool,
        in_paste_burst: bool,
    },
    Pasted(String),
    /// The composer took a paste.
    PasteTaken { needs_redraw: bool },
    EditorClosed(EditorOutcome),
    App(AppEvent),
    /// The composer took an answer of the prompt history.
    HistoryAnswered { needs_redraw: bool },
    ThemeSaved { name: String, outcome: ThemeSave },
    CellLaidOut(Vec<Line>),
    /// No more events come.
    Closed,
}

/// An action of the prompt screen.
#[derive(Debug)]
pub enum PromptAction {
    /// An action that a running turn has too.
    App(AppAction),
    /// Hand the application events that wait to the screen.
    TakeWaitingEvents,
    Draw,
    PassToPopup,
    PassToComposer,
    TakePaste(String),
    /// Say that the prompt is being edited elsewhere.
    ShowEditorHint,
    HideEditorHint,
    RunEditor,
    ClearViewport,
    /// Leave the screen, with a prompt if there is one.
    Leave(Option<String>),
}

/// What a [`PromptAction`] does.
pub enum PromptActionV {
    App(AppActionV),
    TakeWaitingEvents,
    Draw,
    PassToPopup,
    PassToComposer,
    TakePaste(Seq<char>),
    ShowEditorHint,
    HideEditorHint,
    RunEditor,
    ClearViewport,
    Leave(Option<Seq<char>>),
}

impl View for PromptAction {
    type V = PromptActionV;

    open spec fn view(&self) -> PromptActionV {
        match *self {
            PromptAction::App(a) => PromptActionV::App(a@),
            PromptAction::TakeWaitingEvents => PromptActionV::TakeWaitingEvents,
            PromptAction::Draw => PromptActionV::Draw,
            PromptAction::PassToPopup => PromptActionV::PassToPopup,
            PromptAction::PassToComposer => PromptActionV::PassToComposer,
            PromptAction::TakePaste(t) => PromptActionV::TakePaste(t@),
            PromptAction::ShowEditorHint => PromptActionV::ShowEditorHint,
            PromptAction::HideEditorHint => PromptActionV::HideEditorHint,
            PromptAction::RunEditor => PromptActionV::RunEditor,
            PromptAction::ClearViewport => PromptActionV::ClearViewport,
            PromptAction::Leave(t) => PromptActionV::Leave(opt_text(t)),
        }
    }
}

/// What `actions` do.
pub open spec fn prompt_actions_view(actions: Seq<PromptAction>) -> Seq<PromptActionV> {
    actions.map_values(|a: PromptAction| a@)
}

/// A request for a frame, where one is needed.
pub open spec fn redraw_if(needed: bool) -> Seq<PromptActionV> {
    if needed {
        seq![PromptActionV::App(AppActionV::ScheduleFrame)]
    } else {
        seq![]
    }
}

/// The actions for a key.
pub open spec fn key_actions(step: PromptKeyStep) -> Seq<PromptActionV> {
    match step {
        PromptKeyStep::Ignore => seq![],
        PromptKeyStep::PassToPopup => seq![PromptActionV::PassToPopup],
        PromptKeyStep::Cancel => seq![PromptActionV::ClearViewport, PromptActionV::Leave(None)],
        PromptKeyStep::ClearComposer => seq![
            PromptActionV::App(AppActionV::ClearComposer),
            PromptActionV::App(AppActionV::ScheduleFrame),
        ],
        PromptKeyStep::OpenEditor => seq![
            PromptActionV::ShowEditorHint,
            PromptActionV::Draw,
            PromptActionV::RunEditor,
        ],
        PromptKeyStep::PassToComposer => seq![PromptActionV::PassToComposer],
    }
}

/// The actions for what the composer made of a key, beyond redrawing it.
pub open spec fn input_actions(result: InputResult, history_text: Seq<char>) -> Seq<PromptActionV> {
    match result {
        InputResult::Submitted(t) => seq![
            PromptActionV::App(AppActionV::RecordPromptHistory(history_text)),
            PromptActionV::Leave(Some(t@)),
        ],
        InputResult::Queued(t) => seq![
            PromptActionV::App(AppActionV::RecordPromptHistory(history_text)),
            PromptActionV::Leave(Some(t@)),
        ],
        InputResult::Command(SlashCommand::Mention) => seq![
            PromptActionV::App(AppActionV::InsertIntoComposer("@"@)),
            PromptActionV::App(AppActionV::ScheduleFrame),
        ],
        InputResult::Command(SlashCommand::Exit) => seq![
            PromptActionV::ClearViewport,
            PromptActionV::Leave(None),
        ],
        InputResult::Command(SlashCommand::Theme) => seq![
            PromptActionV::App(AppActionV::ShowThemePicker),
            PromptActionV::App(AppActionV::ScheduleFrame),
        ],
        InputResult::Nothing => seq![],
    }
}

/// The actions for an application event.
pub open spec fn event_actions(event: AppEvent) -> Seq<PromptActionV> {
    match event {
        AppEvent::StartFileSearch(query) => seq![
            PromptActionV::App(AppActionV::StartFileSearch(query@)),
        ],
        AppEvent::FileSearchResult { query, matches } => seq![
            PromptActionV::App(
                AppActionV::ShowFileSearchResult { query: query@, matches: matches@ },
            ),
            PromptActionV::App(AppActionV::ScheduleFrame),
        ],
        AppEvent::SyntaxThemeSelected { name } => seq![
            PromptActionV::App(AppActionV::SaveTheme { name: name@ }),
        ],
        AppEvent::InsertHistoryCell(cell) => seq![PromptActionV::App(AppActionV::LayOutCell(cell@))],
        AppEvent::CodexOp(Op::GetHistoryEntryRequest { offset, log_id }) => seq![
            PromptActionV::App(AppActionV::LookUpPromptHistory { offset, log_id }),
        ],
        _ => seq![],
    }
}

/// The actions for how editing the prompt elsewhere went.
pub open spec fn editor_actions(outcome: EditorOutcome) -> Seq<PromptActionV> {
    seq![PromptActionV::App(editor_action(outcome))] + redraw_if(outcome is Edited) + seq![
        PromptActionV::HideEditorHint,
    ]
}

/// The actions for how saving a theme went.
pub open spec fn theme_actions(name: Seq<char>, outcome: ThemeSave) -> Seq<PromptActionV> {
    theme_save_actions(name, outcome).map_values(|a: AppActionV| PromptActionV::App(a))
}

/// The actions that the prompt screen asks for when it is told of `event`.
pub open spec fn prompt_actions(event: PromptEvent) -> Seq<PromptActionV> {
    match event {
        PromptEvent::FrameDue { paste_flushed, in_paste_burst } => if paste_flushed {
            seq![PromptActionV::App(AppActionV::ScheduleFrame)]
        } else if in_paste_burst {
            seq![PromptActionV::App(AppActionV::ScheduleFrameAfterPaste)]
        } else {
            seq![PromptActionV::TakeWaitingEvents, PromptActionV::Draw]
        },
        PromptEvent::Key { key, popup_visible, composer_empty } => key_actions(
            prompt_key_step(key, popup_visible, composer_empty),
        ),
        PromptEvent::PopupAnswered { needs_redraw } => redraw_if(needs_redraw),
        PromptEvent::ComposerAnswered { result, history_text, needs_redraw, in_paste_burst } =>
        redraw_if(needs_redraw) + (if in_paste_burst {
            seq![PromptActionV::App(AppActionV::ScheduleFrameAfterPaste)]
        } else {
            seq![]
        }) + input_actions(result, history_text@),
        PromptEvent::Pasted(pasted) => seq![PromptActionV::TakePaste(with_line_feeds(pasted@))],
        PromptEvent::PasteTaken { needs_redraw } => redraw_if(needs_redraw),
        PromptEvent::EditorClosed(outcome) => editor_actions(outcome),
        PromptEvent::App(event) => event_actions(event),
        PromptEvent::HistoryAnswered { needs_redraw } => redraw_if(needs_redraw),
        PromptEvent::ThemeSaved { name, outcome } => theme_actions(name@, outcome),
        PromptEvent::CellLaidOut(lines) => if lines@.len() == 0 {
            seq![]
        } else {
            seq![PromptActionV::App(AppActionV::InsertLines(lines_view(lines@)))]
        },
        PromptEvent::Closed => seq![PromptActionV::Leave(None)],
    }
}

/// Whether a blank line stands above the prompt once the screen was told of `event`.
pub open spec fn pad_after(pad: bool, event: PromptEvent) -> bool {
    match event {
        PromptEvent::CellLaidOut(lines) => pad || needs_padding(lines_view(lines@)),
        _ => pad,
    }
}

fn push_action(out: &mut Vec<PromptAction>, action: PromptAction)
    ensures
        prompt_actions_view(final(out)@) == prompt_actions_view(old(out)@).push(action@),
{
    out.push(action);
    assert(prompt_actions_view(out@) =~= prompt_actions_view(old(out)@).push(action@));
}

fn push_app_action(out: &mut Vec<PromptAction>, action: AppAction)
    ensures
        prompt_actions_view(final(out)@) == prompt_actions_view(old(out)@).push(
            PromptActionV::App(action@),
        ),
{
    push_action(out, PromptAction::App(action));
}

fn push_redraw_if(out: &mut Vec<PromptAction>, needed: bool)
    ensures
        prompt_actions_view(final(out)@) == prompt_actions_view(old(out)@) + redraw_if(needed),
{
    if needed {
        push_app_action(out, AppAction::ScheduleFrame);
    }
    assert(prompt_actions_view(out@) =~= prompt_actions_view(old(out)@) + redraw_if(needed));
}

fn push_key_actions(out: &mut Vec<PromptAction>, step: PromptKeyStep)
    ensures
        prompt_actions_view(final(out)@) == prompt_actions_view(old(out)@) + key_actions(step),
{
    match step {
        PromptKeyStep::Ignore => {},
        PromptKeyStep::PassToPopup => {
            push_action(out, PromptAction::PassToPopup);
        },
        PromptKeyStep::Cancel => {
            push_action(out, PromptAction::ClearViewport);
            push_action(out, PromptAction::Leave(None));
        },
        PromptKeyStep::ClearComposer => {
            push_app_action(out, AppAction::ClearComposer);
            push_app_action(out, AppAction::ScheduleFrame);
        },
        PromptKeyStep::OpenEditor => {
            push_action(out, PromptAction::ShowEditorHint);
            push_action(out, PromptAction::Draw);
            push_action(out, PromptAction::RunEditor);
        },
        PromptKeyStep::PassToComposer => {
            push_action(out, PromptAction::PassToComposer);
        },
    }
    assert(prompt_actions_view(out@) =~= prompt_actions_view(old(out)@) + key_actions(step));
}

fn push_input_actions(out: &mut Vec<PromptAction>, result: InputResult, history_text: String)
    ensures
        prompt_actions_view(final(out)@) == prompt_actions_view(old(out)@) + input_actions(
            result,
            history_text@,
        ),
{
    let ghost shown = history_text@;
    match on_prompt_input(result) {
        PromptStep::Submit(t) => {
            push_app_action(out, AppAction::RecordPromptHistory(history_text));
            push_action(out, PromptAction::Leave(Some(t)));
        },
        PromptStep::InsertMention => {
            push_app_action(out, AppAction::InsertIntoComposer("@".to_string()));
            push_app_action(out, AppAction::ScheduleFrame);
        },
        PromptStep::Cancel => {
            push_action(out, PromptAction::ClearViewport);
            push_action(out, PromptAction::Leave(None));
        },
        PromptStep::ShowThemePicker => {
            push_app_action(out, AppAction::ShowThemePicker);
            push_app_action(out, AppAction::ScheduleFrame);
        },
        PromptStep::Stay => {},
    }
    assert(prompt_actions_view(out@) =~= prompt_actions_view(old(out)@) + input_actions(
        result,
        shown,
    ));
}

fn push_event_actions(out: &mut Vec<PromptAction>, event: AppEvent)
    ensures
        prompt_actions_view(final(out)@) == prompt_actions_view(old(out)@) + event_actions(event),
{
    match handle_prompt_app_event(event) {
        PromptEventStep::SearchFiles(query) => {
            push_app_action(out, AppAction::StartFileSearch(query));
        },
        PromptEventStep::ShowFileSearchResult { query, matches } => {
            push_app_action(out, AppAction::ShowFileSearchResult { query, matches });
            push_app_action(out, AppAction::ScheduleFrame);
        },
        PromptEventStep::SaveTheme { name } => {
            push_app_action(out, AppAction::SaveTheme { name });
        },
        PromptEventStep::LayOutCell(cell) => {
            push_app_action(out, AppAction::LayOutCell(cell));
        },
        PromptEventStep::LookUpPromptHistory { offset, log_id } => {
            push_app_action(out, AppAction::LookUpPromptHistory { offset, log_id });
        },
        PromptEventStep::Ignore => {},
    }
    assert(prompt_actions_view(out@) =~= prompt_actions_view(old(out)@) + event_actions(event));
}

fn push_editor_actions(out: &mut Vec<PromptAction>, outcome: EditorOutcome)
    ensures
        prompt_actions_view(final(out)@) == prompt_actions_view(old(out)@) + editor_actions(
            outcome,
        ),
{
    let edited = match &outcome {
        EditorOutcome::Edited(_) => true,
        _ => false,
    };
    let action = on_editor_outcome(outcome);
    push_app_action(out, action);
    if edited {
        push_app_action(out, AppAction::ScheduleFrame);
    }
    push_action(out, PromptAction::HideEditorHint);
    assert(prompt_actions_view(out@) =~= prompt_actions_view(old(out)@) + editor_actions(outcome));
}

fn push_theme_actions(out: &mut Vec<PromptAction>, name: String, outcome: ThemeSave)
    ensures
        prompt_actions_view(final(out)@) == prompt_actions_view(old(out)@) + theme_actions(
            name@,
            outcome,
        ),
{
    let ghost start = prompt_actions_view(out@);
    let ghost shown = theme_actions(name@, outcome);
    let mut actions = on_theme_save(name, outcome);
    let ghost asked = app_actions_view(actions@);
    assert(shown =~= asked.map_values(|a: AppActionV| PromptActionV::App(a)));
    let ghost total = asked.len();
    assert(prompt_actions_view(out@) =~= start + shown.take(0));
    while actions.len() > 0
        invariant
            actions@.len() <= total,
            total == asked.len(),
            shown == asked.map_values(|a: AppActionV| PromptActionV::App(a)),
            forall|k: int|
                0 <= k < actions@.len() ==> (#[trigger] actions@[k])@ == asked[total
                    - actions@.len() + k],
            prompt_actions_view(out@) == start + shown.take(total - actions@.len()),
        decreases actions@.len(),
    {
        let ghost done = total - actions@.len();
        let ghost before = actions@;
        let action = actions.remove(0);
        assert(before[0]@ == asked[done]);
        push_app_action(out, action);
        assert(shown.take(done + 1) =~= shown.take(done).push(shown[done]));
        assert(prompt_actions_view(out@) =~= start + shown.take(done + 1));
        assert forall|k: int| 0 <= k < actions@.len() implies (#[trigger] actions@[k])@
            == asked[done + 1 + k] by {
            assert(actions@[k] == before[k + 1]);
        }
    }
    assert(shown.take(total as int) =~= shown);
}

/// The screen on which the user writes a new task.
#[derive(Clone, Copy, PartialEq, Eq, Structural, Debug)]
pub struct PromptScreen {
    /// Whether a blank line stands above the prompt.
    pub should_pad: bool,
}

impl PromptScreen {
    /// The screen, once the lines that it starts with are shown.
    pub fn new(startup: &Startup) -> (r: Self)
        ensures
            r.should_pad == startup.should_pad,
    {
        PromptScreen { should_pad: startup.should_pad }
    }

    /// Tells the screen of `event` and returns what it asks for, in order.
    pub fn handle_event(&mut self, event: PromptEvent) -> (r: Vec<PromptAction>)
        ensures
            prompt_actions_view(r@) == prompt_actions(event),
            final(self).should_pad == pad_after(old(self).should_pad, event),
    {
        let mut out: Vec<PromptAction> = Vec::new();
        assert(prompt_actions_view(out@) =~= seq![]);
        match event {
            PromptEvent::FrameDue { paste_flushed, in_paste_burst } => {
                match on_frame(paste_flushed, in_paste_burst) {
                    DrawStep::Redraw => {
                        push_app_action(&mut out, AppAction::ScheduleFrame);
                    },
                    DrawStep::RedrawAfterPaste => {
                        push_app_action(&mut out, AppAction::ScheduleFrameAfterPaste);
                    },
                    DrawStep::Draw => {
                        push_action(&mut out, PromptAction::TakeWaitingEvents);
                        push_action(&mut out, PromptAction::Draw);
                    },
                }
            },
            PromptEvent::Key { key, popup_visible, composer_empty } => {
                push_key_actions(&mut out, on_prompt_key(key, popup_visible, composer_empty));
            },
            PromptEvent::PopupAnswered { needs_redraw } => {
                push_redraw_if(&mut out, needs_redraw);
            },
            PromptEvent::ComposerAnswered { result, history_text, needs_redraw, in_paste_burst } => {
                push_redraw_if(&mut out, needs_redraw);
                if in_paste_burst {
                    push_app_action(&mut out, AppAction::ScheduleFrameAfterPaste);
                }
                push_input_actions(&mut out, result, history_text);
            },
            PromptEvent::Pasted(pasted) => {
                push_action(&mut out, PromptAction::TakePaste(normalize_paste(pasted.as_str())));
            },
            PromptEvent::PasteTaken { needs_redraw } => {
                push_redraw_if(&mut out, needs_redraw);
            },
            PromptEvent::EditorClosed(outcome) => {
                push_editor_actions(&mut out, outcome);
            },
            PromptEvent::App(event) => {
                push_event_actions(&mut out, event);
            },
            PromptEvent::HistoryAnswered { needs_redraw } => {
                push_redraw_if(&mut out, needs_redraw);
            },
            PromptEvent::ThemeSaved { name, outcome } => {
                push_theme_actions(&mut out, name, outcome);
            },
            PromptEvent::CellLaidOut(lines) => {
                if lines.len() > 0 {
                    self.should_pad = self.should_pad || should_pad_prompt_after_history_insert(
                        &lines,
                    );
                    push_app_action(&mut out, AppAction::InsertLines(lines));
                } else {
                    assert(lines_view(lines@).len() == 0);
                }
            },
            PromptEvent::Closed => {
                push_action(&mut out, PromptAction::Leave(None));
            },
        }
        assert(prompt_actions_view(out@) =~= prompt_actions(event));
        out
    }

    /// The lines above the prompt.
    pub fn lines_above(&self) -> (r: Vec<Line>)
        ensures
            lines_view(r@) == if self.should_pad {
                seq![blank_line_v()]
            } else {
                seq![]
            },
    {
        let mut lines: Vec<Line> = Vec::new();
        if self.should_pad {
            lines.push(Line::blank());
            assert(lines_view(lines@) =~= seq![blank_line_v()]);
        } else {
            assert(lines_view(lines@) =~= seq![]);
        }
        lines
    }
}

/// The screen is left with a prompt exactly when the user submits one, after the
/// prompt history has it, and nothing follows.
pub proof fn law_submitted_prompt_is_recorded(event: PromptEvent, t: Seq<char>)
    ensures
        ({
            let actions = prompt_actions(event);
            let n = actions.len() as int;
            actions.contains(PromptActionV::Leave(Some(t))) ==> {
                &&& event is ComposerAnswered
                &&& match event->result {
                    InputResult::Submitted(s) => s@ == t,
                    InputResult::Queued(s) => s@ == t,
                    _ => false,
                }
                &&& n >= 2
                &&& actions[n - 1] == PromptActionV::Leave(Some(t))
                &&& actions[n - 2] == PromptActionV::App(
                    AppActionV::RecordPromptHistory(event->history_text@),
                )
            }
        }),
        event matches PromptEvent::ComposerAnswered { result: InputResult::Submitted(s), .. }
            ==> s@ == t ==> prompt_actions(event).contains(PromptActionV::Leave(Some(t))),
        event matches PromptEvent::ComposerAnswered { result: InputResult::Queued(s), .. } ==> s@
            == t ==> prompt_actions(event).contains(PromptActionV::Leave(Some(t))),
{
    let actions = prompt_actions(event);
    match event {
        PromptEvent::ComposerAnswered { result, history_text, .. } => {
            let tail = input_actions(result, history_text@);
            let head = actions.len() - tail.len();
            assert forall|k: int| 0 <= k < tail.len() implies actions[head + k] == #[trigger] tail[k] by {
            }
            match result {
                InputResult::Submitted(s) => {
                    assert(actions[head + 1] == tail[1]);
                    assert(actions[head] == tail[0]);
                },
                InputResult::Queued(s) => {
                    assert(actions[head + 1] == tail[1]);
                    assert(actions[head] == tail[0]);
                },
                _ => {},
            }
        },
        _ => {},
    }
}

/// Where the user leaves without a prompt, the viewport is cleared first; only
/// when no more events come is the screen left as it is.
pub proof fn law_cancelled_screen_is_cleared(event: PromptEvent)
    ensures
        ({
            let actions = prompt_actions(event);
            let n = actions.len() as int;
            actions.contains(PromptActionV::Leave(None)) && !(event is Closed) ==> {
                &&& n >= 2
                &&& actions[n - 1] == PromptActionV::Leave(None)
                &&& actions[n - 2] is ClearViewport
            }
        }),
{
    let actions = prompt_actions(event);
    match event {
        PromptEvent::ComposerAnswered { result, history_text, .. } => {
            let tail = input_actions(result, history_text@);
            let head = actions.len() - tail.len();
            assert forall|k: int| 0 <= k < tail.len() implies actions[head + k] == #[trigger] tail[k] by {
            }
            if result == InputResult::Command(SlashCommand::Exit) {
                assert(actions[head + 1] == tail[1]);
                assert(actions[head] == tail[0]);
            }
        },
        _ => {},
    }
}

/// A blank line that once stands above the prompt stays.
pub proof fn law_padding_stays(pad: bool, event: PromptEvent)
    ensures
        pad ==> pad_after(pad, event),
{
}

/// What the banner calls the model: its name and, where it has one, its effort.
pub open spec fn model_label_v(model: Seq<char>, effort: Option<Seq<char>>) -> Seq<char> {
    match effort {
        Some(e) => model + " "@ + e,
        None => model,
    }
}

/// What the banner calls the model.
pub fn model_label(model: &str, reasoning_effort: Option<&str>) -> (r: String)
    ensures
        r@ == model_label_v(model@, opt_str(reasoning_effort)),
{
    match reasoning_effort {
        Some(effort) => text::concat3(model, " ", effort),
        None => model.to_string(),
    }
}

/// The themes to try in turn when the program starts: the one that is configured,
/// then the one that suits the terminal.
pub fn theme_candidates(configured: Option<String>, fallback: &str) -> (r: Vec<String>)
    ensures
        text::texts(r@) == match configured {
            Some(name) => seq![name@, fallback@],
            None => seq![fallback@],
        },
{
    let mut names: Vec<String> = Vec::new();
    if let Some(name) = configured {
        names.push(name);
    }
    names.push(fallback.to_string());
    assert(text::texts(names@) =~= match configured {
        Some(name) => seq![name@, fallback@],
        None => seq![fallback@],
    });
    names
}

/// The keys of the prompt screen: Ctrl+C belongs to an open popup, clears a prompt that
/// has text, and leaves where there is none; Ctrl+G edits the prompt elsewhere; every
/// other key goes to the composer. A key that is let go does nothing, and of the two
/// special keys only the press counts.
pub proof fn law_keys_of_the_prompt_screen(
    key: KeyEvent,
    popup_visible: bool,
    composer_empty: bool,
)
    ensures
        ({
            let actions = prompt_actions(PromptEvent::Key { key, popup_visible, composer_empty });
            let c = key.modifiers.control && key.code == KeyCode::Char('c');
            let g = key.modifiers.control && key.code == KeyCode::Char('g');
            let pressed = key.kind == KeyEventKind::Press;
            &&& actions.contains(PromptActionV::Leave(None)) <==> c && pressed && !popup_visible
                && composer_empty
            &&& actions.contains(PromptActionV::App(AppActionV::ClearComposer)) <==> c && pressed
                && !popup_visible && !composer_empty
            &&& actions.contains(PromptActionV::PassToPopup) <==> c && pressed && popup_visible
            &&& actions.contains(PromptActionV::RunEditor) <==> g && pressed
            &&& actions.contains(PromptActionV::PassToComposer) <==> !c && !g && key.kind
                != KeyEventKind::Release
            &&& key.kind == KeyEventKind::Release ==> actions.len() == 0
            &&& g && pressed ==> actions[0] == PromptActionV::ShowEditorHint
        }),
{
    let actions = prompt_actions(PromptEvent::Key { key, popup_visible, composer_empty });
    if actions.len() > 0 {
        assert(actions.contains(actions[0]));
    }
    if actions.len() > 1 {
        assert(actions.contains(actions[1]));
    }
    if actions.len() > 2 {
        assert(actions.contains(actions[2]));
    }
}

/// The commands of the prompt screen: `/exit` leaves without a prompt, `/mention` writes
/// the sign that starts a mention, `/theme` shows the themes; what is not submitted and no
/// command leaves nothing behind but a redraw where one is needed.
pub proof fn law_commands_of_the_prompt_screen(
    command: SlashCommand,
    history_text: String,
    needs_redraw: bool,
    in_paste_burst: bool,
)
    ensures
        ({
            let actions = prompt_actions(
                PromptEvent::ComposerAnswered {
                    result: InputResult::Command(command),
                    history_text,
                    needs_redraw,
                    in_paste_burst,
                },
            );
            let last = actions.last();
            let before = actions[actions.len() - 2];
            &&& actions.len() >= 2
            &&& command == SlashCommand::Exit ==> last == PromptActionV::Leave(None) && before
                == PromptActionV::ClearViewport
            &&& command == SlashCommand::Mention ==> before == PromptActionV::App(
                AppActionV::InsertIntoComposer("@"@),
            ) && last == PromptActionV::App(AppActionV::ScheduleFrame)
            &&& command == SlashCommand::Theme ==> before == PromptActionV::App(
                AppActionV::ShowThemePicker,
            ) && last == PromptActionV::App(AppActionV::ScheduleFrame)
        }),
        ({
            let actions = prompt_actions(
                PromptEvent::ComposerAnswered {
                    result: InputResult::Nothing,
                    history_text,
                    needs_redraw,
                    in_paste_burst,
                },
            );
            &&& actions.len() == (if needs_redraw {
                1int
            } else {
                0
            }) + (if in_paste_burst {
                1int
            } else {
                0
            })
            &&& needs_redraw ==> actions[0] == PromptActionV::App(AppActionV::ScheduleFrame)
            &&& in_paste_burst ==> actions.last() == PromptActionV::App(
                AppActionV::ScheduleFrameAfterPaste,
            )
        }),
{
}

/// A paste is taken in character by character, with a line feed for every carriage return
/// and nothing else changed.
pub proof fn law_paste_keeps_its_text(pasted: String, i: int)
    requires
        0 <= i < pasted@.len(),
    ensures
        ({
            let actions = prompt_actions(PromptEvent::Pasted(pasted));
            &&& actions.len() == 1
            &&& actions[0] matches PromptActionV::TakePaste(t) && t.len() == pasted@.len() && t[i]
                == if pasted@[i] == '\r' {
                '\n'
            } else {
                pasted@[i]
            }
        }),
{
}

/// A frame that is due is drawn, behind the events that wait, unless a paste is being
/// taken in; then it is asked for again.
pub proof fn law_paste_delays_the_frame(paste_flushed: bool, in_paste_burst: bool)
    ensures
        ({
            let actions = prompt_actions(PromptEvent::FrameDue { paste_flushed, in_paste_burst });
            &&& !paste_flushed && !in_paste_burst ==> actions == seq![
                PromptActionV::TakeWaitingEvents,
                PromptActionV::Draw,
            ]
            &&& paste_flushed ==> actions == seq![PromptActionV::App(AppActionV::ScheduleFrame)]
            &&& in_paste_burst && !paste_flushed ==> actions == seq![
                PromptActionV::App(AppActionV::ScheduleFrameAfterPaste),
            ]
        }),
{
}

/// What the application asks of the prompt screen is passed on with what it is about:
/// file searches and what they found, a theme to save, a cell to show and an entry of the
/// prompt history to look up.
pub proof fn law_application_events_reach_the_prompt_screen(
    query: String,
    matches: Vec<FileMatch>,
    name: String,
    cell: Cell,
    offset: usize,
    log_id: u64,
    lines: Vec<Line>,
)
    ensures
        prompt_actions(PromptEvent::App(AppEvent::StartFileSearch(query))) == seq![
            PromptActionV::App(AppActionV::StartFileSearch(query@)),
        ],
        prompt_actions(PromptEvent::App(AppEvent::FileSearchResult { query, matches }))[0]
            == PromptActionV::App(
            AppActionV::ShowFileSearchResult { query: query@, matches: matches@ },
        ),
        prompt_actions(PromptEvent::App(AppEvent::SyntaxThemeSelected { name })) == seq![
            PromptActionV::App(AppActionV::SaveTheme { name: name@ }),
        ],
        prompt_actions(PromptEvent::App(AppEvent::InsertHistoryCell(cell))) == seq![
            PromptActionV::App(AppActionV::LayOutCell(cell@)),
        ],
        prompt_actions(
            PromptEvent::App(AppEvent::CodexOp(Op::GetHistoryEntryRequest { offset, log_id })),
        ) == seq![PromptActionV::App(AppActionV::LookUpPromptHistory { offset, log_id })],
        lines@.len() == 0 ==> prompt_actions(PromptEvent::CellLaidOut(lines)).len() == 0,
        lines@.len() > 0 ==> prompt_actions(PromptEvent::CellLaidOut(lines)) == seq![
            PromptActionV::App(AppActionV::InsertLines(lines_view(lines@))),
        ],
{
}

/// How editing the prompt elsewhere went: an edited prompt replaces the one in the
/// composer, and anything else is shown as an error; the hint goes in any case. A theme
/// that was saved is used, and one that was not gives way to the configured one.
pub proof fn law_editor_and_theme_outcomes(text: String, name: String, err: String)
    ensures
        ({
            let edited = prompt_actions(PromptEvent::EditorClosed(EditorOutcome::Edited(text)));
            let missing = prompt_actions(PromptEvent::EditorClosed(EditorOutcome::Missing(err)));
            let failed = prompt_actions(PromptEvent::EditorClosed(EditorOutcome::Failed(err)));
            &&& edited[0] == PromptActionV::App(AppActionV::ApplyExternalEdit(text@))
            &&& missing[0] == PromptActionV::App(AppActionV::LayOutCell(CellV::Error(err@)))
            &&& failed[0] == PromptActionV::App(
                AppActionV::LayOutCell(CellV::Error("Failed to open editor: "@ + err@)),
            )
            &&& edited.last() == PromptActionV::HideEditorHint
            &&& missing.last() == PromptActionV::HideEditorHint
            &&& failed.last() == PromptActionV::HideEditorHint
        }),
        ({
            let saved = prompt_actions(
                PromptEvent::ThemeSaved { name, outcome: ThemeSave::Saved },
            );
            let failed = prompt_actions(
                PromptEvent::ThemeSaved { name, outcome: ThemeSave::SaveFailed(err) },
            );
            &&& saved[0] == PromptActionV::App(AppActionV::ApplyTheme { name: name@ })
            &&& failed[0] == PromptActionV::App(AppActionV::RestoreTheme)
            &&& failed[1] == PromptActionV::App(
                AppActionV::LayOutCell(CellV::Error("Failed to save theme: "@ + err@)),
            )
        }),
{
}

/// Lines are followed by a blank line exactly where their last line shows something.
pub proof fn law_padding_follows_text(lines: Seq<LineV>, i: int)
    ensures
        lines.len() == 0 ==> !needs_padding(lines),
        lines.len() > 0 && lines.last().spans.len() == 0 ==> !needs_padding(lines),
        lines.len() > 0 && 0 <= i < lines.last().spans.len() && text::trim(
            lines.last().spans[i].content,
        ).len() > 0 ==> needs_padding(lines),
        lines.len() > 0 && (forall|k: int|
            0 <= k < lines.last().spans.len() ==> text::trim(
                #[trigger] lines.last().spans[k].content,
            ).len() == 0) ==> !needs_padding(lines),
{
    if lines.len() > 0 && 0 <= i < lines.last().spans.len() && text::trim(
        lines.last().spans[i].content,
    ).len() > 0 {
        assert(shows_text(lines.last().spans[i]));
    }
    if lines.len() > 0 && (forall|k: int|
        0 <= k < lines.last().spans.len() ==> text::trim(
            #[trigger] lines.last().spans[k].content,
        ).len() == 0) {
        assert forall|k: int| 0 <= k < lines.last().spans.len() implies !shows_text(
            #[trigger] lines.last().spans[k],
        ) by {
            assert(text::trim(lines.last().spans[k].content).len() == 0);
        }
    }
}

/// The screen starts with the banner, then the notice of a newer version, then every
/// warning that has lines, in order. Without a banner there is no such notice, and the
/// prompt stands off what is on the screen.
pub proof fn law_screen_starts_with_the_banner(
    banner: Seq<LineV>,
    update: Seq<LineV>,
    warnings: Seq<Vec<Line>>,
    last: Vec<Line>,
)
    ensures
        startup_v(Some(banner), None, seq![]).inserted == seq![banner],
        startup_v(Some(banner), Some(update), seq![]).inserted == if update.len() > 0 {
            seq![banner, update]
        } else {
            seq![banner]
        },
        startup_v(None, Some(update), seq![]).inserted.len() == 0,
        startup_v(None, Some(update), warnings).pad,
        last@.len() > 0 ==> startup_v(Some(banner), Some(update), warnings.push(last)).inserted
            == startup_v(Some(banner), Some(update), warnings).inserted.push(lines_view(last@)),
        last@.len() == 0 ==> startup_v(Some(banner), Some(update), warnings.push(last))
            == startup_v(Some(banner), Some(update), warnings),
        startup_v(Some(banner), Some(update), warnings.push(last)).pad <==> startup_v(
            Some(banner),
            Some(update),
            warnings,
        ).pad || needs_padding(lines_view(last@)),
{
    assert(warnings.push(last).drop_last() =~= warnings);
    lemma_warnings_keep_the_pad(StartState { inserted: seq![], pad: true }, warnings);
    assert(startup_v(Some(banner), Some(update), seq![]).inserted =~= if update.len() > 0 {
        seq![banner, update]
    } else {
        seq![banner]
    });
}

proof fn lemma_warnings_keep_the_pad(s: StartState, warnings: Seq<Vec<Line>>)
    requires
        s.pad,
    ensures
        with_warnings(s, warnings).pad,
    decreases warnings.len(),
{
    if warnings.len() > 0 {
        lemma_warnings_keep_the_pad(s, warnings.drop_last());
    }
}

/// The banner calls the model by its name, with its effort behind where it has one.
pub proof fn law_model_label(model: Seq<char>, effort: Seq<char>)
    ensures
        model_label_v(model, None) == model,
        model_label_v(model, Some(effort)).len() == model.len() + 1 + effort.len(),
        model_label_v(model, Some(effort)).take(model.len() as int) == model,
        text::ends_in(model_label_v(model, Some(effort)), effort),
{
    reveal_strlit(" ");
    assert(model_label_v(model, Some(effort)).take(model.len() as int) =~= model);
    text::lemma_ends_in(model + " "@, effort);
}

} // verus!
