//! The event loop of a running turn: what each event asks for, and when the turn
//! is left.

use vstd::prelude::*;

use crate::app_event::AppEvent;
use crate::app_server_render::{
    app_actions_view, editor_action, on_editor_outcome, on_theme_save, theme_save_actions,
    AppAction, AppActionV, AppState, EditorOutcome, InputResult, KeyStep, KeyStepV, PaneFacts,
    RenderAppState, ThemeSave,
};
use crate::exit::ExitReasonV;
use crate::key::{KeyCode, KeyEvent, KeyEventKind};
use crate::prompt_screen::{normalize_paste, on_frame, with_line_feeds, DrawStep};
use crate::protocol::EventMsg;
use crate::styled::{lines_view, Line};

verus! {

/// What a running turn is told.
#[derive(Debug)]
pub enum TurnEvent {
    FrameDue { paste_flushed: bool, in_paste_burst: bool },
    /// The frame that was due is drawn.
    FrameDrawn,
    Key { key: KeyEvent, popup_visible: bool, composer_empty: bool },
    /// The open popup took a key.
    PopupAnswered { needs_redraw: bool },
    /// The composer took a key. `history_text` is how the prompt history keeps a
    /// submitted prompt.
    ComposerAnswered {
        result: InputResult,
        history_text: String,
        task_running: bool,
        needs_redraw: bool,
        in_paste_burst: bool,
    },
    Pasted(String),
    /// The composer took a paste.
    PasteTaken { needs_redraw: bool },
    EditorClosed(EditorOutcome),
    App { event: AppEvent, pane: PaneFacts },
    Backend { msg: EventMsg, pane: PaneFacts },
    BackendClosed,
    /// The composer took an answer of the prompt history.
    HistoryAnswered { needs_redraw: bool },
    ThemeSaved { name: String, outcome: ThemeSave },
    CellLaidOut { lines: Vec<Line>, is_stream_continuation: bool },
    /// No more events of the terminal or the application come.
    Closed,
}

/// An action of the event loop.
#[derive(Debug)]
pub enum TurnAction {
    /// An action of the turn.
    App(AppAction),
    /// Hand the events that wait to the turn: those of the application, those of
    /// the backend, the fatal requests, and what they led to.
    TakeWaitingEvents,
    Draw,
    /// Draw, and tell the turn when it is done.
    DrawFrame,
    PassToPopup,
    PassToComposer,
    TakePaste(String),
    /// Say that the prompt is being edited elsewhere.
    ShowEditorHint,
    HideEditorHint,
    RunEditor,
    /// Stop the timers and leave with what the turn says of its end.
    Leave,
}

/// What a [`TurnAction`] does.
pub enum TurnActionV {
    App(AppActionV),
    TakeWaitingEvents,
    Draw,
    DrawFrame,
    PassToPopup,
    PassToComposer,
    TakePaste(Seq<char>),
    ShowEditorHint,
    HideEditorHint,
    RunEditor,
    Leave,
}

impl View for TurnAction {
    type V = TurnActionV;

    open spec fn view(&self) -> TurnActionV {
        match *self {
            TurnAction::App(a) => TurnActionV::App(a@),
            TurnAction::TakeWaitingEvents => TurnActionV::TakeWaitingEvents,
            TurnAction::Draw => TurnActionV::Draw,
            TurnAction::DrawFrame => TurnActionV::DrawFrame,
            TurnAction::PassToPopup => TurnActionV::PassToPopup,
            TurnAction::PassToComposer => TurnActionV::PassToComposer,
            TurnAction::TakePaste(t) => TurnActionV::TakePaste(t@),
            TurnAction::ShowEditorHint => TurnActionV::ShowEditorHint,
            TurnAction::HideEditorHint => TurnActionV::HideEditorHint,
            TurnAction::RunEditor => TurnActionV::RunEditor,
            TurnAction::Leave => TurnActionV::Leave,
        }
    }
}

/// What `actions` do.
pub open spec fn turn_actions_view(actions: Seq<TurnAction>) -> Seq<TurnActionV> {
    actions.map_values(|a: TurnAction| a@)
}

/// The actions of a turn, as actions of its loop.
pub open spec fn of_turn(actions: Seq<AppActionV>) -> Seq<TurnActionV> {
    actions.map_values(|a: AppActionV| TurnActionV::App(a))
}

/// A request for a frame, where one is needed.
pub open spec fn frame_if(needed: bool) -> Seq<TurnActionV> {
    if needed {
        seq![TurnActionV::App(AppActionV::ScheduleFrame)]
    } else {
        seq![]
    }
}

/// A request for a frame behind a paste that is being taken in.
pub open spec fn frame_after_paste_if(in_paste_burst: bool) -> Seq<TurnActionV> {
    if in_paste_burst {
        seq![TurnActionV::App(AppActionV::ScheduleFrameAfterPaste)]
    } else {
        seq![]
    }
}

/// What a due frame asks for.
pub open spec fn frame_actions(paste_flushed: bool, in_paste_burst: bool) -> Seq<TurnActionV> {
    if paste_flushed {
        seq![TurnActionV::App(AppActionV::ScheduleFrame)]
    } else if in_paste_burst {
        seq![TurnActionV::App(AppActionV::ScheduleFrameAfterPaste)]
    } else {
        seq![TurnActionV::TakeWaitingEvents, TurnActionV::DrawFrame]
    }
}

/// The state once the backend went away: a turn that is not about to end anyway
/// ends with a fatal reason.
pub open spec fn backend_closed(s: AppState) -> (AppState, Seq<AppActionV>) {
    if s.exit_after_next_draw {
        (s, seq![])
    } else {
        (
            AppState {
                exit_reason: ExitReasonV::Fatal("Backend disconnected"@),
                exit_after_next_draw: true,
                ..s
            },
            seq![AppActionV::ScheduleFrame],
        )
    }
}

/// The state after a key, and what the key asks for. Ctrl+G belongs to the
/// editor, whatever else is on the screen.
pub open spec fn key_event_step(
    s: AppState,
    key: KeyEvent,
    popup_visible: bool,
    composer_empty: bool,
) -> (AppState, Seq<TurnActionV>) {
    if key.is_ctrl('g') {
        if key.kind == KeyEventKind::Press {
            (s, seq![TurnActionV::ShowEditorHint, TurnActionV::Draw, TurnActionV::RunEditor])
        } else {
            (s, seq![])
        }
    } else {
        let (t, step) = s.key_step(key, popup_visible, composer_empty);
        (
            t,
            match step {
                KeyStepV::Done(actions) => of_turn(actions),
                KeyStepV::PassToPopup => seq![TurnActionV::PassToPopup],
                KeyStepV::PassToComposer => seq![TurnActionV::PassToComposer],
            },
        )
    }
}

/// The state of a turn once it was told of `event`, and what it asks for, in order.
pub open spec fn turn_step(s: AppState, event: TurnEvent) -> (AppState, Seq<TurnActionV>) {
    match event {
        TurnEvent::FrameDue { paste_flushed, in_paste_burst } => (
            s,
            frame_actions(paste_flushed, in_paste_burst),
        ),
        TurnEvent::FrameDrawn => (
            s,
            if s.exit_after_next_draw {
                seq![TurnActionV::Leave]
            } else {
                seq![]
            },
        ),
        TurnEvent::Key { key, popup_visible, composer_empty } => key_event_step(
            s,
            key,
            popup_visible,
            composer_empty,
        ),
        TurnEvent::PopupAnswered { needs_redraw } => (s, frame_if(needs_redraw)),
        TurnEvent::ComposerAnswered {
            result,
            history_text,
            task_running,
            needs_redraw,
            in_paste_burst,
        } => {
            let (t, actions) = s.input_step(result, history_text@, task_running);
            (t, frame_if(needs_redraw) + frame_after_paste_if(in_paste_burst) + of_turn(actions))
        },
        TurnEvent::Pasted(pasted) => (s, seq![TurnActionV::TakePaste(with_line_feeds(pasted@))]),
        TurnEvent::PasteTaken { needs_redraw } => (s, frame_if(needs_redraw)),
        TurnEvent::EditorClosed(outcome) => (
            s,
            seq![
                TurnActionV::App(editor_action(outcome)),
                TurnActionV::HideEditorHint,
                TurnActionV::App(AppActionV::ScheduleFrame),
            ],
        ),
        TurnEvent::App { event, pane } => {
            let (t, actions) = s.app_step(event, pane);
            (t, of_turn(actions))
        },
        TurnEvent::Backend { msg, pane } => {
            let (t, actions) = s.step(msg, pane);
            (t, of_turn(actions))
        },
        TurnEvent::BackendClosed => (backend_closed(s).0, of_turn(backend_closed(s).1)),
        TurnEvent::HistoryAnswered { needs_redraw } => (s, frame_if(needs_redraw)),
        TurnEvent::ThemeSaved { name, outcome } => (s, of_turn(theme_save_actions(name@, outcome))),
        TurnEvent::CellLaidOut { lines, is_stream_continuation } => {
            let (t, shown) = s.cell_step(lines_view(lines@), is_stream_continuation);
            (
                t,
                if shown.len() == 0 {
                    seq![]
                } else {
                    seq![TurnActionV::App(AppActionV::InsertLines(shown))]
                },
            )
        },
        TurnEvent::Closed => (s, seq![TurnActionV::Leave]),
    }
}

fn push_turn(out: &mut Vec<TurnAction>, action: TurnAction)
    ensures
        turn_actions_view(final(out)@) == turn_actions_view(old(out)@).push(action@),
{
    out.push(action);
    assert(turn_actions_view(out@) =~= turn_actions_view(old(out)@).push(action@));
}

fn push_frame_if(out: &mut Vec<TurnAction>, needed: bool)
    ensures
        turn_actions_view(final(out)@) == turn_actions_view(old(out)@) + frame_if(needed),
{
    if needed {
        push_turn(out, TurnAction::App(AppAction::ScheduleFrame));
    }
    assert(turn_actions_view(out@) =~= turn_actions_view(old(out)@) + frame_if(needed));
}

fn push_of_turn(out: &mut Vec<TurnAction>, actions: Vec<AppAction>)
    ensures
        turn_actions_view(final(out)@) == turn_actions_view(old(out)@) + of_turn(
            app_actions_view(actions@),
        ),
{
    let ghost start = turn_actions_view(out@);
    let ghost all = actions@;
    let ghost shown = of_turn(app_actions_view(all));
    let mut rest = actions;
    assert(turn_actions_view(out@) =~= start + shown.take(0));
    assert(all.skip(0) =~= all);
    while rest.len() > 0
        invariant
            rest@.len() <= all.len(),
            rest@ == all.skip(all.len() - rest@.len()),
            shown == of_turn(app_actions_view(all)),
            turn_actions_view(out@) == start + shown.take(all.len() - rest@.len()),
        decreases rest@.len(),
    {
        let ghost done = all.len() - rest@.len();
        let action = rest.remove(0);
        assert(action == all[done]);
        assert(rest@ =~= all.skip(done + 1));
        push_turn(out, TurnAction::App(action));
        assert(turn_actions_view(out@) =~= start + shown.take(done + 1));
    }
    assert(shown.take(all.len() as int) =~= shown);
}

fn push_key(out: &mut Vec<TurnAction>, step: KeyStep)
    ensures
        turn_actions_view(final(out)@) == turn_actions_view(old(out)@) + match step@ {
            KeyStepV::Done(actions) => of_turn(actions),
            KeyStepV::PassToPopup => seq![TurnActionV::PassToPopup],
            KeyStepV::PassToComposer => seq![TurnActionV::PassToComposer],
        },
{
    let ghost start = turn_actions_view(out@);
    match step {
        KeyStep::Done(actions) => {
            push_of_turn(out, actions);
        },
        KeyStep::PassToPopup => {
            push_turn(out, TurnAction::PassToPopup);
            assert(turn_actions_view(out@) =~= start + seq![TurnActionV::PassToPopup]);
        },
        KeyStep::PassToComposer => {
            push_turn(out, TurnAction::PassToComposer);
            assert(turn_actions_view(out@) =~= start + seq![TurnActionV::PassToComposer]);
        },
    }
}

/// Tells the turn `app` of `event` and returns what it asks for, in order.
pub fn handle_turn_event(app: &mut RenderAppState, event: TurnEvent) -> (r: Vec<TurnAction>)
    ensures
        final(app)@ == turn_step(old(app)@, event).0,
        turn_actions_view(r@) == turn_step(old(app)@, event).1,
{
    let ghost before = app@;
    let mut out: Vec<TurnAction> = Vec::new();
    assert(turn_actions_view(out@) =~= Seq::<TurnActionV>::empty());
    match event {
        TurnEvent::FrameDue { paste_flushed, in_paste_burst } => {
            match on_frame(paste_flushed, in_paste_burst) {
                DrawStep::Redraw => {
                    push_turn(&mut out, TurnAction::App(AppAction::ScheduleFrame));
                },
                DrawStep::RedrawAfterPaste => {
                    push_turn(&mut out, TurnAction::App(AppAction::ScheduleFrameAfterPaste));
                },
                DrawStep::Draw => {
                    push_turn(&mut out, TurnAction::TakeWaitingEvents);
                    push_turn(&mut out, TurnAction::DrawFrame);
                },
            }
        },
        TurnEvent::FrameDrawn => {
            if app.exit_after_next_draw() {
                push_turn(&mut out, TurnAction::Leave);
            }
        },
        TurnEvent::Key { key, popup_visible, composer_empty } => {
            if key.is_ctrl_g() {
                if key.kind == KeyEventKind::Press {
                    push_turn(&mut out, TurnAction::ShowEditorHint);
                    push_turn(&mut out, TurnAction::Draw);
                    push_turn(&mut out, TurnAction::RunEditor);
                }
            } else {
                let step = app.handle_key_event(key, popup_visible, composer_empty);
                push_key(&mut out, step);
            }
        },
        TurnEvent::PopupAnswered { needs_redraw } => {
            push_frame_if(&mut out, needs_redraw);
        },
        TurnEvent::ComposerAnswered {
            result,
            history_text,
            task_running,
            needs_redraw,
            in_paste_burst,
        } => {
            push_frame_if(&mut out, needs_redraw);
            if in_paste_burst {
                push_turn(&mut out, TurnAction::App(AppAction::ScheduleFrameAfterPaste));
            }
            assert(turn_actions_view(out@) =~= frame_if(needs_redraw) + frame_after_paste_if(
                in_paste_burst,
            ));
            let actions = app.on_input(result, history_text, task_running);
            push_of_turn(&mut out, actions);
        },
        TurnEvent::Pasted(pasted) => {
            push_turn(&mut out, TurnAction::TakePaste(normalize_paste(pasted.as_str())));
        },
        TurnEvent::PasteTaken { needs_redraw } => {
            push_frame_if(&mut out, needs_redraw);
        },
        TurnEvent::EditorClosed(outcome) => {
            push_turn(&mut out, TurnAction::App(on_editor_outcome(outcome)));
            push_turn(&mut out, TurnAction::HideEditorHint);
            push_turn(&mut out, TurnAction::App(AppAction::ScheduleFrame));
        },
        TurnEvent::App { event, pane } => {
            let actions = app.handle_app_event(event, &pane);
            push_of_turn(&mut out, actions);
        },
        TurnEvent::Backend { msg, pane } => {
            let actions = app.handle_codex_event(msg, &pane);
            push_of_turn(&mut out, actions);
        },
        TurnEvent::BackendClosed => {
            let actions = app.on_backend_closed();
            push_of_turn(&mut out, actions);
        },
        TurnEvent::HistoryAnswered { needs_redraw } => {
            push_frame_if(&mut out, needs_redraw);
        },
        TurnEvent::ThemeSaved { name, outcome } => {
            let actions = on_theme_save(name, outcome);
            push_of_turn(&mut out, actions);
        },
        TurnEvent::CellLaidOut { lines, is_stream_continuation } => {
            let shown = app.on_cell_lines(lines, is_stream_continuation);
            if shown.len() > 0 {
                push_turn(&mut out, TurnAction::App(AppAction::InsertLines(shown)));
            }
        },
        TurnEvent::Closed => {
            push_turn(&mut out, TurnAction::Leave);
        },
    }
    assert(turn_actions_view(out@) =~= turn_step(before, event).1);
    out
}

/// A turn that is told to end is drawn once more first: it is left only behind a
/// frame, or when no more events come.
pub proof fn law_turn_is_left_behind_a_frame(s: AppState, event: TurnEvent)
    ensures
        turn_step(s, event).1.contains(TurnActionV::Leave) <==> (event is Closed || event
            is FrameDrawn && s.exit_after_next_draw),
{
    let actions = turn_step(s, event).1;
    match event {
        TurnEvent::FrameDrawn => {
            if s.exit_after_next_draw {
                assert(actions[0] == TurnActionV::Leave);
            }
        },
        TurnEvent::Closed => {
            assert(actions[0] == TurnActionV::Leave);
        },
        _ => {},
    }
}

/// A turn that is told to end stays told: nothing that happens before the next
/// frame takes it back.
pub proof fn law_end_of_turn_is_not_taken_back(s: AppState, event: TurnEvent)
    requires
        s.exit_after_next_draw,
    ensures
        turn_step(s, event).0.exit_after_next_draw,
{
}

/// No event is lost in front of a frame: what waits is taken before it is drawn.
pub proof fn law_frame_shows_what_waited(s: AppState, paste_flushed: bool, in_paste_burst: bool)
    ensures
        ({
            let actions = turn_step(s, TurnEvent::FrameDue { paste_flushed, in_paste_burst }).1;
            actions.contains(TurnActionV::DrawFrame) ==> actions == seq![
                TurnActionV::TakeWaitingEvents,
                TurnActionV::DrawFrame,
            ]
        }),
{
}

/// A frame that is due is drawn unless a paste is being taken in; then it is asked for
/// again, and only then.
pub proof fn law_paste_delays_the_frame(s: AppState, paste_flushed: bool, in_paste_burst: bool)
    ensures
        ({
            let (t, actions) = turn_step(s, TurnEvent::FrameDue { paste_flushed, in_paste_burst });
            &&& t == s
            &&& actions.contains(TurnActionV::DrawFrame) <==> !paste_flushed && !in_paste_burst
            &&& paste_flushed ==> actions == seq![TurnActionV::App(AppActionV::ScheduleFrame)]
            &&& in_paste_burst && !paste_flushed ==> actions == seq![
                TurnActionV::App(AppActionV::ScheduleFrameAfterPaste),
            ]
        }),
{
    let actions = turn_step(s, TurnEvent::FrameDue { paste_flushed, in_paste_burst }).1;
    if !paste_flushed && !in_paste_burst {
        assert(actions[1] == TurnActionV::DrawFrame);
    }
}

/// A backend that goes away ends a turn that is not about to end anyway, as a fatal error
/// that says so; the end that a turn was told before stands.
pub proof fn law_lost_backend_is_fatal(s: AppState)
    ensures
        ({
            let (t, actions) = turn_step(s, TurnEvent::BackendClosed);
            &&& t.exit_after_next_draw
            &&& s.exit_after_next_draw ==> t == s && actions.len() == 0
            &&& !s.exit_after_next_draw ==> t.exit_reason == ExitReasonV::Fatal(
                "Backend disconnected"@,
            ) && actions == seq![TurnActionV::App(AppActionV::ScheduleFrame)]
        }),
{
    let actions = turn_step(s, TurnEvent::BackendClosed).1;
    if !s.exit_after_next_draw {
        assert(actions =~= seq![TurnActionV::App(AppActionV::ScheduleFrame)]);
    }
}

/// Ctrl+G edits the prompt elsewhere when it is pressed, and nothing else comes of it; no
/// other key does that.
pub proof fn law_editor_key(s: AppState, key: KeyEvent, popup_visible: bool, composer_empty: bool)
    ensures
        ({
            let (t, actions) = turn_step(s, TurnEvent::Key { key, popup_visible, composer_empty });
            let g = key.modifiers.control && key.code == KeyCode::Char('g');
            &&& g ==> t == s
            &&& g && key.kind == KeyEventKind::Press ==> actions == seq![
                TurnActionV::ShowEditorHint,
                TurnActionV::Draw,
                TurnActionV::RunEditor,
            ]
            &&& g && key.kind != KeyEventKind::Press ==> actions.len() == 0
            &&& actions.contains(TurnActionV::RunEditor) ==> g
        }),
{
}

/// What comes back is passed on: an edited prompt replaces the one in the composer and the
/// hint goes; a paste is taken in with line feeds; lines that were laid out are inserted;
/// and an answer that changed something is followed by a frame.
pub proof fn law_answers_are_taken(s: AppState, text: String, needs_redraw: bool)
    ensures
        turn_step(s, TurnEvent::EditorClosed(EditorOutcome::Edited(text))).1 == seq![
            TurnActionV::App(AppActionV::ApplyExternalEdit(text@)),
            TurnActionV::HideEditorHint,
            TurnActionV::App(AppActionV::ScheduleFrame),
        ],
        turn_step(s, TurnEvent::Pasted(text)).1 == seq![
            TurnActionV::TakePaste(with_line_feeds(text@)),
        ],
        turn_step(s, TurnEvent::PasteTaken { needs_redraw }) == turn_step(
            s,
            TurnEvent::PopupAnswered { needs_redraw },
        ),
        turn_step(s, TurnEvent::HistoryAnswered { needs_redraw }) == turn_step(
            s,
            TurnEvent::PopupAnswered { needs_redraw },
        ),
        turn_step(s, TurnEvent::PopupAnswered { needs_redraw }).0 == s,
        turn_step(s, TurnEvent::PopupAnswered { needs_redraw }).1 == if needs_redraw {
            seq![TurnActionV::App(AppActionV::ScheduleFrame)]
        } else {
            seq![]
        },
{
}

/// The events of the application and of the backend reach the turn as they are, and all
/// that it asks for is done, in order.
pub proof fn law_events_reach_the_turn(
    s: AppState,
    event: AppEvent,
    msg: EventMsg,
    pane: PaneFacts,
    i: int,
)
    ensures
        turn_step(s, TurnEvent::App { event, pane }).0 == s.app_step(event, pane).0,
        turn_step(s, TurnEvent::App { event, pane }).1.len() == s.app_step(event, pane).1.len(),
        0 <= i < s.app_step(event, pane).1.len() ==> turn_step(s, TurnEvent::App { event, pane }).1[i]
            == TurnActionV::App(s.app_step(event, pane).1[i]),
        turn_step(s, TurnEvent::Backend { msg, pane }).0 == s.step(msg, pane).0,
        turn_step(s, TurnEvent::Backend { msg, pane }).1.len() == s.step(msg, pane).1.len(),
        0 <= i < s.step(msg, pane).1.len() ==> turn_step(s, TurnEvent::Backend { msg, pane }).1[i]
            == TurnActionV::App(s.step(msg, pane).1[i]),
{
}

} // verus!
