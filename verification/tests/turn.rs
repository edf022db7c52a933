use codex_potter_tui::app_event::{AppEvent, FileMatch, Op};
use codex_potter_tui::app_server_render::{
    begin_turn, on_editor_outcome, on_theme_save, AppAction, ContextWindow, EditorOutcome,
    InputResult, KeyStep, PaneFacts, RenderAppState, RenderOnlyTurnOptions, ThemeSave,
};
use codex_potter_tui::exit::ExitReason;
use codex_potter_tui::key::{KeyCode, KeyEvent, KeyEventKind, KeyModifiers};
use codex_potter_tui::protocol::{
    EventMsg, ExecCommandEndEvent, ExecCommandSource, PotterRoundOutcome, TokenUsage,
    TokenUsageInfo,
};
use codex_potter_tui::slash_command::SlashCommand;
use codex_potter_tui::styled::Line;
use codex_potter_tui::transcript::{
    agent_message_cell, stops_animation, Action, Cell, RenderOnlyProcessor,
};
use codex_potter_tui::turn_loop::{handle_turn_event, TurnAction, TurnEvent};

const BROKEN: &str = "stream disconnected before completion: error sending request for url (...)";

fn app() -> RenderAppState {
    RenderAppState::new(RenderOnlyProcessor::new("/repo".to_string()), Vec::new())
}

fn pane(header: &str) -> PaneFacts {
    PaneFacts { status_header: header.to_string(), elapsed_secs: None }
}

fn cells(actions: &[AppAction]) -> Vec<&Cell> {
    actions
        .iter()
        .filter_map(|action| match action {
            AppAction::Transcript(Action::Insert(cell)) => Some(cell),
            AppAction::LayOutCell(cell) => Some(cell),
            _ => None,
        })
        .collect()
}

fn has_op(actions: &[AppAction]) -> bool {
    actions.iter().any(|action| matches!(action, AppAction::ForwardOp(_)))
}

fn headers(actions: &[AppAction]) -> Vec<String> {
    actions
        .iter()
        .filter_map(|action| match action {
            AppAction::UpdateStatusHeader(header) => Some(header.clone()),
            AppAction::UpdateStatusHeaderWithDetails { message, .. } => Some(message.clone()),
            _ => None,
        })
        .collect()
}

fn retry(attempt: u32) -> EventMsg {
    EventMsg::PotterStreamRecoveryUpdate {
        attempt,
        max_attempts: 10,
        error_message: BROKEN.to_string(),
    }
}

#[test]
fn potter_stream_recovery_retry_block_persists_and_clears_on_recovered_event() {
    let header = "Inspecting for code duplication";
    let mut app = app();
    let actions = app.handle_codex_event(retry(1), &pane(header));
    assert!(headers(&actions).is_empty(), "{actions:?}");
    assert!(cells(&actions).is_empty(), "{actions:?}");
    assert!(!has_op(&actions));
    let cell = app.retry_cell().expect("retry block");
    assert_eq!((cell.attempt, cell.max_attempts), (1, 10));
    assert_eq!(cell.error_message, BROKEN);

    let started = EventMsg::TurnStarted { model_context_window: None };
    let actions = app.handle_codex_event(started, &pane(header));
    assert_eq!(headers(&actions), vec!["Working".to_string()]);
    assert!(app.retry_cell().is_some(), "expected retry block to persist until recovered");

    let actions = app.handle_codex_event(EventMsg::PotterStreamRecoveryRecovered, &pane("Working"));
    assert!(app.retry_cell().is_none(), "expected retry block to be cleared");
    assert!(cells(&actions).is_empty());
}

#[test]
fn potter_stream_recovery_update_replaces_existing_retry_block_in_place() {
    let mut app = app();
    app.handle_codex_event(retry(1), &pane("Working"));
    let actions = app.handle_codex_event(retry(3), &pane("Working"));
    assert_eq!(app.retry_cell().expect("retry block").attempt, 3);
    assert!(cells(&actions).is_empty());
    assert!(!has_op(&actions));
}

fn stream_error(message: &str) -> EventMsg {
    EventMsg::StreamError {
        message: message.to_string(),
        additional_details: Some(BROKEN.to_string()),
    }
}

#[test]
fn stream_error_status_updates_and_restores_on_next_event() {
    let mut app = app();
    let actions =
        app.handle_codex_event(stream_error("Reconnecting... 1/5"), &pane("Inspecting for code duplication"));
    assert_eq!(headers(&actions), vec!["Reconnecting... 1/5".to_string()]);
    assert!(
        actions.iter().any(|action| matches!(
            action,
            AppAction::UpdateStatusHeaderWithDetails { details: Some(details), .. }
                if details == BROKEN
        )),
        "{actions:?}"
    );
    assert!(cells(&actions).is_empty());
    assert!(!has_op(&actions));

    let actions =
        app.handle_codex_event(stream_error("Reconnecting... 2/5"), &pane("Reconnecting... 1/5"));
    assert_eq!(headers(&actions), vec!["Reconnecting... 2/5".to_string()]);

    let delta = EventMsg::AgentMessageDelta { delta: "hello".to_string() };
    let actions = app.handle_codex_event(delta, &pane("Reconnecting... 2/5"));
    assert_eq!(headers(&actions), vec!["Inspecting for code duplication".to_string()]);
}

#[test]
fn non_retryable_error_inserts_error_history_cell() {
    let mut app = app();
    let error = EventMsg::Error { message: "unauthorized".to_string() };
    let actions = app.handle_codex_event(error, &pane("Working"));
    let shown = cells(&actions);
    assert_eq!(shown.len(), 1);
    assert!(matches!(shown[0], Cell::Error(message) if message == "unauthorized"));
    assert!(!has_op(&actions));
}

#[test]
fn stream_recovery_gave_up_inserts_unrecoverable_cell_and_exits_on_round_finished_task_failed() {
    let mut app = app();
    let gave_up = EventMsg::PotterStreamRecoveryGaveUp {
        attempts: 10,
        max_attempts: 10,
        error_message: BROKEN.to_string(),
    };
    let actions = app.handle_codex_event(gave_up, &pane("Working"));
    assert!(!app.exit_after_next_draw(), "expected app to wait for PotterRoundFinished");
    let shown = cells(&actions);
    assert_eq!(shown.len(), 1);
    assert!(
        matches!(
            shown[0],
            Cell::StreamUnrecoverable { max_attempts: 10, error_message } if error_message == BROKEN
        ),
        "{shown:?}"
    );
    assert!(!has_op(&actions));

    let finished = EventMsg::PotterRoundFinished {
        outcome: PotterRoundOutcome::TaskFailed { message: "stream recovery gave up".to_string() },
    };
    app.handle_codex_event(finished, &pane("Working"));
    let reason = app.exit_info().exit_reason;
    assert!(matches!(&reason, ExitReason::TaskFailed(_)), "{reason:?}");
    assert!(app.exit_after_next_draw(), "expected app to request exit");
}

fn tokens(total_tokens: i64) -> TokenUsage {
    TokenUsage { total_tokens, ..TokenUsage::none() }
}

#[test]
fn render_only_context_window_percent_uses_baseline_and_last_token_usage() {
    let mut app = app();
    let counted = EventMsg::TokenCount {
        info: Some(TokenUsageInfo {
            total_token_usage: tokens(100_000),
            last_token_usage: tokens(20_000),
            model_context_window: Some(128_000),
        }),
    };
    app.handle_codex_event(counted, &pane("Working"));
    assert_eq!(
        app.context_window(),
        ContextWindow::RemainingOf { usage: tokens(20_000), window: 128_000 }
    );
    assert_eq!(app.processor().token_usage().total_tokens, 100_000);
}

#[test]
fn render_only_context_window_fallback_shows_used_tokens() {
    let mut app = app();
    let counted = EventMsg::TokenCount {
        info: Some(TokenUsageInfo {
            total_token_usage: tokens(123_456),
            last_token_usage: tokens(1),
            model_context_window: None,
        }),
    };
    app.handle_codex_event(counted, &pane("Working"));
    assert_eq!(app.context_window(), ContextWindow::UsedTokens(123_456));
}

fn key(code: KeyCode, control: bool, kind: KeyEventKind) -> KeyEvent {
    KeyEvent {
        code,
        modifiers: KeyModifiers { shift: false, control, alt: false, other: false },
        kind,
    }
}

#[test]
fn render_only_composer_processes_repeat_cursor_movement() {
    let step = app().handle_key_event(key(KeyCode::Right, false, KeyEventKind::Repeat), false, false);
    assert!(matches!(step, KeyStep::PassToComposer));
}

#[test]
fn render_only_composer_processes_repeat_ctrl_w() {
    let step =
        app().handle_key_event(key(KeyCode::Char('w'), true, KeyEventKind::Repeat), false, false);
    assert!(matches!(step, KeyStep::PassToComposer));
}

#[test]
fn render_only_slash_mention_inserts_at_and_starts_file_search() {
    let mut app = app();
    let actions = app.on_input(InputResult::Command(SlashCommand::Mention), String::new(), true);
    assert!(
        matches!(&actions[0], AppAction::InsertIntoComposer(text) if text == "@"),
        "{actions:?}"
    );
    let actions = app.handle_app_event(AppEvent::StartFileSearch(String::new()), &pane("Working"));
    assert!(
        actions.iter().any(|a| matches!(a, AppAction::StartFileSearch(query) if query.is_empty())),
        "{actions:?}"
    );
}

#[test]
fn render_only_slash_exit_requests_interrupt_and_exit() {
    let mut app = app();
    let actions = app.on_input(InputResult::Command(SlashCommand::Exit), String::new(), true);
    assert!(app.exit_after_next_draw(), "expected /exit to request exit");
    assert!(
        actions.iter().any(|a| matches!(a, AppAction::ForwardOp(Op::Interrupt))),
        "{actions:?}"
    );
}

fn processor() -> RenderOnlyProcessor {
    RenderOnlyProcessor::new("/repo".to_string())
}

#[test]
fn render_only_renders_context_compacted_event() {
    let actions = processor().handle_codex_event(EventMsg::ContextCompacted);
    assert!(
        matches!(
            actions.last(),
            Some(Action::ShowAgentMessage(message)) if message == "Context compacted"
        ),
        "{actions:?}"
    );
}

#[test]
fn render_only_does_not_duplicate_agent_message_on_turn_complete_last_agent_message() {
    let mut proc = processor();
    let shown = |actions: &[Action]| {
        actions
            .iter()
            .filter(|a| matches!(a, Action::ShowAgentMessage(text) if text == "hello"))
            .count()
    };
    let actions = proc.handle_codex_event(EventMsg::AgentMessage { message: "hello".to_string() });
    assert_eq!(shown(&actions), 1);
    let actions = proc.handle_codex_event(EventMsg::TurnComplete);
    assert_eq!(shown(&actions), 0);
}

#[test]
fn render_only_streaming_plan_delta_renders_proposed_plan_block() {
    let mut proc = processor();
    let actions = proc.handle_codex_event(EventMsg::PlanDelta { delta: "- first\n".to_string() });
    let opened = actions.iter().position(|a| matches!(a, Action::OpenPlanStream { .. }));
    let pushed =
        actions.iter().position(|a| matches!(a, Action::PushPlanDelta(text) if text == "- first\n"));
    assert!(opened.is_some() && opened < pushed, "{actions:?}");
    let actions = proc.handle_codex_event(EventMsg::PlanDelta { delta: "- second\n".to_string() });
    assert!(!actions.iter().any(|a| matches!(a, Action::OpenPlanStream { .. })));
    assert!(matches!(actions.last(), Some(Action::PushPlanDelta(text)) if text == "- second\n"));
    let actions = proc.handle_codex_event(EventMsg::TurnComplete);
    assert!(actions.iter().any(|a| matches!(a, Action::FinalizePlanStream)));
}

fn command(id: &str, exploring: bool) -> EventMsg {
    EventMsg::ExecCommandEnd {
        command: ExecCommandEndEvent {
            call_id: id.to_string(),
            command: vec!["bash".to_string(), "-lc".to_string(), "true".to_string()],
            source: ExecCommandSource::Agent,
            exploring,
            interaction_input: None,
            exit_code: 0,
            stdout: String::new(),
            stderr: String::new(),
            aggregated_output: String::new(),
            formatted_output: String::new(),
            duration_nanos: 1_000_000,
        },
    }
}

fn inserted(actions: &[Action]) -> Vec<&Cell> {
    actions
        .iter()
        .filter_map(|action| match action {
            Action::Insert(cell) => Some(cell),
            _ => None,
        })
        .collect()
}

fn call_ids(cell: &Cell) -> Vec<String> {
    let Cell::Exec(exec) = cell else {
        panic!("expected commands: {cell:?}");
    };
    exec.calls.iter().map(|call| call.call_id.clone()).collect()
}

#[test]
fn render_only_inserts_worked_for_separator_before_agent_message_vt100() {
    let mut proc = processor();
    let actions = proc.handle_codex_event(command("exec-1", false));
    assert!(inserted(&actions).is_empty());
    proc.set_current_elapsed_secs(Some(0));
    let actions = proc.handle_codex_event(EventMsg::AgentMessageDelta { delta: "ok\n".to_string() });
    let shown = inserted(&actions);
    assert_eq!(shown.len(), 2, "{actions:?}");
    assert_eq!(call_ids(shown[0]), vec!["exec-1"]);
    assert!(matches!(shown[1], Cell::Separator(Some(0))));
    assert!(matches!(actions.last(), Some(Action::PushAgentDelta(text)) if text == "ok\n"));
}

#[test]
fn render_only_flushes_agent_stream_before_ran_vt100() {
    let mut proc = processor();
    proc.handle_codex_event(EventMsg::AgentMessageDelta { delta: "hello".to_string() });
    let actions = proc.handle_codex_event(command("exec-1", false));
    assert!(matches!(actions.first(), Some(Action::FinalizeAgentStream)), "{actions:?}");
}

#[test]
fn render_only_coalesces_success_ran_cells_snapshot() {
    let mut proc = processor();
    for id in ["ran-1", "ran-2"] {
        let actions = proc.handle_codex_event(command(id, false));
        assert!(inserted(&actions).is_empty());
    }
    let Some(cell) = proc.pending_success_ran_cell() else {
        panic!("expected a pending Ran cell");
    };
    let ids: Vec<&str> = cell.calls.iter().map(|call| call.call_id.as_str()).collect();
    assert_eq!(ids, vec!["ran-1", "ran-2"]);
}

#[test]
fn render_only_coalesces_explored_cells() {
    let mut proc = processor();
    let ids = ["explore-1", "explore-2", "explore-3", "explore-4", "explore-5"];
    for id in ids {
        assert!(inserted(&proc.handle_codex_event(command(id, true))).is_empty());
    }
    let actions = proc.handle_codex_event(EventMsg::AgentMessage { message: "ok".to_string() });
    let shown = inserted(&actions);
    assert_eq!(shown.len(), 2, "expected explored cell, then separator");
    assert_eq!(call_ids(shown[0]), ids);
    assert!(matches!(shown[1], Cell::Separator(_)));
    assert!(matches!(actions.iter().find(|a| matches!(a, Action::ShowAgentMessage(_))), Some(_)));
}

#[test]
fn render_only_flushes_explored_cells_on_turn_complete() {
    let mut proc = processor();
    proc.handle_codex_event(command("explore-1", true));
    let actions = proc.handle_codex_event(EventMsg::TurnComplete);
    let shown = inserted(&actions);
    assert_eq!(shown.len(), 1, "expected exactly one explored cell");
    assert_eq!(call_ids(shown[0]), vec!["explore-1"]);
}

#[test]
fn render_only_potter_session_started_emits_user_prompt() {
    let actions = processor().handle_codex_event(EventMsg::PotterProjectStarted {
        user_message: Some("test prompt".to_string()),
        user_prompt_file: ".codexpotter/projects/2026/01/29/11/MAIN.md".to_string(),
    });
    let shown = inserted(&actions);
    assert_eq!(shown.len(), 2, "expected prompt cell followed by project hint cell");
    assert!(matches!(shown[0], Cell::UserPrompt(prompt) if prompt == "test prompt"));
    assert!(matches!(
        shown[1],
        Cell::ProjectHint(file) if file == ".codexpotter/projects/2026/01/29/11/MAIN.md"
    ));
}

#[test]
fn render_only_potter_round_started_emits_round_banner() {
    let actions =
        processor().handle_codex_event(EventMsg::PotterRoundStarted { current: 1, total: 15 });
    let shown = inserted(&actions);
    assert_eq!(shown.len(), 1, "expected exactly one round banner cell");
    assert!(matches!(shown[0], Cell::RoundStarted { current: 1, total: 15 }));
}

#[test]
fn render_only_ctrl_c_preserves_pending_explored_output_vt100() {
    let mut app = app();
    app.handle_codex_event(command("explore-1", true), &pane("Working"));
    let step = app.handle_key_event(key(KeyCode::Char('c'), true, KeyEventKind::Press), false, true);
    let KeyStep::Done(actions) = step else {
        panic!("expected the key to be used up: {step:?}");
    };
    let shown = cells(&actions);
    assert_eq!(shown.len(), 1, "{actions:?}");
    assert_eq!(call_ids(shown[0]), vec!["explore-1"]);
    assert!(app.exit_after_next_draw());
}

#[test]
fn render_only_idle_prompt_is_separated_from_transcript_vt100() {
    let mut app = app();
    app.set_has_emitted_history_lines(true);
    assert_eq!(app.build_transient_lines(None, None, None, false).len(), 1);
    assert!(app.build_transient_lines(None, None, None, true).is_empty());
    app.set_has_emitted_history_lines(false);
    assert!(app.build_transient_lines(None, None, None, false).is_empty());
}

#[test]
fn waiting_blocks_stand_behind_a_blank_line() {
    let block = |text: &str| Some(vec![Line::from_text(text)]);
    let texts: Vec<String> = app()
        .build_transient_lines(block("ran"), block("explored"), block("retry"), true)
        .iter()
        .map(|line| line.text())
        .collect();
    assert_eq!(texts, vec!["", "ran", "", "explored", "", "retry"]);
}

#[test]
fn queued_prompts_come_back_in_reverse() {
    let mut app = app();
    for prompt in ["one", "two"] {
        app.on_input(InputResult::Queued(prompt.to_string()), prompt.to_string(), true);
    }
    assert_eq!(app.queued_messages(), vec!["one", "two"]);
    let up = KeyEvent {
        code: KeyCode::Up,
        modifiers: KeyModifiers { shift: false, control: false, alt: true, other: false },
        kind: KeyEventKind::Press,
    };
    let KeyStep::Done(actions) = app.handle_key_event(up, false, true) else {
        panic!("expected the key to be used up");
    };
    assert!(matches!(&actions[0], AppAction::SetComposerText(text) if text == "two"));
    assert_eq!(app.queued_messages(), vec!["one"]);
}

#[test]
fn cells_are_kept_apart() {
    let mut app = app();
    let lines =
        |lines: Vec<Line>| -> Vec<String> { lines.iter().map(|line| line.text()).collect() };
    let first = app.on_cell_lines(vec![Line::from_text("a")], false);
    assert_eq!(lines(first), vec!["a"]);
    let second = app.on_cell_lines(vec![Line::from_text("b")], false);
    assert_eq!(lines(second), vec!["", "b"]);
    let third = app.on_cell_lines(vec![Line::from_text("c")], true);
    assert_eq!(lines(third), vec!["c"]);
}

#[test]
fn turns_start_with_warnings_and_the_prompt() {
    let (app, actions) = begin_turn(
        "/repo".to_string(),
        "do it",
        RenderOnlyTurnOptions { render_user_prompt: true, pad_before_first_cell: true },
        &vec!["careful".to_string()],
        vec!["later".to_string()],
    );
    let shown = cells(&actions);
    assert!(matches!(shown[0], Cell::Warning(text) if text == "careful"));
    assert!(matches!(shown[1], Cell::UserPrompt(text) if text == "do it"));
    assert_eq!(app.queued_messages(), vec!["later"]);
    assert_eq!(actions.len(), 6);
    assert!(matches!(
        &actions[2],
        AppAction::ForwardOp(Op::UserInput { text }) if text == "do it"
    ));
    assert!(matches!(
        &actions[3],
        AppAction::ShowQueuedMessages(queued) if queued.len() == 1 && queued[0] == "later"
    ));
    assert!(matches!(actions[4], AppAction::SetTaskRunning(true)));
    assert!(matches!(actions[5], AppAction::ScheduleFrame));
    let (_, actions) = begin_turn(
        "/repo".to_string(),
        "do it",
        RenderOnlyTurnOptions { render_user_prompt: false, ..Default::default() },
        &Vec::new(),
        Vec::new(),
    );
    assert!(cells(&actions).is_empty());
    assert_eq!(actions.len(), 4);
}

#[test]
fn turns_are_left_behind_a_frame() {
    let mut app = app();
    assert!(handle_turn_event(&mut app, TurnEvent::FrameDrawn).is_empty());
    let quit = TurnEvent::Key {
        key: key(KeyCode::Char('c'), true, KeyEventKind::Press),
        popup_visible: false,
        composer_empty: true,
    };
    let actions = handle_turn_event(&mut app, quit);
    assert!(matches!(
        actions[..],
        [
            TurnAction::App(AppAction::ForwardOp(Op::Interrupt)),
            TurnAction::App(AppAction::ScheduleFrame)
        ]
    ));
    let due = TurnEvent::FrameDue { paste_flushed: false, in_paste_burst: false };
    assert!(matches!(
        handle_turn_event(&mut app, due)[..],
        [TurnAction::TakeWaitingEvents, TurnAction::DrawFrame]
    ));
    assert!(matches!(
        handle_turn_event(&mut app, TurnEvent::FrameDrawn)[..],
        [TurnAction::Leave]
    ));
    assert!(matches!(
        handle_turn_event(&mut app, TurnEvent::Closed)[..],
        [TurnAction::Leave]
    ));
}

#[test]
fn lost_backend_ends_the_turn_once() {
    let mut app = app();
    assert!(matches!(
        handle_turn_event(&mut app, TurnEvent::BackendClosed)[..],
        [TurnAction::App(AppAction::ScheduleFrame)]
    ));
    assert!(handle_turn_event(&mut app, TurnEvent::BackendClosed).is_empty());
    assert!(matches!(
        app.exit_info().exit_reason,
        ExitReason::Fatal(message) if message == "Backend disconnected"
    ));
}

#[test]
fn turns_go_through_the_editor() {
    let mut app = app();
    let open = |kind| TurnEvent::Key {
        key: key(KeyCode::Char('g'), true, kind),
        popup_visible: true,
        composer_empty: false,
    };
    assert!(matches!(
        handle_turn_event(&mut app, open(KeyEventKind::Press))[..],
        [TurnAction::ShowEditorHint, TurnAction::Draw, TurnAction::RunEditor]
    ));
    assert!(handle_turn_event(&mut app, open(KeyEventKind::Repeat)).is_empty());
    let missing = TurnEvent::EditorClosed(EditorOutcome::Missing("no editor".to_string()));
    assert!(matches!(
        &handle_turn_event(&mut app, missing)[..],
        [
            TurnAction::App(AppAction::LayOutCell(Cell::Error(text))),
            TurnAction::HideEditorHint,
            TurnAction::App(AppAction::ScheduleFrame)
        ] if text == "no editor"
    ));
}

#[test]
fn turns_redraw_after_composer_and_paste() {
    let mut app = app();
    let answered = TurnEvent::ComposerAnswered {
        result: InputResult::Queued("next".to_string()),
        history_text: "kept".to_string(),
        task_running: true,
        needs_redraw: true,
        in_paste_burst: true,
    };
    let actions = handle_turn_event(&mut app, answered);
    assert!(matches!(
        &actions[..],
        [
            TurnAction::App(AppAction::ScheduleFrame),
            TurnAction::App(AppAction::ScheduleFrameAfterPaste),
            TurnAction::App(AppAction::RecordPromptHistory(text)),
            TurnAction::App(AppAction::ShowQueuedMessages(_)),
            TurnAction::App(AppAction::ScheduleFrame)
        ] if text == "kept"
    ));
    assert_eq!(app.queued_messages(), vec!["next"]);
    assert!(matches!(
        &handle_turn_event(&mut app, TurnEvent::Pasted("a\r".to_string()))[..],
        [TurnAction::TakePaste(text)] if text == "a\n"
    ));
    let none = TurnEvent::CellLaidOut { lines: Vec::new(), is_stream_continuation: false };
    assert!(handle_turn_event(&mut app, none).is_empty());
    let saved = TurnEvent::ThemeSaved { name: "nord".to_string(), outcome: ThemeSave::Saved };
    assert!(matches!(
        &handle_turn_event(&mut app, saved)[..],
        [TurnAction::App(AppAction::ApplyTheme { name }), TurnAction::App(AppAction::ScheduleFrame)]
            if name == "nord"
    ));
}

#[test]
fn backend_loss_is_fatal_and_survives_quitting() {
    let mut app = app();
    app.handle_app_event(AppEvent::FatalExitRequest("lost".to_string()), &pane("Working"));
    assert!(matches!(app.exit_info().exit_reason, ExitReason::Fatal(message) if message == "lost"));
    app.handle_key_event(key(KeyCode::Char('c'), true, KeyEventKind::Press), false, true);
    assert!(matches!(app.exit_info().exit_reason, ExitReason::Fatal(_)));
}

#[test]
fn searches_and_histories_are_passed_on() {
    let mut app = app();
    let request = AppEvent::CodexOp(Op::GetHistoryEntryRequest { offset: 3, log_id: 9 });
    let actions = app.handle_app_event(request, &pane("Working"));
    assert!(matches!(actions[..], [AppAction::LookUpPromptHistory { offset: 3, log_id: 9 }]));
    let found = AppEvent::FileSearchResult {
        query: "q".to_string(),
        matches: vec![FileMatch { path: "p".to_string(), score: 1 }],
    };
    let actions = app.handle_app_event(found, &pane("Working"));
    assert!(matches!(
        &actions[0],
        AppAction::ShowFileSearchResult { query, matches } if query == "q" && matches.len() == 1
    ));
}

#[test]
fn failures_of_themes_and_editors_are_shown() {
    let actions = on_theme_save("t".to_string(), ThemeSave::SaveFailed("e".to_string()));
    assert!(actions.iter().any(|a| matches!(
        a,
        AppAction::LayOutCell(Cell::Error(message)) if message == "Failed to save theme: e"
    )));
    let actions = on_theme_save("t".to_string(), ThemeSave::Saved);
    assert!(actions.iter().any(|a| matches!(a, AppAction::ApplyTheme { name } if name == "t")));
    assert!(matches!(
        on_editor_outcome(EditorOutcome::Failed("e".to_string())),
        AppAction::LayOutCell(Cell::Error(message)) if message == "Failed to open editor: e"
    ));
    assert!(matches!(
        on_editor_outcome(EditorOutcome::Edited("x".to_string())),
        AppAction::ApplyExternalEdit(text) if text == "x"
    ));
}

#[test]
fn empty_messages_are_not_shown() {
    assert!(agent_message_cell(Vec::new()).is_none());
    let cell = agent_message_cell(vec![Line::from_text("x")]).expect("cell");
    assert!(cell.is_first_line);
    assert!(stops_animation(true, true));
    assert!(!stops_animation(false, true));
    assert!(!stops_animation(true, false));
}
