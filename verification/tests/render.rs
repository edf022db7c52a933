use codex_potter_tui::app_event::{AppEvent, Op};
use codex_potter_tui::app_server_render::{AppAction, EditorOutcome, InputResult, ThemeSave};
use codex_potter_tui::bottom_pane::footer::{
    context_window_text, footer_height, footer_lines, indented_footer_lines,
    reset_mode_after_activity, FooterMode, FooterProps,
};
use codex_potter_tui::bottom_pane::list_selection_view::{
    clip_to, popup_content_width, side_by_side_layout_widths, ListSelectionView, PopupMeasures, SelectionAction, SelectionItem,
    SelectionViewParams, SideContentWidth, ViewEffect,
};
use codex_potter_tui::bottom_pane::prompt_footer::{prompt_footer_area, PromptFooterContext};
use codex_potter_tui::bottom_pane::scroll_state::ScrollState;
use codex_potter_tui::geometry::Rect;
use codex_potter_tui::history_cell::{
    new_deprecation_notice, new_error_event, new_info_event, new_patch_apply_failure,
    new_plan_update, new_proposed_plan_stream, new_user_prompt, new_view_image_tool_call,
    new_warning_event, new_web_search_call, padded_emoji, plan_update_lines, scroll_offset,
    AgentMessageCell, FinalMessageSeparator, HistoryCell, UpdateAvailableHistoryCell,
    UserHistoryCell,
};
use codex_potter_tui::key::{KeyCode, KeyEvent, KeyEventKind, KeyModifiers};
use codex_potter_tui::potter_project_summary::{
    build_potter_project_summary_detail_lines, short_git_commit,
};
use codex_potter_tui::prompt_screen::{
    handle_prompt_app_event, model_label, normalize_paste, on_frame, on_prompt_input,
    on_prompt_key, prompt_startup, should_pad_prompt_after_history_insert, DrawStep,
    PromptAction, PromptEvent, PromptEventStep, PromptKeyStep, PromptScreen, PromptStep,
};
use codex_potter_tui::protocol::{PlanItemArg, StepStatus, UpdatePlanArgs};
use codex_potter_tui::slash_command::{built_in_slash_commands, SlashCommand};
use codex_potter_tui::styled::{Color, Line, Style};
use codex_potter_tui::transcript::Cell;
use codex_potter_tui::viewport::{viewport_height, viewport_layout};

fn texts(lines: &[Line]) -> Vec<String> {
    lines.iter().map(|line| line.text()).collect()
}

fn key(code: KeyCode) -> KeyEvent {
    KeyEvent {
        code,
        modifiers: KeyModifiers { shift: false, control: false, alt: false, other: false },
        kind: KeyEventKind::Press,
    }
}

fn ctrl(c: char) -> KeyEvent {
    KeyEvent {
        modifiers: KeyModifiers { shift: false, control: true, alt: false, other: false },
        ..key(KeyCode::Char(c))
    }
}

fn footer(mode: FooterMode, percent: Option<i64>, used: Option<&str>) -> FooterProps {
    FooterProps {
        mode,
        quit_shortcut_key: "ctrl + c".to_string(),
        context_window_percent: percent,
        context_window_used_tokens: used.map(|text| text.to_string()),
    }
}

#[test]
fn footer_snapshots() {
    let reminder = footer(FooterMode::QuitShortcutReminder, None, None);
    assert_eq!(texts(&footer_lines(&reminder)), vec!["ctrl + c again to quit"]);
    let context = footer(FooterMode::ContextOnly, Some(72), None);
    assert_eq!(texts(&footer_lines(&context)), vec!["72% context left"]);
    assert_eq!(texts(&indented_footer_lines(&context, 2)), vec!["  72% context left"]);
    let used = footer(FooterMode::ShortcutSummary, None, Some("123K"));
    assert_eq!(texts(&footer_lines(&used)), vec!["123K used"]);
    assert_eq!(footer_height(&used), 1);
    assert_eq!(context_window_text(Some(250), None), "100% context left");
    assert_eq!(context_window_text(Some(-3), Some("x")), "0% context left");
    assert_eq!(context_window_text(None, None), "100% context left");
    assert_eq!(
        reset_mode_after_activity(FooterMode::QuitShortcutReminder),
        FooterMode::ShortcutSummary
    );
}

#[test]
fn footer_context_follows_persisted_settings() {
    let context = PromptFooterContext::new("project".to_string(), Some("main".to_string()))
        .with_persisted_yolo_enabled(true);
    assert!(context.yolo_active);
    let area = Rect { x: 0, y: 0, width: 80, height: 1 };
    assert_eq!(prompt_footer_area(area), Rect { x: 2, width: 78, ..area });
}

#[test]
fn viewports_keep_the_last_lines() {
    let area = Rect { x: 0, y: 0, width: 80, height: 10 };
    let layout = viewport_layout(area, 4, 8);
    assert_eq!(layout.pane, Rect { y: 6, height: 4, ..area });
    let above = layout.transient.expect("lines above the pane");
    assert_eq!(above.area, Rect { height: 6, ..area });
    assert_eq!(above.scroll, 2);
    assert_eq!((layout.cursor_x, layout.cursor_y), (0, 9));
    assert!(viewport_layout(area, 20, 8).transient.is_none());
    assert_eq!(viewport_layout(area, 0, 0).pane.height, 1);
    assert_eq!(viewport_height(4, 8), 12);
    assert_eq!(viewport_height(0, 100_000), 65_535);
}

#[test]
fn cells_show_what_happened() {
    assert_eq!(new_user_prompt("p".to_string()).message, "p");
    assert_eq!(UserHistoryCell::wrap_width(80), 77);
    assert_eq!(UserHistoryCell::wrap_width(3), 1);
    assert_eq!(AgentMessageCell::new(Vec::new(), true).initial_indent().content, "• ");
    assert_eq!(AgentMessageCell::new(Vec::new(), false).initial_indent().content, "  ");
    assert_eq!(texts(&new_web_search_call("q").text), vec!["Searched q"]);
    assert_eq!(new_warning_event("w").initial_prefix.text(), "⚠ ");
    assert_eq!(texts(&new_info_event("i", Some("hint")).lines), vec!["• i hint"]);
    let error = new_error_event("e");
    assert_eq!(texts(&error.lines), vec!["■ e"]);
    assert_eq!(error.lines[0].spans[0].style, Style::new().with_fg(Color::Red));
    assert_eq!(texts(&new_view_image_tool_call("a.png").lines)[0], "• Viewed Image");
    let failure = new_patch_apply_failure("  ", vec![Line::from_text("out")]);
    assert_eq!(failure.lines.len(), 1);
    let failure = new_patch_apply_failure("bad", vec![Line::from_text("out")]);
    assert_eq!(failure.lines.len(), 2);
    let plan = new_proposed_plan_stream(vec![Line::from_text("x")], true);
    assert!(plan.is_stream_continuation);
    assert_eq!(padded_emoji("x"), "x\u{200a}");
    assert_eq!(scroll_offset(10, 4), 6);
    assert_eq!(scroll_offset(10, 0), 0);
    assert_eq!(scroll_offset(3, 4), 0);
}

#[test]
fn dividers_fill_the_width() {
    let divider = FinalMessageSeparator::new(Some(75)).display_lines(30);
    assert_eq!(texts(&divider), vec!["─ Worked for 1m 15s ──────────"]);
    let plain = FinalMessageSeparator::new(None).display_lines(3);
    assert_eq!(texts(&plain), vec!["───"]);
}

fn plan() -> UpdatePlanArgs {
    UpdatePlanArgs {
        explanation: Some(" why this plan ".to_string()),
        plan: vec![
            PlanItemArg { step: "one".to_string(), status: StepStatus::Completed },
            PlanItemArg { step: "two words".to_string(), status: StepStatus::InProgress },
            PlanItemArg { step: "three".to_string(), status: StepStatus::Pending },
        ],
    }
}

#[test]
fn plans_are_shown_as_check_lists() {
    assert_eq!(
        texts(&plan_update_lines(&plan(), 40)),
        vec![
            "• Updated Plan",
            "  └ why this plan",
            "    ✔ one",
            "    □ two words",
            "    □ three",
        ]
    );
    let narrow = texts(&new_plan_update(plan()).display_lines(12));
    assert!(narrow.len() > 5, "{narrow:?}");
    let empty = UpdatePlanArgs { explanation: None, plan: Vec::new() };
    assert_eq!(
        texts(&plan_update_lines(&empty, 40)),
        vec!["• Updated Plan", "  └ (no steps provided)"]
    );
}

#[test]
fn deprecation_notices_wrap_their_details() {
    let notice =
        new_deprecation_notice("old flag".to_string(), Some("use the new one".to_string()));
    let wide = texts(&notice.display_lines(40));
    assert!(wide[0].contains("old flag"));
    assert_eq!(wide.len(), 2);
    assert!(notice.display_lines(10).len() > 2);
}

#[test]
fn updates_are_announced_in_a_box() {
    let cell = UpdateAvailableHistoryCell::new(
        "1.0".to_string(),
        "2.0".to_string(),
        Some("update now".to_string()),
    );
    let shown = texts(&cell.display_lines(80));
    assert!(shown.iter().any(|line| line.contains("1.0") && line.contains("2.0")), "{shown:?}");
    assert!(shown.iter().any(|line| line.contains("update now")), "{shown:?}");
    assert!(shown.first().expect("border").starts_with('╭'));
    assert!(shown.last().expect("border").ends_with('╯'));
}

#[test]
fn summaries_line_their_labels_up() {
    let lines = texts(&build_potter_project_summary_detail_lines(
        "MAIN.md",
        "0123456789",
        "abcdefghij",
        Some("more"),
    ));
    assert_eq!(lines.len(), 3);
    assert!(lines[0].contains("git diff 0123456...abcdefg"));
    assert!(lines[1].contains("Task history:") && lines[1].ends_with("MAIN.md"));
    assert!(lines[2].contains("Loop more rounds:") && lines[2].ends_with("more"));
    let without = build_potter_project_summary_detail_lines("MAIN.md", "", "abc", None);
    assert_eq!(without.len(), 1);
    assert_eq!(short_git_commit("012"), "012");
    assert_eq!(short_git_commit("01234567"), "0123456");
}

#[test]
fn prompt_screen_sorts_keys_out() {
    assert_eq!(on_prompt_key(ctrl('c'), false, true), PromptKeyStep::Cancel);
    assert_eq!(on_prompt_key(ctrl('c'), false, false), PromptKeyStep::ClearComposer);
    assert_eq!(on_prompt_key(ctrl('c'), true, true), PromptKeyStep::PassToPopup);
    assert_eq!(on_prompt_key(ctrl('g'), false, true), PromptKeyStep::OpenEditor);
    assert_eq!(on_prompt_key(key(KeyCode::Up), false, true), PromptKeyStep::PassToComposer);
    let released = KeyEvent { kind: KeyEventKind::Release, ..ctrl('c') };
    assert_eq!(on_prompt_key(released, false, true), PromptKeyStep::Ignore);
    assert!(matches!(
        on_prompt_input(InputResult::Submitted("x".to_string())),
        PromptStep::Submit(text) if text == "x"
    ));
    assert!(matches!(
        on_prompt_input(InputResult::Command(SlashCommand::Exit)),
        PromptStep::Cancel
    ));
    assert!(matches!(on_prompt_input(InputResult::Nothing), PromptStep::Stay));
    assert_eq!(on_frame(true, true), DrawStep::Redraw);
    assert_eq!(on_frame(false, true), DrawStep::RedrawAfterPaste);
    assert_eq!(on_frame(false, false), DrawStep::Draw);
    assert_eq!(normalize_paste("a\rb\r\n"), "a\nb\n\n");
}

#[test]
fn prompt_screen_sorts_events_out() {
    let request = AppEvent::CodexOp(Op::GetHistoryEntryRequest { offset: 1, log_id: 2 });
    assert!(matches!(
        handle_prompt_app_event(request),
        PromptEventStep::LookUpPromptHistory { offset: 1, log_id: 2 }
    ));
    assert!(matches!(
        handle_prompt_app_event(AppEvent::CommitTick),
        PromptEventStep::Ignore
    ));
    assert!(matches!(
        handle_prompt_app_event(AppEvent::StartFileSearch("q".to_string())),
        PromptEventStep::SearchFiles(query) if query == "q"
    ));
}

#[test]
fn prompt_idle_prompt_is_separated_from_transcript_vt100() {
    assert!(should_pad_prompt_after_history_insert(&vec![Line::from_text("text")]));
    assert!(!should_pad_prompt_after_history_insert(&vec![
        Line::from_text("text"),
        Line::blank()
    ]));
    assert!(!should_pad_prompt_after_history_insert(&Vec::new()));
    let startup = prompt_startup(
        Some(vec![Line::from_text("banner"), Line::blank()]),
        None,
        vec![vec![Line::from_text("warning")], Vec::new()],
    );
    assert_eq!(startup.inserts.len(), 2);
    assert!(startup.should_pad);
    let startup = prompt_startup(Some(vec![Line::blank()]), None, Vec::new());
    assert!(!startup.should_pad);
    assert!(prompt_startup(None, None, Vec::new()).should_pad);
}

fn prompt_screen() -> PromptScreen {
    let banner = Some(vec![Line::from_text("banner"), Line::blank()]);
    PromptScreen::new(&prompt_startup(banner, None, Vec::new()))
}

#[test]
fn prompt_screen_records_a_prompt_before_it_leaves() {
    let mut screen = prompt_screen();
    let mut actions = screen.handle_event(PromptEvent::ComposerAnswered {
        result: InputResult::Submitted("do it".to_string()),
        history_text: "kept".to_string(),
        needs_redraw: true,
        in_paste_burst: true,
    });
    assert_eq!(actions.len(), 4);
    assert!(matches!(
        actions.pop(),
        Some(PromptAction::Leave(Some(prompt))) if prompt == "do it"
    ));
    assert!(matches!(
        actions.pop(),
        Some(PromptAction::App(AppAction::RecordPromptHistory(text))) if text == "kept"
    ));
    assert!(matches!(
        actions.pop(),
        Some(PromptAction::App(AppAction::ScheduleFrameAfterPaste))
    ));
    assert!(matches!(actions.pop(), Some(PromptAction::App(AppAction::ScheduleFrame))));
}

#[test]
fn prompt_screen_is_cleared_when_it_is_cancelled() {
    let mut screen = prompt_screen();
    let cancelled = screen.handle_event(PromptEvent::Key {
        key: ctrl('c'),
        popup_visible: false,
        composer_empty: true,
    });
    assert!(matches!(
        cancelled[..],
        [PromptAction::ClearViewport, PromptAction::Leave(None)]
    ));
    let left = screen.handle_event(PromptEvent::ComposerAnswered {
        result: InputResult::Command(SlashCommand::Exit),
        history_text: String::new(),
        needs_redraw: false,
        in_paste_burst: false,
    });
    assert!(matches!(left[..], [PromptAction::ClearViewport, PromptAction::Leave(None)]));
    assert!(matches!(
        screen.handle_event(PromptEvent::Closed)[..],
        [PromptAction::Leave(None)]
    ));
}

#[test]
fn prompt_screen_keeps_its_padding() {
    let mut screen = prompt_screen();
    assert!(screen.lines_above().is_empty());
    assert!(screen.handle_event(PromptEvent::CellLaidOut(Vec::new())).is_empty());
    assert!(screen.lines_above().is_empty());
    let shown = screen.handle_event(PromptEvent::CellLaidOut(vec![Line::from_text("error")]));
    assert!(matches!(shown[..], [PromptAction::App(AppAction::InsertLines(_))]));
    assert_eq!(texts(&screen.lines_above()), vec![""]);
    screen.handle_event(PromptEvent::CellLaidOut(vec![Line::blank()]));
    assert_eq!(texts(&screen.lines_above()), vec![""]);
}

#[test]
fn prompt_screen_goes_through_the_editor() {
    let mut screen = prompt_screen();
    let opened = screen.handle_event(PromptEvent::Key {
        key: ctrl('g'),
        popup_visible: false,
        composer_empty: false,
    });
    assert!(matches!(
        opened[..],
        [PromptAction::ShowEditorHint, PromptAction::Draw, PromptAction::RunEditor]
    ));
    let edited =
        screen.handle_event(PromptEvent::EditorClosed(EditorOutcome::Edited("new".to_string())));
    assert!(matches!(
        edited[..],
        [
            PromptAction::App(AppAction::ApplyExternalEdit(_)),
            PromptAction::App(AppAction::ScheduleFrame),
            PromptAction::HideEditorHint
        ]
    ));
    let failed =
        screen.handle_event(PromptEvent::EditorClosed(EditorOutcome::Failed("no".to_string())));
    assert!(matches!(
        &failed[..],
        [PromptAction::App(AppAction::LayOutCell(Cell::Error(text))), PromptAction::HideEditorHint]
            if text == "Failed to open editor: no"
    ));
}

#[test]
fn prompt_screen_answers_frames_pastes_and_themes() {
    let mut screen = prompt_screen();
    let due = PromptEvent::FrameDue { paste_flushed: false, in_paste_burst: false };
    assert!(matches!(
        screen.handle_event(due)[..],
        [PromptAction::TakeWaitingEvents, PromptAction::Draw]
    ));
    assert!(matches!(
        &screen.handle_event(PromptEvent::Pasted("a\rb".to_string()))[..],
        [PromptAction::TakePaste(text)] if text == "a\nb"
    ));
    let saved = PromptEvent::ThemeSaved {
        name: "zenburn".to_string(),
        outcome: ThemeSave::SaveFailed("full".to_string()),
    };
    assert!(matches!(
        &screen.handle_event(saved)[..],
        [
            PromptAction::App(AppAction::RestoreTheme),
            PromptAction::App(AppAction::LayOutCell(Cell::Error(text))),
            PromptAction::App(AppAction::ScheduleFrame)
        ] if text == "Failed to save theme: full"
    ));
    let selected = AppEvent::SyntaxThemeSelected { name: "zenburn".to_string() };
    assert!(matches!(
        &screen.handle_event(PromptEvent::App(selected))[..],
        [PromptAction::App(AppAction::SaveTheme { name })] if name == "zenburn"
    ));
}

#[test]
fn models_are_labelled() {
    assert_eq!(model_label("m", Some("high")), "m high");
    assert_eq!(model_label("m", None), "m");
    let names: Vec<&str> = built_in_slash_commands().iter().map(|(name, _)| *name).collect();
    assert_eq!(names, vec!["mention", "theme", "exit"]);
    assert!(!SlashCommand::Theme.available_during_task());
    assert!(!SlashCommand::Exit.supports_inline_args());
}

fn item(name: &str, disabled: bool) -> SelectionItem {
    SelectionItem {
        name: name.to_string(),
        is_disabled: disabled,
        dismiss_on_select: true,
        search_value: Some(name.to_string()),
        actions: vec![SelectionAction::Custom(name.len())],
        ..Default::default()
    }
}

#[test]
fn number_keys_report_the_selection_before_they_pick() {
    let (mut view, _) = ListSelectionView::new(SelectionViewParams {
        items: vec![item("a", false), item("bb", false)],
        notify_selection_changed: true,
        ..Default::default()
    });
    let effects = view.handle_key_event(key(KeyCode::Char('2')));
    assert_eq!(
        effects,
        vec![ViewEffect::SelectionChanged(1), ViewEffect::Run(SelectionAction::Custom(2))]
    );
    assert_eq!(view.take_last_selected_index(), Some(1));
    let effects = view.handle_key_event(key(KeyCode::Char('2')));
    assert_eq!(effects, vec![ViewEffect::Run(SelectionAction::Custom(2))]);
}

#[test]
fn footer_hints_are_dim() {
    let (view, _) = ListSelectionView::new(SelectionViewParams {
        footer_hint: Some(Line::from_text("hint")),
        footer_note: Some(Line::from_text("note")),
        ..Default::default()
    });
    let hint = view.footer_hint_line().expect("hint");
    assert_eq!(hint.text(), "hint");
    assert_eq!(hint.style, Style::new().dim());
    assert_eq!(view.footer_note().expect("note").text(), "note");
    let measures = PopupMeasures {
        header_height: 0,
        rows_height: 1,
        side_height: 0,
        stacked_height: 0,
        note_height: u16::MAX,
    };
    assert_eq!(view.desired_height(60, measures), u16::MAX);
}

#[test]
fn side_panels_that_do_not_fit_are_left_out() {
    for width in [65533u16, 65534, 65535] {
        let side = SideContentWidth::Fixed(width);
        assert_eq!(side_by_side_layout_widths(100, side, 0), None);
    }
    assert_eq!(side_by_side_layout_widths(100, SideContentWidth::Fixed(30), 0), Some((68, 30)));
}

fn list(searchable: bool) -> ListSelectionView {
    let (view, _) = ListSelectionView::new(SelectionViewParams {
        title: Some("Title".to_string()),
        items: vec![item("a", false), item("bb", true), item("ccc", false)],
        is_searchable: searchable,
        search_placeholder: Some("Search".to_string()),
        notify_selection_changed: true,
        notify_cancel: true,
        ..Default::default()
    });
    view
}

#[test]
fn moves_skip_what_cannot_be_picked() {
    let mut view = list(false);
    assert_eq!(view.handle_key_event(key(KeyCode::Down)), vec![ViewEffect::SelectionChanged(2)]);
    assert_eq!(view.handle_key_event(key(KeyCode::Down)), vec![ViewEffect::SelectionChanged(0)]);
    assert_eq!(view.handle_key_event(key(KeyCode::Up)), vec![ViewEffect::SelectionChanged(2)]);
    let effects = view.handle_key_event(key(KeyCode::Enter));
    assert!(effects.contains(&ViewEffect::Run(SelectionAction::Custom(3))), "{effects:?}");
    assert_eq!(view.take_last_selected_index(), Some(2));
    assert_eq!(view.take_last_selected_index(), None);
}

#[test]
fn numbers_pick_items() {
    let mut view = list(false);
    view.handle_key_event(key(KeyCode::Char('2')));
    assert!(!view.is_complete());
    view.handle_key_event(key(KeyCode::Char('3')));
    assert!(view.is_complete());
    assert_eq!(view.take_last_selected_index(), Some(2));
}

#[test]
fn searches_narrow_the_list() {
    let mut view = list(true);
    assert_eq!(view.search_line().text(), "Search");
    view.handle_key_event(key(KeyCode::Char('C')));
    assert_eq!(view.search_line().text(), "C");
    let rows = view.build_rows();
    assert_eq!(rows.len(), 1);
    assert!(rows[0].name.contains("ccc"), "{rows:?}");
    view.handle_key_event(key(KeyCode::Backspace));
    assert_eq!(view.build_rows().len(), 3);
    assert_eq!(view.handle_key_event(key(KeyCode::Esc)), vec![ViewEffect::Cancelled]);
    assert!(view.is_complete());
}

#[test]
fn popups_are_laid_out_inside_their_area() {
    let view = list(false);
    let measures = PopupMeasures {
        header_height: 1,
        rows_height: 3,
        side_height: 0,
        stacked_height: 0,
        note_height: 0,
    };
    assert_eq!(view.desired_height(60, measures), 7);
    assert_eq!(texts(&view.header_lines()), vec!["Title"]);
    let area = Rect { x: 0, y: 0, width: 60, height: 7 };
    let (outer, footer) = view.split_footer(area, 0).expect("cells to draw into");
    assert_eq!(view.split_footer(Rect { height: 0, ..area }, 0), None);
    assert_eq!(view.split_footer(Rect { width: 0, ..area }, 0), None);
    let to_measure = view.rows_to_measure(60);
    assert_eq!((to_measure.rows.len(), to_measure.max_rows, to_measure.width), (3, 8, 59));
    assert!(view.footer_hint_line().is_none() && view.footer_note().is_none());
    assert_eq!(outer, area);
    let surface = Rect { x: 2, y: 1, width: 56, height: 5 };
    let parts = view.split_parts(outer, surface, footer, measures);
    let plan = view.render_plan(&parts, measures);
    assert_eq!(plan.header, Rect { x: 2, y: 1, width: 56, height: 1 });
    assert!(plan.search.is_none() && plan.side.is_none() && plan.hint.is_none());
    assert!(plan.list.is_some());
    assert_eq!(
        ListSelectionView::elision_line(5).text(),
        "[… 5 lines] ctrl + a view all"
    );
    assert_eq!(popup_content_width(60), 56);
    let bounds = Rect { x: 2, y: 2, width: 4, height: 4 };
    assert_eq!(clip_to(Rect { x: 0, y: 3, width: 5, height: 9 }, bounds), (2, 3, 5, 6));
}

#[test]
fn selections_wrap_and_stay_visible() {
    let mut state = ScrollState::new();
    state.move_down_wrap(10);
    assert_eq!(state.selected_idx, Some(0));
    state.move_up_wrap(10);
    assert_eq!(state.selected_idx, Some(9));
    state.ensure_visible(10, 4);
    assert_eq!(state.scroll_top, 6);
    state.clamp_selection(3);
    assert_eq!(state.selected_idx, Some(2));
}
