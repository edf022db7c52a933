use codex_potter_tui::bottom_pane::list_selection_view::{
    ListSelectionView, SelectionAction, SideContentWidth, ViewEffect,
};
use codex_potter_tui::bottom_pane::prompt_footer::prompt_footer_line;
use codex_potter_tui::bottom_pane::word_boundary::{
    beginning_of_previous_word, end_of_next_word, segments, segments_of_breaks, Segment,
};
use codex_potter_tui::geometry::Rect;
use codex_potter_tui::human_time::Timestamp;
use codex_potter_tui::interrupted_project_prompt::{
    build_interrupted_project_params, chosen_action, prompt_area, prompt_height,
    InterruptedProjectAction,
};
use codex_potter_tui::key::{KeyCode, KeyEvent, KeyEventKind, KeyModifiers};
use codex_potter_tui::prompt_screen::theme_candidates;
use codex_potter_tui::resume_picker_prompt::{
    footer_area, resume_picker_footer_hint_line, takes_response, KeyHints, OverlayResponse,
    ResumePickerOutcome, ResumePickerOverlay,
};
use codex_potter_tui::startup_banner::{
    build_startup_banner_lines, startup_directory_row, take_prefix_by_width,
    truncate_model_label_for_banner, ART_LINES,
};
use codex_potter_tui::startup_setup::StartupSetupStep;
use codex_potter_tui::styled::{Color, Line, Span, Style};
use codex_potter_tui::verbosity::Verbosity;
use codex_potter_tui::verbosity_picker::{
    build_compact_preview_lines, build_full_preview_lines, build_startup_verbosity_picker_params,
    build_verbosity_picker_params, centered_offset, frame_preview, preview_area,
    preview_commentary_lines, preview_patch_changes, preview_ran_cell, preview_required_height,
    startup_picker_header, verbosity_of_choice, wide_preview_width, PreviewParts,
    NARROW_PREVIEW_HEIGHT, WIDE_PREVIEW_MIN_WIDTH,
};
use codex_potter_tui::verbosity_prompt::{
    below_plan, build_startup_prompt_params, desired_height, headed_preview_lines, inner_width,
    is_narrow, on_prompt_key, picked_verbosity, previewed_after, prompt_hint_line,
    prompt_note_line, prompt_rows, split_prompt, step_area,
};
use codex_potter_tui::yolo_picker::build_yolo_picker_params;
use unicode_width::UnicodeWidthStr;

fn plain_key(code: KeyCode) -> KeyEvent {
    KeyEvent {
        code,
        modifiers: KeyModifiers { shift: false, control: false, alt: false, other: false },
        kind: KeyEventKind::Press,
    }
}

fn ctrl_key(c: char) -> KeyEvent {
    KeyEvent {
        code: KeyCode::Char(c),
        modifiers: KeyModifiers { shift: false, control: true, alt: false, other: false },
        kind: KeyEventKind::Press,
    }
}

fn texts(lines: &[Line]) -> Vec<String> {
    lines.iter().map(|line| line.text()).collect()
}

fn banner(width: u16, model_label: &str, dir: &str) -> Vec<Line> {
    build_startup_banner_lines(width, "0.0.1", model_label, dir, Color::Magenta, Color::Yellow)
}

#[test]
fn startup_banner_snapshots_cover_default_and_fast_modes() {
    let dir = "/Users/example/repo";
    for model_label in ["gpt-5.2 xhigh", "gpt-5.2 xhigh [fast]"] {
        let shown = texts(&banner(120, model_label, dir));
        assert_eq!(shown.len(), ART_LINES + 3);
        assert_eq!(
            shown[3],
            "   /'___\\ / __`\\  /'_` \\  /'__`\\/\\ \\/'\\/\\ '__`\\  / __`\\ \\ \\/\\ \\ \\/  /'__`\\/\\`'__\\"
        );
        assert!(shown[ART_LINES - 1].ends_with(" v0.0.1"));
        assert_eq!(UnicodeWidthStr::width(shown[ART_LINES - 1].as_str()), 81);
        assert_eq!(shown[ART_LINES], "");
        assert_eq!(shown[ART_LINES + 1], format!("  directory: {dir}  {model_label}"));
        assert_eq!(shown[ART_LINES + 2], "");
    }
    let lines = banner(120, "m", dir);
    assert_eq!(lines[0].spans[2].style, Style::new().with_fg(Color::Magenta).bold());
    assert_eq!(lines[0].spans[1].content.len(), 52);
    assert_eq!(
        lines[ART_LINES + 1].spans[4].style,
        Style::new().with_fg(Color::Yellow).bold()
    );
}

#[test]
fn startup_banner_truncation_keeps_required_suffixes_visible() {
    let dir = "/Users/example/repo";
    let width: u16 = 30;
    for (model_label, target_line, suffix) in [
        ("", ART_LINES - 1, "v0.0.1"),
        ("gpt-5.2 xhigh [fast]", ART_LINES + 1, "gpt-5.2 [fast]"),
    ] {
        let room = startup_directory_row(width, model_label).dir_max_width;
        let lines = banner(width, model_label, &take_prefix_by_width(dir, room));
        for (idx, text) in texts(&lines).iter().enumerate() {
            assert!(
                UnicodeWidthStr::width(text.as_str()) <= usize::from(width),
                "line {idx} must fit within {width} cols: {text:?}",
            );
        }
        let text = lines[target_line].text();
        assert!(
            text.ends_with(suffix),
            "expected suffix {suffix:?} to remain visible: {text:?}",
        );
    }
}

#[test]
fn banner_fits_every_width() {
    for width in 0..100u16 {
        for version in ["0.0.1", "\u{2764}\u{fe0f}\u{2764}\u{fe0f}"] {
            for model_label in ["", "gpt \u{2764}\u{fe0f}\u{65e5} xhigh [fast]"] {
                let lines = build_startup_banner_lines(
                    width,
                    version,
                    model_label,
                    "/Users/example/\u{65e5}\u{672c}/repo",
                    Color::Magenta,
                    Color::Yellow,
                );
                for line in &lines {
                    let columns: usize = line
                        .spans
                        .iter()
                        .map(|span| UnicodeWidthStr::width(span.content.as_str()))
                        .sum();
                    assert!(columns <= usize::from(width), "{width}: {:?}", line.text());
                }
            }
        }
    }
    assert_eq!(texts(&banner(7, "m", "/d"))[ART_LINES + 1], "  direc");
    assert_eq!(texts(&banner(1, "m", "/d"))[ART_LINES + 1], " ");
    assert_eq!(texts(&banner(15, "", "/dir"))[ART_LINES + 1], "  directory: /d");
}

#[test]
fn labels_are_cut_by_columns() {
    assert_eq!(take_prefix_by_width("abc", 0), "");
    assert_eq!(take_prefix_by_width("abc", 3), "abc");
    assert_eq!(take_prefix_by_width("\u{65e5}\u{672c}", 3), "\u{65e5}");
    assert_eq!(take_prefix_by_width("\u{2764}\u{fe0f}\u{2764}\u{fe0f}", 1), "\u{2764}");
    assert_eq!(truncate_model_label_for_banner("model [fast]", 12), "model [fast]");
    assert_eq!(truncate_model_label_for_banner("model [fast]", 10), "mod [fast]");
    assert_eq!(truncate_model_label_for_banner("model [fast]", 7), "[fast]");
    assert_eq!(truncate_model_label_for_banner("model [fast]", 6), "[fast]");
    assert_eq!(truncate_model_label_for_banner("model [fast]", 5), "model");
    assert_eq!(truncate_model_label_for_banner("model", 0), "");
    let row = startup_directory_row(20, "model");
    assert_eq!((row.dir_max_width, row.model_display.as_str()), (1, "mode"));
    let row = startup_directory_row(13, "model");
    assert_eq!((row.dir_max_width, row.model_display.as_str()), (0, ""));
}

#[test]
fn steps_are_shown_where_there_are_several() {
    assert!(!StartupSetupStep::new(1, 1).should_render());
    assert!(StartupSetupStep::new(2, 2).should_render());
    assert_eq!(StartupSetupStep::new(2, 12).label(), "Setup 2/12");
}

#[test]
fn yolo_picker_offers_off_and_on() {
    let params = build_yolo_picker_params(true, Line::from_text("hint"));
    let names: Vec<&str> = params.items.iter().map(|item| item.name.as_str()).collect();
    assert_eq!(names, vec!["Off", "On"]);
    assert_eq!(params.initial_selected_idx, Some(1));
    assert!(params.items[1].is_current && !params.items[0].is_current);
    assert_eq!(params.items[1].actions, vec![SelectionAction::YoloSelected(true)]);
    assert_eq!(
        params.footer_note.expect("note").text(),
        "Applies to all sessions. CLI flag --yolo always enables YOLO for the current run."
    );
    let (mut view, _) =
        ListSelectionView::new(build_yolo_picker_params(false, Line::from_text("hint")));
    view.handle_key_event(plain_key(KeyCode::Down));
    let effects = view.handle_key_event(plain_key(KeyCode::Enter));
    assert!(
        effects.iter().any(|e| matches!(e, ViewEffect::Run(SelectionAction::YoloSelected(true)))),
        "{effects:?}"
    );
    assert!(view.is_complete());
}

#[test]
fn verbosity_picker_uses_half_width_with_stacked_fallback_preview() {
    let params = build_verbosity_picker_params(Verbosity::default(), Line::blank());
    assert_eq!(params.side_content_width, SideContentWidth::Half);
    assert_eq!(params.side_content_min_width, WIDE_PREVIEW_MIN_WIDTH);
    assert!(params.fit_popup_height_to_side_content);
    assert!(params.preserve_side_content_bg);
    assert_eq!(params.initial_selected_idx, Some(0));
    assert!(params.items[0].is_current && params.items[0].is_default);
    assert_eq!(
        params.items[1].actions,
        vec![SelectionAction::VerbositySelected(Verbosity::Simple)]
    );
    let startup = build_startup_verbosity_picker_params(Line::blank());
    assert!(startup.items.iter().all(|item| item.actions.is_empty() && !item.is_current));
    assert_eq!(
        startup.footer_note.expect("note").text(),
        "You can change this later via /verbosity."
    );
    assert_eq!(
        texts(&startup_picker_header(Some(StartupSetupStep::new(1, 2)))),
        vec!["Setup 1/2", ""]
    );
    assert!(startup_picker_header(Some(StartupSetupStep::new(1, 1))).is_empty());
    assert_eq!(verbosity_of_choice(1), Some(Verbosity::Simple));
    assert_eq!(verbosity_of_choice(2), None);
}

fn block(lines: &[&str]) -> Vec<Line> {
    lines.iter().map(|line| Line::from_text(line)).collect()
}

fn preview_parts() -> PreviewParts {
    PreviewParts {
        commentary: block(&["c"]),
        ran: block(&["r1", "r2"]),
        patch: block(&["p"]),
        compact_patch: block(&["p1", "p2"]),
        final_answer: block(&["f"]),
    }
}

#[test]
fn wide_preview_height_matches_the_tallest_mode_for_the_width() {
    let minimal = build_full_preview_lines(Verbosity::Minimal, preview_parts());
    assert_eq!(texts(&minimal), vec!["c", "", "p", "", "f"]);
    let simple = build_full_preview_lines(Verbosity::Simple, preview_parts());
    assert_eq!(texts(&simple), vec!["c", "", "r1", "r2", "", "p", "", "f"]);
    assert_eq!(preview_required_height(minimal.len(), simple.len()), 8);
    assert_eq!(preview_required_height(70_000, 1), 65_535);
    assert_eq!(wide_preview_width(72), 70);
    assert_eq!(wide_preview_width(1), 1);
}

#[test]
fn narrow_preview_is_compact() {
    let minimal = build_compact_preview_lines(Verbosity::Minimal, &preview_parts());
    assert_eq!(texts(&minimal), vec!["commentary is dimmed", "p1", "p2", ""]);
    let simple = build_compact_preview_lines(Verbosity::Simple, &preview_parts());
    assert_eq!(texts(&simple), vec!["commentary is normal", "r1", "p1", "p2"]);
    assert_eq!(simple.len(), usize::from(NARROW_PREVIEW_HEIGHT));
    assert_eq!(simple[0].spans[0].style, Style::new().dim().italic());
    let dimmed = preview_commentary_lines(Verbosity::Minimal, block(&["c"]));
    assert!(dimmed[0].spans[0].style.add.dim);
    let kept = preview_commentary_lines(Verbosity::Simple, block(&["c"]));
    assert!(!kept[0].spans[0].style.add.dim);
    assert_eq!(preview_patch_changes().len(), 2);
    assert_eq!(preview_ran_cell().calls[0].command[0], "rg");
}

#[test]
fn previews_stand_in_the_middle() {
    assert_eq!(centered_offset(10, 4, 1), 3);
    assert_eq!(centered_offset(10, 5, 1), 2);
    assert_eq!(centered_offset(5, 4, 1), 0);
    assert_eq!(centered_offset(3, 9, 1), 0);
    assert_eq!(texts(&frame_preview(block(&["x"]), 3, true)), vec!["", "x"]);
    assert_eq!(texts(&frame_preview(block(&["x"]), 3, false)), vec!["x"]);
    let area = Rect { x: 5, y: 1, width: 2, height: 3 };
    assert_eq!(preview_area(area, 2), Some(Rect { x: 6, y: 1, width: 1, height: 3 }));
    assert_eq!(preview_area(Rect { width: 0, ..area }, 2), None);
}

#[test]
fn startup_verbosity_prompt_narrow_truncated_height_vt100() {
    let step = Some(StartupSetupStep::new(2, 2));
    let full_height = desired_height(8, 1, true, 12, step);
    assert_eq!(full_height, 8 + 2 + 15 + 1);
    let height: u16 = 12;
    assert!(full_height > height);
    let area = Rect { x: 0, y: 0, width: 80, height };
    assert_eq!(step_area(area, step), Some(Rect { x: 2, y: 0, width: 78, height: 1 }));
    let rows = prompt_rows(area, step, 8, 1).expect("rows");
    assert_eq!((rows.selection_height, rows.below_height), (8, 3));
    let (selection, below) = split_prompt(rows);
    assert_eq!(selection, Rect { x: 0, y: 1, width: 80, height: 8 });
    assert_eq!(below, Rect { x: 0, y: 9, width: 80, height: 3 });
    let plan = below_plan(below, 1, true);
    assert_eq!(plan.hint, Some(Rect { x: 2, y: 9, width: 78, height: 1 }));
    assert_eq!(plan.notes, vec![Rect { x: 2, y: 10, width: 78, height: 1 }]);
    assert_eq!(plan.preview, Some(Rect { x: 2, y: 11, width: 78, height: 1 }));
    assert_eq!(below_plan(below, 1, false).preview, None);
    assert_eq!(below_plan(below, 9, true).notes.len(), 2);
    assert!(below_plan(Rect { width: 2, ..below }, 1, true).hint.is_none());
}

#[test]
fn startup_prompt_leaves_the_note_its_rows() {
    let area = Rect { x: 0, y: 0, width: 80, height: 4 };
    let rows = prompt_rows(area, None, 8, 1).expect("rows");
    assert_eq!((rows.selection_height, rows.below_height), (2, 2));
    let rows = prompt_rows(Rect { height: 2, ..area }, None, 8, 1).expect("rows");
    assert_eq!((rows.selection_height, rows.below_height), (2, 0));
    assert!(prompt_rows(Rect { height: 1, ..area }, Some(StartupSetupStep::new(1, 2)), 8, 1).is_none());
    assert_eq!(step_area(area, None), None);
    assert!(is_narrow(80, SideContentWidth::Half, 40));
    assert!(!is_narrow(100, SideContentWidth::Half, 40));
    assert_eq!(inner_width(2), 1);
    assert_eq!(inner_width(80), 78);
}

#[test]
fn startup_prompt_lines_name_the_keys() {
    let hint = prompt_hint_line(Span::plain("enter"), Span::plain("esc"));
    assert_eq!(hint.text(), "Press enter to confirm or esc to skip");
    assert!(hint.style.add.dim);
    assert_eq!(prompt_note_line().text(), "You can change this later via /verbosity.");
    assert_eq!(texts(&headed_preview_lines(block(&["x"]))), vec!["", "Preview", "", "x"]);
}

#[test]
fn startup_prompt_follows_keys() {
    let (mut view, _) = ListSelectionView::new(build_startup_prompt_params());
    let (effects, redraw) = on_prompt_key(&mut view, plain_key(KeyCode::Down));
    assert!(redraw);
    assert_eq!(previewed_after(Verbosity::Minimal, &effects), Verbosity::Simple);
    let released = KeyEvent { kind: KeyEventKind::Release, ..plain_key(KeyCode::Enter) };
    assert!(!on_prompt_key(&mut view, released).1);
    on_prompt_key(&mut view, plain_key(KeyCode::Enter));
    assert!(view.is_complete());
    assert_eq!(picked_verbosity(&mut view), Some(Verbosity::Simple));
    assert_eq!(picked_verbosity(&mut view), None);
    let (mut view, _) = ListSelectionView::new(build_startup_prompt_params());
    on_prompt_key(&mut view, ctrl_key('d'));
    assert!(view.is_complete());
    assert_eq!(picked_verbosity(&mut view), None);
}

fn picker() -> ResumePickerOverlay {
    ResumePickerOverlay::new(Timestamp { secs: 0, nanos: 0 })
}

#[test]
fn resume_picker_overlay_esc_starts_fresh() {
    let mut screen = picker();
    screen.handle_key(plain_key(KeyCode::Esc), None);
    assert!(matches!(screen.take_outcome(), Some(ResumePickerOutcome::StartFresh)));
}

#[test]
fn resume_picker_overlay_ctrl_c_exits() {
    let mut screen = picker();
    screen.handle_key(ctrl_key('c'), None);
    assert!(matches!(screen.take_outcome(), Some(ResumePickerOutcome::Exit)));
}

#[test]
fn resume_picker_overlay_ctrl_l_does_not_close() {
    let mut screen = picker();
    assert!(!screen.handle_key(ctrl_key('l'), None), "expected Ctrl+L not to reach the list");
    assert!(!screen.is_done(), "expected Ctrl+L not to close");
}

#[test]
fn resume_picker_overlay_enter_resumes_selected_project_dir() {
    let dir = ".codexpotter/projects/2026/04/16/1";
    let mut screen = picker();
    screen.handle_key(plain_key(KeyCode::Enter), None);
    assert!(!screen.is_done());
    screen.handle_key(plain_key(KeyCode::Enter), Some(dir.to_string()));
    let Some(ResumePickerOutcome::Resume(chosen)) = screen.take_outcome() else {
        panic!("expected a project to be resumed");
    };
    assert_eq!(chosen, dir);
}

#[test]
fn resume_picker_passes_other_keys_on() {
    let mut screen = picker();
    screen.set_now(Timestamp { secs: 1, nanos: 0 });
    assert!(screen.handle_key(plain_key(KeyCode::Down), None));
    let released = KeyEvent { kind: KeyEventKind::Release, ..plain_key(KeyCode::Down) };
    assert!(!screen.handle_key(released, None));
    assert!(matches!(screen.final_outcome(), ResumePickerOutcome::StartFresh));
    assert!(takes_response(OverlayResponse::List, false));
    assert!(takes_response(OverlayResponse::Details, true));
    assert!(!takes_response(OverlayResponse::Details, false));
}

#[test]
fn resume_picker_footer_takes_the_fullest_line_that_fits() {
    let keys = KeyHints {
        enter: Span::plain("enter"),
        esc: Span::plain("esc"),
        ctrl_c: Span::plain("ctrl + c"),
        tab: Span::plain("tab"),
        up: Span::plain("u"),
        down: Span::plain("d"),
    };
    let full = "enter resume   esc new   ctrl + c quit   tab maximize   u/d browse";
    assert_eq!(resume_picker_footer_hint_line(&keys, 80).text(), full);
    let width = full.len() as u16;
    assert_eq!(resume_picker_footer_hint_line(&keys, width).text(), full);
    assert_eq!(
        resume_picker_footer_hint_line(&keys, width - 1).text(),
        "enter resume   esc new   ctrl + c quit   u/d browse"
    );
    assert_eq!(
        resume_picker_footer_hint_line(&keys, 40).text(),
        "enter resume   esc new   ctrl + c quit "
    );
    assert_eq!(resume_picker_footer_hint_line(&keys, 0).text(), "enter resume   esc new ");
    let area = Rect { x: 0, y: 0, width: 80, height: 18 };
    let footer = footer_area(area).expect("footer");
    assert_eq!(footer.row, Rect { x: 0, y: 17, width: 80, height: 1 });
    assert_eq!(footer.hints, Some(Rect { x: 2, y: 17, width: 76, height: 1 }));
    assert!(footer_area(Rect { width: 4, ..area }).expect("footer").hints.is_none());
    assert!(footer_area(Rect { height: 0, ..area }).is_none());
}

#[test]
fn interrupted_project_prompt_renders_with_subtitle_and_footer() {
    let file = ".codexpotter/projects/2026/03/06/4/MAIN.md";
    let params = build_interrupted_project_params(file);
    assert_eq!(params.title.as_deref(), Some("Current project is interrupted"));
    assert_eq!(params.subtitle.as_deref(), Some(file));
    let names: Vec<&str> = params.items.iter().map(|item| item.name.as_str()).collect();
    assert_eq!(names, vec!["Stop iterate this project", "I made some changes, continue iterate"]);
    assert_eq!(
        params.footer_note.as_ref().expect("note").text(),
        "Want to change the goal? Just edit this project file."
    );
    assert_eq!(
        params.footer_hint.as_ref().expect("hint").text(),
        "Press enter to confirm or esc to stop iterating"
    );
    let area = Rect { x: 0, y: 0, width: 64, height: 10 };
    assert_eq!(prompt_area(area), Rect { x: 0, y: 1, width: 64, height: 9 });
    assert_eq!(prompt_height(9), 10);
    let (mut view, _) = ListSelectionView::new(params);
    codex_potter_tui::interrupted_project_prompt::on_prompt_key(&mut view, plain_key(KeyCode::Down));
    codex_potter_tui::interrupted_project_prompt::on_prompt_key(&mut view, plain_key(KeyCode::Enter));
    assert_eq!(
        chosen_action(view.take_last_selected_index()),
        Ok(Some(InterruptedProjectAction::ContinueIterate))
    );
    assert_eq!(chosen_action(Some(0)), Ok(Some(InterruptedProjectAction::StopIterate)));
    assert_eq!(chosen_action(None), Ok(None));
    assert_eq!(
        chosen_action(Some(7)),
        Err("internal error: unexpected interrupted project selection 7".to_string())
    );
}

#[test]
fn prompt_footer_includes_external_editor_hint() {
    let line = prompt_footer_line(None, "project", Some("main"), false);
    assert_eq!(line.text(), "ctrl+g editor · main ❯ project");
    let line = prompt_footer_line(None, "project", Some("  "), true);
    assert_eq!(line.text(), "▲YOLO · ctrl+g editor · project");
}

#[test]
fn prompt_footer_external_editor_override_replaces_footer() {
    let line = prompt_footer_line(
        Some("Save and close external editor to continue."),
        "project",
        Some("main"),
        false,
    );
    assert_eq!(line.text(), " Save and close external editor to continue.");
}

fn pieces(text: &str) -> Vec<&str> {
    segments(text).iter().map(|segment| &text[segment.start..segment.end]).collect()
}

#[test]
fn texts_are_cut_into_words_separators_and_spaces() {
    assert_eq!(pieces("foo bar"), vec!["foo", " ", "bar"]);
    assert_eq!(pieces("a====b+-c"), vec!["a", "====", "b", "+", "-", "c"]);
    assert_eq!(pieces("  x\t\n"), vec!["  ", "x", "\t\n"]);
    assert_eq!(pieces("path/to.rs"), vec!["path", "/", "to", ".", "rs"]);
    assert!(pieces("").is_empty());
    assert_eq!(pieces("caf\u{e9} \u{65e5}").concat(), "caf\u{e9} \u{65e5}");
    assert!(segments(" ")[0].is_whitespace);
}

#[test]
fn word_jumps_stop_at_words() {
    let text = "foo  bar-baz";
    assert_eq!(beginning_of_previous_word(text, 12), 9);
    assert_eq!(beginning_of_previous_word(text, 9), 8);
    assert_eq!(beginning_of_previous_word(text, 8), 5);
    assert_eq!(beginning_of_previous_word(text, 5), 0);
    assert_eq!(beginning_of_previous_word(text, 0), 0);
    assert_eq!(beginning_of_previous_word(text, 99), 9);
    assert_eq!(end_of_next_word(text, 0), 3);
    assert_eq!(end_of_next_word(text, 3), 8);
    assert_eq!(end_of_next_word(text, 8), 9);
    assert_eq!(end_of_next_word(text, 12), 12);
    assert_eq!(end_of_next_word("foo  ", 3), 5);
    assert_eq!(beginning_of_previous_word("  ", 2), 0);
}

#[test]
fn word_jumps_land_between_characters() {
    let text = "\u{e9}t\u{e9} \u{1f600}\u{65e5}\u{672c}\u{8a9e}";
    for cursor in 0..=text.len() {
        let back = beginning_of_previous_word(text, cursor);
        assert!(text.is_char_boundary(back) && back <= cursor);
        let ahead = end_of_next_word(text, cursor);
        assert!(text.is_char_boundary(ahead));
    }
    assert_eq!(end_of_next_word(text, 1), 5);
}

#[test]
fn breaks_become_segments() {
    let made = segments_of_breaks(10, vec![3, 3, 5], 6);
    let segment = |start, end| Segment { start, end, is_whitespace: false };
    assert_eq!(made, vec![segment(10, 13), segment(13, 15), segment(15, 16)]);
    assert_eq!(segments_of_breaks(0, Vec::new(), 2), vec![segment(0, 2)]);
    assert_eq!(segments_of_breaks(0, vec![0, 2], 2), vec![segment(0, 2)]);
}

#[test]
fn configured_themes_are_tried_first() {
    assert_eq!(theme_candidates(Some("a".to_string()), "b"), vec!["a", "b"]);
    assert_eq!(theme_candidates(None, "b"), vec!["b"]);
}
