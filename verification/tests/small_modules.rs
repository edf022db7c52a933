use codex_potter_tui::app_server_render::should_filter_thinking_event;
use codex_potter_tui::bottom_pane::command_popup::CommandPopup;
use codex_potter_tui::bottom_pane::list_selection_view::{
    side_by_side_layout_widths, ListSelectionView, PopupMeasures, SelectionItem,
    SelectionViewParams, SideContentWidth,
};
use codex_potter_tui::bottom_pane::prompt_args::parse_slash_name;
use codex_potter_tui::bottom_pane::prompt_footer::PromptFooterContext;
use codex_potter_tui::bottom_pane::queued_user_messages::{message_lines, QueuedUserMessages};
use codex_potter_tui::codex_config::default_system_config_path;
use codex_potter_tui::codex_home::{
    codex_home_from_env_or_home, expand_codex_home_env_path, expand_home_relative_path,
    find_codex_home,
};
use codex_potter_tui::codex_config::{HomeLookup, NamedHome};
use codex_potter_tui::codex_system_paths::{
    system_admin_skills_dir, system_codex_dir, system_config_toml_path, Platform,
};
use codex_potter_tui::commentary_status::status_header_from_commentary;
use codex_potter_tui::history_cell::{
    cell_height, desired_height, desired_transcript_height, new_web_search_call,
    with_border_clamped,
};
use codex_potter_tui::human_time::{human_time_ago, Timestamp};
use codex_potter_tui::local_path::{normalize_local_path, normalize_local_path_text};
use codex_potter_tui::path_utils::{LinkStep, PathKind, SymlinkResolver};
use codex_potter_tui::paths::{is_path_before, is_text_before, join};
use codex_potter_tui::protocol::EventMsg;
use codex_potter_tui::reasoning_status::{extract_first_bold, ReasoningStatusTracker};
use codex_potter_tui::slash_command::SlashCommand;
use codex_potter_tui::styled::{Line, Span, Style};
use codex_potter_tui::ui_colors::{
    choose_rgb_for_theme, orange_color, parse_hex_rgb, secondary_color, ORANGE_DARK_RGB,
    ORANGE_LIGHT_RGB, SECONDARY_DARK_RGB, SECONDARY_LIGHT_RGB,
};
use codex_potter_tui::utf8::{byte_len_of, char_len};
use codex_potter_tui::verbosity::Verbosity;
use unicode_width::UnicodeWidthStr;

#[test]
fn should_filter_thinking_events() {
    assert!(should_filter_thinking_event(&EventMsg::AgentReasoningDelta {
        delta: "thinking".to_string(),
    }));
    assert!(!should_filter_thinking_event(&EventMsg::AgentMessageDelta {
        delta: "output".to_string(),
    }));
}

#[test]
fn app_server_render_extract_first_bold_returns_first_markdown_bold_span() {
    assert_eq!(
        extract_first_bold("**Inspecting for code duplication**\n\nmore"),
        Some("Inspecting for code duplication".to_string())
    );
    assert_eq!(extract_first_bold("no bold here"), None);
    assert_eq!(extract_first_bold("**"), None);
    assert_eq!(extract_first_bold("**  ** trailing"), None);
    assert_eq!(
        extract_first_bold("prefix **first** then **second**"),
        Some("first".to_string())
    );
}

#[test]
fn reasoning_status_extract_first_bold_returns_first_markdown_bold_span() {
    assert_eq!(
        extract_first_bold("**Inspecting for code duplication**\n\nmore"),
        Some("Inspecting for code duplication".to_string())
    );
    assert_eq!(extract_first_bold("no bold here"), None);
    assert_eq!(extract_first_bold("**"), None);
    assert_eq!(extract_first_bold("**  ** trailing"), None);
    assert_eq!(
        extract_first_bold("prefix **first** then **second**"),
        Some("first".to_string())
    );
}

#[test]
fn tracker_only_emits_when_header_changes() {
    let mut tracker = ReasoningStatusTracker::new();

    assert_eq!(tracker.on_delta("**Updating"), None);
    assert_eq!(
        tracker.on_delta(" progress file**"),
        Some("Updating progress file".to_string())
    );
    assert_eq!(tracker.on_delta("\nmore details"), None);

    tracker.on_section_break();
    assert_eq!(
        tracker.on_delta("**Updating progress file**"),
        Some("Updating progress file".to_string())
    );
}

#[test]
fn reasoning_delta_updates_status_header_from_first_bold() {
    let mut tracker = ReasoningStatusTracker::new();
    assert!(tracker.on_delta("**Inspecting").is_none(), "incomplete header");
    let Some(header) = tracker.on_delta(" for code duplication**") else {
        panic!("expected a header after receiving closing **");
    };
    assert_eq!(header, "Inspecting for code duplication");
}

#[test]
fn parses_config_value_with_back_compat() {
    assert_eq!(Verbosity::parse_config_value("minimal"), Some(Verbosity::Minimal));
    assert_eq!(Verbosity::parse_config_value("simple"), Some(Verbosity::Simple));
    assert_eq!(Verbosity::parse_config_value("default"), Some(Verbosity::Simple));
    assert_eq!(Verbosity::parse_config_value("normal"), Some(Verbosity::Simple));
    assert_eq!(Verbosity::parse_config_value(""), None);
}

#[test]
fn status_header_from_commentary_prefers_first_bold_span() {
    assert_eq!(
        status_header_from_commentary("**Updating progress file**\n\nDetails..."),
        Some("Updating progress file".to_string())
    );
}

#[test]
fn status_header_from_commentary_falls_back_to_first_non_empty_line() {
    assert_eq!(
        status_header_from_commentary("\n\nWorking...\nNext line"),
        Some("Working...".to_string())
    );
}

#[test]
fn status_header_from_commentary_ignores_empty_input() {
    assert_eq!(status_header_from_commentary("   \n"), None);
}

#[test]
fn status_header_is_a_single_line() {
    assert_eq!(
        status_header_from_commentary("a **first\nsecond** b"),
        Some("first".to_string())
    );
}

#[test]
fn reasoning_chunks_return_the_first_title_once() {
    let mut tracker = ReasoningStatusTracker::new();
    let returned: Vec<Option<String>> =
        ["a *", "*Ti", "tle*", "*", " **Other**"].map(|chunk| tracker.on_delta(chunk)).into();
    assert_eq!(returned, vec![None, None, None, Some("Title".to_string()), None]);
    assert_eq!(tracker.current_header(), Some("Title".to_string()));
}

fn at(secs: i64) -> Timestamp {
    Timestamp { secs, nanos: 0 }
}

#[test]
fn human_time_ago_formats_seconds_minutes_hours_and_days() {
    let now = 10_000;
    for (secs, expected) in [
        (1, "1 second ago"),
        (2, "2 seconds ago"),
        (60, "1 minute ago"),
        (60 * 2, "2 minutes ago"),
        (60 * 60, "1 hour ago"),
        (60 * 60 * 2, "2 hours ago"),
        (60 * 60 * 24, "1 day ago"),
        (60 * 60 * 24 * 2, "2 days ago"),
    ] {
        assert_eq!(human_time_ago(at(now - secs), at(now)), expected);
    }
}

#[test]
fn human_time_ago_handles_future_timestamps_as_zero() {
    assert_eq!(human_time_ago(at(11), at(10)), "0 seconds ago");
}

#[test]
fn human_time_ago_counts_whole_seconds() {
    let ts = Timestamp { secs: 0, nanos: 600_000_000 };
    assert_eq!(human_time_ago(ts, Timestamp { secs: 2, nanos: 500_000_000 }), "1 second ago");
    assert_eq!(human_time_ago(ts, Timestamp { secs: 2, nanos: 600_000_000 }), "2 seconds ago");
    assert_eq!(human_time_ago(ts, Timestamp { secs: 0, nanos: 0 }), "0 seconds ago");
    assert_eq!(human_time_ago(at(i64::MIN), at(i64::MAX)), "213503982334601 days ago");
}

#[test]
fn normalize_local_path_text_strips_supported_windows_verbatim_prefixes() {
    for (input, expected) in [
        (r"\\?\C:\Users\me\repo\file.txt", "C:/Users/me/repo/file.txt"),
        (r"\\?\UNC\server\share\file.txt", "//server/share/file.txt"),
        (r"\?\C:\Users\me\repo\file.txt", "C:/Users/me/repo/file.txt"),
        (r"\?\UNC\server\share\file.txt", "//server/share/file.txt"),
        (r"\?/C:/Users/me/repo/file.txt", "C:/Users/me/repo/file.txt"),
        (r"\?/UNC/server/share/file.txt", "//server/share/file.txt"),
    ] {
        assert_eq!(normalize_local_path_text(input), expected, "input: {input}");
    }
}

#[test]
fn normalize_local_path_text_keeps_unc_roots_stable() {
    assert_eq!(
        normalize_local_path_text(r"\\server\share\file.txt"),
        "//server/share/file.txt"
    );
}

#[test]
fn shown_paths_have_at_most_two_slashes_in_front() {
    assert_eq!(normalize_local_path("////a//b"), "//a//b");
    assert_eq!(normalize_local_path("/a\\b"), "/a/b");
    assert_eq!(normalize_local_path(""), "");
}

#[test]
fn system_codex_dir_uses_etc_codex() {
    let unix = Platform::Unix;
    assert_eq!(system_codex_dir(unix, None), Some("/etc/codex".to_string()));
    assert_eq!(system_config_toml_path(unix, None), Some("/etc/codex/config.toml".to_string()));
    assert_eq!(system_admin_skills_dir(unix, None), Some("/etc/codex/skills".to_string()));
    assert_eq!(system_codex_dir(Platform::Other, None), None);
    assert_eq!(system_config_toml_path(Platform::Other, None), None);
    assert_eq!(default_system_config_path(unix), "/etc/codex/config.toml");
    assert_eq!(default_system_config_path(Platform::Windows), "");
}

#[test]
fn system_codex_dir_uses_expected_windows_suffix() {
    for (program_data, expected) in [
        (None, "C:\\ProgramData\\OpenAI\\Codex"),
        (Some("D:\\Data"), "D:\\Data\\OpenAI\\Codex"),
        (Some("D:\\"), "D:\\OpenAI\\Codex"),
        (Some("D:"), "D:OpenAI\\Codex"),
    ] {
        let dir = system_codex_dir(Platform::Windows, program_data).expect("system dir");
        assert_eq!(dir, expected);
        assert!(dir.ends_with("OpenAI\\Codex"));
    }
}

#[test]
fn windows_system_config_toml_path_uses_expected_suffix() {
    let system_dir = system_codex_dir(Platform::Windows, None).expect("system dir");
    let path = system_config_toml_path(Platform::Windows, None).expect("system config path");
    assert_eq!(path, format!("{system_dir}\\config.toml"));
    assert!(path.ends_with("OpenAI\\Codex\\config.toml"));
}

#[test]
fn windows_admin_skills_dir_uses_expected_suffix() {
    let system_dir = system_codex_dir(Platform::Windows, None).expect("system dir");
    let path = system_admin_skills_dir(Platform::Windows, None).expect("admin skills dir");
    assert_eq!(path, format!("{system_dir}\\skills"));
    assert!(path.ends_with("OpenAI\\Codex\\skills"));
}

#[test]
fn codex_home_from_env_or_home_supports_default_and_home_relative_env_paths() {
    for (input, expected) in [
        (None, "/home/user/.codex"),
        (Some("~/custom-codex"), "/home/user/custom-codex"),
        (Some(""), "/home/user/.codex"),
        (Some("~"), "/home/user"),
        (Some("/abs"), "/abs"),
        (Some("~x"), "~x"),
    ] {
        assert_eq!(
            codex_home_from_env_or_home(Some("/home/user"), input, false),
            Some(expected.to_string()),
            "input: {input:?}"
        );
    }
    assert_eq!(codex_home_from_env_or_home(None, None, false), None);
    let backslash = Some("~\\custom-codex");
    assert_eq!(
        codex_home_from_env_or_home(Some("/home/user"), backslash, true),
        Some("/home/user/custom-codex".to_string())
    );
    assert_eq!(
        codex_home_from_env_or_home(Some("/home/user"), backslash, false),
        Some("~\\custom-codex".to_string())
    );
}

#[test]
fn find_codex_home_from_env_expands_supported_home_relative_env_paths_before_canonicalizing() {
    let input = "~/custom-codex";
    assert_eq!(
        expand_codex_home_env_path(Some("/home/user"), Some(input), false),
        Some("/home/user/custom-codex".to_string())
    );
    let resolved = find_codex_home(
        Some(NamedHome {
            value: input.to_string(),
            lookup: HomeLookup::Resolved("/home/user/custom-codex".to_string()),
        }),
        Some("/home/user"),
    )
    .expect("resolve codex home");
    assert_eq!(resolved, "/home/user/custom-codex");
    assert_eq!(expand_home_relative_path("~/x", None, true), "~/x");
}

#[test]
fn choose_rgb_for_theme_prefers_detected_theme_and_defaults_to_dark() {
    for (background, foreground, expected) in [
        (Some((255, 255, 255)), None, (1, 2, 3)),
        (Some((0, 0, 0)), None, (4, 5, 6)),
        (None, Some((255, 255, 255)), (4, 5, 6)),
        (None, Some((0, 0, 0)), (1, 2, 3)),
        (None, None, (4, 5, 6)),
    ] {
        let is_light = |color: (u8, u8, u8)| color == (255, 255, 255);
        assert_eq!(
            choose_rgb_for_theme(
                (1, 2, 3),
                (4, 5, 6),
                background.map(is_light),
                foreground.map(is_light)
            ),
            expected,
            "background={background:?}, foreground={foreground:?}"
        );
    }
}

#[test]
fn parse_hex_rgb_accepts_rrggbb_and_rejects_invalid_inputs() {
    for (input, expected) in [
        ("#000000", Some((0, 0, 0))),
        ("#D68C27", Some((0xD6, 0x8C, 0x27))),
        ("F5A742", Some((0xF5, 0xA7, 0x42))),
        ("#nope", None),
        ("#12345", None),
    ] {
        assert_eq!(parse_hex_rgb(input), expected, "input: {input}");
    }
}

#[test]
fn named_colors_are_used() {
    assert_eq!(Some(secondary_color(Some(true), None)), parse_hex_rgb(SECONDARY_LIGHT_RGB));
    assert_eq!(Some(secondary_color(None, None)), parse_hex_rgb(SECONDARY_DARK_RGB));
    assert_eq!(Some(orange_color(None, Some(false))), parse_hex_rgb(ORANGE_LIGHT_RGB));
    assert_eq!(Some(orange_color(None, None)), parse_hex_rgb(ORANGE_DARK_RGB));
    assert_eq!(parse_hex_rgb("01fFaA"), Some((1, 255, 170)));
    assert_eq!(parse_hex_rgb("+1fFaA"), None);
    assert_eq!(parse_hex_rgb("#\u{20ac}\u{20ac}"), None);
}

#[test]
fn popup_selects_a_matching_command_in_every_state() {
    let mut popup = CommandPopup::new();
    for (text, expected) in [("/", true), ("/EX", true), ("/zzz", false), ("/t x", true)] {
        popup.on_composer_text_change(text);
        for _ in 0..4 {
            assert_eq!(popup.selected_item().is_some(), expected, "{text}");
            popup.move_down();
        }
        popup.move_up();
        assert_eq!(popup.selected_item().is_some(), expected, "{text}");
    }
    assert_eq!(popup.selected_item(), Some(SlashCommand::Theme));
}

#[test]
fn selecting_mention_by_exact_match() {
    let mut popup = CommandPopup::new();
    popup.on_composer_text_change("/mention");
    assert_eq!(popup.selected_item(), Some(SlashCommand::Mention));
}

#[test]
fn command_popup_filters_and_moves() {
    let mut popup = CommandPopup::new();
    popup.on_composer_text_change("/");
    assert_eq!(
        popup.filtered_items(),
        vec![SlashCommand::Mention, SlashCommand::Theme, SlashCommand::Exit]
    );
    popup.move_up();
    assert_eq!(popup.selected_item(), Some(SlashCommand::Exit));
    popup.move_down();
    assert_eq!(popup.selected_item(), Some(SlashCommand::Mention));
    popup.on_composer_text_change("/ T\nsecond line");
    assert_eq!(popup.selected_item(), Some(SlashCommand::Theme));
    let rows = popup.rows();
    assert_eq!(rows.len(), 1);
    assert_eq!(rows[0].name, "/theme");
    assert_eq!(rows[0].match_indices, Some(vec![1]));
    assert_eq!(rows[0].description.as_deref(), Some("choose a syntax highlighting theme"));
    popup.on_composer_text_change("/zzz");
    assert_eq!(popup.selected_item(), None);
    popup.on_composer_text_change("no slash");
    assert_eq!(popup.filtered_items().len(), 3);
    assert_eq!(popup.rows()[0].match_indices, None);
}

#[test]
fn parse_slash_name_extracts_name_and_rest() {
    let line = "/mention   @foo/bar";
    let (name, rest, rest_offset) = parse_slash_name(line).expect("parse");
    assert_eq!(name, "mention");
    assert_eq!(rest, "@foo/bar");
    assert_eq!(&line[rest_offset..], rest);
}

#[test]
fn parse_slash_name_returns_none_for_missing_name() {
    assert_eq!(parse_slash_name("/"), None);
    assert_eq!(parse_slash_name("not-a-command"), None);
}

#[test]
fn parse_slash_name_counts_bytes() {
    let line = "/n\u{e4}me\u{3000}\u{3000}r\u{e9}st";
    let (name, rest, rest_offset) = parse_slash_name(line).expect("parse");
    assert_eq!(name, "n\u{e4}me");
    assert_eq!(&line[rest_offset..], rest);
    assert_eq!(rest, "r\u{e9}st");
    assert_eq!(parse_slash_name("/ x"), None);
    assert_eq!(parse_slash_name("/x").expect("parse").2, 2);
}

#[test]
fn bytes_are_counted() {
    for c in ['a', '\u{7f}', '\u{80}', '\u{7ff}', '\u{800}', '\u{ffff}', '\u{10000}'] {
        assert_eq!(char_len(c), c.len_utf8());
    }
    assert_eq!(byte_len_of("a\u{e4}\u{1f600}"), 7);
}

#[test]
fn prompt_footer_context_discards_whitespace_only_branch() {
    let context = PromptFooterContext::new("project".to_string(), Some("   ".to_string()));
    assert_eq!(context.working_dir, "project");
    assert_eq!(context.git_branch, None);
    assert!(!context.yolo_active);
    assert!(!context.yolo_cli_override);
}

#[test]
fn prompt_footer_context_cli_override_forces_yolo_active() {
    let context = PromptFooterContext::new("project".to_string(), Some("main".to_string()))
        .with_yolo_cli_override(true);
    assert_eq!(context.working_dir, "project");
    assert_eq!(context.git_branch, Some("main".to_string()));
    assert!(context.yolo_active);
    assert!(context.yolo_cli_override);
}

#[test]
fn prompt_footer_context_keeps_cli_override_authoritative_after_yolo_updates() {
    let context = PromptFooterContext::new("project".to_string(), Some("main".to_string()))
        .with_yolo_cli_override(true)
        .with_yolo_active(false);
    assert_eq!(context.working_dir, "project");
    assert_eq!(context.git_branch, Some("main".to_string()));
    assert!(context.yolo_active);
    assert!(context.yolo_cli_override);
}

fn one_item_view(fit: bool) -> ListSelectionView {
    let item = SelectionItem {
        name: "Option A".to_string(),
        dismiss_on_select: true,
        ..Default::default()
    };
    let (view, _) = ListSelectionView::new(SelectionViewParams {
        items: vec![item],
        side_content_width: SideContentWidth::Fixed(40),
        side_content_min_width: 10,
        fit_popup_height_to_side_content: fit,
        ..Default::default()
    });
    view
}

fn measures() -> PopupMeasures {
    PopupMeasures {
        header_height: 0,
        rows_height: 1,
        side_height: 12,
        stacked_height: 12,
        note_height: 0,
    }
}

#[test]
fn fit_popup_height_to_side_content_expands_side_by_side_popup() {
    assert_eq!(one_item_view(true).desired_height(100, measures()), 14);
}

#[test]
fn side_by_side_ignores_side_content_height_by_default() {
    assert_eq!(one_item_view(false).desired_height(100, measures()), 4);
}

#[test]
fn side_by_side_widths_fill_the_content() {
    assert_eq!(side_by_side_layout_widths(96, SideContentWidth::Fixed(40), 10), Some((54, 40)));
    assert_eq!(side_by_side_layout_widths(96, SideContentWidth::Half, 40), Some((47, 47)));
    assert_eq!(side_by_side_layout_widths(81, SideContentWidth::Half, 40), None);
    assert_eq!(side_by_side_layout_widths(96, SideContentWidth::Fixed(0), 0), None);
}

fn display_width(line: &Line) -> usize {
    line.spans.iter().map(|span| UnicodeWidthStr::width(span.content.as_str())).sum()
}

#[test]
fn with_border_clamped_limits_border_to_terminal_width() {
    let width = 20u16;
    let lines = with_border_clamped(vec![Line::from_text(&"x".repeat(100))], width);

    assert!(!lines.is_empty());
    assert_eq!(display_width(&lines[0]), usize::from(width));
    assert_eq!(
        display_width(lines.last().expect("missing bottom border")),
        usize::from(width)
    );
}

#[test]
fn with_border_clamped_returns_empty_when_width_too_small() {
    assert!(with_border_clamped(vec![Line::from_text("hello")], 3).is_empty());
}

#[test]
fn cells_are_measured_in_wrapped_rows() {
    let lines = vec![Line::from_text("hello world"), Line::from_text("x")];
    assert_eq!(desired_height(&lines, 20), 2);
    assert_eq!(desired_height(&lines, 6), 3);
    assert_eq!(desired_height(&lines, 0), 0);
    assert_eq!(desired_transcript_height(&lines, 6), 3);
    assert_eq!(desired_transcript_height(&vec![Line::from_text("    ")], 2), 1);
    assert_eq!(desired_transcript_height(&vec![Line::blank()], 2), 1);
    assert_eq!(cell_height(65_535), 65_535);
    assert_eq!(cell_height(65_536), 0);
    assert_eq!(desired_height(&lines, u16::MAX), 2);
    let search = new_web_search_call("query");
    assert_eq!(search.desired_height(3, 80), 3);
    assert_eq!(search.desired_height(3, 0), 0);
    assert_eq!(search.desired_height(65_537, 80), 1);
}

#[test]
fn popup_heights_are_those_of_the_measured_rows() {
    let mut popup = CommandPopup::new();
    popup.on_composer_text_change("/ex");
    let to_measure = popup.rows_to_measure(40);
    assert_eq!((to_measure.rows.len(), to_measure.max_rows, to_measure.width), (1, 8, 40));
    assert_eq!(to_measure.rows[0].name, "/exit");
    assert_eq!(popup.calculate_required_height(2), 2);
}

#[test]
fn desired_height_tracks_empty_and_single_message_queues() {
    let key = || Span::plain("alt + up");
    let queue = QueuedUserMessages::new();
    assert_eq!(queue.lines(40, &Vec::new(), key()).len(), 0);
    let mut queue = QueuedUserMessages::new();
    queue.messages.push("Hello, world!".to_string());
    let wrapped = vec![message_lines("Hello, world!")];
    let lines = queue.lines(40, &wrapped, key());
    assert_eq!(lines.len(), 2);
    assert_eq!(lines[0].text(), "Hello, world!");
    assert_eq!(lines[0].spans[0].style, Style::new().dim().italic());
    assert_eq!(lines[1].text(), "    alt + up edit");
    assert_eq!(queue.lines(3, &wrapped, key()).len(), 0);
}

#[test]
fn long_queued_messages_are_cut() {
    let mut queue = QueuedUserMessages::new();
    queue.messages.push("This is\na message\nwith many\nlines".to_string());
    let wrapped = vec![message_lines("This is\na message\nwith many\nlines")];
    let texts: Vec<String> =
        queue.lines(40, &wrapped, Span::plain("k")).iter().map(|line| line.text()).collect();
    assert_eq!(texts, vec!["This is", "a message", "with many", "    …", "    k edit"]);
}

#[test]
fn symlink_cycles_fall_back_to_root_write_path() {
    let mut resolver = SymlinkResolver::new("/dir/a");
    assert!(matches!(resolver.on_kind(PathKind::Link), LinkStep::ReadLink));
    assert!(matches!(resolver.on_target(Some("/dir/b".to_string())), LinkStep::Look));
    assert_eq!(resolver.current(), "/dir/b");
    assert!(matches!(resolver.on_kind(PathKind::Link), LinkStep::ReadLink));
    assert!(matches!(resolver.on_target(Some("/dir/a".to_string())), LinkStep::Look));
    let LinkStep::Done(resolved) = resolver.on_kind(PathKind::Link) else {
        panic!("expected the cycle to end the search");
    };
    assert_eq!(resolved.read_path, None);
    assert_eq!(resolved.write_path, "/dir/a");
}

#[test]
fn symlink_to_missing_target_uses_target_write_path() {
    let mut resolver = SymlinkResolver::new("/dir/config.toml");
    assert!(matches!(resolver.on_kind(PathKind::Link), LinkStep::ReadLink));
    assert!(matches!(
        resolver.on_target(Some("/dir/real-config.toml".to_string())),
        LinkStep::Look
    ));
    let LinkStep::Done(resolved) = resolver.on_kind(PathKind::Missing) else {
        panic!("expected the search to end");
    };
    assert_eq!(resolved.read_path, Some("/dir/real-config.toml".to_string()));
    assert_eq!(resolved.write_path, "/dir/real-config.toml");
}

#[test]
fn symlinks_that_cannot_be_read_are_not_followed() {
    let mut resolver = SymlinkResolver::new("/a");
    assert!(matches!(resolver.on_kind(PathKind::Link), LinkStep::ReadLink));
    let LinkStep::Done(resolved) = resolver.on_target(None) else {
        panic!("expected the search to end");
    };
    assert_eq!((resolved.read_path, resolved.write_path), (None, "/a".to_string()));
    let mut resolver = SymlinkResolver::new("/a");
    let LinkStep::Done(resolved) = resolver.on_kind(PathKind::Failed) else {
        panic!("expected the search to end");
    };
    assert_eq!((resolved.read_path, resolved.write_path), (None, "/a".to_string()));
    let LinkStep::Done(resolved) = resolver.on_kind(PathKind::Plain) else {
        panic!("expected the search to end");
    };
    assert_eq!(
        (resolved.read_path, resolved.write_path),
        (Some("/a".to_string()), "/a".to_string())
    );
}

#[test]
fn paths_are_joined_and_ordered_by_component() {
    for (base, path) in [("/a", "b"), ("/a/", "b"), ("/a", "/b"), ("", "b"), ("a", "")] {
        assert_eq!(
            join(base, path),
            std::path::Path::new(base).join(path).to_string_lossy(),
            "{base} {path}"
        );
    }
    for (a, b) in [("/a/b", "/a.b"), ("/a", "/a/b"), ("/a/b", "/ab"), ("/x", "/x")] {
        assert_eq!(
            is_path_before(a, b),
            std::path::Path::new(a) < std::path::Path::new(b),
            "{a} {b}"
        );
    }
    for (a, b) in [("a", "b"), ("a", "ab"), ("\u{e4}", "z"), ("x", "x")] {
        assert_eq!(is_text_before(a, b), a < b, "{a} {b}");
    }
}
