use codex_potter_tui::exec_human_output::{
    command_output, hook_event_label, EventContext, ExecHumanRenderer,
};
use codex_potter_tui::protocol::{
    ChangedFile, EventMsg, ExecCommandEndEvent, ExecCommandSource, FileChange, HookEventName,
    PotterRoundOutcome, ProjectSummary, TokenUsage, TokenUsageInfo,
};
use codex_potter_tui::status_line::{fmt_elapsed_compact, render_status_line, StatusLine};
use codex_potter_tui::styled::{Color, Line, Modifiers, Span, Style};
use codex_potter_tui::terminal_output::{
    printed_text, render_lines, write_line, Attribute, ModifierDiff, TermOp,
};
use codex_potter_tui::verbosity::Verbosity;

const SECOND: u64 = 1_000_000_000;

fn renderer(verbosity: Verbosity, width: u16) -> ExecHumanRenderer {
    ExecHumanRenderer::new(verbosity, Some(width), false, "/repo".to_string(), Color::Magenta)
}

fn context() -> EventContext {
    EventContext {
        now: 0,
        stream_lines: Vec::new(),
        plan_lines: None,
        cell_lines: Vec::new(),
        display_path: String::new(),
        context_percent: 100,
        used_tokens: String::new(),
    }
}

fn lines_of(texts: &[&str]) -> Vec<Line> {
    texts.iter().map(|text| Line::from_text(text)).collect()
}

fn shown(block: &Vec<Line>) -> String {
    printed_text(&render_lines(block, false))
}

fn handle(renderer: &mut ExecHumanRenderer, msg: EventMsg, ctx: &EventContext) -> Vec<String> {
    renderer.handle_event(&msg, ctx).iter().map(shown).collect()
}

fn agent_message(text: &str) -> EventMsg {
    EventMsg::AgentMessage { message: text.to_string() }
}

fn patch(changes: Vec<ChangedFile>) -> EventMsg {
    EventMsg::PatchApplyEnd { success: true, stderr: String::new(), changes }
}

fn update(path: &str) -> ChangedFile {
    ChangedFile {
        path: path.to_string(),
        change: FileChange::Update {
            unified_diff: "@@ -1 +1 @@\n-old\n+new\n".to_string(),
            move_path: None,
        },
    }
}

#[test]
fn minimal_multi_file_patch_renders_each_file_without_changed_header() {
    let mut renderer = renderer(Verbosity::Minimal, 120);
    let changes = vec![
        update("/repo/a.txt"),
        ChangedFile {
            path: "/repo/b.txt".to_string(),
            change: FileChange::Add { content: "hello\n".to_string() },
        },
    ];
    let ctx = EventContext {
        cell_lines: lines_of(&[
            "• Changed 2 files (+2 -1)",
            "  └ Edited a.txt (+1 -1)",
            "    Added b.txt (+1 -0)",
        ]),
        ..context()
    };
    let blocks = handle(&mut renderer, patch(changes), &ctx);
    assert_eq!(blocks.len(), 2, "{blocks:?}");
    assert!(blocks.iter().all(|block| !block.contains("Changed 2 files")));
    assert!(blocks.iter().any(|block| block.contains("Edited a.txt (+1 -1)")));
    assert!(blocks.iter().any(|block| block.contains("Added b.txt (+1 -0)")));
}

#[test]
fn simple_patch_keeps_full_diff_block_visible() {
    let mut renderer = renderer(Verbosity::Simple, 120);
    let ctx = EventContext {
        cell_lines: lines_of(&["• Edited a.txt (+1 -1)", "    1 -old", "    1 +new"]),
        ..context()
    };
    let blocks = handle(&mut renderer, patch(vec![update("/repo/a.txt")]), &ctx);
    assert_eq!(blocks.len(), 1);
    let block = &blocks[0];
    assert!(block.contains("Edited a.txt (+1 -1)"));
    assert!(block.contains("-old"));
    assert!(block.contains("+new"));
}

fn summary() -> ProjectSummary {
    ProjectSummary {
        rounds: 5,
        duration_secs: 7328,
        user_prompt_file: ".codexpotter/projects/2026/03/26/3/MAIN.md".to_string(),
        git_commit_start: "96ca8c6abc".to_string(),
        git_commit_end: "0919e7bdef".to_string(),
    }
}

#[test]
fn summary_strips_interactive_loop_line_and_chrome() {
    let mut renderer = renderer(Verbosity::Minimal, 120);
    let blocks = handle(
        &mut renderer,
        EventMsg::PotterProjectBudgetExhausted { project: summary() },
        &context(),
    );
    assert!(blocks.is_empty());

    let blocks = handle(
        &mut renderer,
        EventMsg::PotterRoundFinished { outcome: PotterRoundOutcome::Completed },
        &context(),
    );
    assert_eq!(blocks.len(), 1);
    let block = &blocks[0];
    assert!(block.contains("CodexPotter summary: 5 rounds in 2h 02m 08s (Budget exhausted)"));
    assert!(block.contains("Git:"));
    assert!(block.contains("Task history:"));
    assert!(!block.contains("Loop more rounds:"));
    assert!(!block.contains("──"));
}

#[test]
fn round_marker_has_no_bullet() {
    let mut renderer = renderer(Verbosity::Minimal, 120);
    let blocks = handle(
        &mut renderer,
        EventMsg::PotterRoundStarted { current: 1, total: 10 },
        &context(),
    );
    assert_eq!(blocks, vec!["CodexPotter: iteration round 1/10".to_string()]);
}

#[test]
fn project_started_emits_only_project_hint() {
    let mut renderer = renderer(Verbosity::Minimal, 120);
    let blocks = handle(
        &mut renderer,
        EventMsg::PotterProjectStarted {
            user_message: Some("Fix the failing test".to_string()),
            user_prompt_file: ".codexpotter/projects/2026/03/27/1/MAIN.md".to_string(),
        },
        &context(),
    );
    assert_eq!(
        blocks,
        vec!["Project created: .codexpotter/projects/2026/03/27/1/MAIN.md".to_string()]
    );
}

#[test]
fn minimal_agent_message_stays_pending_until_turn_complete() {
    let mut renderer = renderer(Verbosity::Minimal, 120);
    let ctx = EventContext { cell_lines: lines_of(&["done"]), ..context() };
    assert!(handle(&mut renderer, agent_message("done"), &ctx).is_empty());
    let blocks = handle(&mut renderer, EventMsg::TurnComplete, &context());
    assert_eq!(blocks, vec!["done".to_string()]);
}

#[test]
fn minimal_idle_flush_makes_pending_agent_message_visible_without_duplication() {
    let mut renderer = renderer(Verbosity::Minimal, 120);
    let ctx = EventContext { cell_lines: lines_of(&["latest"]), ..context() };
    assert!(handle(&mut renderer, agent_message("latest"), &ctx).is_empty());
    assert!(renderer.needs_idle_agent_message_flush());

    let idle_block = renderer.flush_idle_agent_message().expect("idle block");
    assert_eq!(shown(&idle_block), "latest");
    assert!(renderer.flush_idle_agent_message().is_none());

    assert!(handle(&mut renderer, EventMsg::TurnComplete, &context()).is_empty());
}

#[test]
fn minimal_new_agent_stream_flushes_previous_pending_message() {
    let mut renderer = renderer(Verbosity::Minimal, 120);
    let ctx = EventContext { cell_lines: lines_of(&["previous"]), ..context() };
    assert!(handle(&mut renderer, agent_message("previous"), &ctx).is_empty());
    let blocks = handle(
        &mut renderer,
        EventMsg::AgentMessageDelta { delta: "next".to_string() },
        &context(),
    );
    assert_eq!(blocks, vec!["previous".to_string()]);
    assert_eq!(renderer.stream_text(), "next");
}

#[test]
fn simple_mode_keeps_search_and_image_events_visible() {
    let mut renderer = renderer(Verbosity::Simple, 120);
    let blocks = handle(
        &mut renderer,
        EventMsg::WebSearchEnd { query: "rust fmt".to_string() },
        &context(),
    );
    assert_eq!(blocks, vec!["Searched\n  rust fmt".to_string()]);

    let ctx = EventContext { display_path: "screenshot.png".to_string(), ..context() };
    let blocks = handle(
        &mut renderer,
        EventMsg::ViewImageToolCall { path: "/repo/screenshot.png".to_string() },
        &ctx,
    );
    assert_eq!(blocks, vec!["Viewed Image\n  screenshot.png".to_string()]);
}

fn command() -> ExecCommandEndEvent {
    ExecCommandEndEvent {
        call_id: "cmd-1".to_string(),
        command: vec!["bash".to_string(), "-lc".to_string(), "true".to_string()],
        source: ExecCommandSource::Agent,
        exploring: false,
        interaction_input: None,
        exit_code: 0,
        stdout: String::new(),
        stderr: String::new(),
        aggregated_output: String::new(),
        formatted_output: String::new(),
        duration_nanos: SECOND,
    }
}

fn assert_worked_then_done(renderer: &mut ExecHumanRenderer) {
    let ctx = EventContext { now: 2 * SECOND, cell_lines: lines_of(&["done"]), ..context() };
    let blocks = handle(renderer, agent_message("done"), &ctx);
    assert_eq!(blocks.len(), 2);
    assert!(blocks[0].contains("Worked for "));
    assert_eq!(blocks[1], "done");
}

#[test]
fn simple_mode_inserts_worked_separator_before_follow_up_agent_message() {
    let mut renderer = renderer(Verbosity::Simple, 80);
    handle(&mut renderer, EventMsg::TurnStarted { model_context_window: None }, &context());
    let ctx = EventContext { cell_lines: lines_of(&["• Ran true"]), ..context() };
    let blocks = handle(&mut renderer, EventMsg::ExecCommandEnd { command: command() }, &ctx);
    assert_eq!(blocks.len(), 1);
    assert_worked_then_done(&mut renderer);
}

#[test]
fn simple_mode_inserts_worked_separator_after_request_permissions() {
    let mut renderer = renderer(Verbosity::Simple, 80);
    handle(&mut renderer, EventMsg::TurnStarted { model_context_window: None }, &context());
    let ctx = EventContext {
        cell_lines: lines_of(&["• Requested permissions", "  └ Select a workspace root"]),
        ..context()
    };
    let blocks = handle(&mut renderer, EventMsg::RequestPermissions, &ctx);
    assert_eq!(blocks.len(), 1);
    assert_worked_then_done(&mut renderer);
}

#[test]
fn simple_mode_inserts_worked_separator_after_guardian_assessment() {
    let mut renderer = renderer(Verbosity::Simple, 80);
    handle(&mut renderer, EventMsg::TurnStarted { model_context_window: None }, &context());
    let ctx = EventContext { cell_lines: lines_of(&["• Looks safe."]), ..context() };
    let blocks = handle(&mut renderer, EventMsg::GuardianAssessment, &ctx);
    assert_eq!(blocks.len(), 1);
    assert_worked_then_done(&mut renderer);
}

#[test]
fn minimal_mode_hides_search_and_image_events() {
    let mut renderer = renderer(Verbosity::Minimal, 120);
    assert!(handle(
        &mut renderer,
        EventMsg::WebSearchEnd { query: "rust fmt".to_string() },
        &context()
    )
    .is_empty());
    assert!(handle(
        &mut renderer,
        EventMsg::ViewImageToolCall { path: "/repo/screenshot.png".to_string() },
        &context()
    )
    .is_empty());
}

fn assert_all_spans_dimmed(line: &Line) {
    assert!(line.spans.iter().all(|span| span.style.add.dim), "{line:?}");
}

#[test]
fn reasoning_status_hint_uses_shimmer_line_format_and_dims_output() {
    let line = render_status_line(&StatusLine {
        header: "Updating progress file".to_string(),
        header_prefix: Some("Round 1/10".to_string()),
        header_prefix_elapsed: Some(2650),
        elapsed: 2650,
        context_window_percent: Some(12),
        context_window_used_tokens: None,
    });
    assert_eq!(
        line.text(),
        "• Round 1/10 (44m 10s) · Updating progress file (44m 10s) · 12% context left"
    );
    assert_all_spans_dimmed(&line);
}

#[test]
fn status_hint_counts_from_the_project_and_the_turn() {
    let mut renderer = renderer(Verbosity::Minimal, 120);
    renderer.set_project_started_at(0);
    handle(
        &mut renderer,
        EventMsg::PotterRoundStarted { current: 1, total: 10 },
        &EventContext { now: 1000 * SECOND, ..context() },
    );
    handle(
        &mut renderer,
        EventMsg::TurnStarted { model_context_window: Some(128_000) },
        &EventContext { now: 1000 * SECOND, ..context() },
    );
    let usage = TokenUsage {
        input_tokens: 10,
        cached_input_tokens: 0,
        output_tokens: 0,
        reasoning_output_tokens: 0,
        total_tokens: 10,
    };
    handle(
        &mut renderer,
        EventMsg::TokenCount {
            info: Some(TokenUsageInfo {
                total_token_usage: usage,
                last_token_usage: usage,
                model_context_window: Some(128_000),
            }),
        },
        &context(),
    );
    assert_eq!(renderer.total_tokens(), 10);
    let blocks = handle(
        &mut renderer,
        EventMsg::AgentReasoningDelta { delta: "**Updating progress file**".to_string() },
        &EventContext { now: 2650 * SECOND, context_percent: 12, ..context() },
    );
    assert_eq!(
        blocks,
        vec!["• Round 1/10 (44m 10s) · Updating progress file (27m 30s) · 12% context left"]
    );
}

#[test]
fn reasoning_status_hint_emits_once_until_header_changes() {
    let mut renderer = renderer(Verbosity::Minimal, 120);
    handle(&mut renderer, EventMsg::TurnStarted { model_context_window: Some(128_000) }, &context());

    let first = handle(
        &mut renderer,
        EventMsg::AgentReasoningDelta { delta: "**Updating progress file**".to_string() },
        &context(),
    );
    assert_eq!(first.len(), 1);
    assert!(first[0].contains("Updating progress file"));

    let second = handle(
        &mut renderer,
        EventMsg::AgentReasoningDelta {
            delta: "\nMore detail without a new title".to_string(),
        },
        &context(),
    );
    assert!(second.is_empty());

    let third = handle(
        &mut renderer,
        EventMsg::AgentReasoning { text: "**Updating progress file**\nDone.".to_string() },
        &context(),
    );
    assert!(third.is_empty());
}

#[test]
fn exit_shows_what_was_held_back() {
    let mut renderer = renderer(Verbosity::Minimal, 120);
    let ctx = EventContext { cell_lines: lines_of(&["held"]), ..context() };
    assert!(handle(&mut renderer, agent_message("held"), &ctx).is_empty());
    let blocks: Vec<String> = renderer.flush_for_exit(&context()).iter().map(shown).collect();
    assert_eq!(blocks, vec!["held".to_string()]);
    assert!(renderer.flush_for_exit(&context()).is_empty());
    assert!(shown(&renderer.render_error_block("boom")).contains("boom"));
}

#[test]
fn command_output_prefers_what_was_aggregated() {
    let mut ended = command();
    ended.stdout = "out".to_string();
    ended.stderr = "err".to_string();
    assert!(command_output(&ended).contains("out"));
    ended.aggregated_output = "all".to_string();
    assert!(command_output(&ended).contains("all"));
}

#[test]
fn hooks_are_named() {
    assert_ne!(hook_event_label(HookEventName::SessionStart), hook_event_label(HookEventName::Stop));
}

#[test]
fn elapsed_time_leaves_out_leading_zeros() {
    for (secs, expected) in
        [(0, "0s"), (59, "59s"), (60, "1m 00s"), (3599, "59m 59s"), (3600, "1h 00m 00s"), (90061, "25h 01m 01s")]
    {
        assert_eq!(fmt_elapsed_compact(secs), expected);
    }
}

#[test]
fn colored_lines_print_the_same_text_and_end_reset() {
    let line = Line::from_spans(vec![
        Span::of("a", Style::new().bold()),
        Span::of("b", Style::new().with_fg(Color::Red).dim()),
    ]);
    let mut plain: Vec<TermOp> = Vec::new();
    write_line(&mut plain, &line, false);
    let mut colored: Vec<TermOp> = Vec::new();
    write_line(&mut colored, &line, true);
    assert_eq!(printed_text(&plain), "ab");
    assert_eq!(printed_text(&colored), "ab");
    assert!(colored.len() > plain.len());
    assert!(matches!(colored.last(), Some(TermOp::SetAttribute(Attribute::Reset))));
}

#[test]
fn modifiers_are_set_and_taken_back() {
    let bold = Modifiers { bold: true, ..Modifiers::empty() };
    let mut ops: Vec<TermOp> = Vec::new();
    ModifierDiff { from: Modifiers::empty(), to: bold }.queue(&mut ops);
    assert!(matches!(ops.as_slice(), [TermOp::SetAttribute(Attribute::Bold)]), "{ops:?}");
    ops.clear();
    ModifierDiff { from: bold, to: Modifiers::empty() }.queue(&mut ops);
    assert!(
        matches!(ops.as_slice(), [TermOp::SetAttribute(Attribute::NormalIntensity)]),
        "{ops:?}"
    );
    ops.clear();
    ModifierDiff { from: bold, to: bold }.queue(&mut ops);
    assert!(ops.is_empty());
}
