//! The detail lines of a project summary.
//!
//! The interactive transcript and the headless renderer share them, so that the
//! labels stay aligned across both.

use vstd::prelude::*;
use vstd::string::StringSliceAdditionalSpecFns;
use vstd::utf8::{
    decode_utf8, encode_utf8, encode_utf8_decode_utf8, is_ascii_chars, is_ascii_chars_encode_utf8,
    is_char_boundary,
};

use crate::history_cell::opt_str;
use crate::styled::{line_v, lines_view, span_v, Color, Line, LineV, Span, Style};
use crate::text;

verus! {

/// The number of bytes of a commit hash that are shown.
pub const SHORT_SHA_LEN: usize = 7;

/// Whether `commit` can be shortened: it is short already, or a character
/// starts behind its first bytes. Every commit hash can be.
pub open spec fn can_shorten(commit: Seq<char>) -> bool {
    let bytes = encode_utf8(commit);
    bytes.len() <= SHORT_SHA_LEN || is_char_boundary(bytes, SHORT_SHA_LEN as int)
}

/// The first bytes of `commit`, or all of it where it is short already.
pub open spec fn short_commit(commit: Seq<char>) -> Seq<char> {
    let bytes = encode_utf8(commit);
    if bytes.len() <= SHORT_SHA_LEN {
        commit
    } else {
        decode_utf8(bytes.subrange(0, SHORT_SHA_LEN as int))
    }
}

/// The first bytes of `commit`, or all of it where it is short already.
pub fn short_git_commit(commit: &str) -> (r: String)
    requires
        can_shorten(commit@),
    ensures
        r@ == short_commit(commit@),
{
    if commit.as_bytes().len() <= SHORT_SHA_LEN {
        return commit.to_string();
    }
    let (head, _tail) = commit.split_at(SHORT_SHA_LEN);
    proof {
        encode_utf8_decode_utf8(head@);
        assert(head.spec_bytes() =~= commit.spec_bytes().subrange(0, SHORT_SHA_LEN as int));
    }
    head.to_string()
}

/// The columns of the longest label, `Loop more rounds:`.
pub const LABEL_WIDTH: usize = 17;

/// `label` filled up with spaces to the width of the longest label.
pub open spec fn padded_label(label: Seq<char>) -> Seq<char> {
    label + text::repeated(
        ' ',
        if label.len() < LABEL_WIDTH {
            (LABEL_WIDTH - label.len()) as nat
        } else {
            0
        },
    )
}

/// The line that shows `value` behind `label`.
pub open spec fn detail_line(label: Seq<char>, value: Seq<char>) -> LineV {
    line_v(
        seq![
            span_v("  "@, Style::plain()),
            span_v(padded_label(label), Style::plain()),
            span_v("  "@, Style::plain()),
            span_v(value, Style::plain().spec_fg(Color::Cyan)),
        ],
    )
}

fn render_summary_detail_line(label: &str, value: &str) -> (r: Line)
    ensures
        r@ == detail_line(label@, value@),
{
    let used: usize = label.unicode_len();
    let fill: usize = if used < LABEL_WIDTH { LABEL_WIDTH - used } else { 0 };
    let padded = text::concat(label, text::repeat_char(' ', fill).as_str());
    let spans = vec![
        Span::plain("  "),
        Span::plain(padded.as_str()),
        Span::plain("  "),
        Span::of(value, Style::new().with_fg(Color::Cyan)),
    ];
    let line = Line::from_spans(spans);
    assert(line@.spans =~= detail_line(label@, value@).spans);
    line
}

/// The detail lines of a project summary: how to view the changes, where both
/// commits are known; where the task history stands; and how to go on, where
/// there is a command for it.
pub open spec fn summary_details(
    user_prompt_file: Seq<char>,
    git_commit_start: Seq<char>,
    git_commit_end: Seq<char>,
    loop_more_rounds_command: Option<Seq<char>>,
) -> Seq<LineV> {
    let changes = if git_commit_start.len() > 0 && git_commit_end.len() > 0 {
        seq![
            detail_line(
                "View changes:"@,
                "git diff "@ + short_commit(git_commit_start) + "..."@ + short_commit(
                    git_commit_end,
                ),
            ),
        ]
    } else {
        seq![]
    };
    let more = match loop_more_rounds_command {
        Some(command) => seq![detail_line("Loop more rounds:"@, command)],
        None => seq![],
    };
    changes + seq![detail_line("Task history:"@, user_prompt_file)] + more
}

/// Build the shared detail rows for a CodexPotter project summary.
pub fn build_potter_project_summary_detail_lines(
    user_prompt_file: &str,
    git_commit_start: &str,
    git_commit_end: &str,
    loop_more_rounds_command: Option<&str>,
) -> (r: Vec<Line>)
    requires
        can_shorten(git_commit_start@),
        can_shorten(git_commit_end@),
    ensures
        lines_view(r@) == summary_details(
            user_prompt_file@,
            git_commit_start@,
            git_commit_end@,
            opt_str(loop_more_rounds_command),
        ),
{
    let mut lines: Vec<Line> = Vec::new();
    if !git_commit_start.is_empty() && !git_commit_end.is_empty() {
        let mut command = text::concat("git diff ", short_git_commit(git_commit_start).as_str());
        command.append("...");
        command.append(short_git_commit(git_commit_end).as_str());
        lines.push(render_summary_detail_line("View changes:", command.as_str()));
    }
    lines.push(render_summary_detail_line("Task history:", user_prompt_file));
    if let Some(command) = loop_more_rounds_command {
        lines.push(render_summary_detail_line("Loop more rounds:", command));
    }
    assert(lines_view(lines@) =~= summary_details(
        user_prompt_file@,
        git_commit_start@,
        git_commit_end@,
        opt_str(loop_more_rounds_command),
    ));
    lines
}

/// A commit of at most seven bytes is shown whole, and of a longer one in ASCII the
/// first seven characters are shown.
pub proof fn law_commit_is_shortened(commit: Seq<char>)
    ensures
        encode_utf8(commit).len() <= 7 ==> short_commit(commit) == commit,
        is_ascii_chars(commit) && commit.len() <= 7 ==> short_commit(commit) == commit,
        is_ascii_chars(commit) && commit.len() > 7 ==> short_commit(commit) == commit.take(7),
{
    if is_ascii_chars(commit) {
        is_ascii_chars_encode_utf8(commit);
        if commit.len() > 7 {
            let head = commit.take(7);
            assert forall|i: int| 0 <= i < head.len() implies 0 <= (#[trigger] head[i]) as nat
                <= 127 by {
                assert(head[i] == commit[i]);
            }
            assert(is_ascii_chars(head));
            is_ascii_chars_encode_utf8(head);
            assert(encode_utf8(commit).subrange(0, 7) =~= encode_utf8(head));
            encode_utf8_decode_utf8(head);
        }
    }
}

/// The lines of a project summary: how to view the changes where both commits are
/// known, then the task history, then how to go on where there is a command for it;
/// the values of all lines start in the same column.
pub proof fn law_summary_lines(
    file: Seq<char>,
    start: Seq<char>,
    end: Seq<char>,
    command: Option<Seq<char>>,
)
    ensures
        ({
            let lines = summary_details(file, start, end, command);
            let changes = if start.len() > 0 && end.len() > 0 {
                1int
            } else {
                0
            };
            &&& lines.len() == changes + 1 + if command is Some {
                1int
            } else {
                0
            }
            &&& lines[changes].spans.last().content == file
            &&& command matches Some(c) ==> lines.last().spans.last().content == c
            &&& changes == 1 ==> lines[0].spans.last().content == "git diff "@ + short_commit(start)
                + "..."@ + short_commit(end)
            &&& forall|i: int|
                #![trigger lines[i]]
                0 <= i < lines.len() ==> lines[i].spans.len() == 4
                    && lines[i].spans[0].content.len() + lines[i].spans[1].content.len()
                    + lines[i].spans[2].content.len() == 21
        }),
{
    reveal_strlit("  ");
    reveal_strlit("View changes:");
    reveal_strlit("Task history:");
    reveal_strlit("Loop more rounds:");
}

} // verus!
