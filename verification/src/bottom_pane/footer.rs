//! The footer under the composer, which shows transient hints and the context
//! indicator.
//!
//! The footer is pure: it turns [`FooterProps`] into lines and decides nothing
//! about which content should be shown.

use vstd::prelude::*;

use crate::styled::{
    line_v, lines_view, prefix_lines, prefix_lines_v, span_v, Line, LineV, Span, Style,
};
use crate::text;

verus! {

/// Selects which footer content is rendered.
#[derive(Clone, Copy, PartialEq, Eq, Structural, Debug)]
pub enum FooterMode {
    /// Transient "press again to quit" reminder.
    QuitShortcutReminder,
    ShortcutSummary,
    ContextOnly,
}

/// The rendering inputs for the footer area under the composer.
#[derive(Debug)]
pub struct FooterProps {
    pub mode: FooterMode,
    /// The key that the user must press again to quit, as it is shown.
    pub quit_shortcut_key: String,
    pub context_window_percent: Option<i64>,
    /// The tokens used so far, in compact notation.
    pub context_window_used_tokens: Option<String>,
}

/// The footer content after the user did something else.
pub fn reset_mode_after_activity(current: FooterMode) -> (r: FooterMode)
    ensures
        r == FooterMode::ShortcutSummary,
{
    match current {
        FooterMode::QuitShortcutReminder | FooterMode::ContextOnly => FooterMode::ShortcutSummary,
        other => other,
    }
}

/// `percent` limited to the range from zero to a hundred.
pub open spec fn clamped_percent(percent: i64) -> int {
    if percent < 0 {
        0
    } else if percent > 100 {
        100
    } else {
        percent as int
    }
}

/// What the context indicator says: the share of the context window that is
/// left where it is known, else the tokens used, else that all of it is left.
pub open spec fn context_window_label(percent: Option<i64>, used: Option<Seq<char>>) -> Seq<char> {
    match percent {
        Some(p) => text::decimal(clamped_percent(p) as nat) + "% context left"@,
        None => match used {
            Some(tokens) => tokens + " used"@,
            None => "100% context left"@,
        },
    }
}

/// What the context indicator says.
pub fn context_window_text(percent: Option<i64>, used: Option<&str>) -> (r: String)
    ensures
        r@ == context_window_label(percent, crate::history_cell::opt_str(used)),
{
    if let Some(p) = percent {
        let clamped: i64 = if p < 0 {
            0
        } else if p > 100 {
            100
        } else {
            p
        };
        return text::concat(text::decimal_string(clamped as u64).as_str(), "% context left");
    }
    match used {
        Some(tokens) => text::concat(tokens, " used"),
        None => "100% context left".to_string(),
    }
}

impl FooterProps {
    /// What the string in `context_window_used_tokens` holds.
    pub open spec fn used_v(&self) -> Option<Seq<char>> {
        match self.context_window_used_tokens {
            Some(t) => Some(t@),
            None => None,
        }
    }

    /// The line that the footer shows.
    pub open spec fn shown(&self) -> LineV {
        match self.mode {
            FooterMode::QuitShortcutReminder => LineV {
                style: Style::plain().spec_dim(),
                spans: seq![
                    span_v(self.quit_shortcut_key@, Style::plain()),
                    span_v(" again to quit"@, Style::plain()),
                ],
            },
            _ => line_v(
                seq![
                    span_v(
                        context_window_label(self.context_window_percent, self.used_v()),
                        Style::plain().spec_dim(),
                    ),
                ],
            ),
        }
    }
}

/// The lines of the footer, always one.
pub fn footer_lines(props: &FooterProps) -> (r: Vec<Line>)
    ensures
        lines_view(r@) == seq![props.shown()],
{
    let line = match props.mode {
        FooterMode::QuitShortcutReminder => {
            let spans = vec![
                Span::plain(props.quit_shortcut_key.as_str()),
                Span::plain(" again to quit"),
            ];
            Line { style: Style::new().dim(), spans }
        },
        _ => {
            let used = match &props.context_window_used_tokens {
                Some(t) => Some(t.as_str()),
                None => None,
            };
            let label = context_window_text(props.context_window_percent, used);
            Line::from_styled(label.as_str(), Style::new().dim())
        },
    };
    assert(line@.spans =~= props.shown().spans);
    let lines = vec![line];
    assert(lines_view(lines@) =~= seq![line@]);
    lines
}

/// The rows that the footer takes.
pub fn footer_height(props: &FooterProps) -> (h: u16)
    ensures
        h == 1,
{
    let lines = footer_lines(props);
    assert(lines_view(lines@).len() == 1);
    lines.len() as u16
}

/// The footer lines behind an indent of `indent_cols` columns.
pub fn indented_footer_lines(props: &FooterProps, indent_cols: usize) -> (r: Vec<Line>)
    ensures
        lines_view(r@) == prefix_lines_v(
            seq![props.shown()],
            span_v(text::repeated(' ', indent_cols as nat), Style::plain()),
            span_v(text::repeated(' ', indent_cols as nat), Style::plain()),
        ),
{
    let indent = Span::plain(text::repeat_char(' ', indent_cols).as_str());
    prefix_lines(footer_lines(props), &indent, &indent)
}

/// The context indicator says how much of the context is left in percent, never less than
/// none and never more than all of it; where that is not known it says how many tokens
/// were used, and before anything was used that everything is left.
pub proof fn law_context_indicator(percent: i64, used: Seq<char>)
    ensures
        0 <= percent <= 100 ==> context_window_label(Some(percent), Some(used)) == text::decimal(
            percent as nat,
        ) + "% context left"@,
        percent < 0 ==> context_window_label(Some(percent), None) == "0% context left"@,
        percent > 100 ==> context_window_label(Some(percent), None) == "100% context left"@,
        context_window_label(Some(percent), Some(used)) == context_window_label(
            Some(percent),
            None,
        ),
        context_window_label(None, Some(used)) == used + " used"@,
        context_window_label(None, None) == context_window_label(Some(100), None),
{
    reveal_strlit("% context left");
    reveal_strlit("0% context left");
    reveal_strlit("100% context left");
    assert(text::decimal(0) =~= seq!['0']);
    assert(text::decimal(1) =~= seq!['1']);
    assert(text::decimal(10) =~= seq!['1', '0']);
    assert(text::decimal(100) =~= seq!['1', '0', '0']);
    assert(text::decimal(0) + "% context left"@ =~= "0% context left"@);
    assert(text::decimal(100) + "% context left"@ =~= "100% context left"@);
}

/// The footer reminds of the key that quits only where it is told to, and shows the
/// context indicator otherwise.
pub proof fn law_footer_content(props: FooterProps)
    ensures
        props.mode == FooterMode::QuitShortcutReminder ==> props.shown().spans.len() == 2
            && props.shown().spans[0].content == props.quit_shortcut_key@
            && props.shown().spans[1].content == " again to quit"@,
        props.mode != FooterMode::QuitShortcutReminder ==> props.shown().spans.len() == 1
            && props.shown().spans[0].content == context_window_label(
            props.context_window_percent,
            match props.context_window_used_tokens {
                Some(t) => Some(t@),
                None => None,
            },
        ) && props.shown().spans[0].style.add.dim,
{
}

} // verus!
