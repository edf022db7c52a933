//! The one-line status hint and the elapsed-time notation that it uses.

use vstd::prelude::*;

use crate::bottom_pane::footer::{context_window_label, context_window_text};
use crate::styled::{line_v, span_v, Line, LineV, Style};
use crate::text;

verus! {

/// `secs` in hours, minutes and seconds, leaving out the leading units that are zero.
pub open spec fn elapsed_compact(secs: nat) -> Seq<char> {
    if secs < 60 {
        text::decimal(secs) + "s"@
    } else if secs < 3600 {
        text::decimal(secs / 60) + "m "@ + text::two_digits(secs % 60) + "s"@
    } else {
        text::decimal(secs / 3600) + "h "@ + text::two_digits((secs % 3600) / 60) + "m "@
            + text::two_digits(secs % 60) + "s"@
    }
}

/// `secs` in hours, minutes and seconds, leaving out the leading units that are zero.
pub fn fmt_elapsed_compact(secs: u64) -> (s: String)
    ensures
        s@ == elapsed_compact(secs as nat),
{
    if secs < 60 {
        text::concat(text::decimal_string(secs).as_str(), "s")
    } else if secs < 3600 {
        let mut s = text::decimal_string(secs / 60);
        s.append("m ");
        s.append(text::two_digit_string(secs % 60).as_str());
        s.append("s");
        s
    } else {
        let mut s = text::decimal_string(secs / 3600);
        s.append("h ");
        s.append(text::two_digit_string((secs % 3600) / 60).as_str());
        s.append("m ");
        s.append(text::two_digit_string(secs % 60).as_str());
        s.append("s");
        s
    }
}

/// What the status hint shows.
#[derive(Debug)]
pub struct StatusLine {
    pub header: String,
    pub header_prefix: Option<String>,
    /// How long the work behind the prefix has taken, in seconds.
    pub header_prefix_elapsed: Option<u64>,
    /// How long the work behind the header has taken, in seconds.
    pub elapsed: u64,
    pub context_window_percent: Option<i64>,
    /// The tokens used so far, in compact notation.
    pub context_window_used_tokens: Option<String>,
}

/// `secs` in parentheses, behind a space.
pub open spec fn elapsed_note(secs: nat) -> Seq<char> {
    " ("@ + elapsed_compact(secs) + ")"@
}

impl StatusLine {
    /// The part in front of the header.
    pub open spec fn prefix_text(&self) -> Seq<char> {
        match self.header_prefix {
            Some(prefix) => prefix@ + match self.header_prefix_elapsed {
                Some(secs) => elapsed_note(secs as nat),
                None => seq![],
            } + " · "@,
            None => seq![],
        }
    }

    /// The whole hint.
    pub open spec fn text(&self) -> Seq<char> {
        "• "@ + self.prefix_text() + self.header@ + elapsed_note(self.elapsed as nat) + " · "@
            + context_window_label(
            self.context_window_percent,
            match self.context_window_used_tokens {
                Some(t) => Some(t@),
                None => None,
            },
        )
    }

    /// The line that shows the hint.
    pub open spec fn shown(&self) -> LineV {
        line_v(seq![span_v(self.text(), Style::plain().spec_dim())])
    }
}

/// The dim line that shows `status`.
pub fn render_status_line(status: &StatusLine) -> (r: Line)
    ensures
        r@ == status.shown(),
{
    let mut s = "• ".to_string();
    if let Some(prefix) = &status.header_prefix {
        s.append(prefix.as_str());
        if let Some(secs) = status.header_prefix_elapsed {
            s.append(" (");
            s.append(fmt_elapsed_compact(secs).as_str());
            s.append(")");
        }
        s.append(" · ");
    }
    assert(s@ =~= "• "@ + status.prefix_text());
    s.append(status.header.as_str());
    s.append(" (");
    s.append(fmt_elapsed_compact(status.elapsed).as_str());
    s.append(")");
    s.append(" · ");
    let used = match &status.context_window_used_tokens {
        Some(t) => Some(t.as_str()),
        None => None,
    };
    s.append(context_window_text(status.context_window_percent, used).as_str());
    assert(s@ =~= status.text());
    Line::from_styled(s.as_str(), Style::new().dim())
}

/// A time is written in hours, minutes and seconds that add up to it: minutes and
/// seconds in two digits behind a larger unit, and no unit in front that is zero.
pub proof fn law_elapsed_adds_up(secs: nat)
    ensures
        secs < 60 ==> elapsed_compact(secs) == text::decimal(secs) + "s"@,
        60 <= secs < 3600 ==> exists|m: nat, s: nat|
            #![trigger text::decimal(m), text::two_digits(s)]
            m > 0 && s < 60 && 60 * m + s == secs && elapsed_compact(secs) == text::decimal(m)
                + "m "@ + text::two_digits(s) + "s"@,
        secs >= 3600 ==> exists|h: nat, m: nat, s: nat|
            #![trigger text::decimal(h), text::two_digits(m), text::two_digits(s)]
            h > 0 && m < 60 && s < 60 && 3600 * h + 60 * m + s == secs && elapsed_compact(secs)
                == text::decimal(h) + "h "@ + text::two_digits(m) + "m "@ + text::two_digits(s)
                + "s"@,
        elapsed_compact(secs).len() > 0 && elapsed_compact(secs).last() == 's',
{
    reveal_strlit("s");
    if 60 <= secs < 3600 {
        let m = secs / 60;
        let s = secs % 60;
        assert(60 * m + s == secs);
        assert(elapsed_compact(secs) == text::decimal(m) + "m "@ + text::two_digits(s) + "s"@);
    } else if secs >= 3600 {
        let h = secs / 3600;
        let m = (secs % 3600) / 60;
        let s = secs % 60;
        assert(3600 * h + 60 * m + s == secs);
        assert(elapsed_compact(secs) == text::decimal(h) + "h "@ + text::two_digits(m) + "m "@
            + text::two_digits(s) + "s"@);
    }
}

/// A status hint names the header with the time it has taken, then the state of the context.
/// A prefix stands in front of the header, with its own time where that is known, and is
/// left out where there is none.
pub proof fn law_hint_tells_header_and_time(status: StatusLine)
    ensures
        ({
            let taken = " ("@ + elapsed_compact(status.elapsed as nat) + ")"@;
            let context = context_window_label(
                status.context_window_percent,
                match status.context_window_used_tokens {
                    Some(t) => Some(t@),
                    None => None,
                },
            );
            let tail = status.header@ + taken + " · "@ + context;
            &&& status.shown().spans.len() == 1
            &&& status.shown().spans[0].style.add.dim
            &&& status.header_prefix is None ==> status.shown().spans[0].content == "• "@ + tail
            &&& status.header_prefix matches Some(prefix) ==> {
                &&& status.header_prefix_elapsed is None ==> status.shown().spans[0].content
                    == "• "@ + prefix@ + " · "@ + tail
                &&& status.header_prefix_elapsed matches Some(secs) ==> status.shown().spans[0].content
                    == "• "@ + prefix@ + " ("@ + elapsed_compact(secs as nat) + ")"@ + " · "@ + tail
            }
        }),
{
    let taken = " ("@ + elapsed_compact(status.elapsed as nat) + ")"@;
    let context = context_window_label(
        status.context_window_percent,
        match status.context_window_used_tokens {
            Some(t) => Some(t@),
            None => None,
        },
    );
    let tail = status.header@ + taken + " · "@ + context;
    let text = status.text();
    match status.header_prefix {
        None => {
            assert(text =~= "• "@ + tail);
        },
        Some(prefix) => match status.header_prefix_elapsed {
            None => {
                assert(text =~= "• "@ + prefix@ + " · "@ + tail);
            },
            Some(secs) => {
                assert(text =~= "• "@ + prefix@ + " ("@ + elapsed_compact(secs as nat) + ")"@
                    + " · "@ + tail);
            },
        },
    }
}

} // verus!
