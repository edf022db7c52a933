//! The messages that wait while the agent works.

use vstd::prelude::*;

use crate::styled::{line_v, lines_view, span_v, Line, LineV, Span, SpanV, Style};
use crate::text;

verus! {

/// The messages that wait.
#[derive(Debug)]
pub struct QueuedUserMessages {
    pub messages: Vec<String>,
}

/// The lines of a message before they are wrapped: dim and slanted.
pub open spec fn message_lines_v(message: Seq<char>) -> Seq<LineV> {
    text::lines(message).map_values(
        |line: Seq<char>| line_v(seq![span_v(line, Style::plain().spec_dim().spec_italic())]),
    )
}

/// The lines of a message before they are wrapped.
pub fn message_lines(message: &str) -> (r: Vec<Line>)
    ensures
        lines_view(r@) == message_lines_v(message@),
{
    let lines = text::split_lines(message);
    let ghost want = message_lines_v(message@);
    let mut out: Vec<Line> = Vec::new();
    let mut i: usize = 0;
    while i < lines.len()
        invariant
            i <= lines@.len(),
            text::texts(lines@) == text::lines(message@),
            want == message_lines_v(message@),
            out@.len() == i,
            forall|k: int| 0 <= k < i ==> (#[trigger] out@[k])@ == want[k],
        decreases lines@.len() - i,
    {
        let mut spans: Vec<Span> = Vec::new();
        spans.push(Span::of(lines[i].as_str(), Style::new().dim().italic()));
        let line = Line::from_spans(spans);
        proof {
            assert(text::texts(lines@)[i as int] == lines@[i as int]@);
            assert(line@.spans =~= want[i as int].spans);
        }
        out.push(line);
        i += 1;
    }
    assert(text::texts(lines@).len() == lines@.len());
    assert(lines_view(out@) =~= want);
    out
}

/// What is shown of a message that was wrapped into `wrapped`: at most three
/// lines, and a mark where there are more.
pub open spec fn shortened(wrapped: Seq<LineV>) -> Seq<LineV> {
    if wrapped.len() > 3 {
        wrapped.take(3).push(
            line_v(seq![span_v("    …"@, Style::plain().spec_dim().spec_italic())]),
        )
    } else {
        wrapped
    }
}

/// What is shown of all messages, one after the other.
pub open spec fn all_shortened(wrapped: Seq<Seq<LineV>>) -> Seq<LineV>
    decreases wrapped.len(),
{
    if wrapped.len() == 0 {
        seq![]
    } else {
        all_shortened(wrapped.drop_last()) + shortened(wrapped.last())
    }
}

/// The line that names the key for editing, given how the key is shown.
pub open spec fn edit_line(key: SpanV) -> LineV {
    LineV {
        style: Style::plain().spec_dim(),
        spans: seq![span_v("    "@, Style::plain()), key, span_v(" edit"@, Style::plain())],
    }
}

/// What the messages that were wrapped are.
pub open spec fn wrapped_view(wrapped: Seq<Vec<Line>>) -> Seq<Seq<LineV>> {
    wrapped.map_values(|lines: Vec<Line>| lines_view(lines@))
}

fn shorten(wrapped: &Vec<Line>) -> (r: Vec<Line>)
    ensures
        lines_view(r@) == shortened(lines_view(wrapped@)),
{
    let ghost all = lines_view(wrapped@);
    assert(all.len() == wrapped@.len());
    let n: usize = if wrapped.len() > 3 { 3 } else { wrapped.len() };
    let mut out: Vec<Line> = Vec::new();
    let mut i: usize = 0;
    while i < n
        invariant
            i <= n <= wrapped@.len(),
            all == lines_view(wrapped@),
            out@.len() == i,
            forall|k: int| 0 <= k < i ==> (#[trigger] out@[k])@ == all[k],
        decreases n - i,
    {
        out.push(wrapped[i].duplicate());
        i += 1;
    }
    assert(lines_view(out@) =~= all.take(n as int));
    assert(all.take(all.len() as int) =~= all);
    if wrapped.len() > 3 {
        let mut spans: Vec<Span> = Vec::new();
        spans.push(Span::of("    …", Style::new().dim().italic()));
        let more = Line::from_spans(spans);
        assert(more@.spans =~= seq![span_v("    …"@, Style::plain().spec_dim().spec_italic())]);
        out.push(more);
        assert(lines_view(out@) =~= shortened(all));
    }
    out
}

impl QueuedUserMessages {
    /// No messages.
    pub fn new() -> (r: Self)
        ensures
            r.messages@.len() == 0,
    {
        QueuedUserMessages { messages: Vec::new() }
    }

    /// What is shown in `width` columns: nothing where no message waits or there
    /// is no room. `wrapped` holds the lines of each message, wrapped, and
    /// `edit_key` how the key for editing is shown.
    pub fn lines(&self, width: u16, wrapped: &Vec<Vec<Line>>, edit_key: Span) -> (r: Vec<Line>)
        requires
            wrapped@.len() == self.messages@.len(),
        ensures
            lines_view(r@) == if self.messages@.len() == 0 || width < 4 {
                seq![]
            } else {
                all_shortened(wrapped_view(wrapped@)).push(edit_line(edit_key@))
            },
    {
        let ghost want = edit_line(edit_key@);
        let mut out: Vec<Line> = Vec::new();
        assert(lines_view(out@) =~= seq![]);
        if self.messages.len() == 0 || width < 4 {
            return out;
        }
        let ghost all = wrapped_view(wrapped@);
        let mut i: usize = 0;
        assert(all.take(0) =~= seq![]);
        while i < wrapped.len()
            invariant
                i <= wrapped@.len(),
                all == wrapped_view(wrapped@),
                lines_view(out@) == all_shortened(all.take(i as int)),
            decreases wrapped@.len() - i,
        {
            let ghost before = lines_view(out@);
            let mut part = shorten(&wrapped[i]);
            let ghost added = lines_view(part@);
            out.append(&mut part);
            proof {
                assert(lines_view(out@) =~= before + added);
                assert(all.take(i + 1).drop_last() =~= all.take(i as int));
                assert(all.take(i + 1).last() == lines_view(wrapped@[i as int]@));
            }
            i += 1;
        }
        assert(all.take(i as int) =~= all);
        let ghost before = lines_view(out@);
        let mut spans: Vec<Span> = Vec::new();
        spans.push(Span::plain("    "));
        spans.push(edit_key);
        spans.push(Span::plain(" edit"));
        let mut line = Line::from_spans(spans);
        line.style = line.style.dim();
        assert(line@.spans =~= want.spans);
        out.push(line);
        assert(lines_view(out@) =~= before.push(want));
        out
    }
}

/// A message never takes more than four rows.
pub proof fn law_message_takes_four_rows(wrapped: Seq<LineV>)
    ensures
        shortened(wrapped).len() <= 4,
        wrapped.len() <= 3 ==> shortened(wrapped) == wrapped,
{
}

/// Of a message that takes more than three rows the first three are shown, and a mark
/// below them; every line of a message is shown as it is, dim and slanted.
pub proof fn law_long_message_is_cut(wrapped: Seq<LineV>, message: Seq<char>, i: int)
    ensures
        wrapped.len() > 3 ==> shortened(wrapped).len() == 4 && shortened(wrapped).take(3)
            == wrapped.take(3) && shortened(wrapped)[3].spans[0].content == "    …"@,
        message_lines_v(message).len() == text::lines(message).len(),
        0 <= i < text::lines(message).len() ==> message_lines_v(message)[i].spans.len() == 1
            && message_lines_v(message)[i].spans[0].content == text::lines(message)[i]
            && message_lines_v(message)[i].spans[0].style.add.dim
            && message_lines_v(message)[i].spans[0].style.add.italic,
{
    if wrapped.len() > 3 {
        assert(shortened(wrapped).take(3) =~= wrapped.take(3));
    }
}

/// All messages that wait are shown, one below the other in their order.
pub proof fn law_all_messages_are_shown(wrapped: Seq<Seq<LineV>>, m: int)
    requires
        0 <= m < wrapped.len(),
    ensures
        ({
            let before = all_shortened(wrapped.take(m)).len() as int;
            let rows = shortened(wrapped[m]).len() as int;
            &&& before + rows <= all_shortened(wrapped).len()
            &&& all_shortened(wrapped).subrange(before, before + rows) == shortened(wrapped[m])
            &&& m == wrapped.len() - 1 ==> before + rows == all_shortened(wrapped).len()
        }),
    decreases wrapped.len(),
{
    let rest = wrapped.drop_last();
    let before = all_shortened(wrapped.take(m)).len() as int;
    let rows = shortened(wrapped[m]).len() as int;
    if m == wrapped.len() - 1 {
        assert(wrapped.take(m) =~= rest);
        assert(all_shortened(wrapped).subrange(before, before + rows) =~= shortened(wrapped[m]));
    } else {
        law_all_messages_are_shown(rest, m);
        assert(rest.take(m) =~= wrapped.take(m));
        assert(all_shortened(wrapped).subrange(before, before + rows) =~= all_shortened(
            rest,
        ).subrange(before, before + rows));
    }
}

/// The last line names the key that edits.
pub proof fn law_edit_key_is_named(key: SpanV)
    ensures
        edit_line(key).spans.len() == 3,
        edit_line(key).spans[1] == key,
        edit_line(key).spans[2].content == " edit"@,
{
}

} // verus!
