//! Display widths and word wrapping.

use vstd::prelude::*;

use crate::styled::{Line, LineV, SpanV};
use crate::text;

use unicode_width::{UnicodeWidthChar, UnicodeWidthStr};

verus! {

/// The number of terminal columns that `unicode_width` gives the string `s`.
pub uninterp spec fn str_width(s: Seq<char>) -> usize;

/// The number of terminal columns that `unicode_width` gives the character `c`,
/// or nothing for a control character.
pub uninterp spec fn char_width(c: char) -> Option<usize>;

/// The lines that `textwrap` breaks `s` into at `width` columns.
pub uninterp spec fn wrapped(s: Seq<char>, width: usize) -> Seq<Seq<char>>;

/// Whether `c` is a printable ASCII character.
pub open spec fn is_printable_ascii(c: char) -> bool {
    0x20 <= c as u32 <= 0x7e
}

/// Whether `s` holds printable ASCII characters only, each of which takes one
/// column.
pub open spec fn is_plain_text(s: Seq<char>) -> bool {
    forall|i: int| 0 <= i < s.len() ==> is_printable_ascii(#[trigger] s[i])
}

/// The columns that `s` takes: one for each character where all of them are
/// printable ASCII, else what `unicode_width` says.
pub open spec fn columns(s: Seq<char>) -> int {
    if is_plain_text(s) {
        s.len() as int
    } else {
        str_width(s) as int
    }
}

/// Whether `c` is a control character.
pub open spec fn is_control(c: char) -> bool {
    let n = c as u32;
    n < 0x20 || 0x7f <= n < 0xa0
}

/// Calls `unicode_width::UnicodeWidthStr::width`. The result depends on the
/// string alone; a string of printable ASCII characters takes one column for
/// each of them.
#[verifier::external_body]
pub(crate) fn width_of(s: &str) -> (w: usize)
    ensures
        w == str_width(s@),
        is_plain_text(s@) ==> w == s@.len(),
{
    UnicodeWidthStr::width(s)
}

/// Calls `unicode_width::UnicodeWidthChar::width`. The result depends on the
/// character alone and is at most three columns; a printable ASCII character
/// takes one column; exactly the control characters (below U+0020 and from
/// U+007F up to but not including U+00A0) have no width.
#[verifier::external_body]
pub(crate) fn width_of_char(c: char) -> (w: Option<usize>)
    ensures
        w == char_width(c),
        w is None <==> is_control(c),
        w matches Some(n) ==> n <= 3,
        is_printable_ascii(c) ==> w == Some(1usize),
{
    UnicodeWidthChar::width(c)
}

/// Calls `textwrap::wrap`, which breaks a text into lines of at most the given
/// width where that is possible. The result depends on the text and the width
/// alone.
#[verifier::external_body]
pub(crate) fn wrap_text(s: &str, width: usize) -> (r: Vec<String>)
    ensures
        text::texts(r@) == wrapped(s@, width),
{
    textwrap::wrap(s, width).into_iter().map(|line| line.into_owned()).collect()
}

/// The columns that `spans` take together.
pub open spec fn spans_width(spans: Seq<SpanV>) -> nat
    decreases spans.len(),
{
    if spans.len() == 0 {
        0
    } else {
        let sum = spans_width(spans.drop_last()) + str_width(spans.last().content) as nat;
        if sum <= usize::MAX {
            sum
        } else {
            usize::MAX as nat
        }
    }
}

/// The columns that `line` takes; the count stops at the largest `usize`.
pub open spec fn line_width(line: LineV) -> nat {
    spans_width(line.spans)
}

/// The columns that `line` takes; the count stops at the largest `usize`.
pub fn width_of_line(line: &Line) -> (w: usize)
    ensures
        w == line_width(line@),
{
    let mut w: usize = 0;
    let mut i: usize = 0;
    assert(line@.spans.take(0) =~= seq![]);
    while i < line.spans.len()
        invariant
            i <= line.spans@.len(),
            w == spans_width(line@.spans.take(i as int)),
        decreases line.spans@.len() - i,
    {
        let add: usize = width_of(line.spans[i].content.as_str());
        w = w.saturating_add(add);
        proof {
            let next = line@.spans.take(i + 1);
            assert(next.drop_last() =~= line@.spans.take(i as int));
            assert(next.last() == line.spans@[i as int]@);
        }
        i += 1;
    }
    assert(line@.spans.take(i as int) =~= line@.spans);
    w
}

} // verus!
