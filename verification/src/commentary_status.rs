//! A short status out of the agent's commentary.

use vstd::prelude::*;

use crate::reasoning_status::{extract_first_bold, first_bold, opt_text};
use crate::text;

verus! {

/// The first of `lines` that is not blank, without the whitespace around it.
pub open spec fn first_text_line(lines: Seq<Seq<char>>) -> Option<Seq<char>>
    decreases lines.len(),
{
    if lines.len() == 0 {
        None
    } else if text::trim(lines[0]).len() > 0 {
        Some(text::trim(lines[0]))
    } else {
        first_text_line(lines.drop_first())
    }
}

/// The status that a message gives, a single line: the first line that is not blank
/// of its first bold span, or else of the whole.
pub open spec fn commentary_header(message: Seq<char>) -> Option<Seq<char>> {
    let trimmed = text::trim(message);
    match first_bold(trimmed) {
        Some(header) => first_text_line(text::lines(header)),
        None => first_text_line(text::lines(trimmed)),
    }
}

proof fn lemma_first_text_line(lines: Seq<Seq<char>>)
    requires
        forall|i: int| 0 <= i < lines.len() ==> !(#[trigger] lines[i]).contains('\n'),
    ensures
        first_text_line(lines) matches Some(line) ==> !line.contains('\n') && line.len() > 0
            && text::trim(line) == line,
    decreases lines.len(),
{
    if lines.len() > 0 {
        if text::trim(lines[0]).len() > 0 {
            text::lemma_trim_holds_only_its_own(lines[0], '\n');
            text::lemma_trim_is_stable(lines[0]);
        } else {
            lemma_first_text_line(lines.drop_first());
        }
    }
}

/// A status is a single line that is not blank, without whitespace around it.
pub proof fn law_status_is_a_single_line(message: Seq<char>)
    ensures
        commentary_header(message) matches Some(header) ==> !header.contains('\n') && header.len()
            > 0 && text::trim(header) == header,
{
    let trimmed = text::trim(message);
    text::lemma_lines_hold_no_line_feed(trimmed);
    lemma_first_text_line(text::lines(trimmed));
    if let Some(header) = first_bold(trimmed) {
        text::lemma_lines_hold_no_line_feed(header);
        lemma_first_text_line(text::lines(header));
    }
}

fn first_line_with_text(s: &str) -> (r: Option<String>)
    ensures
        opt_text(r) == first_text_line(text::lines(s@)),
{
    let lines = text::split_lines(s);
    let ghost all = text::lines(s@);
    let mut i: usize = 0;
    assert(all.skip(0) =~= all);
    while i < lines.len()
        invariant
            i <= lines@.len(),
            all == text::texts(lines@),
            all == text::lines(s@),
            first_text_line(all.skip(i as int)) == first_text_line(all),
        decreases lines@.len() - i,
    {
        let ghost rest = all.skip(i as int);
        assert(rest[0] == lines@[i as int]@);
        assert(rest.drop_first() =~= all.skip(i + 1));
        let line = lines[i].as_str().trim();
        if !line.is_empty() {
            return Some(line.to_string());
        }
        assert(line@.len() == 0);
        i += 1;
    }
    assert(all.skip(i as int).len() == 0);
    None
}

/// The status that `message` gives.
pub fn status_header_from_commentary(message: &str) -> (r: Option<String>)
    ensures
        opt_text(r) == commentary_header(message@),
        opt_text(r) matches Some(header) ==> !header.contains('\n'),
{
    proof {
        law_status_is_a_single_line(message@);
    }
    let trimmed = message.trim();
    match extract_first_bold(trimmed) {
        Some(header) => first_line_with_text(header.as_str()),
        None => first_line_with_text(trimmed),
    }
}

/// The status is the first line that is not blank: every line before it is.
pub proof fn law_status_is_the_first_line_with_text(lines: Seq<Seq<char>>, i: int)
    requires
        0 <= i < lines.len(),
        text::trim(lines[i]).len() > 0,
        forall|k: int| 0 <= k < i ==> text::trim(#[trigger] lines[k]).len() == 0,
    ensures
        first_text_line(lines) == Some(text::trim(lines[i])),
    decreases i,
{
    if i > 0 {
        let rest = lines.drop_first();
        assert(text::trim(lines[0]).len() == 0);
        assert forall|k: int| 0 <= k < i - 1 implies text::trim(#[trigger] rest[k]).len() == 0 by {
            assert(rest[k] == lines[k + 1]);
        }
        law_status_is_the_first_line_with_text(rest, i - 1);
    }
}

/// A message with a bold span gives a line of that span, whatever else it says, and a
/// message without one gives a line of its own.
pub proof fn law_bold_words_come_first(message: Seq<char>)
    ensures
        first_bold(text::trim(message)) matches Some(title) ==> !title.contains('\n')
            ==> commentary_header(message) == Some(title),
        first_bold(text::trim(message)) is None ==> commentary_header(message) == first_text_line(
            text::lines(text::trim(message)),
        ),
{
    if let Some(title) = first_bold(text::trim(message)) {
        if !title.contains('\n') {
            lemma_first_bold_is_trimmed(text::trim(message));
            text::lemma_first_index_of(title, '\n');
            assert(text::lines(title) == seq![title]);
            law_status_is_the_first_line_with_text(seq![title], 0);
        }
    }
}

proof fn lemma_first_bold_is_trimmed(s: Seq<char>)
    requires
        first_bold(s) is Some,
    ensures
        first_bold(s)->0.len() > 0,
        text::trim(first_bold(s)->0) == first_bold(s)->0,
{
    let m = crate::reasoning_status::bold_marker();
    let open = text::find(s, m)->0 as int;
    let inner = s.skip(open + 2);
    let close = text::find(inner, m)->0 as int;
    text::lemma_trim_is_stable(inner.take(close));
}

} // verus!
