//! Where words begin and end in the text that the user writes.
//!
//! Besides the boundaries of the segmenter, a fixed set of separators ends
//! words. Several of the same separator make one segment, different ones do not.

use vstd::prelude::*;

use icu_segmenter::options::WordBreakInvariantOptions;
use icu_segmenter::WordSegmenter;

use crate::text;
use crate::utf8::{
    byte_len, byte_len_of, char_len, char_len_v, is_boundary, lemma_byte_len_add,
    lemma_byte_len_grows, lemma_byte_len_next,
};

verus! {

/// The characters that end a word besides what the segmenter finds.
pub const WORD_SEPARATORS: &'static str = "`~!@#$%^&*()-=+[{]}\\|;:'\",.<>/?";

/// What a character is to a word.
#[derive(Clone, Copy, PartialEq, Eq, Structural, Debug)]
pub enum CharClass {
    Whitespace,
    Separator(char),
    Word,
}

/// What `c` is to a word.
pub open spec fn class_v(c: char) -> CharClass {
    if text::is_whitespace(c) {
        CharClass::Whitespace
    } else if WORD_SEPARATORS@.contains(c) {
        CharClass::Separator(c)
    } else {
        CharClass::Word
    }
}

/// What `c` is to a word.
pub fn class_of(c: char) -> (r: CharClass)
    ensures
        r == class_v(c),
{
    if c.is_whitespace() {
        return CharClass::Whitespace;
    }
    let separators = text::chars_of(WORD_SEPARATORS);
    let mut i: usize = 0;
    while i < separators.len()
        invariant
            i <= separators@.len(),
            separators@ == WORD_SEPARATORS@,
            !text::is_whitespace(c),
            forall|k: int| 0 <= k < i ==> separators@[k] != c,
        decreases separators@.len() - i,
    {
        if separators[i] == c {
            assert(WORD_SEPARATORS@.contains(c));
            return CharClass::Separator(c);
        }
        i += 1;
    }
    CharClass::Word
}

/// A piece of a text between two bytes.
#[derive(Clone, Copy, PartialEq, Eq, Structural, Debug)]
pub struct Segment {
    pub start: usize,
    pub end: usize,
    pub is_whitespace: bool,
}

/// What a [`Segment`] is.
#[verifier::ext_equal]
pub struct SegmentV {
    pub start: int,
    pub end: int,
    pub is_whitespace: bool,
}

/// What the segments of a list are.
pub open spec fn segments_view(segments: Seq<Segment>) -> Seq<SegmentV> {
    segments.map_values(
        |s: Segment|
            SegmentV { start: s.start as int, end: s.end as int, is_whitespace: s.is_whitespace },
    )
}

/// The bytes at which the segmenter breaks a text.
pub uninterp spec fn word_breaks(s: Seq<char>) -> Seq<usize>;

/// Calls `WordSegmenterBorrowed::segment_str` of the segmenter that
/// `WordSegmenter::new_auto` gives. The breaks depend on the text alone; they come
/// in order, and each is the byte at which a character starts or the text ends.
#[verifier::external_body]
fn segment_words(s: &str) -> (r: Vec<usize>)
    ensures
        r@ == word_breaks(s@),
        forall|i: int, j: int| 0 <= i < j < r@.len() ==> (#[trigger] r@[i]) <= (#[trigger] r@[j]),
        forall|i: int| 0 <= i < r@.len() ==> is_boundary(s@, (#[trigger] r@[i]) as int),
{
    WordSegmenter::new_auto(WordBreakInvariantOptions::default()).segment_str(s).collect()
}

/// `breaks` with the start and the end of a text of `len` bytes among them.
pub open spec fn cuts(breaks: Seq<usize>, len: usize) -> Seq<usize> {
    let front = if breaks.len() > 0 && breaks[0] == 0 {
        breaks
    } else {
        seq![0usize] + breaks
    };
    if front.last() == len {
        front
    } else {
        front.push(len)
    }
}

/// The segments between the cuts of a text that starts at byte `base`.
pub open spec fn between_cuts(base: int, cuts: Seq<usize>) -> Seq<SegmentV>
    decreases cuts.len(),
{
    if cuts.len() < 2 {
        seq![]
    } else {
        let before = between_cuts(base, cuts.drop_last());
        let start = cuts[cuts.len() - 2];
        let end = cuts.last();
        if start < end {
            before.push(SegmentV { start: base + start, end: base + end, is_whitespace: false })
        } else {
            before
        }
    }
}

/// Whether `segments` follow each other without gaps from byte `from` to byte
/// `to`, and none is empty.
pub open spec fn fills(segments: Seq<SegmentV>, from: int, to: int) -> bool {
    &&& from == to ==> segments.len() == 0
    &&& from < to ==> segments.len() > 0 && segments[0].start == from && segments.last().end == to
    &&& forall|i: int| 0 <= i < segments.len() ==> (#[trigger] segments[i]).start < segments[i].end
    &&& forall|i: int|
        #![trigger segments[i + 1]]
        0 <= i && i + 1 < segments.len() ==> segments[i].end == segments[i + 1].start
}

/// Whether `breaks` come in order and lie in a text of `len` bytes.
pub open spec fn are_breaks(breaks: Seq<usize>, len: usize) -> bool {
    &&& forall|i: int, j: int|
        0 <= i < j < breaks.len() ==> (#[trigger] breaks[i]) <= (#[trigger] breaks[j])
    &&& forall|i: int| 0 <= i < breaks.len() ==> (#[trigger] breaks[i]) <= len
}

proof fn lemma_fills_push(segments: Seq<SegmentV>, from: int, mid: int, next: SegmentV)
    requires
        fills(segments, from, mid),
        from <= mid,
        next.start == mid,
        next.start < next.end,
    ensures
        fills(segments.push(next), from, next.end),
{
    let all = segments.push(next);
    assert forall|i: int| 0 <= i < all.len() implies (#[trigger] all[i]).start < all[i].end by {
        if i < segments.len() {
            assert(all[i] == segments[i]);
        }
    }
    assert forall|i: int|
        #![trigger all[i + 1]]
        0 <= i && i + 1 < all.len() implies all[i].end == all[i + 1].start by {
        if i + 1 < segments.len() {
            assert(all[i + 1] == segments[i + 1]);
            assert(all[i] == segments[i]);
        } else {
            assert(all[i] == segments.last());
        }
    }
}

proof fn lemma_fills_add(a: Seq<SegmentV>, b: Seq<SegmentV>, from: int, mid: int, to: int)
    requires
        from <= mid <= to,
        fills(a, from, mid),
        fills(b, mid, to),
    ensures
        fills(a + b, from, to),
{
    let all = a + b;
    if a.len() == 0 {
        assert(all =~= b);
    } else if b.len() == 0 {
        assert(all =~= a);
    } else {
        assert(all[0] == a[0]);
        assert(all.last() == b.last());
        assert forall|i: int| 0 <= i < all.len() implies (#[trigger] all[i]).start < all[i].end by {
            if i < a.len() {
                assert(all[i] == a[i]);
            } else {
                assert(all[i] == b[i - a.len()]);
            }
        }
        assert forall|i: int|
            #![trigger all[i + 1]]
            0 <= i && i + 1 < all.len() implies all[i].end == all[i + 1].start by {
            if i + 1 < a.len() {
                assert(all[i] == a[i] && all[i + 1] == a[i + 1]);
            } else if i + 1 == a.len() {
                assert(all[i] == a.last() && all[i + 1] == b[0]);
            } else {
                let k = i - a.len();
                assert(all[i] == b[k] && all[i + 1] == b[k + 1]);
            }
        }
    }
}

proof fn lemma_between_cuts(base: int, cuts: Seq<usize>)
    requires
        cuts.len() > 0,
        cuts[0] == 0,
        forall|i: int, j: int|
            0 <= i < j < cuts.len() ==> (#[trigger] cuts[i]) <= (#[trigger] cuts[j]),
    ensures
        fills(between_cuts(base, cuts), base, base + cuts.last()),
    decreases cuts.len(),
{
    if cuts.len() >= 2 {
        let init = cuts.drop_last();
        assert(init.last() == cuts[cuts.len() - 2]);
        lemma_between_cuts(base, init);
        let start = cuts[cuts.len() - 2];
        let end = cuts.last();
        assert(cuts[cuts.len() - 2] <= cuts[cuts.len() - 1]);
        if start < end {
            lemma_fills_push(
                between_cuts(base, init),
                base,
                base + start,
                SegmentV { start: base + start, end: base + end, is_whitespace: false },
            );
        }
    }
}

/// The segments of a piece of `len` bytes that starts at byte `base`, given the
/// bytes at which the segmenter breaks it.
pub fn segments_of_breaks(base: usize, breaks: Vec<usize>, len: usize) -> (r: Vec<Segment>)
    requires
        base + len <= usize::MAX,
        are_breaks(breaks@, len),
        len > 0,
    ensures
        segments_view(r@) == between_cuts(base as int, cuts(breaks@, len)),
        fills(segments_view(r@), base as int, base + len),
{
    let ghost all = cuts(breaks@, len);
    let mut points: Vec<usize> = breaks;
    if !(points.len() > 0 && points[0] == 0) {
        points.insert(0, 0);
        assert(points@ =~= seq![0usize] + breaks@);
    }
    if points[points.len() - 1] != len {
        points.push(len);
    }
    assert(points@ =~= all);
    proof {
        assert forall|i: int, j: int| 0 <= i < j < all.len() implies (#[trigger] all[i])
            <= (#[trigger] all[j]) by {
            let front = if breaks@.len() > 0 && breaks@[0] == 0 {
                breaks@
            } else {
                seq![0usize] + breaks@
            };
            let shift: int = front.len() - breaks@.len();
            if j < front.len() {
                assert(all[i] == front[i] && all[j] == front[j]);
                if i >= shift {
                    assert(front[i] == breaks@[i - shift] && front[j] == breaks@[j - shift]);
                }
            } else {
                assert(all[i] == front[i]);
                if i >= shift {
                    assert(front[i] == breaks@[i - shift]);
                }
            }
        }
        assert(all.last() == len);
        lemma_between_cuts(base as int, all);
    }
    let mut out: Vec<Segment> = Vec::new();
    let mut i: usize = 1;
    assert(all.take(1).len() == 1);
    assert(segments_view(out@) =~= between_cuts(base as int, all.take(1)));
    while i < points.len()
        invariant
            1 <= i <= points@.len(),
            points@ == all,
            base + len <= usize::MAX,
            all.len() > 0,
            all.last() == len,
            forall|i: int, j: int|
                0 <= i < j < all.len() ==> (#[trigger] all[i]) <= (#[trigger] all[j]),
            segments_view(out@) == between_cuts(base as int, all.take(i as int)),
        decreases points@.len() - i,
    {
        let ghost upto = all.take(i + 1);
        let ghost before = segments_view(out@);
        proof {
            assert(upto.drop_last() =~= all.take(i as int));
            assert(upto[upto.len() - 2] == all[i - 1]);
            assert(all[i - 1] <= all[i as int]);
            if i + 1 < all.len() {
                assert(all[i as int] <= all[all.len() - 1]);
            }
        }
        if points[i - 1] < points[i] {
            let start: usize = base + points[i - 1];
            let end: usize = base + points[i];
            out.push(Segment { start, end, is_whitespace: false });
            assert(segments_view(out@) =~= before.push(
                SegmentV { start: start as int, end: end as int, is_whitespace: false },
            ));
        }
        i += 1;
    }
    assert(all.take(i as int) =~= all);
    out
}

/// How many characters in front of `s` are of the class `class`.
pub open spec fn run_len(s: Seq<char>, class: CharClass) -> nat
    decreases s.len(),
{
    if s.len() > 0 && class_v(s[0]) == class {
        1 + run_len(s.drop_first(), class)
    } else {
        0
    }
}

/// The segments of a run of characters of one class that starts at byte `base`.
pub open spec fn run_segments(run: Seq<char>, class: CharClass, base: int) -> Seq<SegmentV> {
    match class {
        CharClass::Word => between_cuts(
            base,
            cuts(word_breaks(run), byte_len(run) as usize),
        ),
        _ => seq![
            SegmentV {
                start: base,
                end: base + byte_len(run),
                is_whitespace: class == CharClass::Whitespace,
            },
        ],
    }
}

/// The segments of a text that starts at byte `base`.
pub open spec fn segments_from(s: Seq<char>, base: int) -> Seq<SegmentV>
    decreases s.len(),
    via segments_from_decreases
{
    if s.len() == 0 {
        seq![]
    } else {
        let class = class_v(s[0]);
        let n = run_len(s, class) as int;
        run_segments(s.take(n), class, base) + segments_from(
            s.skip(n),
            base + byte_len(s.take(n)),
        )
    }
}

proof fn lemma_run_len_bound(s: Seq<char>, class: CharClass)
    ensures
        run_len(s, class) <= s.len(),
    decreases s.len(),
{
    if s.len() > 0 && class_v(s[0]) == class {
        lemma_run_len_bound(s.drop_first(), class);
    }
}

#[via_fn]
proof fn segments_from_decreases(s: Seq<char>, base: int) {
    if s.len() > 0 {
        lemma_run_len_bound(s, class_v(s[0]));
    }
}

proof fn lemma_run_len(s: Seq<char>, class: CharClass, n: int)
    requires
        0 <= n <= s.len(),
        forall|k: int| 0 <= k < n ==> class_v(#[trigger] s[k]) == class,
        n < s.len() ==> class_v(s[n]) != class,
    ensures
        run_len(s, class) == n,
    decreases s.len(),
{
    if s.len() > 0 && n > 0 {
        let rest = s.drop_first();
        assert forall|k: int| 0 <= k < n - 1 implies class_v(#[trigger] rest[k]) == class by {
            assert(rest[k] == s[k + 1]);
        }
        assert(class_v(s[0]) == class);
        lemma_run_len(rest, class, n - 1);
    }
}

/// Whether every segment starts and ends where a character of `s` does.
pub open spec fn at_boundaries(segments: Seq<SegmentV>, s: Seq<char>) -> bool {
    forall|i: int|
        0 <= i < segments.len() ==> is_boundary(s, (#[trigger] segments[i]).start) && is_boundary(
            s,
            segments[i].end,
        )
}

/// Segments between cuts that are boundaries of a piece are at boundaries of the
/// text around it.
proof fn lemma_cuts_at_boundaries(s: Seq<char>, from: int, to: int, cuts: Seq<usize>)
    requires
        0 <= from <= to <= s.len(),
        forall|i: int|
            0 <= i < cuts.len() ==> is_boundary(s.subrange(from, to), (#[trigger] cuts[i]) as int),
    ensures
        at_boundaries(between_cuts(byte_len(s.take(from)), cuts), s),
    decreases cuts.len(),
{
    if cuts.len() >= 2 {
        let init = cuts.drop_last();
        let base = byte_len(s.take(from));
        let before = between_cuts(base, init);
        let all = between_cuts(base, cuts);
        assert forall|i: int| 0 <= i < init.len() implies is_boundary(
            s.subrange(from, to),
            (#[trigger] init[i]) as int,
        ) by {
            assert(init[i] == cuts[i]);
        }
        lemma_cuts_at_boundaries(s, from, to, init);
        lemma_inner_boundary(s, from, to, cuts[cuts.len() - 2] as int);
        lemma_inner_boundary(s, from, to, cuts[cuts.len() - 1] as int);
        assert forall|i: int| 0 <= i < all.len() implies is_boundary(s, (#[trigger] all[i]).start)
            && is_boundary(s, all[i].end) by {
            if i < before.len() {
                assert(all[i] == before[i]);
            }
        }
    }
}

proof fn lemma_boundaries_add(a: Seq<SegmentV>, b: Seq<SegmentV>, s: Seq<char>)
    requires
        at_boundaries(a, s),
        at_boundaries(b, s),
    ensures
        at_boundaries(a + b, s),
{
    let all = a + b;
    assert forall|i: int| 0 <= i < all.len() implies is_boundary(s, (#[trigger] all[i]).start)
        && is_boundary(s, all[i].end) by {
        if i < a.len() {
            assert(all[i] == a[i]);
        } else {
            assert(all[i] == b[i - a.len()]);
        }
    }
}

proof fn lemma_inner_boundary(s: Seq<char>, from: int, to: int, n: int)
    requires
        0 <= from <= to <= s.len(),
        is_boundary(s.subrange(from, to), n),
    ensures
        is_boundary(s, byte_len(s.take(from)) + n),
{
    let run = s.subrange(from, to);
    let k = choose|k: int| 0 <= k <= run.len() && #[trigger] byte_len(run.take(k)) == n;
    assert(s.take(from + k) =~= s.take(from) + run.take(k));
    lemma_byte_len_add(s.take(from), run.take(k));
    assert(byte_len(s.take(from + k)) == byte_len(s.take(from)) + n);
}

/// The segments of `text`. They fill it without gaps, and each starts and ends
/// where a character does.
pub fn segments(text: &str) -> (r: Vec<Segment>)
    ensures
        segments_view(r@) == segments_from(text@, 0),
        fills(segments_view(r@), 0, byte_len(text@)),
        at_boundaries(segments_view(r@), text@),
{
    let chars = text::chars_of(text);
    let total: usize = byte_len_of(text);
    let mut out: Vec<Segment> = Vec::new();
    let mut i: usize = 0;
    let mut pos: usize = 0;
    assert(chars@.skip(0) =~= text@);
    assert(chars@.take(0) =~= seq![]);
    assert(segments_view(out@) =~= seq![]);
    assert(segments_view(out@) + segments_from(text@, 0) =~= segments_from(text@, 0));
    while i < chars.len()
        invariant
            i <= chars@.len(),
            chars@ == text@,
            total == byte_len(text@),
            pos == byte_len(chars@.take(i as int)),
            pos <= total,
            fills(segments_view(out@), 0, pos as int),
            at_boundaries(segments_view(out@), text@),
            segments_view(out@) + segments_from(chars@.skip(i as int), pos as int)
                == segments_from(text@, 0),
        decreases chars@.len() - i,
    {
        let ghost rest = chars@.skip(i as int);
        let class = class_of(chars[i]);
        let mut j: usize = i + 1;
        let mut end: usize = pos;
        proof {
            lemma_byte_len_next(chars@, i as int);
            assert(chars@.take(chars@.len() as int) =~= chars@);
        }
        end = end + char_len(chars[i]);
        while j < chars.len() && class_of(chars[j]) == class
            invariant
                i < j <= chars@.len(),
                chars@ == text@,
                total == byte_len(text@),
                end == byte_len(chars@.take(j as int)),
                end <= total,
                forall|k: int| i <= k < j ==> class_v(#[trigger] chars@[k]) == class,
            decreases chars@.len() - j,
        {
            proof {
                lemma_byte_len_next(chars@, j as int);
            }
            end = end + char_len(chars[j]);
            j += 1;
        }
        let ghost n = j - i;
        let ghost run = chars@.subrange(i as int, j as int);
        let ghost before = segments_view(out@);
        proof {
            assert forall|k: int| 0 <= k < n implies class_v(#[trigger] rest[k]) == class by {
                assert(rest[k] == chars@[i + k]);
            }
            lemma_run_len(rest, class, n);
            assert(rest.take(n) =~= run);
            assert(rest.skip(n) =~= chars@.skip(j as int));
            assert(chars@.take(j as int) =~= chars@.take(i as int) + run);
            lemma_byte_len_add(chars@.take(i as int), run);
            lemma_byte_len_grows(chars@, i as int, j as int);
            assert(rest[0] == chars@[i as int]);
        }
        match class {
            CharClass::Word => {
                let piece = text::string_of_range(&chars, i, j);
                let breaks = segment_words(piece.as_str());
                proof {
                    assert forall|k: int| 0 <= k < breaks@.len() implies (#[trigger] breaks@[k])
                        <= end - pos by {
                        assert(is_boundary(run, breaks@[k] as int));
                        let m = choose|m: int|
                            0 <= m <= run.len() && #[trigger] byte_len(run.take(m)) == breaks@[k];
                        lemma_byte_len_grows(run, m, run.len() as int);
                        assert(run.take(run.len() as int) =~= run);
                    }
                }
                let mut more = segments_of_breaks(pos, breaks, end - pos);
                let ghost added = segments_view(more@);
                out.append(&mut more);
                proof {
                    let points = cuts(word_breaks(run), (end - pos) as usize);
                    assert(run.take(0) =~= seq![]);
                    assert(byte_len(run.take(0)) == 0);
                    assert(run.take(run.len() as int) =~= run);
                    assert(byte_len(run.take(run.len() as int)) == end - pos);
                    assert forall|k: int| 0 <= k < points.len() implies is_boundary(
                        run,
                        (#[trigger] points[k]) as int,
                    ) by {
                        let front = if breaks@.len() > 0 && breaks@[0] == 0 {
                            breaks@
                        } else {
                            seq![0usize] + breaks@
                        };
                        let shift: int = front.len() - breaks@.len();
                        if k < front.len() {
                            assert(points[k] == front[k]);
                            if k >= shift {
                                assert(front[k] == breaks@[k - shift]);
                            }
                        }
                    }
                    lemma_cuts_at_boundaries(chars@, i as int, j as int, points);
                    assert(segments_view(out@) =~= before + added);
                    lemma_fills_add(before, added, 0, pos as int, end as int);
                    lemma_boundaries_add(before, added, text@);
                }
            },
            _ => {
                let is_whitespace = class == CharClass::Whitespace;
                out.push(Segment { start: pos, end, is_whitespace });
                proof {
                    let next = SegmentV { start: pos as int, end: end as int, is_whitespace };
                    assert(segments_view(out@) =~= before.push(next));
                    assert(before.push(next) =~= before + seq![next]);
                    lemma_fills_push(before, 0, pos as int, next);
                    assert(is_boundary(text@, byte_len(chars@.take(i as int))));
                    assert(is_boundary(text@, byte_len(chars@.take(j as int))));
                    lemma_boundaries_add(before, seq![next], text@);
                }
            },
        }
        proof {
            assert(segments_view(out@) == before + run_segments(run, class, pos as int));
            assert(segments_view(out@) + segments_from(chars@.skip(j as int), end as int)
                =~= before + segments_from(rest, pos as int));
        }
        i = j;
        pos = end;
    }
    proof {
        assert(chars@.take(i as int) =~= text@);
        assert(chars@.skip(i as int).len() == 0);
        assert(segments_view(out@) + segments_from(chars@.skip(i as int), pos as int)
            =~= segments_view(out@));
    }
    out
}

/// How many characters in front of `s` fit into `pos` bytes.
pub open spec fn fitting(s: Seq<char>, pos: int) -> nat
    decreases s.len(),
{
    if s.len() == 0 || char_len_v(s[0]) > pos {
        0
    } else {
        1 + fitting(s.drop_first(), pos - char_len_v(s[0]))
    }
}

/// The last boundary of a character at or before byte `pos`.
pub open spec fn clamped(s: Seq<char>, pos: int) -> int {
    byte_len(s.take(fitting(s, pos) as int))
}

/// The last boundary of a character at or before byte `pos`, and the boundary
/// before that.
fn clamp_pos_to_char_boundary(chars: &Vec<char>, pos: usize) -> (r: (usize, usize))
    ensures
        r.0 == clamped(chars@, pos as int),
        r.0 <= pos,
        fitting(chars@, pos as int) <= chars@.len(),
        fitting(chars@, pos as int) == 0 ==> r.1 == 0 && r.0 == 0,
        fitting(chars@, pos as int) > 0 ==> r.1 == byte_len(
            chars@.take(fitting(chars@, pos as int) - 1),
        ) && r.1 < r.0,
{
    let mut k: usize = 0;
    let mut at: usize = 0;
    let mut before: usize = 0;
    assert(chars@.skip(0) =~= chars@);
    assert(chars@.take(0) =~= seq![]);
    while k < chars.len() && char_len(chars[k]) <= pos - at
        invariant
            k <= chars@.len(),
            at <= pos,
            at == byte_len(chars@.take(k as int)),
            k > 0 ==> before == byte_len(chars@.take(k - 1)) && before < at,
            k == 0 ==> before == 0 && at == 0,
            fitting(chars@, pos as int) == k + fitting(chars@.skip(k as int), pos - at),
        decreases chars@.len() - k,
    {
        proof {
            let rest = chars@.skip(k as int);
            assert(rest.drop_first() =~= chars@.skip(k + 1));
            assert(rest[0] == chars@[k as int]);
            lemma_byte_len_next(chars@, k as int);
        }
        before = at;
        at = at + char_len(chars[k]);
        k += 1;
    }
    proof {
        let rest = chars@.skip(k as int);
        if k < chars@.len() {
            assert(rest[0] == chars@[k as int]);
        }
    }
    (at, before)
}

/// Whether a segment holds byte `pos`.
pub open spec fn holds(segment: SegmentV, pos: int) -> bool {
    segment.start <= pos < segment.end
}

/// The first of `segments` that holds byte `pos`.
pub open spec fn first_holding(segments: Seq<SegmentV>, pos: int) -> Option<int> {
    if exists|i: int| is_first_holding(segments, pos, i) {
        Some(choose|i: int| is_first_holding(segments, pos, i))
    } else {
        None
    }
}

/// Whether the segment at `i` is the first that holds byte `pos`.
pub open spec fn is_first_holding(segments: Seq<SegmentV>, pos: int, i: int) -> bool {
    &&& 0 <= i < segments.len()
    &&& holds(segments[i], pos)
    &&& forall|k: int| 0 <= k < i ==> !holds(#[trigger] segments[k], pos)
}

/// The start of the last word up to the segment at `i`, or the start of the text.
pub open spec fn word_start_back(segments: Seq<SegmentV>, i: int) -> int
    decreases i + 1,
{
    if i < 0 {
        0
    } else if !segments[i].is_whitespace {
        segments[i].start
    } else {
        word_start_back(segments, i - 1)
    }
}

/// The start of the word that the character at byte `probe` belongs to, or of the
/// last word before it.
pub open spec fn previous_start(segments: Seq<SegmentV>, probe: int) -> int {
    match first_holding(segments, probe) {
        Some(i) => word_start_back(segments, i),
        None => 0,
    }
}

proof fn lemma_first_holding(segments: Seq<SegmentV>, pos: int, i: int)
    requires
        is_first_holding(segments, pos, i),
    ensures
        first_holding(segments, pos) == Some(i),
{
    let c = choose|c: int| is_first_holding(segments, pos, c);
    assert(is_first_holding(segments, pos, c));
    if c < i {
        assert(!holds(segments[c], pos));
    } else if i < c {
        assert(!holds(segments[i], pos));
    }
}

/// The start of the word that the character at byte `probe` belongs to, or of the
/// last word before it.
pub fn previous_word_start(segments: &Vec<Segment>, probe: usize) -> (r: usize)
    ensures
        r == previous_start(segments_view(segments@), probe as int),
{
    let ghost all = segments_view(segments@);
    let mut i: usize = 0;
    while i < segments.len()
        invariant
            i <= segments@.len(),
            all == segments_view(segments@),
            forall|k: int| 0 <= k < i ==> !holds(#[trigger] all[k], probe as int),
        decreases segments@.len() - i,
    {
        if segments[i].start <= probe && probe < segments[i].end {
            proof {
                assert(holds(all[i as int], probe as int));
                lemma_first_holding(all, probe as int, i as int);
            }
            let mut at: usize = i;
            while segments[at].is_whitespace
                invariant
                    at < segments@.len(),
                    all == segments_view(segments@),
                    word_start_back(all, at as int) == previous_start(all, probe as int),
                decreases at,
            {
                if at == 0 {
                    assert(word_start_back(all, -1) == 0);
                    return 0;
                }
                at -= 1;
            }
            return segments[at].start;
        }
        i += 1;
    }
    proof {
        assert forall|k: int| !is_first_holding(all, probe as int, k) by {
            if 0 <= k < all.len() {
                assert(!holds(all[k], probe as int));
            }
        }
    }
    0
}

/// Where the word that ends next ends, looking from the segment at `i` on; the
/// end of the text where there is none.
pub open spec fn word_end_ahead(segments: Seq<SegmentV>, i: int, len: int) -> int
    decreases segments.len() - i,
{
    if i >= segments.len() {
        len
    } else if !segments[i].is_whitespace {
        segments[i].end
    } else {
        word_end_ahead(segments, i + 1, len)
    }
}

/// How many of `segments` end at or before byte `pos`.
pub open spec fn ended_before(segments: Seq<SegmentV>, pos: int) -> nat
    decreases segments.len(),
{
    if segments.len() == 0 || segments[0].end > pos {
        0
    } else {
        1 + ended_before(segments.drop_first(), pos)
    }
}

/// The end of the word that byte `cursor` lies in, or of the next word.
pub open spec fn next_end(segments: Seq<SegmentV>, cursor: int, len: int) -> int {
    word_end_ahead(segments, ended_before(segments, cursor) as int, len)
}

/// The end of the word that byte `cursor` lies in, or of the next word; `len` is
/// the length of the text.
pub fn next_word_end(segments: &Vec<Segment>, cursor: usize, len: usize) -> (r: usize)
    ensures
        r == next_end(segments_view(segments@), cursor as int, len as int),
{
    let ghost all = segments_view(segments@);
    let mut i: usize = 0;
    assert(all.skip(0) =~= all);
    while i < segments.len() && segments[i].end <= cursor
        invariant
            i <= segments@.len(),
            all == segments_view(segments@),
            ended_before(all, cursor as int) == i + ended_before(
                all.skip(i as int),
                cursor as int,
            ),
        decreases segments@.len() - i,
    {
        assert(all.skip(i as int).drop_first() =~= all.skip(i + 1));
        assert(all.skip(i as int)[0] == all[i as int]);
        i += 1;
    }
    proof {
        if i < segments@.len() {
            assert(all.skip(i as int)[0] == all[i as int]);
        }
        assert(ended_before(all.skip(i as int), cursor as int) == 0);
    }
    while i < segments.len()
        invariant
            i <= segments@.len(),
            all == segments_view(segments@),
            word_end_ahead(all, i as int, len as int) == next_end(all, cursor as int, len as int),
        decreases segments@.len() - i,
    {
        if !segments[i].is_whitespace {
            return segments[i].end;
        }
        i += 1;
    }
    len
}

proof fn lemma_starts_after(segments: Seq<SegmentV>, from: int, to: int, i: int)
    requires
        fills(segments, from, to),
        from < to,
        0 <= i < segments.len(),
    ensures
        from <= segments[i].start,
    decreases i,
{
    if i > 0 {
        lemma_starts_after(segments, from, to, i - 1);
        assert(segments[i - 1].end == segments[(i - 1) + 1].start);
    }
}

proof fn lemma_ends_before(segments: Seq<SegmentV>, from: int, to: int, i: int)
    requires
        fills(segments, from, to),
        from < to,
        0 <= i < segments.len(),
    ensures
        segments[i].end <= to,
    decreases segments.len() - i,
{
    if i + 1 < segments.len() {
        lemma_ends_before(segments, from, to, i + 1);
        assert(segments[i].end == segments[i + 1].start);
    }
}

proof fn lemma_word_start_back(segments: Seq<SegmentV>, to: int, i: int)
    requires
        fills(segments, 0, to),
        0 < to,
        0 <= i < segments.len(),
    ensures
        0 <= word_start_back(segments, i) <= segments[i].start,
        word_start_back(segments, i) == 0 || exists|k: int|
            0 <= k <= i && (#[trigger] segments[k]).start == word_start_back(segments, i),
    decreases i,
{
    lemma_starts_after(segments, 0, to, i);
    assert(word_start_back(segments, -1) == 0);
    if segments[i].is_whitespace && i > 0 {
        lemma_word_start_back(segments, to, i - 1);
        assert(segments[i - 1].end == segments[(i - 1) + 1].start);
    }
}

proof fn lemma_word_end_ahead(segments: Seq<SegmentV>, to: int, i: int)
    requires
        fills(segments, 0, to),
        0 < to,
        0 <= i < segments.len(),
    ensures
        segments[i].end <= word_end_ahead(segments, i, to) <= to,
        word_end_ahead(segments, i, to) == to || exists|k: int|
            i <= k < segments.len() && (#[trigger] segments[k]).end == word_end_ahead(
                segments,
                i,
                to,
            ),
    decreases segments.len() - i,
{
    lemma_ends_before(segments, 0, to, i);
    assert(word_end_ahead(segments, segments.len() as int, to) == to);
    if segments[i].is_whitespace && i + 1 < segments.len() {
        lemma_word_end_ahead(segments, to, i + 1);
        assert(segments[i].end == segments[i + 1].start);
    }
}

proof fn lemma_ended_before(segments: Seq<SegmentV>, pos: int)
    ensures
        ended_before(segments, pos) <= segments.len(),
        ended_before(segments, pos) < segments.len() ==> segments[ended_before(
            segments,
            pos,
        ) as int].end > pos,
        forall|k: int|
            0 <= k < ended_before(segments, pos) ==> (#[trigger] segments[k]).end <= pos,
    decreases segments.len(),
{
    if segments.len() > 0 && segments[0].end <= pos {
        let rest = segments.drop_first();
        lemma_ended_before(rest, pos);
        assert forall|k: int| 0 <= k < ended_before(segments, pos) implies (
        #[trigger] segments[k]).end <= pos by {
            if k > 0 {
                assert(segments[k] == rest[k - 1]);
            }
        }
    }
}

/// The byte at which the previous word starts: the word that ends at or before
/// the cursor, or that the cursor lies in. It lies before the cursor unless that
/// stands at the start of the text.
pub fn beginning_of_previous_word(text: &str, cursor_pos: usize) -> (r: usize)
    ensures
        ({
            let k = fitting(text@, cursor_pos as int);
            r == if k == 0 {
                0
            } else {
                previous_start(segments_from(text@, 0), byte_len(text@.take(k - 1)))
            }
        }),
        r <= clamped(text@, cursor_pos as int),
        clamped(text@, cursor_pos as int) > 0 ==> r < clamped(text@, cursor_pos as int),
        is_boundary(text@, r as int),
{
    let chars = text::chars_of(text);
    let (cursor, probe) = clamp_pos_to_char_boundary(&chars, cursor_pos);
    let ghost k = fitting(text@, cursor_pos as int) as int;
    proof {
        assert(text@.take(0) =~= seq![]);
        assert(is_boundary(text@, byte_len(text@.take(0))));
    }
    if cursor == 0 {
        proof {
            if k > 0 {
                lemma_byte_len_grows(text@, 0, k);
            }
        }
        return 0;
    }
    let all = segments(text);
    let start = previous_word_start(&all, probe);
    proof {
        let segs = segments_view(all@);
        let total = byte_len(text@);
        lemma_byte_len_grows(text@, k, text@.len() as int);
        assert(text@.take(text@.len() as int) =~= text@);
        if let Some(i) = first_holding(segs, probe as int) {
            let c = choose|c: int| is_first_holding(segs, probe as int, c);
            assert(is_first_holding(segs, probe as int, c));
            lemma_word_start_back(segs, total, i);
        }
    }
    start
}

/// The byte at which the next word ends: the word that the cursor lies in, or
/// that starts at or behind it. It lies behind the cursor unless that stands at
/// the end of the text.
pub fn end_of_next_word(text: &str, cursor_pos: usize) -> (r: usize)
    ensures
        ({
            let cursor = clamped(text@, cursor_pos as int);
            r == if cursor >= byte_len(text@) {
                byte_len(text@)
            } else {
                next_end(segments_from(text@, 0), cursor, byte_len(text@))
            }
        }),
        r <= byte_len(text@),
        clamped(text@, cursor_pos as int) < byte_len(text@) ==> r > clamped(
            text@,
            cursor_pos as int,
        ),
        is_boundary(text@, r as int),
{
    let chars = text::chars_of(text);
    proof {
        assert(text@.take(text@.len() as int) =~= text@);
        assert(is_boundary(text@, byte_len(text@.take(text@.len() as int))));
    }
    let (cursor, _) = clamp_pos_to_char_boundary(&chars, cursor_pos);
    let len: usize = byte_len_of(text);
    if cursor >= len {
        return len;
    }
    let all = segments(text);
    let end = next_word_end(&all, cursor, len);
    proof {
        let segs = segments_view(all@);
        lemma_ended_before(segs, cursor as int);
        let i = ended_before(segs, cursor as int) as int;
        if i >= segs.len() {
            assert(segs[segs.len() - 1].end <= cursor);
        } else {
            lemma_word_end_ahead(segs, len as int, i);
        }
    }
    end
}

/// The word before a position: the start of the last segment at or before it that is no
/// whitespace. Where there is nothing but whitespace, it is the start of the text.
pub proof fn law_previous_word_is_found(segments: Seq<SegmentV>, probe: int, i: int, k: int)
    requires
        is_first_holding(segments, probe, i),
        -1 <= k <= i,
        forall|j: int| k < j <= i ==> (#[trigger] segments[j]).is_whitespace,
        k >= 0 ==> !segments[k].is_whitespace,
    ensures
        previous_start(segments, probe) == if k >= 0 {
            segments[k].start
        } else {
            0
        },
{
    lemma_first_holding(segments, probe, i);
    lemma_back_over_whitespace(segments, i, k);
}

proof fn lemma_back_over_whitespace(segments: Seq<SegmentV>, i: int, k: int)
    requires
        -1 <= k <= i < segments.len(),
        forall|j: int| k < j <= i ==> (#[trigger] segments[j]).is_whitespace,
        k >= 0 ==> !segments[k].is_whitespace,
    ensures
        word_start_back(segments, i) == if k >= 0 {
            segments[k].start
        } else {
            0
        },
    decreases i - k,
{
    if k < i {
        assert(segments[i].is_whitespace);
        if i > 0 {
            lemma_back_over_whitespace(segments, i - 1, k);
        } else {
            assert(word_start_back(segments, -1) == 0);
        }
    }
}

/// The word ahead of a position: the end of the first segment behind it that is no
/// whitespace. Where there is nothing but whitespace, it is the end of the text.
pub proof fn law_next_word_is_found(
    segments: Seq<SegmentV>,
    cursor: int,
    len: int,
    i: int,
    k: int,
)
    requires
        0 <= i <= k <= segments.len(),
        forall|j: int| 0 <= j < i ==> (#[trigger] segments[j]).end <= cursor,
        i < segments.len() ==> segments[i].end > cursor,
        forall|j: int| i <= j < k ==> (#[trigger] segments[j]).is_whitespace,
        k < segments.len() ==> !segments[k].is_whitespace,
    ensures
        next_end(segments, cursor, len) == if k < segments.len() {
            segments[k].end
        } else {
            len
        },
{
    lemma_count_ended(segments, cursor, i);
    lemma_ahead_over_whitespace(segments, i, k, len);
}

proof fn lemma_count_ended(segments: Seq<SegmentV>, cursor: int, i: int)
    requires
        0 <= i <= segments.len(),
        forall|j: int| 0 <= j < i ==> (#[trigger] segments[j]).end <= cursor,
        i < segments.len() ==> segments[i].end > cursor,
    ensures
        ended_before(segments, cursor) == i,
    decreases i,
{
    if i > 0 {
        let rest = segments.drop_first();
        assert(segments[0].end <= cursor);
        assert forall|j: int| 0 <= j < i - 1 implies (#[trigger] rest[j]).end <= cursor by {
            assert(rest[j] == segments[j + 1]);
        }
        lemma_count_ended(rest, cursor, i - 1);
    }
}

proof fn lemma_ahead_over_whitespace(segments: Seq<SegmentV>, i: int, k: int, len: int)
    requires
        0 <= i <= k <= segments.len(),
        forall|j: int| i <= j < k ==> (#[trigger] segments[j]).is_whitespace,
        k < segments.len() ==> !segments[k].is_whitespace,
    ensures
        word_end_ahead(segments, i, len) == if k < segments.len() {
            segments[k].end
        } else {
            len
        },
    decreases k - i,
{
    if i < k {
        assert(segments[i].is_whitespace);
        lemma_ahead_over_whitespace(segments, i + 1, k, len);
    }
}

/// A position inside a character is moved to the start of that character, and one behind
/// the text to its end.
pub proof fn law_position_is_clamped(s: Seq<char>, pos: int, n: int)
    requires
        0 <= n <= s.len(),
        byte_len(s.take(n)) <= pos,
        n < s.len() ==> pos < byte_len(s.take(n + 1)),
    ensures
        clamped(s, pos) == byte_len(s.take(n)),
{
    lemma_fitting_is(s, pos, n);
}

proof fn lemma_fitting_is(s: Seq<char>, pos: int, n: int)
    requires
        0 <= n <= s.len(),
        byte_len(s.take(n)) <= pos,
        n < s.len() ==> pos < byte_len(s.take(n + 1)),
    ensures
        fitting(s, pos) == n,
    decreases s.len(),
{
    if s.len() > 0 {
        let rest = s.drop_first();
        let first = seq![s[0]];
        assert(s.take(1) =~= first);
        assert(byte_len(first) == char_len_v(s[0])) by {
            assert(first.drop_last() =~= Seq::<char>::empty());
            assert(first.drop_first() =~= Seq::<char>::empty());
            assert(byte_len(Seq::<char>::empty()) == 0);
        }
        if n > 0 {
            assert(s.take(n) =~= first + rest.take(n - 1));
            lemma_byte_len_add(first, rest.take(n - 1));
            if n < s.len() {
                assert(s.take(n + 1) =~= first + rest.take(n));
                lemma_byte_len_add(first, rest.take(n));
            }
            lemma_fitting_is(rest, pos - char_len_v(s[0]), n - 1);
        }
    }
}

/// A run of whitespace is one segment, and so is a run of one and the same separator.
pub proof fn law_runs_stay_together(run: Seq<char>, rest: Seq<char>, base: int)
    requires
        run.len() > 0,
        class_v(run[0]) != CharClass::Word,
        forall|i: int| 0 <= i < run.len() ==> class_v(#[trigger] run[i]) == class_v(run[0]),
        rest.len() > 0 ==> class_v(rest[0]) != class_v(run[0]),
    ensures
        segments_from(run + rest, base).len() > 0,
        segments_from(run + rest, base)[0] == (SegmentV {
            start: base,
            end: base + byte_len(run),
            is_whitespace: text::is_whitespace(run[0]),
        }),
{
    let s = run + rest;
    let n = run.len() as int;
    assert(s[0] == run[0]);
    assert forall|i: int| 0 <= i < n implies class_v(#[trigger] s[i]) == class_v(run[0]) by {
        assert(s[i] == run[i]);
    }
    if rest.len() > 0 {
        assert(s[n] == rest[0]);
    }
    lemma_run_len(s, class_v(run[0]), n);
    assert(s.take(n) =~= run);
}

/// What separates words: whitespace, and the signs of a path, a call or a list, each of
/// which stands for itself; everything else belongs to a word.
pub proof fn law_character_classes(c: char)
    ensures
        class_v(c) == CharClass::Whitespace <==> text::is_whitespace(c),
        class_v(c) matches CharClass::Separator(d) ==> c == d && WORD_SEPARATORS@.contains(c),
        !text::is_whitespace(c) && WORD_SEPARATORS@.contains(c) ==> class_v(c)
            == CharClass::Separator(c),
        class_v(c) == CharClass::Word <==> !text::is_whitespace(c) && !WORD_SEPARATORS@.contains(c),
{
}

} // verus!
