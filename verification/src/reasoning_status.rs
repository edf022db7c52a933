//! Reasoning-title extraction shared by the live status line and the
//! append-only transcript.

use vstd::prelude::*;

use crate::text;

verus! {

/// The two characters that open and close a Markdown bold span.
pub open spec fn bold_marker() -> Seq<char> {
    seq!['*', '*']
}

/// The trimmed text of the first Markdown bold span of `s`.
///
/// The span opens at the first marker and closes at the next one. A span that
/// never closes, or that holds only whitespace, gives nothing.
pub open spec fn first_bold(s: Seq<char>) -> Option<Seq<char>> {
    match text::find(s, bold_marker()) {
        None => None,
        Some(open) => {
            let inner = s.skip(open as int + 2);
            match text::find(inner, bold_marker()) {
                None => None,
                Some(close) => {
                    let title = text::trim(inner.take(close as int));
                    if title.len() == 0 {
                        None
                    } else {
                        Some(title)
                    }
                },
            }
        },
    }
}

/// What the string in `s` holds, if there is one.
pub open spec fn opt_text(s: Option<String>) -> Option<Seq<char>> {
    match s {
        Some(t) => Some(t@),
        None => None,
    }
}

/// Extract the first Markdown bold span (`**...**`) from `s`.
pub fn extract_first_bold(s: &str) -> (r: Option<String>)
    ensures
        opt_text(r) == first_bold(s@),
{
    let chars = text::chars_of(s);
    let mut marker: Vec<char> = Vec::new();
    marker.push('*');
    marker.push('*');
    assert(marker@ =~= bold_marker());
    assert(chars@.skip(0) =~= s@);
    match text::find_text(&chars, &marker, 0) {
        None => None,
        Some(open) => {
            let start: usize = open + 2;
            match text::find_text(&chars, &marker, start) {
                None => None,
                Some(close) => {
                    let inner = text::string_of_range(&chars, start, close);
                    proof {
                        let rest = s@.skip(start as int);
                        assert(inner@ =~= rest.take(close - start));
                    }
                    let title = inner.as_str().trim();
                    if title.is_empty() {
                        None
                    } else {
                        Some(title.to_string())
                    }
                },
            }
        },
    }
}

/// Tracks the latest status header inferred from reasoning markdown.
///
/// The tracker only returns a header when the visible title changes. Repeated
/// deltas that keep the same first bold span do not return a header again.
#[derive(Debug)]
pub struct ReasoningStatusTracker {
    buffer: String,
    current_header: Option<String>,
}

/// The state of a [`ReasoningStatusTracker`]: the reasoning text read so far and
/// the header that was last returned.
#[verifier::ext_equal]
pub struct TrackerState {
    pub buffer: Seq<char>,
    pub header: Option<Seq<char>>,
}

impl TrackerState {
    /// The state before any reasoning text.
    pub open spec fn empty() -> TrackerState {
        TrackerState { buffer: seq![], header: None }
    }

    /// The header that `delta` makes visible: the first bold span of the text
    /// read so far, where it is not the current header.
    pub open spec fn emitted(self, delta: Seq<char>) -> Option<Seq<char>> {
        match first_bold(self.buffer + delta) {
            Some(h) => if self.header == Some(h) {
                None
            } else {
                Some(h)
            },
            None => None,
        }
    }

    /// The state after `delta`.
    pub open spec fn after(self, delta: Seq<char>) -> TrackerState {
        TrackerState {
            buffer: self.buffer + delta,
            header: match first_bold(self.buffer + delta) {
                Some(h) => Some(h),
                None => self.header,
            },
        }
    }
}

impl View for ReasoningStatusTracker {
    type V = TrackerState;

    closed spec fn view(&self) -> TrackerState {
        TrackerState { buffer: self.buffer@, header: opt_text(self.current_header) }
    }
}

impl ReasoningStatusTracker {
    /// Create an empty tracker.
    pub fn new() -> (r: Self)
        ensures
            r@ == TrackerState::empty(),
    {
        ReasoningStatusTracker { buffer: String::new(), current_header: None }
    }

    /// Clear all buffered reasoning text and the current header.
    pub fn reset(&mut self)
        ensures
            final(self)@ == TrackerState::empty(),
    {
        self.buffer = String::new();
        self.current_header = None;
    }

    /// Reset the tracker at a reasoning section boundary.
    pub fn on_section_break(&mut self)
        ensures
            final(self)@ == TrackerState::empty(),
    {
        self.reset();
    }

    /// Reset the tracker once the reasoning item is finalized.
    pub fn on_final(&mut self)
        ensures
            final(self)@ == TrackerState::empty(),
    {
        self.reset();
    }

    /// Feed a new reasoning chunk and return the next visible header, if it changed.
    pub fn on_delta(&mut self, delta: &str) -> (r: Option<String>)
        ensures
            opt_text(r) == old(self)@.emitted(delta@),
            final(self)@ == old(self)@.after(delta@),
    {
        self.buffer.append(delta);
        match extract_first_bold(self.buffer.as_str()) {
            None => None,
            Some(header) => {
                let unchanged = match &self.current_header {
                    Some(current) => text::same(current.as_str(), header.as_str()),
                    None => false,
                };
                if unchanged {
                    return None;
                }
                self.current_header = Some(header.clone());
                Some(header)
            },
        }
    }

    /// Return the current visible header, if any.
    pub fn current_header(&self) -> (r: Option<String>)
        ensures
            opt_text(r) == self@.header,
    {
        match &self.current_header {
            Some(h) => Some(h.clone()),
            None => None,
        }
    }
}

/// Bold text is only ever closed, never reopened: once the text read so far has
/// a first bold span, more text does not change it.
pub proof fn law_first_bold_is_stable(s: Seq<char>, more: Seq<char>)
    requires
        first_bold(s) is Some,
    ensures
        first_bold(s + more) == first_bold(s),
{
    let m = bold_marker();
    text::lemma_find(s, m);
    let open = text::find(s, m)->0 as int;
    let t = s + more;
    assert(t.subrange(open, open + 2) =~= s.subrange(open, open + 2));
    assert forall|k: int| 0 <= k < open implies !text::occurs_at(t, m, k) by {
        assert(!text::occurs_at(s, m, k));
        assert(t.subrange(k, k + 2) =~= s.subrange(k, k + 2));
    }
    text::lemma_find_unique(t, m, open);
    let inner = s.skip(open + 2);
    let inner_t = t.skip(open + 2);
    assert(inner_t =~= inner + more);
    text::lemma_find(inner, m);
    let close = text::find(inner, m)->0 as int;
    assert(inner_t.subrange(close, close + 2) =~= inner.subrange(close, close + 2));
    assert forall|k: int| 0 <= k < close implies !text::occurs_at(inner_t, m, k) by {
        assert(!text::occurs_at(inner, m, k));
        assert(inner_t.subrange(k, k + 2) =~= inner.subrange(k, k + 2));
    }
    text::lemma_find_unique(inner_t, m, close);
    assert(inner_t.take(close) =~= inner.take(close));
}

/// A header is returned once: after a delta returned one, no further text
/// returns another until the tracker is reset.
pub proof fn law_header_is_returned_once(state: TrackerState, first: Seq<char>, second: Seq<char>)
    requires
        state.emitted(first) is Some,
    ensures
        state.after(first).emitted(second) is None,
        state.after(first).after(second).header == state.emitted(first),
{
    law_first_bold_is_stable(state.buffer + first, second);
}

/// The chunks one behind the other.
pub open spec fn joined_chunks(chunks: Seq<Seq<char>>) -> Seq<char>
    decreases chunks.len(),
{
    if chunks.len() == 0 {
        seq![]
    } else {
        joined_chunks(chunks.drop_last()) + chunks.last()
    }
}

/// The state of a new tracker after `chunks`.
pub open spec fn after_chunks(chunks: Seq<Seq<char>>) -> TrackerState
    decreases chunks.len(),
{
    if chunks.len() == 0 {
        TrackerState::empty()
    } else {
        after_chunks(chunks.drop_last()).after(chunks.last())
    }
}

/// The header that a new tracker returns for the chunk `i` of `chunks`.
pub open spec fn returned_at(chunks: Seq<Seq<char>>, i: int) -> Option<Seq<char>> {
    after_chunks(chunks.take(i)).emitted(chunks[i])
}

/// However reasoning text is cut into chunks, a new tracker returns the first bold
/// span of all of it, once, and that is its header then; where there is none, it
/// returns nothing and has no header.
pub proof fn law_chunks_return_the_first_bold_once(chunks: Seq<Seq<char>>)
    ensures
        after_chunks(chunks).buffer == joined_chunks(chunks),
        after_chunks(chunks).header == first_bold(joined_chunks(chunks)),
        first_bold(joined_chunks(chunks)) is None ==> forall|i: int|
            0 <= i < chunks.len() ==> #[trigger] returned_at(chunks, i) is None,
        first_bold(joined_chunks(chunks)) is Some ==> exists|i: int|
            0 <= i < chunks.len() && #[trigger] returned_at(chunks, i) == first_bold(
                joined_chunks(chunks),
            ) && forall|j: int|
                0 <= j < chunks.len() && j != i ==> #[trigger] returned_at(chunks, j) is None,
    decreases chunks.len(),
{
    if chunks.len() == 0 {
        text::lemma_find(joined_chunks(chunks), bold_marker());
    } else {
        let before = chunks.drop_last();
        let last = chunks.len() - 1;
        law_chunks_return_the_first_bold_once(before);
        assert forall|j: int| 0 <= j < last implies #[trigger] returned_at(chunks, j)
            == returned_at(before, j) by {
            assert(chunks.take(j) =~= before.take(j));
        }
        assert(chunks.take(last) =~= before);
        let text = joined_chunks(before);
        if first_bold(text) is Some {
            law_first_bold_is_stable(text, chunks.last());
            let i = choose|i: int|
                0 <= i < before.len() && #[trigger] returned_at(before, i) == first_bold(text)
                    && forall|j: int|
                    0 <= j < before.len() && j != i ==> #[trigger] returned_at(before, j) is None;
            assert(returned_at(chunks, i) == first_bold(text));
            assert(returned_at(chunks, last) is None);
            assert forall|j: int| 0 <= j < chunks.len() && j != i implies #[trigger] returned_at(
                chunks,
                j,
            ) is None by {
                if j < last {
                    assert(returned_at(before, j) is None);
                }
            }
        } else {
            assert(returned_at(chunks, last) == first_bold(joined_chunks(chunks)));
            assert forall|j: int| 0 <= j < last implies #[trigger] returned_at(chunks, j) is None by {
                assert(returned_at(before, j) is None);
            }
        }
    }
}

/// The first bold span is what stands between the first two markers, without the
/// whitespace round it; where nothing else stands there, there is none, and no
/// later span takes its place. Without a second marker there is none either.
pub proof fn law_first_bold_stands_between_markers(
    before: Seq<char>,
    title: Seq<char>,
    after: Seq<char>,
)
    requires
        !before.contains('*'),
        !title.contains('*'),
    ensures
        first_bold(before + "**"@ + title + "**"@ + after) == if text::trim(title).len() == 0 {
            None
        } else {
            Some(text::trim(title))
        },
        first_bold(before + "**"@ + title) is None,
        first_bold(before) is None,
{
    reveal_strlit("**");
    let m = bold_marker();
    assert("**"@ =~= m);
    let open = before.len() as int;
    let close = title.len() as int;
    let s = before + m + title + m + after;
    assert(s.subrange(open, open + 2) =~= m);
    assert forall|k: int| 0 <= k < open implies !text::occurs_at(s, m, k) by {
        assert(s[k] == before[k]);
        assert(before.contains(before[k]));
        assert(s.subrange(k, k + 2)[0] == s[k]);
    }
    text::lemma_find_unique(s, m, open);
    let inner = s.skip(open + 2);
    assert(inner =~= title + m + after);
    assert(inner.subrange(close, close + 2) =~= m);
    assert forall|k: int| 0 <= k < close implies !text::occurs_at(inner, m, k) by {
        assert(inner[k] == title[k]);
        assert(title.contains(title[k]));
        assert(inner.subrange(k, k + 2)[0] == inner[k]);
    }
    text::lemma_find_unique(inner, m, close);
    assert(inner.take(close) =~= title);
    let t = before + m + title;
    assert(t.subrange(open, open + 2) =~= m);
    assert forall|k: int| 0 <= k < open implies !text::occurs_at(t, m, k) by {
        assert(t[k] == before[k]);
        assert(before.contains(before[k]));
        assert(t.subrange(k, k + 2)[0] == t[k]);
    }
    text::lemma_find_unique(t, m, open);
    assert(t.skip(open + 2) =~= title);
    lemma_no_marker(title);
    lemma_no_marker(before);
}

proof fn lemma_no_marker(s: Seq<char>)
    requires
        !s.contains('*'),
    ensures
        text::find(s, bold_marker()) is None,
{
    let m = bold_marker();
    text::lemma_find(s, m);
    if let Some(n) = text::find(s, m) {
        assert(s.subrange(n as int, n as int + 2)[0] == '*');
        assert(s.contains(s[n as int]));
    }
}

} // verus!
