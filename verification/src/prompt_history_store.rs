//! The history of submitted prompts.
//!
//! The history stands in a file with one entry per line, which several processes
//! may write; without a file it is kept in memory. The module decides what the
//! file comes to hold and what is found in it. Reading, locking and writing the
//! file, and the notation of an entry, stay around it.

use vstd::prelude::*;

use crate::history_cell::opt_str;
use crate::paths::{join, joined};
use crate::reasoning_status::opt_text;
use crate::text;

verus! {

/// How many entries the history holds.
pub const MAX_ENTRIES: usize = 500;

/// How often taking the lock of the file is tried.
pub const LOCK_MAX_RETRIES: usize = 10;

/// How many milliseconds pass between two tries.
pub const LOCK_RETRY_MILLIS: u64 = 100;

/// A prompt, and the second in which it was submitted.
#[derive(Debug)]
pub struct HistoryEntry {
    pub ts: u64,
    pub text: String,
}

/// What a [`HistoryEntry`] is.
#[verifier::ext_equal]
pub struct EntryV {
    pub ts: u64,
    pub text: Seq<char>,
}

impl View for HistoryEntry {
    type V = EntryV;

    open spec fn view(&self) -> EntryV {
        EntryV { ts: self.ts, text: self.text@ }
    }
}

/// What the entries of a list are.
pub open spec fn entries_view(entries: Seq<HistoryEntry>) -> Seq<EntryV> {
    entries.map_values(|e: HistoryEntry| e@)
}

/// The last entries of a history, as many as it holds.
pub open spec fn newest(entries: Seq<EntryV>) -> Seq<EntryV> {
    if entries.len() <= MAX_ENTRIES {
        entries
    } else {
        entries.skip(entries.len() - MAX_ENTRIES)
    }
}

/// Whether each of `entries` holds a text without whitespace around it, and none
/// repeats the one before.
pub open spec fn is_clean(entries: Seq<EntryV>) -> bool {
    &&& forall|i: int|
        0 <= i < entries.len() ==> (#[trigger] entries[i]).text.len() > 0 && text::trim(
            entries[i].text,
        ) == entries[i].text
    &&& forall|i: int, j: int|
        0 <= i < j < entries.len() && j == i + 1 ==> (#[trigger] entries[i]).text != (
        #[trigger] entries[j]).text
}

/// Drops the oldest entries where there are too many.
fn drop_oldest(entries: Vec<HistoryEntry>) -> (r: Vec<HistoryEntry>)
    ensures
        entries_view(r@) == newest(entries_view(entries@)),
{
    let mut rest = entries;
    let ghost all = entries_view(entries@);
    let ghost mut dropped: int = 0;
    assert(all.skip(0) =~= all);
    while rest.len() > MAX_ENTRIES
        invariant
            0 <= dropped <= all.len(),
            all == entries_view(entries@),
            entries_view(rest@) == all.skip(dropped),
            dropped > 0 ==> rest@.len() >= MAX_ENTRIES,
        decreases rest@.len(),
    {
        let ghost before = entries_view(rest@);
        assert(before.len() == rest@.len());
        rest.remove(0);
        proof {
            assert(entries_view(rest@) =~= before.drop_first());
            assert(entries_view(rest@) =~= all.skip(dropped + 1));
            dropped = dropped + 1;
        }
    }
    assert(entries_view(rest@).len() == rest@.len());
    rest
}

/// What a line of the file is.
#[derive(Debug)]
pub enum HistoryLine {
    /// It has no text besides whitespace.
    Blank,
    /// It is not the notation of an entry.
    Unreadable,
    Entry(HistoryEntry),
}

/// The text of a line that notes an entry: the line without the whitespace around
/// it, where anything is left.
pub fn history_line_text(line: &str) -> (r: Option<String>)
    ensures
        opt_text(r) == if text::trim(line@).len() == 0 {
            None
        } else {
            Some(text::trim(line@))
        },
{
    let kept = line.trim();
    if kept.is_empty() {
        assert(kept@.len() == 0);
        None
    } else {
        Some(kept.to_string())
    }
}

/// The entry of a line, where the line is worth keeping.
pub open spec fn kept_entry(line: HistoryLine) -> Option<EntryV> {
    match line {
        HistoryLine::Entry(entry) => if entry.text@.len() > 0 {
            Some(entry@)
        } else {
            None
        },
        _ => None,
    }
}

/// The entries of `lines`.
pub open spec fn kept_entries(lines: Seq<HistoryLine>) -> Seq<EntryV>
    decreases lines.len(),
{
    if lines.len() == 0 {
        seq![]
    } else {
        match kept_entry(lines.last()) {
            Some(entry) => kept_entries(lines.drop_last()).push(entry),
            None => kept_entries(lines.drop_last()),
        }
    }
}

/// What a file holds.
#[derive(Debug)]
pub struct LoadedHistory {
    pub entries: Vec<HistoryEntry>,
    /// Whether the file holds more than these entries.
    pub should_rewrite: bool,
}

/// What the lines of a file hold: the last entries, as many as a history has.
pub fn load_history_entries(lines: Vec<HistoryLine>) -> (r: LoadedHistory)
    ensures
        entries_view(r.entries@) == newest(kept_entries(lines@)),
        r.entries@.len() <= MAX_ENTRIES,
        r.should_rewrite <==> kept_entries(lines@).len() > MAX_ENTRIES || exists|i: int|
            0 <= i < lines@.len() && kept_entry(#[trigger] lines@[i]) is None,
{
    let mut rest = lines;
    let ghost all = lines@;
    let mut out: Vec<HistoryEntry> = Vec::new();
    let mut should_rewrite = false;
    let ghost mut taken: int = 0;
    assert(all.skip(0) =~= all);
    assert(all.take(0) =~= seq![]);
    assert(entries_view(out@) =~= seq![]);
    while rest.len() > 0
        invariant
            0 <= taken <= all.len(),
            all == lines@,
            rest@ == all.skip(taken),
            entries_view(out@) == kept_entries(all.take(taken)),
            should_rewrite <==> exists|i: int|
                0 <= i < taken && kept_entry(#[trigger] all[i]) is None,
        decreases rest@.len(),
    {
        let line = rest.remove(0);
        let ghost before = entries_view(out@);
        assert(line == all[taken]);
        proof {
            let upto = all.take(taken + 1);
            assert(upto.drop_last() =~= all.take(taken));
            assert(upto.last() == line);
            assert(rest@ =~= all.skip(taken + 1));
            if kept_entry(line) is None {
                assert(exists|i: int| 0 <= i < taken + 1 && kept_entry(#[trigger] all[i]) is None) by {
                    assert(kept_entry(all[taken]) is None);
                }
            }
            taken = taken + 1;
        }
        match line {
            HistoryLine::Entry(entry) => {
                if entry.text.as_str().is_empty() {
                    assert(entry.text@.len() == 0);
                    should_rewrite = true;
                } else {
                    out.push(entry);
                    assert(entries_view(out@) =~= before.push(entry@));
                }
            },
            _ => {
                should_rewrite = true;
            },
        }
    }
    assert(all.take(taken) =~= all);
    assert(entries_view(out@).len() == out@.len());
    if out.len() > MAX_ENTRIES {
        should_rewrite = true;
    }
    let entries = drop_oldest(out);
    assert(entries_view(entries@).len() == entries@.len());
    LoadedHistory { entries, should_rewrite }
}

/// What to do to the file.
#[derive(Debug)]
pub enum HistoryWrite {
    /// The file stays as it is.
    Nothing,
    /// Put a line for this entry behind what the file holds.
    Append(HistoryEntry),
    /// Replace the file by one with these entries.
    Rewrite(Vec<HistoryEntry>),
}

/// The entries that a file with `entries` holds after `write`.
pub open spec fn entries_after(entries: Seq<EntryV>, write: HistoryWrite) -> Seq<EntryV> {
    match write {
        HistoryWrite::Nothing => entries,
        HistoryWrite::Append(entry) => entries.push(entry@),
        HistoryWrite::Rewrite(all) => entries_view(all@),
    }
}

/// The entries of a history after `text` was submitted: a prompt that was
/// submitted just before is not kept again, and the oldest give way.
pub open spec fn recorded(entries: Seq<EntryV>, ts: u64, text: Seq<char>) -> Seq<EntryV> {
    if entries.len() > 0 && entries.last().text == text {
        entries
    } else {
        newest(entries.push(EntryV { ts, text }))
    }
}

/// Decides what to do to a file with the history `loaded` when `text` is
/// submitted. A line is put behind the others where the file is in order and has
/// room.
pub fn plan_append(loaded: LoadedHistory, ts: u64, text: &str) -> (r: HistoryWrite)
    requires
        loaded.entries@.len() <= MAX_ENTRIES,
    ensures
        entries_after(entries_view(loaded.entries@), r) == recorded(
            entries_view(loaded.entries@),
            ts,
            text@,
        ),
        r is Nothing <==> loaded.entries@.len() > 0 && loaded.entries@.last().text@ == text@,
        r is Append <==> !(r is Nothing) && !loaded.should_rewrite && loaded.entries@.len()
            < MAX_ENTRIES,
{
    let ghost all = entries_view(loaded.entries@);
    let n: usize = loaded.entries.len();
    if n > 0 && text::same(loaded.entries[n - 1].text.as_str(), text) {
        assert(all.last().text == text@);
        return HistoryWrite::Nothing;
    }
    assert(n > 0 ==> all.last() == loaded.entries@.last()@);
    let entry = HistoryEntry { ts, text: text.to_string() };
    assert(entry@ == EntryV { ts, text: text@ });
    if !loaded.should_rewrite && n < MAX_ENTRIES {
        return HistoryWrite::Append(entry);
    }
    let mut entries = loaded.entries;
    entries.push(entry);
    assert(entries_view(entries@) =~= all.push(entry@));
    HistoryWrite::Rewrite(drop_oldest(entries))
}

/// Whether a line feed comes first when a line is put behind the others, given
/// the last byte of the file.
pub fn needs_line_feed(last_byte: Option<u8>) -> (b: bool)
    ensures
        b == (last_byte is Some && last_byte != Some(0x0au8)),
{
    match last_byte {
        Some(byte) => byte != 0x0a,
        None => false,
    }
}

/// What to do to a file with the history `loaded` when the program starts: a file
/// that holds more than its entries is replaced.
pub fn plan_repair(loaded: LoadedHistory) -> (r: HistoryWrite)
    ensures
        r is Nothing <==> !loaded.should_rewrite,
        !(r is Append),
        entries_after(entries_view(loaded.entries@), r) == entries_view(loaded.entries@),
{
    if loaded.should_rewrite {
        HistoryWrite::Rewrite(loaded.entries)
    } else {
        HistoryWrite::Nothing
    }
}

/// Where the history stands, below the home directory of the user.
pub fn history_path(home: Option<&str>) -> (r: Option<String>)
    ensures
        opt_text(r) == match home {
            Some(h) => Some(joined(joined(h@, ".codexpotter"@), "history.jsonl"@)),
            None => None,
        },
{
    match home {
        Some(h) => Some(join(join(h, ".codexpotter").as_str(), "history.jsonl")),
        None => None,
    }
}

/// What trying to take a lock gave.
#[derive(Clone, Copy, PartialEq, Eq, Structural, Debug)]
pub enum LockOutcome {
    Taken,
    /// Another process holds it.
    Busy,
    Failed,
}

/// What comes after a try to take a lock.
#[derive(Clone, Copy, PartialEq, Eq, Structural, Debug)]
pub enum LockStep {
    Go,
    /// Wait and try again.
    Retry,
    /// Wait and give up.
    GiveUp,
    Fail,
}

/// Decides what comes after a try to take a lock, before which `tries` were made.
pub fn lock_step(outcome: LockOutcome, tries: usize) -> (r: LockStep)
    ensures
        r == match outcome {
            LockOutcome::Taken => LockStep::Go,
            LockOutcome::Failed => LockStep::Fail,
            LockOutcome::Busy => if tries + 1 < LOCK_MAX_RETRIES {
                LockStep::Retry
            } else {
                LockStep::GiveUp
            },
        },
{
    match outcome {
        LockOutcome::Taken => LockStep::Go,
        LockOutcome::Failed => LockStep::Fail,
        LockOutcome::Busy => if tries < LOCK_MAX_RETRIES - 1 {
            LockStep::Retry
        } else {
            LockStep::GiveUp
        },
    }
}

/// What looking at the file gave.
#[derive(Debug)]
pub enum HistoryOnDisk {
    Missing,
    Failed,
    /// The identity of the file, where the system has one, and what it holds.
    Loaded(Option<u64>, LoadedHistory),
}

/// The history of submitted prompts.
#[derive(Debug)]
pub struct PromptHistoryStore {
    path: Option<String>,
    entries: Vec<HistoryEntry>,
}

/// The state of a [`PromptHistoryStore`].
#[verifier::ext_equal]
pub struct StoreState {
    /// The file, where there is one.
    pub path: Option<Seq<char>>,
    /// The entries in memory.
    pub entries: Seq<EntryV>,
}

impl StoreState {
    /// There are not too many entries, each holds a text without whitespace around
    /// it, and none repeats the one before.
    pub open spec fn wf(self) -> bool {
        self.entries.len() <= MAX_ENTRIES && is_clean(self.entries)
    }

    /// The store after `text` was submitted.
    pub open spec fn submitted(self, ts: u64, text: Seq<char>) -> StoreState {
        if text::trim(text).len() == 0 || self.path is Some {
            self
        } else {
            StoreState { entries: recorded(self.entries, ts, text::trim(text)), ..self }
        }
    }
}

impl View for PromptHistoryStore {
    type V = StoreState;

    closed spec fn view(&self) -> StoreState {
        StoreState { path: opt_text(self.path), entries: entries_view(self.entries@) }
    }
}

impl PromptHistoryStore {
    /// A store whose history stands in the default file below the home directory
    /// of the user.
    pub fn new(home: Option<&str>) -> (r: Self)
        ensures
            r@.path == match opt_str(home) {
                Some(h) => Some(joined(joined(h, ".codexpotter"@), "history.jsonl"@)),
                None => None,
            },
            r@.entries.len() == 0,
            r@.wf(),
    {
        Self::new_with_path(history_path(home))
    }

    /// A store whose history stands in the file at `path`, or in memory.
    pub fn new_with_path(path: Option<String>) -> (r: Self)
        ensures
            r@ == (StoreState { path: opt_text(path), entries: seq![] }),
            r@.wf(),
    {
        let r = PromptHistoryStore { path, entries: Vec::new() };
        assert(r@ =~= StoreState { path: opt_text(path), entries: seq![] });
        r
    }

    /// The identity of the history and the number of its entries. `disk` is what
    /// looking at the file gave.
    pub fn metadata(&self, disk: &HistoryOnDisk) -> (r: (u64, usize))
        ensures
            r.1 as nat == match self@.path {
                None => self@.entries.len(),
                Some(_) => match disk {
                    HistoryOnDisk::Loaded(_, loaded) => loaded.entries@.len(),
                    _ => 0nat,
                },
            },
            r.0 == match (self@.path, disk) {
                (Some(_), HistoryOnDisk::Loaded(Some(id), _)) => *id,
                _ => 0u64,
            },
    {
        assert(entries_view(self.entries@).len() == self.entries@.len());
        if self.path.is_none() {
            return (0, self.entries.len());
        }
        match disk {
            HistoryOnDisk::Loaded(id, loaded) => {
                let id: u64 = match id {
                    Some(id) => *id,
                    None => 0,
                };
                (id, loaded.entries.len())
            },
            _ => (0, 0),
        }
    }

    /// The text of the entry at `offset`, where there is one and `log_id` is still
    /// the identity of the history. `disk` is what looking at the file gave.
    pub fn lookup_text(&self, log_id: u64, offset: usize, disk: &HistoryOnDisk) -> (r: Option<
        String,
    >)
        ensures
            opt_text(r) == match self@.path {
                None => if log_id == 0 && offset < self@.entries.len() {
                    Some(self@.entries[offset as int].text)
                } else {
                    None
                },
                Some(_) => match disk {
                    HistoryOnDisk::Loaded(id, loaded) => {
                        let current = match id {
                            Some(id) => *id,
                            None => 0u64,
                        };
                        if log_id == current && offset < loaded.entries@.len() {
                            Some(loaded.entries@[offset as int].text@)
                        } else {
                            None
                        }
                    },
                    _ => None,
                },
            },
    {
        assert(entries_view(self.entries@).len() == self.entries@.len());
        if self.path.is_none() {
            if log_id != 0 || offset >= self.entries.len() {
                return None;
            }
            return Some(self.entries[offset].text.clone());
        }
        match disk {
            HistoryOnDisk::Loaded(id, loaded) => {
                let current: u64 = match id {
                    Some(id) => *id,
                    None => 0,
                };
                if current != log_id {
                    return None;
                }
                if offset >= loaded.entries.len() {
                    return None;
                }
                Some(loaded.entries[offset].text.clone())
            },
            _ => None,
        }
    }

    /// Records the prompt `text`, submitted in the second `ts`. Where the history
    /// stands in a file, the result is the text that is to be put there.
    pub fn record_submission(&mut self, text: &str, ts: u64) -> (r: Option<String>)
        requires
            old(self)@.wf(),
        ensures
            final(self)@ == old(self)@.submitted(ts, text@),
            final(self)@.wf(),
            opt_text(r) == if text::trim(text@).len() > 0 && old(self)@.path is Some {
                Some(text::trim(text@))
            } else {
                None
            },
    {
        let ghost before = self@;
        let ghost whole = text@;
        proof {
            if text::trim(whole).len() > 0 {
                text::lemma_trim_is_stable(whole);
                law_history_stays_clean(before.entries, ts, text::trim(whole));
            }
        }
        let text = text.trim();
        if text.is_empty() {
            assert(text@.len() == 0);
            return None;
        }
        if self.path.is_some() {
            return Some(text.to_string());
        }
        let n: usize = self.entries.len();
        if n > 0 && text::same(self.entries[n - 1].text.as_str(), text) {
            assert(before.entries.last().text == text@);
            return None;
        }
        assert(n > 0 ==> before.entries.last() == self.entries@.last()@);
        let mut entries: Vec<HistoryEntry> = Vec::new();
        std::mem::swap(&mut entries, &mut self.entries);
        let entry = HistoryEntry { ts, text: text.to_string() };
        entries.push(entry);
        assert(entries_view(entries@) =~= before.entries.push(EntryV { ts, text: text@ }));
        self.entries = drop_oldest(entries);
        assert(self@.entries == recorded(before.entries, ts, text@));
        assert(self@ =~= before.submitted(ts, whole));
        None
    }
}

/// Recording a text without whitespace around it keeps a history clean.
pub proof fn law_history_stays_clean(entries: Seq<EntryV>, ts: u64, text: Seq<char>)
    requires
        is_clean(entries),
        text.len() > 0,
        text::trim(text) == text,
    ensures
        is_clean(recorded(entries, ts, text)),
{
    let all = entries.push(EntryV { ts, text });
    if !(entries.len() > 0 && entries.last().text == text) {
        assert(is_clean(all));
        if all.len() > MAX_ENTRIES {
            let kept = newest(all);
            let from = all.len() - MAX_ENTRIES;
            assert forall|i: int| 0 <= i < kept.len() implies (#[trigger] kept[i]).text.len() > 0
                && text::trim(kept[i].text) == kept[i].text by {
                assert(kept[i] == all[from + i]);
            }
            assert forall|i: int, j: int| 0 <= i < j < kept.len() && j == i + 1 implies (
            #[trigger] kept[i]).text != (#[trigger] kept[j]).text by {
                assert(kept[i] == all[from + i] && kept[j] == all[from + j]);
            }
        }
    }
}

/// A store after prompts were submitted in the given seconds, one after the other.
pub open spec fn after_submissions(s: StoreState, submissions: Seq<(u64, Seq<char>)>) -> StoreState
    decreases submissions.len(),
{
    if submissions.len() == 0 {
        s
    } else {
        after_submissions(s, submissions.drop_last()).submitted(
            submissions.last().0,
            submissions.last().1,
        )
    }
}

/// Whatever is submitted to a store in memory, it never holds too many entries,
/// each of them holds a text without whitespace around it, and none repeats the
/// one before.
pub proof fn law_store_in_memory_is_clean(submissions: Seq<(u64, Seq<char>)>)
    ensures
        ({
            let s = after_submissions(
                StoreState { path: None, entries: seq![] },
                submissions,
            );
            &&& s.path is None
            &&& s.entries.len() <= MAX_ENTRIES
            &&& is_clean(s.entries)
        }),
    decreases submissions.len(),
{
    if submissions.len() > 0 {
        law_store_in_memory_is_clean(submissions.drop_last());
        let s = after_submissions(
            StoreState { path: None, entries: seq![] },
            submissions.drop_last(),
        );
        let (ts, text) = submissions.last();
        text::lemma_trim_is_stable(text);
        if text::trim(text).len() > 0 {
            law_history_stays_clean(s.entries, ts, text::trim(text));
        }
    }
}

/// A history never holds too many entries, and a prompt that was submitted is its
/// last entry.
pub proof fn law_submission_is_last(entries: Seq<EntryV>, ts: u64, text: Seq<char>)
    requires
        entries.len() <= MAX_ENTRIES,
    ensures
        0 < recorded(entries, ts, text).len() <= MAX_ENTRIES,
        recorded(entries, ts, text).last().text == text,
{
}

/// The entries before a submission stay, in order, but for the oldest where there
/// is no room.
pub proof fn law_older_entries_stay(entries: Seq<EntryV>, ts: u64, text: Seq<char>)
    requires
        entries.len() <= MAX_ENTRIES,
        entries.len() > 0 ==> entries.last().text != text,
    ensures
        entries.len() < MAX_ENTRIES ==> recorded(entries, ts, text).drop_last() == entries,
        entries.len() == MAX_ENTRIES ==> recorded(entries, ts, text).drop_last()
            == entries.drop_first(),
{
    let all = entries.push(EntryV { ts, text });
    assert(all.drop_last() =~= entries);
    if entries.len() == MAX_ENTRIES {
        assert(all.skip(1).drop_last() =~= entries.drop_first());
    }
}

/// Submitting a prompt again changes nothing.
pub proof fn law_repeated_submission_is_kept_once(
    entries: Seq<EntryV>,
    ts: u64,
    later: u64,
    text: Seq<char>,
)
    requires
        entries.len() <= MAX_ENTRIES,
    ensures
        recorded(recorded(entries, ts, text), later, text) == recorded(entries, ts, text),
{
}

/// Every line of a file that holds an entry with text is kept, in order, and no other.
pub proof fn law_entries_with_text_are_kept(lines: Seq<HistoryLine>, line: HistoryLine)
    ensures
        kept_entries(seq![]).len() == 0,
        kept_entries(lines.push(line)) == match line {
            HistoryLine::Entry(entry) => if entry.text@.len() > 0 {
                kept_entries(lines).push(EntryV { ts: entry.ts, text: entry.text@ })
            } else {
                kept_entries(lines)
            },
            _ => kept_entries(lines),
        },
{
    assert(lines.push(line).drop_last() =~= lines);
}

/// A history holds at most so many entries: the newest of them stay.
pub proof fn law_newest_entries_stay(entries: Seq<EntryV>, i: int)
    ensures
        newest(entries).len() <= MAX_ENTRIES,
        entries.len() <= MAX_ENTRIES ==> newest(entries) == entries,
        entries.len() > MAX_ENTRIES ==> newest(entries).len() == MAX_ENTRIES,
        0 <= i < newest(entries).len() ==> newest(entries)[newest(entries).len() - 1 - i]
            == entries[entries.len() - 1 - i],
{
}

/// What is submitted to a store in memory is kept without the whitespace round it; what
/// is blank is not kept, and a store with a file keeps nothing in memory.
pub proof fn law_submission_is_trimmed(s: StoreState, ts: u64, text: Seq<char>)
    requires
        s.wf(),
    ensures
        ({
            let t = s.submitted(ts, text);
            &&& t.path == s.path
            &&& text::trim(text).len() == 0 ==> t == s
            &&& s.path is Some ==> t == s
            &&& s.path is None && text::trim(text).len() > 0 ==> t.entries.len() > 0
                && t.entries.last().text == text::trim(text)
            &&& s.path is None && text::trim(text).len() > 0 && (s.entries.len() == 0
                || s.entries.last().text != text::trim(text)) ==> t.entries.last().ts == ts
        }),
{
}

} // verus!
