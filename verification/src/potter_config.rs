//! The settings of the program itself.
//!
//! They stand in a TOML file. A file that is not TOML is still read and written,
//! line by line.

use vstd::prelude::*;

use crate::codex_config::{ConfigError, ErrorKind, ErrorV};
use crate::paths::{join, joined};
use crate::text;
use crate::toml_doc::{
    doc_entries, document_text, entry_of, is_plain, lemma_nested_alike, lemma_top_alike,
    lemma_with_entry, lemma_with_entry_twice, lemma_without_entry, nested_entry, parse_toml, reads_alike,
    remove_from_table, remove_key, set_empty_table, set_flag, set_table_text,
    toml_parse, with_entry, without_entry, TomlV,
};
use crate::verbosity::{law_config_value_round_trips, parsed_verbosity, Verbosity};

verus! {

/// Where the settings stand, below the home directory of the user.
pub fn potter_config_path(home: Option<&str>) -> (r: Result<String, ConfigError>)
    ensures
        match home {
            Some(h) => r matches Ok(path) && path@ == joined(
                joined(h@, ".codexpotter"@),
                "config.toml"@,
            ),
            None => r matches Err(e) && e@ == (ErrorV {
                kind: ErrorKind::NotFound,
                message: "cannot determine home directory for config path"@,
            }),
        },
{
    match home {
        Some(h) => Ok(join(join(h, ".codexpotter").as_str(), "config.toml")),
        None => Err(
            ConfigError {
                kind: ErrorKind::NotFound,
                message: "cannot determine home directory for config path".to_string(),
            },
        ),
    }
}

/// Whether a line looks like the header of a table.
pub open spec fn is_header(line: Seq<char>) -> bool {
    text::trim_start(line).len() > 0 && text::trim_start(line)[0] == '['
}

/// The name of the table that a line is the header of.
pub open spec fn header_name(line: Seq<char>) -> Option<Seq<char>> {
    let t = text::trim_start(line);
    let end = text::first_index_of(t, ']') as int;
    if !is_header(line) || end >= t.len() || text::trim(t.subrange(1, end)).len() == 0 {
        None
    } else {
        Some(text::trim(t.subrange(1, end)))
    }
}

/// A line without its comment and the whitespace around it.
pub open spec fn without_comment(line: Seq<char>) -> Seq<char> {
    text::trim(line.take(text::first_index_of(line, '#') as int))
}

/// What a line assigns to `key`.
pub open spec fn assigned(line: Seq<char>, key: Seq<char>) -> Option<Seq<char>> {
    let l = without_comment(text::trim_start(line));
    let n = text::first_index_of(l, '=') as int;
    if n < l.len() && text::trim(l.take(n)) == key {
        Some(l.skip(n + 1))
    } else {
        None
    }
}

/// `s` up to its first whitespace.
pub open spec fn upto_whitespace(s: Seq<char>) -> Seq<char>
    decreases s.len(),
{
    if s.len() == 0 || text::is_whitespace(s[0]) {
        seq![]
    } else {
        seq![s[0]] + upto_whitespace(s.drop_first())
    }
}

/// The first word of `s`; nothing where it has none.
pub open spec fn first_word(s: Seq<char>) -> Seq<char> {
    upto_whitespace(text::trim_start(s))
}

/// `s` without the double quotes in front.
pub open spec fn unquoted_start(s: Seq<char>) -> Seq<char>
    decreases s.len(),
{
    if s.len() > 0 && s[0] == '"' {
        unquoted_start(s.drop_first())
    } else {
        s
    }
}

/// `s` without the double quotes behind.
pub open spec fn unquoted_end(s: Seq<char>) -> Seq<char>
    decreases s.len(),
{
    if s.len() > 0 && s.last() == '"' {
        unquoted_end(s.drop_last())
    } else {
        s
    }
}

/// `s` without the double quotes around it.
pub open spec fn unquoted(s: Seq<char>) -> Seq<char> {
    unquoted_end(unquoted_start(s))
}

/// The verbosity that the value of an assignment names.
pub open spec fn verbosity_value(value: Seq<char>) -> Option<Verbosity> {
    parsed_verbosity(unquoted(text::trim(first_word(value))))
}

/// The flag that the value of an assignment names.
pub open spec fn flag_value(value: Seq<char>) -> Option<bool> {
    if first_word(value) == "true"@ {
        Some(true)
    } else if first_word(value) == "false"@ {
        Some(false)
    } else {
        None
    }
}

/// The last verbosity that `lines` assign in a table `tui`, or `found` where they
/// assign none. The first of them stand in such a table where `in_table` holds.
pub open spec fn verbosity_in(lines: Seq<Seq<char>>, in_table: bool, found: Option<Verbosity>) -> Option<
    Verbosity,
>
    decreases lines.len(),
{
    if lines.len() == 0 {
        found
    } else if is_header(lines[0]) {
        verbosity_in(lines.drop_first(), header_name(lines[0]) == Some("tui"@), found)
    } else {
        verbosity_in(
            lines.drop_first(),
            in_table,
            match assigned(lines[0], "verbosity"@) {
                Some(value) if in_table && verbosity_value(value) is Some => verbosity_value(value),
                _ => found,
            },
        )
    }
}

/// The last value of `yolo` that `lines` assign in front of the first header, or
/// `found` where they assign none.
pub open spec fn yolo_in(lines: Seq<Seq<char>>, found: Option<bool>) -> Option<bool>
    decreases lines.len(),
{
    if lines.len() == 0 || is_header(lines[0]) {
        found
    } else {
        yolo_in(
            lines.drop_first(),
            match assigned(lines[0], "yolo"@) {
                Some(value) if flag_value(value) is Some => flag_value(value),
                _ => found,
            },
        )
    }
}

fn starts_with_bracket(s: &str) -> (b: bool)
    ensures
        b == (s@.len() > 0 && s@[0] == '['),
{
    !s.is_empty() && s.get_char(0) == '['
}

/// The name of the table that a line is the header of.
fn parse_table_header_name(line: &str) -> (r: Option<String>)
    ensures
        match r {
            Some(name) => header_name(line@) == Some(name@),
            None => header_name(line@) is None,
        },
{
    let line = line.trim_start();
    if !starts_with_bracket(line) {
        return None;
    }
    let chars = text::chars_of(line);
    assert(chars@.skip(0) =~= chars@);
    let end: usize = text::find_char(&chars, ']', 0);
    proof {
        text::lemma_first_index_of(line@, ']');
    }
    if end >= chars.len() {
        return None;
    }
    assert(end >= 1);
    let inner = text::string_of_range(&chars, 1, end);
    let name = inner.as_str().trim();
    if name.is_empty() {
        assert(name@.len() == 0);
        return None;
    }
    Some(name.to_string())
}

/// What a line assigns to `key`.
fn parse_assignment(line: &str, key: &str) -> (r: Option<String>)
    ensures
        match r {
            Some(value) => assigned(line@, key@) == Some(value@),
            None => assigned(line@, key@) is None,
        },
{
    let start = line.trim_start();
    let chars = text::chars_of(start);
    assert(chars@.skip(0) =~= chars@);
    let hash: usize = text::find_char(&chars, '#', 0);
    let head = text::string_of_range(&chars, 0, hash);
    assert(head@ =~= start@.take(hash as int));
    let kept = head.as_str().trim();
    let chars = text::chars_of(kept);
    assert(chars@.skip(0) =~= chars@);
    let n: usize = text::find_char(&chars, '=', 0);
    if n >= chars.len() {
        return None;
    }
    let name = text::string_of_range(&chars, 0, n);
    assert(name@ =~= kept@.take(n as int));
    if !text::same(name.as_str().trim(), key) {
        return None;
    }
    let value = text::string_of_range(&chars, n + 1, chars.len());
    assert(value@ =~= kept@.skip(n + 1));
    Some(value)
}

/// The first word of `s`; nothing where it has none.
pub fn word_of(s: &str) -> (r: String)
    ensures
        r@ == first_word(s@),
{
    let start = s.trim_start();
    let chars = text::chars_of(start);
    let mut out = String::new();
    let mut i: usize = 0;
    assert(chars@.skip(0) =~= start@);
    assert(out@ + upto_whitespace(start@) =~= upto_whitespace(start@));
    while i < chars.len()
        invariant
            i <= chars@.len(),
            out@ + upto_whitespace(chars@.skip(i as int)) == first_word(s@),
        decreases chars@.len() - i,
    {
        let ghost rest = chars@.skip(i as int);
        if chars[i].is_whitespace() {
            assert(out@ + upto_whitespace(rest) =~= out@);
            return out;
        }
        let ghost before = out@;
        out.push(chars[i]);
        proof {
            assert(rest.drop_first() =~= chars@.skip(i + 1));
            assert(out@ + upto_whitespace(chars@.skip(i + 1)) =~= before + upto_whitespace(rest));
        }
        i += 1;
    }
    assert(out@ + upto_whitespace(chars@.skip(i as int)) =~= out@);
    out
}

fn unquote(s: &str) -> (r: String)
    ensures
        r@ == unquoted(s@),
{
    let chars = text::chars_of(s);
    let mut from: usize = 0;
    assert(chars@.skip(0) =~= s@);
    while from < chars.len() && chars[from] == '"'
        invariant
            from <= chars@.len(),
            unquoted_start(chars@.skip(from as int)) == unquoted_start(s@),
        decreases chars@.len() - from,
    {
        assert(chars@.skip(from as int).drop_first() =~= chars@.skip(from + 1));
        from += 1;
    }
    let ghost body = chars@.skip(from as int);
    assert(unquoted_start(s@) == body);
    let mut to: usize = chars.len();
    assert(chars@.subrange(from as int, to as int) =~= body);
    while to > from && chars[to - 1] == '"'
        invariant
            from <= to <= chars@.len(),
            unquoted_end(chars@.subrange(from as int, to as int)) == unquoted_end(body),
        decreases to,
    {
        assert(chars@.subrange(from as int, to as int).drop_last() =~= chars@.subrange(
            from as int,
            to - 1,
        ));
        to -= 1;
    }
    text::string_of_range(&chars, from, to)
}

/// The last verbosity that a file which is not TOML assigns in a table `tui`.
pub fn parse_tui_verbosity_fallback(contents: &str) -> (r: Option<Verbosity>)
    ensures
        r == verbosity_in(text::lines(contents@), false, None),
{
    let lines = text::split_lines(contents);
    let ghost all = text::lines(contents@);
    let mut in_table = false;
    let mut result: Option<Verbosity> = None;
    let mut i: usize = 0;
    assert(all.skip(0) =~= all);
    while i < lines.len()
        invariant
            i <= lines@.len(),
            all == text::texts(lines@),
            verbosity_in(all.skip(i as int), in_table, result) == verbosity_in(all, false, None),
        decreases lines@.len() - i,
    {
        let ghost rest = all.skip(i as int);
        assert(rest[0] == lines@[i as int]@);
        assert(rest.drop_first() =~= all.skip(i + 1));
        let line = lines[i].as_str();
        if starts_with_bracket(line.trim_start()) {
            in_table =
            match parse_table_header_name(line) {
                Some(name) => text::same(name.as_str(), "tui"),
                None => false,
            };
        } else if in_table {
            if let Some(value) = parse_assignment(line, "verbosity") {
                let word = word_of(value.as_str());
                let token = unquote(word.as_str().trim());
                if let Some(parsed) = Verbosity::parse_config_value(token.as_str()) {
                    result = Some(parsed);
                }
            }
        }
        i += 1;
    }
    assert(all.skip(i as int).len() == 0);
    result
}

/// The last value of `yolo` that a file which is not TOML assigns in front of the
/// first header.
pub fn parse_yolo_fallback(contents: &str) -> (r: Option<bool>)
    ensures
        r == yolo_in(text::lines(contents@), None),
{
    let lines = text::split_lines(contents);
    let ghost all = text::lines(contents@);
    let mut result: Option<bool> = None;
    let mut i: usize = 0;
    assert(all.skip(0) =~= all);
    while i < lines.len()
        invariant
            i <= lines@.len(),
            all == text::texts(lines@),
            all == text::lines(contents@),
            yolo_in(all.skip(i as int), result) == yolo_in(all, None),
        decreases lines@.len() - i,
    {
        let ghost rest = all.skip(i as int);
        assert(rest[0] == lines@[i as int]@);
        assert(rest.drop_first() =~= all.skip(i + 1));
        let line = lines[i].as_str();
        if starts_with_bracket(line.trim_start()) {
            return result;
        }
        if let Some(value) = parse_assignment(line, "yolo") {
            let word = word_of(value.as_str());
            if text::same(word.as_str(), "true") {
                result = Some(true);
            } else if text::same(word.as_str(), "false") {
                result = Some(false);
            }
        }
        i += 1;
    }
    assert(all.skip(i as int).len() == 0);
    result
}

/// What is put behind a file that is not TOML so that it names `verbosity`.
pub open spec fn verbosity_block(verbosity: Verbosity) -> Seq<char> {
    "\n"@ + ("[tui]\n"@ + ("verbosity = \""@ + verbosity.config_value_v() + "\"\n"@))
}

/// `s` with a line feed behind it, where it is not empty and has none.
pub open spec fn ended(s: Seq<char>) -> Seq<char> {
    if s.len() > 0 && s.last() != '\n' {
        s.push('\n')
    } else {
        s
    }
}

/// A file that is not TOML after `verbosity` was chosen.
pub open spec fn with_verbosity_text(existing: Seq<char>, verbosity: Verbosity) -> Seq<char> {
    ended(existing) + verbosity_block(verbosity)
}

/// A file that is not TOML after `verbosity` was chosen.
pub fn append_tui_fallback(existing: &str, verbosity: Verbosity) -> (r: String)
    ensures
        r@ == with_verbosity_text(existing@, verbosity),
{
    let mut out = existing.to_string();
    let len: usize = existing.unicode_len();
    if len > 0 && existing.get_char(len - 1) != '\n' {
        out.push('\n');
    }
    assert(out@ =~= ended(existing@));
    out.append("\n");
    out.append("[tui]\n");
    out.append("verbosity = \"");
    out.append(verbosity.config_value());
    out.append("\"\n");
    assert(out@ =~= with_verbosity_text(existing@, verbosity));
    out
}

/// The position of the first line of `s` that looks like the header of a table.
pub open spec fn header_start(s: Seq<char>) -> Option<nat>
    decreases s.len(),
{
    let n = text::first_index_of(s, '\n');
    if s.len() == 0 {
        None
    } else if n >= s.len() {
        if is_header(s) {
            Some(0)
        } else {
            None
        }
    } else if is_header(s.take(n as int)) {
        Some(0)
    } else {
        match header_start(s.skip(n as int + 1)) {
            Some(k) => Some(n + 1 + k),
            None => None,
        }
    }
}

/// `s` with an empty line behind it, where it is not empty.
pub open spec fn spaced(s: Seq<char>) -> Seq<char> {
    let e = ended(s);
    if e.len() > 0 && !(e.len() > 1 && e[e.len() - 2] == '\n') {
        e.push('\n')
    } else {
        e
    }
}

/// The line that assigns a value to `yolo`.
pub open spec fn yolo_line(enabled: bool) -> Seq<char> {
    if enabled {
        "yolo = true\n"@
    } else {
        "yolo = false\n"@
    }
}

/// A file that is not TOML after `yolo` was chosen: the assignment comes in front
/// of the first header.
pub open spec fn with_yolo_text(existing: Seq<char>, enabled: bool) -> Seq<char> {
    match header_start(existing) {
        Some(k) => spaced(existing.take(k as int)) + yolo_line(enabled) + existing.skip(k as int),
        None => spaced(existing) + yolo_line(enabled),
    }
}

/// The position of the first line that looks like the header of a table.
fn first_table_like_line_start(chars: &Vec<char>) -> (r: Option<usize>)
    ensures
        match r {
            Some(k) => header_start(chars@) == Some(k as nat) && k <= chars@.len(),
            None => header_start(chars@) is None,
        },
{
    let mut at: usize = 0;
    assert(chars@.skip(0) =~= chars@);
    while at < chars.len()
        invariant
            at <= chars@.len(),
            match header_start(chars@.skip(at as int)) {
                Some(k) => header_start(chars@) == Some((at + k) as nat),
                None => header_start(chars@) is None,
            },
        decreases chars@.len() - at,
    {
        let ghost rest = chars@.skip(at as int);
        let end: usize = text::find_char(chars, '\n', at);
        proof {
            text::lemma_first_index_of(rest, '\n');
        }
        let line = text::string_of_range(chars, at, end);
        if end == chars.len() {
            assert(line@ =~= rest);
        } else {
            assert(line@ =~= rest.take(end - at));
            assert(rest.skip(end - at + 1) =~= chars@.skip(end + 1));
        }
        if starts_with_bracket(line.as_str().trim_start()) {
            return Some(at);
        }
        if end == chars.len() {
            return None;
        }
        at = end + 1;
    }
    assert(chars@.skip(at as int).len() == 0);
    None
}

fn push_fallback_spacing(out: &mut String)
    ensures
        final(out)@ == spaced(old(out)@),
{
    let len: usize = out.as_str().unicode_len();
    if len > 0 && out.as_str().get_char(len - 1) != '\n' {
        out.push('\n');
    }
    assert(out@ =~= ended(old(out)@));
    let len: usize = out.as_str().unicode_len();
    if len > 0 && !(len > 1 && out.as_str().get_char(len - 2) == '\n') {
        out.push('\n');
    }
}

/// A file that is not TOML after `yolo` was chosen.
pub fn append_yolo_fallback(existing: &str, enabled: bool) -> (r: String)
    ensures
        r@ == with_yolo_text(existing@, enabled),
{
    let line = if enabled { "yolo = true\n" } else { "yolo = false\n" };
    let chars = text::chars_of(existing);
    if let Some(k) = first_table_like_line_start(&chars) {
        let mut out = text::string_of_range(&chars, 0, k);
        assert(out@ =~= existing@.take(k as int));
        push_fallback_spacing(&mut out);
        out.append(line);
        let tail = text::string_of_range(&chars, k, chars.len());
        assert(tail@ =~= existing@.skip(k as int));
        out.append(tail.as_str());
        return out;
    }
    let mut out = existing.to_string();
    push_fallback_spacing(&mut out);
    out.append(line);
    out
}

/// Behind a complete line, the lines of a text are those of its two parts.
proof fn lemma_lines_of_parts(a: Seq<char>, b: Seq<char>)
    requires
        a.len() == 0 || a.last() == '\n',
    ensures
        text::lines(a + b) == text::lines(a) + text::lines(b),
    decreases a.len(),
{
    if a.len() == 0 {
        assert(a + b =~= b);
        assert(text::lines(a) + text::lines(b) =~= text::lines(b));
    } else {
        let n = text::first_index_of(a, '\n') as int;
        text::lemma_first_index_of(a, '\n');
        assert(a.contains('\n')) by {
            assert(a[a.len() - 1] == '\n');
        }
        assert forall|k: int| 0 <= k < n implies (a + b)[k] != '\n' by {
            assert(a[k] != '\n');
        }
        text::lemma_first_index_of_unique(a + b, '\n', n);
        let rest = a.skip(n + 1);
        if rest.len() > 0 {
            assert(rest.last() == a.last());
        }
        lemma_lines_of_parts(rest, b);
        assert((a + b).take(n) =~= a.take(n));
        assert((a + b).skip(n + 1) =~= rest + b);
        let first = seq![text::strip_cr(a.take(n))];
        assert(first + (text::lines(rest) + text::lines(b)) =~= (first + text::lines(rest))
            + text::lines(b));
    }
}

/// The lines of a line and what comes behind it.
proof fn lemma_lines_of_line(line: Seq<char>, rest: Seq<char>)
    requires
        !line.contains('\n'),
        line.len() == 0 || line.last() != '\r',
    ensures
        text::lines(line.push('\n') + rest) == seq![line] + text::lines(rest),
{
    let s = line.push('\n') + rest;
    let n = line.len() as int;
    assert forall|k: int| 0 <= k < n implies s[k] != '\n' by {
        assert(s[k] == line[k]);
    }
    text::lemma_first_index_of_unique(s, '\n', n);
    assert(s.take(n) =~= line);
    assert(s.skip(n + 1) =~= rest);
}

/// What comes behind decides, where it does so whatever came before.
proof fn lemma_verbosity_decided(
    front: Seq<Seq<char>>,
    back: Seq<Seq<char>>,
    in_table: bool,
    found: Option<Verbosity>,
    v: Verbosity,
)
    requires
        forall|t: bool, f: Option<Verbosity>| #[trigger] verbosity_in(back, t, f) == Some(v),
    ensures
        verbosity_in(front + back, in_table, found) == Some(v),
    decreases front.len(),
{
    if front.len() == 0 {
        assert(front + back =~= back);
    } else {
        let all = front + back;
        assert(all.drop_first() =~= front.drop_first() + back);
        assert(all[0] == front[0]);
        if is_header(front[0]) {
            lemma_verbosity_decided(
                front.drop_first(),
                back,
                header_name(front[0]) == Some("tui"@),
                found,
                v,
            );
        } else {
            let next = match assigned(front[0], "verbosity"@) {
                Some(value) if in_table && verbosity_value(value) is Some => verbosity_value(value),
                _ => found,
            };
            lemma_verbosity_decided(front.drop_first(), back, in_table, next, v);
        }
    }
}

/// The line that is written for `verbosity`.
pub open spec fn verbosity_line(verbosity: Verbosity) -> Seq<char> {
    "verbosity = \""@ + verbosity.config_value_v() + "\""@
}

proof fn lemma_written_verbosity(verbosity: Verbosity)
    ensures
        !is_header(verbosity_line(verbosity)),
        assigned(verbosity_line(verbosity), "verbosity"@) matches Some(value) && verbosity_value(
            value,
        ) == Some(verbosity),
        !verbosity_line(verbosity).contains('\n'),
        verbosity_line(verbosity).last() != '\r',
{
    reveal_strlit("verbosity = \"");
    reveal_strlit("\"");
    reveal_strlit("minimal");
    reveal_strlit("simple");
    reveal_strlit("verbosity");
    let word = verbosity.config_value_v();
    let line = verbosity_line(verbosity);
    assert(text::trim_start(line) == line);
    text::lemma_first_index_of_unique(line, '#', line.len() as int);
    assert(line.take(line.len() as int) =~= line);
    assert(without_comment(line) == line);
    text::lemma_first_index_of_unique(line, '=', 10);
    let name = line.take(10);
    assert(text::trim_start(name) == name);
    assert(name.drop_last() =~= "verbosity"@);
    assert(text::trim_end("verbosity"@) == "verbosity"@);
    assert(text::trim(name) == "verbosity"@);
    let value = line.skip(11);
    let quoted = seq!['"'] + word + seq!['"'];
    assert(value =~= seq![' '] + quoted);
    assert(value.drop_first() =~= quoted);
    assert(text::trim_start(quoted) == quoted);
    assert(text::trim_start(value) == quoted);
    lemma_word_without_whitespace(quoted);
    assert(text::trim(quoted) == quoted);
    assert(quoted.drop_first() =~= word + seq!['"']);
    assert(unquoted_start(quoted) == unquoted_start(word + seq!['"']));
    assert(unquoted_start(word + seq!['"']) == word + seq!['"']);
    assert((word + seq!['"']).drop_last() =~= word);
    assert(unquoted_end(word) == word);
    assert(unquoted(quoted) == word);
    law_config_value_round_trips(verbosity);
}

proof fn lemma_word_without_whitespace(s: Seq<char>)
    requires
        forall|i: int| 0 <= i < s.len() ==> !text::is_whitespace(#[trigger] s[i]),
    ensures
        upto_whitespace(s) == s,
    decreases s.len(),
{
    if s.len() > 0 {
        assert forall|i: int| 0 <= i < s.drop_first().len() implies !text::is_whitespace(
            #[trigger] s.drop_first()[i],
        ) by {
            assert(s.drop_first()[i] == s[i + 1]);
        }
        lemma_word_without_whitespace(s.drop_first());
        assert(seq![s[0]] + s.drop_first() =~= s);
    } else {
        assert(upto_whitespace(s) =~= s);
    }
}

/// A verbosity that was written into a file which is not TOML is the one that is
/// read from it, whatever the file held.
pub proof fn law_fallback_verbosity_is_read_back(existing: Seq<char>, verbosity: Verbosity)
    ensures
        verbosity_in(text::lines(with_verbosity_text(existing, verbosity)), false, None) == Some(
            verbosity,
        ),
{
    let line = verbosity_line(verbosity);
    let header = seq!['[', 't', 'u', 'i', ']'];
    let front = ended(existing);
    lemma_written_verbosity(verbosity);
    reveal_strlit("\n");
    reveal_strlit("[tui]\n");
    reveal_strlit("\"\n");
    reveal_strlit("\"");
    reveal_strlit("tui");
    let last = line.push('\n') + Seq::<char>::empty();
    let middle = header.push('\n') + last;
    let block = Seq::<char>::empty().push('\n') + middle;
    assert(verbosity_block(verbosity) =~= block);
    assert(text::lines(Seq::<char>::empty()) =~= seq![]);
    lemma_lines_of_line(line, seq![]);
    lemma_lines_of_line(header, last);
    lemma_lines_of_line(seq![], middle);
    let back = seq![Seq::<char>::empty()] + (seq![header] + (seq![line] + Seq::<Seq<char>>::empty()));
    assert(text::lines(block) == back);
    assert(text::trim_start(header) == header);
    text::lemma_first_index_of_unique(header, ']', 4);
    assert(header.subrange(1, 4) =~= "tui"@);
    assert(text::trim("tui"@) == "tui"@);
    assert(header_name(header) == Some("tui"@));
    assert forall|t: bool, f: Option<Verbosity>| #[trigger]
        verbosity_in(back, t, f) == Some(verbosity) by {
        let empty = Seq::<char>::empty();
        assert(text::trim_start(empty) =~= empty);
        assert(!is_header(empty));
        text::lemma_first_index_of(empty, '#');
        assert(empty.take(0) =~= empty);
        assert(without_comment(empty).len() == 0);
        assert(assigned(empty, "verbosity"@) is None);
        let tail1 = seq![header] + (seq![line] + Seq::<Seq<char>>::empty());
        assert(back.drop_first() =~= tail1);
        assert(back[0] == empty);
        let tail2 = seq![line] + Seq::<Seq<char>>::empty();
        assert(tail1.drop_first() =~= tail2);
        assert(tail1[0] == header);
        assert(tail2[0] == line);
        assert(tail2.drop_first() =~= seq![]);
        assert(verbosity_in(back, t, f) == verbosity_in(tail1, t, f));
        assert(verbosity_in(tail1, t, f) == verbosity_in(tail2, true, f));
        assert(verbosity_in(tail2, true, f) == verbosity_in(
            tail2.drop_first(),
            true,
            Some(verbosity),
        ));
    }
    lemma_lines_of_parts(front, block);
    lemma_verbosity_decided(text::lines(front), back, false, None, verbosity);
}

/// A carriage return at the end of a line does not make it a header.
proof fn lemma_header_without_return(line: Seq<char>)
    ensures
        is_header(text::strip_cr(line)) == is_header(line),
    decreases line.len(),
{
    if line.len() > 0 && line.last() == '\r' {
        let cut = line.drop_last();
        if text::is_whitespace(line[0]) {
            let rest = line.drop_first();
            if line.len() > 1 {
                lemma_header_without_return(rest);
                assert(rest.drop_last() =~= cut.drop_first());
                assert(rest.last() == '\r');
                assert(text::trim_start(line) == text::trim_start(rest));
                assert(text::trim_start(cut) == text::trim_start(cut.drop_first()));
            } else {
                assert(rest =~= seq![]);
                assert(text::trim_start(rest) =~= seq![]);
                assert(text::trim_start(cut) =~= seq![]);
            }
        } else {
            assert(cut.len() > 0) by {
                assert(line[0] != '\r');
            }
        }
    }
}

/// Where no line looks like a header, none of the lines does.
proof fn lemma_no_header(s: Seq<char>)
    requires
        header_start(s) is None,
    ensures
        forall|i: int| 0 <= i < text::lines(s).len() ==> !is_header(#[trigger] text::lines(s)[i]),
    decreases s.len(),
{
    let n = text::first_index_of(s, '\n') as int;
    if s.len() > 0 && n < s.len() {
        text::lemma_first_index_of(s, '\n');
        let rest = s.skip(n + 1);
        lemma_no_header(rest);
        lemma_header_without_return(s.take(n));
        assert forall|i: int| 0 <= i < text::lines(s).len() implies !is_header(
            #[trigger] text::lines(s)[i],
        ) by {
            if i > 0 {
                assert(text::lines(s)[i] == text::lines(rest)[i - 1]);
            }
        }
    }
}

/// The position of the first header cuts the text in front of a line.
proof fn lemma_header_start(s: Seq<char>)
    ensures
        header_start(s) matches Some(k) ==> {
            &&& k < s.len()
            &&& k == 0 || s[k - 1] == '\n'
            &&& header_start(s.take(k as int)) is None
            &&& text::lines(s.skip(k as int)).len() > 0
            &&& is_header(text::lines(s.skip(k as int))[0])
        },
    decreases s.len(),
{
    let n = text::first_index_of(s, '\n') as int;
    text::lemma_first_index_of(s, '\n');
    if s.len() > 0 && n >= s.len() {
        assert(s.skip(0) =~= s);
        assert(s.take(0).len() == 0);
    } else if s.len() > 0 && is_header(s.take(n)) {
        assert(s.skip(0) =~= s);
        assert(s.take(0).len() == 0);
        lemma_header_without_return(s.take(n));
        assert(text::lines(s)[0] == text::strip_cr(s.take(n)));
    } else if s.len() > 0 {
        let rest = s.skip(n + 1);
        lemma_header_start(rest);
        if let Some(k) = header_start(rest) {
            let cut = s.take((n + 1 + k) as int);
            assert(rest.skip(k as int) =~= s.skip(n + 1 + k));
            assert forall|j: int| 0 <= j < n implies cut[j] != '\n' by {
                assert(s[j] != '\n');
            }
            text::lemma_first_index_of_unique(cut, '\n', n);
            assert(cut.take(n) =~= s.take(n));
            assert(cut.skip(n + 1) =~= rest.take(k as int));
            if k == 0 {
                assert(s[n + 1 + k - 1] == '\n');
            } else {
                assert(rest[k - 1] == s[n + 1 + k - 1]);
            }
        }
    }
}

/// A line feed behind a text makes no header.
proof fn lemma_no_header_before_feed(s: Seq<char>)
    requires
        header_start(s) is None,
    ensures
        header_start(s.push('\n')) is None,
    decreases s.len(),
{
    let t = s.push('\n');
    let n = text::first_index_of(s, '\n') as int;
    text::lemma_first_index_of(s, '\n');
    assert forall|j: int| 0 <= j < n implies t[j] != '\n' by {
        assert(s[j] != '\n');
    }
    text::lemma_first_index_of_unique(t, '\n', n);
    if n >= s.len() {
        assert(t.take(n) =~= s);
        if s.len() == 0 {
            assert(text::trim_start(s) =~= seq![]);
        }
        assert(t.skip(n + 1).len() == 0);
        assert(header_start(t.skip(n + 1)) is None);
        assert(!is_header(t.take(n)));
    } else {
        assert(t.take(n) =~= s.take(n));
        assert(header_start(s.skip(n + 1)) is None);
        assert(t.skip(n + 1) =~= s.skip(n + 1).push('\n'));
        lemma_no_header_before_feed(s.skip(n + 1));
    }
}

proof fn lemma_yolo_decided(
    front: Seq<Seq<char>>,
    back: Seq<Seq<char>>,
    found: Option<bool>,
    enabled: bool,
)
    requires
        forall|i: int| 0 <= i < front.len() ==> !is_header(#[trigger] front[i]),
        forall|f: Option<bool>| #[trigger] yolo_in(back, f) == Some(enabled),
    ensures
        yolo_in(front + back, found) == Some(enabled),
    decreases front.len(),
{
    if front.len() == 0 {
        assert(front + back =~= back);
    } else {
        let all = front + back;
        assert(all.drop_first() =~= front.drop_first() + back);
        assert(all[0] == front[0]);
        assert forall|i: int| 0 <= i < front.drop_first().len() implies !is_header(
            #[trigger] front.drop_first()[i],
        ) by {
            assert(front.drop_first()[i] == front[i + 1]);
        }
        let next = match assigned(front[0], "yolo"@) {
            Some(value) if flag_value(value) is Some => flag_value(value),
            _ => found,
        };
        lemma_yolo_decided(front.drop_first(), back, next, enabled);
    }
}

proof fn lemma_written_yolo(line: Seq<char>, enabled: bool)
    requires
        line.push('\n') == yolo_line(enabled),
    ensures
        !is_header(line),
        assigned(line, "yolo"@) matches Some(value) && flag_value(value) == Some(enabled),
        !line.contains('\n'),
        line.last() != '\r',
        line.len() > 0,
{
    reveal_strlit("yolo = true\n");
    reveal_strlit("yolo = false\n");
    reveal_strlit("yolo");
    reveal_strlit("true");
    reveal_strlit("false");
    let whole = yolo_line(enabled);
    assert(line =~= whole.drop_last());
    let word = if enabled {
        "true"@
    } else {
        "false"@
    };
    assert(text::trim_start(line) == line);
    text::lemma_first_index_of_unique(line, '#', line.len() as int);
    assert(line.take(line.len() as int) =~= line);
    assert(without_comment(line) == line);
    text::lemma_first_index_of_unique(line, '=', 5);
    let name = line.take(5);
    assert(text::trim_start(name) == name);
    assert(name.drop_last() =~= "yolo"@);
    assert(text::trim_end("yolo"@) == "yolo"@);
    let value = line.skip(6);
    assert(value =~= seq![' '] + word);
    assert(value.drop_first() =~= word);
    assert(text::trim_start(word) == word);
    assert(text::trim_start(value) == word);
    lemma_word_without_whitespace(word);
    assert("true"@.len() != "false"@.len());
}

/// A value of `yolo` that was written into a file which is not TOML is the one
/// that is read from it, whatever the file held.
pub proof fn law_fallback_yolo_is_read_back(existing: Seq<char>, enabled: bool)
    ensures
        yolo_in(text::lines(with_yolo_text(existing, enabled)), None) == Some(enabled),
{
    let (head, tail) = match header_start(existing) {
        Some(k) => (existing.take(k as int), existing.skip(k as int)),
        None => (existing, Seq::<char>::empty()),
    };
    lemma_header_start(existing);
    reveal_strlit("yolo = true\n");
    reveal_strlit("yolo = false\n");
    let line = yolo_line(enabled).drop_last();
    assert(line.push('\n') =~= yolo_line(enabled));
    lemma_written_yolo(line, enabled);
    let front = spaced(head);
    lemma_no_header_before_feed(head);
    if ended(head) != head {
        lemma_no_header_before_feed(head.push('\n'));
    }
    assert(header_start(front) is None);
    lemma_no_header(front);
    let back = yolo_line(enabled) + tail;
    assert(with_yolo_text(existing, enabled) =~= front + back);
    lemma_lines_of_parts(front, back);
    lemma_lines_of_line(line, tail);
    let written = text::lines(back);
    assert forall|f: Option<bool>| #[trigger] yolo_in(written, f) == Some(enabled) by {
        assert(written[0] == line);
        assert(written.drop_first() =~= text::lines(tail));
        assert(yolo_in(written, f) == yolo_in(text::lines(tail), Some(enabled)));
    }
    lemma_yolo_decided(text::lines(front), written, None, enabled);
}

/// The verbosity that the entries of a configuration name.
pub open spec fn entries_verbosity(entries: Seq<(Seq<char>, TomlV)>) -> Option<Verbosity> {
    match nested_entry(entries, "tui"@, "verbosity"@) {
        Some(TomlV::Text(value)) => parsed_verbosity(value),
        _ => None,
    }
}

/// The value of `yolo` at the top of a configuration.
pub open spec fn entries_yolo(entries: Seq<(Seq<char>, TomlV)>) -> Option<bool> {
    match entry_of(entries, "yolo"@) {
        Some(TomlV::Flag(b)) => Some(b),
        _ => None,
    }
}

/// The verbosity that a file names.
pub open spec fn file_verbosity(contents: Seq<char>) -> Option<Verbosity> {
    match toml_parse(contents) {
        Ok(entries) => entries_verbosity(entries),
        Err(_) => verbosity_in(text::lines(contents), false, None),
    }
}

/// Whether a file turns `yolo` on.
pub open spec fn file_yolo(contents: Seq<char>) -> bool {
    match toml_parse(contents) {
        Ok(entries) => entries_yolo(entries) == Some(true),
        Err(_) => yolo_in(text::lines(contents), None) == Some(true),
    }
}

/// The verbosity that the document names.
fn read_tui_verbosity(doc: &toml_edit::DocumentMut) -> (r: Option<Verbosity>)
    ensures
        r == entries_verbosity(doc_entries(*doc)),
{
    let table = match doc.as_table().get("tui") {
        Some(item) => match item.as_table() {
            Some(table) => table,
            None => return None,
        },
        None => return None,
    };
    let value = match table.get("verbosity") {
        Some(item) => match item.as_value() {
            Some(value) => value,
            None => return None,
        },
        None => return None,
    };
    match value.as_str() {
        Some(s) => Verbosity::parse_config_value(s),
        None => None,
    }
}

/// The value of `yolo` at the top of the document.
fn read_yolo(doc: &toml_edit::DocumentMut) -> (r: Option<bool>)
    ensures
        r == entries_yolo(doc_entries(*doc)),
{
    match doc.as_table().get("yolo") {
        Some(item) => match item.as_value() {
            Some(value) => value.as_bool(),
            None => None,
        },
        None => None,
    }
}

/// The verbosity that the configuration file names. There may be no such file.
pub fn load_potter_tui_verbosity(contents: Option<&str>) -> (r: Option<Verbosity>)
    ensures
        r == match contents {
            None => None,
            Some(c) => file_verbosity(c@),
        },
{
    match contents {
        None => None,
        Some(c) => match parse_toml(c) {
            Ok(doc) => read_tui_verbosity(&doc),
            Err(_) => parse_tui_verbosity_fallback(c),
        },
    }
}

/// Whether the configuration file turns `yolo` on. There may be no such file.
pub fn load_potter_yolo_enabled(contents: Option<&str>) -> (r: bool)
    ensures
        r == match contents {
            None => false,
            Some(c) => file_yolo(c@),
        },
{
    let value = match contents {
        None => None,
        Some(c) => match parse_toml(c) {
            Ok(doc) => read_yolo(&doc),
            Err(_) => parse_yolo_fallback(c),
        },
    };
    match value {
        Some(b) => b,
        None => false,
    }
}

/// The entries of a configuration after `verbosity` was chosen. What stood at
/// `tui` and is no table with a header gives way to one.
pub open spec fn with_verbosity(entries: Seq<(Seq<char>, TomlV)>, verbosity: Verbosity) -> Seq<
    (Seq<char>, TomlV),
> {
    let text = TomlV::Text(verbosity.config_value_v());
    match entry_of(entries, "tui"@) {
        Some(TomlV::Table(tui)) => with_entry(
            entries,
            "tui"@,
            TomlV::Table(with_entry(tui, "verbosity"@, text)),
        ),
        _ => with_entry(
            without_entry(entries, "tui"@),
            "tui"@,
            TomlV::Table(with_entry(seq![], "verbosity"@, text)),
        ),
    }
}

/// The entries of a configuration after `yolo` was chosen. An older place of the
/// setting, in the table `potter`, is cleared, and so is that table where nothing
/// is left in it.
pub open spec fn with_yolo(entries: Seq<(Seq<char>, TomlV)>, enabled: bool) -> Seq<
    (Seq<char>, TomlV),
> {
    let set = with_entry(entries, "yolo"@, TomlV::Flag(enabled));
    match entry_of(set, "potter"@) {
        Some(TomlV::Table(potter)) => {
            let left = without_entry(potter, "yolo"@);
            let cleared = with_entry(set, "potter"@, TomlV::Table(left));
            if left.len() == 0 {
                without_entry(cleared, "potter"@)
            } else {
                cleared
            }
        },
        _ => set,
    }
}

/// Whether the table `potter` holds nothing besides the older place of `yolo`.
pub open spec fn empties_potter(entries: Seq<(Seq<char>, TomlV)>) -> bool {
    entry_of(entries, "potter"@) matches Some(TomlV::Table(potter)) && without_entry(
        potter,
        "yolo"@,
    ).len() == 0
}

/// Sets the verbosity of the document.
fn set_tui_verbosity(doc: &mut toml_edit::DocumentMut, verbosity: Verbosity)
    requires
        is_plain(*old(doc)),
    ensures
        is_plain(*final(doc)),
        doc_entries(*final(doc)) == with_verbosity(doc_entries(*old(doc)), verbosity),
{
    let ghost before = doc_entries(*doc);
    let is_table = match doc.as_table().get("tui") {
        Some(item) => item.as_table().is_some(),
        None => false,
    };
    if !is_table {
        remove_key(doc, "tui");
        let ghost others = doc_entries(*doc);
        proof {
            let set = TomlV::Table(
                with_entry(seq![], "verbosity"@, TomlV::Text(verbosity.config_value_v())),
            );
            lemma_without_entry(before, "tui"@, "tui"@);
            lemma_with_entry(others, "tui"@, TomlV::Table(seq![]), "tui"@);
            lemma_with_entry_twice(others, "tui"@, TomlV::Table(seq![]), set);
        }
        set_empty_table(doc, "tui");
    }
    set_table_text(doc, "tui", "verbosity", verbosity.config_value());
}

/// Sets the value of `yolo` at the top of the document.
fn set_yolo(doc: &mut toml_edit::DocumentMut, enabled: bool)
    requires
        is_plain(*old(doc)),
    ensures
        is_plain(*final(doc)),
        doc_entries(*final(doc)) == with_yolo(doc_entries(*old(doc)), enabled),
{
    set_flag(doc, "yolo", enabled);
    let ghost set = doc_entries(*doc);
    let is_table = match doc.as_table().get("potter") {
        Some(item) => item.as_table().is_some(),
        None => false,
    };
    if !is_table {
        return;
    }
    remove_from_table(doc, "potter", "yolo");
    proof {
        let left = without_entry(entry_of(set, "potter"@)->0->Table_0, "yolo"@);
        lemma_with_entry(set, "potter"@, TomlV::Table(left), "potter"@);
    }
    let is_empty = match doc.as_table().get("potter") {
        Some(item) => match item.as_table() {
            Some(table) => table.is_empty(),
            None => false,
        },
        None => false,
    };
    if is_empty {
        remove_key(doc, "potter");
    }
}

/// A verbosity that was set is the one that is read.
pub proof fn law_set_verbosity_is_read(entries: Seq<(Seq<char>, TomlV)>, verbosity: Verbosity)
    ensures
        entries_verbosity(with_verbosity(entries, verbosity)) == Some(verbosity),
        entries_yolo(with_verbosity(entries, verbosity)) == entries_yolo(entries),
{
    let (others, tui) = match entry_of(entries, "tui"@) {
        Some(TomlV::Table(tui)) => (entries, tui),
        _ => (without_entry(entries, "tui"@), Seq::<(Seq<char>, TomlV)>::empty()),
    };
    let text = TomlV::Text(verbosity.config_value_v());
    let set = TomlV::Table(with_entry(tui, "verbosity"@, text));
    lemma_with_entry(tui, "verbosity"@, text, "verbosity"@);
    lemma_with_entry(others, "tui"@, set, "tui"@);
    lemma_with_entry(others, "tui"@, set, "yolo"@);
    lemma_without_entry(entries, "tui"@, "yolo"@);
    reveal_strlit("tui");
    reveal_strlit("yolo");
    assert("tui"@.len() != "yolo"@.len());
    law_config_value_round_trips(verbosity);
}

/// A value of `yolo` that was set is the one that is read, the verbosity is
/// kept, and nothing is left at the older place of the setting: a table `potter`
/// with a header has no such key any more, and is gone where it had no other.
pub proof fn law_set_yolo_is_read(entries: Seq<(Seq<char>, TomlV)>, enabled: bool)
    ensures
        entries_yolo(with_yolo(entries, enabled)) == Some(enabled),
        entries_verbosity(with_yolo(entries, enabled)) == entries_verbosity(entries),
        nested_entry(with_yolo(entries, enabled), "potter"@, "yolo"@) is None,
        empties_potter(entries) ==> entry_of(with_yolo(entries, enabled), "potter"@) is None,
{
    reveal_strlit("tui");
    reveal_strlit("yolo");
    reveal_strlit("potter");
    assert("tui"@.len() == 3 && "yolo"@.len() == 4 && "potter"@.len() == 6);
    let set = with_entry(entries, "yolo"@, TomlV::Flag(enabled));
    lemma_with_entry(entries, "yolo"@, TomlV::Flag(enabled), "yolo"@);
    lemma_with_entry(entries, "yolo"@, TomlV::Flag(enabled), "tui"@);
    lemma_with_entry(entries, "yolo"@, TomlV::Flag(enabled), "potter"@);
    if let Some(TomlV::Table(potter)) = entry_of(set, "potter"@) {
        let left = without_entry(potter, "yolo"@);
        let cleared = with_entry(set, "potter"@, TomlV::Table(left));
        lemma_without_entry(potter, "yolo"@, "yolo"@);
        lemma_with_entry(set, "potter"@, TomlV::Table(left), "potter"@);
        lemma_with_entry(set, "potter"@, TomlV::Table(left), "yolo"@);
        lemma_with_entry(set, "potter"@, TomlV::Table(left), "tui"@);
        lemma_without_entry(cleared, "potter"@, "potter"@);
        lemma_without_entry(cleared, "potter"@, "yolo"@);
        lemma_without_entry(cleared, "potter"@, "tui"@);
    }
}

/// Where entries read alike, the same settings are found in both.
proof fn lemma_read_alike(a: Seq<(Seq<char>, TomlV)>, b: Seq<(Seq<char>, TomlV)>)
    requires
        reads_alike(a, b),
    ensures
        entries_verbosity(b) == entries_verbosity(a),
        entries_yolo(b) == entries_yolo(a),
{
    lemma_nested_alike(a, b, "tui"@, "verbosity"@);
    lemma_top_alike(a, b, "yolo"@);
}

/// The text of the configuration file after `verbosity` was chosen, given what it
/// held before.
///
/// A file that is TOML is printed again with the setting in it, so that the
/// verbosity is read from it, and everything else is kept. Another file has a table
/// put behind what it holds.
pub fn persist_potter_tui_verbosity(contents: &str, verbosity: Verbosity) -> (r: String)
    ensures
        match toml_parse(contents@) {
            Ok(entries) => {
                &&& toml_parse(r@) matches Ok(read) && reads_alike(
                    with_verbosity(entries, verbosity),
                    read,
                )
                &&& file_verbosity(r@) == Some(verbosity)
                &&& file_yolo(r@) == file_yolo(contents@)
            },
            Err(_) => r@ == with_verbosity_text(contents@, verbosity),
        },
{
    match parse_toml(contents) {
        Ok(doc) => {
            let mut doc = doc;
            let ghost entries = doc_entries(doc);
            set_tui_verbosity(&mut doc, verbosity);
            let printed = document_text(&doc);
            proof {
                law_set_verbosity_is_read(entries, verbosity);
                lemma_read_alike(with_verbosity(entries, verbosity), toml_parse(printed@)->Ok_0);
            }
            printed
        },
        Err(_) => append_tui_fallback(contents, verbosity),
    }
}

/// The text of the configuration file after `yolo` was chosen, given what it held
/// before.
///
/// A file that is TOML is printed again with the setting in it, so that the
/// setting is read from it. The older place of the setting, in the table `potter`,
/// is cleared, and so is that table where nothing is left in it; everything else is
/// kept. Another file has an assignment put in front of its first header.
pub fn persist_potter_yolo_enabled(contents: &str, enabled: bool) -> (r: String)
    ensures
        match toml_parse(contents@) {
            Ok(entries) => {
                &&& toml_parse(r@) matches Ok(read) && reads_alike(
                    with_yolo(entries, enabled),
                    read,
                ) && nested_entry(read, "potter"@, "yolo"@) is None && (empties_potter(entries)
                    ==> entry_of(read, "potter"@) is None)
                &&& file_yolo(r@) == enabled
                &&& file_verbosity(r@) == file_verbosity(contents@)
            },
            Err(_) => r@ == with_yolo_text(contents@, enabled),
        },
{
    match parse_toml(contents) {
        Ok(doc) => {
            let mut doc = doc;
            let ghost entries = doc_entries(doc);
            set_yolo(&mut doc, enabled);
            let printed = document_text(&doc);
            proof {
                law_set_yolo_is_read(entries, enabled);
                let after = with_yolo(entries, enabled);
                let read = toml_parse(printed@)->Ok_0;
                lemma_read_alike(after, read);
                lemma_nested_alike(after, read, "potter"@, "yolo"@);
                lemma_top_alike(after, read, "potter"@);
            }
            printed
        },
        Err(_) => append_yolo_fallback(contents, enabled),
    }
}

/// Whether the configuration file at a given path turns `yolo` on. There may be no
/// such file.
pub fn load_potter_yolo_enabled_from_path(contents: Option<&str>) -> (r: bool)
    ensures
        r == match contents {
            None => false,
            Some(c) => file_yolo(c@),
        },
{
    load_potter_yolo_enabled(contents)
}

/// Choosing a verbosity changes no other setting: not at the top, and not in the table
/// `tui`.
pub proof fn law_verbosity_changes_nothing_else(
    entries: Seq<(Seq<char>, TomlV)>,
    verbosity: Verbosity,
    key: Seq<char>,
)
    ensures
        key != "tui"@ ==> entry_of(with_verbosity(entries, verbosity), key) == entry_of(
            entries,
            key,
        ),
        key != "verbosity"@ && entry_of(entries, "tui"@) is Some && entry_of(entries, "tui"@)->0
            is Table ==> nested_entry(with_verbosity(entries, verbosity), "tui"@, key)
            == nested_entry(entries, "tui"@, key),
        nested_entry(with_verbosity(entries, verbosity), "tui"@, "verbosity"@) == Some(
            TomlV::Text(
                if verbosity == Verbosity::Minimal {
                    "minimal"@
                } else {
                    "simple"@
                },
            ),
        ),
{
    let text = TomlV::Text(verbosity.config_value_v());
    match entry_of(entries, "tui"@) {
        Some(TomlV::Table(tui)) => {
            let set = TomlV::Table(with_entry(tui, "verbosity"@, text));
            lemma_with_entry(entries, "tui"@, set, key);
            lemma_with_entry(entries, "tui"@, set, "tui"@);
            lemma_with_entry(tui, "verbosity"@, text, key);
            lemma_with_entry(tui, "verbosity"@, text, "verbosity"@);
        },
        _ => {
            let set = TomlV::Table(with_entry(seq![], "verbosity"@, text));
            let others = without_entry(entries, "tui"@);
            lemma_with_entry(others, "tui"@, set, key);
            lemma_with_entry(others, "tui"@, set, "tui"@);
            lemma_without_entry(entries, "tui"@, key);
            lemma_with_entry(seq![], "verbosity"@, text, "verbosity"@);
        },
    }
}

/// Choosing `yolo` changes no other setting, but for its older place in the table
/// `potter`, which goes.
pub proof fn law_yolo_changes_nothing_else(
    entries: Seq<(Seq<char>, TomlV)>,
    enabled: bool,
    key: Seq<char>,
)
    ensures
        entry_of(with_yolo(entries, enabled), "yolo"@) == Some(TomlV::Flag(enabled)),
        key != "yolo"@ && key != "potter"@ ==> entry_of(with_yolo(entries, enabled), key)
            == entry_of(entries, key),
        key != "yolo"@ ==> nested_entry(with_yolo(entries, enabled), "potter"@, key)
            == nested_entry(entries, "potter"@, key),
        nested_entry(with_yolo(entries, enabled), "potter"@, "yolo"@) is None,
        entry_of(entries, "potter"@) matches Some(value) ==> !(value is Table) ==> entry_of(
            with_yolo(entries, enabled),
            "potter"@,
        ) == Some(value),
{
    reveal_strlit("yolo");
    reveal_strlit("potter");
    assert("yolo"@.len() == 4 && "potter"@.len() == 6);
    let flag = TomlV::Flag(enabled);
    let set = with_entry(entries, "yolo"@, flag);
    lemma_with_entry(entries, "yolo"@, flag, "yolo"@);
    lemma_with_entry(entries, "yolo"@, flag, "potter"@);
    lemma_with_entry(entries, "yolo"@, flag, key);
    if let Some(TomlV::Table(potter)) = entry_of(set, "potter"@) {
        let left = without_entry(potter, "yolo"@);
        let cleared = with_entry(set, "potter"@, TomlV::Table(left));
        lemma_with_entry(set, "potter"@, TomlV::Table(left), "potter"@);
        lemma_with_entry(set, "potter"@, TomlV::Table(left), "yolo"@);
        lemma_with_entry(set, "potter"@, TomlV::Table(left), key);
        lemma_without_entry(potter, "yolo"@, "yolo"@);
        lemma_without_entry(potter, "yolo"@, key);
        lemma_without_entry(cleared, "potter"@, "potter"@);
        lemma_without_entry(cleared, "potter"@, "yolo"@);
        lemma_without_entry(cleared, "potter"@, key);
        if left.len() == 0 {
            assert(entry_of(left, key) is None);
        }
    }
}

/// What a file in TOML says: the verbosity is a text in the table `tui`, and `yolo` is on
/// only where it is the flag `true` at the top.
pub proof fn law_settings_are_read(
    contents: Seq<char>,
    entries: Seq<(Seq<char>, TomlV)>,
    verbosity: Verbosity,
)
    requires
        toml_parse(contents) == Ok::<Seq<(Seq<char>, TomlV)>, Seq<char>>(entries),
    ensures
        nested_entry(entries, "tui"@, "verbosity"@) == Some(
            TomlV::Text(
                if verbosity == Verbosity::Minimal {
                    "minimal"@
                } else {
                    "simple"@
                },
            ),
        ) ==> file_verbosity(contents) == Some(verbosity),
        nested_entry(entries, "tui"@, "verbosity"@) is None ==> file_verbosity(contents) is None,
        file_yolo(contents) <==> entry_of(entries, "yolo"@) == Some(TomlV::Flag(true)),
{
    law_config_value_round_trips(verbosity);
}

/// A line in brackets is the header of the table that it names, whatever stands behind
/// the closing bracket; without a closing bracket, or without a name, it names none.
pub proof fn law_header_names_its_table(name: Seq<char>, rest: Seq<char>)
    requires
        !name.contains(']'),
    ensures
        is_header(seq!['['] + name + seq![']'] + rest),
        header_name(seq!['['] + name + seq![']'] + rest) == if text::trim(name).len() == 0 {
            None
        } else {
            Some(text::trim(name))
        },
        header_name(seq!['['] + name) is None,
{
    let line = seq!['['] + name + seq![']'] + rest;
    assert(line[0] == '[');
    assert(text::trim_start(line) == line);
    let end = name.len() as int + 1;
    assert forall|k: int| 0 <= k < end implies #[trigger] line[k] != ']' by {
        if k > 0 {
            assert(line[k] == name[k - 1]);
            assert(name.contains(name[k - 1]));
        }
    }
    assert(line[end] == ']');
    text::lemma_first_index_of_unique(line, ']', end);
    assert(line.subrange(1, end) =~= name);
    let open = seq!['['] + name;
    assert(open[0] == '[');
    assert(text::trim_start(open) == open);
    text::lemma_first_index_of(open, ']');
    if text::first_index_of(open, ']') < open.len() {
        let k = text::first_index_of(open, ']') as int;
        assert(open[k] == name[k - 1]);
        assert(name.contains(name[k - 1]));
    }
}

/// A line that is no header belongs to no table, and a line of another table assigns
/// nothing to `tui`: the verbosity is only looked for in that table, and `yolo` only in
/// front of every table.
pub proof fn law_settings_stand_in_their_place(
    line: Seq<char>,
    lines: Seq<Seq<char>>,
    verbosity: Option<Verbosity>,
    yolo: Option<bool>,
)
    requires
        lines.len() > 0,
        lines[0] == line,
    ensures
        !is_header(line) ==> verbosity_in(lines, false, verbosity) == verbosity_in(
            lines.drop_first(),
            false,
            verbosity,
        ),
        is_header(line) && header_name(line) != Some("tui"@) ==> verbosity_in(
            lines,
            true,
            verbosity,
        ) == verbosity_in(lines.drop_first(), false, verbosity),
        is_header(line) && header_name(line) == Some("tui"@) ==> verbosity_in(
            lines,
            false,
            verbosity,
        ) == verbosity_in(lines.drop_first(), true, verbosity),
        is_header(line) ==> yolo_in(lines, yolo) == yolo,
        !is_header(line) && assigned(line, "yolo"@) is None ==> yolo_in(lines, yolo) == yolo_in(
            lines.drop_first(),
            yolo,
        ),
{
}

/// A value is read up to the first whitespace: `true` and `false` are flags and nothing
/// else is, and a name may stand in quotes.
pub proof fn law_values_are_words(word: Seq<char>, rest: Seq<char>, verbosity: Verbosity)
    requires
        forall|i: int| 0 <= i < word.len() ==> !text::is_whitespace(#[trigger] word[i]),
        rest.len() == 0 || text::is_whitespace(rest[0]),
        word.len() > 0,
    ensures
        first_word(word + rest) == word,
        first_word(seq![' '] + word + rest) == word,
        flag_value(word + rest) == Some(true) <==> word == "true"@,
        flag_value(word + rest) == Some(false) <==> word == "false"@,
        word == seq!['"'] + verbosity.config_value_v() + seq!['"'] ==> verbosity_value(word + rest)
            == Some(verbosity),
        word == verbosity.config_value_v() ==> verbosity_value(word + rest) == Some(verbosity),
{
    reveal_strlit("true");
    reveal_strlit("false");
    assert("true"@.len() == 4 && "false"@.len() == 5);
    let s = word + rest;
    assert(s[0] == word[0]);
    assert(text::trim_start(s) == s);
    lemma_upto(word, rest);
    let spaced = seq![' '] + word + rest;
    assert(spaced[0] == ' ');
    assert(spaced.drop_first() =~= s);
    assert(text::is_whitespace(' '));
    assert(text::trim_start(spaced) == text::trim_start(s));
    law_config_value_round_trips(verbosity);
    reveal_strlit("minimal");
    reveal_strlit("simple");
    let v = verbosity.config_value_v();
    assert(v.len() > 0 && v[0] != '"' && v.last() != '"');
    assert(!text::is_whitespace(word[0]) && !text::is_whitespace(word.last()));
    assert(text::trim(word) == word) by {
        assert(text::trim_start(word) == word);
        assert(text::trim_end(word) == word);
    }
    assert(unquoted(v) == v);
    let quoted = seq!['"'] + v + seq!['"'];
    let half = v + seq!['"'];
    assert(quoted.drop_first() =~= half);
    assert(quoted[0] == '"');
    assert(half[0] == v[0]);
    assert(unquoted_start(half) == half);
    assert(unquoted_start(quoted) == half);
    assert(half.drop_last() =~= v);
    assert(unquoted_end(v) == v);
    assert(unquoted_end(half) == v);
}

proof fn lemma_upto(word: Seq<char>, rest: Seq<char>)
    requires
        forall|i: int| 0 <= i < word.len() ==> !text::is_whitespace(#[trigger] word[i]),
        rest.len() == 0 || text::is_whitespace(rest[0]),
    ensures
        upto_whitespace(word + rest) == word,
    decreases word.len(),
{
    let s = word + rest;
    if word.len() == 0 {
        assert(s =~= rest);
        assert(upto_whitespace(s) =~= word);
    } else {
        let more = word.drop_first();
        assert forall|i: int| 0 <= i < more.len() implies !text::is_whitespace(
            #[trigger] more[i],
        ) by {
            assert(more[i] == word[i + 1]);
        }
        lemma_upto(more, rest);
        assert(s[0] == word[0]);
        assert(s.drop_first() =~= more + rest);
        assert(upto_whitespace(s) =~= word);
    }
}

/// A line that starts with a key and an equals sign assigns what stands behind the sign,
/// up to a comment, and assigns it to no other key.
pub proof fn law_assignment_is_read(
    key: Seq<char>,
    value: Seq<char>,
    comment: Seq<char>,
    other: Seq<char>,
)
    requires
        key.len() > 0,
        !key.contains('=') && !key.contains('#') && !value.contains('#'),
        !text::is_whitespace(key[0]) && !text::is_whitespace(key.last()),
        value.len() > 0 && !text::is_whitespace(value.last()),
        other != key,
    ensures
        assigned(key + seq!['='] + value, key) == Some(value),
        assigned(key + seq!['='] + value + seq!['#'] + comment, key) == Some(value),
        assigned(key + seq!['='] + value, other) is None,
{
    let line = key + seq!['='] + value;
    let more = line + seq!['#'] + comment;
    assert(more =~= key + seq!['='] + value + seq!['#'] + comment);
    assert(line[0] == key[0] && more[0] == key[0] && line.last() == value.last());
    assert(text::trim_start(line) == line);
    assert(text::trim_start(more) == more);
    assert forall|k: int| 0 <= k < line.len() implies #[trigger] line[k] != '#' by {
        if k < key.len() {
            assert(key.contains(key[k]));
        } else if k > key.len() {
            assert(line[k] == value[k - key.len() - 1]);
            assert(value.contains(value[k - key.len() - 1]));
        }
    }
    text::lemma_first_index_of(line, '#');
    assert(text::first_index_of(line, '#') == line.len()) by {
        if text::first_index_of(line, '#') < line.len() {
            assert(line[text::first_index_of(line, '#') as int] == '#');
        }
    }
    assert(line.take(line.len() as int) =~= line);
    let n = line.len() as int;
    assert(more[n] == '#');
    assert forall|k: int| 0 <= k < n implies #[trigger] more[k] != '#' by {
        assert(more[k] == line[k]);
    }
    text::lemma_first_index_of_unique(more, '#', n);
    assert(more.take(n) =~= line);
    assert(text::trim(line) == line) by {
        assert(text::trim_end(line) == line);
    }
    let e = key.len() as int;
    assert(line[e] == '=');
    assert forall|k: int| 0 <= k < e implies #[trigger] line[k] != '=' by {
        assert(line[k] == key[k]);
        assert(key.contains(key[k]));
    }
    text::lemma_first_index_of_unique(line, '=', e);
    assert(line.take(e) =~= key);
    assert(line.skip(e + 1) =~= value);
    assert(text::trim(key) == key) by {
        assert(text::trim_start(key) == key);
        assert(text::trim_end(key) == key);
    }
}

} // verus!
