//! Slash commands as the user types them.

use vstd::prelude::*;

use crate::potter_config::upto_whitespace;
use crate::text;
use crate::utf8::{byte_len, byte_len_of, lemma_byte_len_add};

verus! {

/// The name behind the slash in front of `line`, and what follows it without the
/// whitespace in between.
pub open spec fn slash_name(line: Seq<char>) -> Option<(Seq<char>, Seq<char>)> {
    let stripped = line.drop_first();
    let name = upto_whitespace(stripped);
    if line.len() == 0 || line[0] != '/' || name.len() == 0 {
        None
    } else {
        Some((name, text::trim_start(stripped.skip(name.len() as int))))
    }
}

proof fn lemma_upto_whitespace(s: Seq<char>, n: int)
    requires
        0 <= n <= s.len(),
        forall|k: int| 0 <= k < n ==> !text::is_whitespace(#[trigger] s[k]),
        n < s.len() ==> text::is_whitespace(s[n]),
    ensures
        upto_whitespace(s) == s.take(n),
    decreases s.len(),
{
    if n > 0 {
        let rest = s.drop_first();
        assert forall|k: int| 0 <= k < n - 1 implies !text::is_whitespace(#[trigger] rest[k]) by {
            assert(rest[k] == s[k + 1]);
        }
        assert(!text::is_whitespace(s[0]));
        lemma_upto_whitespace(rest, n - 1);
        assert(seq![s[0]] + rest.take(n - 1) =~= s.take(n));
    } else {
        assert(upto_whitespace(s) =~= s.take(0));
    }
}

proof fn lemma_trim_start_is_suffix(s: Seq<char>)
    ensures
        text::trim_start(s).len() <= s.len(),
        s.skip(s.len() - text::trim_start(s).len()) == text::trim_start(s),
    decreases s.len(),
{
    if s.len() > 0 && text::is_whitespace(s[0]) {
        let rest = s.drop_first();
        lemma_trim_start_is_suffix(rest);
        let t = text::trim_start(s);
        assert(s.skip(s.len() - t.len()) =~= rest.skip(rest.len() - t.len()));
    } else {
        assert(s.skip(0) =~= s);
    }
}

/// Reads a slash command of the form `/name <rest>`: the name, the rest, and the
/// byte of `line` at which the rest starts.
pub fn parse_slash_name(line: &str) -> (r: Option<(String, String, usize)>)
    ensures
        match r {
            Some((name, rest, offset)) => {
                &&& slash_name(line@) == Some((name@, rest@))
                &&& rest@.len() <= line@.len()
                &&& line@.skip(line@.len() - rest@.len()) == rest@
                &&& offset == byte_len(line@.take(line@.len() - rest@.len()))
            },
            None => slash_name(line@) is None,
        },
{
    let chars = text::chars_of(line);
    if chars.len() == 0 || chars[0] != '/' {
        return None;
    }
    let ghost stripped = line@.drop_first();
    let mut end: usize = 1;
    while end < chars.len() && !chars[end].is_whitespace()
        invariant
            1 <= end <= chars@.len(),
            chars@ == line@,
            forall|k: int| 1 <= k < end ==> !text::is_whitespace(#[trigger] chars@[k]),
        decreases chars@.len() - end,
    {
        end += 1;
    }
    proof {
        assert forall|k: int| 0 <= k < end - 1 implies !text::is_whitespace(
            #[trigger] stripped[k],
        ) by {
            assert(stripped[k] == chars@[k + 1]);
        }
        lemma_upto_whitespace(stripped, end - 1);
    }
    if end == 1 {
        return None;
    }
    let name = text::string_of_range(&chars, 1, end);
    assert(name@ =~= stripped.take(end - 1));
    let tail = text::string_of_range(&chars, end, chars.len());
    assert(tail@ =~= stripped.skip(end - 1));
    let rest = tail.as_str().trim_start().to_string();
    proof {
        lemma_trim_start_is_suffix(tail@);
        let at = line@.len() - rest@.len();
        assert(line@.skip(at) =~= tail@.skip(tail@.len() - rest@.len()));
        assert(line@ =~= line@.take(at) + rest@);
        lemma_byte_len_add(line@.take(at), rest@);
    }
    let offset: usize = byte_len_of(line) - byte_len_of(rest.as_str());
    Some((name, rest, offset))
}

/// A line that starts with a slash and a word is the command of that name, and what
/// follows the whitespace behind it is the rest; a line that does not start with a slash,
/// or has whitespace or nothing behind it, is no command.
pub proof fn law_slash_command_is_read(name: Seq<char>, rest: Seq<char>)
    requires
        forall|k: int| 0 <= k < name.len() ==> !text::is_whitespace(#[trigger] name[k]),
        rest.len() == 0 || !text::is_whitespace(rest[0]),
    ensures
        name.len() > 0 ==> slash_name(seq!['/'] + name + seq![' '] + rest) == Some((name, rest)),
        name.len() > 0 ==> slash_name(seq!['/'] + name) == Some((name, Seq::<char>::empty())),
        slash_name(seq!['/', ' '] + rest) is None,
        slash_name(seq!['/']) is None,
        rest.len() == 0 || rest[0] != '/' ==> slash_name(rest) is None,
{
    assert(text::is_whitespace(' '));
    let n = name.len() as int;
    let line = seq!['/'] + name + seq![' '] + rest;
    let stripped = line.drop_first();
    assert(stripped =~= name + seq![' '] + rest);
    assert forall|k: int| 0 <= k < n implies !text::is_whitespace(#[trigger] stripped[k]) by {
        assert(stripped[k] == name[k]);
    }
    assert(stripped[n] == ' ');
    lemma_upto_whitespace(stripped, n);
    assert(stripped.take(n) =~= name);
    let tail = stripped.skip(n);
    assert(tail =~= seq![' '] + rest);
    assert(tail.drop_first() =~= rest);
    assert(text::trim_start(rest) == rest);
    assert(text::trim_start(tail) == rest);
    let alone = seq!['/'] + name;
    assert(alone.drop_first() =~= name);
    lemma_upto_whitespace(name, n);
    assert(name.take(n) =~= name);
    assert(name.skip(n) =~= Seq::<char>::empty());
    let spaced = seq!['/', ' '] + rest;
    assert(spaced.drop_first() =~= seq![' '] + rest);
    assert(spaced.drop_first()[0] == ' ');
    assert(seq!['/'].drop_first() =~= Seq::<char>::empty());
}

} // verus!
