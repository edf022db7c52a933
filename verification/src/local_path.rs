//! Local paths as they are shown.
//!
//! The text alone counts: no file is looked at, and neither `~` nor `.` and `..`
//! mean anything.

use vstd::prelude::*;

use crate::text;

verus! {

/// `s` with a slash for every backslash.
pub open spec fn with_slashes(s: Seq<char>) -> Seq<char> {
    s.map_values(
        |c: char|
            if c == '\\' {
                '/'
            } else {
                c
            },
    )
}

/// `s` without the prefix that marks a verbatim path on Windows.
pub open spec fn without_verbatim_prefix(s: Seq<char>) -> Seq<char> {
    if let Some(rest) = text::strip_prefix(s, "//?/UNC/"@) {
        "//"@ + rest
    } else if let Some(rest) = text::strip_prefix(s, "/?/UNC/"@) {
        "//"@ + rest
    } else if let Some(rest) = text::strip_prefix(s, "//?/"@) {
        rest
    } else if let Some(rest) = text::strip_prefix(s, "/?/"@) {
        rest
    } else {
        s
    }
}

/// `s` without the slashes in front.
pub open spec fn without_leading_slashes(s: Seq<char>) -> Seq<char>
    decreases s.len(),
{
    if s.len() > 0 && s[0] == '/' {
        without_leading_slashes(s.drop_first())
    } else {
        s
    }
}

/// The text of a path as it is shown: with slashes, without a verbatim prefix,
/// and with exactly two slashes in front where it had two or more.
pub open spec fn shown_path(s: Seq<char>) -> Seq<char> {
    let plain = without_verbatim_prefix(with_slashes(s));
    match text::strip_prefix(plain, "//"@) {
        Some(rest) => "//"@ + without_leading_slashes(rest),
        None => plain,
    }
}

fn replace_backslashes(s: &str) -> (r: String)
    ensures
        r@ == with_slashes(s@),
{
    let chars = text::chars_of(s);
    let mut out = String::new();
    let mut i: usize = 0;
    assert(out@ =~= with_slashes(chars@.take(0)));
    while i < chars.len()
        invariant
            i <= chars@.len(),
            out@ == with_slashes(chars@.take(i as int)),
        decreases chars@.len() - i,
    {
        let ghost before = out@;
        out.push(if chars[i] == '\\' { '/' } else { chars[i] });
        assert(out@ =~= with_slashes(chars@.take(i + 1)));
        i += 1;
    }
    assert(chars@.take(i as int) =~= s@);
    out
}

fn strip_windows_verbatim_prefix(s: &str) -> (r: String)
    ensures
        r@ == without_verbatim_prefix(s@),
{
    if let Some(rest) = text::without_prefix(s, "//?/UNC/") {
        return text::concat("//", rest);
    }
    if let Some(rest) = text::without_prefix(s, "/?/UNC/") {
        return text::concat("//", rest);
    }
    if let Some(rest) = text::without_prefix(s, "//?/") {
        return rest.to_string();
    }
    if let Some(rest) = text::without_prefix(s, "/?/") {
        return rest.to_string();
    }
    s.to_string()
}

fn trim_leading_slashes(s: &str) -> (r: String)
    ensures
        r@ == without_leading_slashes(s@),
{
    let chars = text::chars_of(s);
    let mut i: usize = 0;
    assert(chars@.skip(0) =~= s@);
    while i < chars.len() && chars[i] == '/'
        invariant
            i <= chars@.len(),
            without_leading_slashes(chars@.skip(i as int)) == without_leading_slashes(s@),
        decreases chars@.len() - i,
    {
        assert(chars@.skip(i as int).drop_first() =~= chars@.skip(i + 1));
        i += 1;
    }
    let r = text::string_of_range(&chars, i, chars.len());
    assert(r@ =~= chars@.skip(i as int));
    r
}

/// The text of a path as it is shown.
pub fn normalize_local_path_text(path_text: &str) -> (r: String)
    ensures
        r@ == shown_path(path_text@),
{
    let normalized = strip_windows_verbatim_prefix(replace_backslashes(path_text).as_str());
    match text::without_prefix(normalized.as_str(), "//") {
        Some(rest) => text::concat("//", trim_leading_slashes(rest).as_str()),
        None => normalized,
    }
}

proof fn lemma_slashes_gone(s: Seq<char>)
    ensures
        !(without_leading_slashes(s).len() > 0 && without_leading_slashes(s)[0] == '/'),
        forall|i: int|
            0 <= i < without_leading_slashes(s).len() ==> s.contains(
                #[trigger] without_leading_slashes(s)[i],
            ),
    decreases s.len(),
{
    if s.len() > 0 && s[0] == '/' {
        let rest = s.drop_first();
        lemma_slashes_gone(rest);
        assert forall|i: int| 0 <= i < without_leading_slashes(s).len() implies s.contains(
            #[trigger] without_leading_slashes(s)[i],
        ) by {
            let c = without_leading_slashes(rest)[i];
            assert(rest.contains(c));
            let k = choose|k: int| 0 <= k < rest.len() && rest[k] == c;
            assert(s[k + 1] == c);
        }
    }
}

proof fn lemma_stripped_chars(s: Seq<char>, p: Seq<char>)
    requires
        text::strip_prefix(s, p) is Some,
    ensures
        forall|i: int|
            0 <= i < text::strip_prefix(s, p)->0.len() ==> s.contains(
                #[trigger] text::strip_prefix(s, p)->0[i],
            ),
{
    let rest = text::strip_prefix(s, p)->0;
    assert forall|i: int| 0 <= i < rest.len() implies s.contains(#[trigger] rest[i]) by {
        assert(s[p.len() + i] == rest[i]);
    }
}

/// A path that is shown holds no backslash, and never more than two slashes in
/// front.
pub proof fn law_shown_path_is_clean(s: Seq<char>)
    ensures
        !shown_path(s).contains('\\'),
        !(shown_path(s).len() > 2 && shown_path(s)[0] == '/' && shown_path(s)[1] == '/'
            && shown_path(s)[2] == '/'),
{
    reveal_strlit("//?/UNC/");
    reveal_strlit("/?/UNC/");
    reveal_strlit("//?/");
    reveal_strlit("/?/");
    reveal_strlit("//");
    let slashed = with_slashes(s);
    assert(!slashed.contains('\\'));
    let plain = without_verbatim_prefix(slashed);
    assert(!plain.contains('\\')) by {
        if text::strip_prefix(slashed, "//?/UNC/"@) is Some {
            lemma_stripped_chars(slashed, "//?/UNC/"@);
        } else if text::strip_prefix(slashed, "/?/UNC/"@) is Some {
            lemma_stripped_chars(slashed, "/?/UNC/"@);
        } else if text::strip_prefix(slashed, "//?/"@) is Some {
            lemma_stripped_chars(slashed, "//?/"@);
        } else if text::strip_prefix(slashed, "/?/"@) is Some {
            lemma_stripped_chars(slashed, "/?/"@);
        }
    }
    match text::strip_prefix(plain, "//"@) {
        Some(rest) => {
            lemma_stripped_chars(plain, "//"@);
            lemma_slashes_gone(rest);
            let tail = without_leading_slashes(rest);
            let all = shown_path(s);
            assert forall|i: int| 0 <= i < all.len() implies all[i] != '\\' by {
                if i >= 2 {
                    assert(all[i] == tail[i - 2]);
                    assert(rest.contains(tail[i - 2]));
                    let k = choose|k: int| 0 <= k < rest.len() && rest[k] == tail[i - 2];
                    assert(plain.contains(rest[k]));
                }
            }
            if all.len() > 2 {
                assert(all[2] == tail[0]);
            }
        },
        None => {
            if plain.len() > 1 && plain[0] == '/' && plain[1] == '/' {
                assert(plain.take(2) =~= "//"@);
            }
        },
    }
}

/// The path `path` as it is shown.
pub fn normalize_local_path(path: &str) -> (r: String)
    ensures
        r@ == shown_path(path@),
{
    normalize_local_path_text(path)
}

/// A path that is not written in one of the special forms keeps every character, but for
/// its backslashes, which become slashes.
pub proof fn law_plain_path_keeps_its_characters(s: Seq<char>, i: int)
    requires
        s.len() < 2 || !((s[0] == '/' || s[0] == '\\') && (s[1] == '/' || s[1] == '\\' || s[1]
            == '?')),
    ensures
        shown_path(s).len() == s.len(),
        0 <= i < s.len() ==> shown_path(s)[i] == if s[i] == '\\' {
            '/'
        } else {
            s[i]
        },
{
    reveal_strlit("//?/UNC/");
    reveal_strlit("/?/UNC/");
    reveal_strlit("//?/");
    reveal_strlit("/?/");
    reveal_strlit("//");
    let t = with_slashes(s);
    assert(t.len() == s.len());
    lemma_no_special_start(t, "//?/UNC/"@);
    lemma_no_special_start(t, "/?/UNC/"@);
    lemma_no_special_start(t, "//?/"@);
    lemma_no_special_start(t, "/?/"@);
    lemma_no_special_start(t, "//"@);
}

proof fn lemma_no_special_start(t: Seq<char>, p: Seq<char>)
    requires
        t.len() < 2 || !(t[0] == '/' && (t[1] == '/' || t[1] == '?')),
        p.len() >= 2,
        p[0] == '/' && (p[1] == '/' || p[1] == '?'),
    ensures
        !text::occurs_at(t, p, 0),
{
    if text::occurs_at(t, p, 0) {
        let head = t.subrange(0, p.len() as int);
        assert(head[0] == t[0] && head[1] == t[1]);
    }
}

/// The marks in front of a path on Windows are not shown: a path on a drive starts with the
/// drive, and a path in the network with two slashes and the name of the machine.
pub proof fn law_marks_of_windows_are_not_shown(rest: Seq<char>)
    requires
        rest.len() > 0,
        !rest.contains('\\'),
        rest[0] != '/' && rest[0] != 'U',
    ensures
        shown_path("\\\\?\\"@ + rest) == rest,
        shown_path("\\\\?\\UNC\\"@ + rest) == "//"@ + rest,
        shown_path("\\\\"@ + rest) == "//"@ + rest || rest[0] == '?',
{
    reveal_strlit("//?/UNC/");
    reveal_strlit("/?/UNC/");
    reveal_strlit("//?/");
    reveal_strlit("/?/");
    reveal_strlit("//");
    reveal_strlit("\\\\?\\");
    reveal_strlit("\\\\?\\UNC\\");
    reveal_strlit("\\\\");
    let drive = with_slashes("\\\\?\\"@ + rest);
    let share = with_slashes("\\\\?\\UNC\\"@ + rest);
    let net = with_slashes("\\\\"@ + rest);
    assert forall|k: int| 0 <= k < rest.len() implies rest[k] != '\\' by {
        assert(rest.contains(rest[k]));
    }
    assert(drive =~= "//?/"@ + rest);
    assert(share =~= "//?/UNC/"@ + rest);
    assert(net =~= "//"@ + rest);
    // A drive.
    assert(drive[4] == rest[0]);
    if text::occurs_at(drive, "//?/UNC/"@, 0) {
        assert(drive.subrange(0, 8)[4] == 'U');
    }
    if text::occurs_at(drive, "/?/UNC/"@, 0) {
        assert(drive.subrange(0, 7)[1] == '?');
    }
    assert(drive.subrange(0, 4) =~= "//?/"@);
    assert(drive.skip(4) =~= rest);
    if text::occurs_at(rest, "//"@, 0) {
        assert(rest.subrange(0, 2)[0] == '/');
    }
    // A share.
    assert(share.subrange(0, 8) =~= "//?/UNC/"@);
    assert(share.skip(8) =~= rest);
    let named = "//"@ + rest;
    assert(named.subrange(0, 2) =~= "//"@);
    assert(named.skip(2) =~= rest);
    assert(without_leading_slashes(rest) == rest);
    // A share without a mark.
    if rest[0] != '?' {
        assert(net[2] == rest[0]);
        if text::occurs_at(net, "//?/UNC/"@, 0) {
            assert(net.subrange(0, 8)[2] == '?');
        }
        if text::occurs_at(net, "/?/UNC/"@, 0) {
            assert(net.subrange(0, 7)[1] == '?');
        }
        if text::occurs_at(net, "//?/"@, 0) {
            assert(net.subrange(0, 4)[2] == '?');
        }
        if text::occurs_at(net, "/?/"@, 0) {
            assert(net.subrange(0, 3)[1] == '?');
        }
    }
}

} // verus!
