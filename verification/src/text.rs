//! Text primitives over sequences of characters.

use vstd::prelude::*;

verus! {

/// Whether `c` has the Unicode `White_Space` property.
pub open spec fn is_whitespace(c: char) -> bool {
    let n = c as u32;
    ||| 0x9 <= n <= 0xd
    ||| n == 0x20
    ||| n == 0x85
    ||| n == 0xa0
    ||| n == 0x1680
    ||| 0x2000 <= n <= 0x200a
    ||| n == 0x2028
    ||| n == 0x2029
    ||| n == 0x202f
    ||| n == 0x205f
    ||| n == 0x3000
}

/// `char::is_whitespace` holds exactly of the characters that the Unicode
/// Character Database (`PropList.txt`) gives the `White_Space` property.
pub assume_specification[ char::is_whitespace ](c: char) -> (b: bool)
    ensures
        b == is_whitespace(c),
;

/// `String::push` appends the given character to the end of the string.
pub assume_specification[ String::push ](s: &mut String, c: char)
    ensures
        final(s)@ == old(s)@.push(c),
;

/// `==` on string slices compares the characters of both.
pub assume_specification[ <str as PartialEq>::eq ](s: &str, other: &str) -> (b: bool)
    ensures
        b == (s@ == other@),
;

/// Whether `a` and `b` hold the same characters.
pub fn same(a: &str, b: &str) -> (r: bool)
    ensures
        r == (a@ == b@),
{
    *a == *b
}

/// `s` without its leading whitespace.
pub open spec fn trim_start(s: Seq<char>) -> Seq<char>
    decreases s.len(),
{
    if s.len() > 0 && is_whitespace(s[0]) {
        trim_start(s.drop_first())
    } else {
        s
    }
}

/// `s` without its trailing whitespace.
pub open spec fn trim_end(s: Seq<char>) -> Seq<char>
    decreases s.len(),
{
    if s.len() > 0 && is_whitespace(s.last()) {
        trim_end(s.drop_last())
    } else {
        s
    }
}

/// `s` without leading and trailing whitespace.
pub open spec fn trim(s: Seq<char>) -> Seq<char> {
    trim_end(trim_start(s))
}

proof fn lemma_trim_start_front(s: Seq<char>)
    ensures
        trim_start(s).len() > 0 ==> !is_whitespace(trim_start(s)[0]),
    decreases s.len(),
{
    if s.len() > 0 && is_whitespace(s[0]) {
        lemma_trim_start_front(s.drop_first());
    }
}

proof fn lemma_trim_end_ends(s: Seq<char>)
    ensures
        trim_end(s).len() > 0 ==> trim_end(s)[0] == s[0] && !is_whitespace(trim_end(s).last()),
        trim_end(s).len() <= s.len(),
    decreases s.len(),
{
    if s.len() > 0 && is_whitespace(s.last()) {
        lemma_trim_end_ends(s.drop_last());
    }
}

/// What is left without leading and trailing whitespace has none of it.
pub proof fn lemma_trim_is_stable(s: Seq<char>)
    ensures
        trim(trim(s)) == trim(s),
{
    lemma_trim_start_front(s);
    lemma_trim_end_ends(trim_start(s));
}

/// `str::trim` removes leading and trailing whitespace.
pub assume_specification[ str::trim ](s: &str) -> (r: &str)
    ensures
        r@ == trim(s@),
;

/// `str::trim_start` removes leading whitespace.
pub assume_specification[ str::trim_start ](s: &str) -> (r: &str)
    ensures
        r@ == trim_start(s@),
;

/// `str::trim_end` removes trailing whitespace.
pub assume_specification[ str::trim_end ](s: &str) -> (r: &str)
    ensures
        r@ == trim_end(s@),
;

/// The characters of `s`, in order.
pub fn chars_of(s: &str) -> (v: Vec<char>)
    ensures
        v@ == s@,
{
    let mut v: Vec<char> = Vec::new();
    for c in it: s.chars()
        invariant
            v@ == it.seq().take(it.index()),
            it.seq() == s@,
    {
        v.push(c);
    }
    v
}

/// The string made of the characters `chars[from..to]`.
pub fn string_of_range(chars: &[char], from: usize, to: usize) -> (s: String)
    requires
        from <= to <= chars@.len(),
    ensures
        s@ == chars@.subrange(from as int, to as int),
{
    let mut s = String::new();
    let mut i: usize = from;
    while i < to
        invariant
            from <= i <= to <= chars@.len(),
            s@ == chars@.subrange(from as int, i as int),
        decreases to - i,
    {
        s.push(chars[i]);
        i += 1;
    }
    s
}

/// The position of the first `c` in `s`, or the length of `s` where it has none.
pub open spec fn first_index_of(s: Seq<char>, c: char) -> nat
    decreases s.len(),
{
    if s.len() == 0 || s[0] == c {
        0
    } else {
        1nat + first_index_of(s.drop_first(), c)
    }
}

/// `first_index_of` points at the first `c`, or past the end.
pub proof fn lemma_first_index_of(s: Seq<char>, c: char)
    ensures
        0 <= first_index_of(s, c) <= s.len(),
        forall|k: int| 0 <= k < first_index_of(s, c) ==> s[k] != c,
        first_index_of(s, c) < s.len() ==> s[first_index_of(s, c) as int] == c,
        s.contains(c) <==> first_index_of(s, c) < s.len(),
    decreases s.len(),
{
    if s.len() > 0 && s[0] != c {
        lemma_first_index_of(s.drop_first(), c);
        let t = s.drop_first();
        assert forall|k: int| 0 <= k < first_index_of(s, c) implies s[k] != c by {
            if k > 0 {
                assert(t[k - 1] == s[k]);
            }
        }
        if s.contains(c) {
            let k = choose|k: int| 0 <= k < s.len() && s[k] == c;
            assert(t[k - 1] == c);
        }
    }
}

/// Any position with those properties is the first index.
pub proof fn lemma_first_index_of_unique(s: Seq<char>, c: char, n: int)
    requires
        0 <= n <= s.len(),
        forall|k: int| 0 <= k < n ==> s[k] != c,
        n < s.len() ==> s[n] == c,
    ensures
        first_index_of(s, c) == n,
{
    lemma_first_index_of(s, c);
    let m = first_index_of(s, c) as int;
    if m < n {
        assert(s[m] != c);
    } else if n < m {
        assert(s[n] != c);
    }
}

/// The position of the first `c` at or after `from`, or the length of `chars`.
pub fn find_char(chars: &[char], c: char, from: usize) -> (n: usize)
    requires
        from <= chars@.len(),
    ensures
        n == from + first_index_of(chars@.skip(from as int), c),
        from <= n <= chars@.len(),
{
    let mut n: usize = from;
    while n < chars.len() && chars[n] != c
        invariant
            from <= n <= chars@.len(),
            forall|k: int| from <= k < n ==> chars@[k] != c,
        decreases chars@.len() - n,
    {
        n += 1;
    }
    proof {
        lemma_first_index_of_unique(chars@.skip(from as int), c, n - from);
    }
    n
}

/// `s` without one trailing carriage return.
pub open spec fn strip_cr(s: Seq<char>) -> Seq<char> {
    if s.len() > 0 && s.last() == '\r' {
        s.drop_last()
    } else {
        s
    }
}

/// The lines of `s`: a line ends at a line feed or at a carriage return and a
/// line feed, neither of which belongs to it; the last line needs no ending.
pub open spec fn lines(s: Seq<char>) -> Seq<Seq<char>>
    decreases s.len(),
{
    let n = first_index_of(s, '\n') as int;
    if s.len() == 0 {
        seq![]
    } else if n >= s.len() {
        seq![s]
    } else {
        seq![strip_cr(s.take(n))] + lines(s.skip(n + 1))
    }
}

/// No line holds a line feed.
pub proof fn lemma_lines_hold_no_line_feed(s: Seq<char>)
    ensures
        forall|i: int| 0 <= i < lines(s).len() ==> !(#[trigger] lines(s)[i]).contains('\n'),
    decreases s.len(),
{
    let n = first_index_of(s, '\n') as int;
    lemma_first_index_of(s, '\n');
    if s.len() > 0 && n < s.len() {
        let rest = s.skip(n + 1);
        lemma_lines_hold_no_line_feed(rest);
        let first = strip_cr(s.take(n));
        assert forall|k: int| 0 <= k < first.len() implies first[k] != '\n' by {
            assert(first[k] == s[k]);
        }
        assert forall|i: int| 0 <= i < lines(s).len() implies !(#[trigger] lines(s)[i]).contains(
            '\n',
        ) by {
            if i > 0 {
                assert(lines(s)[i] == lines(rest)[i - 1]);
            }
        }
    }
}

/// Trimming adds no character.
pub proof fn lemma_trim_holds_only_its_own(s: Seq<char>, c: char)
    requires
        !s.contains(c),
    ensures
        !trim(s).contains(c),
{
    lemma_trim_start_holds_only_its_own(s, c);
    lemma_trim_end_holds_only_its_own(trim_start(s), c);
}

proof fn lemma_trim_start_holds_only_its_own(s: Seq<char>, c: char)
    requires
        !s.contains(c),
    ensures
        !trim_start(s).contains(c),
    decreases s.len(),
{
    if s.len() > 0 && is_whitespace(s[0]) {
        assert forall|k: int| 0 <= k < s.drop_first().len() implies s.drop_first()[k] != c by {
            assert(s.drop_first()[k] == s[k + 1]);
        }
        lemma_trim_start_holds_only_its_own(s.drop_first(), c);
    }
}

proof fn lemma_trim_end_holds_only_its_own(s: Seq<char>, c: char)
    requires
        !s.contains(c),
    ensures
        !trim_end(s).contains(c),
    decreases s.len(),
{
    if s.len() > 0 && is_whitespace(s.last()) {
        assert forall|k: int| 0 <= k < s.drop_last().len() implies s.drop_last()[k] != c by {
            assert(s.drop_last()[k] == s[k]);
        }
        lemma_trim_end_holds_only_its_own(s.drop_last(), c);
    }
}

/// What the strings of `v` hold.
pub open spec fn texts(v: Seq<String>) -> Seq<Seq<char>> {
    v.map_values(|s: String| s@)
}

/// The lines of `s`.
pub fn split_lines(s: &str) -> (r: Vec<String>)
    ensures
        texts(r@) == lines(s@),
{
    let chars = chars_of(s);
    let mut out: Vec<String> = Vec::new();
    let mut i: usize = 0;
    assert(chars@.skip(0) =~= s@);
    assert(texts(out@) =~= seq![]);
    while i < chars.len()
        invariant
            i <= chars@.len(),
            texts(out@) + lines(chars@.skip(i as int)) == lines(s@),
        decreases chars@.len() - i,
    {
        let j = find_char(&chars, '\n', i);
        let ghost rest = chars@.skip(i as int);
        let ghost before = texts(out@);
        proof {
            lemma_first_index_of(rest, '\n');
        }
        if j >= chars.len() {
            let line = string_of_range(&chars, i, j);
            out.push(line);
            proof {
                assert(line@ =~= rest);
                assert(texts(out@) =~= before.push(rest));
                assert(before + seq![rest] =~= before.push(rest));
                assert(chars@.skip(j as int) =~= seq![]);
                lemma_first_index_of(chars@.skip(j as int), '\n');
                assert(texts(out@) + lines(chars@.skip(j as int)) =~= texts(out@));
            }
            i = j;
        } else {
            let end: usize = if i < j && chars[j - 1] == '\r' { j - 1 } else { j };
            let line = string_of_range(&chars, i, end);
            out.push(line);
            proof {
                assert(strip_cr(rest.take(j - i)) =~= line@);
                assert(rest.skip(j - i + 1) =~= chars@.skip(j + 1));
                assert(texts(out@) =~= before.push(line@));
                assert(texts(out@) + lines(chars@.skip(j + 1)) =~= before + (seq![line@] + lines(
                    chars@.skip(j + 1),
                )));
            }
            i = j + 1;
        }
    }
    proof {
        assert(chars@.skip(i as int) =~= seq![]);
        lemma_first_index_of(chars@.skip(i as int), '\n');
        assert(texts(out@) + lines(chars@.skip(i as int)) =~= texts(out@));
    }
    out
}

/// Whether `p` stands in `s` at position `n`.
pub open spec fn occurs_at(s: Seq<char>, p: Seq<char>, n: int) -> bool {
    0 <= n && n + p.len() <= s.len() && s.subrange(n, n + p.len()) == p
}

/// The first position at which `p` stands in `s`.
pub open spec fn find(s: Seq<char>, p: Seq<char>) -> Option<nat>
    decreases s.len(),
{
    if occurs_at(s, p, 0) {
        Some(0nat)
    } else if s.len() == 0 {
        None
    } else {
        match find(s.drop_first(), p) {
            Some(n) => Some(n + 1),
            None => None,
        }
    }
}

/// `find` gives an occurrence with none before it, or there is none at all.
pub proof fn lemma_find(s: Seq<char>, p: Seq<char>)
    ensures
        match find(s, p) {
            Some(n) => occurs_at(s, p, n as int) && forall|k: int| 0 <= k < n ==> !occurs_at(s, p, k),
            None => forall|k: int| !occurs_at(s, p, k),
        },
    decreases s.len(),
{
    if !occurs_at(s, p, 0) && s.len() > 0 {
        let t = s.drop_first();
        lemma_find(t, p);
        assert forall|k: int| k >= 1 implies occurs_at(s, p, k) == occurs_at(t, p, k - 1) by {
            if k + p.len() <= s.len() {
                assert(s.subrange(k, k + p.len()) =~= t.subrange(k - 1, k - 1 + p.len()));
            }
        }
        match find(t, p) {
            Some(n) => {
                assert(occurs_at(s, p, n as int + 1));
            },
            None => {
                assert forall|k: int| !occurs_at(s, p, k) by {
                    if k >= 1 {
                        assert(!occurs_at(t, p, k - 1));
                    }
                }
            },
        }
    } else if !occurs_at(s, p, 0) {
        assert forall|k: int| !occurs_at(s, p, k) by {}
    }
}

/// Any position with those properties is what `find` gives.
pub proof fn lemma_find_unique(s: Seq<char>, p: Seq<char>, n: int)
    requires
        occurs_at(s, p, n),
        forall|k: int| 0 <= k < n ==> !occurs_at(s, p, k),
    ensures
        find(s, p) == Some(n as nat),
{
    lemma_find(s, p);
    match find(s, p) {
        Some(m) => {
            if m < n {
                assert(!occurs_at(s, p, m as int));
            } else if n < m {
                assert(!occurs_at(s, p, n));
            }
        },
        None => {
            assert(!occurs_at(s, p, n));
        },
    }
}

/// Whether `pat` stands in `chars` at position `at`.
pub fn matches_at(chars: &[char], pat: &[char], at: usize) -> (b: bool)
    requires
        at <= chars@.len(),
    ensures
        b == occurs_at(chars@, pat@, at as int),
{
    if pat.len() > chars.len() - at {
        return false;
    }
    let mut i: usize = 0;
    while i < pat.len()
        invariant
            i <= pat@.len(),
            at + pat@.len() <= chars@.len(),
            chars@.len() <= usize::MAX,
            forall|k: int| 0 <= k < i ==> chars@[at + k] == pat@[k],
        decreases pat@.len() - i,
    {
        if chars[at + i] != pat[i] {
            proof {
                assert(chars@.subrange(at as int, at + pat@.len())[i as int] != pat@[i as int]);
            }
            return false;
        }
        i += 1;
    }
    assert(chars@.subrange(at as int, at + pat@.len()) =~= pat@);
    true
}

/// The first position at or after `from` at which `pat` stands in `chars`.
pub fn find_text(chars: &[char], pat: &[char], from: usize) -> (r: Option<usize>)
    requires
        from <= chars@.len(),
    ensures
        match (r, find(chars@.skip(from as int), pat@)) {
            (Some(n), Some(k)) => n == from + k && occurs_at(chars@, pat@, n as int) && n + pat@.len()
                <= usize::MAX,
            (None, None) => true,
            _ => false,
        },
{
    let ghost rest = chars@.skip(from as int);
    let len: usize = chars.len();
    let mut n: usize = from;
    loop
        invariant
            from <= n <= chars@.len(),
            len == chars@.len(),
            rest == chars@.skip(from as int),
            forall|k: int| 0 <= k < n - from ==> !occurs_at(rest, pat@, k),
        decreases chars@.len() - n,
    {
        let here = matches_at(chars, pat, n);
        proof {
            if n + pat@.len() <= chars@.len() {
                assert(rest.subrange(n - from, n - from + pat@.len()) =~= chars@.subrange(
                    n as int,
                    n + pat@.len(),
                ));
            }
            assert(here == occurs_at(rest, pat@, n - from));
        }
        if here {
            proof {
                lemma_find_unique(rest, pat@, n - from);
            }
            return Some(n);
        }
        if n == len {
            proof {
                lemma_find(rest, pat@);
            }
            return None;
        }
        n += 1;
    }
}

/// `s` without the prefix `p`, where `s` starts with it.
pub open spec fn strip_prefix(s: Seq<char>, p: Seq<char>) -> Option<Seq<char>> {
    if occurs_at(s, p, 0) {
        Some(s.skip(p.len() as int))
    } else {
        None
    }
}

/// `s` without the prefix `p`, where `s` starts with it.
pub fn without_prefix<'a>(s: &'a str, p: &str) -> (r: Option<&'a str>)
    ensures
        match (r, strip_prefix(s@, p@)) {
            (Some(t), Some(u)) => t@ == u,
            (None, None) => true,
            _ => false,
        },
{
    let n = p.unicode_len();
    let len = s.unicode_len();
    if n > len {
        return None;
    }
    let head = s.substring_char(0, n);
    if same(head, p) {
        let rest = s.substring_char(n, len);
        assert(rest@ =~= s@.skip(p@.len() as int));
        Some(rest)
    } else {
        None
    }
}

/// The lower case of `s`.
pub uninterp spec fn lowercase(s: Seq<char>) -> Seq<char>;

/// `c` as a lower case letter, where it is an ASCII upper case letter.
pub open spec fn ascii_lower(c: char) -> char {
    if 'A' <= c <= 'Z' {
        ((c as u32) + 32) as char
    } else {
        c
    }
}

/// `str::to_lowercase` maps every character to its lower case. The result
/// depends on the string alone; of a string of ASCII characters it lowers the
/// letters and keeps everything else.
pub assume_specification[ str::to_lowercase ](s: &str) -> (r: String)
    ensures
        r@ == lowercase(s@),
        s@.all(|c: char| (c as u32) < 0x80) ==> r@ == s@.map_values(|c: char| ascii_lower(c)),
;

/// Whether `needle` stands somewhere in `s`.
pub fn contains_text(s: &str, needle: &str) -> (b: bool)
    ensures
        b == (find(s@, needle@) is Some),
{
    let chars = chars_of(s);
    let pat = chars_of(needle);
    assert(chars@.skip(0) =~= s@);
    find_text(&chars, &pat, 0).is_some()
}

/// The decimal digit `d`.
pub open spec fn digit(d: nat) -> char {
    if d == 0 {
        '0'
    } else if d == 1 {
        '1'
    } else if d == 2 {
        '2'
    } else if d == 3 {
        '3'
    } else if d == 4 {
        '4'
    } else if d == 5 {
        '5'
    } else if d == 6 {
        '6'
    } else if d == 7 {
        '7'
    } else if d == 8 {
        '8'
    } else {
        '9'
    }
}

/// The decimal digit `d`.
pub fn digit_char(d: u64) -> (c: char)
    requires
        d < 10,
    ensures
        c == digit(d as nat),
{
    if d == 0 {
        '0'
    } else if d == 1 {
        '1'
    } else if d == 2 {
        '2'
    } else if d == 3 {
        '3'
    } else if d == 4 {
        '4'
    } else if d == 5 {
        '5'
    } else if d == 6 {
        '6'
    } else if d == 7 {
        '7'
    } else if d == 8 {
        '8'
    } else {
        '9'
    }
}

/// The decimal notation of `n`, without leading zeros.
pub open spec fn decimal(n: nat) -> Seq<char>
    decreases n,
{
    if n < 10 {
        seq![digit(n)]
    } else {
        decimal(n / 10).push(digit(n % 10))
    }
}

/// The decimal notation of `n`, without leading zeros.
pub fn decimal_string(n: u64) -> (s: String)
    ensures
        s@ == decimal(n as nat),
    decreases n,
{
    if n < 10 {
        let mut s = String::new();
        s.push(digit_char(n));
        assert(s@ =~= decimal(n as nat));
        s
    } else {
        let mut s = decimal_string(n / 10);
        s.push(digit_char(n % 10));
        s
    }
}

/// `n` with at least two digits.
pub open spec fn two_digits(n: nat) -> Seq<char> {
    if n < 10 {
        seq!['0', digit(n)]
    } else {
        decimal(n)
    }
}

/// `n` with at least two digits.
pub fn two_digit_string(n: u64) -> (s: String)
    ensures
        s@ == two_digits(n as nat),
{
    if n < 10 {
        let mut s = String::new();
        s.push('0');
        s.push(digit_char(n));
        assert(s@ =~= two_digits(n as nat));
        s
    } else {
        decimal_string(n)
    }
}

/// `n` copies of `c`.
pub open spec fn repeated(c: char, n: nat) -> Seq<char> {
    Seq::new(n, |i: int| c)
}

/// `n` copies of `c`.
pub fn repeat_char(c: char, n: usize) -> (s: String)
    ensures
        s@ == repeated(c, n as nat),
{
    let mut s = String::new();
    let mut i: usize = 0;
    while i < n
        invariant
            i <= n,
            s@ == repeated(c, i as nat),
        decreases n - i,
    {
        s.push(c);
        assert(s@ =~= repeated(c, (i + 1) as nat));
        i += 1;
    }
    s
}

/// `a` followed by `b`.
pub fn concat(a: &str, b: &str) -> (s: String)
    ensures
        s@ == a@ + b@,
{
    let mut s = a.to_string();
    s.append(b);
    s
}

/// `a`, `b` and `c` in a row.
pub fn concat3(a: &str, b: &str, c: &str) -> (s: String)
    ensures
        s@ == a@ + b@ + c@,
{
    let mut s = a.to_string();
    s.append(b);
    s.append(c);
    s
}

/// Whether `s` ends with `tail`.
pub open spec fn ends_in(s: Seq<char>, tail: Seq<char>) -> bool {
    s.len() >= tail.len() && s.skip(s.len() - tail.len()) == tail
}

/// What is put behind a text is its end.
pub proof fn lemma_ends_in(head: Seq<char>, tail: Seq<char>)
    ensures
        ends_in(head + tail, tail),
{
    assert((head + tail).skip(head.len() as int) =~= tail);
}

/// The number that decimal digits stand for.
pub open spec fn number_read(s: Seq<char>) -> nat
    decreases s.len(),
{
    if s.len() == 0 {
        0
    } else {
        10 * number_read(s.drop_last()) + (s.last() as u32 - '0' as u32) as nat
    }
}

/// A number is written in decimal digits, without a zero in front unless it is zero,
/// and reading them gives it back.
pub proof fn law_number_is_read_back(n: nat)
    ensures
        number_read(decimal(n)) == n,
        decimal(n).len() > 0,
        forall|i: int| 0 <= i < decimal(n).len() ==> '0' <= #[trigger] decimal(n)[i] <= '9',
        n > 0 ==> decimal(n)[0] != '0',
    decreases n,
{
    let s = decimal(n);
    if n < 10 {
        assert(s.drop_last() =~= seq![]);
        assert(number_read(s.drop_last()) == 0);
        lemma_digit_is_read_back(n);
    } else {
        law_number_is_read_back(n / 10);
        lemma_digit_is_read_back(n % 10);
        assert(s.drop_last() =~= decimal(n / 10));
        assert forall|i: int| 0 <= i < s.len() implies '0' <= #[trigger] s[i] <= '9' by {
            if i < s.len() - 1 {
                assert(s[i] == decimal(n / 10)[i]);
            }
        }
        assert(s[0] == decimal(n / 10)[0]);
    }
}

/// Two digits are written for a number below a hundred, and reading them gives it
/// back.
pub proof fn law_two_digits_are_read_back(n: nat)
    requires
        n < 100,
    ensures
        two_digits(n).len() == 2,
        number_read(two_digits(n)) == n,
{
    let s = two_digits(n);
    if n < 10 {
        lemma_digit_is_read_back(n);
        lemma_digit_is_read_back(0);
        assert(s.drop_last() =~= seq!['0']);
        assert(seq!['0'].drop_last() =~= seq![]);
        assert(number_read(seq![]) == 0);
        assert(number_read(seq!['0']) == 0);
    } else {
        law_number_is_read_back(n);
        assert(decimal(n / 10) == seq![digit(n / 10)]);
    }
}

proof fn lemma_digit_is_read_back(d: nat)
    requires
        d < 10,
    ensures
        digit(d) as u32 - '0' as u32 == d,
        '0' <= digit(d) <= '9',
        d > 0 ==> digit(d) != '0',
{
}

/// What is taken away by trimming is whitespace on both sides, all of it: what is
/// left stands in the text, with nothing but whitespace before and behind it, and
/// has none at its own ends.
pub proof fn law_trim_takes_only_whitespace(s: Seq<char>)
    ensures
        exists|from: int|
            #![trigger s.subrange(from, from + trim(s).len())]
            {
                &&& 0 <= from && from + trim(s).len() <= s.len()
                &&& s.subrange(from, from + trim(s).len()) == trim(s)
                &&& forall|i: int|
                    (0 <= i < from || from + trim(s).len() <= i < s.len()) ==> is_whitespace(
                        #[trigger] s[i],
                    )
            },
        trim(s).len() > 0 ==> !is_whitespace(trim(s)[0]) && !is_whitespace(trim(s).last()),
{
    lemma_trim_start_front(s);
    lemma_trim_end_ends(trim_start(s));
    lemma_trim_start_skips(s);
    lemma_trim_end_takes(trim_start(s));
    let from = s.len() - trim_start(s).len();
    let n = trim(s).len() as int;
    assert(s.subrange(from, from + n) =~= trim(s)) by {
        assert(trim(s) =~= trim_start(s).take(n));
        assert(trim_start(s) =~= s.skip(from));
    }
    assert forall|i: int| (0 <= i < from || from + n <= i < s.len()) implies is_whitespace(
        #[trigger] s[i],
    ) by {
        if i >= from {
            assert(s[i] == trim_start(s)[i - from]);
        }
    }
}

proof fn lemma_trim_start_skips(s: Seq<char>)
    ensures
        trim_start(s).len() <= s.len(),
        trim_start(s) == s.skip(s.len() - trim_start(s).len()),
        forall|i: int|
            0 <= i < s.len() - trim_start(s).len() ==> is_whitespace(#[trigger] s[i]),
    decreases s.len(),
{
    if s.len() > 0 && is_whitespace(s[0]) {
        let rest = s.drop_first();
        lemma_trim_start_skips(rest);
        let t = trim_start(s);
        assert(s.skip(s.len() - t.len()) =~= rest.skip(rest.len() - t.len()));
        assert forall|i: int| 0 <= i < s.len() - t.len() implies is_whitespace(
            #[trigger] s[i],
        ) by {
            if i > 0 {
                assert(rest[i - 1] == s[i]);
            }
        }
    } else {
        assert(s.skip(0) =~= s);
    }
}

proof fn lemma_trim_end_takes(s: Seq<char>)
    ensures
        trim_end(s).len() <= s.len(),
        trim_end(s) == s.take(trim_end(s).len() as int),
        forall|i: int| trim_end(s).len() <= i < s.len() ==> is_whitespace(#[trigger] s[i]),
    decreases s.len(),
{
    if s.len() > 0 && is_whitespace(s.last()) {
        let rest = s.drop_last();
        lemma_trim_end_takes(rest);
        let t = trim_end(s);
        assert(s.take(t.len() as int) =~= rest.take(t.len() as int));
        assert forall|i: int| t.len() <= i < s.len() implies is_whitespace(#[trigger] s[i]) by {
            if i < rest.len() {
                assert(rest[i] == s[i]);
            }
        }
    } else {
        assert(s.take(s.len() as int) =~= s);
    }
}

/// A text is cut into lines at its line feeds, and a carriage return in front of a line feed
/// belongs to it; a text that ends with a line feed has no empty line behind it.
pub proof fn law_lines_end_at_line_feeds(line: Seq<char>, rest: Seq<char>)
    requires
        !line.contains('\n'),
    ensures
        lines(seq![]).len() == 0,
        line.len() > 0 ==> lines(line) == seq![line],
        line.len() == 0 || line.last() != '\r' ==> lines(line + seq!['\n'] + rest) == seq![line]
            + lines(rest),
        lines(line + seq!['\r', '\n'] + rest) == seq![line] + lines(rest),
{
    let n = line.len() as int;
    lemma_first_index_of(line, '\n');
    let fed = line + seq!['\n'] + rest;
    assert(fed[n] == '\n');
    assert forall|k: int| 0 <= k < n implies #[trigger] fed[k] != '\n' by {
        assert(fed[k] == line[k]);
        assert(line.contains(line[k]));
    }
    lemma_first_index_of_unique(fed, '\n', n);
    assert(fed.take(n) =~= line);
    assert(fed.skip(n + 1) =~= rest);
    let returned = line + seq!['\r', '\n'] + rest;
    assert(returned[n + 1] == '\n');
    assert forall|k: int| 0 <= k < n + 1 implies #[trigger] returned[k] != '\n' by {
        if k < n {
            assert(returned[k] == line[k]);
            assert(line.contains(line[k]));
        }
    }
    lemma_first_index_of_unique(returned, '\n', n + 1);
    let head = returned.take(n + 1);
    assert(head.last() == '\r');
    assert(head.drop_last() =~= line);
    assert(returned.skip(n + 2) =~= rest);
}

/// A prefix is taken away where the text starts with it, and nothing else is.
pub proof fn law_prefix_is_taken_away(p: Seq<char>, rest: Seq<char>, s: Seq<char>)
    ensures
        strip_prefix(p + rest, p) == Some(rest),
        strip_prefix(s, p) matches Some(t) ==> s == p + t,
{
    assert((p + rest).subrange(0, p.len() as int) =~= p);
    assert((p + rest).skip(p.len() as int) =~= rest);
    if strip_prefix(s, p) is Some {
        assert(s =~= s.subrange(0, p.len() as int) + s.skip(p.len() as int));
    }
}

} // verus!
