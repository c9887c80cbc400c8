//! Small operations on text that the rest of the crate states its contracts
//! with: equality, prefixes and trimming, all over the characters of a string.

use vstd::prelude::*;
use vstd::string::*;

verus! {

/// Whether `c` is white space: a character with the Unicode property
/// `White_Space`.
pub open spec fn is_space(c: char) -> bool {
    let n = c as u32;
    ||| 0x09 <= n <= 0x0d
    ||| n == 0x20
    ||| n == 0x85
    ||| n == 0xa0
    ||| n == 0x1680
    ||| 0x2000 <= n <= 0x200a
    ||| n == 0x2028
    ||| n == 0x2029
    ||| n == 0x202f
    ||| n == 0x205f
    ||| n == 0x3000
}

/// The number of white-space characters that `s` begins with.
pub open spec fn leading_spaces(s: Seq<char>) -> nat
    decreases s.len(),
{
    if s.len() > 0 && is_space(s[0]) {
        1 + leading_spaces(s.drop_first())
    } else {
        0
    }
}

/// The number of white-space characters that `s` ends with.
pub open spec fn trailing_spaces(s: Seq<char>) -> nat
    decreases s.len(),
{
    if s.len() > 0 && is_space(s[s.len() - 1]) {
        1 + trailing_spaces(s.drop_last())
    } else {
        0
    }
}

/// `s` without the white space at its start.
pub open spec fn trimmed_start(s: Seq<char>) -> Seq<char> {
    s.subrange(leading_spaces(s) as int, s.len() as int)
}

/// `s` without the white space at its start and at its end.
pub open spec fn trimmed(s: Seq<char>) -> Seq<char> {
    let rest = trimmed_start(s);
    rest.subrange(0, rest.len() - trailing_spaces(rest))
}

/// No more characters lead or trail than the text has.
pub proof fn lemma_spaces_bounded(s: Seq<char>)
    ensures
        leading_spaces(s) <= s.len(),
        trailing_spaces(s) <= s.len(),
    decreases s.len(),
{
    if s.len() > 0 {
        lemma_spaces_bounded(s.drop_first());
        lemma_spaces_bounded(s.drop_last());
    }
}

/// Trimmed text neither starts nor ends with white space, and trimming it
/// again changes nothing.
pub proof fn lemma_trimmed_is_trim(s: Seq<char>)
    ensures
        trimmed(s).len() > 0 ==> !is_space(trimmed(s)[0]) && !is_space(
            trimmed(s)[trimmed(s).len() - 1],
        ),
        trimmed(trimmed(s)) == trimmed(s),
{
    lemma_spaces_bounded(s);
    let rest = trimmed_start(s);
    lemma_leading_stops(s);
    lemma_spaces_bounded(rest);
    lemma_trailing_stops(rest);
    let t = trimmed(s);
    if t.len() > 0 {
        assert(t[0] == rest[0]);
        assert(leading_spaces(t) == 0);
        assert(trailing_spaces(t) == 0);
        assert(trimmed_start(t) == t);
        assert(trimmed(t) == t);
    } else {
        assert(leading_spaces(t) == 0);
        assert(trimmed_start(t) == t);
        assert(trailing_spaces(t) == 0);
        assert(trimmed(t) == t);
    }
}

/// What follows the leading white space does not start with white space.
proof fn lemma_leading_stops(s: Seq<char>)
    ensures
        leading_spaces(s) <= s.len(),
        leading_spaces(s) < s.len() ==> !is_space(s[leading_spaces(s) as int]),
    decreases s.len(),
{
    if s.len() > 0 && is_space(s[0]) {
        lemma_leading_stops(s.drop_first());
    }
}

/// What precedes the trailing white space does not end with white space.
proof fn lemma_trailing_stops(s: Seq<char>)
    ensures
        trailing_spaces(s) <= s.len(),
        trailing_spaces(s) < s.len() ==> !is_space(s[s.len() - trailing_spaces(s) - 1]),
    decreases s.len(),
{
    if s.len() > 0 && is_space(s[s.len() - 1]) {
        lemma_trailing_stops(s.drop_last());
    }
}

/// Whether `c` is white space.
pub fn is_space_char(c: char) -> (r: bool)
    ensures
        r == is_space(c),
{
    let n: u32 = c as u32;
    (0x09 <= n && n <= 0x0d) || n == 0x20 || n == 0x85 || n == 0xa0 || n == 0x1680 || (0x2000 <= n
        && n <= 0x200a) || n == 0x2028 || n == 0x2029 || n == 0x202f || n == 0x205f || n == 0x3000
}

/// Whether the two texts hold the same characters.
pub fn same(a: &str, b: &str) -> (r: bool)
    ensures
        r == (a@ == b@),
{
    let n = a.unicode_len();
    if n != b.unicode_len() {
        return false;
    }
    let mut i: usize = 0;
    while i < n
        invariant
            i <= n,
            n == a@.len(),
            n == b@.len(),
            forall|k: int| 0 <= k < i ==> a@[k] == b@[k],
        decreases n - i,
    {
        if a.get_char(i) != b.get_char(i) {
            return false;
        }
        i += 1;
    }
    assert(a@ =~= b@);
    true
}

/// Whether `text` begins with `prefix`.
pub fn starts_with(text: &str, prefix: &str) -> (r: bool)
    ensures
        r == prefix@.is_prefix_of(text@),
{
    let n = prefix.unicode_len();
    if n > text.unicode_len() {
        return false;
    }
    let mut i: usize = 0;
    while i < n
        invariant
            i <= n,
            n == prefix@.len(),
            n <= text@.len(),
            forall|k: int| 0 <= k < i ==> prefix@[k] == text@[k],
        decreases n - i,
    {
        if prefix.get_char(i) != text.get_char(i) {
            return false;
        }
        i += 1;
    }
    assert(prefix@ =~= text@.subrange(0, n as int));
    true
}

/// The position behind the last `c` in `s`, or zero where `c` does not
/// occur.
pub open spec fn after_last(s: Seq<char>, c: char) -> int
    decreases s.len(),
{
    if s.len() == 0 {
        0
    } else if s[s.len() - 1] == c {
        s.len() as int
    } else {
        after_last(s.drop_last(), c)
    }
}

/// The position behind the last `c` lies within the text.
pub proof fn lemma_after_last_bounded(s: Seq<char>, c: char)
    ensures
        0 <= after_last(s, c) <= s.len(),
    decreases s.len(),
{
    if s.len() > 0 && s[s.len() - 1] != c {
        lemma_after_last_bounded(s.drop_last(), c);
    }
}

/// The position behind the last `c` in `text`, or zero where `c` does not
/// occur.
pub fn find_after_last(text: &str, c: char) -> (r: usize)
    ensures
        r == after_last(text@, c),
        r <= text@.len(),
{
    let n = text.unicode_len();
    let mut i: usize = n;
    assert(text@.subrange(0, n as int) == text@);
    while i > 0 && text.get_char(i - 1) != c
        invariant
            i <= n,
            n == text@.len(),
            after_last(text@, c) == after_last(text@.subrange(0, i as int), c),
        decreases i,
    {
        assert(text@.subrange(0, i as int).drop_last() == text@.subrange(0, i - 1));
        i -= 1;
    }
    i
}

/// `s` without the characters `c` that it ends with.
pub open spec fn without_trailing(s: Seq<char>, c: char) -> Seq<char>
    decreases s.len(),
{
    if s.len() > 0 && s[s.len() - 1] == c {
        without_trailing(s.drop_last(), c)
    } else {
        s
    }
}

/// `text` without the characters `c` that it ends with.
pub fn trim_end_of(text: &str, c: char) -> (r: &str)
    ensures
        r@ == without_trailing(text@, c),
{
    let n = text.unicode_len();
    let mut to: usize = n;
    assert(text@.subrange(0, n as int) == text@);
    while to > 0 && text.get_char(to - 1) == c
        invariant
            to <= n,
            n == text@.len(),
            without_trailing(text@, c) == without_trailing(text@.subrange(0, to as int), c),
        decreases to,
    {
        assert(text@.subrange(0, to as int).drop_last() == text@.subrange(0, to - 1));
        to -= 1;
    }
    text.substring_char(0, to)
}

/// Whether `text` ends with `suffix`.
pub fn ends_with(text: &str, suffix: &str) -> (r: bool)
    ensures
        r == suffix@.is_suffix_of(text@),
{
    let n = suffix.unicode_len();
    let m = text.unicode_len();
    if n > m {
        return false;
    }
    let mut i: usize = 0;
    while i < n
        invariant
            i <= n,
            n == suffix@.len(),
            m == text@.len(),
            n <= m,
            forall|k: int| 0 <= k < i ==> suffix@[k] == text@[m - n + k],
        decreases n - i,
    {
        if suffix.get_char(i) != text.get_char(m - n + i) {
            return false;
        }
        i += 1;
    }
    assert(suffix@ =~= text@.subrange(m - n, m as int));
    true
}

/// `text` without the white space at its start and at its end.
pub fn trim(text: &str) -> (r: &str)
    ensures
        r@ == trimmed(text@),
{
    let n = text.unicode_len();
    let mut from: usize = 0;
    assert(text@.subrange(0, n as int) == text@);
    while from < n && is_space_char(text.get_char(from))
        invariant
            from <= n,
            n == text@.len(),
            leading_spaces(text@) == from + leading_spaces(text@.subrange(from as int, n as int)),
        decreases n - from,
    {
        assert(text@.subrange(from as int, n as int).drop_first() == text@.subrange(
            from + 1,
            n as int,
        ));
        from += 1;
    }
    let ghost rest = text@.subrange(from as int, n as int);
    assert(leading_spaces(rest) == 0);
    let mut to: usize = n;
    assert(rest.subrange(0, n - from) == rest);
    while to > from && is_space_char(text.get_char(to - 1))
        invariant
            from <= to <= n,
            n == text@.len(),
            rest == text@.subrange(from as int, n as int),
            trailing_spaces(rest) == (n - to) + trailing_spaces(rest.subrange(0, to - from)),
        decreases to,
    {
        assert(rest.subrange(0, to - from).drop_last() == rest.subrange(0, to - from - 1));
        to -= 1;
    }
    assert(trailing_spaces(rest.subrange(0, to - from)) == 0);
    assert(rest.subrange(0, to - from) == text@.subrange(from as int, to as int));
    text.substring_char(from, to)
}

} // verus!
