//! Character-level text helpers shared by the parsers in this crate.
//!
//! Strings are reasoned about through their view, a `Seq<char>`. The spec
//! functions here restate the few `str` operations of the standard library
//! that the parsers rely on (`char::is_whitespace`, `str::trim`,
//! `str::find`, ASCII case mapping) over such sequences.

use vstd::prelude::*;

verus! {

broadcast use vstd::string::group_string_axioms;

/// `char::is_whitespace`: the Unicode `White_Space` property.
pub open spec fn is_whitespace(c: char) -> bool {
    ||| ('\t' <= c && c <= '\r')
    ||| c == ' '
    ||| c == '\u{85}'
    ||| c == '\u{A0}'
    ||| c == '\u{1680}'
    ||| ('\u{2000}' <= c && c <= '\u{200A}')
    ||| c == '\u{2028}'
    ||| c == '\u{2029}'
    ||| c == '\u{202F}'
    ||| c == '\u{205F}'
    ||| c == '\u{3000}'
}

/// `char::to_ascii_uppercase`.
pub open spec fn ascii_upper(c: char) -> char {
    if 'a' <= c && c <= 'z' {
        ((c as int) - 32) as char
    } else {
        c
    }
}

/// `char::to_ascii_lowercase`.
pub open spec fn ascii_lower(c: char) -> char {
    if 'A' <= c && c <= 'Z' {
        ((c as int) + 32) as char
    } else {
        c
    }
}

/// `str::to_ascii_uppercase`, which maps each character on its own.
pub open spec fn to_ascii_upper(s: Seq<char>) -> Seq<char> {
    Seq::new(s.len(), |i: int| ascii_upper(s[i]))
}

/// `str::to_ascii_lowercase`, which maps each character on its own.
pub open spec fn to_ascii_lower(s: Seq<char>) -> Seq<char> {
    Seq::new(s.len(), |i: int| ascii_lower(s[i]))
}

/// `str::trim_start`: drops the leading whitespace.
pub open spec fn trim_start(s: Seq<char>) -> Seq<char>
    decreases s.len(),
{
    if s.len() > 0 && is_whitespace(s[0]) {
        trim_start(s.drop_first())
    } else {
        s
    }
}

/// `str::trim_end`: drops the trailing whitespace.
pub open spec fn trim_end(s: Seq<char>) -> Seq<char>
    decreases s.len(),
{
    if s.len() > 0 && is_whitespace(s.last()) {
        trim_end(s.drop_last())
    } else {
        s
    }
}

/// `str::trim`: drops leading and trailing whitespace.
pub open spec fn trim(s: Seq<char>) -> Seq<char> {
    trim_end(trim_start(s))
}

/// `pattern` occurs in `text` starting at index `i`.
pub open spec fn occurs_at(text: Seq<char>, pattern: Seq<char>, i: int) -> bool {
    0 <= i && i + pattern.len() <= text.len() && text.subrange(i, i + pattern.len()) == pattern
}

/// The first index at or after `i` where `pattern` occurs in `text`.
pub open spec fn find_from(text: Seq<char>, pattern: Seq<char>, i: int) -> Option<int>
    decreases text.len() + 1 - i,
{
    if i < 0 || i + pattern.len() > text.len() {
        None
    } else if occurs_at(text, pattern, i) {
        Some(i)
    } else {
        find_from(text, pattern, i + 1)
    }
}

/// `str::find` with a string pattern, counted in characters: the first index
/// where `pattern` occurs in `text`.
pub open spec fn find(text: Seq<char>, pattern: Seq<char>) -> Option<int> {
    find_from(text, pattern, 0)
}

/// `str::contains` with a string pattern.
pub open spec fn contains(text: Seq<char>, pattern: Seq<char>) -> bool {
    exists|i: int| occurs_at(text, pattern, i)
}

/// `find_from` returns the first occurrence at or after `i`, and `None`
/// exactly when there is none.
pub proof fn lemma_find_from(text: Seq<char>, pattern: Seq<char>, i: int)
    requires
        0 <= i,
    ensures
        match find_from(text, pattern, i) {
            Some(j) => i <= j && occurs_at(text, pattern, j) && forall|k: int|
                i <= k < j ==> !occurs_at(text, pattern, k),
            None => forall|k: int| i <= k ==> !occurs_at(text, pattern, k),
        },
    decreases text.len() + 1 - i,
{
    if i + pattern.len() > text.len() {
    } else if occurs_at(text, pattern, i) {
    } else {
        lemma_find_from(text, pattern, i + 1);
    }
}

/// `find` returns the first occurrence, and `None` exactly when `contains`
/// does not hold.
pub proof fn lemma_find(text: Seq<char>, pattern: Seq<char>)
    ensures
        match find(text, pattern) {
            Some(j) => occurs_at(text, pattern, j) && forall|k: int|
                0 <= k < j ==> !occurs_at(text, pattern, k),
            None => !contains(text, pattern),
        },
        find(text, pattern) is Some <==> contains(text, pattern),
{
    lemma_find_from(text, pattern, 0);
}

/// `char::is_whitespace`.
pub fn char_is_whitespace(c: char) -> (res: bool)
    ensures
        res == is_whitespace(c),
{
    ('\t' <= c && c <= '\r') || c == ' ' || c == '\u{85}' || c == '\u{A0}' || c == '\u{1680}'
        || ('\u{2000}' <= c && c <= '\u{200A}') || c == '\u{2028}' || c == '\u{2029}' || c
        == '\u{202F}' || c == '\u{205F}' || c == '\u{3000}'
}

/// `char::to_ascii_uppercase`.
pub fn char_ascii_upper(c: char) -> (res: char)
    ensures
        res == ascii_upper(c),
{
    if 'a' <= c && c <= 'z' {
        ((c as u8) - 32) as char
    } else {
        c
    }
}

/// `char::to_ascii_lowercase`.
pub fn char_ascii_lower(c: char) -> (res: char)
    ensures
        res == ascii_lower(c),
{
    if 'A' <= c && c <= 'Z' {
        ((c as u8) + 32) as char
    } else {
        c
    }
}

/// The characters of `s`, in order.
pub fn chars_of(s: &str) -> (res: Vec<char>)
    ensures
        res@ == s@,
{
    let mut res: Vec<char> = Vec::new();
    for c in it: s.chars()
        invariant
            it.seq() == s@,
            res@ == s@.take(it.index() as int),
    {
        res.push(c);
    }
    res
}

/// Whether the two character vectors are equal.
pub fn chars_eq(a: &Vec<char>, b: &Vec<char>) -> (res: bool)
    ensures
        res == (a@ == b@),
{
    if a.len() != b.len() {
        return false;
    }
    let n = a.len();
    for i in 0..n
        invariant
            n == a.len(),
            n == b.len(),
            forall|k: int| 0 <= k < i ==> a@[k] == b@[k],
    {
        if a[i] != b[i] {
            return false;
        }
    }
    assert(a@ =~= b@);
    true
}

/// Whether the string `s` equals the string `t`.
pub fn str_eq(s: &str, t: &str) -> (res: bool)
    ensures
        res == (s@ == t@),
{
    let a = chars_of(s);
    let b = chars_of(t);
    chars_eq(&a, &b)
}

/// Whether `pattern` occurs in `text` at index `i`.
pub fn chars_occur_at(text: &Vec<char>, pattern: &Vec<char>, i: usize) -> (res: bool)
    ensures
        res == occurs_at(text@, pattern@, i as int),
{
    if i > text.len() || pattern.len() > text.len() - i {
        return false;
    }
    let m = pattern.len();
    for k in 0..m
        invariant
            m == pattern.len(),
            i + m <= text.len(),
            forall|j: int| 0 <= j < k ==> text@[i + j] == pattern@[j],
    {
        if text[i + k] != pattern[k] {
            assert(text@.subrange(i as int, i + m)[k as int] != pattern@[k as int]);
            return false;
        }
    }
    assert(text@.subrange(i as int, i + m) =~= pattern@);
    true
}

/// The first index where `pattern` occurs in `text`.
pub fn find_chars(text: &Vec<char>, pattern: &Vec<char>) -> (res: Option<usize>)
    ensures
        match res {
            Some(i) => find(text@, pattern@) == Some(i as int),
            None => find(text@, pattern@) is None,
        },
{
    if pattern.len() > text.len() {
        return None;
    }
    let last = text.len() - pattern.len();
    let mut i: usize = 0;
    loop
        invariant
            last == text.len() - pattern.len(),
            i <= last,
            find_from(text@, pattern@, 0) == find_from(text@, pattern@, i as int),
        decreases last - i,
    {
        if chars_occur_at(text, pattern, i) {
            return Some(i);
        }
        if i == last {
            assert(find_from(text@, pattern@, i + 1) is None);
            return None;
        }
        i = i + 1;
    }
}

/// Whether `pattern` occurs anywhere in `text`.
pub fn str_contains(text: &str, pattern: &str) -> (res: bool)
    ensures
        res == contains(text@, pattern@),
{
    let t = chars_of(text);
    let p = chars_of(pattern);
    let found = find_chars(&t, &p);
    proof {
        lemma_find(t@, p@);
    }
    found.is_some()
}

/// The bounds of `s[lo..hi]` once its leading and trailing whitespace is
/// dropped.
pub fn trim_bounds(s: &Vec<char>, lo: usize, hi: usize) -> (res: (usize, usize))
    requires
        lo <= hi <= s.len(),
    ensures
        lo <= res.0 <= res.1 <= hi,
        s@.subrange(res.0 as int, res.1 as int) == trim(s@.subrange(lo as int, hi as int)),
{
    let mut a = lo;
    while a < hi && char_is_whitespace(s[a])
        invariant
            lo <= a <= hi <= s.len(),
            trim_start(s@.subrange(lo as int, hi as int)) == trim_start(
                s@.subrange(a as int, hi as int),
            ),
        decreases hi - a,
    {
        assert(s@.subrange(a as int, hi as int).drop_first() =~= s@.subrange(a + 1, hi as int));
        a = a + 1;
    }
    assert(trim_start(s@.subrange(a as int, hi as int)) == s@.subrange(a as int, hi as int));
    let mut b = hi;
    while b > a && char_is_whitespace(s[b - 1])
        invariant
            lo <= a <= b <= hi <= s.len(),
            trim(s@.subrange(lo as int, hi as int)) == trim_end(s@.subrange(a as int, b as int)),
        decreases b - a,
    {
        assert(s@.subrange(a as int, b as int).drop_last() =~= s@.subrange(a as int, b - 1));
        b = b - 1;
    }
    (a, b)
}

/// `s[lo..hi]` with each character mapped to its ASCII uppercase.
pub fn upper_range(s: &Vec<char>, lo: usize, hi: usize) -> (res: Vec<char>)
    requires
        lo <= hi <= s.len(),
    ensures
        res@ == to_ascii_upper(s@.subrange(lo as int, hi as int)),
{
    let mut res: Vec<char> = Vec::new();
    let mut k = lo;
    while k < hi
        invariant
            lo <= k <= hi <= s.len(),
            res@ =~= to_ascii_upper(s@.subrange(lo as int, k as int)),
        decreases hi - k,
    {
        res.push(char_ascii_upper(s[k]));
        k = k + 1;
    }
    res
}

/// `String::push`: appends the character `c` to the end of `s`.
#[verifier::external_body]
pub fn push_char(s: &mut String, c: char)
    ensures
        final(s)@ == old(s)@.push(c),
{
    s.push(c);
}

} // verus!
