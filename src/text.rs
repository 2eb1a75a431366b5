//! Character-level helpers over text viewed as `Seq<char>`.

use vstd::prelude::*;

verus! {

broadcast use vstd::string::group_string_axioms;

/// The characters of `s`, in order.
pub fn chars_of(s: &str) -> (r: Vec<char>)
    ensures
        r@ == s@,
{
    let mut r: Vec<char> = Vec::new();
    for c in it: s.chars()
        invariant
            it.seq() == s@,
            r@ == it.seq().take(it.index() as int),
    {
        r.push(c);
    }
    r
}


/// Whether `c` has Unicode's White_Space property, which `char::is_whitespace`
/// tests: tab to carriage return, space, next line, no-break space, ogham
/// space mark, en quad to hair space, line and paragraph separators, narrow
/// no-break space, medium mathematical space and ideographic space.
pub open spec fn white_space(c: char) -> bool {
    ||| '\u{9}' <= c && c <= '\u{d}'
    ||| c == ' ' || c == '\u{85}' || c == '\u{a0}' || c == '\u{1680}'
    ||| '\u{2000}' <= c && c <= '\u{200a}'
    ||| c == '\u{2028}' || c == '\u{2029}' || c == '\u{202f}' || c == '\u{205f}'
    ||| c == '\u{3000}'
}

/// Whether `c` is an upper-case letter, as `char::is_uppercase` decides.
pub uninterp spec fn upper_case(c: char) -> bool;

/// Whether `c` is white space.
pub fn is_white_space(c: char) -> (r: bool)
    ensures
        r == white_space(c),
{
    ('\u{9}' <= c && c <= '\u{d}') || c == ' ' || c == '\u{85}' || c == '\u{a0}' || c
        == '\u{1680}' || ('\u{2000}' <= c && c <= '\u{200a}') || c == '\u{2028}' || c
        == '\u{2029}' || c == '\u{202f}' || c == '\u{205f}' || c == '\u{3000}'
}

/// Relies on `char::is_uppercase`, which depends on the character alone and,
/// among ASCII characters, holds of `A` to `Z` only.
#[verifier::external_body]
pub(crate) fn is_upper_case(c: char) -> (r: bool)
    ensures
        r == upper_case(c),
        r == ('A' <= c && c <= 'Z') || c > '\u{7f}',
{
    c.is_uppercase()
}

/// Relies on `String::push`: appends one character at the end.
#[verifier::external_body]
fn push_char(s: &mut String, c: char)
    ensures
        final(s)@ == old(s)@.push(c),
{
    s.push(c)
}

/// A string holding the characters of `v`, in order.
pub fn string_of(v: &Vec<char>) -> (r: String)
    ensures
        r@ == v@,
{
    let mut r = String::new();
    let mut i: usize = 0;
    while i < v.len()
        invariant
            i <= v@.len(),
            r@ == v@.take(i as int),
        decreases v@.len() - i,
    {
        push_char(&mut r, v[i]);
        i = i + 1;
        assert(v@.take(i as int) =~= v@.take(i - 1).push(v@[i - 1]));
    }
    assert(v@.take(i as int) =~= v@);
    r
}

/// `s` without its leading white space.
pub open spec fn trim_start(s: Seq<char>) -> Seq<char>
    decreases s.len(),
{
    if s.len() > 0 && white_space(s[0]) {
        trim_start(s.drop_first())
    } else {
        s
    }
}

/// `s` without its trailing white space.
pub open spec fn trim_end(s: Seq<char>) -> Seq<char>
    decreases s.len(),
{
    if s.len() > 0 && white_space(s.last()) {
        trim_end(s.drop_last())
    } else {
        s
    }
}

/// `s` without white space at either end.
pub open spec fn trim(s: Seq<char>) -> Seq<char> {
    trim_end(trim_start(s))
}

/// `s[lo..hi]` as a new vector.
pub fn copy_range(s: &Vec<char>, lo: usize, hi: usize) -> (r: Vec<char>)
    requires
        lo <= hi <= s@.len(),
    ensures
        r@ == s@.subrange(lo as int, hi as int),
{
    let mut r: Vec<char> = Vec::new();
    let mut i: usize = lo;
    while i < hi
        invariant
            lo <= i <= hi <= s@.len(),
            r@ == s@.subrange(lo as int, i as int),
        decreases hi - i,
    {
        r.push(s[i]);
        i = i + 1;
        assert(r@ =~= s@.subrange(lo as int, i as int));
    }
    r
}

/// `s` without white space at either end.
pub fn trim_chars(s: &Vec<char>) -> (r: Vec<char>)
    ensures
        r@ == trim(s@),
{
    let mut lo: usize = 0;
    assert(s@.subrange(0, s@.len() as int) =~= s@);
    while lo < s.len() && is_white_space(s[lo])
        invariant
            lo <= s@.len(),
            trim_start(s@) == trim_start(s@.subrange(lo as int, s@.len() as int)),
        decreases s@.len() - lo,
    {
        assert(s@.subrange(lo as int, s@.len() as int).drop_first() =~= s@.subrange(
            lo + 1,
            s@.len() as int,
        ));
        lo = lo + 1;
    }
    let ghost front = s@.subrange(lo as int, s@.len() as int);
    assert(trim_start(s@) == front);
    let mut hi: usize = s.len();
    while hi > lo && is_white_space(s[hi - 1])
        invariant
            lo <= hi <= s@.len(),
            trim_end(front) == trim_end(s@.subrange(lo as int, hi as int)),
        decreases hi,
    {
        assert(s@.subrange(lo as int, hi as int).drop_last() =~= s@.subrange(
            lo as int,
            hi - 1,
        ));
        hi = hi - 1;
    }
    copy_range(s, lo, hi)
}

/// Whether `p` occurs in `s` starting at position `i`.
pub open spec fn occurs_at(s: Seq<char>, p: Seq<char>, i: int) -> bool {
    0 <= i && i + p.len() <= s.len() && s.subrange(i, i + p.len()) == p
}

/// The first position at or after `i` where `p` occurs in `s`.
pub open spec fn find_from(s: Seq<char>, p: Seq<char>, i: int) -> Option<int>
    decreases s.len() + 1 - i,
{
    if i < 0 || i + p.len() > s.len() {
        None
    } else if occurs_at(s, p, i) {
        Some(i)
    } else {
        find_from(s, p, i + 1)
    }
}

/// Whether `p` occurs in `s` at position `i`.
pub(crate) fn matches_at(s: &Vec<char>, p: &Vec<char>, i: usize) -> (r: bool)
    requires
        i <= s@.len(),
    ensures
        r == occurs_at(s@, p@, i as int),
{
    let n = s.len();
    if p.len() > n - i {
        return false;
    }
    let mut k: usize = 0;
    while k < p.len()
        invariant
            n == s@.len(),
            k <= p@.len(),
            i + p@.len() <= s@.len(),
            forall|j: int| 0 <= j < k ==> s@[i + j] == p@[j],
        decreases p@.len() - k,
    {
        assert(i + k < s@.len());
        if s[i + k] != p[k] {
            assert(s@.subrange(i as int, i + p@.len())[k as int] != p@[k as int]);
            return false;
        }
        k = k + 1;
    }
    assert(s@.subrange(i as int, i + p@.len()) =~= p@);
    true
}

/// The first position at or after `from` where `p` occurs in `s`.
pub fn find(s: &Vec<char>, p: &Vec<char>, from: usize) -> (r: Option<usize>)
    requires
        from <= s@.len(),
    ensures
        r matches Some(i) ==> find_from(s@, p@, from as int) == Some(i as int),
        r is None ==> find_from(s@, p@, from as int) is None,
{
    let mut i: usize = from;
    while p.len() <= s.len() - i
        invariant
            from <= i <= s@.len(),
            find_from(s@, p@, from as int) == find_from(s@, p@, i as int),
        decreases s@.len() + 1 - i,
    {
        if matches_at(s, p, i) {
            return Some(i);
        }
        if i == s.len() {
            assert(s@.subrange(i as int, i as int) =~= p@);
        }
        i = i + 1;
    }
    None
}

} // verus!
