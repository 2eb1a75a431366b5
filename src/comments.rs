//! Removal of line comments (`--`) and block comments (`{-` ... `-}`) from
//! source lines, carrying the "inside a block comment" flag from one line to
//! the next. Block comments do not nest: the first close marker ends the
//! comment however many open markers preceded it. A line that starts inside
//! a block comment and closes it, with no open marker after the close, keeps
//! all the text after the close marker as it stands.

use vstd::prelude::*;
use crate::text::{chars_of, copy_range, find, find_from, string_of};

verus! {

/// Whether the two characters `a`, `b` stand at positions `i` and `i + 1` of `s`.
pub open spec fn marker_at(s: Seq<char>, i: int, a: char, b: char) -> bool {
    0 <= i && i + 1 < s.len() && s[i] == a && s[i + 1] == b
}

/// Whether `s` holds no comment marker at all.
pub open spec fn no_markers(s: Seq<char>) -> bool {
    forall|i: int|
        !marker_at(s, i, '-', '-') && !marker_at(s, i, '{', '-') && !marker_at(s, i, '-', '}')
}

/// The close marker of a block comment.
pub open spec fn close_marker() -> Seq<char> {
    seq!['-', '}']
}

/// The open marker of a block comment.
pub open spec fn open_marker() -> Seq<char> {
    seq!['{', '-']
}

/// What survives of `s` from position `i` on, and whether a block comment is
/// still open at its end, when position `i` is reached with the flag `inside`.
pub open spec fn strip_from(s: Seq<char>, i: int, inside: bool) -> (Seq<char>, bool)
    decreases s.len() - i,
{
    if i < 0 || i >= s.len() {
        (Seq::empty(), inside)
    } else if inside {
        if marker_at(s, i, '-', '}') {
            strip_from(s, i + 2, false)
        } else {
            strip_from(s, i + 1, true)
        }
    } else if marker_at(s, i, '-', '-') {
        (Seq::empty(), false)
    } else if marker_at(s, i, '{', '-') {
        strip_from(s, i + 2, true)
    } else {
        let rest = strip_from(s, i + 1, false);
        (seq![s[i]] + rest.0, rest.1)
    }
}

/// The line `s` with its comment text removed, and whether a block comment is
/// still open at its end, given whether one was open at its start.
/// A line read inside a block comment is comment up to its first close
/// marker. When no open marker follows that marker, the rest of the line is
/// kept whole; else the rest is read as code, comments and all.
pub open spec fn strip(s: Seq<char>, inside: bool) -> (Seq<char>, bool) {
    if !inside {
        strip_from(s, 0, false)
    } else {
        match find_from(s, close_marker(), 0) {
            None => (Seq::empty(), true),
            Some(c) => {
                let rest = s.subrange(c + 2, s.len() as int);
                if find_from(rest, open_marker(), 0) is None {
                    (rest, false)
                } else {
                    strip_from(rest, 0, false)
                }
            },
        }
    }
}

/// Scans `s` from its start with the flag `inside`, keeping the code.
fn scan_chars(s: &Vec<char>, inside: bool) -> (r: (Vec<char>, bool))
    ensures
        (r.0@, r.1) == strip_from(s@, 0, inside),
{
    let n = s.len();
    let mut out: Vec<char> = Vec::new();
    let mut i: usize = 0;
    let mut open = inside;
    while i < n
        invariant
            n == s@.len(),
            i <= n,
            out@ + strip_from(s@, i as int, open).0 == strip_from(s@, 0, inside).0,
            strip_from(s@, i as int, open).1 == strip_from(s@, 0, inside).1,
        decreases n - i,
    {
        let two = i + 1 < n;
        if open {
            if two && s[i] == '-' && s[i + 1] == '}' {
                i = i + 2;
                open = false;
            } else {
                i = i + 1;
            }
        } else if two && s[i] == '-' && s[i + 1] == '-' {
            assert(out@ + Seq::<char>::empty() =~= out@);
            return (out, false);
        } else if two && s[i] == '{' && s[i + 1] == '-' {
            i = i + 2;
            open = true;
        } else {
            let ghost rest = strip_from(s@, i + 1, false).0;
            assert(out@.push(s@[i as int]) + rest =~= out@ + (seq![s@[i as int]] + rest));
            out.push(s[i]);
            i = i + 1;
        }
    }
    assert(out@ + Seq::<char>::empty() =~= out@);
    (out, open)
}

/// Removes the comment text from `s`; `inside` tells whether a block comment
/// is open at its start. Also returns whether one is open at its end.
pub fn strip_chars(s: &Vec<char>, inside: bool) -> (r: (Vec<char>, bool))
    ensures
        (r.0@, r.1) == strip(s@, inside),
{
    if !inside {
        return scan_chars(s, false);
    }
    let close = vec!['-', '}'];
    assert(close@ =~= close_marker());
    match find(s, &close, 0) {
        None => (Vec::new(), true),
        Some(c) => {
            proof {
                lemma_find_bounds(s@, 0);
            }
            let n = s.len();
            let rest = copy_range(s, c + 2, n);
            let open = vec!['{', '-'];
            assert(open@ =~= open_marker());
            match find(&rest, &open, 0) {
                None => (rest, false),
                Some(_) => scan_chars(&rest, false),
            }
        },
    }
}

/// Removes the comment text from `line`, given whether a block comment is open
/// at its start. Also returns whether one is open at its end.
pub fn strip_comments(line: &str, is_in_comment: bool) -> (r: (String, bool))
    ensures
        (r.0@, r.1) == strip(line@, is_in_comment),
{
    let chars = chars_of(line);
    let (kept, open) = strip_chars(&chars, is_in_comment);
    (string_of(&kept), open)
}

proof fn lemma_plain_suffix(s: Seq<char>, i: int)
    requires
        0 <= i <= s.len(),
        no_markers(s),
    ensures
        strip_from(s, i, false) == (s.subrange(i, s.len() as int), false),
    decreases s.len() - i,
{
    if i < s.len() {
        lemma_plain_suffix(s, i + 1);
        assert(seq![s[i]] + s.subrange(i + 1, s.len() as int) =~= s.subrange(i, s.len() as int));
    } else {
        assert(s.subrange(i, s.len() as int) =~= Seq::<char>::empty());
    }
}

/// A line holding no comment marker comes out of comment stripping unchanged.
pub proof fn lemma_no_markers_identity(s: Seq<char>)
    requires
        no_markers(s),
    ensures
        strip(s, false) == (s, false),
{
    lemma_plain_suffix(s, 0);
    assert(s.subrange(0, s.len() as int) =~= s);
}

proof fn lemma_shift(s: Seq<char>, k: int, j: int, inside: bool)
    requires
        0 <= k <= s.len(),
        0 <= j,
    ensures
        strip_from(s, k + j, inside) == strip_from(s.subrange(k, s.len() as int), j, inside),
    decreases s.len() + 2 - k - j,
{
    let t = s.subrange(k, s.len() as int);
    if k + j < s.len() {
        assert(t[j] == s[k + j]);
        assert(marker_at(s, k + j, '-', '}') == marker_at(t, j, '-', '}'));
        assert(marker_at(s, k + j, '-', '-') == marker_at(t, j, '-', '-'));
        assert(marker_at(s, k + j, '{', '-') == marker_at(t, j, '{', '-'));
        lemma_shift(s, k, j + 1, inside);
        lemma_shift(s, k, j + 1, false);
        lemma_shift(s, k, j + 2, inside);
        lemma_shift(s, k, j + 2, true);
        lemma_shift(s, k, j + 2, false);
    }
}

proof fn lemma_skip_to_close(s: Seq<char>, i: int, c: int)
    requires
        0 <= i <= c,
        find_from(s, close_marker(), i) == Some(c),
    ensures
        strip_from(s, i, true) == strip_from(s, c + 2, false),
    decreases c - i,
{
    if i < c {
        assert(!marker_at(s, i, '-', '}')) by {
            if marker_at(s, i, '-', '}') {
                assert(s.subrange(i, i + 2) =~= close_marker());
            }
        }
        lemma_skip_to_close(s, i + 1, c);
    } else {
        lemma_find_bounds(s, c + 1);
        assert(s.subrange(c, c + 2) == close_marker());
        assert(s[c] == s.subrange(c, c + 2)[0] && s[c + 1] == s.subrange(c, c + 2)[1]);
    }
}

proof fn lemma_no_close(s: Seq<char>, i: int)
    requires
        0 <= i,
        find_from(s, close_marker(), i) is None,
    ensures
        strip_from(s, i, true) == (Seq::<char>::empty(), true),
    decreases s.len() - i,
{
    if i < s.len() {
        assert(!marker_at(s, i, '-', '}')) by {
            if marker_at(s, i, '-', '}') {
                assert(s.subrange(i, i + 2) =~= close_marker());
            }
        }
        lemma_no_close(s, i + 1);
    }
}

/// A line-comment marker inside a block comment cuts nothing. On a line read
/// inside a block comment: with no close marker the whole line is comment and
/// the comment stays open; when no open marker follows the first close
/// marker, all the text after that marker is kept as it stands,
/// line-comment markers included.
pub proof fn lemma_line_marker_inside_block(s: Seq<char>)
    ensures
        match find_from(s, close_marker(), 0) {
            None => strip(s, true) == (Seq::<char>::empty(), true),
            Some(c) => find_from(s.subrange(c + 2, s.len() as int), open_marker(), 0) is None
                ==> strip(s, true) == (s.subrange(c + 2, s.len() as int), false),
        },
{
}

proof fn lemma_prefix_kept(s: Seq<char>, i: int, o: int)
    requires
        0 <= i <= o <= s.len(),
        forall|j: int| 0 <= j < o ==> !marker_at(s, j, '-', '-') && !marker_at(s, j, '{', '-'),
    ensures
        strip_from(s, i, false) == (
            s.subrange(i, o) + strip_from(s, o, false).0,
            strip_from(s, o, false).1,
        ),
    decreases o - i,
{
    if i < o {
        lemma_prefix_kept(s, i + 1, o);
        assert(seq![s[i]] + (s.subrange(i + 1, o) + strip_from(s, o, false).0) =~= s.subrange(i, o)
            + strip_from(s, o, false).0);
    } else {
        assert(s.subrange(o, o) + strip_from(s, o, false).0 =~= strip_from(s, o, false).0);
    }
}

/// A block comment opened and closed on one line, outside any comment: all
/// that stands between its markers, line-comment markers included, is
/// dropped, and the text after the close marker is read as code.
pub proof fn lemma_block_within_line(s: Seq<char>, o: int, c: int)
    requires
        marker_at(s, o, '{', '-'),
        forall|j: int| 0 <= j < o ==> !marker_at(s, j, '-', '-') && !marker_at(s, j, '{', '-'),
        find_from(s, close_marker(), o + 2) == Some(c),
    ensures
        strip(s, false) == (
            s.subrange(0, o) + strip(s.subrange(c + 2, s.len() as int), false).0,
            strip(s.subrange(c + 2, s.len() as int), false).1,
        ),
{
    lemma_find_bounds(s, o + 2);
    lemma_prefix_kept(s, 0, o);
    lemma_skip_to_close(s, o + 2, c);
    lemma_shift(s, c + 2, 0, false);
}

proof fn lemma_find_bounds(s: Seq<char>, i: int)
    requires
        0 <= i,
    ensures
        find_from(s, close_marker(), i) matches Some(c) ==> i <= c && c + 2 <= s.len(),
    decreases s.len() + 1 - i,
{
    if i + 2 <= s.len() && !(s.subrange(i, i + 2) == close_marker()) {
        lemma_find_bounds(s, i + 1);
    }
}

proof fn lemma_open_to_end(s: Seq<char>, i: int, o: int)
    requires
        0 <= i <= o,
        marker_at(s, o, '{', '-'),
        forall|j: int| 0 <= j < o ==> !marker_at(s, j, '-', '-') && !marker_at(s, j, '{', '-'),
        forall|j: int| o + 2 <= j ==> !marker_at(s, j, '-', '}'),
    ensures
        strip_from(s, i, false) == (s.subrange(i, o), true),
    decreases o - i,
{
    if i < o {
        lemma_open_to_end(s, i + 1, o);
        assert(seq![s[i]] + s.subrange(i + 1, o) =~= s.subrange(i, o));
    } else {
        lemma_find_none(s, o + 2);
        lemma_no_close(s, o + 2);
        assert(s.subrange(o, o) =~= Seq::<char>::empty());
    }
}

proof fn lemma_find_none(s: Seq<char>, i: int)
    requires
        0 <= i,
        forall|j: int| i <= j ==> !marker_at(s, j, '-', '}'),
    ensures
        find_from(s, close_marker(), i) is None,
    decreases s.len() + 1 - i,
{
    if i + 2 <= s.len() {
        assert(!(s.subrange(i, i + 2) == close_marker())) by {
            if s.subrange(i, i + 2) == close_marker() {
                assert(s.subrange(i, i + 2)[0] == '-');
                assert(s.subrange(i, i + 2)[1] == '}');
                assert(marker_at(s, i, '-', '}'));
            }
        }
        lemma_find_none(s, i + 1);
    }
}

/// A block comment opened on one line and closed on a later one: the first
/// line keeps only the text before the open marker and leaves the comment
/// open; on the closing line, when no open marker follows the close marker,
/// only the text after that marker survives, as it stands.
pub proof fn lemma_block_across_lines(first: Seq<char>, o: int, second: Seq<char>, c: int)
    requires
        marker_at(first, o, '{', '-'),
        forall|j: int| 0 <= j < o ==> !marker_at(first, j, '-', '-') && !marker_at(first, j, '{', '-'),
        forall|j: int| o + 2 <= j ==> !marker_at(first, j, '-', '}'),
        find_from(second, close_marker(), 0) == Some(c),
        find_from(second.subrange(c + 2, second.len() as int), open_marker(), 0) is None,
    ensures
        strip(first, false) == (first.subrange(0, o), true),
        strip(second, strip(first, false).1) == (second.subrange(c + 2, second.len() as int), false),
{
    lemma_open_to_end(first, 0, o);
}

} // verus!
