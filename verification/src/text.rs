//! Character-level helpers shared by the header, URL and argument parsers.
//!
//! Text is handled as sequences of `char`; each helper states its result
//! over the spec functions defined here.
use vstd::prelude::*;

verus! {

/// Appending one character to a `String` extends its character sequence by
/// that character (`String::push`).
pub assume_specification[ String::push ](s: &mut String, ch: char)
    ensures
        final(s)@ == old(s)@.push(ch),
;

/// Unicode `White_Space`, the set that `char::is_whitespace` and
/// `str::trim` use.
pub open spec fn is_ws(c: char) -> bool {
    ||| ('\u{9}' <= c && c <= '\u{d}')
    ||| c == ' '
    ||| c == '\u{85}'
    ||| c == '\u{a0}'
    ||| c == '\u{1680}'
    ||| ('\u{2000}' <= c && c <= '\u{200a}')
    ||| c == '\u{2028}'
    ||| c == '\u{2029}'
    ||| c == '\u{202f}'
    ||| c == '\u{205f}'
    ||| c == '\u{3000}'
}

/// `cs` without its leading white space.
pub open spec fn trim_start(cs: Seq<char>) -> Seq<char>
    decreases cs.len(),
{
    if cs.len() > 0 && is_ws(cs[0]) {
        trim_start(cs.drop_first())
    } else {
        cs
    }
}

/// `cs` without its trailing white space.
pub open spec fn trim_end(cs: Seq<char>) -> Seq<char>
    decreases cs.len(),
{
    if cs.len() > 0 && is_ws(cs.last()) {
        trim_end(cs.drop_last())
    } else {
        cs
    }
}

/// `cs` without leading and trailing white space (`str::trim`).
pub open spec fn trim(cs: Seq<char>) -> Seq<char> {
    trim_end(trim_start(cs))
}

/// Index of the first occurrence of `c` in `cs`, if any.
pub open spec fn find_char(cs: Seq<char>, c: char) -> Option<int>
    decreases cs.len(),
{
    if cs.len() == 0 {
        None
    } else if cs[0] == c {
        Some(0)
    } else {
        match find_char(cs.drop_first(), c) {
            Some(i) => Some(i + 1),
            None => None,
        }
    }
}

/// ASCII lowercase of one character (`char::to_ascii_lowercase`).
pub open spec fn ascii_lower(c: char) -> char {
    if 'A' <= c && c <= 'Z' {
        ((c as u32) + 32) as char
    } else {
        c
    }
}

/// `cs` begins with `p`.
pub open spec fn starts_with(cs: Seq<char>, p: Seq<char>) -> bool {
    p.len() <= cs.len() && cs.take(p.len() as int) == p
}

/// `cs` without any leading `c` (`str::trim_start_matches` with a char).
pub open spec fn strip_leading(cs: Seq<char>, c: char) -> Seq<char>
    decreases cs.len(),
{
    if cs.len() > 0 && cs[0] == c {
        strip_leading(cs.drop_first(), c)
    } else {
        cs
    }
}

/// Equality up to ASCII case (`str::eq_ignore_ascii_case`).
pub open spec fn eq_ignore_ascii_case(a: Seq<char>, b: Seq<char>) -> bool {
    &&& a.len() == b.len()
    &&& forall|i: int| 0 <= i < a.len() ==> ascii_lower(#[trigger] a[i]) == ascii_lower(b[i])
}

/// The pieces of `cs` between occurrences of `sep` (`str::split`): one more
/// piece than there are separators, empty pieces included.
pub open spec fn split_on(cs: Seq<char>, sep: char) -> Seq<Seq<char>>
    decreases cs.len(),
{
    if cs.len() == 0 {
        seq![Seq::<char>::empty()]
    } else {
        let pieces = split_on(cs.drop_last(), sep);
        if cs.last() == sep {
            pieces.push(Seq::<char>::empty())
        } else {
            pieces.update(pieces.len() - 1, pieces.last().push(cs.last()))
        }
    }
}

/// Splitting always yields at least one piece.
pub proof fn lemma_split_on_nonempty(cs: Seq<char>, sep: char)
    ensures
        split_on(cs, sep).len() >= 1,
    decreases cs.len(),
{
    if cs.len() > 0 {
        lemma_split_on_nonempty(cs.drop_last(), sep);
    }
}

/// The characters of a slice, in a vector.
pub fn vec_of(cs: &[char]) -> (v: Vec<char>)
    ensures
        v@ == cs@,
{
    let mut v: Vec<char> = Vec::new();
    let mut i: usize = 0;
    while i < cs.len()
        invariant
            i <= cs.len(),
            v@ == cs@.take(i as int),
        decreases cs.len() - i,
    {
        v.push(cs[i]);
        i += 1;
        assert(cs@.take(i as int) =~= cs@.take(i - 1).push(cs@[i - 1]));
    }
    assert(cs@.take(cs.len() as int) =~= cs@);
    v
}

/// The characters of `s`, collected into a vector.
pub fn chars_of(s: &str) -> (v: Vec<char>)
    ensures
        v@ == s@,
{
    broadcast use vstd::string::group_string_axioms;

    let mut v: Vec<char> = Vec::new();
    for c in it: s.chars()
        invariant
            v@ == it.seq().take(it.index() as int),
    {
        v.push(c);
    }
    v
}

/// A `String` holding `v[lo..hi]`.
pub fn string_from_range(v: &Vec<char>, lo: usize, hi: usize) -> (s: String)
    requires
        lo <= hi <= v.len(),
    ensures
        s@ == v@.subrange(lo as int, hi as int),
{
    let mut s = String::new();
    let mut i = lo;
    while i < hi
        invariant
            lo <= i <= hi <= v.len(),
            s@ == v@.subrange(lo as int, i as int),
        decreases hi - i,
    {
        s.push(v[i]);
        i += 1;
        assert(s@ =~= v@.subrange(lo as int, i as int));
    }
    s
}

/// Executable white-space test (`char::is_whitespace`).
pub fn char_is_ws(c: char) -> (b: bool)
    ensures
        b == is_ws(c),
{
    ('\u{9}' <= c && c <= '\u{d}') || c == ' ' || c == '\u{85}' || c == '\u{a0}' || c == '\u{1680}'
        || ('\u{2000}' <= c && c <= '\u{200a}') || c == '\u{2028}' || c == '\u{2029}' || c
        == '\u{202f}' || c == '\u{205f}' || c == '\u{3000}'
}

proof fn lemma_trim_start_step(cs: Seq<char>, lo: int, hi: int)
    requires
        0 <= lo < hi <= cs.len(),
        is_ws(cs[lo]),
    ensures
        trim_start(cs.subrange(lo, hi)) == trim_start(cs.subrange(lo + 1, hi)),
{
    assert(cs.subrange(lo, hi).drop_first() =~= cs.subrange(lo + 1, hi));
}

proof fn lemma_trim_end_step(cs: Seq<char>, lo: int, hi: int)
    requires
        0 <= lo < hi <= cs.len(),
        is_ws(cs[hi - 1]),
    ensures
        trim_end(cs.subrange(lo, hi)) == trim_end(cs.subrange(lo, hi - 1)),
{
    assert(cs.subrange(lo, hi).drop_last() =~= cs.subrange(lo, hi - 1));
}

/// Bounds of `v[lo..hi]` with surrounding white space removed.
pub fn trim_bounds(v: &Vec<char>, lo: usize, hi: usize) -> (r: (usize, usize))
    requires
        lo <= hi <= v.len(),
    ensures
        lo <= r.0 <= r.1 <= hi,
        v@.subrange(r.0 as int, r.1 as int) == trim(v@.subrange(lo as int, hi as int)),
{
    let mut a = lo;
    while a < hi && char_is_ws(v[a])
        invariant
            lo <= a <= hi <= v.len(),
            trim_start(v@.subrange(lo as int, hi as int)) == trim_start(
                v@.subrange(a as int, hi as int),
            ),
        decreases hi - a,
    {
        proof {
            lemma_trim_start_step(v@, a as int, hi as int);
        }
        a += 1;
    }
    let ghost mid = v@.subrange(a as int, hi as int);
    assert(trim_start(mid) == mid);
    let mut b = hi;
    while b > a && char_is_ws(v[b - 1])
        invariant
            lo <= a <= b <= hi <= v.len(),
            trim_end(v@.subrange(a as int, hi as int)) == trim_end(v@.subrange(a as int, b as int)),
        decreases b - a,
    {
        proof {
            lemma_trim_end_step(v@, a as int, b as int);
        }
        b -= 1;
    }
    let ghost fin = v@.subrange(a as int, b as int);
    assert(trim_end(fin) == fin);
    (a, b)
}

/// Position of the first `c` in `v[lo..hi]`, relative to the whole vector.
pub fn find_char_in(v: &Vec<char>, lo: usize, hi: usize, c: char) -> (r: Option<usize>)
    requires
        lo <= hi <= v.len(),
    ensures
        find_char(v@.subrange(lo as int, hi as int), c) == (match r {
            Some(k) => Some(k - lo),
            None => None::<int>,
        }),
        r matches Some(k) ==> lo <= k < hi && v@[k as int] == c,
{
    let mut i = lo;
    while i < hi
        invariant
            lo <= i <= hi <= v.len(),
            forall|j: int| lo <= j < i ==> v@[j] != c,
        decreases hi - i,
    {
        if v[i] == c {
            proof {
                lemma_find_char_first(v@.subrange(lo as int, hi as int), c, (i - lo) as int);
            }
            return Some(i);
        }
        i += 1;
    }
    proof {
        lemma_find_char_none(v@.subrange(lo as int, hi as int), c);
    }
    None
}

/// The first occurrence of `c` is what [`find_char`] finds.
pub proof fn lemma_find_char_first(cs: Seq<char>, c: char, k: int)
    requires
        0 <= k < cs.len(),
        cs[k] == c,
        forall|j: int| 0 <= j < k ==> cs[j] != c,
    ensures
        find_char(cs, c) == Some(k),
    decreases k,
{
    if k > 0 {
        lemma_find_char_first(cs.drop_first(), c, k - 1);
    }
}

/// A sequence without `c` has no occurrence of it to find.
pub proof fn lemma_find_char_none(cs: Seq<char>, c: char)
    requires
        forall|j: int| 0 <= j < cs.len() ==> cs[j] != c,
    ensures
        find_char(cs, c) is None,
    decreases cs.len(),
{
    if cs.len() > 0 {
        lemma_find_char_none(cs.drop_first(), c);
    }
}

/// Executable `char::to_ascii_lowercase`.
pub fn char_ascii_lower(c: char) -> (r: char)
    ensures
        r == ascii_lower(c),
{
    if 'A' <= c && c <= 'Z' {
        let u: u32 = c as u32;
        let l: u32 = u + 32;
        proof {
            assert(l == (c as u32) + 32);
        }
        char_from_ascii(l)
    } else {
        c
    }
}

/// The character with code `u`, for `u` in the ASCII range.
fn char_from_ascii(u: u32) -> (c: char)
    requires
        u < 128,
    ensures
        c == u as char,
{
    let b: u8 = u as u8;
    b as char
}

/// `v[lo..hi]` equals `expected` up to ASCII case.
pub fn range_eq_ignore_ascii_case(v: &Vec<char>, lo: usize, hi: usize, expected: &Vec<char>) -> (r:
    bool)
    requires
        lo <= hi <= v.len(),
    ensures
        r == eq_ignore_ascii_case(v@.subrange(lo as int, hi as int), expected@),
{
    if hi - lo != expected.len() {
        return false;
    }
    let mut i: usize = 0;
    while i < expected.len()
        invariant
            lo <= hi <= v.len(),
            hi - lo == expected.len(),
            i <= expected.len(),
            forall|j: int|
                0 <= j < i ==> ascii_lower(#[trigger] v@[lo + j]) == ascii_lower(expected@[j]),
        decreases expected.len() - i,
    {
        if char_ascii_lower(v[lo + i]) != char_ascii_lower(expected[i]) {
            assert(v@.subrange(lo as int, hi as int)[i as int] == v@[lo + i]);
            return false;
        }
        i += 1;
    }
    assert forall|j: int| 0 <= j < (hi - lo) implies ascii_lower(
        #[trigger] v@.subrange(lo as int, hi as int)[j],
    ) == ascii_lower(expected@[j]) by {
        assert(v@.subrange(lo as int, hi as int)[j] == v@[lo + j]);
    }
    true
}

/// `v[lo..]` begins with `p`.
pub fn range_starts_with(v: &Vec<char>, lo: usize, p: &Vec<char>) -> (r: bool)
    requires
        lo <= v.len(),
    ensures
        r == starts_with(v@.subrange(lo as int, v@.len() as int), p@),
{
    if v.len() - lo < p.len() {
        return false;
    }
    let r = range_eq(v, lo, lo + p.len(), p);
    assert(v@.subrange(lo as int, v@.len() as int).take(p@.len() as int) =~= v@.subrange(
        lo as int,
        lo + p@.len(),
    ));
    r
}

/// First index at or after `lo` whose character is not `c`.
pub fn skip_char(v: &Vec<char>, lo: usize, c: char) -> (r: usize)
    requires
        lo <= v.len(),
    ensures
        lo <= r <= v.len(),
        v@.subrange(r as int, v@.len() as int) == strip_leading(
            v@.subrange(lo as int, v@.len() as int),
            c,
        ),
{
    let mut i = lo;
    while i < v.len() && v[i] == c
        invariant
            lo <= i <= v.len(),
            strip_leading(v@.subrange(lo as int, v@.len() as int), c) == strip_leading(
                v@.subrange(i as int, v@.len() as int),
                c,
            ),
        decreases v.len() - i,
    {
        assert(v@.subrange(i as int, v@.len() as int).drop_first() =~= v@.subrange(
            i + 1,
            v@.len() as int,
        ));
        i += 1;
    }
    i
}

/// `v[lo..hi]` equals `expected` exactly.
pub fn range_eq(v: &Vec<char>, lo: usize, hi: usize, expected: &Vec<char>) -> (r: bool)
    requires
        lo <= hi <= v.len(),
    ensures
        r == (v@.subrange(lo as int, hi as int) == expected@),
{
    if hi - lo != expected.len() {
        return false;
    }
    let mut i: usize = 0;
    while i < expected.len()
        invariant
            lo <= hi <= v.len(),
            hi - lo == expected.len(),
            i <= expected.len(),
            forall|j: int| 0 <= j < i ==> #[trigger] v@[lo + j] == expected@[j],
        decreases expected.len() - i,
    {
        if v[lo + i] != expected[i] {
            assert(v@.subrange(lo as int, hi as int)[i as int] != expected@[i as int]);
            return false;
        }
        i += 1;
    }
    assert(v@.subrange(lo as int, hi as int) =~= expected@) by {
        assert forall|j: int| 0 <= j < expected.len() implies v@.subrange(lo as int, hi as int)[j]
            == expected@[j] by {
            assert(v@[lo + j] == expected@[j]);
        }
    }
    true
}

} // verus!
