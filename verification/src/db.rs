//! SQLite URL handling of the shop database opener.
use vstd::prelude::*;
use crate::data_plane::before_char;
use crate::text::{chars_of, find_char_in, range_starts_with, starts_with, string_from_range, vec_of};

verus! {

/// `cs` with the first of the prefixes `sqlite:///`, `sqlite://`, `sqlite:`
/// that it starts with removed; unchanged when it starts with none.
pub open spec fn strip_sqlite_scheme(cs: Seq<char>) -> Seq<char> {
    let s3 = seq!['s', 'q', 'l', 'i', 't', 'e', ':', '/', '/', '/'];
    let s2 = seq!['s', 'q', 'l', 'i', 't', 'e', ':', '/', '/'];
    let s1 = seq!['s', 'q', 'l', 'i', 't', 'e', ':'];
    if starts_with(cs, s3) {
        cs.skip(10)
    } else if starts_with(cs, s2) {
        cs.skip(9)
    } else if starts_with(cs, s1) {
        cs.skip(7)
    } else {
        cs
    }
}

/// The file path of a `sqlite:[//[/]]path[?query]` URL: the scheme prefix
/// removed and everything from the first `?` dropped.
pub open spec fn sqlite_path(url: Seq<char>) -> Seq<char> {
    before_char(strip_sqlite_scheme(url), '?')
}

/// Convert a SQLite URL into the filesystem path it names.
pub fn sqlite_url_to_path(database_url: &str) -> (r: String)
    ensures
        r@ == sqlite_path(database_url@),
{
    let v = chars_of(database_url);
    let s3 = vec_of(&['s', 'q', 'l', 'i', 't', 'e', ':', '/', '/', '/']);
    let s2 = vec_of(&['s', 'q', 'l', 'i', 't', 'e', ':', '/', '/']);
    let s1 = vec_of(&['s', 'q', 'l', 'i', 't', 'e', ':']);
    assert(s3@ =~= seq!['s', 'q', 'l', 'i', 't', 'e', ':', '/', '/', '/']);
    assert(s2@ =~= seq!['s', 'q', 'l', 'i', 't', 'e', ':', '/', '/']);
    assert(s1@ =~= seq!['s', 'q', 'l', 'i', 't', 'e', ':']);
    assert(v@.subrange(0, v@.len() as int) =~= v@);
    let start: usize = if range_starts_with(&v, 0, &s3) {
        10
    } else if range_starts_with(&v, 0, &s2) {
        9
    } else if range_starts_with(&v, 0, &s1) {
        7
    } else {
        0
    };
    let ghost rest = v@.subrange(start as int, v@.len() as int);
    assert(rest =~= strip_sqlite_scheme(database_url@));
    let q = find_char_in(&v, start, v.len(), '?');
    let end = match q {
        Some(k) => k,
        None => v.len(),
    };
    proof {
        if let Some(k) = q {
            assert(rest.take(k - start) =~= v@.subrange(start as int, k as int));
        }
    }
    string_from_range(&v, start, end)
}

} // verus!
