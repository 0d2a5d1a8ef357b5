//! `Set-Cookie` inspection for the session-cookie `Path=/` invariant.
//!
//! Session cookies issued by the data plane must carry `Path=/`; the
//! outbound-response hook checks each `Set-Cookie` value with
//! [`session_cookie_violates_path_root`].
use vstd::prelude::*;
use crate::text::{
    chars_of, eq_ignore_ascii_case, find_char, find_char_in, is_ws, lemma_split_on_nonempty,
    range_eq, range_eq_ignore_ascii_case, split_on, trim, trim_bounds, trim_end, trim_start,
};

verus! {

/// Name of the session cookie.
pub const SESSION_COOKIE_NAME: &'static str = "id";

/// The value of `piece` when it is a `Path` attribute (`name=value`, name
/// compared up to ASCII case, both sides trimmed), else `None`.
pub open spec fn path_attr_value(piece: Seq<char>) -> Option<Seq<char>> {
    let attr = trim(piece);
    match find_char(attr, '=') {
        Some(i) => if eq_ignore_ascii_case(trim(attr.take(i)), seq!['p', 'a', 't', 'h']) {
            Some(trim(attr.skip(i + 1)))
        } else {
            None
        },
        None => None,
    }
}

/// The value of the last `Path` attribute among `pieces`, if any.
pub open spec fn last_path_value(pieces: Seq<Seq<char>>) -> Option<Seq<char>>
    decreases pieces.len(),
{
    if pieces.len() == 0 {
        None
    } else {
        match path_attr_value(pieces.last()) {
            Some(v) => Some(v),
            None => last_path_value(pieces.drop_last()),
        }
    }
}

/// The cookie named by a `Set-Cookie` value: the text before its first `=`,
/// trimmed; a value without `=` names no cookie.
pub open spec fn cookie_name(set_cookie: Seq<char>) -> Option<Seq<char>> {
    match find_char(set_cookie, '=') {
        Some(i) => Some(trim(set_cookie.take(i))),
        None => None,
    }
}

/// The effective `Path` of a `Set-Cookie` value: the last `Path` attribute
/// among its `;`-separated pieces (RFC 6265 §5.3.4).
pub open spec fn effective_path(set_cookie: Seq<char>) -> Option<Seq<char>> {
    last_path_value(split_on(set_cookie, ';'))
}

/// Whether the `Set-Cookie` value names the cookie `expected_name`.
pub fn cookie_name_matches(set_cookie: &str, expected_name: &str) -> (r: bool)
    ensures
        r == (cookie_name(set_cookie@) == Some(expected_name@)),
{
    let v = chars_of(set_cookie);
    let e = chars_of(expected_name);
    let f = find_char_in(&v, 0, v.len(), '=');
    assert(v@.subrange(0, v@.len() as int) =~= v@);
    match f {
        Some(i) => {
            assert(find_char(v@, '=') == Some(i as int));
            let (a, b) = trim_bounds(&v, 0, i);
            assert(v@.subrange(0, i as int) =~= v@.take(i as int));
            assert(cookie_name(set_cookie@) == Some(trim(v@.take(i as int))));
            let r = range_eq(&v, a, b, &e);
            assert(r == (trim(v@.take(i as int)) == expected_name@));
            r
        },
        None => {
            assert(v@.subrange(0, v@.len() as int) =~= v@);
            false
        },
    }
}

/// For the piece `v[lo..hi]`: `None` when it is not a `Path` attribute,
/// else whether its value is exactly `/`.
fn path_piece_is_root(v: &Vec<char>, lo: usize, hi: usize) -> (r: Option<bool>)
    requires
        lo <= hi <= v.len(),
    ensures
        match path_attr_value(v@.subrange(lo as int, hi as int)) {
            Some(val) => r == Some(val == seq!['/']),
            None => r is None,
        },
{
    let ghost piece = v@.subrange(lo as int, hi as int);
    let (a, b) = trim_bounds(v, lo, hi);
    let ghost attr = v@.subrange(a as int, b as int);
    assert(attr == trim(piece));
    match find_char_in(v, a, b, '=') {
        Some(eq) => {
            let (na, nb) = trim_bounds(v, a, eq);
            assert(v@.subrange(a as int, eq as int) =~= attr.take(eq - a));
            let mut path: Vec<char> = Vec::new();
            path.push('p');
            path.push('a');
            path.push('t');
            path.push('h');
            assert(path@ =~= seq!['p', 'a', 't', 'h']);
            if range_eq_ignore_ascii_case(v, na, nb, &path) {
                let (va, vb) = trim_bounds(v, eq + 1, b);
                assert(v@.subrange(eq + 1, b as int) =~= attr.skip(eq - a + 1));
                let mut root: Vec<char> = Vec::new();
                root.push('/');
                assert(root@ =~= seq!['/']);
                Some(range_eq(v, va, vb, &root))
            } else {
                None
            }
        },
        None => None,
    }
}

proof fn lemma_split_step(cs: Seq<char>, i: int, start: int, done: Seq<Seq<char>>)
    requires
        0 <= start <= i < cs.len(),
        split_on(cs.take(i), ';') == done.push(cs.subrange(start, i)),
    ensures
        cs[i] == ';' ==> split_on(cs.take(i + 1), ';') == done.push(cs.subrange(start, i)).push(
            cs.subrange(i + 1, i + 1),
        ),
        cs[i] != ';' ==> split_on(cs.take(i + 1), ';') == done.push(cs.subrange(start, i + 1)),
{
    let t = cs.take(i + 1);
    assert(t.drop_last() =~= cs.take(i));
    assert(t.last() == cs[i]);
    if cs[i] == ';' {
        assert(cs.subrange(i + 1, i + 1) =~= Seq::<char>::empty());
    } else {
        assert(cs.subrange(start, i).push(cs[i]) =~= cs.subrange(start, i + 1));
        assert(done.push(cs.subrange(start, i)).update(done.len() as int, cs.subrange(start, i + 1))
            =~= done.push(cs.subrange(start, i + 1)));
    }
}

/// Whether the effective `Path` attribute of the `Set-Cookie` value is
/// exactly `/` (not `/admin`, not `/foo/`, not absent).
pub fn has_path_root(set_cookie: &str) -> (r: bool)
    ensures
        r == (effective_path(set_cookie@) == Some(seq!['/'])),
{
    let v = chars_of(set_cookie);
    let ghost cs = v@;
    let mut last: Option<bool> = None;
    let mut start: usize = 0;
    let mut i: usize = 0;
    let ghost mut done: Seq<Seq<char>> = Seq::empty();
    assert(cs.take(0) =~= Seq::<char>::empty());
    assert(cs.subrange(0, 0) =~= Seq::<char>::empty());
    assert(split_on(cs.take(0), ';') =~= done.push(cs.subrange(0, 0)));
    while i < v.len()
        invariant
            cs == v@,
            start <= i <= v.len(),
            split_on(cs.take(i as int), ';') == done.push(cs.subrange(start as int, i as int)),
            match last_path_value(done) {
                Some(val) => last == Some(val == seq!['/']),
                None => last is None,
            },
        decreases v.len() - i,
    {
        proof {
            lemma_split_step(cs, i as int, start as int, done);
        }
        if v[i] == ';' {
            let p = path_piece_is_root(&v, start, i);
            proof {
                let piece = cs.subrange(start as int, i as int);
                let nd = done.push(piece);
                assert(nd.drop_last() =~= done);
                assert(nd.last() == piece);
                done = nd;
            }
            match p {
                Some(b) => { last = Some(b); },
                None => {},
            }
            start = i + 1;
        }
        i += 1;
    }
    let p = path_piece_is_root(&v, start, v.len());
    proof {
        assert(cs.take(cs.len() as int) =~= cs);
        let piece = cs.subrange(start as int, cs.len() as int);
        let nd = done.push(piece);
        assert(nd.drop_last() =~= done);
        assert(nd.last() == piece);
    }
    match p {
        Some(b) => b,
        None => match last {
            Some(b) => b,
            None => false,
        },
    }
}

/// A `Set-Cookie` value breaks the session invariant when it sets the
/// session cookie without an effective `Path=/`.
pub fn session_cookie_violates_path_root(set_cookie: &str) -> (r: bool)
    ensures
        r == (cookie_name(set_cookie@) == Some(seq!['i', 'd']) && effective_path(set_cookie@)
            != Some(seq!['/'])),
{
    let name = SESSION_COOKIE_NAME;
    proof {
        reveal_strlit("id");
        assert(name@ =~= seq!['i', 'd']);
    }
    cookie_name_matches(set_cookie, name) && !has_path_root(set_cookie)
}

proof fn lemma_split_on_extend(a: Seq<char>, b: Seq<char>, sep: char)
    requires
        forall|i: int| 0 <= i < b.len() ==> b[i] != sep,
    ensures
        split_on(a + b, sep) == split_on(a, sep).update(
            split_on(a, sep).len() - 1,
            split_on(a, sep).last() + b,
        ),
    decreases b.len(),
{
    lemma_split_on_nonempty(a, sep);
    let p = split_on(a, sep);
    if b.len() == 0 {
        assert(a + b =~= a);
        assert(p.last() + b =~= p.last());
        assert(p.update(p.len() - 1, p.last()) =~= p);
    } else {
        let b1 = b.drop_last();
        lemma_split_on_extend(a, b1, sep);
        assert((a + b).drop_last() =~= a + b1);
        assert((a + b).last() == b.last());
        assert((p.last() + b1).push(b.last()) =~= p.last() + b);
        let q = p.update(p.len() - 1, p.last() + b1);
        assert(q.update(q.len() - 1, q.last().push(b.last())) =~= p.update(
            p.len() - 1,
            p.last() + b,
        ));
    }
}

/// The pieces of `s`, a separator and a separator-free `t` are those of
/// `s` followed by `t`.
proof fn lemma_split_on_append_piece(s: Seq<char>, t: Seq<char>, sep: char)
    requires
        forall|i: int| 0 <= i < t.len() ==> t[i] != sep,
    ensures
        split_on(s.push(sep) + t, sep) == split_on(s, sep).push(t),
{
    lemma_split_on_nonempty(s, sep);
    let a = s.push(sep);
    assert(a.drop_last() =~= s);
    assert(split_on(a, sep) == split_on(s, sep).push(Seq::<char>::empty()));
    lemma_split_on_extend(a, t, sep);
    let p = split_on(s, sep).push(Seq::<char>::empty());
    assert(Seq::<char>::empty() + t =~= t);
    assert(p.update(p.len() - 1, p.last() + t) =~= split_on(s, sep).push(t));
}

/// An attribute appended after everything else decides the effective
/// `Path` whenever it is a `Path` attribute.
proof fn lemma_appended_path_attr(s: Seq<char>, t: Seq<char>)
    requires
        forall|i: int| 0 <= i < t.len() ==> t[i] != ';',
        path_attr_value(t) is Some,
    ensures
        effective_path(s.push(';') + t) == path_attr_value(t),
{
    lemma_split_on_append_piece(s, t, ';');
    let pieces = split_on(s, ';').push(t);
    assert(pieces.last() == t);
}

/// ` Path=<v>` with `v` free of white space, `;` and `=` is a `Path`
/// attribute with value `v`.
proof fn lemma_path_attr_of(v: Seq<char>)
    requires
        v.len() > 0,
        forall|i: int| 0 <= i < v.len() ==> !is_ws(#[trigger] v[i]) && v[i] != ';' && v[i] != '=',
    ensures
        path_attr_value(seq![' ', 'P', 'a', 't', 'h', '='] + v) == Some(v),
{
    let t = seq![' ', 'P', 'a', 't', 'h', '='] + v;
    let body = seq!['P', 'a', 't', 'h', '='] + v;
    assert(t.drop_first() =~= body);
    assert(trim_start(body) == body);
    assert(trim_start(t) == body);
    assert(body.last() == v.last());
    assert(trim_end(body) == body);
    assert(trim(t) == body);
    let b1 = seq!['a', 't', 'h', '='] + v;
    let b2 = seq!['t', 'h', '='] + v;
    let b3 = seq!['h', '='] + v;
    let b4 = seq!['='] + v;
    assert(body.drop_first() =~= b1);
    assert(b1.drop_first() =~= b2);
    assert(b2.drop_first() =~= b3);
    assert(b3.drop_first() =~= b4);
    assert(find_char(b4, '=') == Some(0int));
    assert(find_char(b3, '=') == Some(1int));
    assert(find_char(b2, '=') == Some(2int));
    assert(find_char(b1, '=') == Some(3int));
    assert(find_char(body, '=') == Some(4int));
    let name = body.take(4);
    assert(name =~= seq!['P', 'a', 't', 'h']);
    assert(name.drop_first() =~= seq!['a', 't', 'h']);
    assert(trim_start(name) == name);
    assert(name.last() == 'h');
    assert(trim_end(name) == name);
    assert(eq_ignore_ascii_case(trim(name), seq!['p', 'a', 't', 'h']));
    assert(body.skip(5) =~= v);
    assert(trim_start(v) == v);
    assert(trim_end(v) == v);
}

/// The last `Path` attribute wins (RFC 6265 §5.3.4): whatever a
/// `Set-Cookie` value says before it, appending `; Path=/` makes its
/// effective path the root.
pub proof fn lemma_trailing_root_path_wins(set_cookie: Seq<char>)
    ensures
        effective_path(set_cookie + seq![';', ' ', 'P', 'a', 't', 'h', '=', '/']) == Some(seq!['/']),
{
    let v = seq!['/'];
    let t = seq![' ', 'P', 'a', 't', 'h', '='] + v;
    lemma_path_attr_of(v);
    assert(set_cookie + seq![';', ' ', 'P', 'a', 't', 'h', '=', '/'] =~= set_cookie.push(';') + t);
    lemma_appended_path_attr(set_cookie, t);
}

/// The last `Path` attribute wins against the root too: appending
/// `; Path=<v>` for a value other than `/` (free of white space, `;` and
/// `=`) leaves the cookie without an effective root path, whatever came
/// before.
pub proof fn lemma_trailing_scoped_path_wins(set_cookie: Seq<char>, v: Seq<char>)
    requires
        v.len() > 0,
        forall|i: int| 0 <= i < v.len() ==> !is_ws(#[trigger] v[i]) && v[i] != ';' && v[i] != '=',
    ensures
        effective_path(set_cookie + seq![';', ' ', 'P', 'a', 't', 'h', '='] + v) == Some(v),
{
    let t = seq![' ', 'P', 'a', 't', 'h', '='] + v;
    lemma_path_attr_of(v);
    assert(set_cookie + seq![';', ' ', 'P', 'a', 't', 'h', '='] + v =~= set_cookie.push(';') + t);
    lemma_appended_path_attr(set_cookie, t);
}

} // verus!
