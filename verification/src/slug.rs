//! Profile slug: the kebab-case identifier used as the on-disk profile
//! directory name and the primary key of the profile table.
//!
//! Slugs are kebab-case ASCII (lowercase letters, digits, hyphens), 1..=60
//! chars, with no leading/trailing hyphen and no `--` runs, and are none of
//! the reserved names `demo`, `meta`, `sessions`.
use vstd::prelude::*;
use vstd::utf8::{encode_utf8, is_ascii_chars, is_ascii_chars_encode_utf8};
use crate::text::{chars_of, range_eq};

verus! {

/// Names that cannot be used as a profile slug.
///
/// `demo` is the special demo profile. `meta` and `sessions` are
/// install-level database files that share the data directory with profile
/// folders.
pub const RESERVED_SLUGS: [&'static str; 3] = ["demo", "meta", "sessions"];

/// Maximum slug length, in bytes (also chars: slugs are ASCII).
pub const MAX_SLUG_LEN: usize = 60;

/// Longest input, in bytes, that [`derive_slug`] scans; anything longer is
/// rejected as `TooLong` before any per-byte work.
pub const DERIVE_INPUT_BYTE_CAP: usize = 1024;

/// Why a string is not a slug, or cannot be turned into one.
#[derive(Debug, Clone, PartialEq, Eq)]
pub enum SlugError {
    Empty,
    TooLong { len: usize, max: usize },
    Reserved(String),
    InvalidChars(String),
    HyphenLayout(String),
    Unparseable { input: String },
}

/// The outcome of checking a candidate slug, rule by rule.
pub enum SlugCheck {
    Valid,
    Empty,
    TooLong,
    InvalidChars,
    HyphenLayout,
    Reserved,
}

pub open spec fn is_slug_char(c: char) -> bool {
    ('a' <= c && c <= 'z') || ('0' <= c && c <= '9') || c == '-'
}

pub open spec fn has_double_hyphen(cs: Seq<char>) -> bool {
    exists|i: int| 0 <= i && i + 1 < cs.len() && #[trigger] cs[i] == '-' && cs[i + 1] == '-'
}

pub open spec fn is_reserved_slug(cs: Seq<char>) -> bool {
    ||| cs == seq!['d', 'e', 'm', 'o']
    ||| cs == seq!['m', 'e', 't', 'a']
    ||| cs == seq!['s', 'e', 's', 's', 'i', 'o', 'n', 's']
}

/// Length of the UTF-8 encoding, which is what `str::len` counts.
pub open spec fn utf8_len(cs: Seq<char>) -> nat {
    encode_utf8(cs).len()
}

/// The first slug rule that `cs` breaks, in the order the rules are checked.
pub open spec fn slug_check(cs: Seq<char>) -> SlugCheck {
    if cs.len() == 0 {
        SlugCheck::Empty
    } else if utf8_len(cs) > MAX_SLUG_LEN {
        SlugCheck::TooLong
    } else if !(forall|i: int| 0 <= i < cs.len() ==> is_slug_char(#[trigger] cs[i])) {
        SlugCheck::InvalidChars
    } else if cs[0] == '-' || cs.last() == '-' || has_double_hyphen(cs) {
        SlugCheck::HyphenLayout
    } else if is_reserved_slug(cs) {
        SlugCheck::Reserved
    } else {
        SlugCheck::Valid
    }
}

pub open spec fn is_valid_slug(cs: Seq<char>) -> bool {
    slug_check(cs) == SlugCheck::Valid
}

/// `r` is what validating `cs` as a slug gives: the slug itself, or the
/// error of the first broken rule carrying the offending text.
pub open spec fn slug_result_matches(r: Result<Slug, SlugError>, cs: Seq<char>) -> bool {
    match r {
        Ok(slug) => slug_check(cs) == SlugCheck::Valid && slug@ == cs,
        Err(SlugError::Empty) => slug_check(cs) == SlugCheck::Empty,
        Err(SlugError::TooLong { len, max }) => slug_check(cs) == SlugCheck::TooLong && len
            == utf8_len(cs) && max == MAX_SLUG_LEN,
        Err(SlugError::InvalidChars(t)) => slug_check(cs) == SlugCheck::InvalidChars && t@ == cs,
        Err(SlugError::HyphenLayout(t)) => slug_check(cs) == SlugCheck::HyphenLayout && t@ == cs,
        Err(SlugError::Reserved(t)) => slug_check(cs) == SlugCheck::Reserved && t@ == cs,
        Err(SlugError::Unparseable { .. }) => false,
    }
}

/// Validated profile slug.
#[derive(Debug, PartialEq, Eq, Hash)]
pub struct Slug(String);

impl Clone for Slug {
    fn clone(&self) -> (r: Self)
        ensures
            r@ == self@,
    {
        proof {
            use_type_invariant(self);
        }
        Slug(self.0.clone())
    }
}

impl View for Slug {
    type V = Seq<char>;

    closed spec fn view(&self) -> Seq<char> {
        self.0@
    }
}

impl Slug {
    #[verifier::type_invariant]
    spec fn inv(self) -> bool {
        is_valid_slug(self.0@)
    }

    /// Construct a `Slug` from an already-canonical string, or the error
    /// for the first rule it breaks.
    pub fn new(s: String) -> (r: Result<Slug, SlugError>)
        ensures
            slug_result_matches(r, s@),
    {
        if s.as_str().is_empty() {
            return Err(SlugError::Empty);
        }
        let n = s.as_str().as_bytes().len();
        if n > MAX_SLUG_LEN {
            return Err(SlugError::TooLong { len: n, max: MAX_SLUG_LEN });
        }
        let v = chars_of(s.as_str());
        let mut i: usize = 0;
        while i < v.len()
            invariant
                v@ == s@,
                s@.len() > 0,
                utf8_len(s@) <= MAX_SLUG_LEN,
                i <= v.len(),
                forall|j: int| 0 <= j < i ==> is_slug_char(#[trigger] v@[j]),
            decreases v.len() - i,
        {
            let c = v[i];
            if !(('a' <= c && c <= 'z') || ('0' <= c && c <= '9') || c == '-') {
                assert(!is_slug_char(v@[i as int]));
                return Err(SlugError::InvalidChars(s));
            }
            i += 1;
        }
        if v[0] == '-' || v[v.len() - 1] == '-' {
            return Err(SlugError::HyphenLayout(s));
        }
        let mut k: usize = 0;
        while k + 1 < v.len()
            invariant
                v@ == s@,
                utf8_len(s@) <= MAX_SLUG_LEN,
                forall|j: int| 0 <= j < v@.len() ==> is_slug_char(#[trigger] v@[j]),
                v@[0] != '-' && v@.last() != '-',
                v.len() >= 1,
                k + 1 <= v.len(),
                forall|j: int| 0 <= j < k ==> !(#[trigger] v@[j] == '-' && v@[j + 1] == '-'),
            decreases v.len() - k,
        {
            if v[k] == '-' && v[k + 1] == '-' {
                assert(v@[k as int] == '-' && v@[k + 1] == '-');
                return Err(SlugError::HyphenLayout(s));
            }
            k += 1;
        }
        assert(!has_double_hyphen(v@));
        if is_reserved_chars(&v) {
            return Err(SlugError::Reserved(s));
        }
        Ok(Slug(s))
    }

    /// Borrow the slug as a `&str`.
    pub fn as_str(&self) -> (r: &str)
        ensures
            r@ == self@,
            is_valid_slug(r@),
    {
        proof {
            use_type_invariant(self);
        }
        self.0.as_str()
    }

    /// Consume the wrapper and return the inner `String`.
    pub fn into_inner(self) -> (r: String)
        ensures
            r@ == self@,
            is_valid_slug(r@),
    {
        proof {
            use_type_invariant(&self);
        }
        self.0
    }

    /// The slug's text as an owned `String` (its display form).
    pub fn to_string(&self) -> (r: String)
        ensures
            r@ == self@,
    {
        self.0.clone()
    }
}

impl std::str::FromStr for Slug {
    type Err = SlugError;

    fn from_str(s: &str) -> (r: Result<Self, Self::Err>)
        ensures
            slug_result_matches(r, s@),
    {
        Slug::new(s.to_owned())
    }
}

impl AsRef<str> for Slug {
    fn as_ref(&self) -> (r: &str)
        ensures
            r@ == self@,
    {
        self.as_str()
    }
}

fn push_all(v: &mut Vec<char>, cs: &[char])
    ensures
        final(v)@ == old(v)@ + cs@,
{
    let mut i: usize = 0;
    while i < cs.len()
        invariant
            i <= cs.len(),
            v@ == old(v)@ + cs@.take(i as int),
        decreases cs.len() - i,
    {
        v.push(cs[i]);
        i += 1;
        assert(old(v)@ + cs@.take(i as int) =~= (old(v)@ + cs@.take(i - 1)).push(cs@[i - 1]));
    }
    assert(cs@.take(cs.len() as int) =~= cs@);
}

fn is_reserved_chars(v: &Vec<char>) -> (r: bool)
    ensures
        r == is_reserved_slug(v@),
{
    let mut demo: Vec<char> = Vec::new();
    push_all(&mut demo, &['d', 'e', 'm', 'o']);
    let mut meta: Vec<char> = Vec::new();
    push_all(&mut meta, &['m', 'e', 't', 'a']);
    let mut sessions: Vec<char> = Vec::new();
    push_all(&mut sessions, &['s', 'e', 's', 's', 'i', 'o', 'n', 's']);
    assert(demo@ =~= seq!['d', 'e', 'm', 'o']);
    assert(meta@ =~= seq!['m', 'e', 't', 'a']);
    assert(sessions@ =~= seq!['s', 'e', 's', 's', 'i', 'o', 'n', 's']);
    assert(v@.subrange(0, v@.len() as int) =~= v@);
    range_eq(v, 0, v.len(), &demo) || range_eq(v, 0, v.len(), &meta) || range_eq(
        v,
        0,
        v.len(),
        &sessions,
    )
}

/// ASCII lowercase of one byte (`u8::to_ascii_lowercase`).
pub open spec fn lower_byte(b: u8) -> u8 {
    if 65 <= b && b <= 90 {
        (b + 32) as u8
    } else {
        b
    }
}

/// Whether a byte is an ASCII lowercase letter or digit.
pub open spec fn is_lower_alnum(b: u8) -> bool {
    (97 <= b && b <= 122) || (48 <= b && b <= 57)
}

/// Kebab-casing of a byte string, read left to right: the ASCII-lowercased
/// `[a-z0-9]` bytes are kept, and every run of other bytes between two kept
/// bytes becomes a single `-`; runs at either end leave nothing. The flag
/// says whether the input ends in such a run.
pub open spec fn kebab_fold(bs: Seq<u8>) -> (Seq<char>, bool)
    decreases bs.len(),
{
    if bs.len() == 0 {
        (Seq::<char>::empty(), false)
    } else {
        let (out, pending) = kebab_fold(bs.drop_last());
        let c = lower_byte(bs.last());
        if is_lower_alnum(c) {
            let sep = if pending && out.len() > 0 {
                out.push('-')
            } else {
                out
            };
            (sep.push(c as char), false)
        } else {
            (out, true)
        }
    }
}

/// The canonical slug text derived from the UTF-8 bytes of a display name.
pub open spec fn kebab(bs: Seq<u8>) -> Seq<char> {
    kebab_fold(bs).0
}

/// `r` is what [`derive_slug`] gives for the display name `input`.
pub open spec fn derive_result_matches(r: Result<Slug, SlugError>, input: Seq<char>) -> bool {
    let bytes = encode_utf8(input);
    if bytes.len() > DERIVE_INPUT_BYTE_CAP {
        r matches Err(SlugError::TooLong { len, max }) && len == bytes.len() && max == MAX_SLUG_LEN
    } else if kebab(bytes).len() == 0 {
        r matches Err(SlugError::Unparseable { input: i }) && i@ == input
    } else {
        slug_result_matches(r, kebab(bytes))
    }
}

fn lower_alnum_char(b: u8) -> (r: Option<char>)
    ensures
        is_lower_alnum(lower_byte(b)) ==> r == Some(lower_byte(b) as char),
        !is_lower_alnum(lower_byte(b)) ==> r is None,
{
    let c: u8 = if 65 <= b && b <= 90 {
        b + 32
    } else {
        b
    };
    if (97 <= c && c <= 122) || (48 <= c && c <= 57) {
        Some(c as char)
    } else {
        None
    }
}

/// Derive a slug from a free-form display name.
///
/// ASCII-lowercase, map every non-`[a-z0-9]` byte (including every byte of
/// a multi-byte UTF-8 sequence) to a separator, collapse separator runs to a
/// single `-`, drop them at both ends, then validate with [`Slug::new`].
/// Input longer than [`DERIVE_INPUT_BYTE_CAP`] bytes is rejected as
/// `TooLong` unscanned; input with no slug-worthy byte is `Unparseable`.
pub fn derive_slug(input: &str) -> (r: Result<Slug, SlugError>)
    ensures
        derive_result_matches(r, input@),
        !(r matches Err(SlugError::Empty)),
        !(r matches Err(SlugError::InvalidChars(_))),
        !(r matches Err(SlugError::HyphenLayout(_))),
{
    let b = input.as_bytes();
    let blen = b.len();
    if blen > DERIVE_INPUT_BYTE_CAP {
        return Err(SlugError::TooLong { len: blen, max: MAX_SLUG_LEN });
    }
    let mut buf = String::new();
    let mut pending = false;
    let mut i: usize = 0;
    while i < blen
        invariant
            blen == b@.len(),
            b@ == encode_utf8(input@),
            i <= blen,
            (buf@, pending) == kebab_fold(b@.take(i as int)),
        decreases blen - i,
    {
        proof {
            assert(b@.take(i + 1).drop_last() =~= b@.take(i as int));
        }
        match lower_alnum_char(b[i]) {
            Some(c) => {
                if pending && !buf.as_str().is_empty() {
                    buf.push('-');
                }
                buf.push(c);
                pending = false;
            },
            None => {
                pending = true;
            },
        }
        i += 1;
    }
    assert(b@.take(blen as int) =~= b@);
    proof {
        lemma_kebab_shape(b@);
        is_ascii_chars_encode_utf8(buf@);
    }
    if buf.as_str().is_empty() {
        return Err(SlugError::Unparseable { input: input.to_owned() });
    }
    Slug::new(buf)
}

/// Shape of kebab-cased text: only slug characters, no `-` at either end,
/// no `--`, and ASCII.
pub proof fn lemma_kebab_shape(bs: Seq<u8>)
    ensures
        forall|i: int| 0 <= i < kebab(bs).len() ==> is_slug_char(#[trigger] kebab(bs)[i]),
        kebab(bs).len() > 0 ==> kebab(bs)[0] != '-' && kebab(bs).last() != '-',
        !has_double_hyphen(kebab(bs)),
        is_ascii_chars(kebab(bs)),
    decreases bs.len(),
{
    if bs.len() > 0 {
        let prev = bs.drop_last();
        lemma_kebab_shape(prev);
        let (out, pending) = kebab_fold(prev);
        let c = lower_byte(bs.last());
        if is_lower_alnum(c) {
            let sep = if pending && out.len() > 0 {
                out.push('-')
            } else {
                out
            };
            let res = sep.push(c as char);
            assert(kebab(bs) == res);
            assert forall|i: int| 0 <= i < res.len() implies is_slug_char(#[trigger] res[i]) by {
                if i < out.len() {
                    assert(res[i] == out[i]);
                }
            }
            assert(!has_double_hyphen(res)) by {
                if has_double_hyphen(res) {
                    let k = choose|k: int|
                        0 <= k && k + 1 < res.len() && #[trigger] res[k] == '-' && res[k + 1]
                            == '-';
                    if k + 1 < out.len() {
                        assert(out[k] == '-' && out[k + 1] == '-');
                    }
                }
            }
            assert(is_ascii_chars(res)) by {
                assert forall|i: int| 0 <= i < res.len() implies '\0' <= #[trigger] res[i]
                    <= '\u{7f}' by {
                    if i < out.len() {
                        assert(res[i] == out[i]);
                    }
                }
            }
        }
    }
}

/// Deriving from a valid slug's own text gives back that slug: kebab-casing
/// leaves valid slug text unchanged.
pub proof fn lemma_derive_slug_fixes_valid_slugs(cs: Seq<char>, r: Result<Slug, SlugError>)
    requires
        is_valid_slug(cs),
        derive_result_matches(r, cs),
    ensures
        r matches Ok(s) && s@ == cs,
{
    is_ascii_chars_encode_utf8(cs);
    lemma_kebab_identity(cs);
}

/// A slug's own text passes validation again and gives back the same slug
/// (what a display-then-parse round trip relies on).
pub proof fn lemma_slug_text_reparses(cs: Seq<char>, r: Result<Slug, SlugError>)
    requires
        is_valid_slug(cs),
        slug_result_matches(r, cs),
    ensures
        r matches Ok(s) && s@ == cs,
{
}

proof fn lemma_kebab_identity(cs: Seq<char>)
    requires
        is_valid_slug(cs),
    ensures
        encode_utf8(cs).len() == cs.len(),
        kebab(encode_utf8(cs)) == cs,
{
    assert(is_ascii_chars(cs)) by {
        assert forall|i: int| 0 <= i < cs.len() implies '\0' <= #[trigger] cs[i] <= '\u{7f}' by {
            assert(is_slug_char(cs[i]));
        }
    }
    is_ascii_chars_encode_utf8(cs);
    let bs = encode_utf8(cs);
    lemma_kebab_prefix(cs, bs, cs.len() as int);
    assert(bs.take(cs.len() as int) =~= bs);
    assert(cs.take(cs.len() as int) =~= cs);
}

proof fn lemma_kebab_prefix(cs: Seq<char>, bs: Seq<u8>, k: int)
    requires
        is_valid_slug(cs),
        bs.len() == cs.len(),
        forall|i: int| 0 <= i < cs.len() ==> #[trigger] cs[i] as u8 == bs[i],
        0 <= k <= cs.len(),
    ensures
        k > 0 && cs[k - 1] == '-' ==> kebab_fold(bs.take(k)) == (cs.take(k - 1), true),
        !(k > 0 && cs[k - 1] == '-') ==> kebab_fold(bs.take(k)) == (cs.take(k), false),
    decreases k,
{
    if k > 0 {
        lemma_kebab_prefix(cs, bs, k - 1);
        let t = bs.take(k);
        assert(t.drop_last() =~= bs.take(k - 1));
        let c = cs[k - 1];
        assert(is_slug_char(c));
        assert(bs[k - 1] == c as u8);
        if c == '-' {
            assert(k - 1 > 0);
            assert(!(cs[k - 2] == '-' && cs[k - 1] == '-'));
            assert(lower_byte(bs[k - 1]) == 45);
        } else {
            assert(lower_byte(bs[k - 1]) == c as u8);
            assert(is_lower_alnum(c as u8));
            assert((c as u8) as char == c);
            if k - 1 > 0 && cs[k - 2] == '-' {
                assert(k - 2 > 0);
                assert(cs.take(k - 2).push('-').push(c) =~= cs.take(k));
            } else {
                assert(cs.take(k - 1).push(c) =~= cs.take(k));
            }
        }
    }
}

/// Deriving ignores ASCII case: replacing every byte `A`..=`Z` (65..=90)
/// of a display name by its lowercase (32 higher) gives the same slug text.
pub proof fn lemma_kebab_ignores_ascii_case(bs: Seq<u8>)
    ensures
        kebab(bs) == kebab(bs.map_values(|b: u8| if 65 <= b && b <= 90 { (b + 32) as u8 } else { b })),
    decreases bs.len(),
{
    let lo = bs.map_values(|b: u8| if 65 <= b && b <= 90 { (b + 32) as u8 } else { b });
    if bs.len() > 0 {
        let prev = bs.drop_last();
        let lo_prev = prev.map_values(|b: u8| if 65 <= b && b <= 90 { (b + 32) as u8 } else { b });
        lemma_kebab_ignores_ascii_case(prev);
        assert(lo.drop_last() =~= lo_prev);
        let b = bs.last();
        assert(lo.last() == (if 65 <= b && b <= 90 { (b + 32) as u8 } else { b }));
        assert(lower_byte(lo.last()) == lower_byte(b));
        assert(kebab_fold(lo) == kebab_fold(bs));
    }
}

/// ASCII letters and digits only.
pub open spec fn is_ascii_alnum_text(cs: Seq<char>) -> bool {
    forall|i: int|
        0 <= i < cs.len() ==> ('a' <= #[trigger] cs[i] && cs[i] <= 'z') || ('A' <= cs[i] && cs[i]
            <= 'Z') || ('0' <= cs[i] && cs[i] <= '9')
}

/// A display name of ASCII letters and digits keeps every character in its
/// slug, each letter lowercased (`A`..=`Z` become `a`..=`z`): the derived
/// slug, when there is one, is that text, and there is one unless the text
/// is too long or reserved.
pub proof fn lemma_derive_slug_keeps_alnum_lowercased(input: Seq<char>, r: Result<Slug, SlugError>)
    requires
        is_ascii_alnum_text(input),
        derive_result_matches(r, input),
    ensures
        r matches Ok(s) ==> s@ == input.map_values(
            |c: char| if 'A' <= c && c <= 'Z' { ((c as u32) + 32) as char } else { c },
        ),
        0 < input.len() <= MAX_SLUG_LEN && !is_reserved_slug(
            input.map_values(|c: char| if 'A' <= c && c <= 'Z' { ((c as u32) + 32) as char } else { c }),
        ) ==> r is Ok,
{
    let low = input.map_values(|c: char| if 'A' <= c && c <= 'Z' { ((c as u32) + 32) as char } else { c });
    assert(is_ascii_chars(input)) by {
        assert forall|i: int| 0 <= i < input.len() implies '\0' <= #[trigger] input[i] <= '\u{7f}' by {
            assert(('a' <= input[i] && input[i] <= 'z') || ('A' <= input[i] && input[i] <= 'Z') || (
            '0' <= input[i] && input[i] <= '9'));
        }
    }
    is_ascii_chars_encode_utf8(input);
    let bs = encode_utf8(input);
    lemma_kebab_alnum_prefix(input, bs, input.len() as int);
    assert(bs.take(input.len() as int) =~= bs);
    assert(low.take(input.len() as int) =~= low);
    assert(kebab(bs) == low);
    if 0 < input.len() <= MAX_SLUG_LEN && !is_reserved_slug(low) {
        lemma_kebab_shape(bs);
        is_ascii_chars_encode_utf8(low);
        assert(slug_check(low) == SlugCheck::Valid);
    }
}

proof fn lemma_kebab_alnum_prefix(input: Seq<char>, bs: Seq<u8>, k: int)
    requires
        is_ascii_alnum_text(input),
        bs.len() == input.len(),
        forall|i: int| 0 <= i < input.len() ==> #[trigger] input[i] as u8 == bs[i],
        0 <= k <= input.len(),
    ensures
        kebab_fold(bs.take(k)) == (
            input.map_values(|c: char| if 'A' <= c && c <= 'Z' { ((c as u32) + 32) as char } else { c }).take(k),
            false,
        ),
    decreases k,
{
    let low = input.map_values(|c: char| if 'A' <= c && c <= 'Z' { ((c as u32) + 32) as char } else { c });
    if k > 0 {
        lemma_kebab_alnum_prefix(input, bs, k - 1);
        let t = bs.take(k);
        assert(t.drop_last() =~= bs.take(k - 1));
        let c = input[k - 1];
        let b = bs[k - 1];
        assert(b == c as u8);
        assert(('a' <= c && c <= 'z') || ('A' <= c && c <= 'Z') || ('0' <= c && c <= '9'));
        assert(is_lower_alnum(lower_byte(b)));
        assert(lower_byte(b) as char == low[k - 1]);
        assert(low.take(k - 1).push(low[k - 1]) =~= low.take(k));
    }
}

} // verus!
