//! The operational mode of an instance: demo or production.
use vstd::prelude::*;
use vstd::string::StringExecFns;
use crate::text::{
    ascii_lower, chars_of, eq_ignore_ascii_case, range_eq_ignore_ascii_case, trim, trim_bounds,
    trim_end, trim_start,
};

verus! {

/// The operational mode of the instance; controls startup behavior, auth
/// requirements, and reset eligibility.
#[derive(Debug, Clone, Copy, PartialEq, Eq, Structural)]
pub enum SetupMode {
    Demo,
    Production,
}

/// The text of a mode as stored in the `active_profile` file, the settings
/// table and on the wire.
pub open spec fn mode_text(m: SetupMode) -> Seq<char> {
    match m {
        SetupMode::Demo => seq!['d', 'e', 'm', 'o'],
        SetupMode::Production => seq!['p', 'r', 'o', 'd', 'u', 'c', 't', 'i', 'o', 'n'],
    }
}

/// The mode a text names, compared after trimming white space and up to
/// case. (A non-ASCII character never lowercases to one of the ASCII
/// letters of `demo` or `production` alone, so comparing up to ASCII case is
/// the same test as comparing the Unicode lowercase form.)
pub open spec fn mode_named(s: Seq<char>) -> Option<SetupMode> {
    if eq_ignore_ascii_case(trim(s), mode_text(SetupMode::Demo)) {
        Some(SetupMode::Demo)
    } else if eq_ignore_ascii_case(trim(s), mode_text(SetupMode::Production)) {
        Some(SetupMode::Production)
    } else {
        None
    }
}

/// Unicode lowercase form of a text, as `str::to_lowercase` computes it.
pub uninterp spec fn unicode_lowercase(s: Seq<char>) -> Seq<char>;

/// `str::to_lowercase`; the result is the Unicode lowercase form of `s`, a
/// function of `s` alone. Nothing more is stated of it.
#[verifier::external_body]
fn to_lowercase(s: &str) -> (r: String)
    ensures
        r@ == unicode_lowercase(s@),
{
    s.to_lowercase()
}

impl SetupMode {
    /// The string used in the `active_profile` file and the settings table.
    pub fn as_str(&self) -> (r: &'static str)
        ensures
            r@ == mode_text(*self),
    {
        match self {
            SetupMode::Demo => {
                proof {
                    reveal_strlit("demo");
                }
                "demo"
            },
            SetupMode::Production => {
                proof {
                    reveal_strlit("production");
                }
                "production"
            },
        }
    }

    /// The directory name used for this mode's profile data
    /// (`data_dir/demo/`, `data_dir/production/`); currently the same as
    /// [`SetupMode::as_str`].
    pub fn as_dir_name(&self) -> (r: &'static str)
        ensures
            r@ == mode_text(*self),
    {
        self.as_str()
    }

    /// The display form of the mode.
    pub fn to_string(&self) -> (r: String)
        ensures
            r@ == mode_text(*self),
    {
        String::from_str(self.as_str())
    }

    /// Parse a mode name: surrounding white space is ignored and case does
    /// not matter. Any other text is an error that names the text, trimmed
    /// and lowercased.
    pub fn from_text(s: &str) -> (r: Result<SetupMode, String>)
        ensures
            match mode_named(s@) {
                Some(m) => r == Ok::<SetupMode, String>(m),
                None => r matches Err(msg) && msg@ == seq![
                    'u', 'n', 'k', 'n', 'o', 'w', 'n', ' ', 's', 'e', 't', 'u', 'p', ' ',
                    'm', 'o', 'd', 'e', ':', ' ',
                ] + unicode_lowercase(trim(s@)),
            },
    {
        let v = chars_of(s);
        let (a, b) = trim_bounds(&v, 0, v.len());
        assert(v@.subrange(0, v@.len() as int) =~= v@);
        let demo = crate::text::vec_of(&['d', 'e', 'm', 'o']);
        let production = crate::text::vec_of(&['p', 'r', 'o', 'd', 'u', 'c', 't', 'i', 'o', 'n']);
        assert(demo@ =~= mode_text(SetupMode::Demo));
        assert(production@ =~= mode_text(SetupMode::Production));
        if range_eq_ignore_ascii_case(&v, a, b, &demo) {
            Ok(SetupMode::Demo)
        } else if range_eq_ignore_ascii_case(&v, a, b, &production) {
            Ok(SetupMode::Production)
        } else {
            let trimmed = crate::text::string_from_range(&v, a, b);
            let lower = to_lowercase(trimmed.as_str());
            let mut msg = String::from_str("unknown setup mode: ");
            proof {
                reveal_strlit("unknown setup mode: ");
            }
            msg.append(lower.as_str());
            Err(msg)
        }
    }
}

impl std::str::FromStr for SetupMode {
    type Err = String;

    fn from_str(s: &str) -> (r: Result<Self, Self::Err>)
        ensures
            match mode_named(s@) {
                Some(m) => r == Ok::<SetupMode, String>(m),
                None => r matches Err(msg) && msg@ == seq![
                    'u', 'n', 'k', 'n', 'o', 'w', 'n', ' ', 's', 'e', 't', 'u', 'p', ' ',
                    'm', 'o', 'd', 'e', ':', ' ',
                ] + unicode_lowercase(trim(s@)),
            },
    {
        SetupMode::from_text(s)
    }
}

/// The mode a stored active-profile name stands for; a name that is not a
/// mode falls back to `Demo`.
pub fn default_profile_from_active(active: &str) -> (m: SetupMode)
    ensures
        m == (match mode_named(active@) {
            Some(n) => n,
            None => SetupMode::Demo,
        }),
{
    match SetupMode::from_text(active) {
        Ok(m) => m,
        Err(_) => SetupMode::Demo,
    }
}

/// Printing a mode and parsing the text back gives the same mode.
pub proof fn lemma_mode_text_round_trips(m: SetupMode)
    ensures
        mode_named(mode_text(m)) == Some(m),
{
    let t = mode_text(m);
    assert(trim_start(t) == t);
    assert(trim_end(t) == t);
    assert(eq_ignore_ascii_case(t, t));
    if m == SetupMode::Production {
        assert(!eq_ignore_ascii_case(t, mode_text(SetupMode::Demo)));
    }
}

/// Parsing a mode ignores surrounding white space and ASCII case: texts
/// that agree up to those parse alike.
pub proof fn lemma_mode_parse_ignores_case_and_padding(s: Seq<char>, t: Seq<char>)
    requires
        eq_ignore_ascii_case(trim(s), trim(t)),
    ensures
        mode_named(s) == mode_named(t),
{
    let a = trim(s);
    let b = trim(t);
    let demo = mode_text(SetupMode::Demo);
    let prod = mode_text(SetupMode::Production);
    assert(eq_ignore_ascii_case(a, demo) == eq_ignore_ascii_case(b, demo)) by {
        if eq_ignore_ascii_case(a, demo) {
            assert forall|i: int| 0 <= i < b.len() implies ascii_lower(#[trigger] b[i]) == ascii_lower(
                demo[i],
            ) by {
                assert(ascii_lower(a[i]) == ascii_lower(b[i]));
            }
        }
        if eq_ignore_ascii_case(b, demo) {
            assert forall|i: int| 0 <= i < a.len() implies ascii_lower(#[trigger] a[i]) == ascii_lower(
                demo[i],
            ) by {
                assert(ascii_lower(a[i]) == ascii_lower(b[i]));
            }
        }
    }
    assert(eq_ignore_ascii_case(a, prod) == eq_ignore_ascii_case(b, prod)) by {
        if eq_ignore_ascii_case(a, prod) {
            assert forall|i: int| 0 <= i < b.len() implies ascii_lower(#[trigger] b[i]) == ascii_lower(
                prod[i],
            ) by {
                assert(ascii_lower(a[i]) == ascii_lower(b[i]));
            }
        }
        if eq_ignore_ascii_case(b, prod) {
            assert forall|i: int| 0 <= i < a.len() implies ascii_lower(#[trigger] a[i]) == ascii_lower(
                prod[i],
            ) by {
                assert(ascii_lower(a[i]) == ascii_lower(b[i]));
            }
        }
    }
}

} // verus!
