//! Pre-migration backup listings: the version a backup file records, and
//! the newest-first entries the backup-status endpoints return.
use vstd::prelude::*;
use vstd::string::StringExecFns;
use crate::calendar::{epoch_day, is_valid_date, padded, render_date};
use crate::setup::{mode_text, SetupMode};
use crate::text::{chars_of, range_eq, string_from_range, vec_of};

verus! {

/// The marker between a database file name and the version in a backup
/// file name: `{db}.backup-v{version}`.
pub open spec fn backup_marker() -> Seq<char> {
    seq!['.', 'b', 'a', 'c', 'k', 'u', 'p', '-', 'v']
}

/// Start of the last occurrence of `p` in `cs`, if any.
pub open spec fn last_match(cs: Seq<char>, p: Seq<char>) -> Option<int>
    decreases cs.len(),
{
    if cs.len() < p.len() {
        None
    } else if cs.subrange(cs.len() - p.len(), cs.len() as int) == p {
        Some(cs.len() - p.len())
    } else if cs.len() == 0 {
        None
    } else {
        last_match(cs.drop_last(), p)
    }
}

/// The version recorded in a backup path: the text after the last
/// `.backup-v`, or empty when the path has none.
pub open spec fn backup_version(path: Seq<char>) -> Seq<char> {
    match last_match(path, backup_marker()) {
        Some(i) => path.skip(i + backup_marker().len()),
        None => Seq::empty(),
    }
}

proof fn lemma_last_match_found(cs: Seq<char>, p: Seq<char>, i: int)
    requires
        0 <= i,
        i + p.len() <= cs.len(),
        cs.subrange(i, i + p.len()) == p,
        forall|j: int| i < j && j + p.len() <= cs.len() ==> #[trigger] cs.subrange(j, j + p.len()) != p,
    ensures
        last_match(cs, p) == Some(i),
    decreases cs.len(),
{
    let last = cs.len() - p.len();
    assert(cs.subrange(last, last + p.len()) == cs.subrange(last, cs.len() as int));
    if cs.subrange(cs.len() - p.len(), cs.len() as int) == p {
        assert(i == cs.len() - p.len());
    } else {
        let c2 = cs.drop_last();
        assert(cs.subrange(i, i + p.len()) =~= c2.subrange(i, i + p.len()));
        assert forall|j: int| i < j && j + p.len() <= c2.len() implies #[trigger] c2.subrange(j, j + p.len())
            != p by {
            assert(cs.subrange(j, j + p.len()) =~= c2.subrange(j, j + p.len()));
        }
        lemma_last_match_found(c2, p, i);
    }
}

proof fn lemma_last_match_none(cs: Seq<char>, p: Seq<char>)
    requires
        forall|j: int| 0 <= j && j + p.len() <= cs.len() ==> #[trigger] cs.subrange(j, j + p.len()) != p,
    ensures
        last_match(cs, p) is None,
    decreases cs.len(),
{
    if cs.len() >= p.len() && cs.len() > 0 {
        let last = cs.len() - p.len();
        assert(cs.subrange(last, last + p.len()) != p);
        assert(cs.subrange(last, last + p.len()) == cs.subrange(last, cs.len() as int));
        let c2 = cs.drop_last();
        assert forall|j: int| 0 <= j && j + p.len() <= c2.len() implies #[trigger] c2.subrange(
            j,
            j + p.len(),
        ) != p by {
            assert(cs.subrange(j, j + p.len()) =~= c2.subrange(j, j + p.len()));
        }
        lemma_last_match_none(c2, p);
    } else if cs.len() >= p.len() {
        assert(cs.subrange(0int, 0int + p.len()) != p);
        assert(cs.subrange(0int, 0int + p.len()) =~= p);
    }
}

/// Extract the migration version from a backup file path.
pub fn extract_version(path: &str) -> (r: String)
    ensures
        r@ == backup_version(path@),
{
    let v = chars_of(path);
    let marker = vec_of(&['.', 'b', 'a', 'c', 'k', 'u', 'p', '-', 'v']);
    assert(marker@ =~= backup_marker());
    let n = v.len();
    let mlen = marker.len();
    if n < mlen {
        proof {
            lemma_last_match_none(v@, marker@);
        }
        return String::new();
    }
    let mut i = n - mlen + 1;
    while i > 0
        invariant
            v@ == path@,
            marker@ == backup_marker(),
            n == v.len(),
            mlen == marker.len(),
            mlen <= n,
            0 <= i <= n - mlen + 1,
            forall|j: int| i <= j && j + mlen <= n ==> #[trigger] v@.subrange(j, j + mlen) != marker@,
        decreases i,
    {
        let j = i - 1;
        if range_eq(&v, j, j + mlen, &marker) {
            proof {
                lemma_last_match_found(v@, marker@, j as int);
            }
            let r = string_from_range(&v, j + mlen, n);
            assert(r@ =~= path@.skip(j + mlen));
            return r;
        }
        i = j;
    }
    proof {
        lemma_last_match_none(v@, marker@);
    }
    String::new()
}

/// What `chrono` renders for the UTC instant `secs` seconds and `nanos`
/// nanoseconds after the Unix epoch, with `to_rfc3339_opts(Secs, true)`.
pub uninterp spec fn chrono_rfc3339_secs(secs: i64, nanos: u32) -> Seq<char>;

/// The last day this calendar renders with a four-digit year:
/// 10000-01-01T00:00:00Z in seconds since the epoch.
pub open spec fn four_digit_year_limit() -> int {
    253402300800
}

/// `t` is the RFC 3339 rendering, to whole seconds and with a `Z` offset,
/// of the instant `secs` seconds after the epoch:
/// `YYYY-MM-DDTHH:MM:SSZ`.
pub open spec fn is_rfc3339_utc(t: Seq<char>, secs: int) -> bool {
    exists|y: nat, m: nat, d: nat|
        is_valid_date(y as int, m as int, d as int) && epoch_day(y as int, m as int, d as int)
            == secs / 86400 && t == #[trigger] render_date(y, m, d) + seq!['T'] + padded(
            ((secs % 86400) / 3600) as nat,
            2,
        ) + seq![':'] + padded(((secs % 3600) / 60) as nat, 2) + seq![':'] + padded(
            (secs % 60) as nat,
            2,
        ) + seq!['Z']
}

/// `chrono::DateTime::<Utc>::from_timestamp`, then `to_rfc3339_opts` with
/// whole seconds and `Z`. `None` when `chrono` cannot represent the
/// instant. The text is named by the arguments; for instants from the epoch
/// up to the year 10000 with a valid nanosecond count the contract states it
/// (chrono's documented RFC 3339 layout); chrono's exact representable
/// range is not stated.
#[verifier::external_body]
fn chrono_utc_rfc3339(secs: i64, nanos: u32) -> (r: Option<String>)
    ensures
        r matches Some(t) ==> t@ == chrono_rfc3339_secs(secs, nanos),
        r is None ==> !(0 <= secs < four_digit_year_limit() && nanos < 1_000_000_000),
        r matches Some(t) ==> (0 <= secs < four_digit_year_limit() && nanos < 1_000_000_000
            ==> is_rfc3339_utc(t@, secs as int)),
{
    match chrono::DateTime::<chrono::Utc>::from_timestamp(secs, nanos) {
        Some(dt) => Some(dt.to_rfc3339_opts(chrono::SecondsFormat::Secs, true)),
        None => None,
    }
}

/// A file modification time (seconds and nanoseconds after the epoch, as
/// `SystemTime` splits it) rendered as an RFC 3339 UTC timestamp to whole
/// seconds; `None` when `chrono` cannot represent the instant.
pub fn format_mtime(secs: i64, nanos: u32) -> (r: Option<String>)
    ensures
        r matches Some(t) ==> t@ == chrono_rfc3339_secs(secs, nanos),
        r is None ==> !(0 <= secs < four_digit_year_limit() && nanos < 1_000_000_000),
        r matches Some(t) ==> (0 <= secs < four_digit_year_limit() && nanos < 1_000_000_000
            ==> is_rfc3339_utc(t@, secs as int)),
{
    chrono_utc_rfc3339(secs, nanos)
}

/// One backup file as the status endpoints report it.
pub struct BackupEntry {
    pub path: String,
    pub version: String,
    pub backed_up_at: String,
}

/// A backup file found on disk: its path and its modification time,
/// already rendered as an RFC 3339 UTC timestamp.
pub struct FoundBackup {
    pub path: String,
    pub modified: String,
}

/// Status entries for backups found oldest-first: newest first, each with
/// the version its file name records.
pub fn backup_entries_newest_first(found: Vec<FoundBackup>) -> (r: Vec<BackupEntry>)
    ensures
        r.len() == found.len(),
        forall|i: int|
            0 <= i < r.len() ==> {
                let f = #[trigger] found@[found.len() - 1 - i];
                &&& r@[i].path@ == f.path@
                &&& r@[i].version@ == backup_version(f.path@)
                &&& r@[i].backed_up_at@ == f.modified@
            },
{
    let mut found = found;
    let ghost orig = found@;
    let mut out: Vec<BackupEntry> = Vec::new();
    while found.len() > 0
        invariant
            found@ == orig.take(found.len() as int),
            found.len() <= orig.len(),
            out.len() + found.len() == orig.len(),
            forall|i: int|
                0 <= i < out.len() ==> {
                    let f = #[trigger] orig[orig.len() - 1 - i];
                    &&& out@[i].path@ == f.path@
                    &&& out@[i].version@ == backup_version(f.path@)
                    &&& out@[i].backed_up_at@ == f.modified@
                },
        decreases found.len(),
    {
        let f = found.pop().unwrap();
        assert(f == orig[orig.len() - 1 - out.len()]);
        let version = extract_version(f.path.as_str());
        out.push(BackupEntry { path: f.path, version, backed_up_at: f.modified });
        assert(found@ =~= orig.take(found.len() as int));
    }
    out
}

/// Which slot of the two-profile backup listing a profile directory fills.
pub enum BackupSlot {
    Production,
    Demo,
    /// A profile directory the two-slot listing has no place for.
    Unlisted,
}

/// The listing slot of a profile directory name: `production` and `demo`
/// fill their slots; any other name is not listed.
pub fn backup_slot(dir: &str) -> (r: BackupSlot)
    ensures
        dir@ == mode_text(SetupMode::Production) ==> r is Production,
        dir@ == mode_text(SetupMode::Demo) ==> r is Demo,
        dir@ != mode_text(SetupMode::Production) && dir@ != mode_text(SetupMode::Demo)
            ==> r is Unlisted,
{
    let v = chars_of(dir);
    let production = vec_of(&['p', 'r', 'o', 'd', 'u', 'c', 't', 'i', 'o', 'n']);
    let demo = vec_of(&['d', 'e', 'm', 'o']);
    assert(production@ =~= mode_text(SetupMode::Production));
    assert(demo@ =~= mode_text(SetupMode::Demo));
    assert(v@.subrange(0, v@.len() as int) =~= v@);
    if range_eq(&v, 0, v.len(), &production) {
        BackupSlot::Production
    } else if range_eq(&v, 0, v.len(), &demo) {
        BackupSlot::Demo
    } else {
        BackupSlot::Unlisted
    }
}

} // verus!
