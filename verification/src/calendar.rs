//! Civil (proleptic Gregorian, UTC) dates of Unix day numbers, and the
//! `YYYY-MM-DD` rendering of Unix timestamps used by the migration-status
//! listing.
use vstd::prelude::*;
use vstd::arithmetic::div_mod::{
    lemma_fundamental_div_mod, lemma_fundamental_div_mod_converse, lemma_mod_pos_bound,
};

verus! {

pub open spec fn is_leap_year(y: int) -> bool {
    (y % 4 == 0 && y % 100 != 0) || y % 400 == 0
}

pub open spec fn days_in_month(y: int, m: int) -> int {
    if m == 2 {
        if is_leap_year(y) {
            29
        } else {
            28
        }
    } else if m == 4 || m == 6 || m == 9 || m == 11 {
        30
    } else {
        31
    }
}

/// Days of the year `y` before the first of month `m`.
pub open spec fn days_before_month(y: int, m: int) -> int {
    let common: int = if m == 1 {
        0
    } else if m == 2 {
        31
    } else if m == 3 {
        59
    } else if m == 4 {
        90
    } else if m == 5 {
        120
    } else if m == 6 {
        151
    } else if m == 7 {
        181
    } else if m == 8 {
        212
    } else if m == 9 {
        243
    } else if m == 10 {
        273
    } else if m == 11 {
        304
    } else {
        334
    };
    if m > 2 && is_leap_year(y) {
        common + 1
    } else {
        common
    }
}

/// Number of leap years among the years `1..=n`.
pub open spec fn leap_years_through(n: int) -> int {
    n / 4 - n / 100 + n / 400
}

/// The day number of a date, counted from 1970-01-01 (day 0).
pub open spec fn epoch_day(y: int, m: int, d: int) -> int {
    365 * (y - 1970) + leap_years_through(y - 1) - leap_years_through(1969) + days_before_month(
        y,
        m,
    ) + d - 1
}

pub open spec fn is_valid_date(y: int, m: int, d: int) -> bool {
    1 <= m <= 12 && 1 <= d <= days_in_month(y, m)
}

proof fn lemma_div(x: int, d: int, q: int, r: int)
    requires
        d > 0,
        0 <= r < d,
        x == q * d + r,
    ensures
        x / d == q,
        x % d == r,
{
    lemma_fundamental_div_mod_converse(x, d, q, r);
}

proof fn lemma_div_bounds(x: int, d: int)
    requires
        d > 0,
    ensures
        d * (x / d) <= x < d * (x / d) + d,
{
    lemma_fundamental_div_mod(x, d);
    vstd::arithmetic::div_mod::lemma_mod_bound(x, d);
}

/// The year of an era (400 years, 146097 days, starting on a 1 March) that
/// day `doe` of the era falls in, counted in March-to-February years.
pub open spec fn year_of_era(doe: int) -> int {
    (doe - doe / 1460 + doe / 36524 - doe / 146096) / 365
}

/// Days of the era before March 1 of its year `yoe`.
pub open spec fn era_year_start(yoe: int) -> int {
    365 * yoe + yoe / 4 - yoe / 100
}

/// Whether the March-to-February year `yoe` of an era holds a 29 February.
pub open spec fn long_era_year(yoe: int) -> bool {
    (yoe + 1) % 4 == 0 && ((yoe + 1) % 100 != 0 || (yoe + 1) % 400 == 0)
}

proof fn lemma_year_of_era(doe: int)
    requires
        0 <= doe < 146097,
    ensures
        0 <= year_of_era(doe) <= 399,
        era_year_start(year_of_era(doe)) <= doe,
        doe - era_year_start(year_of_era(doe)) <= 364 + (if long_era_year(year_of_era(doe)) {
            1int
        } else {
            0int
        }),
{
    if doe == 146096 {
        lemma_div(doe, 1460, 100, 96);
        lemma_div(doe, 36524, 4, 0);
        lemma_div(doe, 146096, 1, 0);
        lemma_div(145999, 365, 399, 364);
        lemma_div(399, 4, 99, 3);
        lemma_div(399, 100, 3, 99);
        lemma_div(400, 4, 100, 0);
        lemma_div(400, 100, 4, 0);
        lemma_div(400, 400, 1, 0);
    } else {
        let c = doe / 36524;
        lemma_div_bounds(doe, 36524);
        assert(0 <= c <= 3);
        lemma_div(doe, 146096, 0, doe);
        let r1 = doe - 36524 * c;
        let k = r1 / 1461;
        lemma_div_bounds(r1, 1461);
        let r2 = r1 - 1461 * k;
        assert(0 <= k <= 24);
        assert(0 <= r2 <= 1460);
        let w = 24 * c + k + r2;
        let e: int = if w >= 1460 {
            1
        } else {
            0
        };
        lemma_div(doe, 1460, 25 * c + k + e, w - 1460 * e);
        let h = doe - doe / 1460 + doe / 36524 - doe / 146096;
        assert(h == 365 * (100 * c + 4 * k) + r2 - e);
        let jp: int = if r2 - e < 365 {
            0
        } else if r2 - e < 730 {
            1
        } else if r2 - e < 1095 {
            2
        } else {
            3
        };
        assert(0 <= r2 - e);
        assert(r2 - e < 1460);
        let yoe = 100 * c + 4 * k + jp;
        lemma_div(h, 365, yoe, r2 - e - 365 * jp);
        assert(year_of_era(doe) == yoe);
        lemma_div(yoe, 4, 25 * c + k, jp);
        lemma_div(yoe, 100, c, 4 * k + jp);
        assert(era_year_start(yoe) == 36524 * c + 1461 * k + 365 * jp);
        if doe - era_year_start(yoe) == 365 {
            assert(r2 == 1460);
            assert(k <= 23);
            lemma_div(yoe + 1, 4, 25 * c + k + 1, 0);
            lemma_div(yoe + 1, 100, c, 4 * k + 4);
        }
    }
}

/// Days before the first of the `mp`-th month of a March-to-February year.
pub open spec fn march_month_start(mp: int) -> int {
    (153 * mp + 2) / 5
}

proof fn lemma_month_of_year(doy: int, long: bool)
    requires
        0 <= doy <= 364 + (if long {
            1int
        } else {
            0int
        }),
    ensures
        0 <= (5 * doy + 2) / 153 <= 11,
        march_month_start((5 * doy + 2) / 153) <= doy,
        ({
            let mp = (5 * doy + 2) / 153;
            let m = if mp < 10 {
                mp + 3
            } else {
                mp - 9
            };
            let len = if m == 2 {
                if long {
                    29int
                } else {
                    28int
                }
            } else if m == 4 || m == 6 || m == 9 || m == 11 {
                30
            } else {
                31
            };
            &&& doy - march_month_start(mp) + 1 <= len
            &&& mp < 10 ==> march_month_start(mp) + 59 == days_before_month(1, m)
            &&& mp >= 10 ==> march_month_start(mp) - 306 == days_before_month(1, m)
        }),
{
    let x = 5 * doy + 2;
    lemma_div_bounds(x, 153);
    let mp = x / 153;
    assert(0 <= mp <= 11);
    if mp == 0 {
        lemma_div(2, 5, 0, 2);
    } else if mp == 1 {
        lemma_div(155, 5, 31, 0);
        lemma_div(308, 5, 61, 3);
    } else if mp == 2 {
        lemma_div(308, 5, 61, 3);
        lemma_div(461, 5, 92, 1);
    } else if mp == 3 {
        lemma_div(461, 5, 92, 1);
        lemma_div(614, 5, 122, 4);
    } else if mp == 4 {
        lemma_div(614, 5, 122, 4);
        lemma_div(767, 5, 153, 2);
    } else if mp == 5 {
        lemma_div(767, 5, 153, 2);
        lemma_div(920, 5, 184, 0);
    } else if mp == 6 {
        lemma_div(920, 5, 184, 0);
        lemma_div(1073, 5, 214, 3);
    } else if mp == 7 {
        lemma_div(1073, 5, 214, 3);
        lemma_div(1226, 5, 245, 1);
    } else if mp == 8 {
        lemma_div(1226, 5, 245, 1);
        lemma_div(1379, 5, 275, 4);
    } else if mp == 9 {
        lemma_div(1379, 5, 275, 4);
        lemma_div(1532, 5, 306, 2);
    } else if mp == 10 {
        lemma_div(1532, 5, 306, 2);
        lemma_div(1685, 5, 337, 0);
    } else {
        lemma_div(1685, 5, 337, 0);
    }
}

proof fn lemma_leap_step(y: int)
    ensures
        leap_years_through(y) - leap_years_through(y - 1) == (if is_leap_year(y) {
            1int
        } else {
            0int
        }),
{
    lemma_floor_step(y, 4);
    lemma_floor_step(y, 100);
    lemma_floor_step(y, 400);
    if y % 400 == 0 {
        lemma_fundamental_div_mod(y, 400);
        lemma_div(y, 100, 4 * (y / 400), 0);
        lemma_div(y, 4, 100 * (y / 400), 0);
    } else if y % 100 == 0 {
        lemma_fundamental_div_mod(y, 100);
        lemma_div(y, 4, 25 * (y / 100), 0);
    }
}

proof fn lemma_floor_step(y: int, k: int)
    requires
        k > 0,
    ensures
        y / k - (y - 1) / k == (if y % k == 0 {
            1int
        } else {
            0int
        }),
{
    lemma_fundamental_div_mod(y, k);
    vstd::arithmetic::div_mod::lemma_mod_bound(y, k);
    let q = y / k;
    let r = y % k;
    assert((q - 1) * k == k * q - k) by (nonlinear_arith);
    assert(q * k == k * q) by (nonlinear_arith);
    if r == 0 {
        lemma_div(y - 1, k, q - 1, k - 1);
    } else {
        lemma_div(y - 1, k, q, r - 1);
    }
}

/// Day number of the first of January of year `y`.
pub open spec fn year_start(y: int) -> int {
    epoch_day(y, 1, 1)
}

proof fn lemma_year_length(y: int)
    ensures
        year_start(y + 1) - year_start(y) == 365 + (if is_leap_year(y) {
            1int
        } else {
            0int
        }),
{
    lemma_leap_step(y);
}

proof fn lemma_year_start_monotonic(y1: int, y2: int)
    requires
        y1 < y2,
    ensures
        year_start(y1 + 1) <= year_start(y2),
    decreases y2 - y1,
{
    if y1 + 1 < y2 {
        lemma_year_start_monotonic(y1, y2 - 1);
        lemma_year_length(y2 - 1);
    }
}

proof fn lemma_date_within_year(y: int, m: int, d: int)
    requires
        is_valid_date(y, m, d),
    ensures
        year_start(y) <= epoch_day(y, m, d) < year_start(y + 1),
{
    lemma_year_length(y);
}

/// Distinct dates have distinct day numbers: a day number names at most one
/// valid date, so [`days_to_ymd`] gives the only date whose day number is
/// its argument.
pub proof fn lemma_epoch_day_injective(y1: int, m1: int, d1: int, y2: int, m2: int, d2: int)
    requires
        is_valid_date(y1, m1, d1),
        is_valid_date(y2, m2, d2),
        epoch_day(y1, m1, d1) == epoch_day(y2, m2, d2),
    ensures
        y1 == y2 && m1 == m2 && d1 == d2,
{
    lemma_date_within_year(y1, m1, d1);
    lemma_date_within_year(y2, m2, d2);
    if y1 < y2 {
        lemma_year_start_monotonic(y1, y2);
    } else if y2 < y1 {
        lemma_year_start_monotonic(y2, y1);
    }
    assert(y1 == y2);
    assert(days_before_month(y1, m1) + d1 == days_before_month(y1, m2) + d2);
}

/// The civil date of day number `days` (days since 1970-01-01), as
/// (year, month, day).
pub fn days_to_ymd(days: u64) -> (r: (u64, u64, u64))
    requires
        days <= u64::MAX - 719468,
    ensures
        is_valid_date(r.0 as int, r.1 as int, r.2 as int),
        epoch_day(r.0 as int, r.1 as int, r.2 as int) == days,
{
    let z = days + 719468;
    let era = z / 146097;
    proof {
        lemma_div_bounds(z as int, 146097);
    }
    let doe = z - era * 146097;
    proof {
        lemma_year_of_era(doe as int);
    }
    let yoe = (doe - doe / 1460 + doe / 36524 - doe / 146096) / 365;
    assert(yoe == year_of_era(doe as int));
    let y = yoe + era * 400;
    let doy = doe - (365 * yoe + yoe / 4 - yoe / 100);
    proof {
        lemma_month_of_year(doy as int, long_era_year(yoe as int));
    }
    let mp = (5 * doy + 2) / 153;
    let d = doy - (153 * mp + 2) / 5 + 1;
    let m = if mp < 10 {
        mp + 3
    } else {
        mp - 9
    };
    let y = if m <= 2 {
        y + 1
    } else {
        y
    };
    proof {
        lemma_epoch_day(era as int, yoe as int, doy as int, mp as int, d as int, m as int, y as int);
        if m == 2 && long_era_year(yoe as int) {
            lemma_long_year_is_leap(era as int, yoe as int);
        }
    }
    (y, m, d)
}

proof fn lemma_long_year_is_leap(era: int, yoe: int)
    requires
        0 <= era,
        0 <= yoe <= 399,
        long_era_year(yoe),
    ensures
        is_leap_year(400 * era + yoe + 1),
{
    let y1 = 400 * era + yoe + 1;
    lemma_fundamental_div_mod(yoe + 1, 4);
    lemma_mod_pos_bound(yoe + 1, 4);
    lemma_div(y1, 4, 100 * era + (yoe + 1) / 4, 0);
    if yoe == 399 {
        lemma_div(y1, 400, era + 1, 0);
    } else {
        lemma_fundamental_div_mod(yoe + 1, 100);
        lemma_mod_pos_bound(yoe + 1, 100);
        lemma_div(y1, 100, 4 * era + (yoe + 1) / 100, (yoe + 1) % 100);
    }
}

proof fn lemma_epoch_day(era: int, yoe: int, doy: int, mp: int, d: int, m: int, y: int)
    requires
        0 <= era,
        0 <= yoe <= 399,
        0 <= mp <= 11,
        d == doy - march_month_start(mp) + 1,
        mp < 10 ==> march_month_start(mp) + 59 == days_before_month(1, m),
        mp >= 10 ==> march_month_start(mp) - 306 == days_before_month(1, m),
        m == (if mp < 10 {
            mp + 3
        } else {
            mp - 9
        }),
        y == (if m <= 2 {
            400 * era + yoe + 1
        } else {
            400 * era + yoe
        }),
    ensures
        epoch_day(y, m, d) == 146097 * era + era_year_start(yoe) + doy - 719468,
{
    let big_y = 400 * era + yoe;
    lemma_fundamental_div_mod(yoe, 4);
    lemma_mod_pos_bound(yoe, 4);
    lemma_fundamental_div_mod(yoe, 100);
    lemma_mod_pos_bound(yoe, 100);
    lemma_div(big_y, 4, 100 * era + yoe / 4, yoe % 4);
    lemma_div(big_y, 100, 4 * era + yoe / 100, yoe % 100);
    lemma_div(big_y, 400, era, yoe);
    lemma_div(1969, 4, 492, 1);
    lemma_div(1969, 100, 19, 69);
    lemma_div(1969, 400, 4, 369);
    assert(leap_years_through(1969) == 477);
    assert(365 * big_y + leap_years_through(big_y) == 146097 * era + era_year_start(yoe));
    if m <= 2 {
        assert(days_before_month(y, m) == days_before_month(1, m));
    } else {
        lemma_leap_step(big_y);
        assert(days_before_month(1, m) + (if is_leap_year(big_y) {
            1int
        } else {
            0int
        }) == days_before_month(big_y, m));
    }
}

/// The decimal digit character for `n < 10`.
pub open spec fn digit_char(n: nat) -> char {
    ((48 + n) as u32) as char
}

/// Decimal notation of `n`, without leading zeros.
pub open spec fn decimal(n: nat) -> Seq<char>
    decreases n,
{
    if n < 10 {
        seq![digit_char(n)]
    } else {
        decimal(n / 10).push(digit_char(n % 10))
    }
}

/// Decimal notation of `n`, left-padded with zeros to at least `width`
/// characters (`format!("{n:0width$}")`).
pub open spec fn padded(n: nat, width: nat) -> Seq<char> {
    let s = decimal(n);
    if s.len() < width {
        Seq::new((width - s.len()) as nat, |i: int| '0') + s
    } else {
        s
    }
}

/// `YYYY-MM-DD` rendering of a date.
pub open spec fn render_date(y: nat, m: nat, d: nat) -> Seq<char> {
    padded(y, 4) + seq!['-'] + padded(m, 2) + seq!['-'] + padded(d, 2)
}

fn digit(n: u64) -> (c: char)
    requires
        n < 10,
    ensures
        c == digit_char(n as nat),
{
    let b: u8 = 48 + n as u8;
    b as char
}

/// Append the decimal notation of `n`.
pub fn push_decimal(s: &mut String, n: u64)
    ensures
        final(s)@ == old(s)@ + decimal(n as nat),
    decreases n,
{
    if n >= 10 {
        push_decimal(s, n / 10);
    }
    let c = digit(n % 10);
    s.push(c);
    proof {
        if n >= 10 {
            assert(old(s)@ + decimal(n as nat) =~= (old(s)@ + decimal((n / 10) as nat)).push(c));
        } else {
            assert(old(s)@ + decimal(n as nat) =~= old(s)@.push(c));
        }
    }
}

/// Number of decimal digits of `n`.
pub fn decimal_len(n: u64) -> (r: u64)
    ensures
        r == decimal(n as nat).len(),
        1 <= r <= n + 1,
    decreases n,
{
    if n >= 10 {
        proof {
            assert(n / 10 < n);
        }
        let k = decimal_len(n / 10);
        k + 1
    } else {
        1
    }
}

/// Append `n` in decimal, left-padded with zeros to `width` characters.
pub fn push_padded(s: &mut String, n: u64, width: u64)
    ensures
        final(s)@ == old(s)@ + padded(n as nat, width as nat),
{
    let len = decimal_len(n);
    let mut k: u64 = len;
    while k < width
        invariant
            len == decimal(n as nat).len(),
            len <= k,
            k <= width || k == len,
            s@ == old(s)@ + Seq::new((k - len) as nat, |i: int| '0'),
        decreases width - k,
    {
        s.push('0');
        k += 1;
        assert(s@ =~= old(s)@ + Seq::new((k - len) as nat, |i: int| '0'));
    }
    let ghost before = s@;
    push_decimal(s, n);
    proof {
        if len < width {
            assert(k == width);
            assert(s@ =~= old(s)@ + padded(n as nat, width as nat));
        } else {
            assert(k == len);
            assert(s@ =~= old(s)@ + padded(n as nat, width as nat));
        }
    }
}

/// `t` is the `YYYY-MM-DD` rendering of day number `days`.
pub open spec fn renders_day(t: Seq<char>, days: int) -> bool {
    exists|y: nat, m: nat, d: nat|
        is_valid_date(y as int, m as int, d as int) && epoch_day(y as int, m as int, d as int)
            == days && t == #[trigger] render_date(y, m, d)
}

/// A day has one rendering: timestamps of the same UTC day format alike.
pub proof fn lemma_day_rendering_unique(t1: Seq<char>, t2: Seq<char>, days: int)
    requires
        renders_day(t1, days),
        renders_day(t2, days),
    ensures
        t1 == t2,
{
    let (y1, m1, d1) = choose|y: nat, m: nat, d: nat|
        is_valid_date(y as int, m as int, d as int) && epoch_day(y as int, m as int, d as int)
            == days && t1 == #[trigger] render_date(y, m, d);
    let (y2, m2, d2) = choose|y: nat, m: nat, d: nat|
        is_valid_date(y as int, m as int, d as int) && epoch_day(y as int, m as int, d as int)
            == days && t2 == #[trigger] render_date(y, m, d);
    lemma_epoch_day_injective(y1 as int, m1 as int, d1 as int, y2 as int, m2 as int, d2 as int);
}

/// `YYYY-MM-DD` (UTC) of a Unix timestamp in seconds, as the
/// migration-status listing shows it. A negative timestamp is read as the
/// unsigned number with the same bits.
pub fn format_timestamp(unix_secs: i64) -> (r: String)
    ensures
        renders_day(r@, ((unix_secs as u64) / 86400) as int),
{
    let secs = unix_secs as u64;
    let days = secs / 86400;
    let (y, m, d) = days_to_ymd(days);
    let mut s = String::new();
    push_padded(&mut s, y, 4);
    s.push('-');
    push_padded(&mut s, m, 2);
    s.push('-');
    push_padded(&mut s, d, 2);
    assert(s@ =~= render_date(y as nat, m as nat, d as nat));
    s
}

} // verus!
