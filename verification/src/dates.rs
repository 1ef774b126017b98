//! Verified civil-calendar arithmetic: the proleptic Gregorian date of
//! an epoch timestamp, characterized exactly as the inverse of the
//! day-count function, and the zero-padded date and time rendering.

use vstd::prelude::*;
use vstd::arithmetic::div_mod::lemma_fundamental_div_mod;
use vstd::arithmetic::div_mod::lemma_mod_bound;
use vstd::arithmetic::div_mod::lemma_fundamental_div_mod_converse;
use vstd::string::StringExecFns;
use crate::text::dec_str;
use crate::text::two_digit_str;

verus! {

/// Days from the calendar origin (January 1st of year 0) to the epoch
/// (January 1st of 1970).
pub const EPOCH_DAYS: u64 = 719528;

pub open spec fn is_leap_year(y: nat) -> bool {
    y % 4 == 0 && (y % 100 != 0 || y % 400 == 0)
}

pub open spec fn spec_days_in_year(y: nat) -> nat {
    if is_leap_year(y) {
        366
    } else {
        365
    }
}

pub open spec fn spec_days_in_month(y: nat, m: nat) -> nat {
    if m == 2 {
        if is_leap_year(y) {
            29
        } else {
            28
        }
    } else if m == 4 || m == 6 || m == 9 || m == 11 {
        30
    } else {
        31
    }
}

/// Days from the origin to January 1st of year `y`.
pub open spec fn days_to_year(y: nat) -> nat
    decreases y,
{
    if y == 0 {
        0
    } else {
        days_to_year((y - 1) as nat) + spec_days_in_year((y - 1) as nat)
    }
}

/// Days from January 1st of year `y` to the first of its month `m`.
pub open spec fn days_to_month(y: nat, m: nat) -> nat
    decreases m,
{
    if m <= 1 {
        0
    } else {
        days_to_month(y, (m - 1) as nat) + spec_days_in_month(y, (m - 1) as nat)
    }
}

pub open spec fn valid_date(y: nat, m: nat, d: nat) -> bool {
    1 <= m <= 12 && 1 <= d <= spec_days_in_month(y, m)
}

/// The day count of a date, from the origin.
pub open spec fn date_to_days(y: nat, m: nat, d: nat) -> int {
    days_to_year(y) + days_to_month(y, m) + d - 1
}

/// `(x + d) / d` and `(x + d - 1) / d` against `x / d`: the quotient
/// steps exactly at the multiples of `d`.
proof fn lemma_div_step(x: int, d: int)
    requires
        x >= 0,
        d >= 2,
    ensures
        (x + d) / d == x / d + 1,
        (x + d - 1) / d == x / d + (if x % d == 0 {
            0int
        } else {
            1int
        }),
{
    lemma_fundamental_div_mod(x, d);
    lemma_mod_bound(x, d);
    let q = x / d;
    let r = x % d;
    assert((q + 1) * d == d * q + d) by (nonlinear_arith);
    lemma_fundamental_div_mod_converse(x + d, d, q + 1, r);
    if r == 0 {
        assert(q * d == d * q) by (nonlinear_arith);
        lemma_fundamental_div_mod_converse(x + d - 1, d, q, d - 1);
    } else {
        lemma_fundamental_div_mod_converse(x + d - 1, d, q + 1, r - 1);
    }
}

/// The length of a year, written over the three divisibility marks.
proof fn lemma_leap_decompose(y: nat)
    ensures
        spec_days_in_year(y) == 365 + (if y % 4 == 0 {
            1int
        } else {
            0int
        }) - (if y % 100 == 0 {
            1int
        } else {
            0int
        }) + (if y % 400 == 0 {
            1int
        } else {
            0int
        }),
{
    if y % 400 == 0 {
        lemma_fundamental_div_mod(y as int, 400);
        lemma_fundamental_div_mod_converse(y as int, 100, 4 * ((y as int) / 400), 0);
        lemma_fundamental_div_mod_converse(y as int, 4, 100 * ((y as int) / 400), 0);
    }
    if y % 100 == 0 {
        lemma_fundamental_div_mod(y as int, 100);
        lemma_fundamental_div_mod_converse(y as int, 4, 25 * ((y as int) / 100), 0);
    }
}

/// The closed form of the day count to a year: 365 per year plus one
/// per leap year at or before it.
proof fn lemma_days_to_year_closed(y: nat)
    ensures
        days_to_year(y) == 365 * y + (y + 3) / 4 - (y + 99) / 100 + (y + 399) / 400,
    decreases y,
{
    if y == 0 {
    } else {
        let p = (y - 1) as nat;
        lemma_days_to_year_closed(p);
        lemma_leap_decompose(p);
        lemma_div_step(p as int, 4);
        lemma_div_step(p as int, 100);
        lemma_div_step(p as int, 400);
        assert(p as int + 4 == y + 3);
        assert(p as int + 100 == y + 99);
        assert(p as int + 400 == y + 399);
    }
}

/// Whole 400-year eras have a fixed day count.
proof fn lemma_days_to_era(k: nat)
    ensures
        days_to_year(400 * k) == 146097 * k,
{
    lemma_days_to_year_closed(400 * k);
    lemma_fundamental_div_mod_converse(400 * (k as int) + 3, 4, 100 * (k as int), 3);
    lemma_fundamental_div_mod_converse(400 * (k as int) + 99, 100, 4 * (k as int), 99);
    lemma_fundamental_div_mod_converse(400 * (k as int) + 399, 400, k as int, 399);
}

/// Later years have strictly later January firsts.
proof fn lemma_days_to_year_mono(y1: nat, y2: nat)
    requires
        y1 <= y2,
    ensures
        days_to_year(y1) <= days_to_year(y2),
        y1 < y2 ==> days_to_year(y1) + spec_days_in_year(y1) <= days_to_year(y2),
    decreases y2,
{
    if y1 < y2 {
        lemma_days_to_year_mono(y1, (y2 - 1) as nat);
    }
}

/// Later months of a year start no earlier.
proof fn lemma_days_to_month_mono(y: nat, m1: nat, m2: nat)
    requires
        m1 <= m2,
    ensures
        days_to_month(y, m1) <= days_to_month(y, m2),
    decreases m2,
{
    if m1 < m2 {
        lemma_days_to_month_mono(y, m1, (m2 - 1) as nat);
    }
}

/// The twelve months exactly fill the year.
proof fn lemma_months_total(y: nat)
    ensures
        days_to_month(y, 13) == spec_days_in_year(y),
{
    assert(days_to_month(y, 13) == spec_days_in_year(y)) by {
        reveal_with_fuel(days_to_month, 14);
    }
}

/// A valid date's offset stays inside its own year.
proof fn lemma_date_offset_in_year(y: nat, m: nat, d: nat)
    requires
        valid_date(y, m, d),
    ensures
        days_to_month(y, m) + d - 1 < spec_days_in_year(y),
{
    lemma_months_total(y);
    lemma_days_to_month_mono(y, (m + 1) as nat, 13);
    assert(days_to_month(y, (m + 1) as nat) == days_to_month(y, m) + spec_days_in_month(y, m));
}

/// Day counts name dates uniquely: two valid dates with the same day
/// count are the same date.
pub proof fn lemma_civil_date_unique(y1: nat, m1: nat, d1: nat, y2: nat, m2: nat, d2: nat)
    requires
        valid_date(y1, m1, d1),
        valid_date(y2, m2, d2),
        date_to_days(y1, m1, d1) == date_to_days(y2, m2, d2),
    ensures
        y1 == y2,
        m1 == m2,
        d1 == d2,
{
    lemma_date_offset_in_year(y1, m1, d1);
    lemma_date_offset_in_year(y2, m2, d2);
    if y1 < y2 {
        lemma_days_to_year_mono(y1, y2);
    }
    if y2 < y1 {
        lemma_days_to_year_mono(y2, y1);
    }
    assert(y1 == y2);
    if m1 < m2 {
        lemma_days_to_month_mono(y1, (m1 + 1) as nat, m2);
        assert(days_to_month(y1, (m1 + 1) as nat) == days_to_month(y1, m1) + spec_days_in_month(
            y1,
            m1,
        ));
    }
    if m2 < m1 {
        lemma_days_to_month_mono(y1, (m2 + 1) as nat, m1);
        assert(days_to_month(y1, (m2 + 1) as nat) == days_to_month(y1, m2) + spec_days_in_month(
            y1,
            m2,
        ));
    }
}

fn is_leap_year_exec(y: u64) -> (r: bool)
    ensures
        r == is_leap_year(y as nat),
{
    y % 4 == 0 && (y % 100 != 0 || y % 400 == 0)
}

fn days_in_year_exec(y: u64) -> (r: u64)
    ensures
        r == spec_days_in_year(y as nat),
{
    if is_leap_year_exec(y) {
        366
    } else {
        365
    }
}

fn days_in_month_exec(y: u64, m: u64) -> (r: u64)
    ensures
        r == spec_days_in_month(y as nat, m as nat),
{
    if m == 2 {
        if is_leap_year_exec(y) {
            29
        } else {
            28
        }
    } else if m == 4 || m == 6 || m == 9 || m == 11 {
        30
    } else {
        31
    }
}

/// The proleptic Gregorian date of an epoch timestamp: the unique valid
/// date whose day count matches the timestamp's day.
#[verifier::rlimit(60)]
#[verifier::loop_isolation(false)]
pub fn epoch_to_civil(seconds: u64) -> (r: (u64, u64, u64))
    ensures
        valid_date(r.0 as nat, r.1 as nat, r.2 as nat),
        date_to_days(r.0 as nat, r.1 as nat, r.2 as nat) == seconds / 86400 + EPOCH_DAYS,
{
    let days = seconds / 86400;
    assert(days <= u64::MAX / 86400);
    let total = days + EPOCH_DAYS;
    let era = total / 146097;
    let mut doe = total % 146097;
    assert(era <= u64::MAX / 146097);
    let mut y: u64 = era * 400;
    let ghost total_g = total as int;
    proof {
        lemma_days_to_era(era as nat);
        lemma_days_to_era((era + 1) as nat);
        assert(days_to_year((era * 400) as nat) + doe == total_g);
        assert(total_g < 146097 * (era as int) + 146097);
    }
    loop
        invariant
            era * 400 <= y,
            days_to_year(y as nat) + doe == total_g,
            total_g < 146097 * (era as int + 1),
            days_to_year((400 * (era as int + 1)) as nat) == 146097 * (era as int + 1),
        decreases doe,
    {
        let dy = days_in_year_exec(y);
        if doe < dy {
            break ;
        }
        proof {
            assert((y as int) < 400 * (era as int + 1)) by {
                if y as int >= 400 * (era as int + 1) {
                    lemma_days_to_year_mono((400 * (era as int + 1)) as nat, y as nat);
                }
            }
        }
        doe = doe - dy;
        y = y + 1;
    }
    let ghost doy = doe as int;
    let mut m: u64 = 1;
    proof {
        lemma_months_total(y as nat);
    }
    loop
        invariant
            1 <= m <= 12,
            days_to_month(y as nat, m as nat) + doe == doy,
            doy < spec_days_in_year(y as nat),
            days_to_year(y as nat) + doy == total_g,
            days_to_month(y as nat, 13) == spec_days_in_year(y as nat),
        decreases 13 - m,
    {
        let dm = days_in_month_exec(y, m);
        if doe < dm {
            break ;
        }
        proof {
            if m == 12 {
                assert(days_to_month(y as nat, 13) == days_to_month(y as nat, 12)
                    + spec_days_in_month(y as nat, 12));
                assert(false);
            }
        }
        doe = doe - dm;
        m = m + 1;
    }
    let d = doe + 1;
    (y, m, d)
}

/// A year zero-padded to at least four digits.
pub open spec fn pad4(n: nat) -> Seq<char> {
    if n < 10 {
        seq!['0', '0', '0'] + dec_str(n)
    } else if n < 100 {
        seq!['0', '0'] + dec_str(n)
    } else if n < 1000 {
        seq!['0'] + dec_str(n)
    } else {
        dec_str(n)
    }
}

fn pad4_exec(n: u64) -> (r: String)
    ensures
        r@ == pad4(n as nat),
{
    let digits = crate::text::u64_to_dec_string(n);
    let mut r = String::new();
    if n < 10 {
        crate::text::string_push(&mut r, '0');
        crate::text::string_push(&mut r, '0');
        crate::text::string_push(&mut r, '0');
    } else if n < 100 {
        crate::text::string_push(&mut r, '0');
        crate::text::string_push(&mut r, '0');
    } else if n < 1000 {
        crate::text::string_push(&mut r, '0');
    }
    r = r.concat(digits.as_str());
    assert(r@ =~= pad4(n as nat));
    r
}

fn two_digit_exec(n: u64) -> (r: String)
    ensures
        r@ == two_digit_str(n as nat),
{
    let mut r = String::new();
    if n < 10 {
        crate::text::string_push(&mut r, '0');
        crate::text::string_push(&mut r, crate::text::digit_char_exec(n));
        assert(r@ =~= two_digit_str(n as nat));
        r
    } else {
        let r = crate::text::u64_to_dec_string(n);
        r
    }
}

/// How a date renders: year padded to four digits, two-digit month and
/// day, and with the time the two-digit clock fields of the second of
/// day.
pub open spec fn spec_epoch_date_string(
    y: nat,
    m: nat,
    d: nat,
    sod: nat,
    with_time: bool,
) -> Seq<char> {
    pad4(y) + seq!['-'] + two_digit_str(m) + seq!['-'] + two_digit_str(d) + if with_time {
        seq![' '] + two_digit_str(sod / 3600) + seq![':'] + two_digit_str((sod % 3600) / 60)
            + seq![':'] + two_digit_str(sod % 60)
    } else {
        Seq::<char>::empty()
    }
}

/// Renders an epoch timestamp as a calendar date, "Y-MM-DD", with the
/// time of day, "Y-MM-DD HH:MM:SS", when asked. The date is the unique
/// valid one whose day count matches the timestamp's day
/// (`lemma_civil_date_unique`).
pub fn format_epoch_secs(seconds: u64, with_time: bool) -> (r: String)
    ensures
        exists|y: u64, m: u64, d: u64|
            {
                &&& #[trigger] valid_date(y as nat, m as nat, d as nat)
                &&& date_to_days(y as nat, m as nat, d as nat) == seconds / 86400 + EPOCH_DAYS
                &&& r@ == spec_epoch_date_string(
                    y as nat,
                    m as nat,
                    d as nat,
                    (seconds % 86400) as nat,
                    with_time,
                )
            },
{
    let (y, m, d) = epoch_to_civil(seconds);
    let sod = seconds % 86400;
    let mut r = pad4_exec(y);
    crate::text::string_push(&mut r, '-');
    r = r.concat(two_digit_exec(m).as_str());
    crate::text::string_push(&mut r, '-');
    r = r.concat(two_digit_exec(d).as_str());
    if with_time {
        crate::text::string_push(&mut r, ' ');
        r = r.concat(two_digit_exec(sod / 3600).as_str());
        crate::text::string_push(&mut r, ':');
        r = r.concat(two_digit_exec((sod % 3600) / 60).as_str());
        crate::text::string_push(&mut r, ':');
        r = r.concat(two_digit_exec(sod % 60).as_str());
    }
    proof {
        assert(r@ =~= spec_epoch_date_string(
            y as nat,
            m as nat,
            d as nat,
            sod as nat,
            with_time,
        ));
    }
    r
}

} // verus!
