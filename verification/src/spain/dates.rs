//! Civil (proleptic Gregorian) dates from days since the Unix epoch, and
//! today's date as `YYYYMMDD`.

use vstd::prelude::*;
use vstd::arithmetic::div_mod::lemma_fundamental_div_mod_converse;
use crate::text::{all_digits, decimal, decimal2, decimal_string, decimal_string2, digits_value, is_digit};

verus! {

// ---------------------------------------------------------------------------
// The calendar
// ---------------------------------------------------------------------------

pub open spec fn is_leap(y: int) -> bool {
    y % 4 == 0 && (y % 100 != 0 || y % 400 == 0)
}

pub open spec fn year_length(y: int) -> int {
    if is_leap(y) {
        366
    } else {
        365
    }
}

pub open spec fn month_length(y: int, m: int) -> int {
    if m == 2 {
        if is_leap(y) {
            29
        } else {
            28
        }
    } else if m == 4 || m == 6 || m == 9 || m == 11 {
        30
    } else {
        31
    }
}

/// Days of the year `y` before the first of month `m`.
pub open spec fn days_before_month(y: int, m: int) -> int {
    let feb = if is_leap(y) {
        29int
    } else {
        28int
    };
    if m <= 1 {
        0
    } else if m == 2 {
        31
    } else if m == 3 {
        31 + feb
    } else if m == 4 {
        62 + feb
    } else if m == 5 {
        92 + feb
    } else if m == 6 {
        123 + feb
    } else if m == 7 {
        153 + feb
    } else if m == 8 {
        184 + feb
    } else if m == 9 {
        215 + feb
    } else if m == 10 {
        245 + feb
    } else if m == 11 {
        276 + feb
    } else {
        306 + feb
    }
}

/// Days from 1970-01-01 to the first of January of `y` (for `y >= 1970`).
pub open spec fn days_before_year(y: int) -> int
    decreases y - 1970,
{
    if y <= 1970 {
        0
    } else {
        days_before_year(y - 1) + year_length(y - 1)
    }
}

/// `(y, m, d)` is a date on or after 1970-01-01.
pub open spec fn valid_date(y: int, m: int, d: int) -> bool {
    &&& y >= 1970
    &&& 1 <= m <= 12
    &&& 1 <= d <= month_length(y, m)
}

/// Days from 1970-01-01 to the date `(y, m, d)`.
pub open spec fn day_number(y: int, m: int, d: int) -> int {
    days_before_year(y) + days_before_month(y, m) + d - 1
}

// ---------------------------------------------------------------------------
// Proof: years that start on the first of March
// ---------------------------------------------------------------------------

/// Days from 0000-03-01 to `y`-03-01.
spec fn march_days(y: int) -> int {
    365 * y + y / 4 - y / 100 + y / 400
}

/// Days from the first of March to the first of month `mp` counted from
/// March (0 is March, 11 is February).
spec fn month_start(mp: int) -> int {
    (153 * mp + 2) / 5
}

proof fn lemma_div_add(a: int, k: int, b: int)
    requires
        k > 0,
        b >= 0,
    ensures
        (k * a + b) / k == a + b / k,
{
    let q = b / k;
    let r = b % k;
    vstd::arithmetic::div_mod::lemma_fundamental_div_mod(b, k);
    assert(k * a + b == (a + q) * k + r) by (nonlinear_arith)
        requires
            b == k * q + r,
    ;
    lemma_fundamental_div_mod_converse(k * a + b, k, a + q, r);
}

proof fn lemma_div_step(n: int, k: int)
    requires
        n >= 1,
        k > 0,
    ensures
        n / k - (n - 1) / k == if n % k == 0 {
            1int
        } else {
            0int
        },
{
    let q = n / k;
    let r = n % k;
    vstd::arithmetic::div_mod::lemma_fundamental_div_mod(n, k);
    if r == 0 {
        assert(n - 1 == (q - 1) * k + (k - 1)) by (nonlinear_arith)
            requires
                n == k * q + r,
                r == 0,
        ;
        lemma_fundamental_div_mod_converse(n - 1, k, q - 1, k - 1);
    } else {
        assert(n - 1 == q * k + (r - 1)) by (nonlinear_arith)
            requires
                n == k * q + r,
        ;
        lemma_fundamental_div_mod_converse(n - 1, k, q, r - 1);
    }
}

#[verifier::spinoff_prover]
#[verifier::rlimit(40)]
proof fn lemma_march_step(y: int)
    requires
        y >= 0,
    ensures
        march_days(y + 1) == march_days(y) + year_length(y + 1),
{
    lemma_div_step(y + 1, 4);
    lemma_div_step(y + 1, 100);
    lemma_div_step(y + 1, 400);
}

proof fn lemma_march_mono(a: int, b: int)
    requires
        0 <= a <= b,
    ensures
        march_days(a) <= march_days(b),
    decreases b - a,
{
    if a < b {
        lemma_march_step(b - 1);
        lemma_march_mono(a, b - 1);
    }
}

proof fn lemma_days_before_year(y: int)
    requires
        y >= 1970,
    ensures
        days_before_year(y) == march_days(y - 1) - 719162,
    decreases y - 1970,
{
    if y == 1970 {
        assert(march_days(1969) == 719162);
    } else {
        lemma_days_before_year(y - 1);
        lemma_march_step(y - 2);
    }
}

proof fn lemma_march_era(era: int, t: int)
    requires
        era >= 0,
        0 <= t <= 400,
    ensures
        march_days(400 * era + t) == 146097 * era + 365 * t + t / 4 - t / 100 + t / 400,
{
    lemma_div_add(100 * era, 4, t);
    lemma_div_add(4 * era, 100, t);
    lemma_div_add(era, 400, t);
    assert(4 * (100 * era) + t == 400 * era + t);
    assert(100 * (4 * era) + t == 400 * era + t);
}

/// Year of the era from the day of the era, as the civil-from-days method
/// computes it.
proof fn lemma_year_of_era(doe: u64, yoe: u64)
    by (bit_vector)
    requires
        doe < 146097,
        yoe == ((doe - doe / 1460 + doe / 36524 - doe / 146096) as u64) / 365,
    ensures
        yoe < 400,
        365 * yoe + yoe / 4 - yoe / 100 <= doe,
        doe < 365 * (yoe + 1) + ((yoe + 1) as u64) / 4 - ((yoe + 1) as u64) / 100 + ((yoe + 1) as u64) / 400,
{
}

/// Month (counted from March) of a day of the March-based year.
proof fn lemma_month_of_year(doy: u64, mp: u64)
    by (bit_vector)
    requires
        doy < 366,
        mp == ((5 * doy + 2) as u64) / 153,
    ensures
        mp < 12,
        ((153 * mp + 2) as u64) / 5 <= doy,
        mp < 11 ==> doy < ((153 * (mp + 1) + 2) as u64) / 5,
{
}

proof fn lemma_month_table(y: int, mp: int)
    requires
        0 <= mp < 12,
    ensures
        mp < 10 ==> days_before_month(y, mp + 3) == 59 + (if is_leap(y) {
            1int
        } else {
            0int
        }) + month_start(mp),
        mp < 10 ==> month_length(y, mp + 3) == month_start(mp + 1) - month_start(mp),
        mp >= 10 ==> days_before_month(y, mp - 9) == month_start(mp) - 306,
        mp == 10 ==> month_length(y, 1) == month_start(11) - month_start(10),
        mp == 11 ==> month_start(mp) == 337,
{
    assert(month_start(0) == 0);
    assert(month_start(1) == 31);
    assert(month_start(2) == 61);
    assert(month_start(3) == 92);
    assert(month_start(4) == 122);
    assert(month_start(5) == 153);
    assert(month_start(6) == 184);
    assert(month_start(7) == 214);
    assert(month_start(8) == 245);
    assert(month_start(9) == 275);
    assert(month_start(10) == 306);
    assert(month_start(11) == 337);
}

proof fn lemma_month_step(y: int, m: int)
    requires
        1 <= m < 12,
    ensures
        days_before_month(y, m + 1) == days_before_month(y, m) + month_length(y, m),
{
}

proof fn lemma_month_mono(y: int, m: int, m2: int)
    requires
        1 <= m < m2 <= 12,
    ensures
        days_before_month(y, m) + month_length(y, m) <= days_before_month(y, m2),
    decreases m2 - m,
{
    lemma_month_step(y, m);
    if m + 1 < m2 {
        lemma_month_mono(y, m + 1, m2);
    }
}

proof fn lemma_year_mono(y: int, y2: int)
    requires
        1970 <= y < y2,
    ensures
        days_before_year(y) + year_length(y) <= days_before_year(y2),
    decreases y2 - y,
{
    if y + 1 < y2 {
        lemma_year_mono(y + 1, y2);
    }
}

proof fn lemma_within_year(y: int, m: int, d: int)
    requires
        valid_date(y, m, d),
    ensures
        days_before_month(y, m) + d - 1 < year_length(y),
{
    if m < 12 {
        lemma_month_mono(y, m, 12);
    }
}

/// Distinct dates have distinct day numbers: a day number names exactly one
/// date, so the date computed for a day number is the only right one.
pub proof fn day_number_injective(y1: int, m1: int, d1: int, y2: int, m2: int, d2: int)
    requires
        valid_date(y1, m1, d1),
        valid_date(y2, m2, d2),
        day_number(y1, m1, d1) == day_number(y2, m2, d2),
    ensures
        y1 == y2 && m1 == m2 && d1 == d2,
{
    lemma_within_year(y1, m1, d1);
    lemma_within_year(y2, m2, d2);
    if y1 < y2 {
        lemma_year_mono(y1, y2);
    } else if y2 < y1 {
        lemma_year_mono(y2, y1);
    } else if m1 < m2 {
        lemma_month_mono(y1, m1, m2);
    } else if m2 < m1 {
        lemma_month_mono(y1, m2, m1);
    }
}

// ---------------------------------------------------------------------------
// Executable functions
// ---------------------------------------------------------------------------

/// Convert days since the Unix epoch to `(year, month, day)`.
pub fn days_to_date(days_since_epoch: u64) -> (r: (u64, u64, u64))
    requires
        days_since_epoch <= i64::MAX - 719_468,
    ensures
        valid_date(r.0 as int, r.1 as int, r.2 as int),
        day_number(r.0 as int, r.1 as int, r.2 as int) == days_since_epoch,
{
    // Days since 0000-03-01, split into 400-year eras.
    let z = days_since_epoch as i64 + 719_468;
    let era = if z >= 0 {
        z
    } else {
        z - 146_096
    } / 146_097;
    assert(0 <= era * 146_097 <= z) by (nonlinear_arith)
        requires
            z >= 0,
            era == z / 146_097,
    ;
    assert(z - era * 146_097 < 146_097) by (nonlinear_arith)
        requires
            z >= 0,
            era == z / 146_097,
    ;
    let doe = (z - era * 146_097) as u64;
    let yoe = (doe - doe / 1460 + doe / 36524 - doe / 146_096) / 365;
    proof {
        lemma_year_of_era(doe, yoe);
    }
    assert(0 <= era * 400 <= i64::MAX - 400) by (nonlinear_arith)
        requires
            0 <= era * 146_097 <= z,
            z <= i64::MAX,
    ;
    let y = yoe as i64 + era * 400;
    let doy = doe - (365 * yoe + yoe / 4 - yoe / 100);
    let ghost ym = y as int;
    proof {
        lemma_march_era(era as int, yoe as int);
        lemma_march_era(era as int, yoe + 1);
        assert(march_days(ym) + doy == z);
        assert(doy < year_length(ym + 1)) by {
            lemma_march_step(ym);
            assert(400 * era + (yoe + 1) == ym + 1);
        }
    }
    let mp = (5 * doy + 2) / 153;
    proof {
        lemma_month_of_year(doy, mp);
    }
    let d = doy - (153 * mp + 2) / 5 + 1;
    let m = if mp < 10 {
        mp + 3
    } else {
        mp - 9
    };
    let y = if m <= 2 {
        y + 1
    } else {
        y
    };
    proof {
        lemma_month_table(ym, mp as int);
        lemma_month_table(ym + 1, mp as int);
        // The year is at least 1970: 1970-01-01 is day 306 of the March year 1969.
        assert(march_days(1969) == 719162);
        if ym <= 1968 {
            lemma_march_mono(ym + 1, 1969);
            lemma_march_step(ym);
        }
        assert(ym >= 1969);
        if ym == 1969 {
            assert(doy >= 306);
        }
        if mp < 10 {
            lemma_days_before_year(ym);
            lemma_march_step(ym - 1);
        } else {
            lemma_days_before_year(ym + 1);
        }
    }
    (y as u64, m, d)
}

/// The date `days_since_epoch` days after 1970-01-01, as `YYYYMMDD`.
pub open spec fn compact_date_of(y: int, m: int, d: int) -> Seq<char> {
    decimal(y as nat) + decimal2(m as nat) + decimal2(d as nat)
}

/// The compact date `YYYYMMDD` of the day `n` days after 1970-01-01: that of
/// the one valid date whose day number is `n`.
pub open spec fn day_stamp(n: int) -> Seq<char> {
    let t = choose|t: (int, int, int)| valid_date(t.0, t.1, t.2) && day_number(t.0, t.1, t.2) == n;
    compact_date_of(t.0, t.1, t.2)
}

proof fn lemma_day_stamp(y: int, m: int, d: int)
    requires
        valid_date(y, m, d),
    ensures
        day_stamp(day_number(y, m, d)) == compact_date_of(y, m, d),
{
    let n = day_number(y, m, d);
    let w = (y, m, d);
    assert(valid_date(w.0, w.1, w.2) && day_number(w.0, w.1, w.2) == n);
    let t = choose|t: (int, int, int)| valid_date(t.0, t.1, t.2) && day_number(t.0, t.1, t.2) == n;
    day_number_injective(t.0, t.1, t.2, y, m, d);
}

/// `YYYYMMDD` of the day `n` days after 1970-01-01.
pub fn day_text(n: u64) -> (r: String)
    requires
        n <= i64::MAX - 719_468,
    ensures
        r@ == day_stamp(n as int),
        exists|y: int, m: int, d: int| valid_date(y, m, d) && day_number(y, m, d) == n && r@ == compact_date_of(y, m, d),
{
    let (y, m, d) = days_to_date(n);
    let mut s = decimal_string(y);
    s.append(decimal_string2(m).as_str());
    s.append(decimal_string2(d).as_str());
    assert(s@ == compact_date_of(y as int, m as int, d as int));
    proof {
        lemma_day_stamp(y as int, m as int, d as int);
    }
    s
}

/// `YYYYMMDD` for the day that contains the instant `unix_seconds`.
pub fn date_stamp(unix_seconds: u64) -> (r: String)
    ensures
        r@ == day_stamp(unix_seconds as int / 86400),
        exists|y: int, m: int, d: int|
            valid_date(y, m, d) && day_number(y, m, d) == unix_seconds / 86400 && r@
                == compact_date_of(y, m, d),
{
    day_text(unix_seconds / 86400)
}

// ---------------------------------------------------------------------------
// Dates written `YYYYMMDD`
// ---------------------------------------------------------------------------

/// The year, month and day written `YYYYMMDD`.
pub open spec fn compact_parts(s: Seq<char>) -> (int, int, int) {
    (
        digits_value(s.subrange(0, 4)) as int,
        digits_value(s.subrange(4, 6)) as int,
        digits_value(s.subrange(6, 8)) as int,
    )
}

/// The day number of a date written `YYYYMMDD`, when the text is eight
/// digits that make a valid date on or after 1970-01-01.
pub open spec fn compact_day(s: Seq<char>) -> Option<int> {
    let p = compact_parts(s);
    if s.len() == 8 && all_digits(s) && valid_date(p.0, p.1, p.2) {
        Some(day_number(p.0, p.1, p.2))
    } else {
        None
    }
}

proof fn lemma_digits_step(s: Seq<char>, a: int, b: int)
    requires
        0 <= a < b <= s.len(),
    ensures
        digits_value(s.subrange(a, b)) == digits_value(s.subrange(a, b - 1)) * 10 + ((s[b - 1] as int) - 48) as nat,
{
    assert(s.subrange(a, b).drop_last() =~= s.subrange(a, b - 1));
}

fn digit_of(c: char) -> (r: u64)
    requires
        is_digit(c),
    ensures
        r == (c as int) - 48,
        r <= 9,
{
    ((c as u32) - 48) as u64
}

fn leap(y: u64) -> (b: bool)
    ensures
        b == is_leap(y as int),
{
    y % 4 == 0 && (y % 100 != 0 || y % 400 == 0)
}

fn month_days(y: u64, m: u64) -> (r: u64)
    ensures
        r == month_length(y as int, m as int),
{
    if m == 2 {
        if leap(y) {
            29
        } else {
            28
        }
    } else if m == 4 || m == 6 || m == 9 || m == 11 {
        30
    } else {
        31
    }
}

fn days_before_month_of(y: u64, m: u64) -> (r: u64)
    ensures
        r == days_before_month(y as int, m as int),
        r <= 335,
{
    let feb: u64 = if leap(y) {
        29
    } else {
        28
    };
    if m <= 1 {
        0
    } else if m == 2 {
        31
    } else if m == 3 {
        31 + feb
    } else if m == 4 {
        62 + feb
    } else if m == 5 {
        92 + feb
    } else if m == 6 {
        123 + feb
    } else if m == 7 {
        153 + feb
    } else if m == 8 {
        184 + feb
    } else if m == 9 {
        215 + feb
    } else if m == 10 {
        245 + feb
    } else if m == 11 {
        276 + feb
    } else {
        306 + feb
    }
}

fn days_before_year_of(y: u64) -> (r: u64)
    requires
        1970 <= y <= 9999,
    ensures
        r == days_before_year(y as int),
        r <= 366 * (y - 1970),
{
    let mut acc: u64 = 0;
    let mut k: u64 = 1970;
    while k < y
        invariant
            1970 <= k <= y <= 9999,
            acc == days_before_year(k as int),
            acc <= 366 * (k - 1970),
        decreases y - k,
    {
        acc = acc + if leap(k) {
            366
        } else {
            365
        };
        k = k + 1;
    }
    acc
}

/// The day number of a date written `YYYYMMDD` (see `compact_day`).
pub fn compact_day_number(s: &str) -> (r: Option<u64>)
    ensures
        match r {
            Some(n) => compact_day(s@) == Some(n as int) && n <= 3_000_000,
            None => compact_day(s@) is None,
        },
{
    let cs = crate::text::chars_of(s);
    if cs.len() != 8 {
        return None;
    }
    let mut i: usize = 0;
    while i < 8
        invariant
            cs@ == s@,
            cs@.len() == 8,
            i <= 8,
            forall|k: int| 0 <= k < i ==> is_digit(#[trigger] cs@[k]),
        decreases 8 - i,
    {
        if !(cs[i] >= '0' && cs[i] <= '9') {
            assert(!all_digits(s@));
            return None;
        }
        i = i + 1;
    }
    assert(all_digits(s@));
    let y = ((digit_of(cs[0]) * 10 + digit_of(cs[1])) * 10 + digit_of(cs[2])) * 10 + digit_of(cs[3]);
    let m = digit_of(cs[4]) * 10 + digit_of(cs[5]);
    let d = digit_of(cs[6]) * 10 + digit_of(cs[7]);
    proof {
        let q = s@;
        assert(q.subrange(0, 0) =~= Seq::<char>::empty());
        assert(q.subrange(4, 4) =~= Seq::<char>::empty());
        assert(q.subrange(6, 6) =~= Seq::<char>::empty());
        lemma_digits_step(q, 0, 1);
        lemma_digits_step(q, 0, 2);
        lemma_digits_step(q, 0, 3);
        lemma_digits_step(q, 0, 4);
        lemma_digits_step(q, 4, 5);
        lemma_digits_step(q, 4, 6);
        lemma_digits_step(q, 6, 7);
        lemma_digits_step(q, 6, 8);
        assert(compact_parts(q) == (y as int, m as int, d as int));
    }
    if y < 1970 || m < 1 || m > 12 || d < 1 || d > month_days(y, m) {
        return None;
    }
    Some(days_before_year_of(y) + days_before_month_of(y, m) + d - 1)
}

// ---------------------------------------------------------------------------
// The clock
// ---------------------------------------------------------------------------

#[verifier::external_type_specification]
#[verifier::external_body]
pub struct ExSystemTime(std::time::SystemTime);

#[verifier::external_type_specification]
#[verifier::external_body]
pub struct ExSystemTimeError(std::time::SystemTimeError);

/// Calls `SystemTime::now`. Nothing is claimed of the value: it is the
/// clock's.
#[verifier::external_body]
fn system_now() -> std::time::SystemTime {
    std::time::SystemTime::now()
}

/// Calls `SystemTime::duration_since` with `UNIX_EPOCH`. Nothing is claimed:
/// the outcome rests on the clock's value.
#[verifier::external_body]
fn since_epoch(t: &std::time::SystemTime) -> Result<std::time::Duration, std::time::SystemTimeError> {
    t.duration_since(std::time::UNIX_EPOCH)
}

/// Calls `Duration::as_secs`. Nothing is claimed: a `Duration` is opaque
/// here.
#[verifier::external_body]
fn whole_seconds(d: &std::time::Duration) -> u64 {
    d.as_secs()
}

/// What the clock reads: whole seconds since the Unix epoch, or none for a
/// clock set before the epoch. It is the clock's value; nothing constrains it.
fn clock_reading() -> Option<u64> {
    let now = system_now();
    match since_epoch(&now) {
        Ok(d) => Some(whole_seconds(&d)),
        Err(_) => None,
    }
}

/// Seconds since the Unix epoch of a clock reading: zero for a clock set
/// before the epoch (what `unwrap_or_default` then `as_secs` give: the
/// default duration is zero).
pub fn unix_time_seconds(reading: Option<u64>) -> (r: u64)
    ensures
        r == match reading {
            Some(s) => s,
            None => 0,
        },
{
    match reading {
        Some(s) => s,
        None => 0,
    }
}

/// The day number (days since 1970-01-01, UTC) of a clock reading.
pub fn day_number_of(reading: Option<u64>) -> (r: u64)
    ensures
        r == (match reading {
            Some(s) => s,
            None => 0,
        }) / 86400,
        r <= u64::MAX / 86400,
{
    unix_time_seconds(reading) / 86400
}

/// `YYYYMMDD` of the day of a clock reading.
pub fn stamp_of_reading(reading: Option<u64>) -> (r: String)
    ensures
        r@ == day_stamp(day_number_of_spec(reading)),
        exists|y: int, m: int, d: int| valid_date(y, m, d) && r@ == compact_date_of(y, m, d),
{
    date_stamp(unix_time_seconds(reading))
}

/// The day number of a clock reading (see `day_number_of`).
pub open spec fn day_number_of_spec(reading: Option<u64>) -> int {
    (match reading {
        Some(s) => s,
        None => 0,
    }) as int / 86400
}

/// Today's day number: the day number of the clock's reading.
pub fn today_day_number() -> (r: u64)
    ensures
        r <= u64::MAX / 86400,
{
    day_number_of(clock_reading())
}

/// Today's date (UTC) as `YYYYMMDD`: that of the clock's reading.
pub fn chrono_today() -> (r: String)
    ensures
        exists|y: int, m: int, d: int| valid_date(y, m, d) && r@ == compact_date_of(y, m, d),
{
    stamp_of_reading(clock_reading())
}

} // verus!
