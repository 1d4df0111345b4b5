//! Calendar timestamps (UTC, whole seconds) and their epoch seconds.
use vstd::prelude::*;
use vstd::arithmetic::div_mod::{lemma_fundamental_div_mod, lemma_fundamental_div_mod_converse};

verus! {

/// Seconds in a day.
pub const SECONDS_PER_DAY_I64: i64 = 86400;

/// Days in a cycle of 400 Gregorian years.
pub const DAYS_PER_ERA: i64 = 146097;

/// A UTC calendar time to the second, in the proleptic Gregorian calendar.
#[derive(Clone, Copy, Debug, PartialEq, Eq, Structural)]
pub struct Timestamp {
    pub year: i64,
    pub month: u8,
    pub day: u8,
    pub hour: u8,
    pub minute: u8,
    pub second: u8,
}

/// A Gregorian leap year.
pub open spec fn is_leap(y: int) -> bool {
    (y % 4 == 0 && y % 100 != 0) || y % 400 == 0
}

/// Days in year `y`.
pub open spec fn year_len(y: int) -> int {
    if is_leap(y) {
        366
    } else {
        365
    }
}

/// Days in month `m` (1 to 12) of year `y`.
pub open spec fn month_len(y: int, m: int) -> int {
    if m == 2 {
        if is_leap(y) {
            29
        } else {
            28
        }
    } else if m == 4 || m == 6 || m == 9 || m == 11 {
        30
    } else {
        31
    }
}

/// Leap years from year 1 to year `n`.
pub open spec fn leaps_through(n: int) -> int {
    n / 4 - n / 100 + n / 400
}

/// Days from 1 January 1970 to 1 January of year `y`.
pub open spec fn days_before_year(y: int) -> int {
    365 * (y - 1970) + leaps_through(y - 1) - leaps_through(1969)
}

/// Days from 1 January to the first of month `m` in year `y`.
pub open spec fn days_before_month(y: int, m: int) -> int
    decreases m,
{
    if m <= 1 {
        0
    } else {
        days_before_month(y, m - 1) + month_len(y, m - 1)
    }
}

/// The seconds from the Unix epoch to a timestamp.
pub open spec fn epoch_seconds(t: Timestamp) -> int {
    (days_before_year(t.year as int) + days_before_month(t.year as int, t.month as int) + t.day - 1)
        * 86400 + t.hour * 3600 + t.minute * 60 + t.second
}

impl Timestamp {
    /// A real date and time.
    pub open spec fn wf(&self) -> bool {
        &&& 1 <= self.month <= 12
        &&& 1 <= self.day <= month_len(self.year as int, self.month as int)
        &&& self.hour < 24
        &&& self.minute < 60
        &&& self.second < 60
    }
}

/// Each year adds its own length.
pub proof fn lemma_year_step(y: int)
    ensures
        days_before_year(y + 1) == days_before_year(y) + year_len(y),
{
    assert(leaps_through(y) - leaps_through(y - 1) == if is_leap(y) {
        1int
    } else {
        0int
    });
}

proof fn lemma_div_shift(x: int, d: int, k: int)
    requires
        d > 0,
    ensures
        (x + k * d) / d == x / d + k,
{
    lemma_fundamental_div_mod(x, d);
    assert(x + k * d == (x / d + k) * d + x % d) by (nonlinear_arith)
        requires
            x == d * (x / d) + (x % d),
    ;
    lemma_fundamental_div_mod_converse(x + k * d, d, x / d + k, x % d);
}

/// Every 400 years add the same number of days.
pub proof fn lemma_era(y: int)
    ensures
        days_before_year(y + 400) == days_before_year(y) + 146097,
{
    lemma_div_shift(y - 1, 4, 100);
    lemma_div_shift(y - 1, 100, 4);
    lemma_div_shift(y - 1, 400, 1);
    assert(leaps_through(y + 399) == leaps_through(y - 1) + 97);
}

/// Years after a year start at least 365 days later each.
proof fn lemma_years_grow(a: int, b: int)
    requires
        a <= b,
    ensures
        days_before_year(b) - days_before_year(a) >= 365 * (b - a),
    decreases b - a,
{
    if a < b {
        lemma_years_grow(a, b - 1);
        lemma_year_step(b - 1);
    }
}

/// The months of a year add up to the year.
proof fn lemma_months_fill_year(y: int)
    ensures
        days_before_month(y, 13) == year_len(y),
        forall|m: int| 1 <= m <= 12 ==> days_before_month(y, m) + month_len(y, m)
            == #[trigger] days_before_month(y, m + 1),
{
    reveal_with_fuel(days_before_month, 13);
}

proof fn lemma_months_grow(y: int, a: int, b: int)
    requires
        1 <= a <= b <= 13,
    ensures
        days_before_month(y, b) - days_before_month(y, a) >= 28 * (b - a),
    decreases b - a,
{
    if a < b {
        lemma_months_grow(y, a, b - 1);
    }
}

fn is_leap_exec(y: i64) -> (r: bool)
    ensures
        r == is_leap(y as int),
{
    (y % 4 == 0 && y % 100 != 0) || y % 400 == 0
}

fn year_len_exec(y: i64) -> (r: i64)
    ensures
        r == year_len(y as int),
{
    if is_leap_exec(y) {
        366
    } else {
        365
    }
}

fn month_len_exec(y: i64, m: u8) -> (r: i64)
    ensures
        r == month_len(y as int, m as int),
{
    if m == 2 {
        if is_leap_exec(y) {
            29
        } else {
            28
        }
    } else if m == 4 || m == 6 || m == 9 || m == 11 {
        30
    } else {
        31
    }
}

/// Days from 1970 to 1970 + 400 * `eras` years, before 1970 where `eras` is negative.
proof fn lemma_eras(eras: int)
    ensures
        days_before_year(1970 + 400 * eras) == 146097 * eras,
    decreases (if eras >= 0 { eras } else { -eras }),
{
    if eras > 0 {
        lemma_eras(eras - 1);
        lemma_era(1970 + 400 * (eras - 1));
    } else if eras < 0 {
        lemma_eras(eras + 1);
        lemma_era(1970 + 400 * eras);
    }
}

/// `n` divided by `d` rounded down, and what is left over.
fn floor_div_rem(n: i64, d: i64) -> (r: (i64, i64))
    requires
        d > 0,
    ensures
        r.0 == n / d,
        r.1 == n % d,
        0 <= r.1 < d,
        n == r.0 * d + r.1,
{
    if n >= 0 {
        let q = n / d;
        let m = n % d;
        proof {
            lemma_fundamental_div_mod(n as int, d as int);
            assert(n == q * d + m) by (nonlinear_arith)
                requires
                    n == d * q + m,
            ;
        }
        (q, m)
    } else {
        let pos = -(n + 1);
        let a = pos / d;
        let b = pos % d;
        let q = -a - 1;
        let m = d - 1 - b;
        proof { lemma_fundamental_div_mod(pos as int, d as int); }
        assert(pos == a * d + b) by (nonlinear_arith)
            requires
                pos == d * a + b,
        ;
        assert(n == q * d + m) by (nonlinear_arith)
            requires
                pos == a * d + b,
                pos == -(n + 1),
                q == -a - 1,
                m == d - 1 - b,
        ;
        proof { lemma_fundamental_div_mod_converse(n as int, d as int, q as int, m as int); }
        (q, m)
    }
}

/// The calendar time `secs` seconds after the Unix epoch (before it, where
/// `secs` is negative).
pub fn to_datetime(secs: i64) -> (r: Timestamp)
    ensures
        r.wf(),
        epoch_seconds(r) == secs,
{
    let (days, in_day) = floor_div_rem(secs, SECONDS_PER_DAY_I64);
    let (eras, rem0) = floor_div_rem(days, DAYS_PER_ERA);
    assert(-0x1_0000_0000 <= eras <= 0x1_0000_0000);
    let mut rem = rem0;
    let y0 = 1970 + 400 * eras;
    let mut y = y0;
    proof {
        lemma_eras(eras as int);
        lemma_era(y0 as int);
    }
    while rem >= year_len_exec(y)
        invariant
            y0 == 1970 + 400 * eras,
            -0x1_0000_0000 <= eras <= 0x1_0000_0000,
            y0 <= y,
            0 <= rem,
            days_before_year(y as int) + rem == days,
            days_before_year(y0 as int) == 146097 * eras,
            days < days_before_year(y0 as int + 400),
            365 * (y - y0) <= days_before_year(y as int) - days_before_year(y0 as int),
        decreases rem,
    {
        proof { lemma_year_step(y as int); }
        rem = rem - year_len_exec(y);
        y = y + 1;
    }
    proof { lemma_months_fill_year(y as int); }
    let ghost doy = rem;
    let mut m: u8 = 1;
    while rem >= month_len_exec(y, m)
        invariant
            1 <= m <= 12,
            0 <= rem,
            days_before_month(y as int, m as int) + rem == doy,
            doy < year_len(y as int),
            days_before_month(y as int, 13) == year_len(y as int),
            forall|k: int| 1 <= k <= 12 ==> days_before_month(y as int, k) + month_len(y as int, k)
                == #[trigger] days_before_month(y as int, k + 1),
        decreases rem,
    {
        if m == 12 {
            assert(false);
        }
        rem = rem - month_len_exec(y, m);
        m = m + 1;
    }
    assert(secs == days * 86400 + in_day);
    assert(in_day == (in_day / 3600) * 3600 + ((in_day % 3600) / 60) * 60 + in_day % 60);
    Timestamp {
        year: y,
        month: m,
        day: (rem + 1) as u8,
        hour: (in_day / 3600) as u8,
        minute: ((in_day % 3600) / 60) as u8,
        second: (in_day % 60) as u8,
    }
}

/// The epoch seconds of a calendar time.
pub fn to_i64(t: &Timestamp) -> (r: i64)
    requires
        t.wf(),
        i64::MIN <= epoch_seconds(*t) <= i64::MAX,
    ensures
        r == epoch_seconds(*t),
{
    let whole = days_in(t);
    let secs = whole as i128 * SECONDS_PER_DAY_I64 as i128 + t.hour as i128 * 3600 + t.minute as i128
        * 60 + t.second as i128;
    secs as i64
}

/// Days from the epoch to the start of the timestamp's day.
fn days_in(t: &Timestamp) -> (r: i64)
    requires
        t.wf(),
        i64::MIN <= epoch_seconds(*t) <= i64::MAX,
    ensures
        r == days_before_year(t.year as int) + days_before_month(t.year as int, t.month as int)
            + t.day - 1,
{
    let y = t.year;
    let ghost whole = days_before_year(y as int) + days_before_month(y as int, t.month as int)
        + t.day - 1;
    proof {
        lemma_months_grow(y as int, 1, t.month as int);
        lemma_months_fill_year(y as int);
        lemma_months_grow(y as int, t.month as int + 1, 13);
        assert(days_before_month(y as int, 1) == 0);
        assert(-0x10_0000_0000_0000 <= whole <= 0x10_0000_0000_0000) by (nonlinear_arith)
            requires
                epoch_seconds(*t) == whole * 86400 + t.hour * 3600 + t.minute * 60 + t.second,
                i64::MIN <= epoch_seconds(*t) <= i64::MAX,
                0 <= t.hour * 3600 + t.minute * 60 + t.second,
        ;
    }
    let (eras, _) = floor_div_rem(y - 1970, 400);
    let mut yy = 1970 + 400 * eras;
    proof {
        lemma_eras(eras as int);
        lemma_years_grow(yy as int, y as int);
        lemma_era(yy as int);
        lemma_years_grow(y as int, yy as int + 400);
    }
    let mut days: i64 = DAYS_PER_ERA * eras;
    while yy < y
        invariant
            yy <= y == t.year,
            t.wf(),
            days == days_before_year(yy as int),
            days_before_year(yy as int) <= days_before_year(y as int),
            days_before_year(y as int) - days_before_year(yy as int) <= 146097,
            whole == days_before_year(y as int) + days_before_month(y as int, t.month as int) + t.day
                - 1,
            0 <= days_before_month(y as int, t.month as int) <= 366,
            -0x10_0000_0000_0000 <= whole <= 0x10_0000_0000_0000,
        decreases y - yy,
    {
        proof {
            lemma_year_step(yy as int);
            lemma_years_grow(yy as int + 1, y as int);
        }
        days = days + year_len_exec(yy);
        yy = yy + 1;
    }
    let mut m: u8 = 1;
    while m < t.month
        invariant
            1 <= m <= t.month <= 12,
            t.wf(),
            days == days_before_year(y as int) + days_before_month(y as int, m as int),
            0 <= days_before_month(y as int, m as int) <= days_before_month(y as int, t.month as int),
            days_before_month(y as int, t.month as int) <= 366,
            whole == days_before_year(y as int) + days_before_month(y as int, t.month as int) + t.day
                - 1,
            -0x10_0000_0000_0000 <= whole <= 0x10_0000_0000_0000,
            forall|k: int| 1 <= k <= 12 ==> days_before_month(y as int, k) + month_len(y as int, k)
                == #[trigger] days_before_month(y as int, k + 1),
        decreases t.month - m,
    {
        proof { lemma_months_grow(y as int, m as int + 1, t.month as int); }
        days = days + month_len_exec(y, m);
        m = m + 1;
    }
    days + t.day as i64 - 1
}

proof fn lemma_split_seconds(da: int, ta: int, db: int, tb: int, unit: int)
    requires
        unit > 0,
        0 <= ta < unit,
        0 <= tb < unit,
        da * unit + ta == db * unit + tb,
    ensures
        da == db,
        ta == tb,
{
    if da < db {
        assert(da * unit + unit <= db * unit) by (nonlinear_arith)
            requires
                da < db,
                unit > 0,
        ;
    } else if db < da {
        assert(db * unit + unit <= da * unit) by (nonlinear_arith)
            requires
                db < da,
                unit > 0,
        ;
    }
}

/// Two well-formed timestamps with the same epoch seconds are the same
/// timestamp. With `to_datetime` giving, for every `i64`, a well-formed
/// timestamp with those seconds, and `to_i64` giving a timestamp's seconds,
/// each of the two conversions undoes the other.
pub proof fn lemma_epoch_seconds_injective(a: Timestamp, b: Timestamp)
    requires
        a.wf(),
        b.wf(),
        epoch_seconds(a) == epoch_seconds(b),
    ensures
        a == b,
{
    let doy_a = days_before_month(a.year as int, a.month as int) + a.day - 1;
    let doy_b = days_before_month(b.year as int, b.month as int) + b.day - 1;
    let ta = a.hour * 3600 + a.minute * 60 + a.second;
    let tb = b.hour * 3600 + b.minute * 60 + b.second;
    lemma_split_seconds(days_before_year(a.year as int) + doy_a, ta, days_before_year(b.year as int)
        + doy_b, tb, 86400);
    lemma_split_seconds(a.hour as int, a.minute * 60 + a.second, b.hour as int, b.minute * 60
        + b.second, 3600);
    lemma_split_seconds(a.minute as int, a.second as int, b.minute as int, b.second as int, 60);
    lemma_months_fill_year(a.year as int);
    lemma_months_fill_year(b.year as int);
    lemma_months_grow(a.year as int, a.month as int + 1, 13);
    lemma_months_grow(b.year as int, b.month as int + 1, 13);
    lemma_months_grow(a.year as int, 1, a.month as int);
    lemma_months_grow(b.year as int, 1, b.month as int);
    assert(days_before_month(a.year as int, 1) == 0);
    assert(days_before_month(b.year as int, 1) == 0);
    assert(0 <= doy_a < year_len(a.year as int));
    assert(0 <= doy_b < year_len(b.year as int));
    if a.year < b.year {
        lemma_year_step(a.year as int);
        lemma_years_grow(a.year + 1, b.year as int);
    } else if b.year < a.year {
        lemma_year_step(b.year as int);
        lemma_years_grow(b.year + 1, a.year as int);
    }
    assert(a.year == b.year);
    let y = a.year as int;
    if a.month < b.month {
        lemma_months_grow(y, a.month as int + 1, b.month as int);
    } else if b.month < a.month {
        lemma_months_grow(y, b.month as int + 1, a.month as int);
    }
    assert(a.month == b.month);
}

} // verus!
