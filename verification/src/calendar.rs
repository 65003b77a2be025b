//! Calendar dates and the days they fall on.
//!
//! Days are counted from the first of January 1970, which is day 0; dates are
//! those of the Gregorian calendar, carried backwards and forwards without
//! end. Every day has one date and every date one day.

use vstd::prelude::*;
use vstd::string::*;
use vstd::arithmetic::div_mod::{
    lemma_fundamental_div_mod, lemma_fundamental_div_mod_converse, lemma_mod_bound,
};
use crate::text::{append_digits, decimal_digits};

verus! {

/// A date of the Gregorian calendar.
#[derive(Clone, Copy, Debug, PartialEq, Eq)]
pub struct CalendarDate {
    pub year: i64,
    pub month: u8,
    pub day: u8,
}

/// The number of days in four hundred years.
pub const DAYS_PER_ERA: i128 = 146097;

/// The number of days from the first of January of the year 0 to day 0.
pub const EPOCH_OFFSET: i128 = 719528;

/// Whether a year has a twenty-ninth of February.
pub open spec fn is_leap_year(y: int) -> bool {
    y % 4 == 0 && (y % 100 != 0 || y % 400 == 0)
}

/// The number of days of a month.
pub open spec fn days_in_month(y: int, m: int) -> int {
    if m == 2 {
        if is_leap_year(y) {
            29
        } else {
            28
        }
    } else if m == 4 || m == 6 || m == 9 || m == 11 {
        30
    } else {
        31
    }
}

/// The number of days of a year that come before its month `m`.
pub open spec fn days_before_month(y: int, m: int) -> int {
    let leap: int = if is_leap_year(y) {
        1
    } else {
        0
    };
    if m <= 1 {
        0
    } else if m == 2 {
        31
    } else if m == 3 {
        59 + leap
    } else if m == 4 {
        90 + leap
    } else if m == 5 {
        120 + leap
    } else if m == 6 {
        151 + leap
    } else if m == 7 {
        181 + leap
    } else if m == 8 {
        212 + leap
    } else if m == 9 {
        243 + leap
    } else if m == 10 {
        273 + leap
    } else if m == 11 {
        304 + leap
    } else {
        334 + leap
    }
}

/// The number of days from the first of January of the year 0 to the first
/// of January of the year `y`.
pub open spec fn days_before_year(y: int) -> int {
    365 * y + (y + 3) / 4 - (y + 99) / 100 + (y + 399) / 400
}

/// Whether the month and the day of a date exist.
pub open spec fn is_valid_date(d: CalendarDate) -> bool {
    &&& 1 <= d.month <= 12
    &&& 1 <= d.day <= days_in_month(d.year as int, d.month as int)
}

/// The day a date falls on.
pub open spec fn day_number(d: CalendarDate) -> int {
    days_before_year(d.year as int) + days_before_month(d.year as int, d.month as int) + d.day - 1
        - EPOCH_OFFSET
}

/// The date of a day.
pub open spec fn date_of_day(n: int) -> CalendarDate {
    choose|d: CalendarDate| is_valid_date(d) && day_number(d) == n
}

/// The date after a date.
pub open spec fn next_date(d: CalendarDate) -> CalendarDate {
    if d.day < days_in_month(d.year as int, d.month as int) {
        CalendarDate { day: (d.day + 1) as u8, ..d }
    } else if d.month < 12 {
        CalendarDate { month: (d.month + 1) as u8, day: 1, ..d }
    } else {
        CalendarDate { year: (d.year + 1) as i64, month: 1, day: 1 }
    }
}

/// A number below a hundred, written with two digits.
pub open spec fn two_digits(n: nat) -> Seq<char> {
    if n < 10 {
        seq!['0'] + decimal_digits(n)
    } else {
        decimal_digits(n)
    }
}

/// A number written with four digits at least.
pub open spec fn four_digits(n: nat) -> Seq<char> {
    if n < 10 {
        seq!['0', '0', '0'] + decimal_digits(n)
    } else if n < 100 {
        seq!['0', '0'] + decimal_digits(n)
    } else if n < 1000 {
        seq!['0'] + decimal_digits(n)
    } else {
        decimal_digits(n)
    }
}

/// A date written `YYYY-MM-DD`; a year before the year 0 is written with a
/// leading `-`.
pub open spec fn iso_date(d: CalendarDate) -> Seq<char> {
    let year = if d.year < 0 {
        seq!['-'] + four_digits((-d.year) as nat)
    } else {
        four_digits(d.year as nat)
    };
    year + seq!['-'] + two_digits(d.month as nat) + seq!['-'] + two_digits(d.day as nat)
}

proof fn lemma_fourth_year(y: int)
    ensures
        (y + 4) / 4 - (y + 3) / 4 == if y % 4 == 0 { 1int } else { 0int },
        (y + 403) / 4 == (y + 3) / 4 + 100,
        (y + 400) % 4 == y % 4,
{
}

proof fn lemma_hundredth_year(y: int)
    ensures
        (y + 100) / 100 - (y + 99) / 100 == if y % 100 == 0 { 1int } else { 0int },
        (y + 499) / 100 == (y + 99) / 100 + 4,
        (y + 400) % 100 == y % 100,
        y % 100 == 0 ==> y % 4 == 0,
{
    if y % 100 == 0 {
        let k = y / 100;
        assert(y == 4 * (25 * k));
    }
}

proof fn lemma_four_hundredth_year(y: int)
    ensures
        (y + 400) / 400 - (y + 399) / 400 == if y % 400 == 0 { 1int } else { 0int },
        (y + 799) / 400 == (y + 399) / 400 + 1,
        (y + 400) % 400 == y % 400,
        y % 400 == 0 ==> y % 100 == 0,
{
    if y % 400 == 0 {
        let k = y / 400;
        assert(y == 100 * (4 * k));
    }
}

/// A year has 366 days if it is a leap year and 365 otherwise, and four
/// hundred years have [`DAYS_PER_ERA`] days.
pub proof fn lemma_year_lengths(y: int)
    ensures
        days_before_year(y + 1) - days_before_year(y) == if is_leap_year(y) {
            366int
        } else {
            365int
        },
        days_before_year(y + 400) == days_before_year(y) + DAYS_PER_ERA,
        is_leap_year(y + 400) == is_leap_year(y),
{
    lemma_fourth_year(y);
    lemma_hundredth_year(y);
    lemma_four_hundredth_year(y);
}

/// Day 0 is the first of January 1970.
pub proof fn lemma_epoch()
    ensures
        days_before_year(1970) == EPOCH_OFFSET,
        is_valid_date(CalendarDate { year: 1970, month: 1, day: 1 }),
        day_number(CalendarDate { year: 1970, month: 1, day: 1 }) == 0,
{
}

/// Later years begin later.
pub proof fn lemma_years_ascend(a: int, b: int)
    requires
        a <= b,
    ensures
        days_before_year(b) - days_before_year(a) >= 365 * (b - a),
        days_before_year(b) - days_before_year(a) <= 366 * (b - a),
    decreases b - a,
{
    if a < b {
        lemma_years_ascend(a, b - 1);
        lemma_year_lengths(b - 1);
    }
}

/// The months of a year follow one another, and the year ends with its last
/// month.
pub proof fn lemma_months_follow(y: int, m: int)
    requires
        1 <= m <= 12,
    ensures
        days_before_month(y, m) + days_in_month(y, m) == if m == 12 {
            days_before_year(y + 1) - days_before_year(y)
        } else {
            days_before_month(y, m + 1)
        },
        days_before_month(y, m) >= 0,
{
    lemma_year_lengths(y);
}

/// An earlier date falls on an earlier day.
pub proof fn lemma_dates_ascend(a: CalendarDate, b: CalendarDate)
    requires
        is_valid_date(a),
        is_valid_date(b),
        a.year < b.year || (a.year == b.year && (a.month < b.month || (a.month == b.month && a.day
            < b.day))),
    ensures
        day_number(a) < day_number(b),
{
    if a.year < b.year {
        lemma_months_follow(a.year as int, a.month as int);
        lemma_month_starts_ascend(a.year as int, a.month as int, 12);
        lemma_months_follow(a.year as int, 12);
        lemma_years_ascend(a.year + 1, b.year as int);
        lemma_months_follow(b.year as int, b.month as int);
    } else if a.month < b.month {
        lemma_months_follow(a.year as int, a.month as int);
        lemma_month_starts_ascend(a.year as int, a.month + 1, b.month as int);
    }
}

/// Later months begin later.
pub proof fn lemma_month_starts_ascend(y: int, a: int, b: int)
    requires
        1 <= a <= b <= 12,
    ensures
        days_before_month(y, a) <= days_before_month(y, b),
{
}

/// Two dates that fall on the same day are the same date.
pub proof fn lemma_one_date_per_day(a: CalendarDate, b: CalendarDate)
    requires
        is_valid_date(a),
        is_valid_date(b),
        day_number(a) == day_number(b),
    ensures
        a == b,
{
    let a_first = a.year < b.year || (a.year == b.year && (a.month < b.month || (a.month == b.month
        && a.day < b.day)));
    let b_first = b.year < a.year || (b.year == a.year && (b.month < a.month || (b.month == a.month
        && b.day < a.day)));
    if a_first {
        lemma_dates_ascend(a, b);
    } else if b_first {
        lemma_dates_ascend(b, a);
    }
}

/// The date after a date falls on the day after its day.
pub proof fn lemma_next_date_is_next_day(d: CalendarDate)
    requires
        is_valid_date(d),
        d.year < i64::MAX,
    ensures
        is_valid_date(next_date(d)),
        day_number(next_date(d)) == day_number(d) + 1,
{
    lemma_months_follow(d.year as int, d.month as int);
}

/// Adding a multiple of the divisor adds to the quotient and leaves the
/// remainder.
proof fn lemma_shift_by_multiple(a: int, k: int, d: int)
    requires
        d > 0,
    ensures
        (a + d * k) / d == a / d + k,
        (a + d * k) % d == a % d,
{
    lemma_fundamental_div_mod(a, d);
    assert(a + d * k == (a / d + k) * d + a % d) by (nonlinear_arith)
        requires
            a == d * (a / d) + a % d,
    ;
    lemma_mod_bound(a, d);
    lemma_fundamental_div_mod_converse(a + d * k, d, a / d + k, a % d);
}

/// Whole eras shift the beginning of a year by their days and leave its
/// length as it is.
pub proof fn lemma_eras(y: int, eras: int)
    ensures
        days_before_year(y + 400 * eras) == days_before_year(y) + DAYS_PER_ERA * eras,
        is_leap_year(y + 400 * eras) == is_leap_year(y),
{
    lemma_shift_by_multiple(y + 3, 100 * eras, 4);
    lemma_shift_by_multiple(y + 99, 4 * eras, 100);
    lemma_shift_by_multiple(y + 399, eras, 400);
    lemma_shift_by_multiple(y, 100 * eras, 4);
    lemma_shift_by_multiple(y, 4 * eras, 100);
    lemma_shift_by_multiple(y, eras, 400);
    assert(y + 400 * eras + 3 == (y + 3) + 4 * (100 * eras));
    assert(y + 400 * eras + 99 == (y + 99) + 100 * (4 * eras));
    assert(y + 400 * eras + 399 == (y + 399) + 400 * eras);
    assert(y + 400 * eras == y + 4 * (100 * eras));
    assert(y + 400 * eras == y + 100 * (4 * eras));
}

/// Finds the year of an era that a day of the era falls in.
proof fn year_in_era(day_of_era: int, from: int) -> (y: int)
    requires
        0 <= from <= 399,
        days_before_year(from) <= day_of_era < DAYS_PER_ERA,
    ensures
        from <= y <= 399,
        days_before_year(y) <= day_of_era < days_before_year(y + 1),
    decreases 400 - from,
{
    if days_before_year(from + 1) > day_of_era {
        from
    } else {
        assert(from < 399) by {
            if from == 399 {
                assert(days_before_year(400) == DAYS_PER_ERA);
            }
        }
        year_in_era(day_of_era, from + 1)
    }
}

/// Finds the month of a year that a day of the year falls in.
proof fn month_in_year(y: int, day_of_year: int) -> (m: int)
    requires
        0 <= day_of_year < days_before_year(y + 1) - days_before_year(y),
    ensures
        1 <= m <= 12,
        days_before_month(y, m) <= day_of_year < days_before_month(y, m) + days_in_month(y, m),
{
    lemma_year_lengths(y);
    if day_of_year < days_before_month(y, 2) {
        1
    } else if day_of_year < days_before_month(y, 3) {
        2
    } else if day_of_year < days_before_month(y, 4) {
        3
    } else if day_of_year < days_before_month(y, 5) {
        4
    } else if day_of_year < days_before_month(y, 6) {
        5
    } else if day_of_year < days_before_month(y, 7) {
        6
    } else if day_of_year < days_before_month(y, 8) {
        7
    } else if day_of_year < days_before_month(y, 9) {
        8
    } else if day_of_year < days_before_month(y, 10) {
        9
    } else if day_of_year < days_before_month(y, 11) {
        10
    } else if day_of_year < days_before_month(y, 12) {
        11
    } else {
        12
    }
}

/// Every day has a date, and only one.
pub proof fn lemma_every_day_has_a_date(n: int)
    requires
        i64::MIN <= n <= i64::MAX,
    ensures
        is_valid_date(date_of_day(n)),
        day_number(date_of_day(n)) == n,
{
    let z = n + EPOCH_OFFSET;
    let era = z / (DAYS_PER_ERA as int);
    let day_of_era = z % (DAYS_PER_ERA as int);
    let y = year_in_era(day_of_era, 0);
    let day_of_year = day_of_era - days_before_year(y);
    let m = month_in_year(y, day_of_year);
    lemma_eras(y, era);
    let d = CalendarDate {
        year: (y + 400 * era) as i64,
        month: m as u8,
        day: (day_of_year - days_before_month(y, m) + 1) as u8,
    };
    assert(is_valid_date(d) && day_number(d) == n);
}

/// The date of the day after a day is the date after that day's date.
pub proof fn lemma_days_follow(n: int)
    requires
        i64::MIN <= n < i64::MAX,
    ensures
        date_of_day(n + 1) == next_date(date_of_day(n)),
{
    lemma_every_day_has_a_date(n);
    lemma_every_day_has_a_date(n + 1);
    let d = date_of_day(n);
    assert(d.year < i64::MAX) by {
        if d.year == i64::MAX {
            lemma_years_ascend(1970, d.year as int);
            lemma_months_follow(d.year as int, d.month as int);
        }
    }
    lemma_next_date_is_next_day(d);
    lemma_one_date_per_day(next_date(d), date_of_day(n + 1));
}

fn year_start(y: i128) -> (r: i128)
    requires
        0 <= y <= 400,
    ensures
        r == days_before_year(y as int),
{
    365 * y + (y + 3) / 4 - (y + 99) / 100 + (y + 399) / 400
}

fn month_start(leap: bool, m: u8, Ghost(y): Ghost<int>) -> (r: i128)
    requires
        1 <= m <= 12,
        leap == is_leap_year(y),
    ensures
        r == days_before_month(y, m as int),
{
    let extra: i128 = if leap {
        1
    } else {
        0
    };
    if m == 1 {
        0
    } else if m == 2 {
        31
    } else if m == 3 {
        59 + extra
    } else if m == 4 {
        90 + extra
    } else if m == 5 {
        120 + extra
    } else if m == 6 {
        151 + extra
    } else if m == 7 {
        181 + extra
    } else if m == 8 {
        212 + extra
    } else if m == 9 {
        243 + extra
    } else if m == 10 {
        273 + extra
    } else if m == 11 {
        304 + extra
    } else {
        334 + extra
    }
}

/// The date of a day.
pub fn date_from_day(n: i64) -> (d: CalendarDate)
    ensures
        d == date_of_day(n as int),
        is_valid_date(d),
        day_number(d) == n,
{
    let z: i128 = n as i128 + EPOCH_OFFSET;
    let era: i128 = if z >= 0 {
        z / DAYS_PER_ERA
    } else {
        -((DAYS_PER_ERA - 1 - z) / DAYS_PER_ERA)
    };
    let day_of_era: i128 = z - era * DAYS_PER_ERA;
    assert(0 <= day_of_era < DAYS_PER_ERA);
    let mut y: i128 = day_of_era / 366;
    proof {
        lemma_years_ascend(0, y as int);
        lemma_years_ascend(y as int, 400);
    }
    while y < 399 && year_start(y + 1) <= day_of_era
        invariant
            0 <= y <= 399,
            days_before_year(y as int) <= day_of_era < DAYS_PER_ERA,
        decreases 400 - y,
    {
        y += 1;
    }
    proof {
        if y == 399 {
            assert(days_before_year(400) == DAYS_PER_ERA);
        }
        lemma_year_lengths(y as int);
        lemma_eras(y as int, era as int);
    }
    let day_of_year: i128 = day_of_era - year_start(y);
    let leap: bool = y % 4 == 0 && (y % 100 != 0 || y % 400 == 0);
    let mut m: u8 = 1;
    while m < 12 && month_start(leap, m + 1, Ghost(y as int)) <= day_of_year
        invariant
            1 <= m <= 12,
            0 <= y <= 399,
            leap == is_leap_year(y as int),
            days_before_month(y as int, m as int) <= day_of_year,
        decreases 12 - m,
    {
        m += 1;
    }
    proof {
        lemma_months_follow(y as int, m as int);
    }
    let day: i128 = day_of_year - month_start(leap, m, Ghost(y as int)) + 1;
    let d = CalendarDate { year: (era * 400 + y) as i64, month: m, day: day as u8 };
    proof {
        assert(is_valid_date(d) && day_number(d) == n);
        lemma_one_date_per_day(d, date_of_day(n as int));
    }
    d
}

fn append_two_digits(out: &mut String, n: u8)
    ensures
        final(out)@ == old(out)@ + two_digits(n as nat),
{
    if n < 10 {
        proof {
            reveal_strlit("0");
        }
        out.append("0");
        append_digits(out, n as u128);
        assert(out@ =~= old(out)@ + (seq!['0'] + decimal_digits(n as nat)));
    } else {
        append_digits(out, n as u128);
    }
}

fn append_four_digits(out: &mut String, n: u128)
    ensures
        final(out)@ == old(out)@ + four_digits(n as nat),
{
    proof {
        reveal_strlit("0");
        reveal_strlit("00");
        reveal_strlit("000");
    }
    if n < 10 {
        out.append("000");
        append_digits(out, n);
        assert(out@ =~= old(out)@ + (seq!['0', '0', '0'] + decimal_digits(n as nat)));
    } else if n < 100 {
        out.append("00");
        append_digits(out, n);
        assert(out@ =~= old(out)@ + (seq!['0', '0'] + decimal_digits(n as nat)));
    } else if n < 1000 {
        out.append("0");
        append_digits(out, n);
        assert(out@ =~= old(out)@ + (seq!['0'] + decimal_digits(n as nat)));
    } else {
        append_digits(out, n);
    }
}

/// Writes a date `YYYY-MM-DD`.
pub fn format_date(d: CalendarDate) -> (r: String)
    ensures
        r@ == iso_date(d),
{
    proof {
        reveal_strlit("-");
    }
    let mut out = String::new();
    if d.year < 0 {
        out.append("-");
        let magnitude: u128 = ((-(d.year + 1)) as u128) + 1;
        append_four_digits(&mut out, magnitude);
        assert(out@ =~= seq!['-'] + four_digits((-d.year) as nat));
    } else {
        append_four_digits(&mut out, d.year as u128);
        assert(out@ =~= four_digits(d.year as nat));
    }
    let ghost year = out@;
    out.append("-");
    append_two_digits(&mut out, d.month);
    out.append("-");
    append_two_digits(&mut out, d.day);
    assert(out@ =~= year + seq!['-'] + two_digits(d.month as nat) + seq!['-'] + two_digits(
        d.day as nat,
    ));
    out
}

} // verus!
