//! Dates of the Gregorian calendar, counted from the first of January 1970.

use vstd::prelude::*;

use crate::json::view_of;
use crate::text::{decimal, decimal_text, digit_char, push_decimal};
use crate::time::{since_epoch, Duration, NANOS_PER_SEC};

verus! {

/// The seconds of a day.
pub const SECS_PER_DAY: u64 = 86_400;

/// The days of four hundred years, after which the calendar repeats itself.
pub const DAYS_PER_CYCLE: u64 = 146_097;

// ---------------------------------------------------------------------------
// The calendar
// ---------------------------------------------------------------------------

/// A date.
#[derive(Debug, Clone, Copy, PartialEq, Eq, Structural)]
pub struct Date {
    pub year: u64,
    /// From 1 to 12.
    pub month: u64,
    /// From 1 on.
    pub day: u64,
}

/// Whether a year has a 29th of February.
pub open spec fn is_leap_year(year: nat) -> bool {
    year % 4 == 0 && (year % 100 != 0 || year % 400 == 0)
}

/// The days of a year.
pub open spec fn days_in_year(year: nat) -> nat {
    if is_leap_year(year) {
        366
    } else {
        365
    }
}

/// The days of a month.
pub open spec fn days_in_month(year: nat, month: nat) -> nat {
    if month == 2 {
        if is_leap_year(year) {
            29
        } else {
            28
        }
    } else if month == 4 || month == 6 || month == 9 || month == 11 {
        30
    } else {
        31
    }
}

/// The days from the start of 1970 to the start of a year.
pub open spec fn days_before_year(year: nat) -> nat
    decreases year,
{
    if year <= 1970 {
        0
    } else {
        days_before_year((year - 1) as nat) + days_in_year((year - 1) as nat)
    }
}

/// The days from the start of a year to the start of a month.
pub open spec fn days_before_month(year: nat, month: nat) -> nat
    decreases month,
{
    if month <= 1 {
        0
    } else {
        days_before_month(year, (month - 1) as nat) + days_in_month(year, (month - 1) as nat)
    }
}

impl Date {
    /// Whether this is a date of the calendar, from 1970 on.
    pub open spec fn valid(self) -> bool {
        &&& self.year >= 1970
        &&& 1 <= self.month <= 12
        &&& 1 <= self.day <= days_in_month(self.year as nat, self.month as nat)
    }

    /// The days from the first of January 1970 to this date.
    pub open spec fn day_number(self) -> int {
        days_before_year(self.year as nat) + days_before_month(
            self.year as nat,
            self.month as nat,
        ) + self.day - 1
    }
}

/// The number of leap years up to a year.
spec fn leap_years(year: nat) -> int {
    year / 4 - year / 100 + year / 400
}

proof fn lemma_days_before_year(year: nat)
    requires
        year >= 1970,
    ensures
        days_before_year(year) == 365 * (year - 1970) + leap_years((year - 1) as nat)
            - leap_years(1969),
    decreases year,
{
    if year > 1970 {
        lemma_days_before_year((year - 1) as nat);
        let last = (year - 1) as nat;
        assert(leap_years(last) - leap_years((last - 1) as nat) == (if is_leap_year(last) {
            1int
        } else {
            0int
        }));
    }
}

/// The calendar repeats itself after four hundred years.
proof fn lemma_cycles(year: nat, cycles: nat)
    requires
        year >= 1970,
    ensures
        days_before_year(year + 400 * cycles) == days_before_year(year) + DAYS_PER_CYCLE * cycles,
        is_leap_year(year + 400 * cycles) == is_leap_year(year),
{
    lemma_days_before_year(year);
    lemma_days_before_year(year + 400 * cycles);
    let last = (year - 1) as nat;
    assert((last + 400 * cycles) / 4 == last / 4 + 100 * cycles);
    assert((last + 400 * cycles) / 100 == last / 100 + 4 * cycles);
    assert((last + 400 * cycles) / 400 == last / 400 + cycles);
}

proof fn lemma_year_length(year: nat)
    ensures
        days_before_month(year, 13) == days_in_year(year),
{
    reveal_with_fuel(days_before_month, 13);
}

proof fn lemma_months_grow(year: nat, earlier: nat, later: nat)
    requires
        1 <= earlier < later,
    ensures
        days_before_month(year, earlier) + days_in_month(year, earlier) <= days_before_month(
            year,
            later,
        ),
    decreases later,
{
    if earlier < later - 1 {
        lemma_months_grow(year, earlier, (later - 1) as nat);
    }
}

proof fn lemma_years_grow(earlier: nat, later: nat)
    requires
        1970 <= earlier < later,
    ensures
        days_before_year(earlier) + days_in_year(earlier) <= days_before_year(later),
    decreases later,
{
    if earlier < later - 1 {
        lemma_years_grow(earlier, (later - 1) as nat);
    }
}

// ---------------------------------------------------------------------------
// From days to dates
// ---------------------------------------------------------------------------

fn leap(year: u64) -> (r: bool)
    ensures
        r == is_leap_year(year as nat),
{
    year % 4 == 0 && (year % 100 != 0 || year % 400 == 0)
}

fn month_length(year: u64, month: u64) -> (r: u64)
    ensures
        r == days_in_month(year as nat, month as nat),
{
    if month == 2 {
        if leap(year) {
            29
        } else {
            28
        }
    } else if month == 4 || month == 6 || month == 9 || month == 11 {
        30
    } else {
        31
    }
}

/// The date that is `days` days after the first of January 1970.
pub fn date_of_day(days: u64) -> (r: Date)
    ensures
        r.valid(),
        r.day_number() == days,
{
    let cycles: u64 = days / DAYS_PER_CYCLE;
    let mut rest: u64 = days % DAYS_PER_CYCLE;
    let first: u64 = 1970 + 400 * cycles;
    let mut year: u64 = first;
    proof {
        lemma_cycles(1970, cycles as nat);
    }
    loop
        invariant
            first == 1970 + 400 * cycles,
            cycles == days / DAYS_PER_CYCLE,
            first <= year < first + 400,
            days_before_year(year as nat) + rest == days,
            days_before_year(first as nat) + DAYS_PER_CYCLE > days,
        ensures
            1970 <= year < first + 400,
            days_before_year(year as nat) + rest == days,
            rest < days_in_year(year as nat),
        decreases first + 400 - year,
    {
        let length: u64 = if leap(year) {
            366
        } else {
            365
        };
        if rest < length {
            break ;
        }
        proof {
            lemma_cycles(1970, cycles as nat);
            lemma_cycles(1970, (cycles + 1) as nat);
            if year + 1 == first + 400 {
                assert(days_before_year((year + 1) as nat) == days_before_year(year as nat)
                    + days_in_year(year as nat));
                assert(days_before_year(first as nat + 400) == days_before_year(first as nat)
                    + DAYS_PER_CYCLE) by {
                    lemma_cycles(first as nat, 1);
                }
            }
        }
        rest -= length;
        year += 1;
    }
    let mut month: u64 = 1;
    proof {
        lemma_year_length(year as nat);
    }
    let ghost in_year = rest;
    loop
        invariant
            1 <= month <= 12,
            days_before_month(year as nat, month as nat) + rest == in_year,
            in_year < days_before_month(year as nat, 13),
        ensures
            1 <= month <= 12,
            days_before_month(year as nat, month as nat) + rest == in_year,
            rest < days_in_month(year as nat, month as nat),
        decreases 13 - month,
    {
        let length = month_length(year, month);
        if rest < length {
            break ;
        }
        rest -= length;
        month += 1;
        assert(days_before_month(year as nat, month as nat) == days_before_month(
            year as nat,
            (month - 1) as nat,
        ) + length);
    }
    Date { year, month, day: rest + 1 }
}

// ---------------------------------------------------------------------------
// Text
// ---------------------------------------------------------------------------

/// A number below a hundred in two digits.
pub open spec fn two_digits(n: nat) -> Seq<char> {
    seq![digit_char(n / 10), digit_char(n % 10)]
}

/// A date as `YYYY-MM-DD`.
pub open spec fn date_text(date: Date) -> Seq<char> {
    decimal_text(date.year as nat) + "-"@ + two_digits(date.month as nat) + "-"@ + two_digits(
        date.day as nat,
    )
}

/// Whether a text is the date of the moment `secs` seconds after the start of 1970.
pub open spec fn is_date_at(text: Seq<char>, secs: u64) -> bool {
    exists|date: Date|
        date.valid() && date.day_number() == secs / SECS_PER_DAY && text == #[trigger] date_text(
            date,
        )
}

fn push_two_digits(out: &mut String, n: u64)
    requires
        n < 100,
    ensures
        final(out)@ == old(out)@ + two_digits(n as nat),
{
    push_decimal(out, n / 10);
    push_decimal(out, n % 10);
    assert(decimal_text((n / 10) as nat) =~= seq![digit_char((n / 10) as nat)]);
    assert(decimal_text((n % 10) as nat) =~= seq![digit_char((n % 10) as nat)]);
    assert(out@ =~= old(out)@ + two_digits(n as nat));
}

impl Date {
    /// This date as `YYYY-MM-DD`.
    pub fn text(&self) -> (r: String)
        requires
            self.valid(),
        ensures
            r@ == date_text(*self),
    {
        let mut out = decimal(self.year);
        out.append("-");
        push_two_digits(&mut out, self.month);
        out.append("-");
        push_two_digits(&mut out, self.day);
        out
    }
}

/// The date in UTC at `secs` seconds after the start of 1970, as `YYYY-MM-DD`.
pub fn date_utc(secs: u64) -> (r: String)
    ensures
        is_date_at(r@, secs),
{
    date_of_day(secs / SECS_PER_DAY).text()
}

/// The whole seconds since the start of 1970 that a clock shows. A clock that stands before
/// 1970 counts as standing at its start.
pub open spec fn clock_secs(clock: Option<nat>) -> nat {
    match clock {
        Some(elapsed) => elapsed / (NANOS_PER_SEC as nat),
        None => 0,
    }
}

/// The date in UTC where the clock shows `clock`: the time since the start of 1970, or
/// nothing for a clock that stands before it. As `YYYY-MM-DD`.
pub fn date_at(clock: Option<Duration>) -> (r: String)
    ensures
        clock_secs(view_of(clock)) <= u64::MAX,
        is_date_at(r@, clock_secs(view_of(clock)) as u64),
{
    let secs = match clock {
        Some(elapsed) => elapsed.as_secs(),
        None => 0,
    };
    date_utc(secs)
}

/// The date of today in UTC, as `YYYY-MM-DD`. A clock that stands before 1970 counts as
/// standing at its start.
pub fn today_utc() -> (r: String)
    ensures
        exists|secs: u64| is_date_at(r@, secs),
{
    date_at(since_epoch())
}

// ---------------------------------------------------------------------------
// Laws
// ---------------------------------------------------------------------------

/// A later date has a larger number, so no two dates share one.
pub proof fn lemma_dates_are_ordered(a: Date, b: Date)
    requires
        a.valid(),
        b.valid(),
    ensures
        a.day_number() < b.day_number() <==> (a.year < b.year || (a.year == b.year && (a.month
            < b.month || (a.month == b.month && a.day < b.day)))),
        a.day_number() == b.day_number() <==> a == b,
{
    lemma_within_year(a);
    lemma_within_year(b);
    if a.year < b.year {
        lemma_years_grow(a.year as nat, b.year as nat);
    } else if b.year < a.year {
        lemma_years_grow(b.year as nat, a.year as nat);
    } else if a.month < b.month {
        lemma_months_grow(a.year as nat, a.month as nat, b.month as nat);
    } else if b.month < a.month {
        lemma_months_grow(a.year as nat, b.month as nat, a.month as nat);
    }
}

proof fn lemma_within_year(date: Date)
    requires
        date.valid(),
    ensures
        days_before_month(date.year as nat, date.month as nat) + date.day <= days_in_year(
            date.year as nat,
        ),
{
    lemma_year_length(date.year as nat);
    lemma_months_grow(date.year as nat, date.month as nat, 13);
}

/// The date that follows a date.
pub open spec fn next_date(date: Date) -> Date {
    if date.day < days_in_month(date.year as nat, date.month as nat) {
        Date { day: (date.day + 1) as u64, ..date }
    } else if date.month < 12 {
        Date { month: (date.month + 1) as u64, day: 1, ..date }
    } else {
        Date { year: (date.year + 1) as u64, month: 1, day: 1 }
    }
}

/// Days are counted one by one, from the first of January 1970 on.
pub proof fn lemma_days_are_counted(date: Date)
    requires
        date.valid(),
        date.year < u64::MAX,
    ensures
        (Date { year: 1970, month: 1, day: 1 }).day_number() == 0,
        next_date(date).valid(),
        next_date(date).day_number() == date.day_number() + 1,
{
    lemma_year_length(date.year as nat);
    lemma_month_step(date.year as nat, date.month as nat);
}

proof fn lemma_month_step(year: nat, month: nat)
    requires
        month >= 1,
    ensures
        days_before_month(year, month + 1) == days_before_month(year, month) + days_in_month(
            year,
            month,
        ),
{
}

/// The seconds of a moment determine its date.
pub proof fn lemma_one_date_a_moment(a: Seq<char>, b: Seq<char>, secs: u64)
    requires
        is_date_at(a, secs),
        is_date_at(b, secs),
    ensures
        a == b,
{
    let day = secs / SECS_PER_DAY;
    let x = choose|date: Date|
        date.valid() && date.day_number() == day && a == #[trigger] date_text(date);
    let y = choose|date: Date|
        date.valid() && date.day_number() == day && b == #[trigger] date_text(date);
    lemma_dates_are_ordered(x, y);
}

/// The lengths of the months, and the years that have a day more.
pub proof fn lemma_lengths_of_months(year: nat)
    ensures
        days_in_month(year, 1) == 31,
        days_in_month(year, 2) == if year % 400 == 0 || (year % 4 == 0 && year % 100 != 0) {
            29nat
        } else {
            28nat
        },
        days_in_month(year, 3) == 31,
        days_in_month(year, 4) == 30,
        days_in_month(year, 5) == 31,
        days_in_month(year, 6) == 30,
        days_in_month(year, 7) == 31,
        days_in_month(year, 8) == 31,
        days_in_month(year, 9) == 30,
        days_in_month(year, 10) == 31,
        days_in_month(year, 11) == 30,
        days_in_month(year, 12) == 31,
        days_in_year(year) == 337 + days_in_month(year, 2),
{
    assert(year % 400 == 0 ==> year % 4 == 0);
}

/// A date of the calendar has a month and a day that its year has.
pub proof fn lemma_dates_of_the_calendar(date: Date)
    ensures
        date.valid() <==> date.year >= 1970 && 1 <= date.month <= 12 && 1 <= date.day
            <= days_in_month(date.year as nat, date.month as nat),
{
}

/// Days, months and years follow one another without a gap.
pub proof fn lemma_no_day_is_left_out(year: u64, month: u64, day: u64)
    requires
        1970 <= year < u64::MAX,
        1 <= month < 12,
        1 <= day < u64::MAX,
    ensures
        (Date { year: 1970, month: 1, day: 1 }).day_number() == 0,
        (Date { year, month, day: (day + 1) as u64 }).day_number() == (Date {
            year,
            month,
            day,
        }).day_number() + 1,
        (Date { year, month: (month + 1) as u64, day }).day_number() == (Date {
            year,
            month,
            day,
        }).day_number() + days_in_month(year as nat, month as nat),
        (Date { year: (year + 1) as u64, month: 1, day }).day_number() == (Date {
            year,
            month: 1,
            day,
        }).day_number() + days_in_year(year as nat),
{
    lemma_month_step(year as nat, month as nat);
}

/// A date is written as its year, its month and its day, the last two with two digits each.
pub proof fn lemma_date_is_written_out(date: Date, secs: u64)
    requires
        date.valid(),
        date.day_number() == secs / 86_400,
    ensures
        is_date_at(date_text(date), secs),
        date_text(date) == decimal_text(date.year as nat) + "-"@ + seq![
            (48 + date.month / 10) as char,
            (48 + date.month % 10) as char,
        ] + "-"@ + seq![(48 + date.day / 10) as char, (48 + date.day % 10) as char],
{
}

/// The clock shows whole seconds since 1970, and none where it stands before.
pub proof fn lemma_seconds_of_the_clock(elapsed: nat)
    ensures
        clock_secs(Some(elapsed)) == elapsed / 1_000_000_000,
        clock_secs(None) == 0,
{
}

} // verus!
