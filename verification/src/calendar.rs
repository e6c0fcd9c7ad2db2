//! Proleptic Gregorian calendar arithmetic over day numbers counted from
//! 1970-01-01, which is day 0.

use vstd::prelude::*;

verus! {

/// Days in a full 400-year Gregorian cycle.
pub const DAYS_PER_CYCLE: i64 = 146097;

/// The Gregorian leap-year rule.
pub open spec fn is_leap(year: int) -> bool {
    (year % 4 == 0 && year % 100 != 0) || year % 400 == 0
}

pub open spec fn year_length(year: int) -> int {
    if is_leap(year) {
        366
    } else {
        365
    }
}

/// Length of a month; 0 for a month outside `1..=12`.
pub open spec fn month_length(month: int, year: int) -> int {
    if month == 2 {
        if is_leap(year) {
            29
        } else {
            28
        }
    } else if month == 4 || month == 6 || month == 9 || month == 11 {
        30
    } else if 1 <= month <= 12 {
        31
    } else {
        0
    }
}

/// Leap years among the years `1..year`, continued to all integers.
pub open spec fn leap_years_before(year: int) -> int {
    (year - 1) / 4 - (year - 1) / 100 + (year - 1) / 400
}

/// Day number of January 1st of `year`.
pub open spec fn days_before_year(year: int) -> int {
    365 * (year - 1970) + leap_years_before(year) - leap_years_before(1970)
}

/// Days of `year` that lie before the first of `month`.
pub open spec fn days_before_month(month: int, year: int) -> int {
    let common: int = if month <= 1 {
        0
    } else if month == 2 {
        31
    } else if month == 3 {
        59
    } else if month == 4 {
        90
    } else if month == 5 {
        120
    } else if month == 6 {
        151
    } else if month == 7 {
        181
    } else if month == 8 {
        212
    } else if month == 9 {
        243
    } else if month == 10 {
        273
    } else if month == 11 {
        304
    } else {
        334
    };
    if month > 2 && is_leap(year) {
        common + 1
    } else {
        common
    }
}

/// Three-letter English name of a month; `???` for a month outside `1..=12`.
pub open spec fn month_name(month: int) -> Seq<char> {
    if month == 1 {
        seq!['J', 'a', 'n']
    } else if month == 2 {
        seq!['F', 'e', 'b']
    } else if month == 3 {
        seq!['M', 'a', 'r']
    } else if month == 4 {
        seq!['A', 'p', 'r']
    } else if month == 5 {
        seq!['M', 'a', 'y']
    } else if month == 6 {
        seq!['J', 'u', 'n']
    } else if month == 7 {
        seq!['J', 'u', 'l']
    } else if month == 8 {
        seq!['A', 'u', 'g']
    } else if month == 9 {
        seq!['S', 'e', 'p']
    } else if month == 10 {
        seq!['O', 'c', 't']
    } else if month == 11 {
        seq!['N', 'o', 'v']
    } else if month == 12 {
        seq!['D', 'e', 'c']
    } else {
        seq!['?', '?', '?']
    }
}

/// `(year, month, day)` names a day of the calendar.
pub open spec fn is_date(year: int, month: int, day: int) -> bool {
    1 <= month <= 12 && 1 <= day <= month_length(month, year)
}

/// Days from 1970-01-01 to the given date; negative before 1970.
pub open spec fn day_number(year: int, month: int, day: int) -> int {
    days_before_year(year) + days_before_month(month, year) + day - 1
}

/// The date whose day number is `n`.
pub open spec fn date_of(n: int) -> (int, int, int) {
    choose|t: (int, int, int)| is_date(t.0, t.1, t.2) && day_number(t.0, t.1, t.2) == n
}

/// The first day of the next year follows the last day of this one, and
/// 1970 starts at day 0.
pub proof fn lemma_year_step(year: int)
    ensures
        days_before_year(year + 1) == days_before_year(year) + year_length(year),
        days_before_year(1970) == 0,
{
}

/// Four hundred years are always 146097 days.
pub proof fn lemma_one_cycle(year: int)
    ensures
        days_before_year(year + 400) == days_before_year(year) + 146097,
{
    let a = year - 1;
    assert((a + 400) / 4 == a / 4 + 100);
    assert((a + 400) / 100 == a / 100 + 4);
    assert((a + 400) / 400 == a / 400 + 1);
}

/// Any number of 400-year cycles, forward or backward, is as many times
/// 146097 days.
pub proof fn lemma_cycles(year: int, cycles: int)
    ensures
        days_before_year(year + 400 * cycles) == days_before_year(year) + 146097 * cycles,
    decreases
        if cycles >= 0 {
            cycles
        } else {
            -cycles
        },
{
    if cycles > 0 {
        lemma_cycles(year, cycles - 1);
        lemma_one_cycle(year + 400 * (cycles - 1));
    } else if cycles < 0 {
        lemma_cycles(year, cycles + 1);
        lemma_one_cycle(year + 400 * cycles);
    }
}

/// The months of a year follow each other without gap, and fill the year.
pub proof fn lemma_month_step(month: int, year: int)
    requires
        1 <= month <= 12,
    ensures
        days_before_month(1, year) == 0,
        month < 12 ==> days_before_month(month + 1, year) == days_before_month(month, year)
            + month_length(month, year),
        month == 12 ==> days_before_month(month, year) + month_length(month, year)
            == year_length(year),
{
}

/// A year ends before any later year starts.
pub proof fn lemma_years_ordered(earlier: int, later: int)
    requires
        earlier < later,
    ensures
        days_before_year(earlier) + year_length(earlier) <= days_before_year(later),
    decreases later - earlier,
{
    lemma_year_step(earlier);
    if earlier + 1 < later {
        lemma_years_ordered(earlier + 1, later);
    }
}

/// Two dates with the same day number are the same date.
pub proof fn lemma_day_number_injective(y1: int, m1: int, d1: int, y2: int, m2: int, d2: int)
    requires
        is_date(y1, m1, d1),
        is_date(y2, m2, d2),
        day_number(y1, m1, d1) == day_number(y2, m2, d2),
    ensures
        y1 == y2,
        m1 == m2,
        d1 == d2,
{
    lemma_month_step(m1, y1);
    lemma_month_step(m2, y2);
    if y1 < y2 {
        lemma_years_ordered(y1, y2);
    } else if y2 < y1 {
        lemma_years_ordered(y2, y1);
    }
}

/// The day after a date, and the day before it.
proof fn lemma_neighbours(year: int, month: int, day: int) -> (r: ((int, int, int), (int, int, int)))
    requires
        is_date(year, month, day),
    ensures
        is_date(r.0.0, r.0.1, r.0.2),
        day_number(r.0.0, r.0.1, r.0.2) == day_number(year, month, day) + 1,
        is_date(r.1.0, r.1.1, r.1.2),
        day_number(r.1.0, r.1.1, r.1.2) == day_number(year, month, day) - 1,
{
    lemma_month_step(month, year);
    lemma_year_step(year);
    lemma_year_step(year - 1);
    let next = if day < month_length(month, year) {
        (year, month, day + 1)
    } else if month < 12 {
        (year, month + 1, 1int)
    } else {
        (year + 1, 1int, 1int)
    };
    let previous = if day > 1 {
        (year, month, day - 1)
    } else if month > 1 {
        lemma_month_step(month - 1, year);
        (year, month - 1, month_length(month - 1, year))
    } else {
        lemma_month_step(12, year - 1);
        (year - 1, 12int, 31int)
    };
    (next, previous)
}

proof fn lemma_some_date(n: int) -> (t: (int, int, int))
    ensures
        is_date(t.0, t.1, t.2),
        day_number(t.0, t.1, t.2) == n,
    decreases
        if n >= 0 {
            n
        } else {
            -n
        },
{
    if n == 0 {
        (1970, 1, 1)
    } else if n > 0 {
        let t = lemma_some_date(n - 1);
        lemma_neighbours(t.0, t.1, t.2).0
    } else {
        let t = lemma_some_date(n + 1);
        lemma_neighbours(t.0, t.1, t.2).1
    }
}

/// Every day number belongs to a date: `date_of` inverts `day_number`.
pub proof fn lemma_date_of(n: int)
    ensures
        is_date(date_of(n).0, date_of(n).1, date_of(n).2),
        day_number(date_of(n).0, date_of(n).1, date_of(n).2) == n,
{
    let t = lemma_some_date(n);
    assert(is_date(t.0, t.1, t.2) && day_number(t.0, t.1, t.2) == n);
}

/// A date is found again from its day number.
pub proof fn lemma_date_of_day_number(year: int, month: int, day: int)
    requires
        is_date(year, month, day),
    ensures
        date_of(day_number(year, month, day)) == (year, month, day),
{
    let t = date_of(day_number(year, month, day));
    lemma_date_of(day_number(year, month, day));
    lemma_day_number_injective(t.0, t.1, t.2, year, month, day);
}

/// Day of the week of a day number, from Monday = 0 to Sunday = 6.
/// Day 0, 1970-01-01, was a Thursday.
pub open spec fn weekday(n: int) -> int {
    (n + 3) % 7
}

/// Zeller's congruence, shifted so that Monday is 0: January and February
/// count as months 13 and 14 of the year before.
pub open spec fn zeller(year: int, month: int, day: int) -> int {
    let m = if month < 3 {
        month + 12
    } else {
        month
    };
    let y = if month < 3 {
        year - 1
    } else {
        year
    };
    let k = y % 100;
    let j = y / 100;
    let h = (day + (13 * (m + 1)) / 5 + k + k / 4 + j / 4 - 2 * j) % 7;
    (h + 5) % 7
}

/// Days from the first of March to the first of `month`, where months 13
/// and 14 are January and February of the next year.
spec fn days_since_march(month: int) -> int {
    if month <= 3 {
        0
    } else if month == 4 {
        31
    } else if month == 5 {
        61
    } else if month == 6 {
        92
    } else if month == 7 {
        122
    } else if month == 8 {
        153
    } else if month == 9 {
        184
    } else if month == 10 {
        214
    } else if month == 11 {
        245
    } else if month == 12 {
        275
    } else if month == 13 {
        306
    } else {
        337
    }
}

/// Day number of the first of March of `year`.
spec fn first_of_march(year: int) -> int {
    365 * (year - 1970) + year / 4 - year / 100 + year / 400 - 418
}

proof fn lemma_first_of_march(year: int)
    ensures
        day_number(year, 3, 1) == first_of_march(year),
        day_number(year + 1, 1, 1) == first_of_march(year) + 306,
{
    lemma_year_step(year);
    lemma_month_step(12, year);
}

/// A date counted from the first of March of its Zeller year.
proof fn lemma_since_march(year: int, month: int, day: int)
    requires
        is_date(year, month, day),
    ensures
        month >= 3 ==> day_number(year, month, day) == first_of_march(year) + days_since_march(
            month,
        ) + day - 1,
        month < 3 ==> day_number(year, month, day) == first_of_march(year - 1) + days_since_march(
            month + 12,
        ) + day - 1,
{
    lemma_first_of_march(year);
    lemma_first_of_march(year - 1);
}

/// Zeller's month term moves the weekday as the days since March do.
proof fn lemma_month_term(month: int)
    requires
        3 <= month <= 14,
    ensures
        (days_since_march(month) - ((13 * (month + 1)) / 5 - 10)) % 7 == 0,
{
}

/// Quotients of a year by 4 and by 400, from its century and year of century.
proof fn lemma_century_split(year: int)
    ensures
        year / 4 == 25 * (year / 100) + (year % 100) / 4,
        year / 400 == (year / 100) / 4,
{
}

proof fn lemma_congruent(j: int, k: int, kq: int, jq: int, since: int, term: int, day: int)
    requires
        (since - (term - 10)) % 7 == 0,
    ensures
        ((day + term + k + kq + jq - 2 * j) % 7 + 5) % 7 == (36524 * j + 365 * k + kq + jq + since
            + day - 719466) % 7,
{
}

/// Zeller's congruence gives the weekday of every date.
pub proof fn lemma_zeller(year: int, month: int, day: int)
    requires
        is_date(year, month, day),
    ensures
        zeller(year, month, day) == weekday(day_number(year, month, day)),
{
    let m = if month < 3 {
        month + 12
    } else {
        month
    };
    let y = if month < 3 {
        year - 1
    } else {
        year
    };
    let k = y % 100;
    let j = y / 100;
    lemma_since_march(year, month, day);
    lemma_month_term(m);
    lemma_century_split(y);
    lemma_congruent(j, k, k / 4, j / 4, days_since_march(m), (13 * (m + 1)) / 5, day);
}

} // verus!
