//! A timestamp with the UTC offset that was in force when it was taken, and
//! its decomposition into calendar date and time of day.

use crate::calendar::{
    date_of, day_number, days_before_month, days_before_year, is_date, is_leap, lemma_cycles,
    lemma_date_of_day_number, lemma_month_step, lemma_year_step, lemma_zeller, month_length,
    month_name, weekday, year_length, DAYS_PER_CYCLE,
};
use crate::text::{decimal, decimal_string, pad_left, pad_zeros, padded};
use vstd::prelude::*;
use vstd::string::*;

verus! {

/// Seconds since the epoch, with the signed offset in seconds that turns UTC
/// into local time.
#[derive(Debug, Clone, Copy, PartialEq, Eq, Ord, Structural)]
pub struct Time {
    pub secs: u64,
    pub offset: i64,
}

/// `Mon DD HH:MM`: the month's name, the day of the month right-aligned in
/// two columns, and hour and minute in two digits each.
pub open spec fn clock_text(month: int, day: int, hour: int, minute: int) -> Seq<char> {
    month_name(month) + seq![' '] + padded(decimal(day as nat), 2, ' ') + seq![' '] + padded(
        decimal(hour as nat),
        2,
        '0',
    ) + seq![':'] + padded(decimal(minute as nat), 2, '0')
}

/// The three-letter name of a month, `???` for a month outside `1..=12`.
pub fn month_abbrev(month: u32) -> (name: &'static str)
    ensures
        name@ == month_name(month as int),
{
    proof {
        reveal_strlit("Jan");
        reveal_strlit("Feb");
        reveal_strlit("Mar");
        reveal_strlit("Apr");
        reveal_strlit("May");
        reveal_strlit("Jun");
        reveal_strlit("Jul");
        reveal_strlit("Aug");
        reveal_strlit("Sep");
        reveal_strlit("Oct");
        reveal_strlit("Nov");
        reveal_strlit("Dec");
        reveal_strlit("???");
    }
    let name = match month {
        1 => "Jan",
        2 => "Feb",
        3 => "Mar",
        4 => "Apr",
        5 => "May",
        6 => "Jun",
        7 => "Jul",
        8 => "Aug",
        9 => "Sep",
        10 => "Oct",
        11 => "Nov",
        12 => "Dec",
        _ => "???",
    };
    assert(name@ =~= month_name(month as int));
    name
}

impl Default for Time {
    /// The epoch itself, in UTC.
    fn default() -> (t: Time)
        ensures
            t.secs == 0,
            t.offset == 0,
    {
        Time { secs: 0, offset: 0 }
    }
}

impl Time {
    /// Seconds since the epoch on the local clock.
    pub open spec fn local_seconds(self) -> int {
        self.secs + self.offset
    }

    /// Whole days since 1970-01-01 on the local clock; negative before it.
    pub open spec fn day_index(self) -> int {
        self.local_seconds() / 86400
    }

    /// Seconds since local midnight, in `0..86400`.
    pub open spec fn second_of_day(self) -> int {
        self.local_seconds() % 86400
    }

    /// The timestamp of `secs` seconds since the epoch, taken where local
    /// time is `offset` seconds ahead of UTC.
    pub fn new(secs: u64, offset: i64) -> (t: Time)
        ensures
            t.secs == secs,
            t.offset == offset,
    {
        Time { secs, offset }
    }

    /// Whether `year` has a 29th of February.
    pub fn is_leap_year(year: i64) -> (leap: bool)
        ensures
            leap == is_leap(year as int),
    {
        (year % 4 == 0 && year % 100 != 0) || (year % 400 == 0)
    }

    /// Days of `year`: 366 in a leap year, else 365.
    pub fn get_days_in_year(year: i64) -> (days: i32)
        ensures
            days == year_length(year as int),
    {
        if Self::is_leap_year(year) {
            366
        } else {
            365
        }
    }

    /// Days of a month of `year`; 0 for a month outside `1..=12`.
    pub fn get_days_in_month(month: u32, year: i64) -> (days: i32)
        ensures
            days == month_length(month as int, year as int),
    {
        match month {
            1 | 3 | 5 | 7 | 8 | 10 | 12 => 31,
            4 | 6 | 9 | 11 => 30,
            2 => {
                if Self::is_leap_year(year) {
                    29
                } else {
                    28
                }
            },
            _ => 0,
        }
    }

    /// Seconds since the epoch, in UTC.
    pub fn secs(&self) -> (secs: u64)
        ensures
            secs == self.secs,
    {
        self.secs
    }

    fn local(&self) -> (local: i128)
        ensures
            local == self.local_seconds(),
    {
        self.secs as i128 + self.offset as i128
    }

    fn day(&self) -> (day: i64)
        ensures
            day == self.day_index(),
    {
        match self.local().checked_div_euclid(86400) {
            Some(day) => day as i64,
            None => 0,
        }
    }

    /// The local calendar date as `(year, month, day)`, month and day counted
    /// from 1.
    pub fn to_calendar_date(&self) -> (date: (i64, u32, u32))
        ensures
            is_date(date.0 as int, date.1 as int, date.2 as int),
            day_number(date.0 as int, date.1 as int, date.2 as int) == self.day_index(),
            (date.0 as int, date.1 as int, date.2 as int) == date_of(self.day_index()),
    {
        let day = self.day();
        let cycles: i64 = match day.checked_div_euclid(DAYS_PER_CYCLE) {
            Some(q) => q,
            None => 0,
        };
        let mut days: i64 = match day.checked_rem_euclid(DAYS_PER_CYCLE) {
            Some(r) => r,
            None => 0,
        };
        let first: i64 = 1970 + 400 * cycles;
        let mut year: i64 = first;
        proof {
            lemma_cycles(1970, cycles as int);
            lemma_year_step(1970);
        }
        let mut days_in_year = Self::get_days_in_year(year);
        while days >= days_in_year as i64
            invariant
                first == 1970 + 400 * cycles,
                -70000000000000 < cycles < 70000000000000,
                365 * (year - first) + days < 146097,
                first <= year,
                0 <= days,
                days_before_year(year as int) + days == day,
                days_in_year == year_length(year as int),
            decreases days,
        {
            proof {
                lemma_year_step(year as int);
            }
            days -= days_in_year as i64;
            year += 1;
            days_in_year = Self::get_days_in_year(year);
        }
        let mut month: u32 = 1;
        let mut days_in_month = Self::get_days_in_month(month, year);
        while days >= days_in_month as i64
            invariant
                1 <= month <= 12,
                0 <= days,
                days_before_month(month as int, year as int) + days < year_length(year as int),
                days_before_year(year as int) + days_before_month(month as int, year as int) + days
                    == day,
                days_in_month == month_length(month as int, year as int),
            decreases days,
        {
            proof {
                lemma_month_step(month as int, year as int);
            }
            days -= days_in_month as i64;
            month += 1;
            days_in_month = Self::get_days_in_month(month, year);
        }
        proof {
            lemma_date_of_day_number(year as int, month as int, days + 1);
        }
        (year, month, (days + 1) as u32)
    }

    /// Hour, minute and second on the local 24-hour clock.
    pub fn to_time_parts(&self) -> (parts: (u32, u32, u32))
        ensures
            parts.0 == self.second_of_day() / 3600,
            parts.1 == (self.second_of_day() % 3600) / 60,
            parts.2 == self.second_of_day() % 60,
    {
        let secs: u32 = match self.local().checked_rem_euclid(86400) {
            Some(secs) => secs as u32,
            None => 0,
        };
        let hours = secs / 3600;
        let minutes = (secs % 3600) / 60;
        let seconds = secs % 60;
        (hours, minutes, seconds)
    }

    /// The local day of the week, from Monday = 0 to Sunday = 6, by Zeller's
    /// congruence.
    pub fn get_day_of_week(&self) -> (day: u32)
        ensures
            day == weekday(self.day_index()),
    {
        let (year, month, day) = self.to_calendar_date();
        proof {
            lemma_zeller(year as int, month as int, day as int);
            lemma_year_step(year as int);
        }
        let (m, y): (i64, i64) = if month < 3 {
            (month as i64 + 12, year - 1)
        } else {
            (month as i64, year)
        };
        let k: i64 = match y.checked_rem_euclid(100) {
            Some(k) => k,
            None => 0,
        };
        let j: i64 = match y.checked_div_euclid(100) {
            Some(j) => j,
            None => 0,
        };
        let quarter: i64 = match j.checked_div_euclid(4) {
            Some(quarter) => quarter,
            None => 0,
        };
        let sum: i64 = day as i64 + (13 * (m + 1)) / 5 + k + k / 4 + quarter - 2 * j;
        let h: i64 = match sum.checked_rem_euclid(7) {
            Some(h) => h,
            None => 0,
        };
        ((h + 5) % 7) as u32
    }

    /// What `format` writes.
    pub open spec fn text(self) -> Seq<char> {
        clock_text(
            date_of(self.day_index()).1,
            date_of(self.day_index()).2,
            self.second_of_day() / 3600,
            (self.second_of_day() % 3600) / 60,
        )
    }

    /// Renders the local time as `Mon DD HH:MM`.
    pub fn format(&self) -> (text: String)
        ensures
            text@ == self.text(),
    {
        let (_year, month, day) = self.to_calendar_date();
        let (hours, minutes, _seconds) = self.to_time_parts();
        let day_text = pad_left(decimal_string(day as u64).as_str(), 2);
        let hour_text = pad_zeros(decimal_string(hours as u64).as_str(), 2);
        let minute_text = pad_zeros(decimal_string(minutes as u64).as_str(), 2);
        proof {
            reveal_strlit(" ");
            reveal_strlit(":");
        }
        let mut text = month_abbrev(month).to_owned();
        text.append(" ");
        text.append(day_text.as_str());
        text.append(" ");
        text.append(hour_text.as_str());
        text.append(":");
        text.append(minute_text.as_str());
        assert(text@ =~= self.text());
        text
    }
}

} // verus!
