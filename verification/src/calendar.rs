//! Calendar days in the proleptic Gregorian calendar, over the years the
//! server's date type represents.
use vstd::prelude::*;

verus! {

/// First representable year.
pub const MIN_YEAR: i32 = -262_143;

/// Last representable year.
pub const MAX_YEAR: i32 = 262_142;

pub open spec fn is_leap_year(year: int) -> bool {
    (year % 4 == 0 && year % 100 != 0) || year % 400 == 0
}

/// Days in `month` (1 to 12) of `year`.
pub open spec fn days_in_month(year: int, month: int) -> int {
    if month == 2 {
        if is_leap_year(year) { 29 } else { 28 }
    } else if month == 4 || month == 6 || month == 9 || month == 11 {
        30
    } else {
        31
    }
}

/// Whether year, month and day name a representable calendar day.
pub open spec fn is_calendar_day(year: int, month: int, day: int) -> bool {
    &&& MIN_YEAR <= year <= MAX_YEAR
    &&& 1 <= month <= 12
    &&& 1 <= day <= days_in_month(year, month)
}

/// One calendar day.
#[derive(Debug, Clone, Copy, PartialEq, Eq, Structural)]
pub struct Day {
    pub year: i32,
    pub month: u32,
    pub day: u32,
}

impl Day {
    pub open spec fn valid(self) -> bool {
        is_calendar_day(self.year as int, self.month as int, self.day as int)
    }

    /// The day after, if it is representable.
    pub open spec fn successor(self) -> Option<Day> {
        if (self.day as int) < days_in_month(self.year as int, self.month as int) {
            Some(Day { year: self.year, month: self.month, day: (self.day + 1) as u32 })
        } else if self.month < 12 {
            Some(Day { year: self.year, month: (self.month + 1) as u32, day: 1 })
        } else if self.year < MAX_YEAR {
            Some(Day { year: (self.year + 1) as i32, month: 1, day: 1 })
        } else {
            None
        }
    }

    /// Whether `self` comes before `other`.
    pub open spec fn before(self, other: Day) -> bool {
        self.year < other.year || (self.year == other.year && (self.month < other.month || (
        self.month == other.month && self.day < other.day)))
    }

    /// The day with this year, month and day, if there is one.
    pub fn from_ymd(year: i32, month: u32, day: u32) -> (found: Option<Day>)
        ensures
            match found {
                Some(d) => d.valid() && d.year == year && d.month == month && d.day == day,
                None => !is_calendar_day(year as int, month as int, day as int),
            },
    {
        if year < MIN_YEAR || year > MAX_YEAR || month < 1 || month > 12 || day < 1 {
            return None;
        }
        if day > month_length(year, month) {
            return None;
        }
        Some(Day { year, month, day })
    }

    /// The day after `self`.
    pub fn next(&self) -> (next: Option<Day>)
        requires
            self.valid(),
        ensures
            next == self.successor(),
            next matches Some(n) ==> n.valid() && self.before(n),
    {
        if self.day < month_length(self.year, self.month) {
            Some(Day { year: self.year, month: self.month, day: self.day + 1 })
        } else if self.month < 12 {
            Some(Day { year: self.year, month: self.month + 1, day: 1 })
        } else if self.year < MAX_YEAR {
            Some(Day { year: self.year + 1, month: 1, day: 1 })
        } else {
            None
        }
    }

    /// Whether `self` comes before `other`.
    pub fn is_before(&self, other: &Day) -> (earlier: bool)
        ensures
            earlier == self.before(*other),
    {
        self.year < other.year || (self.year == other.year && (self.month < other.month || (
        self.month == other.month && self.day < other.day)))
    }
}

fn leap(year: i32) -> (is: bool)
    ensures
        is == is_leap_year(year as int),
{
    (year % 4 == 0 && year % 100 != 0) || year % 400 == 0
}

fn month_length(year: i32, month: u32) -> (length: u32)
    requires
        1 <= month <= 12,
    ensures
        length == days_in_month(year as int, month as int),
{
    if month == 2 {
        if leap(year) {
            29
        } else {
            28
        }
    } else if month == 4 || month == 6 || month == 9 || month == 11 {
        30
    } else {
        31
    }
}

} // verus!
