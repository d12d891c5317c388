use vstd::prelude::*;

verus! {

/// A calendar date in the proleptic Gregorian calendar.
/// Years are limited to four digits (0 through 9999).
#[derive(Clone, Copy, PartialEq, Eq, Structural, Debug)]
pub struct Date {
    pub year: u32,
    pub month: u32,
    pub day: u32,
}

/// A calendar date with a time of day, to the second.
#[derive(Clone, Copy, PartialEq, Eq, Structural, Debug)]
pub struct DateTime {
    pub year: u32,
    pub month: u32,
    pub day: u32,
    pub hour: u32,
    pub minute: u32,
    pub second: u32,
}

/// True for years with 366 days in the proleptic Gregorian calendar.
pub open spec fn spec_is_leap_year(y: int) -> bool {
    (y % 4 == 0 && y % 100 != 0) || y % 400 == 0
}

/// Days in month `m` of year `y`, for `1 <= m <= 12`.
pub open spec fn spec_days_in_month(y: int, m: int) -> int {
    if m == 2 {
        if spec_is_leap_year(y) {
            29
        } else {
            28
        }
    } else if m == 4 || m == 6 || m == 9 || m == 11 {
        30
    } else {
        31
    }
}

/// Days in the months of year `y` strictly before month `m`.
pub open spec fn spec_days_before_month(y: int, m: int) -> int {
    let leap: int = if spec_is_leap_year(y) {
        1
    } else {
        0
    };
    if m <= 1 {
        0
    } else if m == 2 {
        31
    } else if m == 3 {
        59 + leap
    } else if m == 4 {
        90 + leap
    } else if m == 5 {
        120 + leap
    } else if m == 6 {
        151 + leap
    } else if m == 7 {
        181 + leap
    } else if m == 8 {
        212 + leap
    } else if m == 9 {
        243 + leap
    } else if m == 10 {
        273 + leap
    } else if m == 11 {
        304 + leap
    } else {
        334 + leap
    }
}

/// Leap years strictly before year `y`, for `y >= 0`
/// (year 0 itself is a leap year).
pub open spec fn spec_leap_years_before(y: int) -> int {
    (y + 3) / 4 - (y + 99) / 100 + (y + 399) / 400
}

/// Days in the years strictly before year `y`.
pub open spec fn spec_days_before_year(y: int) -> int {
    365 * y + spec_leap_years_before(y)
}

impl Date {
    /// A real calendar date with a four-digit year.
    pub open spec fn wf(self) -> bool {
        self.year <= 9999 && 1 <= self.month <= 12 && 1 <= self.day <= spec_days_in_month(
            self.year as int,
            self.month as int,
        )
    }

    /// Days elapsed from the calendar's first day (year 0, January 1)
    /// to this date.
    pub open spec fn spec_index(self) -> int {
        spec_days_before_year(self.year as int) + spec_days_before_month(
            self.year as int,
            self.month as int,
        ) + (self.day - 1)
    }

    /// The calendar date one day after this one.
    pub open spec fn spec_next(self) -> Date {
        if self.day < spec_days_in_month(self.year as int, self.month as int) {
            Date { year: self.year, month: self.month, day: (self.day + 1) as u32 }
        } else if self.month < 12 {
            Date { year: self.year, month: (self.month + 1) as u32, day: 1 }
        } else {
            Date { year: (self.year + 1) as u32, month: 1, day: 1 }
        }
    }
}

impl DateTime {
    /// The date part.
    pub open spec fn spec_date(self) -> Date {
        Date { year: self.year, month: self.month, day: self.day }
    }

    /// Seconds elapsed since midnight.
    pub open spec fn spec_time_of_day(self) -> int {
        3600 * self.hour + 60 * self.minute + self.second
    }

    /// A real calendar date with an in-range time of day.
    pub open spec fn wf(self) -> bool {
        self.spec_date().wf() && self.hour <= 23 && self.minute <= 59 && self.second <= 59
    }

    /// Seconds elapsed from the calendar's first instant
    /// (year 0, January 1, midnight) to this instant.
    pub open spec fn spec_seconds(self) -> int {
        86400 * self.spec_date().spec_index() + self.spec_time_of_day()
    }
}

/// Whether `y` is a leap year.
pub fn is_leap_year(y: u32) -> (r: bool)
    ensures
        r == spec_is_leap_year(y as int),
{
    (y % 4 == 0 && y % 100 != 0) || y % 400 == 0
}

/// Days in month `m` of year `y`.
pub fn days_in_month(y: u32, m: u32) -> (r: u32)
    requires
        1 <= m <= 12,
    ensures
        r == spec_days_in_month(y as int, m as int),
{
    if m == 2 {
        if is_leap_year(y) {
            29
        } else {
            28
        }
    } else if m == 4 || m == 6 || m == 9 || m == 11 {
        30
    } else {
        31
    }
}

impl Date {
    /// Days elapsed from year 0, January 1 to this date.
    pub fn index(&self) -> (r: u32)
        requires
            self.wf(),
        ensures
            r == self.spec_index(),
    {
        let y = self.year;
        let leaps = (y + 3) / 4 + (y + 399) / 400 - (y + 99) / 100;
        let before_month = if self.month == 1 {
            0
        } else {
            let leap: u32 = if is_leap_year(y) {
                1
            } else {
                0
            };
            match self.month {
                2 => 31,
                3 => 59 + leap,
                4 => 90 + leap,
                5 => 120 + leap,
                6 => 151 + leap,
                7 => 181 + leap,
                8 => 212 + leap,
                9 => 243 + leap,
                10 => 273 + leap,
                11 => 304 + leap,
                _ => 334 + leap,
            }
        };
        365 * y + leaps + before_month + (self.day - 1)
    }

    /// The calendar date one day after this one. The result is a real
    /// calendar date whenever this date is not the calendar's last day.
    pub fn next_day(&self) -> (r: Date)
        requires
            self.wf(),
        ensures
            r == self.spec_next(),
            !(self.year == 9999 && self.month == 12 && self.day == 31) ==> r.wf(),
    {
        if self.day < days_in_month(self.year, self.month) {
            Date { year: self.year, month: self.month, day: self.day + 1 }
        } else if self.month < 12 {
            Date { year: self.year, month: self.month + 1, day: 1 }
        } else {
            Date { year: self.year + 1, month: 1, day: 1 }
        }
    }
}

impl Date {
    /// Whether this is a real calendar date with a four-digit year.
    pub fn is_well_formed(&self) -> (r: bool)
        ensures
            r == self.wf(),
    {
        self.year <= 9999 && 1 <= self.month && self.month <= 12 && 1 <= self.day && self.day
            <= days_in_month(self.year, self.month)
    }
}

impl DateTime {
    /// Whether this is a real calendar date with an in-range time of day.
    pub fn is_well_formed(&self) -> (r: bool)
        ensures
            r == self.wf(),
    {
        self.date().is_well_formed() && self.hour <= 23 && self.minute <= 59 && self.second <= 59
    }

    /// The date part.
    pub fn date(&self) -> (r: Date)
        ensures
            r == self.spec_date(),
    {
        Date { year: self.year, month: self.month, day: self.day }
    }

    /// Seconds elapsed from year 0, January 1, midnight to this instant.
    pub fn seconds(&self) -> (r: u64)
        requires
            self.wf(),
        ensures
            r == self.spec_seconds(),
    {
        let idx = self.date().index() as u64;
        86400 * idx + 3600 * (self.hour as u64) + 60 * (self.minute as u64) + (self.second as u64)
    }
}

/// Stepping to the next calendar day advances the day index by
/// exactly one: the index counts real days.
pub proof fn lemma_next_index(d: Date)
    requires
        d.wf(),
    ensures
        d.spec_next().spec_index() == d.spec_index() + 1,
{
    if d.day < spec_days_in_month(d.year as int, d.month as int) {
    } else if d.month < 12 {
    } else {
        let y = d.year as int;
        assert((y + 4) / 4 == (y + 3) / 4 + (if y % 4 == 0 { 1int } else { 0 })) by (nonlinear_arith);
        assert((y + 100) / 100 == (y + 99) / 100 + (if y % 100 == 0 { 1int } else { 0 }))
            by (nonlinear_arith);
        assert((y + 400) / 400 == (y + 399) / 400 + (if y % 400 == 0 { 1int } else { 0 }))
            by (nonlinear_arith);
    }
}

} // verus!
