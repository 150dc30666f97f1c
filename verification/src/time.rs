//! Date arithmetic and day-count conventions for financial calculations.
//!
//! Dates are plain `(year, month, day)` triples in the proleptic
//! Gregorian calendar, restricted to the years 1 through 9999. A date's
//! day number — its offset from the reference point of the civil-calendar
//! conversion algorithm — drives day counting and weekday computation.
//! Day-count conventions answer with an exact integer fraction
//! `(numerator, denominator)`; turning that into a floating-point year
//! fraction is one division that stays with the caller.

use vstd::prelude::*;

verus! {

/// Whether a year is a Gregorian leap year.
pub open spec fn spec_is_leap(y: int) -> bool {
    (y % 4 == 0 && y % 100 != 0) || y % 400 == 0
}

/// The number of days in a month of a given year.
pub open spec fn spec_days_in_month(y: int, m: int) -> int {
    if m == 2 {
        if spec_is_leap(y) {
            29
        } else {
            28
        }
    } else if m == 4 || m == 6 || m == 9 || m == 11 {
        30
    } else {
        31
    }
}

/// Whether a `(year, month, day)` triple is a supported calendar date.
pub open spec fn spec_valid_ymd(y: int, m: int, d: int) -> bool {
    1 <= y <= 9999 && 1 <= m <= 12 && 1 <= d <= spec_days_in_month(y, m)
}

/// A calendar date in the proleptic Gregorian calendar, within the years
/// 1 through 9999.
#[derive(Debug, Clone, Copy, PartialEq, Eq, Structural)]
pub struct Date {
    /// Year, 1 through 9999.
    pub year: i32,
    /// Month, 1 through 12.
    pub month: u32,
    /// Day of month, 1 through the month's length.
    pub day: u32,
}

/// Whether a year is a Gregorian leap year.
pub fn is_leap_year(year: i32) -> (r: bool)
    requires
        year >= 0,
    ensures
        r == spec_is_leap(year as int),
{
    (year % 4 == 0 && year % 100 != 0) || year % 400 == 0
}

/// The number of days in a month of a given year.
pub fn days_in_month(year: i32, month: u32) -> (r: u32)
    requires
        year >= 0,
    ensures
        r == spec_days_in_month(year as int, month as int),
{
    if month == 2 {
        if is_leap_year(year) {
            29
        } else {
            28
        }
    } else if month == 4 || month == 6 || month == 9 || month == 11 {
        30
    } else {
        31
    }
}

impl Date {
    /// Whether this date lies in the supported range with a real
    /// month/day combination.
    pub open spec fn valid(&self) -> bool {
        spec_valid_ymd(self.year as int, self.month as int, self.day as int)
    }

    /// The date's day number: its offset from the reference point of the
    /// civil-calendar conversion (1 March of year zero), computed from
    /// the shifted year's era and day-of-era.
    pub open spec fn spec_day_number(&self) -> int {
        let y = if self.month as int <= 2 {
            self.year as int - 1
        } else {
            self.year as int
        };
        let era = y / 400;
        let yoe = y - era * 400;
        let mp = if self.month as int > 2 {
            self.month as int - 3
        } else {
            self.month as int + 9
        };
        let doy = (153 * mp + 2) / 5 + self.day as int - 1;
        let doe = yoe * 365 + yoe / 4 - yoe / 100 + doy;
        era * 146097 + doe
    }

    /// The day of the week as an index with Monday zero through Sunday
    /// six.
    pub open spec fn spec_weekday(&self) -> int {
        (self.spec_day_number() + 2) % 7
    }

    /// Whether the date falls on a Saturday or Sunday.
    pub open spec fn spec_is_weekend(&self) -> bool {
        self.spec_weekday() >= 5
    }

    /// The date ordering: by year, then month, then day.
    pub open spec fn spec_le(&self, other: &Date) -> bool {
        if self.year != other.year {
            self.year < other.year
        } else if self.month != other.month {
            self.month < other.month
        } else {
            self.day <= other.day
        }
    }

    /// The calendar successor, staying inside the supported range.
    pub open spec fn spec_succ(&self) -> Option<Date> {
        if (self.day as int) < spec_days_in_month(self.year as int, self.month as int) {
            Some(Date { year: self.year, month: self.month, day: (self.day + 1) as u32 })
        } else if self.month < 12 {
            Some(Date { year: self.year, month: (self.month + 1) as u32, day: 1 })
        } else if self.year < 9999 {
            Some(Date { year: (self.year + 1) as i32, month: 1, day: 1 })
        } else {
            None
        }
    }

    /// The calendar predecessor, staying inside the supported range.
    pub open spec fn spec_pred(&self) -> Option<Date> {
        if self.day > 1 {
            Some(Date { year: self.year, month: self.month, day: (self.day - 1) as u32 })
        } else if self.month > 1 {
            Some(
                Date {
                    year: self.year,
                    month: (self.month - 1) as u32,
                    day: spec_days_in_month(self.year as int, self.month as int - 1) as u32,
                },
            )
        } else if self.year > 1 {
            Some(Date { year: (self.year - 1) as i32, month: 12, day: 31 })
        } else {
            None
        }
    }

    /// Build a date from its year, month and day, or nothing when the
    /// triple is not a supported calendar date.
    pub fn from_ymd_opt(year: i32, month: u32, day: u32) -> (r: Option<Date>)
        ensures
            r is Some <==> spec_valid_ymd(year as int, month as int, day as int),
            r is Some ==> r->0 == (Date { year, month, day }),
            r is Some ==> r->0.valid(),
    {
        if 1 <= year && year <= 9999 && 1 <= month && month <= 12 && 1 <= day && day
            <= days_in_month(year, month) {
            Some(Date { year, month, day })
        } else {
            None
        }
    }

    /// The date's day number.
    pub fn day_number(&self) -> (r: i64)
        requires
            self.valid(),
        ensures
            r == self.spec_day_number(),
    {
        let y: i64 = if self.month <= 2 {
            self.year as i64 - 1
        } else {
            self.year as i64
        };
        let era: i64 = y / 400;
        let yoe: i64 = y - era * 400;
        let mp: i64 = if self.month > 2 {
            self.month as i64 - 3
        } else {
            self.month as i64 + 9
        };
        let doy: i64 = (153 * mp + 2) / 5 + self.day as i64 - 1;
        let doe: i64 = yoe * 365 + yoe / 4 - yoe / 100 + doy;
        era * 146097 + doe
    }

    /// The day of the week as an index with Monday zero through Sunday
    /// six.
    pub fn weekday(&self) -> (r: u32)
        requires
            self.valid(),
        ensures
            r == self.spec_weekday(),
            r < 7,
    {
        let dn = self.day_number();
        ((dn + 2) % 7) as u32
    }

    /// Whether the date falls on a Saturday or Sunday.
    pub fn is_weekend(&self) -> (r: bool)
        requires
            self.valid(),
        ensures
            r == self.spec_is_weekend(),
    {
        self.weekday() >= 5
    }

    /// Whether this date is at or before the other, by year, month and
    /// day.
    pub fn le(&self, other: &Date) -> (r: bool)
        ensures
            r == self.spec_le(other),
    {
        if self.year != other.year {
            self.year < other.year
        } else if self.month != other.month {
            self.month < other.month
        } else {
            self.day <= other.day
        }
    }

    /// The next calendar date, or nothing at the end of the supported
    /// range.
    pub fn succ_opt(&self) -> (r: Option<Date>)
        requires
            self.valid(),
        ensures
            r == self.spec_succ(),
            r is Some ==> r->0.valid(),
    {
        if self.day < days_in_month(self.year, self.month) {
            Some(Date { year: self.year, month: self.month, day: self.day + 1 })
        } else if self.month < 12 {
            Some(Date { year: self.year, month: self.month + 1, day: 1 })
        } else if self.year < 9999 {
            Some(Date { year: self.year + 1, month: 1, day: 1 })
        } else {
            None
        }
    }

    /// The previous calendar date, or nothing at the start of the
    /// supported range.
    pub fn pred_opt(&self) -> (r: Option<Date>)
        requires
            self.valid(),
        ensures
            r == self.spec_pred(),
            r is Some ==> r->0.valid(),
    {
        if self.day > 1 {
            Some(Date { year: self.year, month: self.month, day: self.day - 1 })
        } else if self.month > 1 {
            Some(
                Date {
                    year: self.year,
                    month: self.month - 1,
                    day: days_in_month(self.year, self.month - 1),
                },
            )
        } else if self.year > 1 {
            Some(Date { year: self.year - 1, month: 12, day: 31 })
        } else {
            None
        }
    }
}

/// The number of actual days from `start` to `end`.
pub open spec fn spec_days_between(start: Date, end: Date) -> int {
    end.spec_day_number() - start.spec_day_number()
}

/// The number of actual days from `start` to `end`.
pub fn days_between(start: Date, end: Date) -> (r: i64)
    requires
        start.valid(),
        end.valid(),
    ensures
        r == spec_days_between(start, end),
{
    let a = start.day_number();
    let b = end.day_number();
    proof {
        lemma_day_number_range(start);
        lemma_day_number_range(end);
    }
    b - a
}

/// A valid date's day number stays within the narrow range its bounded
/// year implies.
pub proof fn lemma_day_number_range(d: Date)
    requires
        d.valid(),
    ensures
        0 <= d.spec_day_number() < 4000000,
{
}

/// Day-count convention for interest and maturity calculations.
#[derive(Debug, Clone, Copy, PartialEq, Eq, Structural)]
pub enum DayCountConvention {
    /// Actual/365 Fixed: actual days over 365.
    ActualActual365,
    /// Actual/360: actual days over 360.
    ActualActual360,
    /// 30/360 US bond basis: each month counts 30 days and the year 360.
    Thirty360,
}

/// The 30/360 US bond-basis day count: month ends are clipped to day 30,
/// the second only when the first was clipped.
pub open spec fn spec_thirty360_days(start: Date, end: Date) -> int {
    let d1 = if start.day as int == 31 {
        30
    } else {
        start.day as int
    };
    let d2 = if end.day as int == 31 && d1 == 30 {
        30
    } else {
        end.day as int
    };
    360 * (end.year as int - start.year as int) + 30 * (end.month as int - start.month as int) + (
    d2 - d1)
}

/// The exact integer fraction a convention assigns to a period: the
/// numerator in days and the denominator in days per year.
pub open spec fn spec_year_fraction_parts(c: DayCountConvention, start: Date, end: Date) -> (
    int,
    int,
) {
    match c {
        DayCountConvention::ActualActual365 => (spec_days_between(start, end), 365),
        DayCountConvention::ActualActual360 => (spec_days_between(start, end), 360),
        DayCountConvention::Thirty360 => (spec_thirty360_days(start, end), 360),
    }
}

impl DayCountConvention {
    /// The year fraction between two ordered dates, as the exact integer
    /// fraction `(numerator_days, denominator)`; dividing the two gives
    /// the conventional year fraction.
    pub fn year_fraction_parts(&self, start: Date, end: Date) -> (r: (i64, u64))
        requires
            start.valid(),
            end.valid(),
            start.spec_le(&end),
        ensures
            r.0 == spec_year_fraction_parts(*self, start, end).0,
            r.1 == spec_year_fraction_parts(*self, start, end).1,
    {
        match self {
            DayCountConvention::ActualActual365 => (days_between(start, end), 365),
            DayCountConvention::ActualActual360 => (days_between(start, end), 360),
            DayCountConvention::Thirty360 => (Self::thirty_360_days(start, end), 360),
        }
    }

    /// The 30/360 US bond-basis day count.
    fn thirty_360_days(start: Date, end: Date) -> (r: i64)
        requires
            start.valid(),
            end.valid(),
        ensures
            r == spec_thirty360_days(start, end),
    {
        let d1_adj: i64 = if start.day == 31 {
            30
        } else {
            start.day as i64
        };
        let d2_adj: i64 = if end.day == 31 && d1_adj == 30 {
            30
        } else {
            end.day as i64
        };
        360 * (end.year as i64 - start.year as i64) + 30 * (end.month as i64
            - start.month as i64) + (d2_adj - d1_adj)
    }
}

/// Time to maturity under the default Actual/365 convention, as the exact
/// fraction `(days, 365)`; dividing the two gives the maturity in years.
pub fn time_to_maturity_parts(start: Date, end: Date) -> (r: (i64, u64))
    requires
        start.valid(),
        end.valid(),
        start.spec_le(&end),
    ensures
        r.0 == spec_days_between(start, end),
        r.1 == 365,
{
    DayCountConvention::ActualActual365.year_fraction_parts(start, end)
}

} // verus!
