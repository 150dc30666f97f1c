//! Static master data: holiday calendars and day-count conventions.
//!
//! Business-day logic works on the crate's own [`Date`] model. The
//! holiday tables are the simplified fixed-date sets of each financial
//! centre; weekend detection comes from the date's weekday index.

use vstd::prelude::*;

use crate::time::Date;
use crate::time::days_between;
use crate::time::spec_days_between;

verus! {

/// Calendar identifier.
#[derive(Debug, Clone, Copy, PartialEq, Eq, Hash, Structural)]
pub enum CalendarId {
    /// TARGET (the euro-area settlement calendar).
    Target,
    /// New York.
    NewYork,
    /// Tokyo.
    Tokyo,
    /// London.
    London,
    /// Weekends only (Saturday and Sunday).
    WeekendOnly,
}

/// The fixed TARGET holidays: New Year's Day, Labour Day, Christmas Day
/// and Boxing Day.
pub open spec fn spec_is_target_holiday(d: Date) -> bool {
    (d.month == 1 && d.day == 1) || (d.month == 5 && d.day == 1) || (d.month == 12 && d.day == 25)
        || (d.month == 12 && d.day == 26)
}

/// The fixed New York holidays: New Year's Day, Independence Day and
/// Christmas Day.
pub open spec fn spec_is_ny_holiday(d: Date) -> bool {
    (d.month == 1 && d.day == 1) || (d.month == 7 && d.day == 4) || (d.month == 12 && d.day == 25)
}

/// The fixed Tokyo holidays: New Year's Day and the two bank holidays
/// after it.
pub open spec fn spec_is_tokyo_holiday(d: Date) -> bool {
    (d.month == 1 && d.day == 1) || (d.month == 1 && d.day == 2) || (d.month == 1 && d.day == 3)
}

/// The fixed London holidays: New Year's Day, Christmas Day and Boxing
/// Day.
pub open spec fn spec_is_london_holiday(d: Date) -> bool {
    (d.month == 1 && d.day == 1) || (d.month == 12 && d.day == 25) || (d.month == 12 && d.day
        == 26)
}

/// Whether a date is a holiday of the given calendar, weekends aside.
pub open spec fn spec_is_holiday(id: CalendarId, d: Date) -> bool {
    match id {
        CalendarId::WeekendOnly => false,
        CalendarId::Target => spec_is_target_holiday(d),
        CalendarId::NewYork => spec_is_ny_holiday(d),
        CalendarId::Tokyo => spec_is_tokyo_holiday(d),
        CalendarId::London => spec_is_london_holiday(d),
    }
}

/// Whether a date is a business day of the given calendar: neither a
/// weekend nor one of its holidays.
pub open spec fn spec_is_business_day(id: CalendarId, d: Date) -> bool {
    !d.spec_is_weekend() && !spec_is_holiday(id, d)
}

/// The next date, or the date itself at the end of the supported range.
pub open spec fn spec_succ_or_self(d: Date) -> Date {
    match d.spec_succ() {
        Some(n) => n,
        None => d,
    }
}

/// The previous date, or the date itself at the start of the supported
/// range.
pub open spec fn spec_pred_or_self(d: Date) -> Date {
    match d.spec_pred() {
        Some(n) => n,
        None => d,
    }
}

/// The first business day reached from `d` by stepping forward, with at
/// most `fuel` steps; `d` itself when the fuel runs out first.
pub open spec fn spec_next_business_day(id: CalendarId, d: Date, fuel: nat) -> Date
    decreases fuel,
{
    if spec_is_business_day(id, d) || fuel == 0 {
        d
    } else {
        spec_next_business_day(id, spec_succ_or_self(d), (fuel - 1) as nat)
    }
}

/// The first business day reached from `d` by stepping backward, with at
/// most `fuel` steps; `d` itself when the fuel runs out first.
pub open spec fn spec_prev_business_day(id: CalendarId, d: Date, fuel: nat) -> Date
    decreases fuel,
{
    if spec_is_business_day(id, d) || fuel == 0 {
        d
    } else {
        spec_prev_business_day(id, spec_pred_or_self(d), (fuel - 1) as nat)
    }
}

/// The date reached by stepping one day at a time until `remaining`
/// business days have been crossed in the given direction, with at most
/// `fuel` steps in total.
pub open spec fn spec_add_business_days(
    id: CalendarId,
    d: Date,
    remaining: int,
    forward: bool,
    fuel: nat,
) -> Date
    decreases fuel,
{
    if remaining <= 0 || fuel == 0 {
        d
    } else {
        let n = if forward {
            spec_succ_or_self(d)
        } else {
            spec_pred_or_self(d)
        };
        let left = if spec_is_business_day(id, n) {
            remaining - 1
        } else {
            remaining
        };
        spec_add_business_days(id, n, left, forward, (fuel - 1) as nat)
    }
}

/// The bound on how far a business-day search will scan: ten years of
/// days, far beyond the longest real gap between business days.
pub open spec fn spec_scan_horizon() -> nat {
    3660
}

/// Holiday calendar for business-day calculations.
#[derive(Debug, Clone)]
pub struct Calendar {
    id: CalendarId,
}

impl Calendar {
    /// The calendar's identifier.
    pub closed spec fn spec_id(&self) -> CalendarId {
        self.id
    }

    /// Get a calendar by identifier.
    pub fn get(id: CalendarId) -> (r: Self)
        ensures
            r.spec_id() == id,
    {
        Calendar { id }
    }

    /// Whether a date is a business day: neither a weekend nor a holiday
    /// of this calendar.
    pub fn is_business_day(&self, date: Date) -> (r: bool)
        requires
            date.valid(),
        ensures
            r == spec_is_business_day(self.spec_id(), date),
    {
        if date.is_weekend() {
            return false;
        }
        !self.is_holiday(date)
    }

    /// Whether a date is a holiday of this calendar, weekends aside.
    pub fn is_holiday(&self, date: Date) -> (r: bool)
        requires
            date.valid(),
        ensures
            r == spec_is_holiday(self.spec_id(), date),
    {
        match self.id {
            CalendarId::WeekendOnly => false,
            CalendarId::Target => self.is_target_holiday(date),
            CalendarId::NewYork => self.is_ny_holiday(date),
            CalendarId::Tokyo => self.is_tokyo_holiday(date),
            CalendarId::London => self.is_london_holiday(date),
        }
    }

    /// The first business day on or after the given date, scanning at
    /// most the fixed horizon.
    pub fn next_business_day(&self, date: Date) -> (r: Date)
        requires
            date.valid(),
        ensures
            r == spec_next_business_day(self.spec_id(), date, spec_scan_horizon()),
            r.valid(),
    {
        let mut cur = date;
        let mut fuel: u64 = 3660;
        while fuel > 0 && !self.is_business_day(cur)
            invariant
                cur.valid(),
                fuel <= 3660,
                spec_next_business_day(self.spec_id(), date, spec_scan_horizon())
                    == spec_next_business_day(self.spec_id(), cur, fuel as nat),
            decreases fuel,
        {
            cur = match cur.succ_opt() {
                Some(n) => n,
                None => cur,
            };
            fuel = fuel - 1;
        }
        cur
    }

    /// The first business day on or before the given date, scanning at
    /// most the fixed horizon.
    pub fn prev_business_day(&self, date: Date) -> (r: Date)
        requires
            date.valid(),
        ensures
            r == spec_prev_business_day(self.spec_id(), date, spec_scan_horizon()),
            r.valid(),
    {
        let mut cur = date;
        let mut fuel: u64 = 3660;
        while fuel > 0 && !self.is_business_day(cur)
            invariant
                cur.valid(),
                fuel <= 3660,
                spec_prev_business_day(self.spec_id(), date, spec_scan_horizon())
                    == spec_prev_business_day(self.spec_id(), cur, fuel as nat),
            decreases fuel,
        {
            cur = match cur.pred_opt() {
                Some(n) => n,
                None => cur,
            };
            fuel = fuel - 1;
        }
        cur
    }

    /// The date lying the given number of business days away: forward for
    /// a positive count, backward for a negative one, scanning at most
    /// the fixed horizon per business day crossed.
    pub fn add_business_days(&self, date: Date, days: i32) -> (r: Date)
        requires
            date.valid(),
            days > i32::MIN,
        ensures
            r == spec_add_business_days(
                self.spec_id(),
                date,
                (if days >= 0 {
                    days as int
                } else {
                    -(days as int)
                }),
                days >= 0,
                (if days >= 0 {
                    days as int * spec_scan_horizon()
                } else {
                    -(days as int) * spec_scan_horizon()
                }) as nat,
            ),
            r.valid(),
    {
        let forward = days >= 0;
        let mut remaining: u32 = if days >= 0 {
            days as u32
        } else {
            (-days) as u32
        };
        let mut fuel: u64 = (remaining as u64) * 3660;
        let mut cur = date;
        while remaining > 0 && fuel > 0
            invariant
                cur.valid(),
                spec_add_business_days(
                    self.spec_id(),
                    date,
                    (if days >= 0 {
                        days as int
                    } else {
                        -(days as int)
                    }),
                    days >= 0,
                    ((if days >= 0 {
                        days as int
                    } else {
                        -(days as int)
                    }) * spec_scan_horizon()) as nat,
                ) == spec_add_business_days(
                    self.spec_id(),
                    cur,
                    remaining as int,
                    forward,
                    fuel as nat,
                ),
                forward == (days >= 0),
            decreases fuel,
        {
            cur = if forward {
                match cur.succ_opt() {
                    Some(n) => n,
                    None => cur,
                }
            } else {
                match cur.pred_opt() {
                    Some(n) => n,
                    None => cur,
                }
            };
            if self.is_business_day(cur) {
                remaining = remaining - 1;
            }
            fuel = fuel - 1;
        }
        cur
    }

    /// Whether the date is one of the fixed TARGET holidays.
    fn is_target_holiday(&self, date: Date) -> (r: bool)
        ensures
            r == spec_is_target_holiday(date),
    {
        (date.month == 1 && date.day == 1) || (date.month == 5 && date.day == 1) || (date.month
            == 12 && date.day == 25) || (date.month == 12 && date.day == 26)
    }

    /// Whether the date is one of the fixed New York holidays.
    fn is_ny_holiday(&self, date: Date) -> (r: bool)
        ensures
            r == spec_is_ny_holiday(date),
    {
        (date.month == 1 && date.day == 1) || (date.month == 7 && date.day == 4) || (date.month
            == 12 && date.day == 25)
    }

    /// Whether the date is one of the fixed Tokyo holidays.
    fn is_tokyo_holiday(&self, date: Date) -> (r: bool)
        ensures
            r == spec_is_tokyo_holiday(date),
    {
        date.month == 1 && (date.day == 1 || date.day == 2 || date.day == 3)
    }

    /// Whether the date is one of the fixed London holidays.
    fn is_london_holiday(&self, date: Date) -> (r: bool)
        ensures
            r == spec_is_london_holiday(date),
    {
        (date.month == 1 && date.day == 1) || (date.month == 12 && date.day == 25) || (date.month
            == 12 && date.day == 26)
    }
}

/// Day-count convention for interest calculations.
#[derive(Debug, Clone, Copy, PartialEq, Eq, Structural)]
pub enum DayCountConvention {
    /// Actual/360.
    Actual360,
    /// Actual/365 Fixed.
    Actual365Fixed,
    /// Actual/365.25.
    Actual36525,
    /// Actual/Actual (ISDA), simplified to an average year of 365.25
    /// days.
    ActualActualIsda,
    /// 30/360 bond basis.
    Thirty360Bond,
    /// 30/360 European.
    Thirty360European,
    /// 30E/360 ISDA.
    ThirtyE360Isda,
}

/// The 30/360 day count of a convention: the bond basis clips the second
/// month end only when the first was clipped, the European forms clip
/// both unconditionally.
pub open spec fn spec_master_thirty360_days(c: DayCountConvention, start: Date, end: Date) -> int {
    let d1 = start.day as int;
    let d2 = end.day as int;
    let clipped = match c {
        DayCountConvention::Thirty360Bond => {
            let a = if d1 > 30 {
                30
            } else {
                d1
            };
            let b = if a == 30 && d2 > 30 {
                30
            } else {
                d2
            };
            (a, b)
        },
        DayCountConvention::Thirty360European | DayCountConvention::ThirtyE360Isda => (
            if d1 > 30 {
                30
            } else {
                d1
            },
            if d2 > 30 {
                30
            } else {
                d2
            },
        ),
        _ => (d1, d2),
    };
    360 * (end.year as int - start.year as int) + 30 * (end.month as int - start.month as int) + (
    clipped.1 - clipped.0)
}

/// The exact integer fraction a convention assigns to a period; the
/// quarter-day conventions scale both sides by four to stay integral.
pub open spec fn spec_master_year_fraction_parts(
    c: DayCountConvention,
    start: Date,
    end: Date,
) -> (int, int) {
    match c {
        DayCountConvention::Actual360 => (spec_days_between(start, end), 360),
        DayCountConvention::Actual365Fixed => (spec_days_between(start, end), 365),
        DayCountConvention::Actual36525 => (4 * spec_days_between(start, end), 1461),
        DayCountConvention::ActualActualIsda => (4 * spec_days_between(start, end), 1461),
        _ => (spec_master_thirty360_days(c, start, end), 360),
    }
}

impl DayCountConvention {
    /// The year fraction between two dates, as the exact integer
    /// fraction `(numerator_days, denominator)`; dividing the two gives
    /// the conventional year fraction.
    pub fn year_fraction_parts(&self, start: Date, end: Date) -> (r: (i64, u64))
        requires
            start.valid(),
            end.valid(),
        ensures
            r.0 == spec_master_year_fraction_parts(*self, start, end).0,
            r.1 == spec_master_year_fraction_parts(*self, start, end).1,
    {
        proof {
            crate::time::lemma_day_number_range(start);
            crate::time::lemma_day_number_range(end);
        }
        match self {
            DayCountConvention::Actual360 => (days_between(start, end), 360),
            DayCountConvention::Actual365Fixed => (days_between(start, end), 365),
            DayCountConvention::Actual36525 => (4 * days_between(start, end), 1461),
            DayCountConvention::ActualActualIsda => (4 * days_between(start, end), 1461),
            _ => (self.thirty_360_days(start, end), 360),
        }
    }

    /// The 30/360 day count of this convention.
    fn thirty_360_days(&self, start: Date, end: Date) -> (r: i64)
        requires
            start.valid(),
            end.valid(),
        ensures
            r == spec_master_thirty360_days(*self, start, end),
    {
        let d1: i64 = start.day as i64;
        let d2: i64 = end.day as i64;
        let (d1_adj, d2_adj): (i64, i64) = match self {
            DayCountConvention::Thirty360Bond => {
                let a = if d1 > 30 {
                    30
                } else {
                    d1
                };
                let b = if a == 30 && d2 > 30 {
                    30
                } else {
                    d2
                };
                (a, b)
            },
            DayCountConvention::Thirty360European | DayCountConvention::ThirtyE360Isda => {
                let a = if d1 > 30 {
                    30
                } else {
                    d1
                };
                let b = if d2 > 30 {
                    30
                } else {
                    d2
                };
                (a, b)
            },
            _ => (d1, d2),
        };
        360 * (end.year as i64 - start.year as i64) + 30 * (end.month as i64
            - start.month as i64) + (d2_adj - d1_adj)
    }
}

impl Default for DayCountConvention {
    /// Actual/365 Fixed, the most common derivatives convention.
    fn default() -> (r: Self)
        ensures
            r == DayCountConvention::Actual365Fixed,
    {
        DayCountConvention::Actual365Fixed
    }
}

/// Errors that can occur when accessing master data.
#[derive(Debug, Clone, PartialEq, Eq)]
pub enum MasterDataError {
    /// Calendar not found.
    CalendarNotFound(String),
    /// Invalid date.
    InvalidDate(String),
    /// Invalid ISIN.
    InvalidIsin(String),
}

} // verus!
