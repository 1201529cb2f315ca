//! The calendar model: a minute-resolution instant made of plain year, month,
//! day, hour and minute values, with leap-year-aware month lengths, weekday
//! computation and the minute successor used by the schedule iterator.

use vstd::prelude::*;

verus! {

/// Highest year the calendar model represents. The successor of the last
/// minute of this year is not representable, so the schedule iterator stops
/// scanning there.
pub const YEAR_MAX: u32 = 99999;

/// Whether `year` is a leap year in the Gregorian calendar.
pub open spec fn is_leap_year(year: int) -> bool {
    (year % 4 == 0 && year % 100 != 0) || year % 400 == 0
}

/// The number of days of `month` in `year`.
pub open spec fn days_in_month(year: int, month: int) -> int {
    if month == 2 {
        if is_leap_year(year) {
            29
        } else {
            28
        }
    } else if month == 4 || month == 6 || month == 9 || month == 11 {
        30
    } else {
        31
    }
}

/// The number of days of `year` that lie before the first day of `month`.
pub open spec fn days_before_month(year: int, month: int) -> int
    decreases month,
{
    if month <= 1 {
        0
    } else {
        days_before_month(year, month - 1) + days_in_month(year, month - 1)
    }
}

/// Days elapsed from the first day of year 1 to the given date:
/// day 0 is 0001-01-01 of the proleptic Gregorian calendar.
pub open spec fn day_index(year: int, month: int, day: int) -> int {
    let y = year - 1;
    365 * y + y / 4 - y / 100 + y / 400 + days_before_month(year, month) + (day - 1)
}

/// The weekday of a date, numbered 1 (Sunday) through 7 (Saturday), the
/// numbering the day-of-week field names `SUN` through `SAT` map to.
/// Day 0 (0001-01-01) was a Monday, hence the shift by one.
pub open spec fn weekday_of(year: int, month: int, day: int) -> int {
    (day_index(year, month, day) + 1) % 7 + 1
}

/// A calendar instant at minute resolution. Conversion from and to any
/// time-zone-aware clock representation happens outside this crate; the
/// values here are the local calendar components themselves.
#[derive(Debug, Clone, Copy, PartialEq, Eq, Structural)]
pub struct Instant {
    pub year: u32,
    pub month: u8,
    pub day: u8,
    pub hour: u8,
    pub minute: u8,
}

/// The number of days of `month` in `year`, as a runtime value.
pub fn days_in_month_of(year: u32, month: u8) -> (d: u8)
    requires
        1 <= month <= 12,
    ensures
        d as int == days_in_month(year as int, month as int),
{
    if month == 2 {
        if (year % 4 == 0 && year % 100 != 0) || year % 400 == 0 {
            29
        } else {
            28
        }
    } else if month == 4 || month == 6 || month == 9 || month == 11 {
        30
    } else {
        31
    }
}

impl Instant {
    /// A well-formed instant: each component lies in its calendar domain and
    /// the year is one the model represents.
    pub open spec fn valid(self) -> bool {
        &&& 1 <= self.year <= YEAR_MAX
        &&& 1 <= self.month <= 12
        &&& 1 <= self.day <= days_in_month(self.year as int, self.month as int)
        &&& self.hour <= 23
        &&& self.minute <= 59
    }

    /// The calendar successor of an instant: one minute later, carrying over
    /// into hours, days (by the current month's length), months and years.
    pub open spec fn spec_next_minute(self) -> Instant {
        if self.minute < 59 {
            Instant { minute: (self.minute + 1) as u8, ..self }
        } else if self.hour < 23 {
            Instant { hour: (self.hour + 1) as u8, minute: 0, ..self }
        } else if self.day < days_in_month(self.year as int, self.month as int) {
            Instant { day: (self.day + 1) as u8, hour: 0, minute: 0, ..self }
        } else if self.month < 12 {
            Instant { month: (self.month + 1) as u8, day: 1, hour: 0, minute: 0, ..self }
        } else {
            Instant { year: (self.year + 1) as u32, month: 1, day: 1, hour: 0, minute: 0 }
        }
    }

    /// Strict calendar order: the components compare lexicographically.
    pub open spec fn spec_before(self, other: Instant) -> bool {
        ||| self.year < other.year
        ||| (self.year == other.year && (self.month < other.month || (self.month == other.month
            && (self.day < other.day || (self.day == other.day && (self.hour < other.hour || (
        self.hour == other.hour && self.minute < other.minute)))))))
    }

    /// Construct an instant from its calendar components.
    pub fn new(year: u32, month: u8, day: u8, hour: u8, minute: u8) -> (r: Instant)
        requires
            (Instant { year, month, day, hour, minute }).valid(),
        ensures
            r == (Instant { year, month, day, hour, minute }),
    {
        Instant { year, month, day, hour, minute }
    }

    /// The weekday of this instant's date, 1 (Sunday) through 7 (Saturday).
    pub fn weekday(&self) -> (w: u8)
        requires
            self.valid(),
        ensures
            w as int == weekday_of(self.year as int, self.month as int, self.day as int),
            1 <= w <= 7,
    {
        let y: u32 = self.year - 1;
        let mut before: u32 = 0;
        let mut m: u8 = 1;
        while m < self.month
            invariant
                1 <= m <= self.month <= 12,
                before as int == days_before_month(self.year as int, m as int),
                before as int <= 31 * (m as int - 1),
                self.valid(),
            decreases self.month as int - m as int,
        {
            before = before + days_in_month_of(self.year, m) as u32;
            m = m + 1;
        }
        let days: u32 = 365 * y + y / 4 - y / 100 + y / 400 + before + (self.day as u32 - 1);
        ((days + 1) % 7 + 1) as u8
    }

    /// The calendar successor, one minute later.
    pub fn next_minute(&self) -> (r: Instant)
        requires
            self.valid(),
            self.year < YEAR_MAX,
        ensures
            r == self.spec_next_minute(),
            r.valid(),
    {
        if self.minute < 59 {
            Instant { minute: self.minute + 1, ..*self }
        } else if self.hour < 23 {
            Instant { hour: self.hour + 1, minute: 0, ..*self }
        } else {
            let dim = days_in_month_of(self.year, self.month);
            if self.day < dim {
                Instant { day: self.day + 1, hour: 0, minute: 0, ..*self }
            } else if self.month < 12 {
                Instant { month: self.month + 1, day: 1, hour: 0, minute: 0, ..*self }
            } else {
                Instant { year: self.year + 1, month: 1, day: 1, hour: 0, minute: 0 }
            }
        }
    }

    /// Whether this instant lies strictly before `other` in calendar order.
    pub fn lt(&self, other: &Instant) -> (r: bool)
        ensures
            r == self.spec_before(*other),
    {
        if self.year != other.year {
            self.year < other.year
        } else if self.month != other.month {
            self.month < other.month
        } else if self.day != other.day {
            self.day < other.day
        } else if self.hour != other.hour {
            self.hour < other.hour
        } else {
            self.minute < other.minute
        }
    }
}

/// The instant reached from `start` after `n` minute steps.
pub open spec fn advance(start: Instant, n: nat) -> Instant
    decreases n,
{
    if n == 0 {
        start
    } else {
        advance(start, (n - 1) as nat).spec_next_minute()
    }
}

/// Stepping a valid instant yields a strictly later instant.
pub proof fn lemma_next_minute_increases(i: Instant)
    requires
        i.valid(),
    ensures
        i.spec_before(i.spec_next_minute()),
{
}

/// Strict calendar order is transitive.
pub proof fn lemma_before_trans(a: Instant, b: Instant, c: Instant)
    requires
        a.spec_before(b),
        b.spec_before(c),
    ensures
        a.spec_before(c),
{
}

} // verus!
