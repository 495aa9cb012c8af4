use vstd::prelude::*;

verus! {

/// A calendar day, ordered by year, then month, then day.
#[derive(Clone, Copy, Debug, PartialEq, Eq, Structural)]
pub struct CalendarDate {
    pub year: i32,
    pub month: u32,
    pub day: u32,
}

/// A moment: a calendar day and the second within it.
#[derive(Clone, Copy, Debug, PartialEq, Eq, Structural)]
pub struct DateTime {
    pub date: CalendarDate,
    pub second: u32,
}

impl CalendarDate {
    pub open spec fn spec_lt(self, other: CalendarDate) -> bool {
        self.year < other.year || (self.year == other.year && (self.month < other.month || (
        self.month == other.month && self.day < other.day)))
    }

    pub fn new(year: i32, month: u32, day: u32) -> (r: CalendarDate)
        ensures
            r == (CalendarDate { year, month, day }),
    {
        CalendarDate { year, month, day }
    }

    /// The first moment of this day.
    pub fn at_midnight(self) -> (r: DateTime)
        ensures
            r == (DateTime { date: self, second: 0 }),
    {
        DateTime { date: self, second: 0 }
    }

    pub fn is_before(&self, other: &CalendarDate) -> (r: bool)
        ensures
            r == self.spec_lt(*other),
    {
        self.year < other.year || (self.year == other.year && (self.month < other.month || (
        self.month == other.month && self.day < other.day)))
    }
}

impl DateTime {
    pub open spec fn spec_lt(self, other: DateTime) -> bool {
        self.date.spec_lt(other.date) || (self.date == other.date && self.second < other.second)
    }

    pub open spec fn spec_le(self, other: DateTime) -> bool {
        self.spec_lt(other) || self == other
    }

    pub fn new(date: CalendarDate, second: u32) -> (r: DateTime)
        ensures
            r == (DateTime { date, second }),
    {
        DateTime { date, second }
    }

    /// Strictly earlier than `other`.
    pub fn is_before(&self, other: &DateTime) -> (r: bool)
        ensures
            r == self.spec_lt(*other),
    {
        self.date.is_before(&other.date) || (self.date == other.date && self.second
            < other.second)
    }

    /// Strictly later than `other`.
    pub fn is_after(&self, other: &DateTime) -> (r: bool)
        ensures
            r == other.spec_lt(*self),
    {
        other.is_before(self)
    }

    /// The calendar day of this moment, without its time.
    pub fn day(&self) -> (r: CalendarDate)
        ensures
            r == self.date,
    {
        self.date
    }
}

} // verus!
