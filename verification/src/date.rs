//! A calendar date, used to tell nightly compilers apart.
//!
//! A date has no time zone: it is the date under which a nightly compiler was released.

use vstd::prelude::*;
use vstd::string::*;
use crate::decimal::{padded, push_padded};

verus! {

/// A date: year, month and day of the month.
///
/// Dates are ordered by year, then month, then day.
#[derive(Copy, Clone, Debug, PartialEq, Eq, PartialOrd, Ord, Hash, Structural)]
pub struct Date {
    /// The year.
    pub year: u16,
    /// The month, from 1 to 12.
    pub month: u8,
    /// The day of the month, from 1 to 31.
    pub day: u8,
}

/// The field that keeps a year, a month and a day from being a date.
#[derive(Copy, Clone, Debug, PartialEq, Eq, Structural)]
pub enum InvalidDate {
    /// The year is zero.
    Year,
    /// The month is not one of 1 to 12.
    Month,
    /// The day is not one of 1 to 31.
    Day,
}

impl Date {
    /// Whether the three numbers are in range: the year at least 1, the month from 1
    /// to 12, the day from 1 to 31.
    pub open spec fn in_range(year: u16, month: u8, day: u8) -> bool {
        &&& year >= 1
        &&& 1 <= month <= 12
        &&& 1 <= day <= 31
    }

    /// Whether the fields of this date are in range.
    pub open spec fn wf(self) -> bool {
        Self::in_range(self.year, self.month, self.day)
    }

    /// The place of this date among all dates: a greater number for a later date.
    pub open spec fn ordinal(self) -> int {
        self.year as int * 0x1_0000 + self.month as int * 0x100 + self.day as int
    }

    /// Whether this date is `start` or a later date.
    pub open spec fn spec_is_since(&self, start: Date) -> bool {
        self.ordinal() >= start.ordinal()
    }

    /// Whether this date is earlier than `end`.
    pub open spec fn spec_is_before(&self, end: Date) -> bool {
        self.ordinal() < end.ordinal()
    }

    /// How this date is written: the year in four digits or more, the month and the
    /// day in two, with a hyphen between them.
    pub open spec fn text(self) -> Seq<char> {
        padded(self.year as nat, 4) + seq!['-'] + padded(self.month as nat, 2) + seq!['-']
            + padded(self.day as nat, 2)
    }

    /// What the three numbers are found to be when they are held to their ranges: the
    /// date of these numbers, or the first of year, month and day that is out of range.
    pub open spec fn validated(year: u16, month: u8, day: u8) -> Result<Date, InvalidDate> {
        if year < 1 {
            Err(InvalidDate::Year)
        } else if !(1 <= month <= 12) {
            Err(InvalidDate::Month)
        } else if !(1 <= day <= 31) {
            Err(InvalidDate::Day)
        } else {
            Ok(Date { year, month, day })
        }
    }

    /// Makes a date of three numbers that are in range.
    pub fn new(year: u16, month: u8, day: u8) -> (date: Date)
        requires
            Self::in_range(year, month, day),
        ensures
            date == (Date { year, month, day }),
            date.wf(),
    {
        Date { year, month, day }
    }

    /// Makes a date of three numbers, or names the first of year, month and day that
    /// is out of range.
    pub fn checked(year: u16, month: u8, day: u8) -> (r: Result<Date, InvalidDate>)
        ensures
            r == Self::validated(year, month, day),
    {
        if year < 1 {
            Err(InvalidDate::Year)
        } else if month < 1 || month > 12 {
            Err(InvalidDate::Month)
        } else if day < 1 || day > 31 {
            Err(InvalidDate::Day)
        } else {
            Ok(Date::new(year, month, day))
        }
    }

    /// Makes a date of three numbers as they stand, in range or not.
    pub fn unchecked(year: u16, month: u8, day: u8) -> (date: Date)
        ensures
            date == (Date { year, month, day }),
    {
        Date { year, month, day }
    }

    /// Tests whether this date is `start` or a later date.
    #[verifier::when_used_as_spec(spec_is_since)]
    pub fn is_since(&self, start: Date) -> (b: bool)
        ensures
            b == self.spec_is_since(start),
    {
        self.year > start.year || (self.year == start.year && (self.month > start.month || (
        self.month == start.month && self.day >= start.day)))
    }

    /// Tests whether this date is earlier than `end`.
    #[verifier::when_used_as_spec(spec_is_before)]
    pub fn is_before(&self, end: Date) -> (b: bool)
        ensures
            b == self.spec_is_before(end),
    {
        !self.is_since(end)
    }

    /// Writes this date as `YYYY-MM-DD`.
    pub fn to_string(&self) -> (s: String)
        ensures
            s@ == self.text(),
    {
        let mut s = String::new();
        proof {
            reveal_strlit("-");
        }
        push_padded(&mut s, self.year as u32, 4);
        s.append("-");
        push_padded(&mut s, self.month as u32, 2);
        s.append("-");
        push_padded(&mut s, self.day as u32, 2);
        assert(s@ =~= self.text());
        s
    }
}

/// Three numbers held to their ranges make a date exactly when each is in range,
/// the date of these numbers; else the first of year, month and day that is out of
/// range is named.
pub proof fn lemma_validation(year: u16, month: u8, day: u8)
    ensures
        Date::validated(year, month, day) is Err <==> (year < 1 || !(1 <= month <= 12) || !(1
            <= day <= 31)),
        Date::validated(year, month, day) is Ok <==> Date::in_range(year, month, day),
        Date::validated(year, month, day) matches Ok(date) ==> date.year == year && date.month
            == month && date.day == day && date.wf(),
        Date::validated(year, month, day) matches Err(field) ==> {
            &&& field == InvalidDate::Year <==> year < 1
            &&& field == InvalidDate::Month <==> year >= 1 && !(1 <= month <= 12)
            &&& field == InvalidDate::Day <==> year >= 1 && 1 <= month <= 12 && !(1 <= day <= 31)
        },
{
}

/// A date is since another exactly when it is not before it, and every date is
/// since itself and not before itself.
pub proof fn lemma_since_is_not_before(a: Date, b: Date)
    ensures
        a.is_since(b) == !a.is_before(b),
        a.is_since(a),
        !a.is_before(a),
{
}

/// The order of dates is that of the year, then of the month, then of the day.
pub proof fn lemma_since_by_fields(a: Date, b: Date)
    ensures
        a.is_since(b) <==> (a.year > b.year || (a.year == b.year && (a.month > b.month || (a.month
            == b.month && a.day >= b.day)))),
{
}

/// The order of dates is total: two dates that are since each other are the same
/// date, of two dates one is since the other, and a date since a date that is
/// since a third is since the third.
pub proof fn lemma_since_is_total_order(a: Date, b: Date, c: Date)
    ensures
        a.is_since(b) && b.is_since(a) ==> a == b,
        a.is_since(b) || b.is_since(a),
        a.is_since(b) && b.is_since(c) ==> a.is_since(c),
{
}

} // verus!
