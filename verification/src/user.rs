//! The user entity and the plain value types it is made of: a 128-bit
//! identifier, a millisecond timestamp, a calendar date with its validity
//! rules, and the attached custom record.

use vstd::prelude::*;

verus! {

/// A 128-bit identifier naming a user record (UUID semantics). The value is
/// assigned by the caller, never generated by the store.
#[derive(Clone, Copy, PartialEq, Eq, Structural, Debug, Hash)]
pub struct UserId {
    pub value: u128,
}

/// A point in time, counted in milliseconds since the Unix epoch.
#[derive(Clone, Copy, PartialEq, Eq, Structural, Debug)]
pub struct Timestamp {
    pub millis: i64,
}

/// An extensible record attached to a user; the store treats it as opaque.
#[derive(Clone, Copy, PartialEq, Eq, Structural, Debug)]
pub struct CustomData {
    pub random: u32,
}

/// A calendar date (year, month, day), with no time component.
#[derive(Clone, Copy, PartialEq, Eq, Structural, Debug)]
pub struct Date {
    pub year: i32,
    pub month: u32,
    pub day: u32,
}

impl Date {
    /// The Gregorian leap-year rule: divisible by 4, except centuries,
    /// which must be divisible by 400.
    pub open spec fn leap_year(year: i32) -> bool {
        year % 4 == 0 && (year % 100 != 0 || year % 400 == 0)
    }

    /// How many days the given month of the given year has.
    pub open spec fn days_in_month(year: i32, month: u32) -> u32 {
        if month == 2 {
            if Self::leap_year(year) {
                29
            } else {
                28
            }
        } else if month == 4 || month == 6 || month == 9 || month == 11 {
            30
        } else {
            31
        }
    }

    /// A date is valid when the month exists and the day fits that month.
    pub open spec fn valid(self) -> bool {
        1 <= self.month <= 12 && 1 <= self.day <= Self::days_in_month(self.year, self.month)
    }

    /// Runtime evaluation of the leap-year rule.
    pub fn is_leap_year(year: i32) -> (b: bool)
        ensures
            b == Self::leap_year(year),
    {
        year % 4 == 0 && (year % 100 != 0 || year % 400 == 0)
    }

    /// Runtime evaluation of date validity.
    pub fn is_valid(&self) -> (b: bool)
        ensures
            b == self.valid(),
    {
        if self.month < 1 || self.month > 12 {
            return false;
        }
        let max_day: u32 = if self.month == 2 {
            if Date::is_leap_year(self.year) {
                29
            } else {
                28
            }
        } else if self.month == 4 || self.month == 6 || self.month == 9 || self.month == 11 {
            30
        } else {
            31
        };
        1 <= self.day && self.day <= max_day
    }
}

/// The id the record constructor assigns when the caller names none.
pub const DEFAULT_USER_ID: u128 = 0xa50f1258_4ed3_4123_908d_679f48a1dd20;

/// The user record managed by the store. `create_at` and `update_at` are
/// stamped by the store, never by the caller.
#[derive(Debug, PartialEq)]
pub struct User {
    pub id: UserId,
    pub name: String,
    pub birth_date: Date,
    pub custom_data: CustomData,
    pub create_at: Option<Timestamp>,
    pub update_at: Option<Timestamp>,
}

impl Clone for User {
    /// A clone carries exactly the same record.
    fn clone(&self) -> (res: User)
        ensures
            res == *self,
    {
        User {
            id: self.id,
            name: self.name.clone(),
            birth_date: self.birth_date,
            custom_data: self.custom_data,
            create_at: self.create_at,
            update_at: self.update_at,
        }
    }
}

impl User {
    /// A record is well formed when its birth date is a valid calendar date.
    pub open spec fn wf(self) -> bool {
        self.birth_date.valid()
    }

    /// Runtime evaluation of `wf`.
    pub fn is_well_formed(&self) -> (b: bool)
        ensures
            b == self.wf(),
    {
        self.birth_date.is_valid()
    }

    /// Builds a record with the default id, the custom record set to its
    /// initial value, `create_at` stamped with the current time and
    /// `update_at` unset.
    pub fn new(name: String, birth_date_ymd: (i32, u32, u32)) -> (u: User)
        requires
            (Date {
                year: birth_date_ymd.0,
                month: birth_date_ymd.1,
                day: birth_date_ymd.2,
            }).valid(),
        ensures
            u.id == (UserId { value: DEFAULT_USER_ID }),
            u.name == name,
            u.birth_date == (Date {
                year: birth_date_ymd.0,
                month: birth_date_ymd.1,
                day: birth_date_ymd.2,
            }),
            u.custom_data == (CustomData { random: 1 }),
            u.create_at is Some,
            u.update_at is None,
            u.wf(),
    {
        let (year, month, day) = birth_date_ymd;
        User {
            id: UserId { value: DEFAULT_USER_ID },
            name,
            birth_date: Date { year, month, day },
            custom_data: CustomData { random: 1 },
            create_at: Some(crate::clock::now()),
            update_at: None,
        }
    }
}

} // verus!
