use vstd::prelude::*;

verus! {

/// Leap years by the Gregorian rule.
pub open spec fn is_leap_year(year: int) -> bool {
    year % 4 == 0 && (year % 100 != 0 || year % 400 == 0)
}

/// The number of days of a month, 0 for anything that is no month.
pub open spec fn spec_days_in_month(year: int, month: int) -> int {
    if month == 1 || month == 3 || month == 5 || month == 7 || month == 8 || month == 10 || month
        == 12 {
        31
    } else if month == 4 || month == 6 || month == 9 || month == 11 {
        30
    } else if month == 2 {
        if is_leap_year(year) {
            29
        } else {
            28
        }
    } else {
        0
    }
}

/// The calendar dates this library supports: years 0 through 9999 of the
/// Gregorian calendar.
pub open spec fn valid_ymd(year: int, month: int, day: int) -> bool {
    &&& 0 <= year <= 9999
    &&& 1 <= month <= 12
    &&& 1 <= day <= spec_days_in_month(year, month)
}

/// A calendar date, kept valid by every constructor.
#[derive(Clone, Copy, Debug, PartialEq, Eq, Structural)]
pub struct Date {
    pub year: i32,
    pub month: u32,
    pub day: u32,
}

/// Whether date `a` falls strictly after date `b`.
pub open spec fn date_after(a: Date, b: Date) -> bool {
    ||| a.year > b.year
    ||| (a.year == b.year && a.month > b.month)
    ||| (a.year == b.year && a.month == b.month && a.day > b.day)
}

/// Whether month/day `am`/`ad` falls strictly before month/day `bm`/`bd`.
pub open spec fn month_day_before(am: int, ad: int, bm: int, bd: int) -> bool {
    am < bm || (am == bm && ad < bd)
}

/// The fixed day this library counts ages against.
pub open spec fn now_date() -> Date {
    Date { year: 2025, month: 9, day: 1 }
}

/// A person's age in whole years on `now_date()`: the year difference, one
/// less while the birthday is still ahead in the year, and 0 for birthdates
/// that lie in the future.
pub open spec fn spec_age(birthdate: Date) -> int {
    if date_after(birthdate, now_date()) {
        0
    } else if month_day_before(
        now_date().month as int,
        now_date().day as int,
        birthdate.month as int,
        birthdate.day as int,
    ) {
        now_date().year - birthdate.year - 1
    } else {
        now_date().year - birthdate.year
    }
}

impl Date {
    /// The number of days of a month.
    pub fn days_in_month(year: i32, month: u32) -> (d: u32)
        ensures
            d == spec_days_in_month(year as int, month as int),
    {
        match month {
            1 | 3 | 5 | 7 | 8 | 10 | 12 => 31,
            4 | 6 | 9 | 11 => 30,
            2 => {
                if year % 4 == 0 && (year % 100 != 0 || year % 400 == 0) {
                    29
                } else {
                    28
                }
            },
            _ => 0,
        }
    }

    /// The date for the given year, month and day, or `None` when they name
    /// no supported calendar date.
    pub fn from_ymd(year: i32, month: u32, day: u32) -> (r: Option<Date>)
        ensures
            r matches Some(d) ==> valid_ymd(year as int, month as int, day as int) && d == (Date {
                year,
                month,
                day,
            }),
            r is None ==> !valid_ymd(year as int, month as int, day as int),
    {
        if 0 <= year && year <= 9999 && 1 <= month && month <= 12 && 1 <= day && day
            <= Date::days_in_month(year, month) {
            Some(Date { year, month, day })
        } else {
            None
        }
    }
}

/// A person known by their birthdate.
pub struct User {
    birthdate: Date,
}

impl User {
    /// The stored birthdate.
    pub closed spec fn spec_birthdate(self) -> Date {
        self.birthdate
    }

    /// A person born on the given day; the day must be a supported
    /// calendar date.
    pub fn with_birthdate(year: i32, month: u32, day: u32) -> (u: User)
        requires
            valid_ymd(year as int, month as int, day as int),
        ensures
            u.spec_birthdate() == (Date { year, month, day }),
    {
        let birthdate = Date::from_ymd(year, month, day).unwrap();
        User { birthdate }
    }

    /// Returns the current age of the person in years, counted against
    /// `now_date()`.
    pub fn age(&self) -> (a: u16)
        requires
            valid_ymd(
                self.spec_birthdate().year as int,
                self.spec_birthdate().month as int,
                self.spec_birthdate().day as int,
            ),
        ensures
            a == spec_age(self.spec_birthdate()),
    {
        let b = self.birthdate;
        if b.year > 2025 || (b.year == 2025 && (b.month > 9 || (b.month == 9 && b.day > 1))) {
            return 0;
        }
        let mut age: i32 = 2025 - b.year;
        if b.month > 9 || (b.month == 9 && b.day > 1) {
            age = age - 1;
        }
        age as u16
    }

    /// Checks whether the person is 18 years old at `now_date()`.
    pub fn is_adult(&self) -> (r: bool)
        requires
            valid_ymd(
                self.spec_birthdate().year as int,
                self.spec_birthdate().month as int,
                self.spec_birthdate().day as int,
            ),
        ensures
            r == (spec_age(self.spec_birthdate()) >= 18),
    {
        self.age() >= 18
    }
}

} // verus!
