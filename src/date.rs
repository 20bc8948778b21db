//! Calendar dates as the stored entities hold them, and their text form in
//! a row: `YYYY-MM-DD`.

use vstd::prelude::*;

verus! {

/// A day of the Gregorian calendar, with a four-digit year.
#[derive(Clone, Copy, Debug, PartialEq, Eq, Structural)]
pub struct Date {
    pub year: u32,
    pub month: u32,
    pub day: u32,
}

pub open spec fn is_leap(y: int) -> bool {
    y % 4 == 0 && (y % 100 != 0 || y % 400 == 0)
}

pub open spec fn days_in_month(y: int, m: int) -> int {
    if m == 2 {
        if is_leap(y) {
            29
        } else {
            28
        }
    } else if m == 4 || m == 6 || m == 9 || m == 11 {
        30
    } else {
        31
    }
}

pub open spec fn digit(n: int) -> u8 {
    (n + 48) as u8
}

pub open spec fn digit_value(b: u8) -> int {
    b - 48
}

pub open spec fn is_digit_at(t: Seq<u8>, i: int) -> bool {
    48 <= t[i] <= 57
}

/// The text of a date: four digits of year, two of month, two of day,
/// joined by dashes. Of a date that is not `wf`, only the last digits of
/// each part are written.
pub open spec fn date_text(d: Date) -> Seq<u8> {
    let y = d.year as int;
    let m = d.month as int;
    let a = d.day as int;
    seq![
        digit((y / 1000) % 10),
        digit((y / 100) % 10),
        digit((y / 10) % 10),
        digit(y % 10),
        45u8,
        digit((m / 10) % 10),
        digit(m % 10),
        45u8,
        digit((a / 10) % 10),
        digit(a % 10),
    ]
}

/// The date that a text names, if it is one in the form of `date_text`.
pub open spec fn date_of_text(t: Seq<u8>) -> Option<Date> {
    if t.len() == 10 && is_digit_at(t, 0) && is_digit_at(t, 1) && is_digit_at(t, 2)
        && is_digit_at(t, 3) && t[4] == 45 && is_digit_at(t, 5) && is_digit_at(t, 6) && t[7]
        == 45 && is_digit_at(t, 8) && is_digit_at(t, 9) {
        let d = Date {
            year: (digit_value(t[0]) * 1000 + digit_value(t[1]) * 100 + digit_value(t[2]) * 10
                + digit_value(t[3])) as u32,
            month: (digit_value(t[5]) * 10 + digit_value(t[6])) as u32,
            day: (digit_value(t[8]) * 10 + digit_value(t[9])) as u32,
        };
        if d.wf() {
            Some(d)
        } else {
            None
        }
    } else {
        None
    }
}

impl Date {
    /// A real day, with a year of at most four digits.
    pub open spec fn wf(&self) -> bool {
        &&& self.year <= 9999
        &&& 1 <= self.month <= 12
        &&& 1 <= self.day <= days_in_month(self.year as int, self.month as int)
    }

    /// The date of the given year, month and day, if there is one.
    pub fn from_ymd(year: u32, month: u32, day: u32) -> (r: Option<Date>)
        ensures
            match r {
                Some(d) => d.wf() && d == (Date { year, month, day }),
                None => !(Date { year, month, day }).wf(),
            },
    {
        if year > 9999 || month < 1 || month > 12 || day < 1 {
            return None;
        }
        let leap = year % 4 == 0 && (year % 100 != 0 || year % 400 == 0);
        let last: u32 = if month == 2 {
            if leap {
                29
            } else {
                28
            }
        } else if month == 4 || month == 6 || month == 9 || month == 11 {
            30
        } else {
            31
        };
        if day > last {
            return None;
        }
        Some(Date { year, month, day })
    }

    /// The text of the date, as a row stores it.
    pub fn to_text(&self) -> (r: Vec<u8>)
        ensures
            r@ == date_text(*self),
    {
        let y = self.year;
        let m = self.month;
        let d = self.day;
        let r: Vec<u8> = vec![
            ((y / 1000) % 10) as u8 + 48,
            ((y / 100) % 10) as u8 + 48,
            ((y / 10) % 10) as u8 + 48,
            (y % 10) as u8 + 48,
            45,
            ((m / 10) % 10) as u8 + 48,
            (m % 10) as u8 + 48,
            45,
            ((d / 10) % 10) as u8 + 48,
            (d % 10) as u8 + 48,
        ];
        assert(r@ =~= date_text(*self));
        r
    }

    /// Reads the text of a date.
    pub fn from_text(t: &[u8]) -> (r: Option<Date>)
        ensures
            r == date_of_text(t@),
    {
        if t.len() != 10 || t[4] != 45 || t[7] != 45 {
            return None;
        }
        let mut k: usize = 0;
        while k < 10
            invariant
                t@.len() == 10,
                0 <= k <= 10,
                forall|j: int| 0 <= j < k && j != 4 && j != 7 ==> is_digit_at(t@, j),
            decreases 10 - k,
        {
            if k != 4 && k != 7 && (t[k] < 48 || t[k] > 57) {
                return None;
            }
            k = k + 1;
        }
        assert(is_digit_at(t@, 0) && is_digit_at(t@, 1) && is_digit_at(t@, 2) && is_digit_at(t@, 3));
        assert(is_digit_at(t@, 5) && is_digit_at(t@, 6) && is_digit_at(t@, 8) && is_digit_at(t@, 9));
        let year = (t[0] - 48) as u32 * 1000 + (t[1] - 48) as u32 * 100 + (t[2] - 48) as u32 * 10
            + (t[3] - 48) as u32;
        let month = (t[5] - 48) as u32 * 10 + (t[6] - 48) as u32;
        let day = (t[8] - 48) as u32 * 10 + (t[9] - 48) as u32;
        Date::from_ymd(year, month, day)
    }
}

/// The text of a date reads back as the same date.
pub proof fn lemma_date_text_round_trip(d: Date)
    requires
        d.wf(),
    ensures
        date_of_text(date_text(d)) == Some(d),
{
    let y = d.year as int;
    let t = date_text(d);
    assert(y / 1000 * 1000 + (y / 100) % 10 * 100 + (y / 10) % 10 * 10 + y % 10 == y) by (nonlinear_arith)
        requires
            0 <= y <= 9999,
    ;
    assert(d.month / 10 * 10 + d.month % 10 == d.month) by (nonlinear_arith);
    assert(d.day / 10 * 10 + d.day % 10 == d.day) by (nonlinear_arith);
}

} // verus!
