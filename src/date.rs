//! Calendar dates of daily puzzle editions.

use vstd::prelude::*;
use crate::text::{append_fixed_digits, fixed_digits, lemma_fixed_digits, digits_value, is_digit, pow10};

verus! {

/// Gregorian leap-year rule.
pub open spec fn is_leap_year(year: nat) -> bool {
    (year % 4 == 0 && year % 100 != 0) || year % 400 == 0
}

/// Number of days in a month (1 to 12) of a given year.
pub open spec fn days_in_month(year: nat, month: nat) -> nat {
    if month == 2 {
        if is_leap_year(year) { 29 } else { 28 }
    } else if month == 4 || month == 6 || month == 9 || month == 11 {
        30
    } else {
        31
    }
}

/// A calendar day that has a four-digit `YYYY-MM-DD` form.
pub open spec fn is_valid_ymd(year: nat, month: nat, day: nat) -> bool {
    &&& year <= 9999
    &&& 1 <= month <= 12
    &&& 1 <= day <= days_in_month(year, month)
}

/// A calendar date (year, month, day) with no time component.
#[derive(Debug, Clone, Copy, PartialEq, Eq, Structural, Hash)]
pub struct PuzzleDate {
    pub year: u32,
    pub month: u32,
    pub day: u32,
}

/// The `YYYY-MM-DD` text of a date, each field zero-padded.
pub open spec fn iso_text(d: PuzzleDate) -> Seq<char> {
    fixed_digits(d.year as nat, 4) + seq!['-'] + fixed_digits(d.month as nat, 2) + seq!['-']
        + fixed_digits(d.day as nat, 2)
}

impl PuzzleDate {
    pub open spec fn wf(self) -> bool {
        is_valid_ymd(self.year as nat, self.month as nat, self.day as nat)
    }

    /// The date with the given fields, if it exists in the calendar and its
    /// year has four digits.
    pub fn new(year: u32, month: u32, day: u32) -> (r: Option<PuzzleDate>)
        ensures
            r is Some <==> is_valid_ymd(year as nat, month as nat, day as nat),
            r matches Some(d) ==> d.year == year && d.month == month && d.day == day,
    {
        if year > 9999 || month < 1 || month > 12 || day < 1 {
            return None;
        }
        let leap = (year % 4 == 0 && year % 100 != 0) || year % 400 == 0;
        let days: u32 = if month == 2 {
            if leap { 29 } else { 28 }
        } else if month == 4 || month == 6 || month == 9 || month == 11 {
            30
        } else {
            31
        };
        if day > days {
            None
        } else {
            Some(PuzzleDate { year, month, day })
        }
    }

    /// The `YYYY-MM-DD` text of the date.
    pub fn to_iso_string(&self) -> (r: String)
        ensures
            r@ == iso_text(*self),
    {
        let mut s = String::new();
        append_fixed_digits(&mut s, self.year, 4);
        s.append("-");
        append_fixed_digits(&mut s, self.month, 2);
        s.append("-");
        append_fixed_digits(&mut s, self.day, 2);
        proof {
            reveal_strlit("-");
        }
        assert(s@ =~= iso_text(*self));
        s
    }
}

/// The text of a valid date is ten characters: four year digits, a dash, two
/// month digits, a dash and two day digits, which read back as the date's
/// year, month and day.
pub proof fn iso_text_is_zero_padded(d: PuzzleDate)
    requires
        d.wf(),
    ensures
        iso_text(d).len() == 10,
        iso_text(d)[4] == '-',
        iso_text(d)[7] == '-',
        forall|i: int| 0 <= i < 10 && i != 4 && i != 7 ==> is_digit(#[trigger] iso_text(d)[i]),
        digits_value(iso_text(d).subrange(0, 4)) == d.year,
        digits_value(iso_text(d).subrange(5, 7)) == d.month,
        digits_value(iso_text(d).subrange(8, 10)) == d.day,
{
    lemma_fixed_digits(d.year as nat, 4);
    lemma_fixed_digits(d.month as nat, 2);
    lemma_fixed_digits(d.day as nat, 2);
    reveal_with_fuel(pow10, 5);
    assert(pow10(4) == 10000);
    assert(pow10(2) == 100);
    let t = iso_text(d);
    assert(t.subrange(0, 4) =~= fixed_digits(d.year as nat, 4));
    assert(t.subrange(5, 7) =~= fixed_digits(d.month as nat, 2));
    assert(t.subrange(8, 10) =~= fixed_digits(d.day as nat, 2));
    assert forall|i: int| 0 <= i < 10 && i != 4 && i != 7 implies is_digit(#[trigger] t[i]) by {
        if i < 4 {
            assert(t[i] == fixed_digits(d.year as nat, 4)[i]);
        } else if i < 7 {
            assert(t[i] == fixed_digits(d.month as nat, 2)[i - 5]);
        } else {
            assert(t[i] == fixed_digits(d.day as nat, 2)[i - 8]);
        }
    }
}

} // verus!
