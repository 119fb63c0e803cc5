//! Calendar days as day numbers, and their ISO text.
//!
//! A day is counted in the proleptic Gregorian calendar, with January 1 of
//! year 1 as day 1. The calendar itself is `chrono`'s.

use crate::text::is_digit;
use chrono::Datelike;
use chrono::NaiveDate;
use chrono::Utc;
use vstd::prelude::*;

verus! {

/// The day number of the first date that `chrono` represents.
pub const FIRST_DAY: i32 = -95_746_129;

/// The day number of the last date that `chrono` represents.
pub const LAST_DAY: i32 = 95_745_399;

/// The day number of January 1, 1970.
pub const EPOCH_DAY: i32 = 719_163;

/// The day number of January 1, 1000: the first day of a year of four
/// digits.
pub const FIRST_FOUR_DIGIT_DAY: i32 = 364_878;

/// The day number of December 31, 9999: the last day of a year of four
/// digits.
pub const LAST_FOUR_DIGIT_DAY: i32 = 3_652_059;

/// How far back an order date may lie, in days.
pub const MAX_DAYS_BACK: usize = 365;

/// The text `YYYY-MM-DD` of the day with the given number, as
/// `NaiveDate::format` writes it. It has a meaning between [`FIRST_DAY`] and
/// [`LAST_DAY`] only.
pub uninterp spec fn iso_date_text(day: int) -> Seq<char>;

/// The day lies in a year from 1000 to 9999.
pub open spec fn has_four_digit_year(day: int) -> bool {
    FIRST_FOUR_DIGIT_DAY <= day <= LAST_FOUR_DIGIT_DAY
}

/// `text` has the form `YYYY-MM-DD`: ten characters, all of them digits but
/// for the hyphen after the year and the hyphen after the month.
pub open spec fn has_iso_form(text: Seq<char>) -> bool {
    &&& text.len() == 10
    &&& text[4] == '-'
    &&& text[7] == '-'
    &&& forall|i: int| 0 <= i < 10 && i != 4 && i != 7 ==> is_digit(#[trigger] text[i])
}

/// `NaiveDate::from_num_days_from_ce_opt`, then `NaiveDate::format` with
/// `%Y-%m-%d`: the date's text, for the days that `chrono` represents, and
/// `None` for the others. A year from 1000 to 9999 is written with its four
/// digits, the month and the day with two each.
#[verifier::external_body]
fn iso_date(day: i32) -> (text: Option<String>)
    ensures
        text is Some <==> FIRST_DAY <= day <= LAST_DAY,
        text matches Some(t) ==> t@ == iso_date_text(day as int),
        text matches Some(t) ==> (has_four_digit_year(day as int) ==> has_iso_form(t@)),
{
    let date = NaiveDate::from_num_days_from_ce_opt(day)?;
    Some(date.format("%Y-%m-%d").to_string())
}

/// `Utc::now`, as the day number of its date. The clock is read since the
/// Unix epoch, so the day is no earlier than [`EPOCH_DAY`]; it is a date of
/// `chrono`, so no later than [`LAST_DAY`].
#[verifier::external_body]
fn utc_day_now() -> (day: i32)
    ensures
        EPOCH_DAY <= day <= LAST_DAY,
{
    Utc::now().date_naive().num_days_from_ce()
}

/// The day on which data is generated: a day with a full year of
/// representable days before it.
pub struct Today {
    day: i32,
}

impl Today {
    #[verifier::type_invariant]
    spec fn in_reach(self) -> bool {
        FIRST_DAY + MAX_DAYS_BACK <= self.day <= LAST_DAY
    }

    /// The day's number.
    pub closed spec fn day_number(self) -> int {
        self.day as int
    }

    /// The numbers that stand for such a day.
    pub open spec fn accepts(day: int) -> bool {
        FIRST_DAY + MAX_DAYS_BACK <= day <= LAST_DAY
    }

    /// The current day in UTC, by the system clock.
    pub fn now() -> (today: Today)
        ensures
            EPOCH_DAY <= today.day_number() <= LAST_DAY,
    {
        Today { day: utc_day_now() }
    }

    /// The day with the given number, where the calendar reaches a year back
    /// from it.
    pub fn from_day_number(day: i32) -> (today: Option<Today>)
        ensures
            today is Some <==> Today::accepts(day as int),
            today matches Some(t) ==> t.day_number() == day,
    {
        if FIRST_DAY + 365 <= day && day <= LAST_DAY {
            Some(Today { day })
        } else {
            None
        }
    }

    /// The day's number.
    pub fn number(&self) -> (day: i32)
        ensures
            day == self.day_number(),
            Today::accepts(day as int),
    {
        proof {
            use_type_invariant(self);
        }
        self.day
    }

    /// The ISO text of the day that lies `back` days before this one.
    pub fn date_text_before(&self, back: usize) -> (text: String)
        requires
            back <= MAX_DAYS_BACK,
        ensures
            text@ == iso_date_text(self.day_number() - back),
            has_four_digit_year(self.day_number() - back) ==> has_iso_form(text@),
    {
        proof {
            use_type_invariant(self);
        }
        let day: i32 = self.day - (back as i32);
        match iso_date(day) {
            Some(text) => text,
            None => unreached(),
        }
    }
}

} // verus!
