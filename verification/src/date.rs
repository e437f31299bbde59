//! Instants and the calendar dates they fall on.

use chrono::Datelike;
use vstd::prelude::*;

verus! {

/// The calendar date in UTC, as year, month and day, of the instant `micros`
/// microseconds after the Unix epoch; `None` where the instant lies outside
/// the range of dates that chrono represents.
pub uninterp spec fn utc_civil_date(micros: int) -> Option<(int, int, int)>;

/// Calls `chrono::DateTime::<Utc>::from_timestamp_micros` and reads the date
/// through `Datelike::year`, `Datelike::month` and `Datelike::day`. The
/// contract names the outcome `utc_civil_date` and adds what chrono documents
/// of the parts: the month is 1 to 12 and the day 1 to 31.
#[verifier::external_body]
fn utc_civil_date_of(micros: i64) -> (r: Option<(i32, u32, u32)>)
    ensures
        match r {
            Some((year, month, day)) => {
                &&& utc_civil_date(micros as int) == Some((year as int, month as int, day as int))
                &&& 1 <= month <= 12
                &&& 1 <= day <= 31
            },
            None => utc_civil_date(micros as int) is None,
        },
{
    match chrono::DateTime::from_timestamp_micros(micros) {
        Some(instant) => Some((instant.year(), instant.month(), instant.day())),
        None => None,
    }
}

/// An instant, in microseconds since the Unix epoch, that falls on a
/// representable calendar date.
#[derive(Clone, Copy, Debug, PartialEq, Eq)]
pub struct Timestamp {
    micros: i64,
}

impl View for Timestamp {
    type V = int;

    closed spec fn view(&self) -> int {
        self.micros as int
    }
}

impl Timestamp {
    #[verifier::type_invariant]
    spec fn has_date(self) -> bool {
        utc_civil_date(self.micros as int) is Some
    }

    /// The instant `micros` microseconds after the Unix epoch, unless no
    /// calendar date can be given for it.
    pub fn from_micros(micros: i64) -> (r: Option<Timestamp>)
        ensures
            r is Some <==> utc_civil_date(micros as int) is Some,
            r matches Some(t) ==> t@ == micros,
    {
        match utc_civil_date_of(micros) {
            Some(_) => Some(Timestamp { micros }),
            None => None,
        }
    }

    /// An instant is a number of microseconds that fits 64 bits.
    pub proof fn lemma_fits(self)
        ensures
            i64::MIN <= self@ <= i64::MAX,
    {
    }

    /// Microseconds since the Unix epoch.
    pub fn micros(&self) -> (m: i64)
        ensures
            m == self@,
    {
        self.micros
    }
}

/// A calendar date, for display.
#[derive(Clone, Copy, Debug, PartialEq, Eq)]
pub struct Date {
    pub month: u32,
    pub day: u32,
    pub year: i32,
}

impl Date {
    /// The date on which `at` falls in UTC.
    pub open spec fn of(at: Timestamp) -> Date {
        let parts = utc_civil_date(at@)->0;
        Date { month: parts.1 as u32, day: parts.2 as u32, year: parts.0 as i32 }
    }

    /// Projects an instant onto its calendar date in UTC.
    pub fn from(date: Timestamp) -> (d: Date)
        ensures
            d == Date::of(date),
            1 <= d.month <= 12,
            1 <= d.day <= 31,
    {
        proof {
            use_type_invariant(&date);
        }
        match utc_civil_date_of(date.micros) {
            Some((year, month, day)) => Date { month, day, year },
            None => vstd::pervasive::unreached(),
        }
    }
}

} // verus!
