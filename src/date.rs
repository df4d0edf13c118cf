//! Calendar dates read from text in one of two accepted encodings.

use vstd::prelude::*;

verus! {

/// A calendar date held as its year, month and day numbers.
#[derive(Clone, Copy, Debug, PartialEq, Eq, Structural)]
pub struct CalendarDate {
    pub year: i32,
    pub month: u32,
    pub day: u32,
}

impl CalendarDate {
    /// The date as a triple of mathematical integers.
    pub open spec fn triple(self) -> (int, int, int) {
        (self.year as int, self.month as int, self.day as int)
    }

    /// Month and day stay within their calendar ranges.
    pub open spec fn wf(self) -> bool {
        1 <= self.month <= 12 && 1 <= self.day <= 31
    }
}

/// The date, as (year, month, day), that chrono reads from the text `s`
/// under the strftime-style format `fmt`, or `None` where it reads none.
pub uninterp spec fn chrono_date_parse(s: Seq<char>, fmt: Seq<char>) -> Option<(int, int, int)>;

/// The ISO encoding `YYYY-MM-DD`.
pub open spec fn iso_format() -> Seq<char> {
    "%Y-%m-%d"@
}

/// The US encoding `MM/DD/YYYY`.
pub open spec fn us_format() -> Seq<char> {
    "%m/%d/%Y"@
}

/// The date that a text denotes: the ISO reading where there is one, else
/// the US reading, else none.
pub open spec fn date_of(s: Seq<char>) -> Option<(int, int, int)> {
    match chrono_date_parse(s, iso_format()) {
        Some(d) => Some(d),
        None => chrono_date_parse(s, us_format()),
    }
}

/// An optional date seen as an optional triple.
pub open spec fn date_view(d: Option<CalendarDate>) -> Option<(int, int, int)> {
    match d {
        Some(d) => Some(d.triple()),
        None => None,
    }
}

/// Relies on chrono's `NaiveDate::parse_from_str` (and `Datelike`'s
/// `year`, `month`, `day`): the date read from `s` under `fmt`, which
/// depends on the two texts alone; its month lies in 1..=12 and its day in
/// 1..=31, as `Datelike` documents.
#[verifier::external_body]
fn parse_with_format(s: &str, fmt: &str) -> (r: Option<CalendarDate>)
    ensures
        date_view(r) == chrono_date_parse(s@, fmt@),
        r matches Some(d) ==> d.wf(),
{
    match chrono::NaiveDate::parse_from_str(s, fmt) {
        Ok(d) => Some(CalendarDate {
            year: chrono::Datelike::year(&d),
            month: chrono::Datelike::month(&d),
            day: chrono::Datelike::day(&d),
        }),
        Err(_) => None,
    }
}

/// Reads a date in the ISO encoding, or failing that in the US encoding.
pub fn parse_date(s: &str) -> (r: Option<CalendarDate>)
    ensures
        date_view(r) == date_of(s@),
        r matches Some(d) ==> d.wf(),
{
    match parse_with_format(s, "%Y-%m-%d") {
        Some(d) => Some(d),
        None => parse_with_format(s, "%m/%d/%Y"),
    }
}

} // verus!
