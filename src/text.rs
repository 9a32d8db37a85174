//! Text conversions that the tool layer takes from std and chrono.
use vstd::prelude::*;
use crate::date::CalendarDate;
use chrono::Datelike;

verus! {

/// What `str::trim` leaves of a text.
pub uninterp spec fn trimmed_of(s: Seq<char>) -> Seq<char>;

/// What `str::to_lowercase` makes of a text.
pub uninterp spec fn lowercase_of(s: Seq<char>) -> Seq<char>;

/// The year, month and day that chrono reads from a text in the form
/// `%Y-%m-%d`, if it reads a date.
pub uninterp spec fn iso_date_parsed_from(s: Seq<char>) -> Option<(i32, u32, u32)>;

/// The text that chrono writes for a day in the form `%Y-%m-%d`.
pub uninterp spec fn iso_text_of(year: i32, month: u32, day: u32) -> Seq<char>;

/// The RFC 3339 text that chrono writes for a UTC instant given in
/// milliseconds since the Unix epoch.
pub uninterp spec fn rfc3339_of(millis: i64) -> Seq<char>;

/// Relies on `str::trim`: the text without leading and trailing white space.
#[verifier::external_body]
pub(crate) fn trim_text(s: &str) -> (r: &str)
    ensures
        r@ == trimmed_of(s@),
{
    s.trim()
}

/// Relies on `str::to_lowercase`.
#[verifier::external_body]
pub(crate) fn lowercase_text(s: &str) -> (r: String)
    ensures
        r@ == lowercase_of(s@),
{
    s.to_lowercase()
}

/// Relies on chrono's `NaiveDate::parse_from_str` with the format `%Y-%m-%d`;
/// what it returns is a date that exists.
#[verifier::external_body]
pub(crate) fn parse_iso_date(s: &str) -> (r: Option<(i32, u32, u32)>)
    ensures
        r == iso_date_parsed_from(s@),
        r matches Some(t) ==> (CalendarDate { year: t.0, month: t.1, day: t.2 }).wf(),
{
    match chrono::NaiveDate::parse_from_str(s, "%Y-%m-%d") {
        Ok(d) => Some((d.year(), d.month(), d.day())),
        Err(_) => None,
    }
}

/// Relies on chrono's `NaiveDate::format` with `%Y-%m-%d`, for a day that
/// exists.
#[verifier::external_body]
pub(crate) fn iso_date_text(d: CalendarDate) -> (r: String)
    ensures
        d.wf() ==> r@ == iso_text_of(d.year, d.month, d.day),
{
    match chrono::NaiveDate::from_ymd_opt(d.year, d.month, d.day) {
        Some(nd) => nd.format("%Y-%m-%d").to_string(),
        None => String::new(),
    }
}

/// Relies on chrono's `DateTime::from_timestamp_millis` and `to_rfc3339`, for
/// an instant within chrono's range.
#[verifier::external_body]
pub(crate) fn rfc3339_text(millis: i64) -> (r: String)
    ensures
        r@ == rfc3339_of(millis),
{
    match chrono::DateTime::from_timestamp_millis(millis) {
        Some(t) => t.to_rfc3339(),
        None => String::new(),
    }
}

} // verus!
