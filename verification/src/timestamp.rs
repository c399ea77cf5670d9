//! The year in which a video was published.

use vstd::prelude::*;
use chrono::{DateTime, Datelike, Utc};

verus! {

/// The error with which `chrono` rejects a timestamp.
#[verifier::external_type_specification]
#[verifier::external_body]
pub struct ExParseError(chrono::ParseError);

/// The calendar year, in UTC, of the instant that `chrono` reads from an
/// RFC 3339 timestamp; `None` for a text that `chrono` rejects.
pub uninterp spec fn rfc3339_utc_year(timestamp: Seq<char>) -> Option<int>;

/// Calls `chrono::DateTime::parse_from_rfc3339`, moves the instant to UTC
/// with `DateTime::with_timezone` and reads `Datelike::year`. Believed, not
/// proved: the call succeeds exactly on the texts for which
/// `rfc3339_utc_year` is `Some`, and then returns that year.
#[verifier::external_body]
fn parse_utc_year(timestamp: &str) -> (year: Result<i32, chrono::ParseError>)
    ensures
        year is Ok <==> rfc3339_utc_year(timestamp@) is Some,
        year matches Ok(y) ==> rfc3339_utc_year(timestamp@) == Some(y as int),
{
    match DateTime::parse_from_rfc3339(timestamp) {
        Ok(instant) => Ok(instant.with_timezone(&Utc).year()),
        Err(e) => Err(e),
    }
}

/// The UTC year of an RFC 3339 timestamp, or `None` where the text is no such
/// timestamp.
pub fn extract_year(date_str: &str) -> (year: Option<i32>)
    ensures
        rfc3339_utc_year(date_str@) == match year {
            Some(y) => Some(y as int),
            None => None,
        },
{
    match parse_utc_year(date_str) {
        Ok(y) => Some(y),
        Err(_) => None,
    }
}

} // verus!
