//! Trusted boundary to `chrono`. Times are carried as UTC milliseconds;
//! parsing an RFC 3339 string is a function of the string alone and so gets
//! a name, while reading the clock promises nothing.

use vstd::prelude::*;

verus! {

/// The UTC milliseconds encoded by an RFC 3339 timestamp, `None` when the
/// string is not one.
pub uninterp spec fn rfc3339_millis(s: Seq<char>) -> Option<i64>;

/// Relies on `chrono::DateTime::parse_from_rfc3339` and
/// `chrono::DateTime::timestamp_millis`: the instant an RFC 3339 string
/// denotes, in UTC milliseconds, a function of the string alone.
#[verifier::external_body]
pub fn parse_rfc3339_millis(s: &str) -> (r: Option<i64>)
    ensures
        r == rfc3339_millis(s@),
{
    chrono::DateTime::parse_from_rfc3339(s).ok().map(|dt| dt.timestamp_millis())
}

/// Relies on `chrono::Utc::now`: the wall clock in UTC milliseconds. The
/// clock can say anything, so nothing is promised of the result.
#[verifier::external_body]
pub fn now_millis() -> (r: i64) {
    chrono::Utc::now().timestamp_millis()
}

} // verus!
