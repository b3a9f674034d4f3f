//! Wall-clock time and date parsing, both provided by `chrono`.
//!
//! Timestamps are milliseconds since the Unix epoch, UTC.

use vstd::prelude::*;

verus! {

/// Calls `chrono::Utc::now` and converts the instant to milliseconds since
/// the Unix epoch. Nothing is promised about the value: it is the reading
/// of the system clock.
#[verifier::external_body]
pub(crate) fn now_millis() -> i64 {
    chrono::Utc::now().timestamp_millis()
}

/// The instant that `chrono::DateTime::parse_from_rfc2822` reads from a
/// text such as `Wed, 18 Feb 2015 23:16:09 GMT`, in milliseconds since the
/// Unix epoch, or `None` when the text is not such a date.
pub uninterp spec fn rfc2822_millis(text: Seq<char>) -> Option<i64>;

/// Calls `chrono::DateTime::parse_from_rfc2822` and converts the result to
/// milliseconds since the Unix epoch. The contract only names the outcome.
#[verifier::external_body]
pub(crate) fn parse_rfc2822(text: &str) -> (res: Option<i64>)
    ensures
        res == rfc2822_millis(text@),
{
    match chrono::DateTime::parse_from_rfc2822(text) {
        Ok(dt) => Some(dt.timestamp_millis()),
        Err(_) => None,
    }
}

} // verus!
