//! Calls into `chrono` for the current time and for RFC 3339 timestamps.
use vstd::prelude::*;

verus! {

/// What `chrono::DateTime::parse_from_rfc3339` gives for a text, in milliseconds
/// since the Unix epoch (`None` when the text is not RFC 3339).
pub uninterp spec fn rfc3339_millis(s: Seq<char>) -> Option<i64>;

/// What `chrono::DateTime::parse_from_rfc3339` gives for a text, in whole seconds
/// since the Unix epoch (`None` when the text is not RFC 3339).
pub uninterp spec fn rfc3339_seconds(s: Seq<char>) -> Option<i64>;

/// Parses an RFC 3339 timestamp with `chrono::DateTime::parse_from_rfc3339`
/// and reads `timestamp_millis`. The result is a function of the text alone.
#[verifier::external_body]
pub(crate) fn parse_rfc3339_millis(s: &str) -> (r: Option<i64>)
    ensures
        r == rfc3339_millis(s@),
{
    match chrono::DateTime::parse_from_rfc3339(s) {
        Ok(parsed) => Some(parsed.timestamp_millis()),
        Err(_) => None,
    }
}

/// Parses an RFC 3339 timestamp with `chrono::DateTime::parse_from_rfc3339`
/// and reads `timestamp` (seconds). The result is a function of the text alone.
#[verifier::external_body]
pub(crate) fn parse_rfc3339_seconds(s: &str) -> (r: Option<i64>)
    ensures
        r == rfc3339_seconds(s@),
{
    match chrono::DateTime::parse_from_rfc3339(s) {
        Ok(parsed) => Some(parsed.timestamp()),
        Err(_) => None,
    }
}

/// The current time from `chrono::Utc::now().timestamp_millis()`. Nothing is
/// promised of the value: it is the machine's clock.
#[verifier::external_body]
pub(crate) fn now_ms() -> i64 {
    chrono::Utc::now().timestamp_millis()
}

/// The current time from `chrono::Utc::now().timestamp()`, in seconds.
/// Nothing is promised of the value: it is the machine's clock.
#[verifier::external_body]
pub(crate) fn now_seconds() -> i64 {
    chrono::Utc::now().timestamp()
}

} // verus!
