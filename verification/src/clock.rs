//! Timestamps: RFC 3339 text read as milliseconds since the Unix epoch.

use vstd::prelude::*;

verus! {

/// The instant that `text` denotes when read as an RFC 3339 date and time,
/// in milliseconds since 1970-01-01T00:00:00Z without leap seconds, or
/// `None` when `text` is not such a date and time.
pub uninterp spec fn rfc3339_millis(text: Seq<char>) -> Option<i64>;

/// Reads `text` with `chrono::DateTime::parse_from_rfc3339` and converts the
/// instant with `timestamp_millis`. The parser looks at nothing but the text,
/// so the same text always gives the same answer; no more is claimed here
/// than that the answer is the one named [`rfc3339_millis`].
#[verifier::external_body]
pub(crate) fn parse_rfc3339(text: &str) -> (millis: Option<i64>)
    ensures
        millis == rfc3339_millis(text@),
{
    match chrono::DateTime::parse_from_rfc3339(text) {
        Ok(instant) => Some(instant.timestamp_millis()),
        Err(_) => None,
    }
}

/// Reads the clock with `chrono::Utc::now` and writes the instant with
/// `to_rfc3339_opts`, to the millisecond and with `Z` for the offset.
/// Nothing is claimed of the text: the clock says what it says, and a
/// clock set beyond the year 9999 gives a text that [`rfc3339_millis`] does
/// not read. On a machine whose clock stands before 1970 `now` does not
/// return.
#[verifier::external_body]
pub(crate) fn now_rfc3339() -> (text: String) {
    chrono::Utc::now().to_rfc3339_opts(chrono::SecondsFormat::Millis, true)
}

} // verus!
