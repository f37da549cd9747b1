//! Timestamp reading. Log lines carry RFC 3339 timestamps as strings; for
//! ordering sessions they are read as milliseconds since the Unix epoch.

use vstd::prelude::*;

verus! {

/// Epoch milliseconds denoted by the timestamp text `s`, or `None` when the
/// text is not a well-formed timestamp.
pub uninterp spec fn ts_of(s: Seq<char>) -> Option<i64>;

/// Relies on chrono's `FromStr for DateTime<Utc>` (a relaxed RFC 3339 parse)
/// and on `DateTime::timestamp_millis`: both depend on the characters of `s`
/// alone, so the reading is one fixed function of the text.
#[verifier::external_body]
pub(crate) fn parse_timestamp(s: &str) -> (r: Option<i64>)
    ensures
        r == ts_of(s@),
{
    s.parse::<chrono::DateTime<chrono::Utc>>().ok().map(|dt| dt.timestamp_millis())
}

} // verus!
