//! Parsing of the timestamp strings that the platform APIs return.
//!
//! Both platforms report an event's creation instant as a relaxed RFC 3339
//! string. The store keeps timestamps as whole seconds since the Unix epoch,
//! so the parse result is reduced to that value. Events whose timestamp does
//! not parse are skipped by the persistence engine.

use vstd::prelude::*;

verus! {

/// The instant, in whole seconds since the Unix epoch, that a relaxed
/// RFC 3339 timestamp string denotes, or `None` when the string does not
/// parse. The result depends on the characters of the string alone.
pub uninterp spec fn parsed_utc_seconds(s: Seq<char>) -> Option<i64>;

/// Relies on chrono's `FromStr for DateTime<Utc>` (a relaxed form of
/// RFC 3339, deterministic in the input string) and on
/// `DateTime::timestamp`, which returns the denoted instant as whole
/// seconds since the Unix epoch.
#[verifier::external_body]
pub fn parse_event_timestamp(s: &str) -> (r: Option<i64>)
    ensures
        r == parsed_utc_seconds(s@),
{
    match s.parse::<chrono::DateTime<chrono::Utc>>() {
        Ok(dt) => Some(dt.timestamp()),
        Err(_) => None,
    }
}

} // verus!
