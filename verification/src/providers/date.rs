//! Reading the dates that a provider's page shows.
//!
//! The dates are parsed by the `chrono` crate, as UTC. What a text means
//! under a format is a function of the two alone; a `spec` function here
//! names it, and the contracts built on top speak of that name.

use vstd::prelude::*;
use chrono::{TimeZone, Utc};

verus! {

/// The seconds since the epoch of the UTC date and time that `text` writes
/// in the `strftime` format `format`; `None` where it does not follow it.
pub uninterp spec fn utc_seconds(text: Seq<char>, format: Seq<char>) -> Option<i64>;

/// `TimeZone::datetime_from_str` on `Utc`, then `DateTime::timestamp`: the
/// seconds since the epoch that `utc_seconds` names, or `None` where the
/// parser rejects the text.
#[verifier::external_body]
pub(crate) fn parse_utc_seconds(text: &str, format: &str) -> (r: Option<i64>)
    ensures
        r == utc_seconds(text@, format@),
{
    #[allow(deprecated)]
    match Utc.datetime_from_str(text, format) {
        Ok(moment) => Some(moment.timestamp()),
        Err(_) => None,
    }
}

/// The timestamp that a lock records for a count of seconds: the same
/// number read as unsigned, so that a moment before the epoch counts as
/// later than any after it.
pub open spec fn stamp_of(seconds: i64) -> u64 {
    seconds as u64
}

/// The timestamp that a lock records for a count of seconds.
pub fn timestamp_of(seconds: i64) -> (r: u64)
    ensures
        r == stamp_of(seconds),
{
    #[verifier::truncate]
    (seconds as u64)
}

} // verus!
