//! Reading the completion timestamps that grading results carry.

use vstd::prelude::*;

verus! {

/// The instant denoted by an RFC 3339 date-and-time text, in
/// milliseconds since the Unix epoch, or `None` when the text is not a
/// valid RFC 3339 date-and-time. A function of the characters alone.
pub uninterp spec fn rfc3339_millis(s: Seq<char>) -> Option<i64>;

/// Relies on chrono's `DateTime::parse_from_rfc3339`, which reads an
/// RFC 3339 text, and `DateTime::timestamp_millis`, which carries the
/// parsed instant as a plain count; both depend on their input alone.
#[verifier::external_body]
pub(crate) fn parse_rfc3339_millis(s: &str) -> (r: Option<i64>)
    ensures
        r == rfc3339_millis(s@),
{
    match chrono::DateTime::parse_from_rfc3339(s) {
        Ok(dt) => Some(dt.timestamp_millis()),
        Err(_) => None,
    }
}

} // verus!
