//! RFC 3339 instants, compared as instants across offsets.

use vstd::prelude::*;

verus! {

/// The instant an RFC 3339 timestamp denotes, as whole seconds since the Unix
/// epoch and the nanoseconds past that second; nothing when the text does
/// not parse.
pub uninterp spec fn rfc3339_instant(s: Seq<char>) -> Option<(i64, u32)>;

/// Wraps `chrono::DateTime::parse_from_rfc3339`, then reads the parsed
/// instant with `timestamp` and `timestamp_subsec_nanos`.
#[verifier::external_body]
pub(crate) fn parse_rfc3339(s: &str) -> (r: Option<(i64, u32)>)
    ensures
        r == rfc3339_instant(s@),
{
    match chrono::DateTime::parse_from_rfc3339(s) {
        Ok(instant) => Some((instant.timestamp(), instant.timestamp_subsec_nanos())),
        Err(_) => None,
    }
}

/// Whether instant `a` is at or after instant `b`.
pub open spec fn instant_at_or_after(a: (i64, u32), b: (i64, u32)) -> bool {
    a.0 > b.0 || (a.0 == b.0 && a.1 >= b.1)
}

/// Whether `now` is at or after `expires_at` when both parse as RFC 3339
/// timestamps; nothing when either does not.
pub open spec fn rfc3339_at_or_after_spec(now: Seq<char>, expires_at: Seq<char>) -> Option<bool> {
    match (rfc3339_instant(now), rfc3339_instant(expires_at)) {
        (Some(a), Some(b)) => Some(instant_at_or_after(a, b)),
        _ => None,
    }
}

/// Whether `now` is at or after `expires_at`, compared as instants; nothing
/// when either does not parse.
pub fn rfc3339_at_or_after(now: &str, expires_at: &str) -> (r: Option<bool>)
    ensures
        r == rfc3339_at_or_after_spec(now@, expires_at@),
{
    let a = match parse_rfc3339(now) {
        Some(a) => a,
        None => return None,
    };
    let b = match parse_rfc3339(expires_at) {
        Some(b) => b,
        None => return None,
    };
    Some(a.0 > b.0 || (a.0 == b.0 && a.1 >= b.1))
}

} // verus!
