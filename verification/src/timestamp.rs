//! RFC 3339 timestamps, parsed and formatted through `chrono`.

use core::fmt::Write;
use vstd::prelude::*;

verus! {

/// The instant an RFC 3339 timestamp denotes — seconds since the epoch and
/// the subsecond nanoseconds — or `None` where the text is not a valid
/// RFC 3339 timestamp.
pub uninterp spec fn rfc3339_instant(ts: Seq<char>) -> Option<(i64, u32)>;

/// The rendering of an RFC 3339 timestamp under a `chrono` format string,
/// or `None` where the timestamp does not parse or the format string is
/// rejected.
pub uninterp spec fn rfc3339_formatted(ts: Seq<char>, fmt: Seq<char>) -> Option<Seq<char>>;

/// Relies on chrono's `DateTime::parse_from_rfc3339`, `DateTime::timestamp`
/// and `DateTime::timestamp_subsec_nanos`: the instant an RFC 3339
/// timestamp denotes depends on its text alone.
#[verifier::external_body]
pub fn parse_rfc3339(ts: &str) -> (r: Option<(i64, u32)>)
    ensures
        r == rfc3339_instant(ts@),
{
    match chrono::DateTime::parse_from_rfc3339(ts) {
        Ok(dt) => Some((dt.timestamp(), dt.timestamp_subsec_nanos())),
        Err(_) => None,
    }
}

/// Relies on chrono's `DateTime::parse_from_rfc3339` and
/// `DateTime::format`: the rendered form of a timestamp depends on the
/// timestamp text and the format string alone.  A format string chrono
/// rejects surfaces as a formatting error, not a panic.
#[verifier::external_body]
pub fn format_rfc3339(ts: &str, fmt: &str) -> (r: Option<String>)
    ensures
        r.deep_view() == rfc3339_formatted(ts@, fmt@),
{
    let dt = match chrono::DateTime::parse_from_rfc3339(ts) {
        Ok(dt) => dt,
        Err(_) => return None,
    };
    let mut out = String::new();
    match write!(out, "{}", dt.format(fmt)) {
        Ok(()) => Some(out),
        Err(_) => None,
    }
}

} // verus!
