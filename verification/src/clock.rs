//! UTC timestamps for CoT events: seconds since the Unix epoch, rendered
//! through chrono as ISO-8601 / RFC 3339 text at second precision with an
//! explicit `Z` designator.
use vstd::prelude::*;

verus! {

/// Largest timestamp the renderer accepts: the last second of year 9999.
pub const TS_MAX: i64 = 253402300799;

/// The ISO-8601 rendering, at second precision with the `Z` designator, of a
/// count of seconds since the Unix epoch, e.g. `"2018-01-26T18:30:09Z"`.
pub uninterp spec fn rfc3339_of(secs: int) -> Seq<char>;

/// Relies on chrono's `DateTime::<Utc>::from_timestamp` (defined for every
/// admitted second count) and `DateTime::to_rfc3339_opts(SecondsFormat::Secs,
/// true)`: the rendering is a function of the timestamp alone.
#[verifier::external_body]
pub(crate) fn rfc3339_utc(secs: i64) -> (r: String)
    requires
        0 <= secs <= TS_MAX,
    ensures
        r@ == rfc3339_of(secs as int),
{
    match chrono::DateTime::<chrono::Utc>::from_timestamp(secs, 0) {
        Some(dt) => dt.to_rfc3339_opts(chrono::SecondsFormat::Secs, true),
        None => String::new(),
    }
}

/// Relies on chrono's `Utc::now` and `DateTime::timestamp`: seconds since
/// the Unix epoch by the system clock. Nothing is promised of the value.
#[verifier::external_body]
pub(crate) fn now_unix_secs() -> i64 {
    chrono::Utc::now().timestamp()
}

} // verus!
