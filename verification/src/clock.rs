//! The wall clock and its rendering, behind trusted wrappers.
//!
//! Everything here is a thin boundary to the `chrono` crate: reading the
//! current time, and rendering a timestamp for a file name. The rest of
//! the crate takes timestamps as plain `i64` milliseconds.

use vstd::prelude::*;

verus! {

/// The `%Y%m%d_%H%M%S` UTC rendering of a millisecond timestamp, as
/// `chrono` produces it. The rendering depends on the timestamp alone.
pub uninterp spec fn utc_compact_of(ms: i64) -> Seq<char>;

/// The last millisecond of the year 9999 UTC: every timestamp from the
/// epoch up to here is promised a rendering.
pub const UTC_RENDER_MAX_MS: i64 = 253_402_300_799_999;

/// Relies on chrono's `Utc::now` and `DateTime::timestamp_millis`: the
/// current wall-clock time, in milliseconds since the Unix epoch. Nothing
/// is promised of the value.
#[verifier::external_body]
pub(crate) fn now_millis() -> i64 {
    chrono::Utc::now().timestamp_millis()
}

/// Relies on chrono's `DateTime::<Utc>::from_timestamp_millis` and
/// `DateTime::format`: renders a timestamp as `YYYYMMDD_HHMMSS` in UTC.
/// `from_timestamp_millis` returns `None` only outside chrono's
/// representable range, which contains all of the years 1970 through 9999
/// (its day count stays far below the `NaiveDate` bounds), so within that
/// range a rendering is promised.
#[verifier::external_body]
pub(crate) fn format_utc_compact(ms: i64) -> (r: Option<String>)
    ensures
        r is Some ==> r->0@ == utc_compact_of(ms),
        0 <= ms <= UTC_RENDER_MAX_MS ==> r is Some,
{
    match chrono::DateTime::<chrono::Utc>::from_timestamp_millis(ms) {
        Some(t) => Some(format!("{}", t.format("%Y%m%d_%H%M%S"))),
        None => None,
    }
}

} // verus!
