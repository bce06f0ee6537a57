//! The current time, and renderings of a time in UTC from `chrono`.

use vstd::prelude::*;
use vstd::string::StringExecFns;
use crate::error::RiceForgeError;
use crate::models::Timestamp;

verus! {

/// The rendering, with the `strftime`-style format `fmt`, of the instant
/// `secs` seconds and `nanos` nanoseconds after the Unix epoch in UTC; `None`
/// when that instant is out of `chrono`'s range or `nanos` is invalid.
pub uninterp spec fn utc_text(secs: i64, nanos: u32, fmt: Seq<char>) -> Option<Seq<char>>;

/// The formats this library renders times with: the compact backup id
/// (`%Y%m%d_%H%M%S`), a date (`%Y-%m-%d`), and a date with the time of day
/// (`%Y-%m-%d %H:%M UTC`). Each is a valid format, so rendering cannot fail.
pub open spec fn known_format(fmt: Seq<char>) -> bool {
    fmt == "%Y%m%d_%H%M%S"@ || fmt == "%Y-%m-%d"@ || fmt == "%Y-%m-%d %H:%M UTC"@
}

/// Reads the system clock (`SystemTime::now`, then `duration_since` the Unix
/// epoch), as whole seconds and the nanoseconds past them; `None` when the
/// clock reads earlier than the epoch.
///
/// Nothing is stated of the result: it is the clock's reading.
#[verifier::external_body]
pub fn utc_now() -> (r: Option<Timestamp>) {
    match std::time::SystemTime::now().duration_since(std::time::UNIX_EPOCH) {
        Ok(d) => Some(Timestamp { secs: d.as_secs() as i64, nanos: d.subsec_nanos() }),
        Err(_) => None,
    }
}

/// Calls `chrono::DateTime::<Utc>::from_timestamp` on the timestamp and, on
/// success, `format(fmt)` on the result, read as text.
///
/// The text is named `utc_text` of the two numbers and the format: a
/// calendar computation of its arguments alone, which this library does not
/// restate. The format must be one of `known_format`, all of which `chrono`
/// renders without error.
#[verifier::external_body]
pub fn format_utc(ts: Timestamp, fmt: &str) -> (r: Option<String>)
    requires
        known_format(fmt@),
    ensures
        r.deep_view() == utc_text(ts.secs, ts.nanos, fmt@),
{
    match chrono::DateTime::<chrono::Utc>::from_timestamp(ts.secs, ts.nanos) {
        Some(dt) => Some(dt.format(fmt).to_string()),
        None => None,
    }
}

/// The message of the error for a clock that reads before the Unix epoch.
pub open spec fn clock_error_message() -> Seq<char> {
    "system clock reads before the Unix epoch"@
}

/// The error for a clock that reads before the Unix epoch.
pub fn clock_error() -> (r: RiceForgeError)
    ensures
        r matches RiceForgeError::Io(m) && m@ == clock_error_message(),
{
    RiceForgeError::Io(String::from_str("system clock reads before the Unix epoch"))
}

} // verus!
