//! The wall clock, and bucket formatting through chrono.
//!
//! An instant is carried as milliseconds since the Unix epoch. Formatting in
//! UTC is a fixed function of the instant and the pattern; formatting in
//! local time additionally depends on the machine's time zone, so nothing is
//! promised of it.

use std::fmt::Write;
use vstd::prelude::*;

verus! {

/// The strftime-style UTC rendering of an instant under a pattern: the same
/// on every machine. An instant outside the representable range, or a
/// pattern with an invalid specifier, renders as an empty or truncated
/// string, still deterministically.
pub uninterp spec fn utc_bucket(millis: i64, pattern: Seq<char>) -> Seq<char>;

/// Relies on chrono's `DateTime::<Utc>::from_timestamp_millis` and its
/// strftime formatting, whose result depends on the instant and the pattern
/// alone (chrono uses fixed English names, no locale).
#[verifier::external_body]
pub fn format_utc_millis(millis: i64, pattern: &str) -> (r: String)
    ensures
        r@ == utc_bucket(millis, pattern@),
{
    let mut s = String::new();
    if let Some(dt) = chrono::DateTime::<chrono::Utc>::from_timestamp_millis(millis) {
        let _ = write!(s, "{}", dt.format(pattern));
    }
    s
}

/// Relies on chrono's conversion to the machine's local time zone and its
/// strftime formatting; the result depends on that time zone, so nothing is
/// promised of it.
#[verifier::external_body]
pub fn format_local_millis(millis: i64, pattern: &str) -> String {
    let mut s = String::new();
    if let Some(dt) = chrono::DateTime::<chrono::Utc>::from_timestamp_millis(millis) {
        let _ = write!(s, "{}", dt.with_timezone(&chrono::Local).format(pattern));
    }
    s
}

/// Relies on `std::time::SystemTime::now`: the current wall-clock instant,
/// of which nothing is promised. A clock before the epoch or beyond the
/// representable range yields a boundary value rather than a panic.
#[verifier::external_body]
pub fn now_millis() -> i64 {
    match std::time::SystemTime::now().duration_since(std::time::UNIX_EPOCH) {
        Ok(d) => i64::try_from(d.as_millis()).unwrap_or(i64::MAX),
        Err(_) => 0,
    }
}

/// Formats the rotation bucket for an instant under a pattern and timezone
/// mode.
pub fn bucket_for(millis: i64, pattern: &str, utc: bool) -> (r: String)
    ensures
        utc ==> r@ == utc_bucket(millis, pattern@),
{
    if utc {
        format_utc_millis(millis, pattern)
    } else {
        format_local_millis(millis, pattern)
    }
}

} // verus!
