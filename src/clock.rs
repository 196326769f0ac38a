//! The wall clock, read through std and written as text through chrono.

use vstd::prelude::*;

verus! {

/// Relies on `SystemTime::now` and `SystemTime::duration_since(UNIX_EPOCH)`:
/// the whole seconds and the nanoseconds past them since the Unix epoch, or
/// `None` when the system clock reads an earlier time. The nanosecond part
/// is below one second, as `Duration::subsec_nanos` documents.
#[verifier::external_body]
fn since_epoch() -> (r: Option<(u64, u32)>)
    ensures
        r matches Some((_, n)) ==> n < 1_000_000_000,
{
    std::time::SystemTime::now()
        .duration_since(std::time::UNIX_EPOCH)
        .ok()
        .map(|d| (d.as_secs(), d.subsec_nanos()))
}

/// Relies on `chrono::DateTime::from_timestamp` and `DateTime::to_rfc3339`:
/// the UTC time `secs` seconds and `nanos` nanoseconds after the Unix epoch
/// as RFC 3339 text, which always holds a date and a time; `None` when the
/// time lies outside chrono's range.
#[verifier::external_body]
fn rfc3339_at(secs: i64, nanos: u32) -> (r: Option<String>)
    ensures
        r matches Some(s) ==> s@.len() > 0,
{
    chrono::DateTime::from_timestamp(secs, nanos).map(|t| t.to_rfc3339())
}

/// The current UTC time as RFC 3339 text, or `None` when the system clock
/// reads a time before the Unix epoch or beyond what can be written.
pub(crate) fn now_rfc3339() -> (r: Option<String>)
    ensures
        r matches Some(s) ==> s@.len() > 0,
{
    match since_epoch() {
        None => None,
        Some((secs, nanos)) => {
            if secs > i64::MAX as u64 {
                None
            } else {
                rfc3339_at(secs as i64, nanos)
            }
        },
    }
}

} // verus!
