use vstd::prelude::*;

verus! {

/// Relies on std's `SystemTime::now`, chrono's `From<SystemTime>` for
/// `DateTime<Utc>` and `DateTime::timestamp_millis`: the current time as
/// milliseconds since the Unix epoch, negative for a clock set before it.
/// The value depends on the clock, so nothing is promised of it. The
/// conversion fails only for a clock outside chrono's range of some
/// 262,000 years on either side of the epoch.
#[verifier::external_body]
pub(crate) fn utc_now_millis() -> (r: i64) {
    chrono::DateTime::<chrono::Utc>::from(std::time::SystemTime::now()).timestamp_millis()
}

} // verus!
