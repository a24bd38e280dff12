use vstd::prelude::*;

verus! {

/// Relies on `chrono::Utc::now` paired with `chrono::DateTime::timestamp`:
/// the current wall-clock time as whole seconds since the Unix epoch.
/// Nothing is promised of the value; it depends on the machine's clock.
/// On a system clock set before the epoch, `chrono::Utc::now` itself
/// aborts the process.
#[verifier::external_body]
fn now_timestamp() -> i64 {
    chrono::Utc::now().timestamp()
}

/// The current wall-clock time as whole seconds since the Unix epoch.
/// The value depends on the machine's clock, so no more can be promised
/// of it. A negative reading cannot actually reach the clamp below
/// (chrono aborts on pre-epoch clocks before returning one); the branch
/// only keeps the conversion total.
pub fn current_time_seconds() -> u64 {
    let t = now_timestamp();
    if t < 0 {
        0
    } else {
        t as u64
    }
}

} // verus!
