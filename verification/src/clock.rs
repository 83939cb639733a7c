//! The node's wall clock, in milliseconds since the UNIX epoch.
use vstd::prelude::*;

verus! {

#[verifier::external_type_specification]
#[verifier::external_body]
pub struct ExSystemTime(std::time::SystemTime);

/// Calls `std::time::SystemTime::now`. Nothing is claimed of the result: it
/// is the machine's clock.
#[verifier::external_body]
fn system_time_now() -> std::time::SystemTime {
    std::time::SystemTime::now()
}

/// Calls `SystemTime::duration_since(UNIX_EPOCH)`, keeping the `Ok` value.
/// `None` exactly when the clock reads before the epoch; nothing else is
/// claimed.
#[verifier::external_body]
fn duration_since_epoch(t: &std::time::SystemTime) -> Option<std::time::Duration> {
    t.duration_since(std::time::UNIX_EPOCH).ok()
}

/// Calls `Duration::as_millis`. Nothing is claimed of the result beyond its
/// type.
#[verifier::external_body]
fn duration_as_millis(d: &std::time::Duration) -> u128 {
    d.as_millis()
}

/// Milliseconds since the UNIX epoch; a clock that reads before the epoch
/// gives `0` (presence then freezes rather than expiring everything), and a
/// reading beyond `u64` is truncated to its low 64 bits.
pub fn now_ms() -> u64 {
    let now = system_time_now();
    match duration_since_epoch(&now) {
        Some(d) => {
            let ms = duration_as_millis(&d);
            #[verifier::truncate]
            (ms as u64)
        },
        None => 0,
    }
}

} // verus!
