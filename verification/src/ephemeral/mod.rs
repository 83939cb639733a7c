//! Ephemeral presence: in-memory awareness, never persisted.
use vstd::prelude::*;

pub mod auth;
pub mod inbound;
pub mod outbound;
pub mod store;

verus! {

/// Milliseconds between local heartbeat re-publishes (sender side).
pub const PRESENCE_HEARTBEAT_MS: u64 = 2_500;

/// Milliseconds before an entry with no heartbeat is considered stale and
/// swept from the in-memory store.
pub const PRESENCE_TTL_MS: u64 = 7_000;

/// How far a received envelope's signed `sent_at_ms` may sit from the
/// receiver's clock, in either direction, before it is dropped as a replay.
/// Equal to the TTL: a recorded envelope stops being fresh no later than the
/// entry it could resurrect expires.
pub const PRESENCE_MAX_SKEW_MS: u64 = 7_000;

/// Maximum byte length of a single ephemeral awareness slice (16 KiB).
pub const EPHEMERAL_MAX_BYTES: usize = 16_384;

/// The freshness window closes no later than the sweep that would make a
/// replay effective.
pub proof fn lemma_skew_within_ttl()
    ensures
        PRESENCE_MAX_SKEW_MS <= PRESENCE_TTL_MS,
{
}

/// Milliseconds since the UNIX epoch, the single wall-clock reading the whole
/// presence subsystem uses; `0` when the clock reads before the epoch.
pub fn now_ms() -> u64 {
    crate::clock::now_ms()
}

} // verus!
