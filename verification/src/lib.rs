//! Verified decision core of a node's network-event handlers: ephemeral
//! presence (authentication, freshness and the in-memory awareness store),
//! readiness beacons, TEE trigger fail-over planning, gossip topic parsing,
//! state-delta authorization, fencing and the decisions along the delta
//! receive / apply / replay / parent-fetch paths, the mutually authenticated
//! sender-key exchange, namespace governance routing, the specialized-node
//! invite table, blob access control and hash heartbeat divergence tracking.
//!
//! Every lookup, send and wait is the caller's: the functions here take what
//! those said and decide what comes next.
use vstd::prelude::*;

pub mod apply_flow;
pub mod blob_access;
pub mod bytes;
pub mod clock;
pub mod crypto;
pub mod delta_auth;
pub mod delta_flow;
pub mod ephemeral;
pub mod heartbeat;
pub mod invites;
pub mod key_share;
pub mod keyed;
pub mod namespace;
pub mod parent_fetch;
pub mod readiness;
pub mod replay_flow;
pub mod tee;
pub mod topics;
pub mod text;

verus! {

} // verus!
