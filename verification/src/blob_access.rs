//! Access control for serving blobs to peers, and the decision to prefetch
//! an announced blob.
//!
//! A requested blob is served when it is the context application's public
//! bundle, or when the request carries a fresh authentication envelope signed
//! by a member of the context (directly or through the context's group).
use vstd::prelude::*;

use crate::bytes::bytes32_eq;
use crate::crypto::{borsh_blob_auth_payload, ed25519_signature_valid, ed25519_verify, lemma_u64_le_injective,
    u64_le};

verus! {

/// How old (seconds) a signed request may be.
pub const MAX_REQUEST_AGE_SECS: u64 = 30;

/// How far (seconds) into the future a signed request may be stamped.
pub const MAX_REQUEST_FUTURE_AGE_SECS: u64 = 10;

/// Largest blob an availability node prefetches on an announcement (500 MiB).
pub const MAX_PREFETCH_SIZE_BYTES: u64 = 524_288_000;

/// The authentication envelope of a blob request.
#[derive(Debug, PartialEq, Eq, Clone, Copy)]
pub struct BlobAuth {
    pub public_key: [u8; 32],
    pub signature: [u8; 64],
    /// UNIX seconds at signing.
    pub timestamp: u64,
}

/// The replay window: no older than [`MAX_REQUEST_AGE_SECS`] and no further
/// ahead than [`MAX_REQUEST_FUTURE_AGE_SECS`] (both bounds saturating).
pub open spec fn request_fresh(now_secs: u64, timestamp: u64) -> bool {
    let oldest = if now_secs >= MAX_REQUEST_AGE_SECS {
        now_secs - MAX_REQUEST_AGE_SECS
    } else {
        0
    };
    let newest = if now_secs + MAX_REQUEST_FUTURE_AGE_SECS > u64::MAX {
        u64::MAX as int
    } else {
        now_secs + MAX_REQUEST_FUTURE_AGE_SECS
    };
    oldest <= timestamp && timestamp <= newest
}

/// Whether a request stamped `timestamp` is inside the replay window at
/// `now_secs`.
pub fn blob_request_fresh(now_secs: u64, timestamp: u64) -> (res: bool)
    ensures
        res == request_fresh(now_secs, timestamp),
{
    let oldest = now_secs.saturating_sub(MAX_REQUEST_AGE_SECS);
    let newest = now_secs.saturating_add(MAX_REQUEST_FUTURE_AGE_SECS);
    !(timestamp < oldest || timestamp > newest)
}

/// The bytes a blob request signs: blob id, context id, timestamp.
pub open spec fn blob_auth_bytes(blob_id: Seq<u8>, context_id: Seq<u8>, timestamp: u64) -> Seq<u8> {
    blob_id + context_id + u64_le(timestamp)
}

/// The signed bytes bind the request: a signature over one blob request
/// covers no other blob, context or timestamp.
pub proof fn lemma_blob_auth_binds_request(
    blob_id: [u8; 32],
    context_id: [u8; 32],
    timestamp: u64,
    blob_id2: [u8; 32],
    context_id2: [u8; 32],
    timestamp2: u64,
)
    requires
        blob_auth_bytes(blob_id@, context_id@, timestamp) == blob_auth_bytes(
            blob_id2@,
            context_id2@,
            timestamp2,
        ),
    ensures
        blob_id@ == blob_id2@,
        context_id@ == context_id2@,
        timestamp == timestamp2,
{
    let p = blob_auth_bytes(blob_id@, context_id@, timestamp);
    let q = blob_auth_bytes(blob_id2@, context_id2@, timestamp2);
    assert(p.subrange(0, 32) =~= blob_id@);
    assert(q.subrange(0, 32) =~= blob_id2@);
    assert(p.subrange(32, 64) =~= context_id@);
    assert(q.subrange(32, 64) =~= context_id2@);
    assert(p.subrange(64, 72) =~= u64_le(timestamp));
    assert(q.subrange(64, 72) =~= u64_le(timestamp2));
    lemma_u64_le_injective(timestamp, timestamp2);
}

/// Borsh-serialize the signed payload of a blob request. Always `Ok`.
pub fn blob_auth_payload(blob_id: [u8; 32], context_id: [u8; 32], timestamp: u64) -> (res: Result<
    Vec<u8>,
    std::io::Error,
>)
    ensures
        res is Ok,
        res->Ok_0@ == blob_auth_bytes(blob_id@, context_id@, timestamp),
{
    borsh_blob_auth_payload(blob_id, context_id, timestamp)
}

/// An envelope authenticates a request at `now_secs`: present, fresh, and
/// signed by its key over the request's payload.
pub open spec fn envelope_valid(
    auth: Option<BlobAuth>,
    blob_id: Seq<u8>,
    context_id: Seq<u8>,
    now_secs: u64,
) -> bool {
    match auth {
        None => false,
        Some(a) => request_fresh(now_secs, a.timestamp) && ed25519_signature_valid(
            a.public_key@,
            blob_auth_bytes(blob_id, context_id, a.timestamp),
            a.signature@,
        ),
    }
}

/// Check a request's authentication envelope (before any membership lookup).
pub fn verify_blob_auth(auth: &Option<BlobAuth>, blob_id: [u8; 32], context_id: [u8; 32], now_secs: u64) -> (res:
    bool)
    ensures
        res == envelope_valid(*auth, blob_id@, context_id@, now_secs),
{
    match auth {
        None => false,
        Some(a) => {
            if !blob_request_fresh(now_secs, a.timestamp) {
                return false;
            }
            match blob_auth_payload(blob_id, context_id, a.timestamp) {
                Ok(message) => ed25519_verify(&a.public_key, message.as_slice(), &a.signature),
                Err(_) => false,
            }
        },
    }
}

/// Whether the requested blob is the context application's bytecode or
/// compiled bundle (served to anyone).
pub fn is_public_application_blob(blob_id: [u8; 32], app_blobs: Option<([u8; 32], [u8; 32])>) -> (res:
    bool)
    ensures
        res == (app_blobs matches Some(b) && (blob_id@ == b.0@ || blob_id@ == b.1@)),
{
    match app_blobs {
        None => false,
        Some((bytecode, compiled)) => bytes32_eq(&blob_id, &bytecode) || bytes32_eq(
            &blob_id,
            &compiled,
        ),
    }
}

/// Membership of the signer: a direct member of the context, or else a
/// member of the context's group. `None` for the group lookup means the
/// context is in no group.
pub fn signer_is_member(direct: bool, inherited: Option<bool>) -> (res: bool)
    ensures
        res == (direct || (inherited matches Some(m) && m)),
{
    if direct {
        true
    } else {
        match inherited {
            Some(m) => m,
            None => false,
        }
    }
}

/// The final access decision: no local context config denies; the public
/// application bundle is allowed; otherwise a valid envelope from a member.
pub fn blob_access_decision(
    context_known: bool,
    public_blob: bool,
    envelope_ok: bool,
    signer_member: bool,
) -> (res: bool)
    ensures
        res == (context_known && (public_blob || (envelope_ok && signer_member))),
{
    if !context_known {
        return false;
    }
    if public_blob {
        return true;
    }
    envelope_ok && signer_member
}

/// What to do with a blob announcement.
#[derive(Debug, PartialEq, Eq, Clone, Copy)]
pub enum PrefetchDecision {
    /// This node is not an availability node of the context.
    NotAvailabilityNode,
    /// The advertised size exceeds the transfer cap.
    TooLarge,
    /// The blob is already held.
    AlreadyHeld,
    /// All prefetch slots are busy.
    Busy,
    /// Fetch it.
    Fetch,
}

/// The prefetch decision, gates in order: availability membership, size
/// cap, already held, a free slot.
pub fn prefetch_decision(availability_node: bool, size: u64, already_held: bool, slot_free: bool) -> (d:
    PrefetchDecision)
    ensures
        !availability_node ==> d == PrefetchDecision::NotAvailabilityNode,
        availability_node && size > MAX_PREFETCH_SIZE_BYTES ==> d == PrefetchDecision::TooLarge,
        availability_node && size <= MAX_PREFETCH_SIZE_BYTES && already_held ==> d
            == PrefetchDecision::AlreadyHeld,
        availability_node && size <= MAX_PREFETCH_SIZE_BYTES && !already_held && !slot_free ==> d
            == PrefetchDecision::Busy,
        availability_node && size <= MAX_PREFETCH_SIZE_BYTES && !already_held && slot_free ==> d
            == PrefetchDecision::Fetch,
{
    if !availability_node {
        PrefetchDecision::NotAvailabilityNode
    } else if size > MAX_PREFETCH_SIZE_BYTES {
        PrefetchDecision::TooLarge
    } else if already_held {
        PrefetchDecision::AlreadyHeld
    } else if !slot_free {
        PrefetchDecision::Busy
    } else {
        PrefetchDecision::Fetch
    }
}

/// Whether `account` is among the group's availability accounts.
pub fn is_availability_member(account: Option<[u8; 32]>, availability_accounts: &Vec<[u8; 32]>) -> (res:
    bool)
    ensures
        res == (account is Some && exists|i: int|
            0 <= i < availability_accounts@.len() && availability_accounts@[i]@ == account->0@),
{
    let a = match account {
        None => {
            return false;
        },
        Some(a) => a,
    };
    let mut i: usize = 0;
    while i < availability_accounts.len()
        invariant
            account == Some(a),
            i <= availability_accounts@.len(),
            forall|j: int| 0 <= j < i ==> availability_accounts@[j]@ != a@,
        decreases availability_accounts@.len() - i,
    {
        if bytes32_eq(&availability_accounts[i], &a) {
            assert(availability_accounts@[i as int]@ == a@);
            return true;
        }
        i = i + 1;
    }
    false
}

} // verus!
