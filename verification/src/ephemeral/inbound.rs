//! Inbound ephemeral presence: the gates an envelope passes before its slice
//! reaches the awareness store, and the client event each store diff becomes.
//!
//! Only the group's *current* key is accepted (presence has no history), a
//! stamp outside the freshness window is a replay, an oversized ciphertext is
//! dropped before decryption, and the envelope signature must verify under
//! the claimed author. Every refusal is a silent drop.
use vstd::prelude::*;

use crate::crypto::ed25519_signature_valid;
use crate::ephemeral::auth::{fresh, is_fresh, signature_payload_bytes, verify_ephemeral_signature};
use crate::ephemeral::store::{applied, expired, AwarenessStore, Diff, DiffView, PresenceEntry};
use crate::ephemeral::{EPHEMERAL_MAX_BYTES, PRESENCE_TTL_MS};

verus! {

/// Length of the AEAD authentication tag appended to every ciphertext.
pub const AEAD_TAG_LEN: usize = 16;

/// Maximum ciphertext length accepted on the receive path: the plaintext cap
/// plus the tag.
pub const EPHEMERAL_MAX_CIPHERTEXT_BYTES: usize = 16_400;

/// The ciphertext cap is the plaintext cap plus the tag.
pub proof fn lemma_ciphertext_cap()
    ensures
        EPHEMERAL_MAX_CIPHERTEXT_BYTES == EPHEMERAL_MAX_BYTES + AEAD_TAG_LEN,
{
}

/// What resolving the context's group and that group's current key gave.
#[derive(Debug, PartialEq, Eq, Clone, Copy)]
pub enum KeyResolution {
    /// The group lookup failed.
    GroupLookupFailed,
    /// The context is in no group.
    NoGroup,
    /// The current-key lookup failed.
    KeyLookupFailed,
    /// The group has no current key.
    NoCurrentKey,
    /// The group's current key id.
    Current([u8; 32]),
}

/// Why an inbound envelope was dropped.
#[derive(Debug, PartialEq, Eq, Clone, Copy)]
pub enum PresenceDrop {
    GroupLookupFailed,
    NoGroup,
    KeyLookupFailed,
    NoCurrentKey,
    /// The envelope names a key that is not the group's current one.
    NotCurrentKey,
    /// `sent_at_ms` lies outside the freshness window.
    Stale,
    /// The ciphertext exceeds [`EPHEMERAL_MAX_CIPHERTEXT_BYTES`].
    Oversized,
    /// AEAD authentication failed.
    DecryptFailed,
    /// The envelope signature does not verify under the claimed author.
    BadSignature,
}

/// The gates before decryption, in order: group and current key, key id,
/// freshness, size.
pub open spec fn gate_outcome(
    key: KeyResolution,
    key_id: Seq<u8>,
    now_ms: u64,
    sent_at_ms: u64,
    ciphertext_len: nat,
) -> Result<(), PresenceDrop> {
    match key {
        KeyResolution::GroupLookupFailed => Err(PresenceDrop::GroupLookupFailed),
        KeyResolution::NoGroup => Err(PresenceDrop::NoGroup),
        KeyResolution::KeyLookupFailed => Err(PresenceDrop::KeyLookupFailed),
        KeyResolution::NoCurrentKey => Err(PresenceDrop::NoCurrentKey),
        KeyResolution::Current(current) => if current@ != key_id {
            Err(PresenceDrop::NotCurrentKey)
        } else if !fresh(now_ms, sent_at_ms) {
            Err(PresenceDrop::Stale)
        } else if ciphertext_len > EPHEMERAL_MAX_CIPHERTEXT_BYTES {
            Err(PresenceDrop::Oversized)
        } else {
            Ok(())
        },
    }
}

/// A recorded envelope cannot bring a departed author back. While the
/// author's entry is held, the envelope's seq (not above the held one) makes
/// `apply` a no-op; once the entry is old enough for the sweep to drop it,
/// an envelope stamped before the entry's last refresh fails the freshness
/// check.
pub proof fn lemma_replay_cannot_resurrect(entry: PresenceEntry, sent_at_ms: u64, now_ms: u64)
    requires
        expired(entry, PRESENCE_TTL_MS, now_ms),
        sent_at_ms < entry.last_seen_ms,
    ensures
        !fresh(now_ms, sent_at_ms),
{
}

/// Decide whether an envelope may be decrypted (see [`gate_outcome`]).
pub fn presence_gate(
    key: KeyResolution,
    key_id: [u8; 32],
    now_ms: u64,
    sent_at_ms: u64,
    ciphertext_len: usize,
) -> (res: Result<(), PresenceDrop>)
    ensures
        res == gate_outcome(key, key_id@, now_ms, sent_at_ms, ciphertext_len as nat),
{
    match key {
        KeyResolution::GroupLookupFailed => Err(PresenceDrop::GroupLookupFailed),
        KeyResolution::NoGroup => Err(PresenceDrop::NoGroup),
        KeyResolution::KeyLookupFailed => Err(PresenceDrop::KeyLookupFailed),
        KeyResolution::NoCurrentKey => Err(PresenceDrop::NoCurrentKey),
        KeyResolution::Current(current) => {
            if !crate::bytes::bytes32_eq(&current, &key_id) {
                Err(PresenceDrop::NotCurrentKey)
            } else if !is_fresh(now_ms, sent_at_ms) {
                Err(PresenceDrop::Stale)
            } else if ciphertext_len > EPHEMERAL_MAX_CIPHERTEXT_BYTES {
                Err(PresenceDrop::Oversized)
            } else {
                Ok(())
            }
        },
    }
}

/// After decryption: no plaintext is a failed decrypt; otherwise the slice is
/// accepted exactly when the envelope signature verifies under `author` over
/// the canonical payload of the wire fields.
pub fn presence_accept(
    plaintext: Option<Vec<u8>>,
    context_id: [u8; 32],
    author: [u8; 32],
    seq: u64,
    key_id: [u8; 32],
    sent_at_ms: u64,
    ciphertext: &[u8],
    signature: &[u8; 64],
) -> (res: Result<Vec<u8>, PresenceDrop>)
    ensures
        plaintext is None ==> res == Err::<Vec<u8>, _>(PresenceDrop::DecryptFailed),
        plaintext is Some ==> {
            let valid = ed25519_signature_valid(
                author@,
                signature_payload_bytes(context_id@, author@, seq, key_id@, sent_at_ms, ciphertext@),
                signature@,
            );
            &&& valid ==> res is Ok && res->Ok_0@ == plaintext->0@
            &&& !valid ==> res == Err::<Vec<u8>, _>(PresenceDrop::BadSignature)
        },
{
    match plaintext {
        None => Err(PresenceDrop::DecryptFailed),
        Some(slice) => {
            match verify_ephemeral_signature(
                context_id,
                author,
                seq,
                key_id,
                sent_at_ms,
                ciphertext,
                signature,
            ) {
                Ok(()) => Ok(slice),
                Err(_) => Err(PresenceDrop::BadSignature),
            }
        },
    }
}

/// The presence payload delivered to this node's subscribers.
#[derive(Debug, PartialEq, Eq)]
pub struct EphemeralPayload {
    pub author: [u8; 32],
    pub state: Option<Vec<u8>>,
    pub removed: bool,
    pub age_ms: Option<u64>,
}

/// A context event carrying a presence payload.
#[derive(Debug, PartialEq, Eq)]
pub struct EphemeralEvent {
    pub context_id: [u8; 32],
    pub payload: EphemeralPayload,
}

/// The event a store diff becomes: an upsert carries the slice, a removal
/// carries none and is marked removed; the live path never carries an age.
pub open spec fn event_matches(ev: EphemeralEvent, context_id: Seq<u8>, d: DiffView) -> bool {
    &&& ev.context_id@ == context_id
    &&& ev.payload.age_ms is None
    &&& match d {
        DiffView::Upsert { author, slice } => {
            &&& ev.payload.author@ == author
            &&& ev.payload.state matches Some(s) && s@ == slice
            &&& !ev.payload.removed
        },
        DiffView::Remove { author } => {
            &&& ev.payload.author@ == author
            &&& ev.payload.state is None
            &&& ev.payload.removed
        },
    }
}

/// Convert a store diff into the client event for `context_id`.
pub fn ephemeral_event(context_id: [u8; 32], diff: Diff) -> (ev: EphemeralEvent)
    ensures
        event_matches(ev, context_id@, diff@),
{
    let payload = match diff {
        Diff::Upsert { author, slice } => EphemeralPayload {
            author,
            state: Some(slice),
            removed: false,
            age_ms: None,
        },
        Diff::Remove { author } => EphemeralPayload {
            author,
            state: None,
            removed: true,
            age_ms: None,
        },
    };
    EphemeralEvent { context_id, payload }
}

/// Apply an accepted inbound slice to the awareness store, stamped with the
/// same `now_ms` the freshness gate used, and return the event to emit, if
/// the store reported a diff.
pub fn apply_inbound(
    store: &mut AwarenessStore,
    context_id: [u8; 32],
    author: [u8; 32],
    seq: u64,
    slice: Vec<u8>,
    now_ms: u64,
) -> (ev: Option<EphemeralEvent>)
    requires
        old(store).wf(),
    ensures
        final(store).wf(),
        forall|k: Seq<u8>| k != context_id@ ==> final(store).entries_of(k) == old(store).entries_of(k),
        exists|d: Option<DiffView>|
            {
                &&& applied(
                    old(store).entries_of(context_id@),
                    final(store).entries_of(context_id@),
                    d,
                    author@,
                    seq,
                    slice@,
                    now_ms,
                )
                &&& match d {
                    Some(dv) => ev matches Some(e) && event_matches(e, context_id@, dv),
                    None => ev is None,
                }
            },
{
    let ghost slice_view = slice@;
    let diff = store.apply(context_id, author, seq, slice, now_ms);
    let ghost dv = match &diff {
        Some(d) => Some(d@),
        None => None::<DiffView>,
    };
    match diff {
        Some(d) => {
            let ev = ephemeral_event(context_id, d);
            assert(applied(
                old(store).entries_of(context_id@),
                store.entries_of(context_id@),
                dv,
                author@,
                seq,
                slice_view,
                now_ms,
            ));
            Some(ev)
        },
        None => None,
    }
}

} // verus!
