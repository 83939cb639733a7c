//! Envelope signature and freshness for ephemeral presence.
//!
//! The author signs a canonical payload binding `(context_id, author, seq,
//! key_id, sent_at_ms, sha256(ciphertext))`; the receive path verifies it
//! before the awareness store is touched, and refuses a stamp further than
//! `PRESENCE_MAX_SKEW_MS` from its own clock.
use vstd::prelude::*;

use crate::crypto::{borsh_ephemeral_payload, ed25519_signature_valid, ed25519_verify, lemma_u64_le_injective, sha256,
    sha256_digest, u64_le};
use crate::ephemeral::PRESENCE_MAX_SKEW_MS;

verus! {

/// Domain separator prefixed to every ephemeral envelope signature payload:
/// the ASCII bytes of `calimero/ephemeral/1`.
pub const DOMAIN_SEPARATOR: [u8; 20] = [
    99, 97, 108, 105, 109, 101, 114, 111, 47, 101, 112, 104, 101, 109, 101, 114, 97, 108, 47, 49,
];

/// Canonical payload for the presence envelope signature.
pub struct EphemeralSignaturePayload {
    pub domain: [u8; 20],
    pub context_id: [u8; 32],
    pub author: [u8; 32],
    pub seq: u64,
    pub key_id: [u8; 32],
    /// The sender's wall clock (ms since the UNIX epoch) at publish time.
    pub sent_at_ms: u64,
    /// `sha256(ciphertext)`.
    pub ciphertext_hash: [u8; 32],
}

/// `|a - b|` on integers.
pub open spec fn abs_diff(a: int, b: int) -> int {
    if a >= b {
        a - b
    } else {
        b - a
    }
}

/// `sent_at_ms` lies within `PRESENCE_MAX_SKEW_MS` of `now_ms`, either side.
pub open spec fn fresh(now_ms: u64, sent_at_ms: u64) -> bool {
    abs_diff(now_ms as int, sent_at_ms as int) <= PRESENCE_MAX_SKEW_MS
}

/// Is `sent_at_ms` close enough to `now_ms` to accept? The window is
/// symmetric: a far-future stamp is as suspicious as a stale one.
pub fn is_fresh(now_ms: u64, sent_at_ms: u64) -> (res: bool)
    ensures
        res == fresh(now_ms, sent_at_ms),
{
    let diff = if now_ms >= sent_at_ms {
        now_ms - sent_at_ms
    } else {
        sent_at_ms - now_ms
    };
    diff <= PRESENCE_MAX_SKEW_MS
}

/// The bytes that are signed for an envelope.
pub open spec fn signature_payload_bytes(
    context_id: Seq<u8>,
    author: Seq<u8>,
    seq: u64,
    key_id: Seq<u8>,
    sent_at_ms: u64,
    ciphertext: Seq<u8>,
) -> Seq<u8> {
    DOMAIN_SEPARATOR@ + context_id + author + u64_le(seq) + key_id + u64_le(sent_at_ms)
        + sha256_digest(ciphertext)
}

/// The freshness window is symmetric: a stamp as far ahead of the clock as
/// another is behind it gets the same answer, and both edges are inside.
pub proof fn lemma_freshness_window_symmetric(now_ms: u64, sent_at_ms: u64)
    ensures
        fresh(now_ms, sent_at_ms) == fresh(sent_at_ms, now_ms),
        fresh(now_ms, sent_at_ms) <==> (now_ms - PRESENCE_MAX_SKEW_MS <= sent_at_ms
            <= now_ms + PRESENCE_MAX_SKEW_MS),
{
}

/// The signed payload binds every field: two envelopes whose payloads are
/// the same bytes agree on context, author, seq, key id, send time and
/// ciphertext digest, so restamping or re-targeting any of them changes
/// what must be signed.
pub proof fn lemma_signature_payload_binds_fields(
    context_id: [u8; 32],
    author: [u8; 32],
    seq: u64,
    key_id: [u8; 32],
    sent_at_ms: u64,
    ciphertext: Seq<u8>,
    context_id2: [u8; 32],
    author2: [u8; 32],
    seq2: u64,
    key_id2: [u8; 32],
    sent_at_ms2: u64,
    ciphertext2: Seq<u8>,
)
    requires
        signature_payload_bytes(context_id@, author@, seq, key_id@, sent_at_ms, ciphertext)
            == signature_payload_bytes(context_id2@, author2@, seq2, key_id2@, sent_at_ms2, ciphertext2),
    ensures
        context_id@ == context_id2@,
        author@ == author2@,
        seq == seq2,
        key_id@ == key_id2@,
        sent_at_ms == sent_at_ms2,
        sha256_digest(ciphertext) == sha256_digest(ciphertext2),
{
    let p = signature_payload_bytes(context_id@, author@, seq, key_id@, sent_at_ms, ciphertext);
    let q = signature_payload_bytes(context_id2@, author2@, seq2, key_id2@, sent_at_ms2, ciphertext2);
    assert(p.subrange(20, 52) =~= context_id@);
    assert(q.subrange(20, 52) =~= context_id2@);
    assert(p.subrange(52, 84) =~= author@);
    assert(q.subrange(52, 84) =~= author2@);
    assert(p.subrange(84, 92) =~= u64_le(seq));
    assert(q.subrange(84, 92) =~= u64_le(seq2));
    assert(p.subrange(92, 124) =~= key_id@);
    assert(q.subrange(92, 124) =~= key_id2@);
    assert(p.subrange(124, 132) =~= u64_le(sent_at_ms));
    assert(q.subrange(124, 132) =~= u64_le(sent_at_ms2));
    assert(p.subrange(132, p.len() as int) =~= sha256_digest(ciphertext));
    assert(q.subrange(132, q.len() as int) =~= sha256_digest(ciphertext2));
    lemma_u64_le_injective(seq, seq2);
    lemma_u64_le_injective(sent_at_ms, sent_at_ms2);
}

/// `sha256` over the sealed slice, as bound into the signature payload.
pub fn ciphertext_hash(ciphertext: &[u8]) -> (res: [u8; 32])
    ensures
        res@ == sha256_digest(ciphertext@),
{
    sha256(ciphertext)
}

/// Borsh-serialize the canonical payload. Used at sign time and at verify
/// time, so the two cannot drift. Always `Ok`.
pub fn ephemeral_signature_payload(
    context_id: [u8; 32],
    author: [u8; 32],
    seq: u64,
    key_id: [u8; 32],
    sent_at_ms: u64,
    ciphertext: &[u8],
) -> (res: Result<Vec<u8>, std::io::Error>)
    ensures
        res is Ok,
        res->Ok_0@ == signature_payload_bytes(
            context_id@,
            author@,
            seq,
            key_id@,
            sent_at_ms,
            ciphertext@,
        ),
{
    let payload = EphemeralSignaturePayload {
        domain: DOMAIN_SEPARATOR,
        context_id,
        author,
        seq,
        key_id,
        sent_at_ms,
        ciphertext_hash: ciphertext_hash(ciphertext),
    };
    borsh_ephemeral_payload(
        payload.domain,
        payload.context_id,
        payload.author,
        payload.seq,
        payload.key_id,
        payload.sent_at_ms,
        payload.ciphertext_hash,
    )
}

/// Why an envelope signature was refused.
#[derive(Debug, PartialEq, Eq, Clone, Copy)]
pub enum EphemeralSignatureError {
    /// The signature does not verify under `author` over the payload.
    InvalidSignature,
}

/// Verify a presence envelope signature against the canonical payload:
/// `Ok(())` exactly when `signature` is a valid signature by `author` over the
/// bytes `ephemeral_signature_payload` builds from the other arguments.
pub fn verify_ephemeral_signature(
    context_id: [u8; 32],
    author: [u8; 32],
    seq: u64,
    key_id: [u8; 32],
    sent_at_ms: u64,
    ciphertext: &[u8],
    signature: &[u8; 64],
) -> (res: Result<(), EphemeralSignatureError>)
    ensures
        res is Ok <==> ed25519_signature_valid(
            author@,
            signature_payload_bytes(context_id@, author@, seq, key_id@, sent_at_ms, ciphertext@),
            signature@,
        ),
{
    let payload = ephemeral_signature_payload(
        context_id,
        author,
        seq,
        key_id,
        sent_at_ms,
        ciphertext,
    );
    match payload {
        Ok(bytes) => {
            if ed25519_verify(&author, bytes.as_slice(), signature) {
                Ok(())
            } else {
                Err(EphemeralSignatureError::InvalidSignature)
            }
        },
        Err(_) => Err(EphemeralSignatureError::InvalidSignature),
    }
}

} // verus!
