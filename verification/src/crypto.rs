//! Trusted boundary to the hashing, signature, hex and borsh crates, with the
//! byte-level specifications the rest of the library is proved against.
use ed25519_dalek::Verifier;
use sha2::Digest;
use vstd::prelude::*;

verus! {

// ---------------------------------------------------------------------------
// SHA-256
// ---------------------------------------------------------------------------

/// The SHA-256 digest of `data`, as computed by the `sha2` crate.
pub uninterp spec fn sha256_digest(data: Seq<u8>) -> Seq<u8>;

/// Calls `<sha2::Sha256 as Digest>::digest` over `data`. Claimed: the result
/// is the 32-byte digest named `sha256_digest` of the input bytes (a function
/// of those bytes alone).
#[verifier::external_body]
pub fn sha256(data: &[u8]) -> (res: [u8; 32])
    ensures
        res@ == sha256_digest(data@),
{
    sha2::Sha256::digest(data).into()
}

// ---------------------------------------------------------------------------
// Ed25519
// ---------------------------------------------------------------------------

/// Whether `signature` is a valid Ed25519 signature by the public key with
/// compressed encoding `public_key` over `message`, as decided by
/// `ed25519-dalek` (false when `public_key` does not decode to a point).
pub uninterp spec fn ed25519_signature_valid(
    public_key: Seq<u8>,
    message: Seq<u8>,
    signature: Seq<u8>,
) -> bool;

/// Decodes `public_key` with `ed25519_dalek::VerifyingKey::from_bytes` and
/// checks `signature` (read with `Signature::from_bytes`) over `message` with
/// `Verifier::verify`. Claimed: the answer is `ed25519_signature_valid` of the
/// three byte strings, a key that fails to decode answering `false`.
#[verifier::external_body]
pub fn ed25519_verify(public_key: &[u8; 32], message: &[u8], signature: &[u8; 64]) -> (ok: bool)
    ensures
        ok == ed25519_signature_valid(public_key@, message@, signature@),
{
    match ed25519_dalek::VerifyingKey::from_bytes(public_key) {
        Ok(key) => key.verify(message, &ed25519_dalek::Signature::from_bytes(signature)).is_ok(),
        Err(_) => false,
    }
}

// ---------------------------------------------------------------------------
// Hex
// ---------------------------------------------------------------------------

/// Is `c` an ASCII hexadecimal digit (either case)?
pub open spec fn is_hex_digit(c: u8) -> bool {
    (48 <= c <= 57) || (65 <= c <= 70) || (97 <= c <= 102)
}

/// The value of an ASCII hexadecimal digit.
pub open spec fn hex_digit_value(c: u8) -> int {
    if 48 <= c <= 57 {
        c - 48
    } else if 65 <= c <= 70 {
        c - 65 + 10
    } else {
        c - 97 + 10
    }
}

/// `text` is exactly `2 * n` hexadecimal digits.
pub open spec fn is_hex_of_len(text: Seq<u8>, n: int) -> bool {
    text.len() == 2 * n && forall|i: int| 0 <= i < text.len() ==> is_hex_digit(#[trigger] text[i])
}

/// The bytes that the hexadecimal `text` spells, two digits per byte, high
/// nibble first.
pub open spec fn hex_decoded(text: Seq<u8>) -> Seq<u8> {
    Seq::new(
        text.len() / 2,
        |i: int| (hex_digit_value(text[2 * i]) * 16 + hex_digit_value(text[2 * i + 1])) as u8,
    )
}

/// Calls `hex::decode_to_slice` into a 32-byte buffer. As the crate's source
/// shows, it succeeds exactly when `text` is 64 hexadecimal digits (either
/// case), and then each byte is the value of its two digits, high nibble
/// first.
#[verifier::external_body]
pub fn hex_decode_32(text: &[u8]) -> (res: Option<[u8; 32]>)
    ensures
        res is Some <==> is_hex_of_len(text@, 32),
        res matches Some(bytes) ==> bytes@ == hex_decoded(text@),
{
    let mut out = [0u8; 32];
    match hex::decode_to_slice(text, &mut out) {
        Ok(()) => Some(out),
        Err(_) => None,
    }
}

// ---------------------------------------------------------------------------
// Borsh layouts
// ---------------------------------------------------------------------------

/// Little-endian bytes of a `u64`, as borsh writes integers.
pub open spec fn u64_le(x: u64) -> Seq<u8> {
    Seq::new(8, |i: int| ((x as int / pow256(i)) % 256) as u8)
}

/// `256^i`.
pub open spec fn pow256(i: int) -> int
    decreases i,
{
    if i <= 0 {
        1
    } else {
        256 * pow256(i - 1)
    }
}

/// Little-endian encoding of a `u64` loses nothing.
pub proof fn lemma_u64_le_injective(x: u64, y: u64)
    requires
        u64_le(x) == u64_le(y),
    ensures
        x == y,
{
    reveal_with_fuel(pow256, 8);
    assert(pow256(0) == 1);
    assert(pow256(1) == 0x100);
    assert(pow256(2) == 0x10000);
    assert(pow256(3) == 0x1000000);
    assert(pow256(4) == 0x100000000);
    assert(pow256(5) == 0x10000000000);
    assert(pow256(6) == 0x1000000000000);
    assert(pow256(7) == 0x100000000000000);
    let a = u64_le(x);
    let b = u64_le(y);
    assert(a[0] == b[0] && a[1] == b[1] && a[2] == b[2] && a[3] == b[3]);
    assert(a[4] == b[4] && a[5] == b[5] && a[6] == b[6] && a[7] == b[7]);
    assert(x % 0x100u64 == y % 0x100u64);
    assert((x / 0x100u64) % 0x100u64 == (y / 0x100u64) % 0x100u64);
    assert((x / 0x10000u64) % 0x100u64 == (y / 0x10000u64) % 0x100u64);
    assert((x / 0x1000000u64) % 0x100u64 == (y / 0x1000000u64) % 0x100u64);
    assert((x / 0x100000000u64) % 0x100u64 == (y / 0x100000000u64) % 0x100u64);
    assert((x / 0x10000000000u64) % 0x100u64 == (y / 0x10000000000u64) % 0x100u64);
    assert((x / 0x1000000000000u64) % 0x100u64 == (y / 0x1000000000000u64) % 0x100u64);
    assert((x / 0x100000000000000u64) % 0x100u64 == (y / 0x100000000000000u64) % 0x100u64);
    assert(x == y) by (bit_vector)
        requires
            x % 0x100u64 == y % 0x100u64,
            (x / 0x100u64) % 0x100u64 == (y / 0x100u64) % 0x100u64,
            (x / 0x10000u64) % 0x100u64 == (y / 0x10000u64) % 0x100u64,
            (x / 0x1000000u64) % 0x100u64 == (y / 0x1000000u64) % 0x100u64,
            (x / 0x100000000u64) % 0x100u64 == (y / 0x100000000u64) % 0x100u64,
            (x / 0x10000000000u64) % 0x100u64 == (y / 0x10000000000u64) % 0x100u64,
            (x / 0x1000000000000u64) % 0x100u64 == (y / 0x1000000000000u64) % 0x100u64,
            (x / 0x100000000000000u64) % 0x100u64 == (y / 0x100000000000000u64) % 0x100u64,
    ;
}

#[verifier::external_type_specification]
#[verifier::external_body]
pub struct ExIoError(std::io::Error);

/// Calls `borsh::to_vec` on the field tuple `(domain, context_id, author, seq,
/// key_id, sent_at_ms, ciphertext_hash)`. Borsh writes byte arrays verbatim
/// and integers little-endian, in field order, into a `Vec`, whose writes
/// cannot fail; so the result is `Ok` with exactly that concatenation.
#[verifier::external_body]
pub fn borsh_ephemeral_payload(
    domain: [u8; 20],
    context_id: [u8; 32],
    author: [u8; 32],
    seq: u64,
    key_id: [u8; 32],
    sent_at_ms: u64,
    ciphertext_hash: [u8; 32],
) -> (res: Result<Vec<u8>, std::io::Error>)
    ensures
        res is Ok,
        res->Ok_0@ == domain@ + context_id@ + author@ + u64_le(seq) + key_id@ + u64_le(sent_at_ms)
            + ciphertext_hash@,
{
    borsh::to_vec(&(domain, context_id, author, seq, key_id, sent_at_ms, ciphertext_hash))
}

/// Calls `borsh::to_vec` on the field tuple `(blob_id, context_id,
/// timestamp)`. As above, the result is `Ok` with the two arrays verbatim
/// followed by the little-endian timestamp.
#[verifier::external_body]
pub fn borsh_blob_auth_payload(blob_id: [u8; 32], context_id: [u8; 32], timestamp: u64) -> (res:
    Result<Vec<u8>, std::io::Error>)
    ensures
        res is Ok,
        res->Ok_0@ == blob_id@ + context_id@ + u64_le(timestamp),
{
    borsh::to_vec(&(blob_id, context_id, timestamp))
}

} // verus!
