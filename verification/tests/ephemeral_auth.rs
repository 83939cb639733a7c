use ed25519_dalek::{Signer, SigningKey};
use node_handlers::ephemeral::auth::{
    ciphertext_hash, ephemeral_signature_payload, is_fresh, verify_ephemeral_signature,
    EphemeralSignatureError, DOMAIN_SEPARATOR,
};
use node_handlers::ephemeral::PRESENCE_MAX_SKEW_MS;

/// Arbitrary but fixed publish stamp.
const SENT_AT: u64 = 1_700_000_000_000;

fn fixture() -> ([u8; 32], SigningKey, [u8; 32], Vec<u8>) {
    let context_id = [0x11u8; 32];
    let sk = SigningKey::from_bytes(&[0x22u8; 32]);
    let key_id = [0x33u8; 32];
    let ciphertext = vec![9u8, 8, 7, 6];
    (context_id, sk, key_id, ciphertext)
}

fn signed(sk: &SigningKey, context_id: [u8; 32], key_id: [u8; 32], ct: &[u8]) -> ([u8; 32], [u8; 64]) {
    let author = sk.verifying_key().to_bytes();
    let payload =
        ephemeral_signature_payload(context_id, author, 7, key_id, SENT_AT, ct).expect("payload");
    (author, sk.sign(&payload).to_bytes())
}

#[test]
fn freshness_window_is_symmetric_and_bounded() {
    let now = 1_000_000_000_000u64;
    assert!(is_fresh(now, now), "an unskewed stamp is fresh");
    assert!(
        is_fresh(now, now - PRESENCE_MAX_SKEW_MS),
        "a stamp exactly at the stale edge is still accepted"
    );
    assert!(
        is_fresh(now, now + PRESENCE_MAX_SKEW_MS),
        "a stamp exactly at the future edge is still accepted"
    );
    assert!(
        !is_fresh(now, now - PRESENCE_MAX_SKEW_MS - 1),
        "a stamp past the stale edge is refused"
    );
    assert!(
        !is_fresh(now, now + PRESENCE_MAX_SKEW_MS + 1),
        "a far-future stamp is refused too — the window is symmetric"
    );
}

#[test]
fn domain_separator_is_exactly_the_protocol_literal() {
    assert_eq!(&DOMAIN_SEPARATOR, b"calimero/ephemeral/1");
    assert_eq!(DOMAIN_SEPARATOR.len(), 20);
}

#[test]
fn sign_verify_roundtrip() {
    let (context_id, sk, key_id, ct) = fixture();
    let (author, sig) = signed(&sk, context_id, key_id, &ct);
    verify_ephemeral_signature(context_id, author, 7, key_id, SENT_AT, &ct, &sig).expect("verify");
}

#[test]
fn tampered_author_fails() {
    let (context_id, sk, key_id, ct) = fixture();
    let (_author, sig) = signed(&sk, context_id, key_id, &ct);
    let other = SigningKey::from_bytes(&[0x44u8; 32]).verifying_key().to_bytes();
    assert!(
        verify_ephemeral_signature(context_id, other, 7, key_id, SENT_AT, &ct, &sig).is_err(),
        "a signature by one key must not verify under another author"
    );
}

#[test]
fn tampered_seq_fails() {
    let (context_id, sk, key_id, ct) = fixture();
    let (author, sig) = signed(&sk, context_id, key_id, &ct);
    assert!(verify_ephemeral_signature(context_id, author, 8, key_id, SENT_AT, &ct, &sig).is_err());
}

#[test]
fn tampered_key_id_fails() {
    let (context_id, sk, key_id, ct) = fixture();
    let (author, sig) = signed(&sk, context_id, key_id, &ct);
    assert!(verify_ephemeral_signature(
        context_id,
        author,
        7,
        [0xAAu8; 32],
        SENT_AT,
        &ct,
        &sig
    )
    .is_err());
}

#[test]
fn tampered_ciphertext_fails() {
    let (context_id, sk, key_id, ct) = fixture();
    let (author, sig) = signed(&sk, context_id, key_id, &ct);
    assert!(verify_ephemeral_signature(
        context_id,
        author,
        7,
        key_id,
        SENT_AT,
        &[1u8, 2, 3],
        &sig
    )
    .is_err());
}

#[test]
fn tampered_sent_at_ms_fails() {
    let (context_id, sk, key_id, ct) = fixture();
    let (author, sig) = signed(&sk, context_id, key_id, &ct);
    assert!(
        verify_ephemeral_signature(context_id, author, 7, key_id, SENT_AT + 1, &ct, &sig).is_err(),
        "restamping sent_at_ms must break the signature"
    );
}

#[test]
fn payload_binds_domain_separator() {
    // The same payload with the delta protocol's domain in front: a signature
    // over it must not verify as an ephemeral envelope signature.
    let (context_id, sk, key_id, ct) = fixture();
    let author = sk.verifying_key().to_bytes();
    let genuine =
        ephemeral_signature_payload(context_id, author, 7, key_id, SENT_AT, &ct).expect("payload");
    let mut foreign = genuine.clone();
    foreign[..20].copy_from_slice(b"calimero/delta/1\0\0\0\0");
    let sig = sk.sign(&foreign).to_bytes();
    assert_eq!(
        verify_ephemeral_signature(context_id, author, 7, key_id, SENT_AT, &ct, &sig),
        Err(EphemeralSignatureError::InvalidSignature),
        "a signature over a foreign domain must not verify"
    );
}

#[test]
fn payload_layout_is_the_fields_in_order() {
    let ct = vec![9u8, 8, 7, 6];
    let payload =
        ephemeral_signature_payload([1; 32], [2; 32], 0x0102, [3; 32], 0x0A0B0C, &ct).expect("payload");
    assert_eq!(payload.len(), 20 + 32 + 32 + 8 + 32 + 8 + 32);
    assert_eq!(&payload[..20], b"calimero/ephemeral/1");
    assert_eq!(&payload[20..52], &[1u8; 32]);
    assert_eq!(&payload[52..84], &[2u8; 32]);
    assert_eq!(&payload[84..92], &[0x02, 0x01, 0, 0, 0, 0, 0, 0]);
    assert_eq!(&payload[92..124], &[3u8; 32]);
    assert_eq!(&payload[124..132], &[0x0C, 0x0B, 0x0A, 0, 0, 0, 0, 0]);
    assert_eq!(&payload[132..], &ciphertext_hash(&ct));
}

#[test]
fn ciphertext_hash_is_sha256() {
    // The SHA-256 test vector for "abc".
    let expected: [u8; 32] = [
        0xba, 0x78, 0x16, 0xbf, 0x8f, 0x01, 0xcf, 0xea, 0x41, 0x41, 0x40, 0xde, 0x5d, 0xae, 0x22,
        0x23, 0xb0, 0x03, 0x61, 0xa3, 0x96, 0x17, 0x7a, 0x9c, 0xb4, 0x10, 0xff, 0x61, 0xf2, 0x00,
        0x15, 0xad,
    ];
    assert_eq!(ciphertext_hash(b"abc"), expected);
}

#[test]
fn a_signature_of_the_right_length_but_garbage_is_refused() {
    let (context_id, sk, key_id, ct) = fixture();
    let author = sk.verifying_key().to_bytes();
    assert!(verify_ephemeral_signature(context_id, author, 7, key_id, SENT_AT, &ct, &[0u8; 64]).is_err());
    // An author key that is no curve point cannot verify anything.
    let (_a, sig) = signed(&sk, context_id, key_id, &ct);
    assert!(verify_ephemeral_signature(context_id, [0xFFu8; 32], 7, key_id, SENT_AT, &ct, &sig).is_err());
}
