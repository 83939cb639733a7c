use ed25519_dalek::{Signer, SigningKey};
use node_handlers::blob_access::{
    blob_access_decision, blob_auth_payload, blob_request_fresh, is_availability_member,
    is_public_application_blob, prefetch_decision, signer_is_member, verify_blob_auth, BlobAuth,
    PrefetchDecision, MAX_PREFETCH_SIZE_BYTES, MAX_REQUEST_AGE_SECS, MAX_REQUEST_FUTURE_AGE_SECS,
};

const BLOB: [u8; 32] = [0xB1; 32];
const CONTEXT: [u8; 32] = [0xC0; 32];
const NOW: u64 = 1_700_000_000;

fn keypair(seed: u8) -> (SigningKey, [u8; 32]) {
    let sk = SigningKey::from_bytes(&[seed; 32]);
    let pk = sk.verifying_key().to_bytes();
    (sk, pk)
}

fn signed_request(sk: &SigningKey, public_key: [u8; 32], timestamp: u64) -> Option<BlobAuth> {
    let message = blob_auth_payload(BLOB, CONTEXT, timestamp).expect("payload");
    Some(BlobAuth { public_key, signature: sk.sign(&message).to_bytes(), timestamp })
}

/// The full signed-request authorization for a private blob, the signer's
/// membership as the governance store would report it.
fn authorized(auth: &Option<BlobAuth>, direct: bool, inherited: Option<bool>) -> bool {
    blob_access_decision(true, false, verify_blob_auth(auth, BLOB, CONTEXT, NOW), signer_is_member(direct, inherited))
}

#[test]
fn signed_request_from_inherited_member_is_authorized() {
    let (alice_sk, alice_pk) = keypair(0x01);
    let request = signed_request(&alice_sk, alice_pk, NOW);
    assert!(authorized(&request, false, Some(true)), "an inherited member with a valid signature must be authorized");
}

#[test]
fn signed_request_from_non_member_is_rejected() {
    let (mallory_sk, mallory_pk) = keypair(0x99);
    let request = signed_request(&mallory_sk, mallory_pk, NOW);
    assert!(!authorized(&request, false, Some(false)), "a validly-signed non-member must be rejected");
}

#[test]
fn signed_request_with_forged_signature_is_rejected() {
    let (_alice_sk, alice_pk) = keypair(0x01);
    let (mallory_sk, _mallory_pk) = keypair(0x99);
    let request = signed_request(&mallory_sk, alice_pk, NOW);
    assert!(
        !authorized(&request, false, Some(true)),
        "a signature that doesn't match the claimed public key must be rejected"
    );
}

#[test]
fn signed_request_outside_replay_window_is_rejected() {
    let (alice_sk, alice_pk) = keypair(0x01);
    let stale = NOW - MAX_REQUEST_AGE_SECS - 60;
    let request = signed_request(&alice_sk, alice_pk, stale);
    assert!(!authorized(&request, false, Some(true)), "a request outside the replay window must be rejected");
}

#[test]
fn request_without_auth_is_rejected() {
    assert!(
        !authorized(&None, true, Some(true)),
        "a private blob request without an auth envelope must be rejected"
    );
}

#[test]
fn replay_window_edges() {
    assert!(blob_request_fresh(NOW, NOW - MAX_REQUEST_AGE_SECS));
    assert!(!blob_request_fresh(NOW, NOW - MAX_REQUEST_AGE_SECS - 1));
    assert!(blob_request_fresh(NOW, NOW + MAX_REQUEST_FUTURE_AGE_SECS));
    assert!(!blob_request_fresh(NOW, NOW + MAX_REQUEST_FUTURE_AGE_SECS + 1));
    // Saturating bounds near the ends of the clock.
    assert!(blob_request_fresh(5, 0));
    assert!(blob_request_fresh(u64::MAX, u64::MAX));
}

#[test]
fn the_signed_bytes_are_blob_context_and_timestamp() {
    let bytes = blob_auth_payload(BLOB, CONTEXT, 0x0102).expect("payload");
    let mut expected = Vec::new();
    expected.extend_from_slice(&BLOB);
    expected.extend_from_slice(&CONTEXT);
    expected.extend_from_slice(&0x0102u64.to_le_bytes());
    assert_eq!(bytes, expected);
}

#[test]
fn public_bundle_and_unknown_context() {
    let app = Some(([0xAA; 32], BLOB));
    assert!(is_public_application_blob(BLOB, app));
    assert!(!is_public_application_blob([0x01; 32], app));
    assert!(!is_public_application_blob(BLOB, None));
    assert!(blob_access_decision(true, true, false, false));
    assert!(!blob_access_decision(false, true, true, true));
    assert!(signer_is_member(true, None));
    assert!(!signer_is_member(false, None));
}

#[test]
fn a_read_only_tee_member_prefetches() {
    let key = [0x11; 32];
    assert!(is_availability_member(Some(key), &vec![[0x22; 32], key]));
    assert_eq!(prefetch_decision(true, 32, false, true), PrefetchDecision::Fetch);
}

#[test]
fn a_non_member_does_not_prefetch() {
    let member = [0x11; 32];
    let stranger = [0x99; 32];
    assert!(!is_availability_member(Some(stranger), &vec![member]));
    assert_eq!(prefetch_decision(false, 32, false, true), PrefetchDecision::NotAvailabilityNode);
}

#[test]
fn a_context_with_no_group_binding_does_not_prefetch() {
    assert!(!is_availability_member(None, &vec![[0x11; 32]]));
}

#[test]
fn prefetch_gates_in_order() {
    assert_eq!(prefetch_decision(true, MAX_PREFETCH_SIZE_BYTES + 1, false, true), PrefetchDecision::TooLarge);
    assert_eq!(prefetch_decision(true, MAX_PREFETCH_SIZE_BYTES, true, true), PrefetchDecision::AlreadyHeld);
    assert_eq!(prefetch_decision(true, MAX_PREFETCH_SIZE_BYTES, false, false), PrefetchDecision::Busy);
    assert_eq!(prefetch_decision(true, MAX_PREFETCH_SIZE_BYTES, false, true), PrefetchDecision::Fetch);
}

#[test]
fn an_ordinary_member_does_not_prefetch() {
    // The availability accounts are the read-only TEE members; an ordinary
    // member is not among them.
    let key = [0x11; 32];
    let availability_accounts = vec![[0x22; 32]];
    assert!(!is_availability_member(Some(key), &availability_accounts));
}
