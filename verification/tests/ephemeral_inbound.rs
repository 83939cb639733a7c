use ed25519_dalek::{Signer, SigningKey};
use node_handlers::ephemeral::auth::ephemeral_signature_payload;
use node_handlers::ephemeral::inbound::{
    apply_inbound, ephemeral_event, presence_accept, presence_gate, EphemeralEvent,
    EphemeralPayload, KeyResolution, PresenceDrop, EPHEMERAL_MAX_CIPHERTEXT_BYTES,
};
use node_handlers::ephemeral::store::{AwarenessStore, Diff};
use node_handlers::ephemeral::PRESENCE_MAX_SKEW_MS;

const NOW: u64 = 1_700_000_000_000;

#[test]
fn every_gate_drops_in_order() {
    let k = [3u8; 32];
    assert_eq!(presence_gate(KeyResolution::GroupLookupFailed, k, NOW, NOW, 10), Err(PresenceDrop::GroupLookupFailed));
    assert_eq!(presence_gate(KeyResolution::NoGroup, k, NOW, NOW, 10), Err(PresenceDrop::NoGroup));
    assert_eq!(presence_gate(KeyResolution::KeyLookupFailed, k, NOW, NOW, 10), Err(PresenceDrop::KeyLookupFailed));
    assert_eq!(presence_gate(KeyResolution::NoCurrentKey, k, NOW, NOW, 10), Err(PresenceDrop::NoCurrentKey));
    // A superseded key is refused even if everything else is fine.
    assert_eq!(presence_gate(KeyResolution::Current([4; 32]), k, NOW, NOW, 10), Err(PresenceDrop::NotCurrentKey));
    assert_eq!(
        presence_gate(KeyResolution::Current(k), k, NOW, NOW - PRESENCE_MAX_SKEW_MS - 1, 10),
        Err(PresenceDrop::Stale)
    );
    assert_eq!(
        presence_gate(KeyResolution::Current(k), k, NOW, NOW + PRESENCE_MAX_SKEW_MS + 1, 10),
        Err(PresenceDrop::Stale)
    );
    assert_eq!(
        presence_gate(KeyResolution::Current(k), k, NOW, NOW, EPHEMERAL_MAX_CIPHERTEXT_BYTES + 1),
        Err(PresenceDrop::Oversized)
    );
    assert_eq!(presence_gate(KeyResolution::Current(k), k, NOW, NOW - PRESENCE_MAX_SKEW_MS, EPHEMERAL_MAX_CIPHERTEXT_BYTES), Ok(()));
}

#[test]
fn only_a_correctly_signed_decryptable_slice_is_accepted() {
    let sk = SigningKey::from_bytes(&[0x22; 32]);
    let author = sk.verifying_key().to_bytes();
    let ctx = [0x11u8; 32];
    let key_id = [0x33u8; 32];
    let ct = vec![1u8, 2, 3, 4];
    let payload = ephemeral_signature_payload(ctx, author, 5, key_id, NOW, &ct).expect("payload");
    let sig = sk.sign(&payload).to_bytes();
    assert_eq!(
        presence_accept(Some(b"cursor={x:42,y:10}".to_vec()), ctx, author, 5, key_id, NOW, &ct, &sig),
        Ok(b"cursor={x:42,y:10}".to_vec())
    );
    assert_eq!(
        presence_accept(None, ctx, author, 5, key_id, NOW, &ct, &sig),
        Err(PresenceDrop::DecryptFailed)
    );
    let forged = SigningKey::from_bytes(&[0x44; 32]).verifying_key().to_bytes();
    assert_eq!(
        presence_accept(Some(vec![1]), ctx, forged, 5, key_id, NOW, &ct, &sig),
        Err(PresenceDrop::BadSignature)
    );
    assert_eq!(
        presence_accept(Some(vec![1]), ctx, author, 5, key_id, NOW + 10, &ct, &sig),
        Err(PresenceDrop::BadSignature),
        "restamping sent_at_ms must fail signature verification"
    );
}

#[test]
fn diffs_become_events() {
    assert_eq!(
        ephemeral_event([1; 32], Diff::Upsert { author: [2; 32], slice: vec![5] }),
        EphemeralEvent {
            context_id: [1; 32],
            payload: EphemeralPayload { author: [2; 32], state: Some(vec![5]), removed: false, age_ms: None },
        }
    );
    assert_eq!(
        ephemeral_event([1; 32], Diff::Remove { author: [2; 32] }),
        EphemeralEvent {
            context_id: [1; 32],
            payload: EphemeralPayload { author: [2; 32], state: None, removed: true, age_ms: None },
        }
    );
}

#[test]
fn an_accepted_slice_populates_the_store_and_emits_once() {
    let mut store = AwarenessStore::new();
    let ctx = [0x11u8; 32];
    let author = [0x22u8; 32];
    let ev = apply_inbound(&mut store, ctx, author, 1, b"cursor={x:42,y:10}".to_vec(), 1000).expect("event");
    assert_eq!(ev.context_id, ctx);
    assert_eq!(ev.payload.state, Some(b"cursor={x:42,y:10}".to_vec()));
    assert!(!ev.payload.removed);
    assert_eq!(store.snapshot(ctx, 1000), vec![(author, b"cursor={x:42,y:10}".to_vec(), 0)]);
    // A replay of the same seq changes nothing and emits nothing.
    assert!(apply_inbound(&mut store, ctx, author, 1, b"other".to_vec(), 1500).is_none());
}
