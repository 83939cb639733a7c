use node_handlers::ephemeral::outbound::{
    heartbeat_tick, select_publish_key, set_local_ephemeral, EphemeralOutboundError, LocalPresence,
};
use node_handlers::ephemeral::store::{AwarenessStore, Diff};
use node_handlers::ephemeral::{EPHEMERAL_MAX_BYTES, PRESENCE_TTL_MS};

#[test]
fn oversized_slice_size_error_variant() {
    let oversized_len = EPHEMERAL_MAX_BYTES + 1;
    let err = EphemeralOutboundError::SliceTooLarge(oversized_len);
    assert!(
        matches!(err, EphemeralOutboundError::SliceTooLarge(n) if n == oversized_len),
        "error variant and size must match"
    );
    let msg = err.to_string();
    assert!(
        msg.contains(&oversized_len.to_string()),
        "error message must contain the bad size, got: {msg}"
    );
}

#[test]
fn error_messages_are_exact() {
    assert_eq!(
        EphemeralOutboundError::SliceTooLarge(16385).to_string(),
        "ephemeral slice is too large: 16385 bytes (max 16384)"
    );
    assert_eq!(EphemeralOutboundError::NoGroup.to_string(), "context has no group");
    assert_eq!(EphemeralOutboundError::NoGroupKey.to_string(), "no current group key");
}

#[test]
fn an_oversized_slice_is_refused_and_nothing_changes() {
    let mut local = LocalPresence::new();
    let mut store = AwarenessStore::new();
    let res = set_local_ephemeral(&mut local, &mut store, [1; 32], [2; 32], vec![0; EPHEMERAL_MAX_BYTES + 1], 1000);
    assert!(matches!(res, Err(EphemeralOutboundError::SliceTooLarge(n)) if n == EPHEMERAL_MAX_BYTES + 1));
    assert!(store.contexts().is_empty());
    // A slice exactly at the cap is accepted, with the first sequence number.
    let ok = set_local_ephemeral(&mut local, &mut store, [1; 32], [2; 32], vec![0; EPHEMERAL_MAX_BYTES], 1000)
        .expect("at the cap");
    assert_eq!(ok.seq, 1);
}

#[test]
fn each_set_bumps_the_sequence_and_echoes_changes_only() {
    let mut local = LocalPresence::new();
    let mut store = AwarenessStore::new();
    let ctx = [1u8; 32];
    let me = [2u8; 32];
    let first = set_local_ephemeral(&mut local, &mut store, ctx, me, b"cursor={x:10}".to_vec(), 1000).expect("first");
    assert_eq!(first.seq, 1);
    assert_eq!(first.slice, b"cursor={x:10}".to_vec());
    assert_eq!(first.echo, Some(Diff::Upsert { author: me, slice: b"cursor={x:10}".to_vec() }));
    let second = set_local_ephemeral(&mut local, &mut store, ctx, me, b"cursor={x:10}".to_vec(), 1100).expect("second");
    assert_eq!(second.seq, 2);
    assert_eq!(second.echo, None, "unchanged bytes push nothing to local subscribers");
    // Another author in the same context has its own counter.
    let other = set_local_ephemeral(&mut local, &mut store, ctx, [3; 32], vec![1], 1100).expect("other");
    assert_eq!(other.seq, 1);
    assert_eq!(store.snapshot(ctx, 1100).len(), 2);
}

#[test]
fn publish_key_needs_a_group_and_its_current_key() {
    assert_eq!(select_publish_key(None, Some([9; 32])), Err(EphemeralOutboundError::NoGroup));
    assert_eq!(select_publish_key(Some([1; 32]), None), Err(EphemeralOutboundError::NoGroupKey));
    assert_eq!(select_publish_key(Some([1; 32]), Some([9; 32])), Ok(([1; 32], [9; 32])));
    let msg = select_publish_key(None, None).unwrap_err().to_string();
    assert!(msg.contains("no group"), "error must mention 'no group', got: {msg}");
}

#[test]
fn heartbeat_republishes_every_local_slice_with_a_fresh_seq_and_sweeps() {
    let mut local = LocalPresence::new();
    let mut store = AwarenessStore::new();
    let ctx = [1u8; 32];
    let me = [2u8; 32];
    let peer = [7u8; 32];
    set_local_ephemeral(&mut local, &mut store, ctx, me, b"presence=typing".to_vec(), 1000).expect("set");
    // A peer's entry that will have expired by the tick.
    store.apply(ctx, peer, 1, vec![1], 1000);
    // Our own entry is refreshed by the echo of a later set.
    set_local_ephemeral(&mut local, &mut store, ctx, me, b"presence=idle".to_vec(), 5000).expect("set");

    let tick = heartbeat_tick(&mut local, &mut store, 1000 + PRESENCE_TTL_MS);
    assert_eq!(tick.publishes.len(), 1);
    assert_eq!(tick.publishes[0].context_id, ctx);
    assert_eq!(tick.publishes[0].author, me);
    assert_eq!(tick.publishes[0].seq, 3);
    assert_eq!(tick.publishes[0].slice, b"presence=idle".to_vec());
    assert_eq!(tick.removals.len(), 1);
    assert_eq!(tick.removals[0].context_id, ctx);
    assert_eq!(tick.removals[0].diffs, vec![Diff::Remove { author: peer }]);
    assert_eq!(store.snapshot(ctx, 8000).len(), 1);

    let again = heartbeat_tick(&mut local, &mut store, 8000);
    assert_eq!(again.publishes[0].seq, 4);
    assert!(again.removals[0].diffs.is_empty());
}

#[test]
fn a_heartbeat_sweeps_receive_only_contexts() {
    let mut local = LocalPresence::new();
    let mut store = AwarenessStore::new();
    store.apply([1; 32], [7; 32], 1, vec![1], 0);
    store.apply([1; 32], [8; 32], 1, vec![1], 999_000);
    let tick = heartbeat_tick(&mut local, &mut store, 1_000_000);
    assert!(tick.publishes.is_empty());
    assert_eq!(tick.removals.len(), 1);
    assert_eq!(tick.removals[0].context_id, [1; 32]);
    assert_eq!(tick.removals[0].diffs, vec![Diff::Remove { author: [7; 32] }]);
    assert_eq!(store.snapshot([1; 32], 1_000_000), vec![([8; 32], vec![1], 1_000)]);
}

#[test]
fn a_heartbeat_keeps_the_nodes_own_entries_alive() {
    let mut local = LocalPresence::new();
    let mut store = AwarenessStore::new();
    let ctx = [1u8; 32];
    let me = [2u8; 32];
    set_local_ephemeral(&mut local, &mut store, ctx, me, b"here".to_vec(), 1000).expect("set");
    // Long past the TTL with no re-set: our own entry is touched, not swept.
    let tick = heartbeat_tick(&mut local, &mut store, 1000 + 10 * PRESENCE_TTL_MS);
    assert!(tick.removals[0].diffs.is_empty());
    assert_eq!(store.snapshot(ctx, 1000 + 10 * PRESENCE_TTL_MS), vec![(me, b"here".to_vec(), 0)]);
}
