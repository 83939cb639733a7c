use node_handlers::delta_flow::{cascade_outcome, CascadeOutcome};
use node_handlers::delta_flow::{check_decrypted_len, keep_polling_for_key, DeltaPayloadTooLarge, KEY_LOOKUP_POLL_MS, KEY_LOOKUP_WAIT_MS};
use node_handlers::delta_flow::{next_poll_delay_ms, sender_key_step, SenderKeyStep, APP_POLL_FIRST_DELAY_MS, APP_POLL_MAX_DELAY_MS};
use node_handlers::delta_auth::{FenceAction, GroupIdCheck, MembershipStatus};
use node_handlers::delta_flow::{
    admit_gossip_delta, after_buffer_push, parent_fetch_admission, post_apply_plan,
    pre_apply_gate, queue_missing_parents, replay_adds_to_dag, replay_admission,
    replay_events_plan, select_delta_key, should_buffer_delta, ApplyGate, BufferNext,
    DeltaKeyError, DeltaRejection, GossipAdmission, PostApplyPlan, ReplayEvents,
};

fn member() -> Option<Result<MembershipStatus<u8>, ()>> {
    Some(Ok(MembershipStatus::Member(1)))
}

#[test]
fn gossip_admission_order() {
    let m = GroupIdCheck::Match;
    assert_eq!(admit_gossip_delta(Ok(true), Ok(true), m, member()), GossipAdmission::Reject(DeltaRejection::ReadOnlyAuthor));
    // A failed read-only lookup counts as "not read-only".
    assert_eq!(admit_gossip_delta(Err(()), Ok(true), m, member()), GossipAdmission::Reject(DeltaRejection::DenyListed));
    assert_eq!(admit_gossip_delta(Ok(false), Err(()), m, member()), GossipAdmission::Apply { observe_identity: true });
    assert_eq!(
        admit_gossip_delta::<u8>(Ok(false), Ok(false), GroupIdCheck::NonGroupOk, None),
        GossipAdmission::Apply { observe_identity: false }
    );
    assert_eq!(
        admit_gossip_delta::<u8>(Ok(false), Ok(false), GroupIdCheck::GroupContextNoPosition { owning: [1; 32] }, None),
        GossipAdmission::Reject(DeltaRejection::GroupContextNoPosition)
    );
    assert_eq!(
        admit_gossip_delta(Ok(false), Ok(false), GroupIdCheck::Mismatch { owning: [1; 32], claimed: [2; 32] }, member()),
        GossipAdmission::Reject(DeltaRejection::GroupMismatch)
    );
    assert_eq!(
        admit_gossip_delta(Ok(false), Ok(false), GroupIdCheck::LookupError, member()),
        GossipAdmission::Reject(DeltaRejection::GroupLookupFailed)
    );
    assert_eq!(
        admit_gossip_delta(Ok(false), Ok(false), m, Some(Ok(MembershipStatus::<u8>::Unknown { needed: vec![[3; 32]] }))),
        GossipAdmission::BufferPending
    );
    assert_eq!(
        admit_gossip_delta(Ok(false), Ok(false), m, Some(Ok(MembershipStatus::<u8>::Removed))),
        GossipAdmission::Reject(DeltaRejection::RemovedAtCut)
    );
    assert_eq!(
        admit_gossip_delta(Ok(false), Ok(false), m, Some(Ok(MembershipStatus::<u8>::NeverMember))),
        GossipAdmission::Reject(DeltaRejection::NotMemberAtCut)
    );
    assert_eq!(
        admit_gossip_delta::<u8>(Ok(false), Ok(false), m, Some(Err(()))),
        GossipAdmission::Reject(DeltaRejection::MembershipLookupFailed)
    );
}

#[test]
fn apply_gates_and_buffering() {
    assert_eq!(pre_apply_gate(Some(false), None, Ok(false)), ApplyGate::Reject(DeltaRejection::BadEnvelopeSignature));
    assert_eq!(pre_apply_gate(Some(true), Some(FenceAction::Absorb), Ok(true)), ApplyGate::Fenced(FenceAction::Absorb));
    assert_eq!(pre_apply_gate(None, Some(FenceAction::Drop), Ok(false)), ApplyGate::Fenced(FenceAction::Drop));
    assert_eq!(pre_apply_gate(None, Some(FenceAction::Fall), Ok(true)), ApplyGate::Reject(DeltaRejection::ReadOnlyAuthor));
    assert_eq!(pre_apply_gate(Some(true), None, Err(())), ApplyGate::Proceed);

    assert!(should_buffer_delta(true, &[5; 32]));
    assert!(should_buffer_delta(false, &[0; 32]));
    assert!(!should_buffer_delta(false, &[5; 32]));
    assert_eq!(after_buffer_push(Some(true), true, false), BufferNext::Buffered);
    assert_eq!(after_buffer_push(None, true, false), BufferNext::StartSessionAndRetry);
    assert_eq!(after_buffer_push(Some(false), true, true), BufferNext::Proceed);
    assert_eq!(after_buffer_push(None, false, false), BufferNext::Proceed);
}

#[test]
fn decryption_key_choice() {
    assert_eq!(select_delta_key(true, Some([1; 32]), None), Ok([1; 32]));
    assert_eq!(select_delta_key(true, None, Some(Some([2; 32]))), Err(DeltaKeyError::NoGroupKey));
    assert_eq!(select_delta_key(false, Some([1; 32]), Some(Some([2; 32]))), Ok([2; 32]));
    assert_eq!(select_delta_key(false, None, Some(None)), Err(DeltaKeyError::NoSenderKey));
    assert_eq!(select_delta_key(false, None, None), Err(DeltaKeyError::NoIdentity));
}

#[test]
fn post_apply_plans() {
    assert_eq!(
        post_apply_plan(true, false, true, true, false),
        PostApplyPlan { clear_unparseable_events: false, run_handlers: true, clear_authored_events: false, emit_event: true, broadcast_root: true }
    );
    assert_eq!(
        post_apply_plan(true, false, true, true, true),
        PostApplyPlan { clear_unparseable_events: false, run_handlers: false, clear_authored_events: true, emit_event: true, broadcast_root: true }
    );
    assert_eq!(
        post_apply_plan(true, false, true, false, false),
        PostApplyPlan { clear_unparseable_events: true, run_handlers: false, clear_authored_events: false, emit_event: false, broadcast_root: true }
    );
    // Pending (not applied): handlers will not run now, subscribers still hear of it.
    assert_eq!(
        post_apply_plan(false, false, true, true, false),
        PostApplyPlan { clear_unparseable_events: false, run_handlers: false, clear_authored_events: false, emit_event: true, broadcast_root: false }
    );
    assert!(!post_apply_plan(true, true, true, true, false).run_handlers);
}

#[test]
fn replay_admission_order() {
    let m = GroupIdCheck::Match;
    assert_eq!(replay_admission(true, Some(false), Ok(true), m, member(), true), Err(DeltaRejection::SelfAuthored));
    assert_eq!(replay_admission(false, Some(false), Ok(true), m, member(), true), Err(DeltaRejection::BadEnvelopeSignature));
    assert_eq!(replay_admission(false, None, Ok(true), m, member(), true), Err(DeltaRejection::ReadOnlyAuthor));
    assert_eq!(
        replay_admission(false, None, Ok(false), GroupIdCheck::NonGroupContextWithPosition { claimed: [1; 32] }, member(), true),
        Err(DeltaRejection::NonGroupContextWithPosition)
    );
    // After a snapshot sync an unknown cut is dropped, not re-buffered.
    assert_eq!(
        replay_admission(false, None, Ok(false), m, Some(Ok(MembershipStatus::<u8>::Unknown { needed: vec![] })), false),
        Err(DeltaRejection::CutUnknown)
    );
    assert_eq!(replay_admission(false, Some(true), Ok(false), m, member(), true), Err(DeltaRejection::Fenced));
    assert_eq!(replay_admission::<u8>(false, Some(true), Ok(false), GroupIdCheck::NonGroupOk, None, false), Ok(()));
}

#[test]
fn replay_dag_and_events() {
    assert!(replay_adds_to_dag(false, false));
    assert!(replay_adds_to_dag(true, true));
    assert!(!replay_adds_to_dag(true, false));
    assert_eq!(replay_events_plan(false, false, false, true, false), ReplayEvents::Nothing);
    assert_eq!(replay_events_plan(true, false, false, false, false), ReplayEvents::Nothing);
    assert_eq!(replay_events_plan(false, false, true, true, false), ReplayEvents::RunHandlersAndEmit);
    assert_eq!(replay_events_plan(false, true, false, true, true), ReplayEvents::ClearAndEmit);
}

#[test]
fn parent_fetch_admission_order() {
    let m = GroupIdCheck::Match;
    // The genesis sentinel is kept without checks.
    assert_eq!(parent_fetch_admission::<u8>(true, false, Some(false), false, GroupIdCheck::LookupError, Ok(true), None), Ok(()));
    assert_eq!(parent_fetch_admission(false, false, None, true, m, Ok(false), member()), Err(DeltaRejection::UndecodablePosition));
    assert_eq!(parent_fetch_admission(false, true, Some(false), true, m, Ok(false), member()), Err(DeltaRejection::BadEnvelopeSignature));
    assert_eq!(parent_fetch_admission(false, true, Some(true), false, m, Ok(false), member()), Err(DeltaRejection::IdMismatch));
    assert_eq!(
        parent_fetch_admission::<u8>(false, true, None, true, GroupIdCheck::GroupContextNoPosition { owning: [1; 32] }, Ok(false), None),
        Err(DeltaRejection::GroupContextNoPosition)
    );
    assert_eq!(parent_fetch_admission(false, true, None, true, m, Ok(true), member()), Err(DeltaRejection::ReadOnlyAuthor));
    assert_eq!(
        parent_fetch_admission(false, true, None, true, m, Ok(false), Some(Ok(MembershipStatus::<u8>::Unknown { needed: vec![] }))),
        Err(DeltaRejection::CutUnknown)
    );
    assert_eq!(parent_fetch_admission(false, true, Some(true), true, m, Err(()), member()), Ok(()));
}

#[test]
fn parents_are_queued_once() {
    let mut queue = vec![[1u8; 32]];
    let fetched = vec![[2u8; 32]];
    let parents = vec![[0u8; 32], [1; 32], [2; 32], [3; 32], [4; 32], [3; 32], [5; 32]];
    let held = vec![false, false, false, false, true, false, false];
    queue_missing_parents(&parents, &held, &mut queue, &fetched);
    assert_eq!(queue, vec![[1u8; 32], [3; 32], [5; 32]]);
}

#[test]
fn sender_key_steps_and_poll_delays() {
    assert_eq!(sender_key_step(None, &[1; 32]), SenderKeyStep::NoIdentity);
    assert_eq!(sender_key_step(Some(Some([5; 32])), &[0; 32]), SenderKeyStep::Use([5; 32]));
    assert_eq!(sender_key_step(Some(None), &[0; 32]), SenderKeyStep::Defer);
    assert_eq!(sender_key_step(Some(None), &[1; 32]), SenderKeyStep::RequestKeyShare);
    let mut d = APP_POLL_FIRST_DELAY_MS;
    let mut seen = Vec::new();
    for _ in 0..6 {
        seen.push(d);
        d = next_poll_delay_ms(d);
    }
    assert_eq!(seen, vec![50, 100, 200, 400, 500, 500]);
    assert_eq!(next_poll_delay_ms(u64::MAX), APP_POLL_MAX_DELAY_MS);
}

#[test]
fn oversized_payloads_and_key_polling() {
    assert_eq!(check_decrypted_len(10, 10), Ok(()));
    let err = check_decrypted_len(11, 10).unwrap_err();
    assert_eq!(err, DeltaPayloadTooLarge { len: 11, max: 10 });
    assert_eq!(err.to_string(), "decrypted state-delta payload too large: 11 bytes (max 10)");
    assert!(err.to_string().contains("too large"));
    assert!(!keep_polling_for_key(0, 0, 3_000));
    assert!(keep_polling_for_key(3_000, 0, 3_000));
    assert!(keep_polling_for_key(3_000, 2_900, 3_000));
    assert!(!keep_polling_for_key(3_000, 2_901, 3_000));
    assert!(!keep_polling_for_key(3_000, 0, KEY_LOOKUP_POLL_MS - 1));
    assert_eq!(KEY_LOOKUP_WAIT_MS, 3_000);
}

#[test]
fn cascade_outcomes() {
    let ids = vec![[1u8; 32], [2; 32], [3; 32]];
    let parsed = vec![true, false, true];
    assert_eq!(
        cascade_outcome(&ids, &parsed, Some([3; 32]), true),
        CascadeOutcome { applied_current: true, handlers_executed_for_current: true }
    );
    assert_eq!(
        cascade_outcome(&ids, &parsed, Some([2; 32]), true),
        CascadeOutcome { applied_current: true, handlers_executed_for_current: false }
    );
    assert_eq!(
        cascade_outcome(&ids, &parsed, Some([3; 32]), false),
        CascadeOutcome { applied_current: true, handlers_executed_for_current: false }
    );
    assert_eq!(
        cascade_outcome(&ids, &parsed, Some([9; 32]), true),
        CascadeOutcome { applied_current: false, handlers_executed_for_current: false }
    );
    assert_eq!(
        cascade_outcome(&ids, &parsed, None, true),
        CascadeOutcome { applied_current: false, handlers_executed_for_current: false }
    );
}
