use node_handlers::delta_auth::{
    authorize_at_cut, authorize_at_cut_projected, edge_gate, fence_and_maybe_absorb,
    governance_drain_decision, leaf_record_drainable, select_drainable_records,
    verify_position_group_id_matches_context, AbsorbMeta, AuthRejection, CutMembership,
    DeltaAuthOutcome, DrainAction, DrainDrop, EdgeGate, FenceAction, FenceDecision, GroupIdCheck,
    MembershipRejection, MembershipStatus, MAX_GOVERNANCE_DRAIN_ATTEMPTS,
};

fn gid(byte: u8) -> [u8; 32] {
    [byte; 32]
}

#[test]
fn non_group_ok_when_context_has_no_group_and_no_position() {
    let result = verify_position_group_id_matches_context(Ok(None), None);
    assert!(matches!(result, GroupIdCheck::NonGroupOk));
}

#[test]
fn match_when_context_owning_group_equals_claimed() {
    let group_id = gid(0xB2);
    let result = verify_position_group_id_matches_context(Ok(Some(group_id)), Some(group_id));
    assert!(matches!(result, GroupIdCheck::Match));
}

#[test]
fn group_context_no_position_when_context_in_group_but_position_absent() {
    let group_id = gid(0xC2);
    let result = verify_position_group_id_matches_context(Ok(Some(group_id)), None);
    match result {
        GroupIdCheck::GroupContextNoPosition { owning } => assert_eq!(owning, group_id),
        other => panic!("expected GroupContextNoPosition, got {other:?}"),
    }
}

#[test]
fn non_group_context_with_position_when_context_has_no_group_but_position_set() {
    let claimed = gid(0xD2);
    let result = verify_position_group_id_matches_context(Ok(None), Some(claimed));
    match result {
        GroupIdCheck::NonGroupContextWithPosition { claimed: c } => assert_eq!(c, claimed),
        other => panic!("expected NonGroupContextWithPosition, got {other:?}"),
    }
}

#[test]
fn mismatch_when_context_owning_group_differs_from_claimed() {
    let owning = gid(0xE2);
    let claimed = gid(0xE3);
    let result = verify_position_group_id_matches_context(Ok(Some(owning)), Some(claimed));
    match result {
        GroupIdCheck::Mismatch { owning: o, claimed: c } => {
            assert_eq!(o, owning);
            assert_eq!(c, claimed);
        }
        other => panic!("expected Mismatch, got {other:?}"),
    }
}

#[test]
fn a_failed_group_lookup_is_reported() {
    assert_eq!(verify_position_group_id_matches_context(Err(()), Some(gid(1))), GroupIdCheck::LookupError);
}

#[test]
fn buffer_decision_persists_absorb_record_not_drop() {
    assert_eq!(fence_and_maybe_absorb(false, FenceDecision::Buffer), FenceAction::Absorb);
}

#[test]
fn drain_replay_bypasses_fence_for_stale_straggler() {
    assert_eq!(
        fence_and_maybe_absorb(false, FenceDecision::Buffer),
        FenceAction::Absorb,
        "un-bypassed: the straggler bounces off the fence and is re-buffered"
    );
    assert_eq!(
        fence_and_maybe_absorb(true, FenceDecision::Buffer),
        FenceAction::Fall,
        "drain replay must bypass the fence and fall through to apply"
    );
}

#[test]
fn apply_decision_does_not_persist_absorb_record() {
    assert_eq!(fence_and_maybe_absorb(false, FenceDecision::Apply), FenceAction::Fall);
    assert_eq!(fence_and_maybe_absorb(false, FenceDecision::Drop), FenceAction::Drop);
    assert_eq!(fence_and_maybe_absorb(true, FenceDecision::Drop), FenceAction::Fall);
}

#[test]
fn the_edge_gate() {
    assert_eq!(edge_gate(Err(()), true), EdgeGate::Reject(AuthRejection::GroupLookupFailed));
    assert_eq!(edge_gate(Ok(None), false), EdgeGate::Ungated);
    assert_eq!(edge_gate(Ok(None), true), EdgeGate::Reject(AuthRejection::EdgeOnNonGroupContext));
    assert_eq!(edge_gate(Ok(Some(gid(1))), false), EdgeGate::Reject(AuthRejection::GroupContextWithoutEdge));
    assert_eq!(edge_gate(Ok(Some(gid(1))), true), EdgeGate::Resolve(gid(1)));
    assert!(AuthRejection::GroupContextWithoutEdge.reason().contains("bypass"));
}

#[test]
fn membership_at_the_cut() {
    assert_eq!(
        authorize_at_cut(gid(1), Ok(MembershipStatus::Member(7u8))),
        DeltaAuthOutcome::Authorized { group: gid(1), role: 7u8 }
    );
    assert_eq!(
        authorize_at_cut::<u8>(gid(1), Ok(MembershipStatus::Removed)),
        DeltaAuthOutcome::MembershipReject { reason: MembershipRejection::RemovedAtCut }
    );
    assert_eq!(
        authorize_at_cut::<u8>(gid(1), Ok(MembershipStatus::NeverMember)),
        DeltaAuthOutcome::MembershipReject { reason: MembershipRejection::NotMemberAtCut }
    );
    assert_eq!(
        authorize_at_cut::<u8>(gid(1), Ok(MembershipStatus::Unknown { needed: vec![[3; 32]] })),
        DeltaAuthOutcome::Buffer { needed: vec![[3; 32]] }
    );
    assert_eq!(
        authorize_at_cut::<u8>(gid(1), Err(())),
        DeltaAuthOutcome::Reject(AuthRejection::MembershipLookupFailed)
    );
    assert_eq!(
        authorize_at_cut_projected::<u8>(gid(1), vec![[4; 32]], CutMembership::Incomplete),
        DeltaAuthOutcome::Buffer { needed: vec![[4; 32]] }
    );
    assert_eq!(
        authorize_at_cut_projected::<u8>(gid(1), vec![], CutMembership::NotMember),
        DeltaAuthOutcome::MembershipReject { reason: MembershipRejection::NotMemberAtCutProjected }
    );
    assert_eq!(
        authorize_at_cut_projected(gid(1), vec![], CutMembership::Member(2u8)),
        DeltaAuthOutcome::Authorized { group: gid(1), role: 2u8 }
    );
}

#[test]
fn governance_drain_decisions() {
    let unknown = || Ok(MembershipStatus::<u8>::Unknown { needed: vec![] });
    assert_eq!(
        governance_drain_decision(false, GroupIdCheck::Match, unknown(), 0),
        DrainAction::Drop(DrainDrop::NoGovernancePosition)
    );
    assert_eq!(
        governance_drain_decision(true, GroupIdCheck::NonGroupOk, unknown(), 0),
        DrainAction::Drop(DrainDrop::HelperContractViolation)
    );
    assert_eq!(
        governance_drain_decision(true, GroupIdCheck::Mismatch { owning: gid(1), claimed: gid(2) }, unknown(), 0),
        DrainAction::Drop(DrainDrop::GroupMismatch)
    );
    assert_eq!(
        governance_drain_decision(true, GroupIdCheck::NonGroupContextWithPosition { claimed: gid(2) }, unknown(), 0),
        DrainAction::Drop(DrainDrop::GroupDisappeared)
    );
    assert_eq!(
        governance_drain_decision(true, GroupIdCheck::LookupError, unknown(), 0),
        DrainAction::Drop(DrainDrop::GroupLookupFailed)
    );
    assert_eq!(governance_drain_decision(true, GroupIdCheck::Match, Ok(MembershipStatus::Member(1u8)), 3), DrainAction::Apply);
    assert_eq!(
        governance_drain_decision::<u8>(true, GroupIdCheck::Match, Ok(MembershipStatus::Removed), 3),
        DrainAction::Drop(DrainDrop::Removed)
    );
    assert_eq!(
        governance_drain_decision::<u8>(true, GroupIdCheck::Match, Ok(MembershipStatus::NeverMember), 3),
        DrainAction::Drop(DrainDrop::NeverMember)
    );
    assert_eq!(
        governance_drain_decision::<u8>(true, GroupIdCheck::Match, Err(()), 3),
        DrainAction::Drop(DrainDrop::LookupError)
    );
    assert_eq!(
        governance_drain_decision(true, GroupIdCheck::Match, unknown(), 0),
        DrainAction::Rebuffer { attempts: 1 }
    );
    assert_eq!(
        governance_drain_decision(true, GroupIdCheck::Match, unknown(), MAX_GOVERNANCE_DRAIN_ATTEMPTS - 1),
        DrainAction::Drop(DrainDrop::MaxAttempts)
    );
    assert_eq!(
        governance_drain_decision(true, GroupIdCheck::Match, unknown(), u32::MAX),
        DrainAction::Drop(DrainDrop::MaxAttempts)
    );
}

#[test]
fn drain_selects_replayable_delta_records_in_order() {
    let v1 = [1u8; 32];
    let v2 = [2u8; 32];
    let pending = vec![
        AbsorbMeta { producing_app_key: Some(v1), is_leaf_or_entity: false },
        AbsorbMeta { producing_app_key: Some(v2), is_leaf_or_entity: false },
        AbsorbMeta { producing_app_key: Some(v2), is_leaf_or_entity: true },
        AbsorbMeta { producing_app_key: None, is_leaf_or_entity: false },
    ];
    // The node reached the target: every delta record replays, no leaf.
    assert_eq!(select_drainable_records(Some(v2), Some(v2), &pending), vec![0, 1, 3]);
    assert_eq!(select_drainable_records(Some(v2), None, &pending), vec![0, 1, 3]);
    // Behind the target: only records of the loaded reader's schema.
    assert_eq!(select_drainable_records(Some(v1), Some(v2), &pending), vec![0]);
    // No loaded reader: nothing.
    assert!(select_drainable_records(None, Some(v2), &pending).is_empty());
    assert!(leaf_record_drainable(v2, v2));
    assert!(!leaf_record_drainable(v1, v2));
}
