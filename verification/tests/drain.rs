use node_handlers::delta_auth::{
    drain_pass, DrainDrop, DrainLookup, GroupIdCheck, MembershipStatus, PendingDelta,
    MAX_GOVERNANCE_DRAIN_ATTEMPTS,
};
use node_handlers::delta_auth::absorb_drain_deletions;
use node_handlers::delta_flow::{cascade_clears_events, handlers_all_succeeded, HandlerResult};

fn pending(id: u8, has_position: bool, attempts: u32) -> PendingDelta {
    PendingDelta { delta_id: [id; 32], has_position, attempts }
}

fn lookup(status: MembershipStatus<u8>) -> DrainLookup<u8> {
    DrainLookup { group_check: GroupIdCheck::Match, status: Ok(status) }
}

#[test]
fn a_drain_pass_pops_each_pending_delta_once() {
    let mut queue = vec![
        pending(1, true, 0),
        pending(2, true, 0),
        pending(3, true, MAX_GOVERNANCE_DRAIN_ATTEMPTS - 1),
        pending(4, false, 0),
        pending(5, true, 2),
    ];
    let lookups = vec![
        lookup(MembershipStatus::Member(1)),
        lookup(MembershipStatus::Unknown { needed: vec![[8u8; 32]] }),
        lookup(MembershipStatus::Unknown { needed: vec![] }),
        lookup(MembershipStatus::Member(1)),
        DrainLookup { group_check: GroupIdCheck::Mismatch { owning: [1; 32], claimed: [2; 32] }, status: Err(()) },
    ];
    let report = drain_pass(&mut queue, lookups);
    assert_eq!(report.apply, vec![[1u8; 32]]);
    assert_eq!(
        report.dropped,
        vec![
            ([3u8; 32], DrainDrop::MaxAttempts),
            ([4u8; 32], DrainDrop::NoGovernancePosition),
            ([5u8; 32], DrainDrop::GroupMismatch),
        ]
    );
    // Pushed back once, one attempt further, and not looked at again.
    assert_eq!(queue, vec![pending(2, true, 1)]);
}

#[test]
fn a_drain_pass_over_an_empty_buffer_does_nothing() {
    let mut queue: Vec<PendingDelta> = Vec::new();
    let report = drain_pass::<u8>(&mut queue, Vec::new());
    assert!(report.apply.is_empty() && report.dropped.is_empty() && queue.is_empty());
}

#[test]
fn a_cascade_clears_events_only_with_the_application() {
    assert!(!cascade_clears_events(false, true, true));
    assert!(!cascade_clears_events(false, false, false));
    assert!(cascade_clears_events(true, false, false));
    assert!(cascade_clears_events(true, true, true));
    assert!(!cascade_clears_events(true, true, false));
}

#[test]
fn an_absorb_drain_deletes_exactly_the_replayed_records() {
    let deleted = absorb_drain_deletions(&vec![0, 2, 5, 7], &vec![true, false, true, true]);
    assert_eq!(deleted, vec![0, 5, 7]);
    assert_eq!(deleted.len(), 3);
    assert!(absorb_drain_deletions(&vec![], &vec![]).is_empty());
}

#[test]
fn handler_results_clear_the_blob_only_when_all_succeeded() {
    assert!(handlers_all_succeeded(&vec![]));
    assert!(handlers_all_succeeded(&vec![
        HandlerResult::NoHandler,
        HandlerResult::Executed(true),
        HandlerResult::TeeNotOurs,
        HandlerResult::TeeAlreadyFired,
        HandlerResult::TeeFiredNow(true),
    ]));
    assert!(!handlers_all_succeeded(&vec![HandlerResult::Executed(true), HandlerResult::Executed(false)]));
    assert!(!handlers_all_succeeded(&vec![HandlerResult::TeeScheduled]));
    assert!(!handlers_all_succeeded(&vec![HandlerResult::TeeRankUnavailable]));
    assert!(!handlers_all_succeeded(&vec![HandlerResult::TeePlanFailed]));
    assert!(!handlers_all_succeeded(&vec![HandlerResult::TeeFiredNow(false)]));
}
