use node_handlers::apply_flow::{ApplyAction, ApplyEvent, ApplyFailure, ApplyFlow, ApplyOutcome};
use node_handlers::delta_auth::FenceDecision;
use node_handlers::delta_flow::{DeltaKeyError, DeltaRejection, PostApplyPlan, KEY_LOOKUP_POLL_MS};

const ROOT: [u8; 32] = [1u8; 32];
const GROUP: [u8; 32] = [3u8; 32];
const KEY: [u8; 32] = [4u8; 32];

/// Drives a fresh flow through the gates up to the group lookup.
fn to_group_lookup(f: &mut ApplyFlow) {
    assert_eq!(f.step(ApplyEvent::Begin), ApplyAction::VerifySignature);
    assert_eq!(f.step(ApplyEvent::SignatureChecked(true)), ApplyAction::DecideFence);
    assert_eq!(f.step(ApplyEvent::FenceDecided(FenceDecision::Apply)), ApplyAction::LoadContext);
    assert_eq!(f.step(ApplyEvent::ContextLoaded(Some(ROOT))), ApplyAction::CheckReadOnly);
    assert_eq!(f.step(ApplyEvent::ReadOnly(Ok(false))), ApplyAction::CheckSyncSession);
    assert_eq!(f.step(ApplyEvent::SessionActive(false)), ApplyAction::LookupGroup);
}

#[test]
fn a_foreign_delta_goes_through_every_gate_to_the_dag() {
    let mut f = ApplyFlow::new(true, true, false, true);
    to_group_lookup(&mut f);
    assert_eq!(
        f.step(ApplyEvent::Group { group: Some(GROUP), now_ms: 1_000 }),
        ApplyAction::LookupGroupKey { group: GROUP }
    );
    // The key is not there yet: wait one poll interval and look again.
    assert_eq!(
        f.step(ApplyEvent::GroupKey { key: None, now_ms: 1_010 }),
        ApplyAction::Sleep { ms: KEY_LOOKUP_POLL_MS }
    );
    assert_eq!(f.step(ApplyEvent::Completed), ApplyAction::LookupGroupKey { group: GROUP });
    assert_eq!(
        f.step(ApplyEvent::GroupKey { key: Some(KEY), now_ms: 1_120 }),
        ApplyAction::Decrypt { key: KEY }
    );
    assert_eq!(f.step(ApplyEvent::Decrypted(true)), ApplyAction::CheckAuthorOwned);
    assert_eq!(f.step(ApplyEvent::AuthorOwned(false)), ApplyAction::EnsureApplication);
    assert_eq!(f.step(ApplyEvent::ApplicationAvailable(true)), ApplyAction::AddToDag);
    assert_eq!(
        f.step(ApplyEvent::Added { applied: true, handlers_already_executed: false, events_parsed: true }),
        ApplyAction::RunHandlers
    );
    let plan = PostApplyPlan {
        clear_unparseable_events: false,
        run_handlers: true,
        clear_authored_events: false,
        emit_event: true,
        broadcast_root: true,
    };
    assert_eq!(
        f.step(ApplyEvent::HandlersRan(true)),
        ApplyAction::Finish(ApplyOutcome::Applied { plan, handlers_succeeded: true })
    );
    // Nothing more once it finished.
    assert_eq!(
        f.step(ApplyEvent::Completed),
        ApplyAction::Finish(ApplyOutcome::Failed(ApplyFailure::Unexpected))
    );
}

#[test]
fn a_self_authored_delta_only_emits_its_events() {
    let mut f = ApplyFlow::new(false, false, false, true);
    assert_eq!(f.step(ApplyEvent::Begin), ApplyAction::LoadContext);
    assert_eq!(f.step(ApplyEvent::ContextLoaded(Some(ROOT))), ApplyAction::CheckReadOnly);
    assert_eq!(f.step(ApplyEvent::ReadOnly(Err(()))), ApplyAction::CheckSyncSession);
    assert_eq!(f.step(ApplyEvent::SessionActive(false)), ApplyAction::LookupGroup);
    assert_eq!(f.step(ApplyEvent::Group { group: None, now_ms: 5 }), ApplyAction::LookupSenderKey);
    assert_eq!(f.step(ApplyEvent::SenderKey(Some(Some(KEY)))), ApplyAction::Decrypt { key: KEY });
    assert_eq!(f.step(ApplyEvent::Decrypted(true)), ApplyAction::CheckAuthorOwned);
    assert_eq!(f.step(ApplyEvent::AuthorOwned(true)), ApplyAction::EmitEventsIfParsed);
    assert_eq!(f.step(ApplyEvent::Completed), ApplyAction::Finish(ApplyOutcome::SelfAuthored));
}

#[test]
fn a_bad_envelope_signature_is_refused_first() {
    let mut f = ApplyFlow::new(true, true, false, false);
    assert_eq!(f.step(ApplyEvent::Begin), ApplyAction::VerifySignature);
    assert_eq!(
        f.step(ApplyEvent::SignatureChecked(false)),
        ApplyAction::Finish(ApplyOutcome::Rejected(DeltaRejection::BadEnvelopeSignature))
    );
}

#[test]
fn a_drain_replay_skips_the_fence_and_a_read_only_author_is_refused() {
    let mut f = ApplyFlow::new(false, true, true, false);
    assert_eq!(f.step(ApplyEvent::Begin), ApplyAction::LoadContext);
    assert_eq!(f.step(ApplyEvent::ContextLoaded(Some(ROOT))), ApplyAction::CheckReadOnly);
    assert_eq!(
        f.step(ApplyEvent::ReadOnly(Ok(true))),
        ApplyAction::Finish(ApplyOutcome::Rejected(DeltaRejection::ReadOnlyAuthor))
    );
}

#[test]
fn the_fence_absorbs_or_drops() {
    let mut f = ApplyFlow::new(false, true, false, false);
    assert_eq!(f.step(ApplyEvent::Begin), ApplyAction::DecideFence);
    assert_eq!(f.step(ApplyEvent::FenceDecided(FenceDecision::Buffer)), ApplyAction::PersistAbsorbed);
    assert_eq!(f.step(ApplyEvent::Completed), ApplyAction::Finish(ApplyOutcome::Absorbed));
    let mut g = ApplyFlow::new(false, true, false, false);
    assert_eq!(g.step(ApplyEvent::Begin), ApplyAction::DecideFence);
    assert_eq!(
        g.step(ApplyEvent::FenceDecided(FenceDecision::Drop)),
        ApplyAction::Finish(ApplyOutcome::FenceDropped)
    );
}

#[test]
fn an_uninitialized_context_starts_a_buffer_session() {
    let mut f = ApplyFlow::new(false, false, false, false);
    assert_eq!(f.step(ApplyEvent::Begin), ApplyAction::LoadContext);
    assert_eq!(f.step(ApplyEvent::ContextLoaded(Some([0u8; 32]))), ApplyAction::CheckReadOnly);
    assert_eq!(f.step(ApplyEvent::ReadOnly(Ok(false))), ApplyAction::CheckSyncSession);
    assert_eq!(f.step(ApplyEvent::SessionActive(false)), ApplyAction::PushToSyncBuffer);
    assert_eq!(
        f.step(ApplyEvent::Pushed { pushed: None, session_active: false }),
        ApplyAction::StartSessionAndPush
    );
    assert_eq!(
        f.step(ApplyEvent::Pushed { pushed: Some(true), session_active: true }),
        ApplyAction::Finish(ApplyOutcome::Buffered)
    );
}

#[test]
fn the_group_key_wait_ends_at_its_deadline() {
    let mut f = ApplyFlow::new(true, true, false, false);
    to_group_lookup(&mut f);
    assert_eq!(
        f.step(ApplyEvent::Group { group: Some(GROUP), now_ms: 10_000 }),
        ApplyAction::LookupGroupKey { group: GROUP }
    );
    // 10_000 + 3_000 is the deadline; a poll ending at it still fits.
    assert_eq!(
        f.step(ApplyEvent::GroupKey { key: None, now_ms: 12_900 }),
        ApplyAction::Sleep { ms: KEY_LOOKUP_POLL_MS }
    );
    assert_eq!(f.step(ApplyEvent::Completed), ApplyAction::LookupGroupKey { group: GROUP });
    assert_eq!(
        f.step(ApplyEvent::GroupKey { key: None, now_ms: 12_901 }),
        ApplyAction::Finish(ApplyOutcome::Failed(ApplyFailure::Key(DeltaKeyError::NoGroupKey)))
    );
}

#[test]
fn missing_keys_and_failures_end_the_flow() {
    let mut f = ApplyFlow::new(false, false, false, false);
    assert_eq!(f.step(ApplyEvent::Begin), ApplyAction::LoadContext);
    assert_eq!(
        f.step(ApplyEvent::ContextLoaded(None)),
        ApplyAction::Finish(ApplyOutcome::Failed(ApplyFailure::ContextNotFound))
    );
    let mut g = ApplyFlow::new(false, false, false, false);
    assert_eq!(g.step(ApplyEvent::Begin), ApplyAction::LoadContext);
    assert_eq!(g.step(ApplyEvent::StoreFailed), ApplyAction::Finish(ApplyOutcome::Failed(ApplyFailure::Store)));
    let mut h = ApplyFlow::new(true, true, false, false);
    to_group_lookup(&mut h);
    assert_eq!(h.step(ApplyEvent::Group { group: None, now_ms: 0 }), ApplyAction::LookupSenderKey);
    assert_eq!(
        h.step(ApplyEvent::SenderKey(Some(None))),
        ApplyAction::Finish(ApplyOutcome::Failed(ApplyFailure::Key(DeltaKeyError::NoSenderKey)))
    );
    let mut k = ApplyFlow::new(true, true, false, true);
    to_group_lookup(&mut k);
    k.step(ApplyEvent::Group { group: Some(GROUP), now_ms: 0 });
    k.step(ApplyEvent::GroupKey { key: Some(KEY), now_ms: 0 });
    k.step(ApplyEvent::Decrypted(true));
    k.step(ApplyEvent::AuthorOwned(false));
    assert_eq!(
        k.step(ApplyEvent::ApplicationAvailable(false)),
        ApplyAction::Finish(ApplyOutcome::Failed(ApplyFailure::ApplicationUnavailable))
    );
}

#[test]
fn a_pending_delta_with_unparseable_events_is_planned_without_handlers() {
    let mut f = ApplyFlow::new(true, true, false, true);
    to_group_lookup(&mut f);
    f.step(ApplyEvent::Group { group: Some(GROUP), now_ms: 0 });
    f.step(ApplyEvent::GroupKey { key: Some(KEY), now_ms: 0 });
    f.step(ApplyEvent::Decrypted(true));
    f.step(ApplyEvent::AuthorOwned(false));
    f.step(ApplyEvent::ApplicationAvailable(true));
    let plan = PostApplyPlan {
        clear_unparseable_events: true,
        run_handlers: false,
        clear_authored_events: false,
        emit_event: false,
        broadcast_root: true,
    };
    assert_eq!(
        f.step(ApplyEvent::Added { applied: true, handlers_already_executed: false, events_parsed: false }),
        ApplyAction::Finish(ApplyOutcome::Applied { plan, handlers_succeeded: false })
    );
}

#[test]
fn a_delta_by_any_identity_this_node_owns_is_not_applied_again() {
    // The node owns several identities in the context; the author is one of
    // them, though not the one the node would pick to act under.
    let mut f = ApplyFlow::new(true, true, false, true);
    to_group_lookup(&mut f);
    f.step(ApplyEvent::Group { group: Some(GROUP), now_ms: 0 });
    f.step(ApplyEvent::GroupKey { key: Some(KEY), now_ms: 0 });
    assert_eq!(f.step(ApplyEvent::Decrypted(true)), ApplyAction::CheckAuthorOwned);
    assert_eq!(f.step(ApplyEvent::AuthorOwned(true)), ApplyAction::EmitEventsIfParsed);
    assert_eq!(f.step(ApplyEvent::Completed), ApplyAction::Finish(ApplyOutcome::SelfAuthored));
}
