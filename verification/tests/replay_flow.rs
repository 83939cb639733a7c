use node_handlers::delta_auth::{GroupIdCheck, MembershipStatus};
use node_handlers::delta_flow::DeltaRejection;
use node_handlers::replay_flow::{ReplayAction, ReplayEvent, ReplayFailure, ReplayFlow, ReplayOutcome};

type Ev = ReplayEvent<u8>;

#[test]
fn our_own_delta_is_refused_before_any_lookup() {
    let mut f = ReplayFlow::new(true, true, true, true, true, false);
    assert_eq!(f.step(Ev::Begin), ReplayAction::Finish(ReplayOutcome::Rejected(DeltaRejection::SelfAuthored)));
}

#[test]
fn a_replayed_delta_goes_through_every_gate_and_reports_applied() {
    let mut f = ReplayFlow::new(false, true, true, true, true, false);
    assert_eq!(f.step(Ev::Begin), ReplayAction::LoadContext);
    assert_eq!(f.step(Ev::ContextFound(true)), ReplayAction::VerifySignature);
    assert_eq!(f.step(Ev::SignatureChecked(true)), ReplayAction::CheckReadOnly);
    assert_eq!(f.step(Ev::ReadOnly(Ok(false))), ReplayAction::CheckGroup);
    assert_eq!(f.step(Ev::GroupChecked(GroupIdCheck::Match)), ReplayAction::CheckMembership);
    assert_eq!(f.step(Ev::Membership(Ok(MembershipStatus::Member(1)))), ReplayAction::CheckFence);
    assert_eq!(f.step(Ev::Fenced(false)), ReplayAction::LookupGroup);
    assert_eq!(f.step(Ev::Group(Some([3; 32]))), ReplayAction::LookupGroupKey { group: [3; 32] });
    assert_eq!(f.step(Ev::GroupKey(Some([4; 32]))), ReplayAction::Decrypt { key: [4; 32] });
    assert_eq!(f.step(Ev::Decrypted(true)), ReplayAction::ReplayInterruptedHandlers);
    assert_eq!(f.step(Ev::Completed), ReplayAction::CheckCheckpoint);
    assert_eq!(f.step(Ev::CheckpointMatch(false)), ReplayAction::AddToDag);
    assert_eq!(f.step(Ev::Added(true)), ReplayAction::ParseEvents);
    assert_eq!(f.step(Ev::EventsParsed(true)), ReplayAction::RunHandlers);
    assert_eq!(f.step(Ev::HandlersRan(false)), ReplayAction::EmitEvents { clear: false });
    assert_eq!(f.step(Ev::Completed), ReplayAction::RunCascade);
    assert_eq!(f.step(Ev::Completed), ReplayAction::Finish(ReplayOutcome::Replayed { applied: true }));
}

#[test]
fn an_unknown_cut_is_a_refusal_on_replay() {
    let mut f = ReplayFlow::new(false, false, true, false, false, false);
    f.step(Ev::Begin);
    assert_eq!(f.step(Ev::ContextFound(true)), ReplayAction::CheckReadOnly);
    f.step(Ev::ReadOnly(Err(())));
    f.step(Ev::GroupChecked(GroupIdCheck::Match));
    assert_eq!(
        f.step(Ev::Membership(Ok(MembershipStatus::Unknown { needed: vec![] }))),
        ReplayAction::Finish(ReplayOutcome::Rejected(DeltaRejection::CutUnknown))
    );
}

#[test]
fn a_covered_delta_skips_the_dag_but_runs_its_handlers() {
    let mut f = ReplayFlow::new(false, false, false, false, true, true);
    f.step(Ev::Begin);
    f.step(Ev::ContextFound(true));
    f.step(Ev::ReadOnly(Ok(false)));
    assert_eq!(f.step(Ev::GroupChecked(GroupIdCheck::NonGroupOk)), ReplayAction::LookupGroup);
    assert_eq!(f.step(Ev::Group(None)), ReplayAction::LookupSenderKey);
    assert_eq!(f.step(Ev::SenderKey(Some(Some([5; 32])))), ReplayAction::Decrypt { key: [5; 32] });
    f.step(Ev::Decrypted(true));
    f.step(Ev::Completed);
    assert_eq!(f.step(Ev::CheckpointMatch(false)), ReplayAction::CheckCheckpoint);
    assert_eq!(f.step(Ev::CheckpointMatch(false)), ReplayAction::ParseEvents);
    assert_eq!(f.step(Ev::EventsParsed(false)), ReplayAction::RunCascade);
    assert_eq!(f.step(Ev::Completed), ReplayAction::Finish(ReplayOutcome::Replayed { applied: false }));
}

#[test]
fn a_missing_context_or_key_is_an_error_and_a_fenced_schema_a_refusal() {
    let mut f = ReplayFlow::new(false, false, false, true, false, false);
    f.step(Ev::Begin);
    assert_eq!(f.step(Ev::ContextFound(false)), ReplayAction::Finish(ReplayOutcome::Failed(ReplayFailure::ContextNotFound)));
    let mut g = ReplayFlow::new(false, false, false, true, false, false);
    g.step(Ev::Begin);
    g.step(Ev::ContextFound(true));
    g.step(Ev::ReadOnly(Ok(false)));
    assert_eq!(g.step(Ev::GroupChecked(GroupIdCheck::NonGroupOk)), ReplayAction::CheckFence);
    assert_eq!(g.step(Ev::Fenced(true)), ReplayAction::Finish(ReplayOutcome::Rejected(DeltaRejection::Fenced)));
    let mut h = ReplayFlow::new(false, false, false, false, false, false);
    h.step(Ev::Begin);
    h.step(Ev::ContextFound(true));
    h.step(Ev::ReadOnly(Ok(false)));
    h.step(Ev::GroupChecked(GroupIdCheck::NonGroupOk));
    h.step(Ev::Group(Some([1; 32])));
    assert_eq!(h.step(Ev::GroupKey(None)), ReplayAction::Finish(ReplayOutcome::Failed(ReplayFailure::Key(node_handlers::delta_flow::DeltaKeyError::NoGroupKey))));
}
