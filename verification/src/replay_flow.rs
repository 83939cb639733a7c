//! The replay of a delta buffered during a snapshot sync, as a state
//! machine: each lookup, decryption, store write and handler run is an
//! action the caller performs, and what it found comes back as the next
//! event.
//!
//! The order is: our own delta is refused before anything is looked up;
//! then the context, the envelope signature (when there is one), the
//! author's read-only role, the delta's group against the context's, the
//! author's membership at the cited cut (when it cites one; an unknown cut
//! is a refusal here), the schema fence (when it names its schema), the key
//! (one lookup, no waiting), the decryption, the replay of handlers a crash
//! interrupted, the DAG (unless a checkpoint covers the delta without being
//! it), the delta's handlers and events, and the cascade.
use vstd::prelude::*;

use crate::delta_auth::{GroupIdCheck, MembershipStatus};
use crate::delta_flow::{
    group_check_refusal, group_check_rejection, membership_refusal, membership_rejection,
    replay_adds_to_dag, says_yes, select_delta_key, yes, DeltaKeyError, DeltaRejection,
};

verus! {

/// Which answer the replay waits for.
#[derive(Debug, PartialEq, Eq, Clone, Copy)]
pub enum ReplayPhase {
    Start,
    AwaitContext,
    AwaitSignature,
    AwaitReadOnly,
    AwaitGroupCheck,
    AwaitMembership,
    AwaitFence,
    AwaitGroup,
    AwaitGroupKey,
    AwaitSenderKey,
    AwaitDecrypt,
    AwaitRecovery,
    AwaitCheckpoint,
    AwaitAdd,
    AwaitRecheck,
    AwaitParse,
    AwaitHandlers,
    AwaitEmit,
    AwaitCascade,
    Done,
}

/// Why the replay stopped with an error.
#[derive(Debug, PartialEq, Eq, Clone, Copy)]
pub enum ReplayFailure {
    Store,
    /// The context is gone after the sync.
    ContextNotFound,
    Key(DeltaKeyError),
    Decrypt,
    /// An event that does not answer the pending action.
    Unexpected,
}

/// How the replay ended.
#[derive(Debug, PartialEq, Eq, Clone, Copy)]
pub enum ReplayOutcome {
    /// Refused: the replay answers "not applied".
    Rejected(DeltaRejection),
    /// Replayed; `applied` when the DAG took it.
    Replayed { applied: bool },
    Failed(ReplayFailure),
}

/// What the caller does next.
#[derive(Debug, PartialEq, Eq, Clone, Copy)]
pub enum ReplayAction {
    LoadContext,
    VerifySignature,
    CheckReadOnly,
    CheckGroup,
    CheckMembership,
    CheckFence,
    LookupGroup,
    /// One lookup in the group's (or its namespace's) keyring.
    LookupGroupKey { group: [u8; 32] },
    LookupSenderKey,
    Decrypt { key: [u8; 32] },
    /// Run the handlers a crash left pending in the delta store.
    ReplayInterruptedHandlers,
    /// Ask whether the DAG holds the delta as applied.
    CheckCheckpoint,
    AddToDag,
    ParseEvents,
    RunHandlers,
    /// Emit the parsed events; clear the stored blob first when `clear`.
    EmitEvents { clear: bool },
    /// Run the handlers of the deltas the addition cascaded.
    RunCascade,
    Finish(ReplayOutcome),
}

/// What the caller found.
pub enum ReplayEvent<R> {
    Begin,
    /// The recovery, emit or cascade is done.
    Completed,
    StoreFailed,
    ContextFound(bool),
    SignatureChecked(bool),
    /// Whether the author is read-only (a failed lookup counts as no).
    ReadOnly(Result<bool, ()>),
    GroupChecked(GroupIdCheck),
    Membership(Result<MembershipStatus<R>, ()>),
    /// Whether the fence refuses the delta's schema.
    Fenced(bool),
    Group(Option<[u8; 32]>),
    GroupKey(Option<[u8; 32]>),
    /// The author's identity record (`Some(None)`: no sender key).
    SenderKey(Option<Option<[u8; 32]>>),
    Decrypted(bool),
    CheckpointMatch(bool),
    /// Whether the DAG applied the delta.
    Added(bool),
    EventsParsed(bool),
    /// Whether every handler succeeded.
    HandlersRan(bool),
}

/// One buffered delta's replay.
#[derive(Debug, PartialEq, Eq, Clone, Copy)]
pub struct ReplayFlow {
    pub phase: ReplayPhase,
    /// The delta is this node's own.
    pub self_authored: bool,
    pub has_signature: bool,
    /// The delta cites a governance position.
    pub has_position: bool,
    pub has_producing_app_key: bool,
    pub events_present: bool,
    /// A checkpoint of the snapshot covers the delta.
    pub covered_by_checkpoint: bool,
    pub applied: bool,
    /// Every gate before the key passed.
    pub admitted: bool,
}

/// Stop with this outcome.
pub open spec fn replay_finish(s: ReplayFlow, o: ReplayOutcome) -> (ReplayFlow, ReplayAction) {
    (ReplayFlow { phase: ReplayPhase::Done, ..s }, ReplayAction::Finish(o))
}

/// Past the membership gate: the fence, or the key.
pub open spec fn replay_to_fence(s: ReplayFlow) -> (ReplayFlow, ReplayAction) {
    if s.has_producing_app_key {
        (ReplayFlow { phase: ReplayPhase::AwaitFence, ..s }, ReplayAction::CheckFence)
    } else {
        (ReplayFlow { phase: ReplayPhase::AwaitGroup, admitted: true, ..s }, ReplayAction::LookupGroup)
    }
}

/// After the DAG step: the handlers when they are due (`due`) and there are
/// events, else the cascade.
pub open spec fn replay_to_handlers(s: ReplayFlow, due: bool) -> (ReplayFlow, ReplayAction) {
    if due && s.events_present {
        (ReplayFlow { phase: ReplayPhase::AwaitParse, ..s }, ReplayAction::ParseEvents)
    } else {
        (ReplayFlow { phase: ReplayPhase::AwaitCascade, ..s }, ReplayAction::RunCascade)
    }
}

/// A key is known: decrypt with it.
pub open spec fn replay_to_decrypt(s: ReplayFlow, key: [u8; 32]) -> (ReplayFlow, ReplayAction) {
    (ReplayFlow { phase: ReplayPhase::AwaitDecrypt, ..s }, ReplayAction::Decrypt { key })
}

/// The transition of the replay on one event.
pub open spec fn replay_next<R>(s: ReplayFlow, ev: ReplayEvent<R>) -> (ReplayFlow, ReplayAction) {
    match (s.phase, ev) {
        (ReplayPhase::Done, _) => (
            s,
            ReplayAction::Finish(ReplayOutcome::Failed(ReplayFailure::Unexpected)),
        ),
        (_, ReplayEvent::StoreFailed) => replay_finish(s, ReplayOutcome::Failed(ReplayFailure::Store)),
        (ReplayPhase::Start, ReplayEvent::Begin) => if s.self_authored {
            replay_finish(s, ReplayOutcome::Rejected(DeltaRejection::SelfAuthored))
        } else {
            (ReplayFlow { phase: ReplayPhase::AwaitContext, ..s }, ReplayAction::LoadContext)
        },
        (ReplayPhase::AwaitContext, ReplayEvent::ContextFound(found)) => if !found {
            replay_finish(s, ReplayOutcome::Failed(ReplayFailure::ContextNotFound))
        } else if s.has_signature {
            (ReplayFlow { phase: ReplayPhase::AwaitSignature, ..s }, ReplayAction::VerifySignature)
        } else {
            (ReplayFlow { phase: ReplayPhase::AwaitReadOnly, ..s }, ReplayAction::CheckReadOnly)
        },
        (ReplayPhase::AwaitSignature, ReplayEvent::SignatureChecked(ok)) => if ok {
            (ReplayFlow { phase: ReplayPhase::AwaitReadOnly, ..s }, ReplayAction::CheckReadOnly)
        } else {
            replay_finish(s, ReplayOutcome::Rejected(DeltaRejection::BadEnvelopeSignature))
        },
        (ReplayPhase::AwaitReadOnly, ReplayEvent::ReadOnly(r)) => if says_yes(r) {
            replay_finish(s, ReplayOutcome::Rejected(DeltaRejection::ReadOnlyAuthor))
        } else {
            (ReplayFlow { phase: ReplayPhase::AwaitGroupCheck, ..s }, ReplayAction::CheckGroup)
        },
        (ReplayPhase::AwaitGroupCheck, ReplayEvent::GroupChecked(g)) => match group_check_rejection(
            g,
        ) {
            Some(why) => replay_finish(s, ReplayOutcome::Rejected(why)),
            None => if s.has_position {
                (
                    ReplayFlow { phase: ReplayPhase::AwaitMembership, ..s },
                    ReplayAction::CheckMembership,
                )
            } else {
                replay_to_fence(s)
            },
        },
        (ReplayPhase::AwaitMembership, ReplayEvent::Membership(m)) => match membership_rejection(m) {
            Some(why) => replay_finish(s, ReplayOutcome::Rejected(why)),
            None => replay_to_fence(s),
        },
        (ReplayPhase::AwaitFence, ReplayEvent::Fenced(fenced)) => if fenced {
            replay_finish(s, ReplayOutcome::Rejected(DeltaRejection::Fenced))
        } else {
            (ReplayFlow { phase: ReplayPhase::AwaitGroup, admitted: true, ..s }, ReplayAction::LookupGroup)
        },
        (ReplayPhase::AwaitGroup, ReplayEvent::Group(g)) => match g {
            Some(group) => (
                ReplayFlow { phase: ReplayPhase::AwaitGroupKey, ..s },
                ReplayAction::LookupGroupKey { group },
            ),
            None => (ReplayFlow { phase: ReplayPhase::AwaitSenderKey, ..s }, ReplayAction::LookupSenderKey),
        },
        (ReplayPhase::AwaitGroupKey, ReplayEvent::GroupKey(k)) => match k {
            Some(key) => replay_to_decrypt(s, key),
            None => replay_finish(
                s,
                ReplayOutcome::Failed(ReplayFailure::Key(DeltaKeyError::NoGroupKey)),
            ),
        },
        (ReplayPhase::AwaitSenderKey, ReplayEvent::SenderKey(identity)) => match identity {
            None => replay_finish(
                s,
                ReplayOutcome::Failed(ReplayFailure::Key(DeltaKeyError::NoIdentity)),
            ),
            Some(None) => replay_finish(
                s,
                ReplayOutcome::Failed(ReplayFailure::Key(DeltaKeyError::NoSenderKey)),
            ),
            Some(Some(key)) => replay_to_decrypt(s, key),
        },
        (ReplayPhase::AwaitDecrypt, ReplayEvent::Decrypted(ok)) => if ok {
            (
                ReplayFlow { phase: ReplayPhase::AwaitRecovery, ..s },
                ReplayAction::ReplayInterruptedHandlers,
            )
        } else {
            replay_finish(s, ReplayOutcome::Failed(ReplayFailure::Decrypt))
        },
        (ReplayPhase::AwaitRecovery, ReplayEvent::Completed) => (
            ReplayFlow { phase: ReplayPhase::AwaitCheckpoint, ..s },
            ReplayAction::CheckCheckpoint,
        ),
        (ReplayPhase::AwaitCheckpoint, ReplayEvent::CheckpointMatch(m)) => if !(
        s.covered_by_checkpoint && !m) {
            (ReplayFlow { phase: ReplayPhase::AwaitAdd, ..s }, ReplayAction::AddToDag)
        } else {
            (ReplayFlow { phase: ReplayPhase::AwaitRecheck, ..s }, ReplayAction::CheckCheckpoint)
        },
        (ReplayPhase::AwaitAdd, ReplayEvent::Added(applied)) => if applied {
            replay_to_handlers(ReplayFlow { applied: true, ..s }, true)
        } else {
            (ReplayFlow { phase: ReplayPhase::AwaitRecheck, ..s }, ReplayAction::CheckCheckpoint)
        },
        (ReplayPhase::AwaitRecheck, ReplayEvent::CheckpointMatch(m)) => replay_to_handlers(
            s,
            m || s.covered_by_checkpoint,
        ),
        (ReplayPhase::AwaitParse, ReplayEvent::EventsParsed(parsed)) => if parsed {
            (ReplayFlow { phase: ReplayPhase::AwaitHandlers, ..s }, ReplayAction::RunHandlers)
        } else {
            (ReplayFlow { phase: ReplayPhase::AwaitCascade, ..s }, ReplayAction::RunCascade)
        },
        (ReplayPhase::AwaitHandlers, ReplayEvent::HandlersRan(ok)) => (
            ReplayFlow { phase: ReplayPhase::AwaitEmit, ..s },
            ReplayAction::EmitEvents { clear: ok },
        ),
        (ReplayPhase::AwaitEmit, ReplayEvent::Completed) => (
            ReplayFlow { phase: ReplayPhase::AwaitCascade, ..s },
            ReplayAction::RunCascade,
        ),
        (ReplayPhase::AwaitCascade, ReplayEvent::Completed) => replay_finish(
            s,
            ReplayOutcome::Replayed { applied: s.applied },
        ),
        _ => replay_finish(s, ReplayOutcome::Failed(ReplayFailure::Unexpected)),
    }
}

/// Whatever the events, the replay of our own delta ends at its first step,
/// refused, and the DAG is asked to take a delta only once every gate before
/// the key let it through; a replay reports "applied" only when the DAG
/// took the delta.
pub proof fn lemma_replay_gates<R>(s: ReplayFlow, ev: ReplayEvent<R>)
    requires
        replay_inv(s),
    ensures
        replay_inv(replay_next(s, ev).0),
        s.phase == ReplayPhase::Start && s.self_authored ==> replay_next(s, ev).1 != ReplayAction::LoadContext,
        replay_next(s, ev).1 == ReplayAction::AddToDag ==> replay_next(s, ev).0.admitted && !s.self_authored,
        replay_next(s, ev).1 == ReplayAction::Finish(ReplayOutcome::Replayed { applied: true })
            ==> s.applied,
{
}

/// The replay runs a delta's handlers when the DAG applied it, when a
/// checkpoint matches it (its state came with the snapshot), or when a
/// checkpoint covers it, and only then, provided it carries events: after
/// the DAG applied it, parsing comes next; on the recheck after the DAG did
/// not apply it (or was skipped), parsing comes next exactly when the
/// checkpoint matches or covers it, and otherwise the cascade.
pub proof fn lemma_replay_handlers_due<R>(s: ReplayFlow, matched: bool)
    ensures
        s.phase == ReplayPhase::AwaitAdd ==> replay_next(s, ReplayEvent::<R>::Added(true)).1 == (
        if s.events_present {
            ReplayAction::ParseEvents
        } else {
            ReplayAction::RunCascade
        }),
        s.phase == ReplayPhase::AwaitAdd ==> replay_next(s, ReplayEvent::<R>::Added(true)).0.applied,
        s.phase == ReplayPhase::AwaitAdd ==> replay_next(s, ReplayEvent::<R>::Added(false)).1
            == ReplayAction::CheckCheckpoint,
        s.phase == ReplayPhase::AwaitRecheck ==> (replay_next(
            s,
            ReplayEvent::<R>::CheckpointMatch(matched),
        ).1 == ReplayAction::ParseEvents) == (s.events_present && (matched
            || s.covered_by_checkpoint)),
        s.phase == ReplayPhase::AwaitRecheck ==> (replay_next(
            s,
            ReplayEvent::<R>::CheckpointMatch(matched),
        ).1 == ReplayAction::RunCascade) == !(s.events_present && (matched
            || s.covered_by_checkpoint)),
        s.phase == ReplayPhase::AwaitCheckpoint ==> (replay_next(
            s,
            ReplayEvent::<R>::CheckpointMatch(matched),
        ).1 == ReplayAction::AddToDag) == !(s.covered_by_checkpoint && !matched),
{
}

/// What holds of a replay at every step: only a delta not our own gets past
/// the start, the gates passed before the key, and "applied" only after the
/// DAG said so.
pub open spec fn replay_inv(s: ReplayFlow) -> bool {
    &&& s.phase != ReplayPhase::Start && s.phase != ReplayPhase::Done ==> !s.self_authored
    &&& (s.phase == ReplayPhase::AwaitGroup || s.phase == ReplayPhase::AwaitGroupKey || s.phase
        == ReplayPhase::AwaitSenderKey || s.phase == ReplayPhase::AwaitDecrypt || s.phase
        == ReplayPhase::AwaitRecovery || s.phase == ReplayPhase::AwaitCheckpoint || s.phase
        == ReplayPhase::AwaitAdd || s.phase == ReplayPhase::AwaitRecheck || s.phase
        == ReplayPhase::AwaitParse || s.phase == ReplayPhase::AwaitHandlers || s.phase
        == ReplayPhase::AwaitEmit || s.phase == ReplayPhase::AwaitCascade) ==> s.admitted
    &&& s.phase == ReplayPhase::Start ==> !s.applied && !s.admitted
    &&& s.applied ==> s.admitted
}

impl ReplayFlow {
    /// The replay of a buffered delta: whether it is our own, carries an
    /// envelope signature, cites a governance position, names its schema and
    /// carries events, and whether a checkpoint of the snapshot covers it.
    pub fn new(
        self_authored: bool,
        has_signature: bool,
        has_position: bool,
        has_producing_app_key: bool,
        events_present: bool,
        covered_by_checkpoint: bool,
    ) -> (f: ReplayFlow)
        ensures
            f.phase == ReplayPhase::Start,
            f.self_authored == self_authored,
            f.has_signature == has_signature,
            f.has_position == has_position,
            f.has_producing_app_key == has_producing_app_key,
            f.events_present == events_present,
            f.covered_by_checkpoint == covered_by_checkpoint,
            !f.applied && !f.admitted,
            replay_inv(f),
    {
        ReplayFlow {
            phase: ReplayPhase::Start,
            self_authored,
            has_signature,
            has_position,
            has_producing_app_key,
            events_present,
            covered_by_checkpoint,
            applied: false,
            admitted: false,
        }
    }

    /// Take the answer to the pending action and say what to do next.
    pub fn step<R>(&mut self, ev: ReplayEvent<R>) -> (a: ReplayAction)
        ensures
            (*final(self), a) == replay_next(*old(self), ev),
    {
        let s = *self;
        let (next, a) = replay_next_of(s, ev);
        *self = next;
        a
    }
}

fn finish_with(s: ReplayFlow, o: ReplayOutcome) -> (r: (ReplayFlow, ReplayAction))
    ensures
        r == replay_finish(s, o),
{
    (ReplayFlow { phase: ReplayPhase::Done, ..s }, ReplayAction::Finish(o))
}

fn to_fence(s: ReplayFlow) -> (r: (ReplayFlow, ReplayAction))
    ensures
        r == replay_to_fence(s),
{
    if s.has_producing_app_key {
        (ReplayFlow { phase: ReplayPhase::AwaitFence, ..s }, ReplayAction::CheckFence)
    } else {
        (ReplayFlow { phase: ReplayPhase::AwaitGroup, admitted: true, ..s }, ReplayAction::LookupGroup)
    }
}

fn to_handlers(s: ReplayFlow, due: bool) -> (r: (ReplayFlow, ReplayAction))
    ensures
        r == replay_to_handlers(s, due),
{
    if due && s.events_present {
        (ReplayFlow { phase: ReplayPhase::AwaitParse, ..s }, ReplayAction::ParseEvents)
    } else {
        (ReplayFlow { phase: ReplayPhase::AwaitCascade, ..s }, ReplayAction::RunCascade)
    }
}

#[verifier::rlimit(40)]
fn replay_next_of<R>(s: ReplayFlow, ev: ReplayEvent<R>) -> (r: (ReplayFlow, ReplayAction))
    ensures
        r == replay_next(s, ev),
{
    if matches!(s.phase, ReplayPhase::Done) {
        return (s, ReplayAction::Finish(ReplayOutcome::Failed(ReplayFailure::Unexpected)));
    }
    if matches!(ev, ReplayEvent::StoreFailed) {
        return finish_with(s, ReplayOutcome::Failed(ReplayFailure::Store));
    }
    match (s.phase, ev) {
        (ReplayPhase::Start, ReplayEvent::Begin) => {
            if s.self_authored {
                finish_with(s, ReplayOutcome::Rejected(DeltaRejection::SelfAuthored))
            } else {
                (ReplayFlow { phase: ReplayPhase::AwaitContext, ..s }, ReplayAction::LoadContext)
            }
        },
        (ReplayPhase::AwaitContext, ReplayEvent::ContextFound(found)) => {
            if !found {
                finish_with(s, ReplayOutcome::Failed(ReplayFailure::ContextNotFound))
            } else if s.has_signature {
                (ReplayFlow { phase: ReplayPhase::AwaitSignature, ..s }, ReplayAction::VerifySignature)
            } else {
                (ReplayFlow { phase: ReplayPhase::AwaitReadOnly, ..s }, ReplayAction::CheckReadOnly)
            }
        },
        (ReplayPhase::AwaitSignature, ReplayEvent::SignatureChecked(ok)) => {
            if ok {
                (ReplayFlow { phase: ReplayPhase::AwaitReadOnly, ..s }, ReplayAction::CheckReadOnly)
            } else {
                finish_with(s, ReplayOutcome::Rejected(DeltaRejection::BadEnvelopeSignature))
            }
        },
        (ReplayPhase::AwaitReadOnly, ReplayEvent::ReadOnly(r)) => {
            if yes(&r) {
                finish_with(s, ReplayOutcome::Rejected(DeltaRejection::ReadOnlyAuthor))
            } else {
                (ReplayFlow { phase: ReplayPhase::AwaitGroupCheck, ..s }, ReplayAction::CheckGroup)
            }
        },
        (ReplayPhase::AwaitGroupCheck, ReplayEvent::GroupChecked(g)) => {
            match group_check_refusal(&g) {
                Some(why) => finish_with(s, ReplayOutcome::Rejected(why)),
                None => {
                    if s.has_position {
                        (
                            ReplayFlow { phase: ReplayPhase::AwaitMembership, ..s },
                            ReplayAction::CheckMembership,
                        )
                    } else {
                        to_fence(s)
                    }
                },
            }
        },
        (ReplayPhase::AwaitMembership, ReplayEvent::Membership(m)) => {
            match membership_refusal(&m) {
                Some(why) => finish_with(s, ReplayOutcome::Rejected(why)),
                None => to_fence(s),
            }
        },
        (ReplayPhase::AwaitFence, ReplayEvent::Fenced(fenced)) => {
            if fenced {
                finish_with(s, ReplayOutcome::Rejected(DeltaRejection::Fenced))
            } else {
                (
                    ReplayFlow { phase: ReplayPhase::AwaitGroup, admitted: true, ..s },
                    ReplayAction::LookupGroup,
                )
            }
        },
        (ReplayPhase::AwaitGroup, ReplayEvent::Group(g)) => {
            match g {
                Some(group) => (
                    ReplayFlow { phase: ReplayPhase::AwaitGroupKey, ..s },
                    ReplayAction::LookupGroupKey { group },
                ),
                None => (
                    ReplayFlow { phase: ReplayPhase::AwaitSenderKey, ..s },
                    ReplayAction::LookupSenderKey,
                ),
            }
        },
        (ReplayPhase::AwaitGroupKey, ReplayEvent::GroupKey(k)) => {
            match k {
                Some(key) => (
                    ReplayFlow { phase: ReplayPhase::AwaitDecrypt, ..s },
                    ReplayAction::Decrypt { key },
                ),
                None => finish_with(
                    s,
                    ReplayOutcome::Failed(ReplayFailure::Key(DeltaKeyError::NoGroupKey)),
                ),
            }
        },
        (ReplayPhase::AwaitSenderKey, ReplayEvent::SenderKey(identity)) => {
            match select_delta_key(false, None, identity) {
                Ok(key) => (
                    ReplayFlow { phase: ReplayPhase::AwaitDecrypt, ..s },
                    ReplayAction::Decrypt { key },
                ),
                Err(e) => finish_with(s, ReplayOutcome::Failed(ReplayFailure::Key(e))),
            }
        },
        (ReplayPhase::AwaitDecrypt, ReplayEvent::Decrypted(ok)) => {
            if ok {
                (
                    ReplayFlow { phase: ReplayPhase::AwaitRecovery, ..s },
                    ReplayAction::ReplayInterruptedHandlers,
                )
            } else {
                finish_with(s, ReplayOutcome::Failed(ReplayFailure::Decrypt))
            }
        },
        (ReplayPhase::AwaitRecovery, ReplayEvent::Completed) => (
            ReplayFlow { phase: ReplayPhase::AwaitCheckpoint, ..s },
            ReplayAction::CheckCheckpoint,
        ),
        (ReplayPhase::AwaitCheckpoint, ReplayEvent::CheckpointMatch(m)) => {
            if replay_adds_to_dag(s.covered_by_checkpoint, m) {
                (ReplayFlow { phase: ReplayPhase::AwaitAdd, ..s }, ReplayAction::AddToDag)
            } else {
                (ReplayFlow { phase: ReplayPhase::AwaitRecheck, ..s }, ReplayAction::CheckCheckpoint)
            }
        },
        (ReplayPhase::AwaitAdd, ReplayEvent::Added(applied)) => {
            if applied {
                to_handlers(ReplayFlow { applied: true, ..s }, true)
            } else {
                (ReplayFlow { phase: ReplayPhase::AwaitRecheck, ..s }, ReplayAction::CheckCheckpoint)
            }
        },
        (ReplayPhase::AwaitRecheck, ReplayEvent::CheckpointMatch(m)) => to_handlers(
            s,
            m || s.covered_by_checkpoint,
        ),
        (ReplayPhase::AwaitParse, ReplayEvent::EventsParsed(parsed)) => {
            if parsed {
                (ReplayFlow { phase: ReplayPhase::AwaitHandlers, ..s }, ReplayAction::RunHandlers)
            } else {
                (ReplayFlow { phase: ReplayPhase::AwaitCascade, ..s }, ReplayAction::RunCascade)
            }
        },
        (ReplayPhase::AwaitHandlers, ReplayEvent::HandlersRan(ok)) => (
            ReplayFlow { phase: ReplayPhase::AwaitEmit, ..s },
            ReplayAction::EmitEvents { clear: ok },
        ),
        (ReplayPhase::AwaitEmit, ReplayEvent::Completed) => (
            ReplayFlow { phase: ReplayPhase::AwaitCascade, ..s },
            ReplayAction::RunCascade,
        ),
        (ReplayPhase::AwaitCascade, ReplayEvent::Completed) => finish_with(
            s,
            ReplayOutcome::Replayed { applied: s.applied },
        ),
        _ => finish_with(s, ReplayOutcome::Failed(ReplayFailure::Unexpected)),
    }
}

} // verus!
