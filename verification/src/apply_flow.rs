//! The apply step that every state-delta path funnels into, as a state
//! machine: each lookup, store write, sleep and DAG insertion is an action
//! the caller performs, and what it found comes back as the next event.
//!
//! The order is: the envelope signature (when the delta carries one), the
//! schema fence (when it names its producing schema and this is not a drain
//! replay), the context and its author's read-only role, the sync buffer,
//! the decryption key (polling a group's keyring for a bounded time), the
//! decryption, whether this node owns the author's identity (a delta we
//! authored, under any of our identities, is not applied again;
//! its events are only re-emitted), the application, and finally the DAG.
use vstd::prelude::*;

use crate::delta_auth::{fence_and_maybe_absorb, FenceAction, FenceDecision};
use crate::delta_flow::{
    after_buffer_push, keep_polling_for_key, post_apply_plan, says_yes, select_delta_key,
    should_buffer_delta, BufferNext, DeltaKeyError, DeltaRejection, PostApplyPlan,
    KEY_LOOKUP_POLL_MS, KEY_LOOKUP_WAIT_MS,
};
use crate::readiness::is_zero_head;

verus! {

/// Where the apply step stands: which answer it waits for.
#[derive(Debug, PartialEq, Eq, Clone, Copy)]
pub enum ApplyPhase {
    Start,
    AwaitSignature,
    AwaitFence,
    AwaitAbsorb,
    AwaitContext,
    AwaitReadOnly,
    AwaitSession,
    AwaitPush,
    AwaitRetryPush,
    AwaitGroup,
    AwaitGroupKey,
    AwaitSleep,
    AwaitSenderKey,
    AwaitDecrypt,
    AwaitOwnership,
    AwaitSelfEmit,
    AwaitApplication,
    AwaitDag,
    AwaitHandlers,
    Done,
}

/// Why the apply step stopped with an error.
#[derive(Debug, PartialEq, Eq, Clone, Copy)]
pub enum ApplyFailure {
    /// A store read or write failed.
    Store,
    /// The context is unknown.
    ContextNotFound,
    /// No key to decrypt with.
    Key(DeltaKeyError),
    /// The artifact did not decrypt or decode.
    Decrypt,
    /// The application is not available yet; the delta is retried when it is
    /// broadcast again.
    ApplicationUnavailable,
    /// An event that does not answer the pending action.
    Unexpected,
}

/// How the apply step ended.
#[derive(Debug, PartialEq, Eq, Clone, Copy)]
pub enum ApplyOutcome {
    /// Refused (bad envelope signature, or a read-only author).
    Rejected(DeltaRejection),
    /// The fence took it and it was persisted for a verbatim replay.
    Absorbed,
    /// The fence dropped it.
    FenceDropped,
    /// The sync buffer holds it for replay after the sync.
    Buffered,
    /// We authored it: nothing applied again, its events re-emitted.
    SelfAuthored,
    /// It went to the DAG; the caller carries out the plan, and clears the
    /// events blob as well when the handlers all succeeded.
    Applied { plan: PostApplyPlan, handlers_succeeded: bool },
    Failed(ApplyFailure),
}

/// What the caller does next.
#[derive(Debug, PartialEq, Eq, Clone, Copy)]
pub enum ApplyAction {
    VerifySignature,
    DecideFence,
    PersistAbsorbed,
    LoadContext,
    CheckReadOnly,
    CheckSyncSession,
    PushToSyncBuffer,
    StartSessionAndPush,
    LookupGroup,
    LookupGroupKey { group: [u8; 32] },
    Sleep { ms: u64 },
    LookupSenderKey,
    Decrypt { key: [u8; 32] },
    /// Ask whether the author is one of this node's own identities in the
    /// context.
    CheckAuthorOwned,
    /// Emit the delta's events to subscribers if they parse.
    EmitEventsIfParsed,
    EnsureApplication,
    AddToDag,
    /// Run the event handlers of the applied delta.
    RunHandlers,
    Finish(ApplyOutcome),
}

/// What the caller found.
#[derive(Debug, PartialEq, Eq, Clone, Copy)]
pub enum ApplyEvent {
    Begin,
    /// The persist, emit or sleep is done.
    Completed,
    StoreFailed,
    SignatureChecked(bool),
    FenceDecided(FenceDecision),
    /// The context's root hash, or `None` for an unknown context.
    ContextLoaded(Option<[u8; 32]>),
    /// Whether the author is read-only (a failed lookup counts as no).
    ReadOnly(Result<bool, ()>),
    SessionActive(bool),
    /// `pushed`: `None` without a buffering session, else whether the buffer
    /// took (or held) the delta; `session_active`: as seen after the push.
    Pushed { pushed: Option<bool>, session_active: bool },
    /// The context's group, and the clock when it was looked up.
    Group { group: Option<[u8; 32]>, now_ms: u64 },
    /// The key with the delta's key id in the group's (or its namespace's)
    /// keyring, and the clock after the lookup.
    GroupKey { key: Option<[u8; 32]>, now_ms: u64 },
    /// The author's identity record (`Some(None)`: no sender key).
    SenderKey(Option<Option<[u8; 32]>>),
    Decrypted(bool),
    /// Whether the author is one of the identities this node owns in the
    /// context.
    AuthorOwned(bool),
    ApplicationAvailable(bool),
    /// The DAG insertion and its cascades.
    Added { applied: bool, handlers_already_executed: bool, events_parsed: bool },
    /// Whether every handler succeeded.
    HandlersRan(bool),
}

/// One delta's pass through the apply step.
#[derive(Debug, PartialEq, Eq, Clone, Copy)]
pub struct ApplyFlow {
    pub phase: ApplyPhase,
    pub has_signature: bool,
    pub has_producing_app_key: bool,
    pub bypass_fence: bool,
    pub events_present: bool,
    pub root_uninitialized: bool,
    pub group: [u8; 32],
    pub deadline_ms: u64,
    pub plan: PostApplyPlan,
    /// The envelope signature verified, or there was none.
    pub signature_cleared: bool,
    /// The fence let it through, was bypassed, or had nothing to fence.
    pub fence_cleared: bool,
    /// The author is not read-only.
    pub role_cleared: bool,
    /// The author is none of this node's identities.
    pub foreign: bool,
}

/// The plan before the DAG answered.
pub open spec fn empty_plan() -> PostApplyPlan {
    PostApplyPlan {
        clear_unparseable_events: false,
        run_handlers: false,
        clear_authored_events: false,
        emit_event: false,
        broadcast_root: false,
    }
}

/// The flow of a delta before any step: at the start, with the delta's
/// facts and no gate cleared yet.
pub open spec fn is_initial_flow(
    f: ApplyFlow,
    has_signature: bool,
    has_producing_app_key: bool,
    bypass_fence: bool,
    events_present: bool,
) -> bool {
    &&& f.phase == ApplyPhase::Start
    &&& f.has_signature == has_signature
    &&& f.has_producing_app_key == has_producing_app_key
    &&& f.bypass_fence == bypass_fence
    &&& f.events_present == events_present
    &&& f.plan == empty_plan()
    &&& !f.signature_cleared && !f.fence_cleared && !f.role_cleared && !f.foreign
}

/// Stop with this outcome.
pub open spec fn finish(s: ApplyFlow, o: ApplyOutcome) -> (ApplyFlow, ApplyAction) {
    (ApplyFlow { phase: ApplyPhase::Done, ..s }, ApplyAction::Finish(o))
}

/// Past the signature: the fence, unless there is nothing to fence or this
/// is a drain replay.
pub open spec fn past_signature(s: ApplyFlow) -> (ApplyFlow, ApplyAction) {
    if s.has_producing_app_key && !s.bypass_fence {
        (
            ApplyFlow { phase: ApplyPhase::AwaitFence, signature_cleared: true, ..s },
            ApplyAction::DecideFence,
        )
    } else {
        (
            ApplyFlow {
                phase: ApplyPhase::AwaitContext,
                signature_cleared: true,
                fence_cleared: true,
                ..s
            },
            ApplyAction::LoadContext,
        )
    }
}

/// Past the buffer: look up the context's group.
pub open spec fn to_key_lookup(s: ApplyFlow) -> (ApplyFlow, ApplyAction) {
    (ApplyFlow { phase: ApplyPhase::AwaitGroup, ..s }, ApplyAction::LookupGroup)
}

/// A key is known: decrypt with it.
pub open spec fn to_decrypt(s: ApplyFlow, key: [u8; 32]) -> (ApplyFlow, ApplyAction) {
    (ApplyFlow { phase: ApplyPhase::AwaitDecrypt, ..s }, ApplyAction::Decrypt { key })
}

/// The deadline of the group-key wait that starts at `now_ms`.
pub open spec fn key_deadline(now_ms: u64) -> u64 {
    if now_ms + KEY_LOOKUP_WAIT_MS > u64::MAX {
        u64::MAX
    } else {
        (now_ms + KEY_LOOKUP_WAIT_MS) as u64
    }
}

/// The transition of the apply step on one event.
pub open spec fn apply_next(s: ApplyFlow, ev: ApplyEvent) -> (ApplyFlow, ApplyAction) {
    match (s.phase, ev) {
        (ApplyPhase::Done, _) => (s, ApplyAction::Finish(ApplyOutcome::Failed(ApplyFailure::Unexpected))),
        (_, ApplyEvent::StoreFailed) => finish(s, ApplyOutcome::Failed(ApplyFailure::Store)),
        (ApplyPhase::Start, ApplyEvent::Begin) => if s.has_signature {
            (ApplyFlow { phase: ApplyPhase::AwaitSignature, ..s }, ApplyAction::VerifySignature)
        } else {
            past_signature(s)
        },
        (ApplyPhase::AwaitSignature, ApplyEvent::SignatureChecked(ok)) => if ok {
            past_signature(s)
        } else {
            finish(s, ApplyOutcome::Rejected(DeltaRejection::BadEnvelopeSignature))
        },
        (ApplyPhase::AwaitFence, ApplyEvent::FenceDecided(d)) => match d {
            FenceDecision::Apply => (
                ApplyFlow { phase: ApplyPhase::AwaitContext, fence_cleared: true, ..s },
                ApplyAction::LoadContext,
            ),
            FenceDecision::Buffer => (
                ApplyFlow { phase: ApplyPhase::AwaitAbsorb, ..s },
                ApplyAction::PersistAbsorbed,
            ),
            FenceDecision::Drop => finish(s, ApplyOutcome::FenceDropped),
        },
        (ApplyPhase::AwaitAbsorb, ApplyEvent::Completed) => finish(s, ApplyOutcome::Absorbed),
        (ApplyPhase::AwaitContext, ApplyEvent::ContextLoaded(root)) => match root {
            None => finish(s, ApplyOutcome::Failed(ApplyFailure::ContextNotFound)),
            Some(r) => (
                ApplyFlow {
                    phase: ApplyPhase::AwaitReadOnly,
                    root_uninitialized: is_zero_head(r@),
                    ..s
                },
                ApplyAction::CheckReadOnly,
            ),
        },
        (ApplyPhase::AwaitReadOnly, ApplyEvent::ReadOnly(r)) => if says_yes(r) {
            finish(s, ApplyOutcome::Rejected(DeltaRejection::ReadOnlyAuthor))
        } else {
            (
                ApplyFlow { phase: ApplyPhase::AwaitSession, role_cleared: true, ..s },
                ApplyAction::CheckSyncSession,
            )
        },
        (ApplyPhase::AwaitSession, ApplyEvent::SessionActive(active)) => if active
            || s.root_uninitialized {
            (ApplyFlow { phase: ApplyPhase::AwaitPush, ..s }, ApplyAction::PushToSyncBuffer)
        } else {
            to_key_lookup(s)
        },
        (ApplyPhase::AwaitPush, ApplyEvent::Pushed { pushed, session_active }) => if pushed
            == Some(true) {
            finish(s, ApplyOutcome::Buffered)
        } else if s.root_uninitialized && !session_active {
            (
                ApplyFlow { phase: ApplyPhase::AwaitRetryPush, ..s },
                ApplyAction::StartSessionAndPush,
            )
        } else {
            to_key_lookup(s)
        },
        (ApplyPhase::AwaitRetryPush, ApplyEvent::Pushed { pushed, .. }) => if pushed == Some(
            true,
        ) {
            finish(s, ApplyOutcome::Buffered)
        } else {
            to_key_lookup(s)
        },
        (ApplyPhase::AwaitGroup, ApplyEvent::Group { group, now_ms }) => match group {
            Some(g) => (
                ApplyFlow {
                    phase: ApplyPhase::AwaitGroupKey,
                    group: g,
                    deadline_ms: key_deadline(now_ms),
                    ..s
                },
                ApplyAction::LookupGroupKey { group: g },
            ),
            None => (
                ApplyFlow { phase: ApplyPhase::AwaitSenderKey, ..s },
                ApplyAction::LookupSenderKey,
            ),
        },
        (ApplyPhase::AwaitGroupKey, ApplyEvent::GroupKey { key, now_ms }) => match key {
            Some(k) => to_decrypt(s, k),
            None => if now_ms + KEY_LOOKUP_POLL_MS <= s.deadline_ms {
                (
                    ApplyFlow { phase: ApplyPhase::AwaitSleep, ..s },
                    ApplyAction::Sleep { ms: KEY_LOOKUP_POLL_MS },
                )
            } else {
                finish(s, ApplyOutcome::Failed(ApplyFailure::Key(DeltaKeyError::NoGroupKey)))
            },
        },
        (ApplyPhase::AwaitSleep, ApplyEvent::Completed) => (
            ApplyFlow { phase: ApplyPhase::AwaitGroupKey, ..s },
            ApplyAction::LookupGroupKey { group: s.group },
        ),
        (ApplyPhase::AwaitSenderKey, ApplyEvent::SenderKey(identity)) => match identity {
            None => finish(s, ApplyOutcome::Failed(ApplyFailure::Key(DeltaKeyError::NoIdentity))),
            Some(None) => finish(
                s,
                ApplyOutcome::Failed(ApplyFailure::Key(DeltaKeyError::NoSenderKey)),
            ),
            Some(Some(k)) => to_decrypt(s, k),
        },
        (ApplyPhase::AwaitDecrypt, ApplyEvent::Decrypted(ok)) => if ok {
            (ApplyFlow { phase: ApplyPhase::AwaitOwnership, ..s }, ApplyAction::CheckAuthorOwned)
        } else {
            finish(s, ApplyOutcome::Failed(ApplyFailure::Decrypt))
        },
        (ApplyPhase::AwaitOwnership, ApplyEvent::AuthorOwned(owned)) => if owned {
            (ApplyFlow { phase: ApplyPhase::AwaitSelfEmit, ..s }, ApplyAction::EmitEventsIfParsed)
        } else {
            (
                ApplyFlow { phase: ApplyPhase::AwaitApplication, foreign: true, ..s },
                ApplyAction::EnsureApplication,
            )
        },
        (ApplyPhase::AwaitSelfEmit, ApplyEvent::Completed) => finish(s, ApplyOutcome::SelfAuthored),
        (ApplyPhase::AwaitApplication, ApplyEvent::ApplicationAvailable(ok)) => if ok {
            (ApplyFlow { phase: ApplyPhase::AwaitDag, ..s }, ApplyAction::AddToDag)
        } else {
            finish(s, ApplyOutcome::Failed(ApplyFailure::ApplicationUnavailable))
        },
        (
            ApplyPhase::AwaitDag,
            ApplyEvent::Added { applied, handlers_already_executed, events_parsed },
        ) => {
            let parsed = events_parsed && s.events_present;
            let plan = PostApplyPlan {
                clear_unparseable_events: applied && s.events_present && !parsed,
                run_handlers: applied && !handlers_already_executed && parsed,
                clear_authored_events: false,
                emit_event: parsed,
                broadcast_root: applied,
            };
            if plan.run_handlers {
                (ApplyFlow { phase: ApplyPhase::AwaitHandlers, plan, ..s }, ApplyAction::RunHandlers)
            } else {
                finish(
                    ApplyFlow { plan, ..s },
                    ApplyOutcome::Applied { plan, handlers_succeeded: false },
                )
            }
        },
        (ApplyPhase::AwaitHandlers, ApplyEvent::HandlersRan(ok)) => finish(
            s,
            ApplyOutcome::Applied { plan: s.plan, handlers_succeeded: ok },
        ),
        _ => finish(s, ApplyOutcome::Failed(ApplyFailure::Unexpected)),
    }
}

/// The flow after the events `evs`, one after the other.
pub open spec fn run_events(s: ApplyFlow, evs: Seq<ApplyEvent>) -> ApplyFlow
    decreases evs.len(),
{
    if evs.len() == 0 {
        s
    } else {
        apply_next(run_events(s, evs.drop_last()), evs.last()).0
    }
}

/// Among `evs`, the envelope signature was reported valid.
pub open spec fn signature_verified_in(evs: Seq<ApplyEvent>) -> bool {
    exists|j: int| 0 <= j < evs.len() && evs[j] == ApplyEvent::SignatureChecked(true)
}

/// Among `evs`, the fence decided that the delta is readable now.
pub open spec fn fence_passed_in(evs: Seq<ApplyEvent>) -> bool {
    exists|j: int|
        0 <= j < evs.len() && evs[j] == ApplyEvent::FenceDecided(FenceDecision::Apply)
}

/// Among `evs`, the author was reported not read-only.
pub open spec fn role_passed_in(evs: Seq<ApplyEvent>) -> bool {
    exists|j: int| 0 <= j < evs.len() && evs[j] is ReadOnly && !says_yes(evs[j]->ReadOnly_0)
}

/// Among `evs`, the author was reported to be none of this node's identities.
pub open spec fn author_foreign_in(evs: Seq<ApplyEvent>) -> bool {
    exists|j: int| 0 <= j < evs.len() && evs[j] == ApplyEvent::AuthorOwned(false)
}

/// Among `evs`, the author was reported to be one of this node's identities.
pub open spec fn author_owned_in(evs: Seq<ApplyEvent>) -> bool {
    exists|j: int| 0 <= j < evs.len() && evs[j] == ApplyEvent::AuthorOwned(true)
}

/// What holds of the flow after any events from a fresh start.
pub open spec fn run_facts(f0: ApplyFlow, evs: Seq<ApplyEvent>, t: ApplyFlow) -> bool {
    &&& t.has_signature == f0.has_signature
    &&& t.has_producing_app_key == f0.has_producing_app_key
    &&& t.bypass_fence == f0.bypass_fence
    &&& t.signature_cleared ==> (!f0.has_signature || signature_verified_in(evs))
    &&& t.fence_cleared ==> (!f0.has_producing_app_key || f0.bypass_fence || fence_passed_in(evs))
    &&& t.role_cleared ==> role_passed_in(evs)
    &&& t.foreign ==> author_foreign_in(evs)
    &&& author_owned_in(evs) ==> (t.phase == ApplyPhase::AwaitSelfEmit || t.phase == ApplyPhase::Done)
    &&& (t.phase == ApplyPhase::AwaitFence ==> f0.has_producing_app_key && !f0.bypass_fence)
    &&& past_role_gate(t.phase) ==> t.role_cleared
    &&& (t.phase == ApplyPhase::AwaitContext || t.phase == ApplyPhase::AwaitReadOnly
        || past_role_gate(t.phase)) ==> t.signature_cleared && t.fence_cleared
    &&& (t.phase == ApplyPhase::AwaitApplication || t.phase == ApplyPhase::AwaitDag
        || t.phase == ApplyPhase::AwaitHandlers) ==> t.foreign
}

/// The phases that follow the read-only check on the way to the DAG.
pub open spec fn past_role_gate(p: ApplyPhase) -> bool {
    match p {
        ApplyPhase::AwaitSession | ApplyPhase::AwaitPush | ApplyPhase::AwaitRetryPush
        | ApplyPhase::AwaitGroup | ApplyPhase::AwaitGroupKey | ApplyPhase::AwaitSleep
        | ApplyPhase::AwaitSenderKey | ApplyPhase::AwaitDecrypt | ApplyPhase::AwaitOwnership
        | ApplyPhase::AwaitSelfEmit | ApplyPhase::AwaitApplication | ApplyPhase::AwaitDag
        | ApplyPhase::AwaitHandlers => true,
        _ => false,
    }
}

proof fn lemma_run_facts(f0: ApplyFlow, evs: Seq<ApplyEvent>)
    requires
        f0.phase == ApplyPhase::Start,
        !f0.signature_cleared && !f0.fence_cleared && !f0.role_cleared && !f0.foreign,
    ensures
        run_facts(f0, evs, run_events(f0, evs)),
    decreases evs.len(),
{
    if evs.len() > 0 {
        let p = evs.drop_last();
        lemma_run_facts(f0, p);
        let t = run_events(f0, p);
        let ev = evs.last();
        let j = evs.len() - 1;
        assert(evs[j] == ev);
        assert forall|i: int| 0 <= i < p.len() implies evs[i] == p[i] by {}
        if signature_verified_in(p) {
            let i = choose|i: int| 0 <= i < p.len() && p[i] == ApplyEvent::SignatureChecked(true);
            assert(evs[i] == p[i]);
        }
        if fence_passed_in(p) {
            let i = choose|i: int|
                0 <= i < p.len() && p[i] == ApplyEvent::FenceDecided(FenceDecision::Apply);
            assert(evs[i] == p[i]);
        }
        if role_passed_in(p) {
            let i = choose|i: int| 0 <= i < p.len() && p[i] is ReadOnly && !says_yes(p[i]->ReadOnly_0);
            assert(evs[i] == p[i]);
        }
        if author_owned_in(evs) && !author_owned_in(p) {
            assert(ev == ApplyEvent::AuthorOwned(true));
        }
        if author_owned_in(p) {
            let i = choose|i: int| 0 <= i < p.len() && p[i] == ApplyEvent::AuthorOwned(true);
            assert(evs[i] == p[i]);
        }
        if author_foreign_in(p) {
            let i = choose|i: int| 0 <= i < p.len() && p[i] == ApplyEvent::AuthorOwned(false);
            assert(evs[i] == p[i]);
        }
    }
}

/// From a fresh start, whatever the events: the DAG is asked to take the
/// delta only after its envelope signature was reported valid (when it
/// carries one), the fence reported it readable (when it names its producing
/// schema and this is not a drain replay), its author was reported not
/// read-only, and the author was reported to be none of this node's own
/// identities; once the author was reported to be one of them, the delta
/// never reaches the DAG; and the fence is consulted only for a delta that
/// names its schema outside a drain replay.
pub proof fn lemma_dag_only_after_gates(f0: ApplyFlow, evs: Seq<ApplyEvent>, ev: ApplyEvent)
    requires
        f0.phase == ApplyPhase::Start,
        !f0.signature_cleared && !f0.fence_cleared && !f0.role_cleared && !f0.foreign,
    ensures
        apply_next(run_events(f0, evs), ev).1 == ApplyAction::AddToDag ==> {
            &&& f0.has_signature ==> signature_verified_in(evs)
            &&& f0.has_producing_app_key && !f0.bypass_fence ==> fence_passed_in(evs)
            &&& role_passed_in(evs)
            &&& author_foreign_in(evs)
            &&& !author_owned_in(evs)
        },
        apply_next(run_events(f0, evs), ev).1 == ApplyAction::DecideFence ==> f0.has_producing_app_key
            && !f0.bypass_fence,
{
    lemma_run_facts(f0, evs);
}

/// Once the delta is in the DAG, its handlers run at most once: the apply
/// step asks to run them exactly when the DAG applied the delta, its events
/// are present and parse, and no cascade ran them already; when a cascade
/// did, or the delta did not apply, it finishes without asking. The plan
/// handed out then runs no handlers, emits the events exactly when they
/// parse, clears a present blob that does not parse once applied, and
/// broadcasts the root exactly when the delta applied.
pub proof fn lemma_handlers_run_at_most_once(
    s: ApplyFlow,
    applied: bool,
    handlers_already_executed: bool,
    events_parsed: bool,
)
    requires
        s.phase == ApplyPhase::AwaitDag,
    ensures
        ({
            let ev = ApplyEvent::Added { applied, handlers_already_executed, events_parsed };
            let (t, a) = apply_next(s, ev);
            &&& (a == ApplyAction::RunHandlers) == (applied && !handlers_already_executed
                && events_parsed && s.events_present)
            &&& handlers_already_executed ==> a != ApplyAction::RunHandlers
            &&& a == ApplyAction::RunHandlers ==> t.phase == ApplyPhase::AwaitHandlers
            &&& a != ApplyAction::RunHandlers ==> (a matches ApplyAction::Finish(
                ApplyOutcome::Applied { plan, handlers_succeeded },
            ) && !plan.run_handlers && !handlers_succeeded && plan.emit_event == (events_parsed
                && s.events_present) && plan.broadcast_root == applied
                && plan.clear_unparseable_events == (applied && s.events_present
                && !events_parsed) && !plan.clear_authored_events)
        }),
{
}

/// The wait for a group key is bounded: it starts when the group is looked
/// up and lasts at most the key-lookup wait from then; another lookup is
/// slept for only while a whole poll interval still fits before the
/// deadline, and past it the step fails for want of a key; a key found is
/// the key the delta is decrypted with.
pub proof fn lemma_group_key_wait_bounded(s: ApplyFlow, group: [u8; 32], key: Option<[u8; 32]>, now_ms: u64)
    ensures
        s.phase == ApplyPhase::AwaitGroup ==> {
            let (t, a) = apply_next(s, ApplyEvent::Group { group: Some(group), now_ms });
            &&& a == ApplyAction::LookupGroupKey { group }
            &&& now_ms <= t.deadline_ms <= now_ms + KEY_LOOKUP_WAIT_MS
            &&& now_ms + KEY_LOOKUP_WAIT_MS <= u64::MAX ==> t.deadline_ms == now_ms + KEY_LOOKUP_WAIT_MS
        },
        s.phase == ApplyPhase::AwaitGroupKey ==> {
            let (t, a) = apply_next(s, ApplyEvent::GroupKey { key, now_ms });
            &&& key matches Some(k) ==> a == ApplyAction::Decrypt { key: k }
            &&& key is None && now_ms + KEY_LOOKUP_POLL_MS <= s.deadline_ms ==> a == ApplyAction::Sleep {
                ms: KEY_LOOKUP_POLL_MS,
            } && t.deadline_ms == s.deadline_ms
            &&& key is None && now_ms + KEY_LOOKUP_POLL_MS > s.deadline_ms ==> a == ApplyAction::Finish(
                ApplyOutcome::Failed(ApplyFailure::Key(DeltaKeyError::NoGroupKey)),
            )
        },
{
}

impl ApplyFlow {
    /// A delta about to enter the apply step: whether it carries
    /// an envelope signature, names its producing schema and events, and
    /// whether this is a drain replay that skips the fence.
    pub fn new(
        has_signature: bool,
        has_producing_app_key: bool,
        bypass_fence: bool,
        events_present: bool,
    ) -> (f: ApplyFlow)
        ensures
            is_initial_flow(f, has_signature, has_producing_app_key, bypass_fence, events_present),
    {
        ApplyFlow {
            phase: ApplyPhase::Start,
            has_signature,
            has_producing_app_key,
            bypass_fence,
            events_present,
            root_uninitialized: false,
            group: [0u8; 32],
            deadline_ms: 0,
            plan: PostApplyPlan {
                clear_unparseable_events: false,
                run_handlers: false,
                clear_authored_events: false,
                emit_event: false,
                broadcast_root: false,
            },
            signature_cleared: false,
            fence_cleared: false,
            role_cleared: false,
            foreign: false,
        }
    }

    /// Take the answer to the pending action and say what to do next.
    pub fn step(&mut self, ev: ApplyEvent) -> (a: ApplyAction)
        ensures
            (*final(self), a) == apply_next(*old(self), ev),
    {
        let s = *self;
        let (next, a) = next_of(s, ev);
        *self = next;
        a
    }
}

fn done(s: ApplyFlow, o: ApplyOutcome) -> (r: (ApplyFlow, ApplyAction))
    ensures
        r == finish(s, o),
{
    (ApplyFlow { phase: ApplyPhase::Done, ..s }, ApplyAction::Finish(o))
}

fn after_signature(s: ApplyFlow) -> (r: (ApplyFlow, ApplyAction))
    ensures
        r == past_signature(s),
{
    if s.has_producing_app_key && !s.bypass_fence {
        (
            ApplyFlow { phase: ApplyPhase::AwaitFence, signature_cleared: true, ..s },
            ApplyAction::DecideFence,
        )
    } else {
        (
            ApplyFlow {
                phase: ApplyPhase::AwaitContext,
                signature_cleared: true,
                fence_cleared: true,
                ..s
            },
            ApplyAction::LoadContext,
        )
    }
}

fn lookup_group(s: ApplyFlow) -> (r: (ApplyFlow, ApplyAction))
    ensures
        r == to_key_lookup(s),
{
    (ApplyFlow { phase: ApplyPhase::AwaitGroup, ..s }, ApplyAction::LookupGroup)
}

fn decrypt_with(s: ApplyFlow, key: [u8; 32]) -> (r: (ApplyFlow, ApplyAction))
    ensures
        r == to_decrypt(s, key),
{
    (ApplyFlow { phase: ApplyPhase::AwaitDecrypt, ..s }, ApplyAction::Decrypt { key })
}

fn deadline_after(now_ms: u64) -> (d: u64)
    ensures
        d == key_deadline(now_ms),
{
    now_ms.saturating_add(KEY_LOOKUP_WAIT_MS)
}

#[verifier::rlimit(40)]
fn next_of(s: ApplyFlow, ev: ApplyEvent) -> (r: (ApplyFlow, ApplyAction))
    ensures
        r == apply_next(s, ev),
{
    if matches!(s.phase, ApplyPhase::Done) {
        return (s, ApplyAction::Finish(ApplyOutcome::Failed(ApplyFailure::Unexpected)));
    }
    if matches!(ev, ApplyEvent::StoreFailed) {
        return done(s, ApplyOutcome::Failed(ApplyFailure::Store));
    }
    match (s.phase, ev) {
        (ApplyPhase::Start, ApplyEvent::Begin) => {
            if s.has_signature {
                (ApplyFlow { phase: ApplyPhase::AwaitSignature, ..s }, ApplyAction::VerifySignature)
            } else {
                after_signature(s)
            }
        },
        (ApplyPhase::AwaitSignature, ApplyEvent::SignatureChecked(ok)) => {
            if ok {
                after_signature(s)
            } else {
                done(s, ApplyOutcome::Rejected(DeltaRejection::BadEnvelopeSignature))
            }
        },
        (ApplyPhase::AwaitFence, ApplyEvent::FenceDecided(d)) => {
            match fence_and_maybe_absorb(false, d) {
                FenceAction::Fall => (
                    ApplyFlow { phase: ApplyPhase::AwaitContext, fence_cleared: true, ..s },
                    ApplyAction::LoadContext,
                ),
                FenceAction::Absorb => (
                    ApplyFlow { phase: ApplyPhase::AwaitAbsorb, ..s },
                    ApplyAction::PersistAbsorbed,
                ),
                FenceAction::Drop => done(s, ApplyOutcome::FenceDropped),
            }
        },
        (ApplyPhase::AwaitAbsorb, ApplyEvent::Completed) => done(s, ApplyOutcome::Absorbed),
        (ApplyPhase::AwaitContext, ApplyEvent::ContextLoaded(root)) => {
            match root {
                None => done(s, ApplyOutcome::Failed(ApplyFailure::ContextNotFound)),
                Some(r) => {
                    let uninitialized = should_buffer_delta(false, &r);
                    (
                        ApplyFlow {
                            phase: ApplyPhase::AwaitReadOnly,
                            root_uninitialized: uninitialized,
                            ..s
                        },
                        ApplyAction::CheckReadOnly,
                    )
                },
            }
        },
        (ApplyPhase::AwaitReadOnly, ApplyEvent::ReadOnly(r)) => {
            let read_only = match r {
                Ok(b) => b,
                Err(()) => false,
            };
            if read_only {
                done(s, ApplyOutcome::Rejected(DeltaRejection::ReadOnlyAuthor))
            } else {
                (
                    ApplyFlow { phase: ApplyPhase::AwaitSession, role_cleared: true, ..s },
                    ApplyAction::CheckSyncSession,
                )
            }
        },
        (ApplyPhase::AwaitSession, ApplyEvent::SessionActive(active)) => {
            if active || s.root_uninitialized {
                (ApplyFlow { phase: ApplyPhase::AwaitPush, ..s }, ApplyAction::PushToSyncBuffer)
            } else {
                lookup_group(s)
            }
        },
        (ApplyPhase::AwaitPush, ApplyEvent::Pushed { pushed, session_active }) => {
            match after_buffer_push(pushed, s.root_uninitialized, session_active) {
                BufferNext::Buffered => done(s, ApplyOutcome::Buffered),
                BufferNext::StartSessionAndRetry => (
                    ApplyFlow { phase: ApplyPhase::AwaitRetryPush, ..s },
                    ApplyAction::StartSessionAndPush,
                ),
                BufferNext::Proceed => lookup_group(s),
            }
        },
        (ApplyPhase::AwaitRetryPush, ApplyEvent::Pushed { pushed, .. }) => {
            if matches!(after_buffer_push(pushed, false, true), BufferNext::Buffered) {
                done(s, ApplyOutcome::Buffered)
            } else {
                lookup_group(s)
            }
        },
        (ApplyPhase::AwaitGroup, ApplyEvent::Group { group, now_ms }) => {
            match group {
                Some(g) => (
                    ApplyFlow {
                        phase: ApplyPhase::AwaitGroupKey,
                        group: g,
                        deadline_ms: deadline_after(now_ms),
                        ..s
                    },
                    ApplyAction::LookupGroupKey { group: g },
                ),
                None => (
                    ApplyFlow { phase: ApplyPhase::AwaitSenderKey, ..s },
                    ApplyAction::LookupSenderKey,
                ),
            }
        },
        (ApplyPhase::AwaitGroupKey, ApplyEvent::GroupKey { key, now_ms }) => {
            match key {
                Some(k) => decrypt_with(s, k),
                None => {
                    if keep_polling_for_key(KEY_LOOKUP_WAIT_MS, now_ms, s.deadline_ms) {
                        (
                            ApplyFlow { phase: ApplyPhase::AwaitSleep, ..s },
                            ApplyAction::Sleep { ms: KEY_LOOKUP_POLL_MS },
                        )
                    } else {
                        done(s, ApplyOutcome::Failed(ApplyFailure::Key(DeltaKeyError::NoGroupKey)))
                    }
                },
            }
        },
        (ApplyPhase::AwaitSleep, ApplyEvent::Completed) => (
            ApplyFlow { phase: ApplyPhase::AwaitGroupKey, ..s },
            ApplyAction::LookupGroupKey { group: s.group },
        ),
        (ApplyPhase::AwaitSenderKey, ApplyEvent::SenderKey(identity)) => {
            match select_delta_key(false, None, identity) {
                Ok(k) => decrypt_with(s, k),
                Err(e) => done(s, ApplyOutcome::Failed(ApplyFailure::Key(e))),
            }
        },
        (ApplyPhase::AwaitDecrypt, ApplyEvent::Decrypted(ok)) => {
            if ok {
                (ApplyFlow { phase: ApplyPhase::AwaitOwnership, ..s }, ApplyAction::CheckAuthorOwned)
            } else {
                done(s, ApplyOutcome::Failed(ApplyFailure::Decrypt))
            }
        },
        (ApplyPhase::AwaitOwnership, ApplyEvent::AuthorOwned(owned)) => {
            if owned {
                (
                    ApplyFlow { phase: ApplyPhase::AwaitSelfEmit, ..s },
                    ApplyAction::EmitEventsIfParsed,
                )
            } else {
                (
                    ApplyFlow { phase: ApplyPhase::AwaitApplication, foreign: true, ..s },
                    ApplyAction::EnsureApplication,
                )
            }
        },
        (ApplyPhase::AwaitSelfEmit, ApplyEvent::Completed) => done(s, ApplyOutcome::SelfAuthored),
        (ApplyPhase::AwaitApplication, ApplyEvent::ApplicationAvailable(ok)) => {
            if ok {
                (ApplyFlow { phase: ApplyPhase::AwaitDag, ..s }, ApplyAction::AddToDag)
            } else {
                done(s, ApplyOutcome::Failed(ApplyFailure::ApplicationUnavailable))
            }
        },
        (
            ApplyPhase::AwaitDag,
            ApplyEvent::Added { applied, handlers_already_executed, events_parsed },
        ) => {
            let parsed = events_parsed && s.events_present;
            let plan = post_apply_plan(
                applied,
                handlers_already_executed,
                s.events_present,
                parsed,
                false,
            );
            if plan.run_handlers {
                (ApplyFlow { phase: ApplyPhase::AwaitHandlers, plan, ..s }, ApplyAction::RunHandlers)
            } else {
                done(ApplyFlow { plan, ..s }, ApplyOutcome::Applied { plan, handlers_succeeded: false })
            }
        },
        (ApplyPhase::AwaitHandlers, ApplyEvent::HandlersRan(ok)) => done(
            s,
            ApplyOutcome::Applied { plan: s.plan, handlers_succeeded: ok },
        ),
        _ => done(s, ApplyOutcome::Failed(ApplyFailure::Unexpected)),
    }
}

} // verus!
