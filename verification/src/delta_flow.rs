//! The decisions along the four state-delta paths: the gossip receive, the
//! apply step every path funnels into, the snapshot-sync replay of buffered
//! deltas, and the fetch of missing parents from a peer.
//!
//! Every lookup (store, signature check, schema fence, membership walk) is
//! made by the caller; these functions take its answer and say what happens
//! next. A failed read-only or deny-list lookup counts as "not read-only" /
//! "not denied": the authoritative membership check still runs.
use vstd::prelude::*;

use crate::bytes::{bytes32_eq, contains32, views32};
use crate::delta_auth::{FenceAction, GroupIdCheck, MembershipStatus};
use crate::readiness::{is_zero_32, is_zero_head};
use crate::text::{decimal, decimal_string};
use vstd::string::StringExecFns;

verus! {

/// Why a state delta was refused.
#[derive(Debug, PartialEq, Eq, Clone, Copy)]
pub enum DeltaRejection {
    /// The envelope signature does not verify under the claimed author.
    BadEnvelopeSignature,
    /// The author's current role in the context is read-only.
    ReadOnlyAuthor,
    /// The author is on the group's deny list.
    DenyListed,
    /// A group context, but the delta cites no governance position.
    GroupContextNoPosition,
    /// A governance position on a context that is in no group.
    NonGroupContextWithPosition,
    /// The position cites another group than the context's own.
    GroupMismatch,
    /// The context→group lookup failed.
    GroupLookupFailed,
    /// The author was removed at the cited cut.
    RemovedAtCut,
    /// The author was never a member at the cited cut.
    NotMemberAtCut,
    /// The cited cut is not known locally.
    CutUnknown,
    /// The membership walk failed.
    MembershipLookupFailed,
    /// The delta is this node's own.
    SelfAuthored,
    /// The schema fence refuses it (stale schema after a cascade migration).
    Fenced,
    /// The peer's governance position bytes do not decode.
    UndecodablePosition,
    /// The peer answered with another delta than the one requested.
    IdMismatch,
}

/// The refusal a group-id comparison calls for, if any.
pub open spec fn group_check_rejection(g: GroupIdCheck) -> Option<DeltaRejection> {
    match g {
        GroupIdCheck::NonGroupOk => None,
        GroupIdCheck::Match => None,
        GroupIdCheck::GroupContextNoPosition { .. } => Some(DeltaRejection::GroupContextNoPosition),
        GroupIdCheck::NonGroupContextWithPosition { .. } => Some(
            DeltaRejection::NonGroupContextWithPosition,
        ),
        GroupIdCheck::Mismatch { .. } => Some(DeltaRejection::GroupMismatch),
        GroupIdCheck::LookupError => Some(DeltaRejection::GroupLookupFailed),
    }
}

/// The refusal a membership answer at the cited cut calls for, if any; an
/// unknown cut is a refusal here (the gossip path buffers it instead).
pub open spec fn membership_rejection<R>(m: Result<MembershipStatus<R>, ()>) -> Option<
    DeltaRejection,
> {
    match m {
        Ok(MembershipStatus::Member(_)) => None,
        Ok(MembershipStatus::Removed) => Some(DeltaRejection::RemovedAtCut),
        Ok(MembershipStatus::NeverMember) => Some(DeltaRejection::NotMemberAtCut),
        Ok(MembershipStatus::Unknown { .. }) => Some(DeltaRejection::CutUnknown),
        Err(()) => Some(DeltaRejection::MembershipLookupFailed),
    }
}

/// A lookup answer that says "yes"; a failed lookup says no.
pub open spec fn says_yes(r: Result<bool, ()>) -> bool {
    r == Ok::<bool, ()>(true)
}

pub(crate) fn group_check_refusal(g: &GroupIdCheck) -> (res: Option<DeltaRejection>)
    ensures
        res == group_check_rejection(*g),
{
    match g {
        GroupIdCheck::NonGroupOk => None,
        GroupIdCheck::Match => None,
        GroupIdCheck::GroupContextNoPosition { .. } => Some(DeltaRejection::GroupContextNoPosition),
        GroupIdCheck::NonGroupContextWithPosition { .. } => Some(
            DeltaRejection::NonGroupContextWithPosition,
        ),
        GroupIdCheck::Mismatch { .. } => Some(DeltaRejection::GroupMismatch),
        GroupIdCheck::LookupError => Some(DeltaRejection::GroupLookupFailed),
    }
}

pub(crate) fn membership_refusal<R>(m: &Result<MembershipStatus<R>, ()>) -> (res: Option<DeltaRejection>)
    ensures
        res == membership_rejection(*m),
{
    match m {
        Ok(MembershipStatus::Member(_)) => None,
        Ok(MembershipStatus::Removed) => Some(DeltaRejection::RemovedAtCut),
        Ok(MembershipStatus::NeverMember) => Some(DeltaRejection::NotMemberAtCut),
        Ok(MembershipStatus::Unknown { .. }) => Some(DeltaRejection::CutUnknown),
        Err(()) => Some(DeltaRejection::MembershipLookupFailed),
    }
}

pub(crate) fn yes(r: &Result<bool, ()>) -> (res: bool)
    ensures
        res == says_yes(*r),
{
    match r {
        Ok(b) => *b,
        Err(()) => false,
    }
}

// ---------------------------------------------------------------------------
// Gossip receive
// ---------------------------------------------------------------------------

/// What the gossip receive does with a state delta.
#[derive(Debug, PartialEq, Eq, Clone, Copy)]
pub enum GossipAdmission {
    /// Hand it to the apply step; when the author was authorized at a cited
    /// cut, remember which peer speaks for that identity.
    Apply { observe_identity: bool },
    /// Governance is behind the cited cut: park it until catch-up.
    BufferPending,
    /// Drop it.
    Reject(DeltaRejection),
}

/// The gossip receive's checks, in order: the author's read-only role, the
/// deny list, the group-id comparison, then (when the delta cites a
/// position) the membership at that cut, an unknown cut parking the delta.
pub open spec fn gossip_verdict<R>(
    read_only: Result<bool, ()>,
    denied: Result<bool, ()>,
    group_check: GroupIdCheck,
    membership: Option<Result<MembershipStatus<R>, ()>>,
) -> GossipAdmission {
    if says_yes(read_only) {
        GossipAdmission::Reject(DeltaRejection::ReadOnlyAuthor)
    } else if says_yes(denied) {
        GossipAdmission::Reject(DeltaRejection::DenyListed)
    } else if group_check_rejection(group_check) is Some {
        GossipAdmission::Reject(group_check_rejection(group_check)->0)
    } else {
        match membership {
            None => GossipAdmission::Apply { observe_identity: false },
            Some(Ok(MembershipStatus::Member(_))) => GossipAdmission::Apply { observe_identity: true },
            Some(Ok(MembershipStatus::Unknown { .. })) => GossipAdmission::BufferPending,
            Some(m) => GossipAdmission::Reject(membership_rejection(m)->0),
        }
    }
}

/// The gossip receive's admission (see [`gossip_verdict`]).
pub fn admit_gossip_delta<R>(
    read_only: Result<bool, ()>,
    denied: Result<bool, ()>,
    group_check: GroupIdCheck,
    membership: Option<Result<MembershipStatus<R>, ()>>,
) -> (res: GossipAdmission)
    ensures
        res == gossip_verdict(read_only, denied, group_check, membership),
{
    if yes(&read_only) {
        return GossipAdmission::Reject(DeltaRejection::ReadOnlyAuthor);
    }
    if yes(&denied) {
        return GossipAdmission::Reject(DeltaRejection::DenyListed);
    }
    if let Some(r) = group_check_refusal(&group_check) {
        return GossipAdmission::Reject(r);
    }
    match membership {
        None => GossipAdmission::Apply { observe_identity: false },
        Some(Ok(MembershipStatus::Member(_))) => GossipAdmission::Apply { observe_identity: true },
        Some(Ok(MembershipStatus::Unknown { .. })) => GossipAdmission::BufferPending,
        Some(m) => match membership_refusal(&m) {
            Some(r) => GossipAdmission::Reject(r),
            None => GossipAdmission::Apply { observe_identity: true },
        },
    }
}

// ---------------------------------------------------------------------------
// The apply step
// ---------------------------------------------------------------------------

/// The first gates of the apply step.
#[derive(Debug, PartialEq, Eq, Clone, Copy)]
pub enum ApplyGate {
    /// Go on to buffering / decryption.
    Proceed,
    /// The schema fence took it (absorbed for a later replay, or dropped).
    Fenced(FenceAction),
    /// Drop it.
    Reject(DeltaRejection),
}

/// The apply step's gates, in order: the envelope signature when the delta
/// carries one (`signature_ok` is `None` for a legacy unsigned delta), the
/// schema fence when the delta names its producing schema (`fence` is `None`
/// otherwise), and the author's read-only role.
pub fn pre_apply_gate(
    signature_ok: Option<bool>,
    fence: Option<FenceAction>,
    read_only: Result<bool, ()>,
) -> (res: ApplyGate)
    ensures
        signature_ok == Some(false) ==> res == ApplyGate::Reject(
            DeltaRejection::BadEnvelopeSignature,
        ),
        signature_ok != Some(false) ==> match fence {
            Some(FenceAction::Absorb) => res == ApplyGate::Fenced(FenceAction::Absorb),
            Some(FenceAction::Drop) => res == ApplyGate::Fenced(FenceAction::Drop),
            _ => if says_yes(read_only) {
                res == ApplyGate::Reject(DeltaRejection::ReadOnlyAuthor)
            } else {
                res == ApplyGate::Proceed
            },
        },
{
    if signature_ok == Some(false) {
        return ApplyGate::Reject(DeltaRejection::BadEnvelopeSignature);
    }
    match fence {
        Some(FenceAction::Absorb) => {
            return ApplyGate::Fenced(FenceAction::Absorb);
        },
        Some(FenceAction::Drop) => {
            return ApplyGate::Fenced(FenceAction::Drop);
        },
        _ => {},
    }
    if yes(&read_only) {
        ApplyGate::Reject(DeltaRejection::ReadOnlyAuthor)
    } else {
        ApplyGate::Proceed
    }
}

/// A delta is buffered while a sync session is active for its context, or
/// while the context is uninitialized (its root hash is all zero: no sender
/// key to decrypt with yet).
pub fn should_buffer_delta(sync_session_active: bool, root_hash: &[u8; 32]) -> (res: bool)
    ensures
        res == (sync_session_active || is_zero_head(root_hash@)),
{
    sync_session_active || is_zero_32(root_hash)
}

/// What follows an attempt to buffer a delta.
#[derive(Debug, PartialEq, Eq, Clone, Copy)]
pub enum BufferNext {
    /// The buffer took it (or already held it): stop here.
    Buffered,
    /// Start a buffer session for the uninitialized context and try again.
    StartSessionAndRetry,
    /// Apply it now (it may fail).
    Proceed,
}

/// After pushing into the sync buffer: `pushed` is `None` when no session
/// was active, `Some(true)` when the buffer took it or held it already, and
/// `Some(false)` when it dropped it. An uninitialized context with no active
/// session gets one started and a second push.
pub fn after_buffer_push(pushed: Option<bool>, uninitialized: bool, session_active: bool) -> (res:
    BufferNext)
    ensures
        pushed == Some(true) ==> res == BufferNext::Buffered,
        pushed != Some(true) && uninitialized && !session_active ==> res
            == BufferNext::StartSessionAndRetry,
        pushed != Some(true) && !(uninitialized && !session_active) ==> res == BufferNext::Proceed,
{
    if pushed == Some(true) {
        BufferNext::Buffered
    } else if uninitialized && !session_active {
        BufferNext::StartSessionAndRetry
    } else {
        BufferNext::Proceed
    }
}

/// Why no decryption key was found for a delta.
#[derive(Debug, PartialEq, Eq, Clone, Copy)]
pub enum DeltaKeyError {
    /// The group holds no key with the delta's key id.
    NoGroupKey,
    /// A non-group context holds no identity for the author.
    NoIdentity,
    /// The author's identity carries no sender key.
    NoSenderKey,
}

/// The key a delta decrypts with: in a group context, the group key with the
/// delta's key id (`group_key`, as looked up); otherwise the author's sender
/// key (`author_identity` is `None` when no identity is known, `Some(None)`
/// when it has no sender key).
pub fn select_delta_key(
    in_group: bool,
    group_key: Option<[u8; 32]>,
    author_identity: Option<Option<[u8; 32]>>,
) -> (res: Result<[u8; 32], DeltaKeyError>)
    ensures
        in_group ==> match group_key {
            Some(k) => res == Ok::<[u8; 32], DeltaKeyError>(k),
            None => res == Err::<[u8; 32], _>(DeltaKeyError::NoGroupKey),
        },
        !in_group ==> match author_identity {
            None => res == Err::<[u8; 32], _>(DeltaKeyError::NoIdentity),
            Some(None) => res == Err::<[u8; 32], _>(DeltaKeyError::NoSenderKey),
            Some(Some(k)) => res == Ok::<[u8; 32], DeltaKeyError>(k),
        },
{
    if in_group {
        match group_key {
            Some(k) => Ok(k),
            None => Err(DeltaKeyError::NoGroupKey),
        }
    } else {
        match author_identity {
            None => Err(DeltaKeyError::NoIdentity),
            Some(None) => Err(DeltaKeyError::NoSenderKey),
            Some(Some(k)) => Ok(k),
        }
    }
}

/// What the apply step does once the delta went into the DAG (or did not).
#[derive(Debug, PartialEq, Eq, Clone, Copy)]
pub struct PostApplyPlan {
    /// Clear an events blob that will never parse, so restarts stop
    /// resurfacing it.
    pub clear_unparseable_events: bool,
    /// Run the event handlers, and clear the blob if all of them succeed.
    pub run_handlers: bool,
    /// Clear the blob without running handlers: this node authored it and
    /// ran them at authoring time.
    pub clear_authored_events: bool,
    /// Tell subscribers about the state mutation.
    pub emit_event: bool,
    /// Broadcast our root hash right away (when it is non-zero) so lagging
    /// peers see the divergence.
    pub broadcast_root: bool,
}

/// The post-apply plan from whether the delta applied (directly or by a
/// cascade), whether a cascade already ran its handlers, whether it carries
/// an events blob and whether that blob parsed, and whether we authored it.
pub fn post_apply_plan(
    applied: bool,
    handlers_already_executed: bool,
    events_present: bool,
    events_parsed: bool,
    is_author: bool,
) -> (p: PostApplyPlan)
    requires
        events_parsed ==> events_present,
    ensures
        p.clear_unparseable_events == (applied && events_present && !events_parsed),
        p.run_handlers == (applied && !handlers_already_executed && events_parsed && !is_author),
        p.clear_authored_events == (applied && !handlers_already_executed && events_parsed
            && is_author),
        p.emit_event == events_parsed,
        p.broadcast_root == applied,
{
    let fresh_handlers = applied && !handlers_already_executed && events_parsed;
    PostApplyPlan {
        clear_unparseable_events: applied && events_present && !events_parsed,
        run_handlers: fresh_handlers && !is_author,
        clear_authored_events: fresh_handlers && is_author,
        emit_event: events_parsed,
        broadcast_root: applied,
    }
}

/// The next step towards the author's sender key on the key-share path.
#[derive(Debug, PartialEq, Eq, Clone, Copy)]
pub enum SenderKeyStep {
    /// The author's sender key is known: use it.
    Use([u8; 32]),
    /// No identity is known for the author.
    NoIdentity,
    /// The context is uninitialized: defer (no key share yet).
    Defer,
    /// Ask the peer that sent the delta for a key share, then look again.
    RequestKeyShare,
}

/// From the author's identity record (`None`: none; `Some(None)`: no
/// sender key) and the context's root hash.
pub fn sender_key_step(author_identity: Option<Option<[u8; 32]>>, root_hash: &[u8; 32]) -> (res:
    SenderKeyStep)
    ensures
        res == match author_identity {
            None => SenderKeyStep::NoIdentity,
            Some(Some(k)) => SenderKeyStep::Use(k),
            Some(None) => if is_zero_head(root_hash@) {
                SenderKeyStep::Defer
            } else {
                SenderKeyStep::RequestKeyShare
            },
        },
{
    match author_identity {
        None => SenderKeyStep::NoIdentity,
        Some(Some(k)) => SenderKeyStep::Use(k),
        Some(None) => {
            if is_zero_32(root_hash) {
                SenderKeyStep::Defer
            } else {
                SenderKeyStep::RequestKeyShare
            }
        },
    }
}

/// First wait, in milliseconds, while polling for an application's bytecode.
pub const APP_POLL_FIRST_DELAY_MS: u64 = 50;

/// Longest wait between two polls for an application's bytecode.
pub const APP_POLL_MAX_DELAY_MS: u64 = 500;

/// The wait after `delay_ms`: doubled, capped at [`APP_POLL_MAX_DELAY_MS`].
pub fn next_poll_delay_ms(delay_ms: u64) -> (res: u64)
    ensures
        res == (if 2 * delay_ms < APP_POLL_MAX_DELAY_MS {
            2 * delay_ms
        } else {
            APP_POLL_MAX_DELAY_MS as int
        }),
{
    if delay_ms < APP_POLL_MAX_DELAY_MS / 2 {
        delay_ms * 2
    } else {
        APP_POLL_MAX_DELAY_MS
    }
}

/// A decrypted delta payload above the size cap (checked before decoding).
#[derive(Debug, PartialEq, Eq, Clone, Copy)]
pub struct DeltaPayloadTooLarge {
    pub len: usize,
    pub max: usize,
}

/// The message of an oversized payload.
pub open spec fn payload_too_large_text(e: DeltaPayloadTooLarge) -> Seq<char> {
    "decrypted state-delta payload too large: "@ + decimal(e.len as nat) + " bytes (max "@
        + decimal(e.max as nat) + ")"@
}

/// The message of an oversized payload, from its two sizes.
fn payload_too_large_message(len: usize, max: usize) -> (res: String)
    ensures
        res@ == payload_too_large_text(DeltaPayloadTooLarge { len, max }),
{
    let mut s = String::from_str("decrypted state-delta payload too large: ");
    s.append(decimal_string(len).as_str());
    s.append(" bytes (max ");
    s.append(decimal_string(max).as_str());
    s.append(")");
    s
}

impl DeltaPayloadTooLarge {
    /// The error's message.
    pub fn to_string(&self) -> (res: String)
        ensures
            res@ == payload_too_large_text(*self),
    {
        payload_too_large_message(self.len, self.max)
    }
}

/// A decrypted payload is decoded only when it is at most `max` bytes: one
/// check on the outer plaintext bounds everything decoded from it.
pub fn check_decrypted_len(len: usize, max: usize) -> (res: Result<(), DeltaPayloadTooLarge>)
    ensures
        len <= max ==> res is Ok,
        len > max ==> res == Err::<(), _>(DeltaPayloadTooLarge { len, max }),
{
    if len > max {
        Err(DeltaPayloadTooLarge { len, max })
    } else {
        Ok(())
    }
}

/// How long the live apply path waits for a group key it does not hold yet.
pub const KEY_LOOKUP_WAIT_MS: u64 = 3_000;

/// The interval between two group-key lookups while waiting.
pub const KEY_LOOKUP_POLL_MS: u64 = 100;

/// After a lookup that found no key (neither in the group's keyring nor, for
/// a subgroup, in its namespace's): look again after one poll interval
/// unless the lookup is single-shot (`max_wait_ms == 0`) or that interval
/// would end past the deadline.
pub fn keep_polling_for_key(max_wait_ms: u64, now_ms: u64, deadline_ms: u64) -> (res: bool)
    ensures
        res == (max_wait_ms != 0 && now_ms + KEY_LOOKUP_POLL_MS <= deadline_ms),
{
    max_wait_ms != 0 && deadline_ms >= KEY_LOOKUP_POLL_MS && now_ms <= deadline_ms - KEY_LOOKUP_POLL_MS
}

/// What running a cascade's handlers says about the delta being applied.
#[derive(Debug, PartialEq, Eq, Clone, Copy)]
pub struct CascadeOutcome {
    /// The cascade applied the current delta.
    pub applied_current: bool,
    /// The cascade ran the current delta's handlers.
    pub handlers_executed_for_current: bool,
}

/// The outcome of a cascade over the deltas `cascaded` (in order; `parsed[i]`
/// tells whether the events of `cascaded[i]` parse), for the delta `current`
/// being applied, if any. Handlers run only when the application is
/// available, and only for entries whose events parse.
pub fn cascade_outcome(
    cascaded: &Vec<[u8; 32]>,
    parsed: &Vec<bool>,
    current: Option<[u8; 32]>,
    app_available: bool,
) -> (res: CascadeOutcome)
    requires
        parsed@.len() == cascaded@.len(),
    ensures
        current is None ==> !res.applied_current && !res.handlers_executed_for_current,
        current matches Some(c) ==> res.applied_current == views32(cascaded@).contains(c@),
        current matches Some(c) ==> res.handlers_executed_for_current == (app_available
            && exists|i: int| 0 <= i < cascaded@.len() && cascaded@[i]@ == c@ && parsed@[i]),
{
    let c = match current {
        None => {
            return CascadeOutcome { applied_current: false, handlers_executed_for_current: false };
        },
        Some(c) => c,
    };
    let applied_current = contains32(cascaded, &c);
    let mut ran = false;
    if app_available {
        let mut i: usize = 0;
        while i < cascaded.len()
            invariant
                parsed@.len() == cascaded@.len(),
                i <= cascaded@.len(),
                ran == exists|j: int| 0 <= j < i && cascaded@[j]@ == c@ && parsed@[j],
            decreases cascaded@.len() - i,
        {
            if parsed[i] && bytes32_eq(&cascaded[i], &c) {
                ran = true;
            }
            i = i + 1;
        }
    }
    CascadeOutcome { applied_current, handlers_executed_for_current: ran }
}

/// Whether a cascade clears the events blob of one cascaded delta: only when
/// the application is available, and then when the blob does not parse (it
/// never will) or when every one of its handlers succeeded. A partial failure
/// keeps the blob for the replay at the next start.
pub fn cascade_clears_events(app_available: bool, parsed: bool, handlers_all_succeeded: bool) -> (res:
    bool)
    ensures
        res == (app_available && (!parsed || handlers_all_succeeded)),
{
    app_available && (!parsed || handlers_all_succeeded)
}

/// How one event's handler went.
#[derive(Debug, PartialEq, Eq, Clone, Copy)]
pub enum HandlerResult {
    /// The event names no handler.
    NoHandler,
    /// An ordinary handler ran; whether it succeeded.
    Executed(bool),
    /// A TEE trigger, but this node's rank among the authorities could not
    /// be worked out.
    TeeRankUnavailable,
    /// A TEE trigger this node is no authority for.
    TeeNotOurs,
    /// A TEE trigger some authority fired already.
    TeeAlreadyFired,
    /// A TEE trigger fired now; whether the firing went through.
    TeeFiredNow(bool),
    /// A TEE trigger scheduled for this node's later turn.
    TeeScheduled,
    /// Planning the TEE firing failed.
    TeePlanFailed,
}

/// Whether one handler result lets the events blob be cleared: a failure, a
/// firing still waiting for its turn, or an unknown rank keep it for the
/// replay at the next start.
pub open spec fn handler_succeeded(r: HandlerResult) -> bool {
    match r {
        HandlerResult::NoHandler => true,
        HandlerResult::Executed(ok) => ok,
        HandlerResult::TeeRankUnavailable => false,
        HandlerResult::TeeNotOurs => true,
        HandlerResult::TeeAlreadyFired => true,
        HandlerResult::TeeFiredNow(ok) => ok,
        HandlerResult::TeeScheduled => false,
        HandlerResult::TeePlanFailed => false,
    }
}

/// Whether every handler of a delta's events succeeded (see
/// [`handler_succeeded`]); an event list with no handlers succeeds.
pub fn handlers_all_succeeded(results: &Vec<HandlerResult>) -> (res: bool)
    ensures
        res == forall|i: int| 0 <= i < results@.len() ==> handler_succeeded(#[trigger] results@[i]),
{
    let mut all = true;
    let mut i: usize = 0;
    while i < results.len()
        invariant
            i <= results@.len(),
            all == forall|j: int| 0 <= j < i ==> handler_succeeded(#[trigger] results@[j]),
        decreases results@.len() - i,
    {
        let ok = match results[i] {
            HandlerResult::NoHandler => true,
            HandlerResult::Executed(ok) => ok,
            HandlerResult::TeeRankUnavailable => false,
            HandlerResult::TeeNotOurs => true,
            HandlerResult::TeeAlreadyFired => true,
            HandlerResult::TeeFiredNow(ok) => ok,
            HandlerResult::TeeScheduled => false,
            HandlerResult::TeePlanFailed => false,
        };
        assert(ok == handler_succeeded(results@[i as int]));
        all = all && ok;
        i = i + 1;
    }
    all
}

// ---------------------------------------------------------------------------
// Snapshot-sync replay
// ---------------------------------------------------------------------------

/// The replay of a buffered delta refuses, in order: our own delta, a bad
/// envelope signature, a read-only author, a failed group-id comparison, any
/// membership answer but "member" (an unknown cut after a snapshot sync is a
/// refusal, not a re-buffer), and a fenced schema.
pub open spec fn replay_verdict<R>(
    self_authored: bool,
    signature_ok: Option<bool>,
    read_only: Result<bool, ()>,
    group_check: GroupIdCheck,
    membership: Option<Result<MembershipStatus<R>, ()>>,
    fenced: bool,
) -> Result<(), DeltaRejection> {
    if self_authored {
        Err(DeltaRejection::SelfAuthored)
    } else if signature_ok == Some(false) {
        Err(DeltaRejection::BadEnvelopeSignature)
    } else if says_yes(read_only) {
        Err(DeltaRejection::ReadOnlyAuthor)
    } else if group_check_rejection(group_check) is Some {
        Err(group_check_rejection(group_check)->0)
    } else if membership is Some && membership_rejection(membership->0) is Some {
        Err(membership_rejection(membership->0)->0)
    } else if fenced {
        Err(DeltaRejection::Fenced)
    } else {
        Ok(())
    }
}

/// The replay's admission (see [`replay_verdict`]).
pub fn replay_admission<R>(
    self_authored: bool,
    signature_ok: Option<bool>,
    read_only: Result<bool, ()>,
    group_check: GroupIdCheck,
    membership: Option<Result<MembershipStatus<R>, ()>>,
    fenced: bool,
) -> (res: Result<(), DeltaRejection>)
    ensures
        res == replay_verdict(self_authored, signature_ok, read_only, group_check, membership, fenced),
{
    if self_authored {
        return Err(DeltaRejection::SelfAuthored);
    }
    if signature_ok == Some(false) {
        return Err(DeltaRejection::BadEnvelopeSignature);
    }
    if yes(&read_only) {
        return Err(DeltaRejection::ReadOnlyAuthor);
    }
    if let Some(r) = group_check_refusal(&group_check) {
        return Err(r);
    }
    if let Some(m) = &membership {
        if let Some(r) = membership_refusal(m) {
            return Err(r);
        }
    }
    if fenced {
        return Err(DeltaRejection::Fenced);
    }
    Ok(())
}

/// A replayed delta goes into the DAG unless a checkpoint already covers it
/// without being it: its state came with the snapshot, and its parents never
/// will.
pub fn replay_adds_to_dag(covered_by_checkpoint: bool, checkpoint_match: bool) -> (res: bool)
    ensures
        res == !(covered_by_checkpoint && !checkpoint_match),
{
    !(covered_by_checkpoint && !checkpoint_match)
}

/// What the replay does with a buffered delta's events.
#[derive(Debug, PartialEq, Eq, Clone, Copy)]
pub enum ReplayEvents {
    /// Nothing to do: not applied and not covered, or no parsable events.
    Nothing,
    /// Run the handlers (clearing the blob if all succeed) and emit.
    RunHandlersAndEmit,
    /// Clear the blob without running handlers (ours), and emit.
    ClearAndEmit,
}

/// Handlers run for a replayed delta that applied, that a checkpoint matches,
/// or that a checkpoint covers, when its events parse.
pub fn replay_events_plan(
    applied: bool,
    checkpoint_match: bool,
    covered_by_checkpoint: bool,
    events_parsed: bool,
    is_author: bool,
) -> (res: ReplayEvents)
    ensures
        !((applied || checkpoint_match || covered_by_checkpoint) && events_parsed) ==> res
            == ReplayEvents::Nothing,
        (applied || checkpoint_match || covered_by_checkpoint) && events_parsed ==> res == (if is_author {
            ReplayEvents::ClearAndEmit
        } else {
            ReplayEvents::RunHandlersAndEmit
        }),
{
    if !((applied || checkpoint_match || covered_by_checkpoint) && events_parsed) {
        ReplayEvents::Nothing
    } else if is_author {
        ReplayEvents::ClearAndEmit
    } else {
        ReplayEvents::RunHandlersAndEmit
    }
}

/// The paths agree on who may write: a delta that the snapshot-sync replay
/// or the parent fetch accepts (past the genesis sentinel) carries an author
/// and position the gossip receive would have applied too, given the same
/// lookups and an author not on the deny list.
pub proof fn lemma_paths_agree_on_authorization<R>(
    read_only: Result<bool, ()>,
    group_check: GroupIdCheck,
    membership: Option<Result<MembershipStatus<R>, ()>>,
    self_authored: bool,
    signature_ok: Option<bool>,
    fenced: bool,
    position_decoded: bool,
    id_matches: bool,
)
    ensures
        replay_verdict(self_authored, signature_ok, read_only, group_check, membership, fenced) is Ok
            ==> gossip_verdict(read_only, Ok::<bool, ()>(false), group_check, membership) is Apply,
        parent_fetch_verdict(
            false,
            position_decoded,
            signature_ok,
            id_matches,
            group_check,
            read_only,
            membership,
        ) is Ok ==> gossip_verdict(read_only, Ok::<bool, ()>(false), group_check, membership) is Apply,
{
}

// ---------------------------------------------------------------------------
// Parent fetch
// ---------------------------------------------------------------------------

/// A parent delta fetched from a peer is kept when it carries the genesis
/// author sentinel; otherwise it must pass, in order: its governance
/// position decodes, its envelope signature verifies (when it has one), it
/// is the delta that was asked for, the group-id comparison, the author's
/// read-only role, and (when it cites a position) membership at that cut.
pub open spec fn parent_fetch_verdict<R>(
    genesis_sentinel: bool,
    position_decoded: bool,
    signature_ok: Option<bool>,
    id_matches: bool,
    group_check: GroupIdCheck,
    read_only: Result<bool, ()>,
    membership: Option<Result<MembershipStatus<R>, ()>>,
) -> Result<(), DeltaRejection> {
    if genesis_sentinel {
        Ok(())
    } else if !position_decoded {
        Err(DeltaRejection::UndecodablePosition)
    } else if signature_ok == Some(false) {
        Err(DeltaRejection::BadEnvelopeSignature)
    } else if !id_matches {
        Err(DeltaRejection::IdMismatch)
    } else if group_check_rejection(group_check) is Some {
        Err(group_check_rejection(group_check)->0)
    } else if says_yes(read_only) {
        Err(DeltaRejection::ReadOnlyAuthor)
    } else if membership is Some && membership_rejection(membership->0) is Some {
        Err(membership_rejection(membership->0)->0)
    } else {
        Ok(())
    }
}

/// Whether a fetched parent is kept (see [`parent_fetch_verdict`]).
pub fn parent_fetch_admission<R>(
    genesis_sentinel: bool,
    position_decoded: bool,
    signature_ok: Option<bool>,
    id_matches: bool,
    group_check: GroupIdCheck,
    read_only: Result<bool, ()>,
    membership: Option<Result<MembershipStatus<R>, ()>>,
) -> (res: Result<(), DeltaRejection>)
    ensures
        res == parent_fetch_verdict(
            genesis_sentinel,
            position_decoded,
            signature_ok,
            id_matches,
            group_check,
            read_only,
            membership,
        ),
{
    if genesis_sentinel {
        return Ok(());
    }
    if !position_decoded {
        return Err(DeltaRejection::UndecodablePosition);
    }
    if signature_ok == Some(false) {
        return Err(DeltaRejection::BadEnvelopeSignature);
    }
    if !id_matches {
        return Err(DeltaRejection::IdMismatch);
    }
    if let Some(r) = group_check_refusal(&group_check) {
        return Err(r);
    }
    if yes(&read_only) {
        return Err(DeltaRejection::ReadOnlyAuthor);
    }
    if let Some(m) = &membership {
        if let Some(r) = membership_refusal(m) {
            return Err(r);
        }
    }
    Ok(())
}

/// The fetch queue after the parents of a kept delta are considered in
/// order: a parent is queued unless it is the all-zero id, is held locally
/// (`held[i]` for `parents[i]`), is queued already, or was fetched already.
pub open spec fn queued_after(
    parents: Seq<Seq<u8>>,
    held: Seq<bool>,
    queue: Seq<Seq<u8>>,
    fetched: Seq<Seq<u8>>,
) -> Seq<Seq<u8>>
    decreases parents.len(),
{
    if parents.len() == 0 {
        queue
    } else {
        let n = parents.len() - 1;
        let q = queued_after(parents.take(n), held, queue, fetched);
        let p = parents[n];
        if !is_zero_head(p) && !held[n] && !q.contains(p) && !fetched.contains(p) {
            q.push(p)
        } else {
            q
        }
    }
}

/// Queue the parents of a kept delta for fetching (see [`queued_after`]).
pub fn queue_missing_parents(
    parents: &Vec<[u8; 32]>,
    held: &Vec<bool>,
    to_fetch: &mut Vec<[u8; 32]>,
    fetched: &Vec<[u8; 32]>,
)
    requires
        held@.len() == parents@.len(),
    ensures
        views32(final(to_fetch)@) == queued_after(
            views32(parents@),
            held@,
            views32(old(to_fetch)@),
            views32(fetched@),
        ),
{
    let ghost start = views32(to_fetch@);
    let ghost ps = views32(parents@);
    let mut i: usize = 0;
    while i < parents.len()
        invariant
            held@.len() == parents@.len(),
            ps == views32(parents@),
            i <= parents@.len(),
            views32(to_fetch@) == queued_after(ps.take(i as int), held@, start, views32(fetched@)),
        decreases parents@.len() - i,
    {
        let p = parents[i];
        proof {
            assert(ps.take(i + 1).take(i as int) =~= ps.take(i as int));
            assert(ps.take(i + 1)[i as int] == p@);
        }
        let skip = is_zero_32(&p) || held[i] || contains32(to_fetch, &p) || contains32(fetched, &p);
        if !skip {
            let ghost before = to_fetch@;
            to_fetch.push(p);
            proof {
                assert(views32(to_fetch@) =~= views32(before).push(p@));
            }
        }
        i = i + 1;
    }
    proof {
        assert(ps.take(parents@.len() as int) =~= ps);
    }
}

/// No element of `s` occurs twice.
pub open spec fn no_repeats(s: Seq<Seq<u8>>) -> bool {
    forall|i: int, j: int| 0 <= i < j < s.len() ==> s[i] != s[j]
}

/// The fetch queue never asks twice: a queue without repeats keeps none,
/// what it held stays at its front, and every id added is non-zero, not held
/// locally and not fetched already.
pub proof fn lemma_queue_never_asks_twice(
    parents: Seq<Seq<u8>>,
    held: Seq<bool>,
    queue: Seq<Seq<u8>>,
    fetched: Seq<Seq<u8>>,
)
    requires
        held.len() == parents.len(),
        no_repeats(queue),
    ensures
        no_repeats(queued_after(parents, held, queue, fetched)),
        queued_after(parents, held, queue, fetched).len() >= queue.len(),
        queued_after(parents, held, queue, fetched).take(queue.len() as int) == queue,
        forall|i: int|
            queue.len() <= i < queued_after(parents, held, queue, fetched).len() ==> {
                let p = #[trigger] queued_after(parents, held, queue, fetched)[i];
                &&& !is_zero_head(p)
                &&& !fetched.contains(p)
                &&& exists|k: int| 0 <= k < parents.len() && parents[k] == p && !held[k]
            },
    decreases parents.len(),
{
    if parents.len() > 0 {
        let n = parents.len() - 1;
        let pre = parents.take(n);
        let held_pre = held.take(n);
        lemma_queued_after_held_prefix(pre, held, n);
        lemma_queue_never_asks_twice(pre, held_pre, queue, fetched);
        let q = queued_after(pre, held, queue, fetched);
        let r = queued_after(parents, held, queue, fetched);
        let p = parents[n];
        assert forall|i: int| queue.len() <= i < q.len() implies {
            let x = #[trigger] q[i];
            exists|k: int| 0 <= k < parents.len() && parents[k] == x && !held[k]
        } by {
            let x = q[i];
            let k = choose|k: int| 0 <= k < pre.len() && pre[k] == x && !held_pre[k];
            assert(parents[k] == x && !held[k]);
        }
        if !is_zero_head(p) && !held[n] && !q.contains(p) && !fetched.contains(p) {
            assert(r == q.push(p));
            assert forall|i: int, j: int| 0 <= i < j < r.len() implies r[i] != r[j] by {
                if j == q.len() {
                    assert(r[i] == q[i]);
                    if r[i] == r[j] {
                        assert(q.contains(p));
                    }
                }
            }
            assert(r.take(queue.len() as int) =~= q.take(queue.len() as int));
        }
    }
}

/// The queue computed with `held` depends only on its first `n` entries when
/// only the first `n` parents are considered.
proof fn lemma_queued_after_held_prefix(parents: Seq<Seq<u8>>, held: Seq<bool>, n: int)
    requires
        parents.len() == n,
        n <= held.len(),
    ensures
        forall|queue: Seq<Seq<u8>>, fetched: Seq<Seq<u8>>|
            #[trigger] queued_after(parents, held, queue, fetched) == queued_after(
                parents,
                held.take(n),
                queue,
                fetched,
            ),
    decreases parents.len(),
{
    if n > 0 {
        lemma_queued_after_held_prefix(parents.take(n - 1), held, n - 1);
        lemma_queued_after_held_prefix(parents.take(n - 1), held.take(n), n - 1);
        assert(held.take(n).take(n - 1) =~= held.take(n - 1));
        assert forall|queue: Seq<Seq<u8>>, fetched: Seq<Seq<u8>>|
            #[trigger] queued_after(parents, held, queue, fetched) == queued_after(
                parents,
                held.take(n),
                queue,
                fetched,
            ) by {
            assert(queued_after(parents.take(n - 1), held, queue, fetched) == queued_after(
                parents.take(n - 1),
                held.take(n),
                queue,
                fetched,
            ));
        }
    }
}

} // verus!
