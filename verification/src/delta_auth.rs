//! Apply-time authorization of state deltas against their governance parent
//! edge, the re-evaluation of deltas buffered while governance caught up, the
//! schema fence, and which absorbed deltas a drain may replay.
//!
//! The group is always the context's own (from the canonical context→group
//! mapping), never one the signer names; store lookups are done by the
//! caller and handed in.
use vstd::prelude::*;

use crate::bytes::bytes32_eq;

verus! {

/// A buffered delta is dropped once its governance drain attempts reach this.
pub const MAX_GOVERNANCE_DRAIN_ATTEMPTS: u32 = 10;

/// Why a delta was rejected on structural or lookup grounds.
#[derive(Debug, PartialEq, Eq, Clone, Copy)]
pub enum AuthRejection {
    /// The context→group lookup failed.
    GroupLookupFailed,
    /// A group context's delta carries no governance edge.
    GroupContextWithoutEdge,
    /// A governance edge on a context that is in no group.
    EdgeOnNonGroupContext,
    /// The membership walk failed.
    MembershipLookupFailed,
}

/// The logged reason of each structural or lookup rejection.
pub open spec fn rejection_reason(r: AuthRejection) -> Seq<char> {
    match r {
        AuthRejection::GroupLookupFailed => "get_group_for_context failed; rejecting to avoid silent bypass"@,
        AuthRejection::GroupContextWithoutEdge => "group context but no governance edge (likely a bypass attempt)"@,
        AuthRejection::EdgeOnNonGroupContext => "governance edge present but context is not part of any group"@,
        AuthRejection::MembershipLookupFailed => "membership lookup failed (hash mismatch / corruption)"@,
    }
}

impl AuthRejection {
    /// The log reason of the rejection.
    pub fn reason(&self) -> (s: &'static str)
        ensures
            s@ == rejection_reason(*self),
    {
        match self {
            AuthRejection::GroupLookupFailed => "get_group_for_context failed; rejecting to avoid silent bypass",
            AuthRejection::GroupContextWithoutEdge => "group context but no governance edge (likely a bypass attempt)",
            AuthRejection::EdgeOnNonGroupContext => "governance edge present but context is not part of any group",
            AuthRejection::MembershipLookupFailed => "membership lookup failed (hash mismatch / corruption)",
        }
    }
}

/// Why membership resolution refused the author.
#[derive(Debug, PartialEq, Eq, Clone, Copy)]
pub enum MembershipRejection {
    /// Removed from the group at the cited cut.
    RemovedAtCut,
    /// Never a member at the cited cut.
    NotMemberAtCut,
    /// Not a member at the cut, as the maintained membership table says.
    NotMemberAtCutProjected,
}

/// Membership of the author at a governance cut, as the live walk reports it.
#[derive(Debug, PartialEq, Eq)]
pub enum MembershipStatus<R> {
    Member(R),
    Removed,
    NeverMember,
    /// Local governance is behind the cut; these heads are missing.
    Unknown { needed: Vec<[u8; 32]> },
}

/// Membership at a cut as the maintained projection reports it.
#[derive(Debug, PartialEq, Eq)]
pub enum CutMembership<R> {
    Member(R),
    NotMember,
    /// The cited ancestry is not fully folded yet.
    Incomplete,
}

/// Outcome of the apply-time governance authorization.
#[derive(Debug, PartialEq, Eq)]
pub enum DeltaAuthOutcome<R> {
    /// A member at the cited cut: proceed to apply.
    Authorized { group: [u8; 32], role: R },
    /// A non-group context carrying no edge: proceed to apply.
    Ungated,
    /// Structural or lookup reject.
    Reject(AuthRejection),
    /// Not a member at the cut.
    MembershipReject { reason: MembershipRejection },
    /// Governance is behind the cut: buffer until these heads arrive.
    Buffer { needed: Vec<[u8; 32]> },
}

/// The structural half of the authorization, before any membership walk.
#[derive(Debug, PartialEq, Eq, Clone, Copy)]
pub enum EdgeGate {
    /// Non-group context, no edge: ungated.
    Ungated,
    /// Rejected before any walk.
    Reject(AuthRejection),
    /// Resolve membership in this (the context's own) group.
    Resolve([u8; 32]),
}

/// The structural check: from the context's owning group (or the failed
/// lookup) and whether the delta carries a governance edge.
pub fn edge_gate(owning: Result<Option<[u8; 32]>, ()>, has_edge: bool) -> (g: EdgeGate)
    ensures
        owning is Err ==> g == EdgeGate::Reject(AuthRejection::GroupLookupFailed),
        owning == Ok::<Option<[u8; 32]>, ()>(None) && !has_edge ==> g == EdgeGate::Ungated,
        owning == Ok::<Option<[u8; 32]>, ()>(None) && has_edge ==> g == EdgeGate::Reject(
            AuthRejection::EdgeOnNonGroupContext,
        ),
        owning is Ok && owning->Ok_0 is Some && !has_edge ==> g == EdgeGate::Reject(
            AuthRejection::GroupContextWithoutEdge,
        ),
        owning is Ok && owning->Ok_0 is Some && has_edge ==> g == EdgeGate::Resolve(
            owning->Ok_0->0,
        ),
{
    match owning {
        Err(()) => EdgeGate::Reject(AuthRejection::GroupLookupFailed),
        Ok(None) => {
            if has_edge {
                EdgeGate::Reject(AuthRejection::EdgeOnNonGroupContext)
            } else {
                EdgeGate::Ungated
            }
        },
        Ok(Some(group)) => {
            if has_edge {
                EdgeGate::Resolve(group)
            } else {
                EdgeGate::Reject(AuthRejection::GroupContextWithoutEdge)
            }
        },
    }
}

/// The membership half, from the live walk at the edge's heads in `group`:
/// a member is authorized with its role, a removed or never member is
/// refused, an unknown cut buffers for the missing heads, a failed walk is
/// rejected.
pub fn authorize_at_cut<R>(group: [u8; 32], status: Result<MembershipStatus<R>, ()>) -> (res:
    DeltaAuthOutcome<R>)
    ensures
        status is Err ==> res == DeltaAuthOutcome::<R>::Reject(
            AuthRejection::MembershipLookupFailed,
        ),
        status is Ok ==> match status->Ok_0 {
            MembershipStatus::Member(role) => res == DeltaAuthOutcome::Authorized { group, role },
            MembershipStatus::Removed => res == DeltaAuthOutcome::<R>::MembershipReject {
                reason: MembershipRejection::RemovedAtCut,
            },
            MembershipStatus::NeverMember => res == DeltaAuthOutcome::<R>::MembershipReject {
                reason: MembershipRejection::NotMemberAtCut,
            },
            MembershipStatus::Unknown { needed } => res matches DeltaAuthOutcome::Buffer {
                needed: n,
            } && n@ == needed@,
        },
{
    match status {
        Err(()) => DeltaAuthOutcome::Reject(AuthRejection::MembershipLookupFailed),
        Ok(MembershipStatus::Member(role)) => DeltaAuthOutcome::Authorized { group, role },
        Ok(MembershipStatus::Removed) => DeltaAuthOutcome::MembershipReject {
            reason: MembershipRejection::RemovedAtCut,
        },
        Ok(MembershipStatus::NeverMember) => DeltaAuthOutcome::MembershipReject {
            reason: MembershipRejection::NotMemberAtCut,
        },
        Ok(MembershipStatus::Unknown { needed }) => DeltaAuthOutcome::Buffer { needed },
    }
}

/// The membership half resolved by the maintained projection: a member is
/// authorized, a non-member refused, an incomplete fold buffers for the
/// edge's own heads.
pub fn authorize_at_cut_projected<R>(
    group: [u8; 32],
    governance_dag_heads: Vec<[u8; 32]>,
    cut: CutMembership<R>,
) -> (res: DeltaAuthOutcome<R>)
    ensures
        match cut {
            CutMembership::Member(role) => res == DeltaAuthOutcome::Authorized { group, role },
            CutMembership::NotMember => res == DeltaAuthOutcome::<R>::MembershipReject {
                reason: MembershipRejection::NotMemberAtCutProjected,
            },
            CutMembership::Incomplete => res matches DeltaAuthOutcome::Buffer { needed } && needed@
                == governance_dag_heads@,
        },
{
    match cut {
        CutMembership::Member(role) => DeltaAuthOutcome::Authorized { group, role },
        CutMembership::NotMember => DeltaAuthOutcome::MembershipReject {
            reason: MembershipRejection::NotMemberAtCutProjected,
        },
        CutMembership::Incomplete => DeltaAuthOutcome::Buffer { needed: governance_dag_heads },
    }
}

/// How a buffered delta's claimed group compares with the context's owning
/// group.
#[derive(Debug, PartialEq, Eq, Clone, Copy)]
pub enum GroupIdCheck {
    /// The claimed group is the owning group.
    Match,
    /// No group and no claim: the legacy non-group path.
    NonGroupOk,
    /// A group context, but the delta claims none.
    GroupContextNoPosition { owning: [u8; 32] },
    /// The claim names another group.
    Mismatch { owning: [u8; 32], claimed: [u8; 32] },
    /// A claim on a context that is in no group.
    NonGroupContextWithPosition { claimed: [u8; 32] },
    /// The context→group lookup failed.
    LookupError,
}

/// Compare the context's owning group (or the failed lookup) with the group
/// the delta's position claims.
pub fn verify_position_group_id_matches_context(
    owning: Result<Option<[u8; 32]>, ()>,
    claimed: Option<[u8; 32]>,
) -> (res: GroupIdCheck)
    ensures
        owning is Err ==> res == GroupIdCheck::LookupError,
        owning is Ok ==> match (owning->Ok_0, claimed) {
            (None, None) => res == GroupIdCheck::NonGroupOk,
            (Some(o), None) => res == GroupIdCheck::GroupContextNoPosition { owning: o },
            (None, Some(c)) => res == GroupIdCheck::NonGroupContextWithPosition { claimed: c },
            (Some(o), Some(c)) => if o@ == c@ {
                res == GroupIdCheck::Match
            } else {
                res == GroupIdCheck::Mismatch { owning: o, claimed: c }
            },
        },
{
    match owning {
        Err(()) => GroupIdCheck::LookupError,
        Ok(None) => match claimed {
            None => GroupIdCheck::NonGroupOk,
            Some(c) => GroupIdCheck::NonGroupContextWithPosition { claimed: c },
        },
        Ok(Some(o)) => match claimed {
            None => GroupIdCheck::GroupContextNoPosition { owning: o },
            Some(c) => {
                if bytes32_eq(&o, &c) {
                    GroupIdCheck::Match
                } else {
                    GroupIdCheck::Mismatch { owning: o, claimed: c }
                }
            },
        },
    }
}

/// Why a governance-pending delta was dropped by a drain pass.
#[derive(Debug, PartialEq, Eq, Clone, Copy)]
pub enum DrainDrop {
    NoGovernancePosition,
    HelperContractViolation,
    GroupMismatch,
    GroupDisappeared,
    GroupLookupFailed,
    Removed,
    NeverMember,
    MaxAttempts,
    LookupError,
}

/// What a drain pass does with one governance-pending delta.
#[derive(Debug, PartialEq, Eq, Clone, Copy)]
pub enum DrainAction {
    /// Authorized now: re-apply it (through the fence).
    Apply,
    /// Still behind: push it back with this attempt count.
    Rebuffer { attempts: u32 },
    /// Dropped.
    Drop(DrainDrop),
}

/// The attempt count after one more unresolved drain (saturating).
pub open spec fn next_attempts(attempts: u32) -> u32 {
    if attempts == u32::MAX {
        attempts
    } else {
        (attempts + 1) as u32
    }
}

/// The drain decision for one buffered delta, as a function of what the
/// lookups found.
pub open spec fn drain_verdict<R>(
    has_position: bool,
    group_check: GroupIdCheck,
    status: Result<MembershipStatus<R>, ()>,
    attempts: u32,
) -> DrainAction {
    if !has_position {
        DrainAction::Drop(DrainDrop::NoGovernancePosition)
    } else {
        match group_check {
            GroupIdCheck::NonGroupOk | GroupIdCheck::GroupContextNoPosition { .. } => DrainAction::Drop(
                DrainDrop::HelperContractViolation,
            ),
            GroupIdCheck::Mismatch { .. } => DrainAction::Drop(DrainDrop::GroupMismatch),
            GroupIdCheck::NonGroupContextWithPosition { .. } => DrainAction::Drop(
                DrainDrop::GroupDisappeared,
            ),
            GroupIdCheck::LookupError => DrainAction::Drop(DrainDrop::GroupLookupFailed),
            GroupIdCheck::Match => match status {
                Err(()) => DrainAction::Drop(DrainDrop::LookupError),
                Ok(MembershipStatus::Member(_)) => DrainAction::Apply,
                Ok(MembershipStatus::Removed) => DrainAction::Drop(DrainDrop::Removed),
                Ok(MembershipStatus::NeverMember) => DrainAction::Drop(DrainDrop::NeverMember),
                Ok(MembershipStatus::Unknown { .. }) => if next_attempts(attempts)
                    >= MAX_GOVERNANCE_DRAIN_ATTEMPTS {
                    DrainAction::Drop(DrainDrop::MaxAttempts)
                } else {
                    DrainAction::Rebuffer { attempts: next_attempts(attempts) }
                },
            },
        }
    }
}

/// The drain decision for one buffered delta: it must carry a position whose
/// group is the context's own, then its author's membership at the signed
/// cut decides; an unknown cut re-buffers until the attempt cap.
pub fn governance_drain_decision<R>(
    has_position: bool,
    group_check: GroupIdCheck,
    status: Result<MembershipStatus<R>, ()>,
    attempts: u32,
) -> (res: DrainAction)
    ensures
        res == drain_verdict(has_position, group_check, status, attempts),
{
    if !has_position {
        return DrainAction::Drop(DrainDrop::NoGovernancePosition);
    }
    match group_check {
        GroupIdCheck::Match => {},
        GroupIdCheck::NonGroupOk | GroupIdCheck::GroupContextNoPosition { .. } => {
            return DrainAction::Drop(DrainDrop::HelperContractViolation);
        },
        GroupIdCheck::Mismatch { .. } => {
            return DrainAction::Drop(DrainDrop::GroupMismatch);
        },
        GroupIdCheck::NonGroupContextWithPosition { .. } => {
            return DrainAction::Drop(DrainDrop::GroupDisappeared);
        },
        GroupIdCheck::LookupError => {
            return DrainAction::Drop(DrainDrop::GroupLookupFailed);
        },
    }
    match status {
        Err(()) => DrainAction::Drop(DrainDrop::LookupError),
        Ok(MembershipStatus::Member(_)) => DrainAction::Apply,
        Ok(MembershipStatus::Removed) => DrainAction::Drop(DrainDrop::Removed),
        Ok(MembershipStatus::NeverMember) => DrainAction::Drop(DrainDrop::NeverMember),
        Ok(MembershipStatus::Unknown { .. }) => {
            let next = attempts.saturating_add(1);
            if next >= MAX_GOVERNANCE_DRAIN_ATTEMPTS {
                DrainAction::Drop(DrainDrop::MaxAttempts)
            } else {
                DrainAction::Rebuffer { attempts: next }
            }
        },
    }
}

/// A governance-pending delta as a drain pass reads it.
#[derive(Debug, PartialEq, Eq, Clone, Copy)]
pub struct PendingDelta {
    pub delta_id: [u8; 32],
    /// It carries the governance position it was signed against.
    pub has_position: bool,
    /// Drain passes that left it unresolved so far.
    pub attempts: u32,
}

/// What the lookups found for one popped delta: its claimed group against
/// the context's, and its author's membership at the signed cut.
pub struct DrainLookup<R> {
    pub group_check: GroupIdCheck,
    pub status: Result<MembershipStatus<R>, ()>,
}

/// The verdict on one popped delta.
pub open spec fn verdict_of<R>(p: PendingDelta, l: DrainLookup<R>) -> DrainAction {
    drain_verdict(p.has_position, l.group_check, l.status, p.attempts)
}

/// The deltas a pass over `q` (with lookups `l`, in the same order) pushes
/// back, in order, with their new attempt counts.
pub open spec fn pass_requeued<R>(q: Seq<PendingDelta>, l: Seq<DrainLookup<R>>) -> Seq<PendingDelta>
    decreases q.len(),
{
    if q.len() == 0 {
        Seq::empty()
    } else {
        let rest = pass_requeued(q.drop_last(), l.drop_last());
        match verdict_of(q.last(), l.last()) {
            DrainAction::Rebuffer { attempts } => rest.push(
                PendingDelta { delta_id: q.last().delta_id, has_position: q.last().has_position, attempts },
            ),
            _ => rest,
        }
    }
}

/// The deltas a pass re-applies, in order.
pub open spec fn pass_applied<R>(q: Seq<PendingDelta>, l: Seq<DrainLookup<R>>) -> Seq<[u8; 32]>
    decreases q.len(),
{
    if q.len() == 0 {
        Seq::empty()
    } else {
        let rest = pass_applied(q.drop_last(), l.drop_last());
        match verdict_of(q.last(), l.last()) {
            DrainAction::Apply => rest.push(q.last().delta_id),
            _ => rest,
        }
    }
}

/// The deltas a pass drops, in order, with the reason.
pub open spec fn pass_dropped<R>(q: Seq<PendingDelta>, l: Seq<DrainLookup<R>>) -> Seq<
    ([u8; 32], DrainDrop),
>
    decreases q.len(),
{
    if q.len() == 0 {
        Seq::empty()
    } else {
        let rest = pass_dropped(q.drop_last(), l.drop_last());
        match verdict_of(q.last(), l.last()) {
            DrainAction::Drop(why) => rest.push((q.last().delta_id, why)),
            _ => rest,
        }
    }
}

/// A pass pushes back no more deltas than it popped, and each one it pushes
/// back carries an attempt count between one and the cap: a delta that never
/// resolves is dropped after a bounded number of passes.
pub proof fn lemma_requeue_bounded<R>(q: Seq<PendingDelta>, l: Seq<DrainLookup<R>>)
    ensures
        pass_requeued(q, l).len() <= q.len(),
        forall|k: int|
            0 <= k < pass_requeued(q, l).len() ==> 1 <= #[trigger] pass_requeued(q, l)[k].attempts
                < MAX_GOVERNANCE_DRAIN_ATTEMPTS,
    decreases q.len(),
{
    if q.len() > 0 {
        lemma_requeue_bounded(q.drop_last(), l.drop_last());
    }
}

/// What one drain pass decided.
pub struct DrainReport {
    /// Now authorized: re-apply these, in order, through the fence.
    pub apply: Vec<[u8; 32]>,
    /// Dropped, with the reason.
    pub dropped: Vec<([u8; 32], DrainDrop)>,
}

/// One drain pass over a context's governance-pending buffer `queue` (front
/// first), with `lookups[i]` made for the `i`-th delta: it pops exactly as
/// many deltas as the buffer held at entry, one at a time from the front,
/// and pushes each still-unresolved one back at the end, so a delta pushed
/// back in this pass is not looked at again before the next pass.
pub fn drain_pass<R>(queue: &mut Vec<PendingDelta>, lookups: Vec<DrainLookup<R>>) -> (r:
    DrainReport)
    requires
        lookups@.len() == old(queue)@.len(),
    ensures
        final(queue)@ == pass_requeued(old(queue)@, lookups@),
        r.apply@ == pass_applied(old(queue)@, lookups@),
        r.dropped@ == pass_dropped(old(queue)@, lookups@),
{
    let ghost q0 = queue@;
    let ghost l0 = lookups@;
    let n = queue.len();
    let mut lookups = lookups;
    let mut apply: Vec<[u8; 32]> = Vec::new();
    let mut dropped: Vec<([u8; 32], DrainDrop)> = Vec::new();
    let mut i: usize = 0;
    while i < n
        invariant
            n == q0.len(),
            l0.len() == q0.len(),
            i <= n,
            queue@ == q0.skip(i as int) + pass_requeued(q0.take(i as int), l0.take(i as int)),
            lookups@ == l0.skip(i as int),
            apply@ == pass_applied(q0.take(i as int), l0.take(i as int)),
            dropped@ == pass_dropped(q0.take(i as int), l0.take(i as int)),
        decreases n - i,
    {
        let ghost before = queue@;
        let ghost rq = pass_requeued(q0.take(i as int), l0.take(i as int));
        assert(before[0] == q0[i as int]);
        let rec = queue.remove(0);
        assert(queue@ =~= q0.skip(i + 1) + rq);
        let lk = lookups.remove(0);
        assert(lookups@ =~= l0.skip(i + 1));
        assert(q0.take(i + 1).drop_last() =~= q0.take(i as int));
        assert(l0.take(i + 1).drop_last() =~= l0.take(i as int));
        assert(q0.take(i + 1).last() == rec);
        assert(l0.take(i + 1).last() == lk);
        let DrainLookup { group_check, status } = lk;
        match governance_drain_decision(rec.has_position, group_check, status, rec.attempts) {
            DrainAction::Apply => {
                apply.push(rec.delta_id);
            },
            DrainAction::Rebuffer { attempts } => {
                queue.push(
                    PendingDelta { delta_id: rec.delta_id, has_position: rec.has_position, attempts },
                );
            },
            DrainAction::Drop(why) => {
                dropped.push((rec.delta_id, why));
            },
        }
        i = i + 1;
    }
    assert(q0.skip(n as int) + pass_requeued(q0.take(n as int), l0.take(n as int)) =~= pass_requeued(q0, l0)) by {
        assert(q0.take(n as int) =~= q0);
        assert(l0.take(n as int) =~= l0);
    }
    assert(q0.take(n as int) =~= q0);
    assert(l0.take(n as int) =~= l0);
    DrainReport { apply, dropped }
}

/// The schema fence's verdict on a delta.
#[derive(Debug, PartialEq, Eq, Clone, Copy)]
pub enum FenceDecision {
    /// Readable now.
    Apply,
    /// Produced under a schema the loaded reader cannot read yet.
    Buffer,
    /// Stale schema after a cascade migration.
    Drop,
}

/// What the apply path does at the fence.
#[derive(Debug, PartialEq, Eq, Clone, Copy)]
pub enum FenceAction {
    /// Fall through to the normal apply.
    Fall,
    /// Persist the signed delta in the absorb buffer for verbatim replay.
    Absorb,
    /// Drop it (unrecoverable).
    Drop,
}

/// The fence step: a drain replay (`bypass`) always falls through without
/// consulting the fence; otherwise the fence's decision picks the action.
pub fn fence_and_maybe_absorb(bypass: bool, decision: FenceDecision) -> (a: FenceAction)
    ensures
        bypass ==> a == FenceAction::Fall,
        !bypass ==> a == match decision {
            FenceDecision::Apply => FenceAction::Fall,
            FenceDecision::Buffer => FenceAction::Absorb,
            FenceDecision::Drop => FenceAction::Drop,
        },
{
    if bypass {
        return FenceAction::Fall;
    }
    match decision {
        FenceDecision::Apply => FenceAction::Fall,
        FenceDecision::Buffer => FenceAction::Absorb,
        FenceDecision::Drop => FenceAction::Drop,
    }
}

/// What a drain needs to know of one pending absorb record.
#[derive(Debug, PartialEq, Eq, Clone, Copy)]
pub struct AbsorbMeta {
    /// The schema the delta was produced under (absent for legacy deltas).
    pub producing_app_key: Option<[u8; 32]>,
    /// A sync-repair leaf or snapshot entity rather than a replayable delta.
    pub is_leaf_or_entity: bool,
}

/// A delta record is replayable when the node has reached the migration
/// target, or when the record's schema is the loaded reader's.
pub open spec fn drainable(loaded: Seq<u8>, target: Seq<u8>, m: AbsorbMeta) -> bool {
    &&& !m.is_leaf_or_entity
    &&& (loaded == target || (m.producing_app_key matches Some(p) && p@ == loaded))
}

/// The positions of the pending records a delta drain replays, in order: none
/// when the loaded reader is unknown; the target defaults to the loaded
/// reader.
pub fn select_drainable_records(
    loaded: Option<[u8; 32]>,
    target: Option<[u8; 32]>,
    pending: &Vec<AbsorbMeta>,
) -> (res: Vec<usize>)
    ensures
        loaded is None ==> res@.len() == 0,
        loaded is Some ==> {
            let l = loaded->0@;
            let t = match target {
                Some(t) => t@,
                None => l,
            };
            &&& forall|i: int, j: int| 0 <= i < j < res@.len() ==> res@[i] < res@[j]
            &&& forall|i: int|
                0 <= i < res@.len() ==> res@[i] < pending@.len() && drainable(
                    l,
                    t,
                    pending@[res@[i] as int],
                )
            &&& forall|k: int|
                0 <= k < pending@.len() && drainable(l, t, pending@[k]) ==> res@.contains(
                    k as usize,
                )
        },
{
    let mut out: Vec<usize> = Vec::new();
    let l = match loaded {
        None => {
            return out;
        },
        Some(l) => l,
    };
    let t = match target {
        Some(t) => t,
        None => l,
    };
    let at_target = bytes32_eq(&l, &t);
    let mut i: usize = 0;
    while i < pending.len()
        invariant
            i <= pending@.len(),
            at_target == (l@ == t@),
            forall|a: int, b: int| 0 <= a < b < out@.len() ==> out@[a] < out@[b],
            forall|a: int| 0 <= a < out@.len() ==> out@[a] < i,
            forall|a: int|
                0 <= a < out@.len() ==> out@[a] < pending@.len() && drainable(
                    l@,
                    t@,
                    pending@[out@[a] as int],
                ),
            forall|k: int| 0 <= k < i && drainable(l@, t@, pending@[k]) ==> out@.contains(k as usize),
        decreases pending@.len() - i,
    {
        let m = pending[i];
        let schema_matches = match m.producing_app_key {
            Some(p) => bytes32_eq(&p, &l),
            None => false,
        };
        if !m.is_leaf_or_entity && (at_target || schema_matches) {
            let ghost before = out@;
            out.push(i);
            proof {
                assert forall|k: int| 0 <= k < i + 1 && drainable(l@, t@, pending@[k]) implies out@.contains(
                    k as usize,
                ) by {
                    if k < i {
                        assert(before.contains(k as usize));
                        let x = choose|x: int| 0 <= x < before.len() && before[x] == k as usize;
                        assert(out@[x] == k as usize);
                    } else {
                        assert(out@[out@.len() - 1] == k as usize);
                    }
                }
            }
        }
        i = i + 1;
    }
    out
}

/// A buffered leaf or entity re-applies once its schema is the loaded
/// reader's.
pub fn leaf_record_drainable(loaded: [u8; 32], schema_app_key: [u8; 32]) -> (res: bool)
    ensures
        res == (loaded@ == schema_app_key@),
{
    bytes32_eq(&loaded, &schema_app_key)
}

/// The positions (among `selected`, in order) whose replay succeeded.
pub open spec fn replayed_positions(selected: Seq<usize>, replayed: Seq<bool>) -> Seq<usize>
    decreases selected.len(),
{
    if selected.len() == 0 {
        Seq::empty()
    } else {
        let rest = replayed_positions(selected.drop_last(), replayed.drop_last());
        if replayed.last() {
            rest.push(selected.last())
        } else {
            rest
        }
    }
}

/// After an absorb drain replayed the `selected` records (`replayed[i]`: the
/// replay of `selected[i]` went through, applied or declined), the records to
/// delete: exactly those replayed, in order; a record whose replay failed
/// stays pending for the next drain, and a deleted one is never replayed
/// again. The drain's count is the length of the result.
pub fn absorb_drain_deletions(selected: &Vec<usize>, replayed: &Vec<bool>) -> (deleted: Vec<usize>)
    requires
        replayed@.len() == selected@.len(),
    ensures
        deleted@ == replayed_positions(selected@, replayed@),
        deleted@.len() <= selected@.len(),
{
    let mut out: Vec<usize> = Vec::new();
    let mut i: usize = 0;
    while i < selected.len()
        invariant
            replayed@.len() == selected@.len(),
            i <= selected@.len(),
            out@ == replayed_positions(selected@.take(i as int), replayed@.take(i as int)),
            out@.len() <= i,
        decreases selected@.len() - i,
    {
        proof {
            assert(selected@.take(i + 1).drop_last() =~= selected@.take(i as int));
            assert(replayed@.take(i + 1).drop_last() =~= replayed@.take(i as int));
        }
        if replayed[i] {
            out.push(selected[i]);
        }
        i = i + 1;
    }
    proof {
        assert(selected@.take(selected@.len() as int) =~= selected@);
        assert(replayed@.take(replayed@.len() as int) =~= replayed@);
    }
    out
}

} // verus!
