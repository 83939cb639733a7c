//! Namespace governance gossip: which handler a message on an `ns/<id>`
//! topic goes to, what follows the application of a governance op, and what
//! a peer's subscription to a topic sets in motion.
//!
//! Decoding, signature checks and the governance store are the caller's; it
//! hands over what they said.
use vstd::prelude::*;

use crate::bytes::bytes32_eq;
use crate::topics::SubscribedTopic;

verus! {

/// The kind of a decoded namespace topic message.
#[derive(Debug, PartialEq, Eq, Clone, Copy)]
pub enum NamespaceMsgKind {
    Op,
    Ack,
    ReadinessBeacon,
    ReadinessProbe,
    MigrationHeartbeat,
}

/// Where a namespace topic message goes.
#[derive(Debug, PartialEq, Eq, Clone, Copy)]
pub enum NamespaceRoute {
    /// The payload exceeds the cap: dropped undecoded.
    DropOversized,
    /// The payload does not decode: dropped.
    DropUndecodable,
    /// The message names another namespace than its topic: dropped.
    DropMismatch,
    /// An ack: to the ack router.
    Ack,
    /// A readiness beacon: to the beacon handler.
    Beacon,
    /// A readiness probe: to the probe handler.
    Probe,
    /// A migration heartbeat: verify it, then cache it.
    MigrationHeartbeat,
    /// A governance op whose signature does not verify: dropped.
    DropBadSignature,
    /// A governance op with a valid signature: apply it.
    ApplyOp,
}

/// The route of a message on the topic of `topic_namespace`: oversized
/// payloads (above `max_payload`) are dropped before decoding; `decoded` is
/// the decoded message's kind and the namespace it names (`None` when it
/// did not decode). Every kind but an ack must name the topic's namespace,
/// and an op is applied only when its signature verifies (`op_signature_ok`,
/// read for ops only).
pub fn route_namespace_message(
    payload_len: usize,
    max_payload: usize,
    decoded: Option<(NamespaceMsgKind, [u8; 32])>,
    topic_namespace: [u8; 32],
    op_signature_ok: bool,
) -> (r: NamespaceRoute)
    ensures
        payload_len > max_payload ==> r == NamespaceRoute::DropOversized,
        payload_len <= max_payload ==> match decoded {
            None => r == NamespaceRoute::DropUndecodable,
            Some((NamespaceMsgKind::Ack, _)) => r == NamespaceRoute::Ack,
            Some((kind, ns)) => if ns@ != topic_namespace@ {
                r == NamespaceRoute::DropMismatch
            } else {
                r == match kind {
                    NamespaceMsgKind::ReadinessBeacon => NamespaceRoute::Beacon,
                    NamespaceMsgKind::ReadinessProbe => NamespaceRoute::Probe,
                    NamespaceMsgKind::MigrationHeartbeat => NamespaceRoute::MigrationHeartbeat,
                    _ => if op_signature_ok {
                        NamespaceRoute::ApplyOp
                    } else {
                        NamespaceRoute::DropBadSignature
                    },
                }
            },
        },
{
    if payload_len > max_payload {
        return NamespaceRoute::DropOversized;
    }
    match decoded {
        None => NamespaceRoute::DropUndecodable,
        Some((NamespaceMsgKind::Ack, _)) => NamespaceRoute::Ack,
        Some((kind, ns)) => {
            if !bytes32_eq(&ns, &topic_namespace) {
                NamespaceRoute::DropMismatch
            } else {
                match kind {
                    NamespaceMsgKind::ReadinessBeacon => NamespaceRoute::Beacon,
                    NamespaceMsgKind::ReadinessProbe => NamespaceRoute::Probe,
                    NamespaceMsgKind::MigrationHeartbeat => NamespaceRoute::MigrationHeartbeat,
                    _ => {
                        if op_signature_ok {
                            NamespaceRoute::ApplyOp
                        } else {
                            NamespaceRoute::DropBadSignature
                        }
                    },
                }
            }
        },
    }
}

/// What applying a signed namespace op gave.
#[derive(Debug, PartialEq, Eq, Clone, Copy)]
pub enum NamespaceApplyResult {
    /// Applied; `divergence` when it reported a divergence to reconcile.
    Applied { divergence: bool },
    /// Waiting on ops this node does not hold.
    Pending,
    /// Anything else (a duplicate, a refusal).
    Other,
}

/// The work that follows a gossiped governance op.
#[derive(Debug, PartialEq, Eq, Clone, Copy)]
pub struct NamespaceFollowUps {
    /// Tell the readiness manager an op was applied.
    pub notify_readiness: bool,
    /// Recompute and publish the namespace's migration facts.
    pub update_migration_facts: bool,
    /// Remember which peer speaks for the op's signer.
    pub observe_signer: bool,
    /// Drain the governance-pending and absorbed delta buffers.
    pub drain_buffers: bool,
    /// Reconcile the reported divergence.
    pub reconcile_divergence: bool,
    /// Pull any group key this node is owed.
    pub recover_keys: bool,
    /// Gossip a signed ack for the op.
    pub emit_ack: bool,
    /// Back-fill the missing ops from the sender, then from other mesh peers.
    pub backfill: bool,
}

/// The follow-ups of an apply outcome; the readiness and migration
/// notifications only where those services are running.
pub fn namespace_follow_ups(
    outcome: NamespaceApplyResult,
    readiness_running: bool,
    migration_running: bool,
) -> (f: NamespaceFollowUps)
    ensures
        ({
            let applied = outcome is Applied;
            &&& f.notify_readiness == (applied && readiness_running)
            &&& f.update_migration_facts == (applied && migration_running)
            &&& f.observe_signer == applied
            &&& f.drain_buffers == applied
            &&& f.reconcile_divergence == (outcome == NamespaceApplyResult::Applied { divergence: true })
            &&& f.recover_keys == applied
            &&& f.emit_ack == applied
            &&& f.backfill == (outcome == NamespaceApplyResult::Pending)
        }),
{
    let (applied, divergence) = match outcome {
        NamespaceApplyResult::Applied { divergence } => (true, divergence),
        _ => (false, false),
    };
    let pending = match outcome {
        NamespaceApplyResult::Pending => true,
        _ => false,
    };
    NamespaceFollowUps {
        notify_readiness: applied && readiness_running,
        update_migration_facts: applied && migration_running,
        observe_signer: applied,
        drain_buffers: applied,
        reconcile_divergence: divergence,
        recover_keys: applied,
        emit_ack: applied,
        backfill: pending,
    }
}

/// How many of `outcomes` applied.
pub open spec fn applied_count(outcomes: Seq<NamespaceApplyResult>) -> nat
    decreases outcomes.len(),
{
    if outcomes.len() == 0 {
        0
    } else {
        applied_count(outcomes.drop_last()) + if outcomes.last() is Applied {
            1nat
        } else {
            0nat
        }
    }
}

/// How many of `outcomes` applied with a divergence to reconcile.
pub open spec fn divergence_count(outcomes: Seq<NamespaceApplyResult>) -> nat
    decreases outcomes.len(),
{
    if outcomes.len() == 0 {
        0
    } else {
        divergence_count(outcomes.drop_last()) + if outcomes.last()
            == (NamespaceApplyResult::Applied { divergence: true }) {
            1nat
        } else {
            0nat
        }
    }
}

/// Some outcome applied exactly when the count of applied outcomes is not
/// zero: duplicates, refusals and pending ops never count.
pub proof fn lemma_applied_count_positive_iff_some_applied(outcomes: Seq<NamespaceApplyResult>)
    ensures
        (applied_count(outcomes) > 0) == (exists|i: int|
            0 <= i < outcomes.len() && #[trigger] outcomes[i] is Applied),
        applied_count(outcomes) <= outcomes.len(),
    decreases outcomes.len(),
{
    if outcomes.len() > 0 {
        let p = outcomes.drop_last();
        lemma_applied_count_positive_iff_some_applied(p);
        if exists|i: int| 0 <= i < p.len() && #[trigger] p[i] is Applied {
            let i = choose|i: int| 0 <= i < p.len() && #[trigger] p[i] is Applied;
            assert(outcomes[i] == p[i]);
        }
        if exists|i: int| 0 <= i < outcomes.len() && #[trigger] outcomes[i] is Applied {
            let i = choose|i: int| 0 <= i < outcomes.len() && #[trigger] outcomes[i] is Applied;
            if i < outcomes.len() - 1 {
                assert(p[i] == outcomes[i]);
            }
        }
    }
}

/// Only an applied op can report a divergence: there are never more
/// divergences than applied ops, and some divergence awaits reconciliation
/// exactly when some op applied with one.
pub proof fn lemma_divergences_come_from_applied_ops(outcomes: Seq<NamespaceApplyResult>)
    ensures
        divergence_count(outcomes) <= applied_count(outcomes),
        (divergence_count(outcomes) > 0) == (exists|i: int|
            0 <= i < outcomes.len() && #[trigger] outcomes[i] == (NamespaceApplyResult::Applied {
                divergence: true,
            })),
    decreases outcomes.len(),
{
    if outcomes.len() > 0 {
        let p = outcomes.drop_last();
        lemma_divergences_come_from_applied_ops(p);
        let d = NamespaceApplyResult::Applied { divergence: true };
        if exists|i: int| 0 <= i < p.len() && #[trigger] p[i] == d {
            let i = choose|i: int| 0 <= i < p.len() && #[trigger] p[i] == d;
            assert(outcomes[i] == p[i]);
        }
        if exists|i: int| 0 <= i < outcomes.len() && #[trigger] outcomes[i] == d {
            let i = choose|i: int| 0 <= i < outcomes.len() && #[trigger] outcomes[i] == d;
            if i < outcomes.len() - 1 {
                assert(p[i] == outcomes[i]);
            }
        }
    }
}

/// A back-fill's summary: whether any op applied (then the node announces
/// it and drains its delta buffers) and how many divergences await
/// reconciliation.
pub fn backfill_summary(outcomes: &Vec<NamespaceApplyResult>) -> (res: (bool, usize))
    ensures
        res.0 == (applied_count(outcomes@) > 0),
        res.0 == (exists|i: int| 0 <= i < outcomes@.len() && #[trigger] outcomes@[i] is Applied),
        res.1 == divergence_count(outcomes@),
{
    let mut applied: usize = 0;
    let mut divergences: usize = 0;
    let mut i: usize = 0;
    while i < outcomes.len()
        invariant
            i <= outcomes@.len(),
            applied == applied_count(outcomes@.take(i as int)),
            divergences == divergence_count(outcomes@.take(i as int)),
            applied <= i,
            divergences <= applied,
        decreases outcomes@.len() - i,
    {
        proof {
            assert(outcomes@.take(i + 1).drop_last() =~= outcomes@.take(i as int));
        }
        match outcomes[i] {
            NamespaceApplyResult::Applied { divergence } => {
                applied = applied + 1;
                if divergence {
                    divergences = divergences + 1;
                }
            },
            _ => {},
        }
        i = i + 1;
    }
    proof {
        assert(outcomes@.take(outcomes@.len() as int) =~= outcomes@);
        lemma_applied_count_positive_iff_some_applied(outcomes@);
    }
    (applied > 0, divergences)
}

/// What a peer's subscription sets in motion.
#[derive(Debug, PartialEq, Eq, Clone, Copy)]
pub enum SubscriptionAction {
    /// Sync the group and re-broadcast its local state.
    SyncGroup([u8; 32]),
    /// A namespace topic: emit an out-of-cycle readiness beacon when the
    /// readiness service runs; pull governance and keys from the peer when
    /// this node is a keyless member of a group in the namespace.
    Namespace { namespace_id: [u8; 32], emit_beacon: bool, recover: bool },
    /// Maybe a context topic: sync it with the peer if it names a context
    /// this node holds.
    MaybeContext,
    /// Nothing.
    Ignore,
}

/// The subscription's action from its classified topic, whether the
/// readiness service runs, and how many groups of the namespace this node
/// is a keyless member of (looked up for namespace topics only; a failed
/// lookup tries the recovery anyway).
pub fn subscription_action(
    topic: SubscribedTopic,
    readiness_running: bool,
    keyless_groups: Result<usize, ()>,
) -> (a: SubscriptionAction)
    ensures
        a == match topic {
            SubscribedTopic::Group(g) => SubscriptionAction::SyncGroup(g),
            SubscribedTopic::Namespace(n) => SubscriptionAction::Namespace {
                namespace_id: n,
                emit_beacon: readiness_running,
                recover: keyless_groups != Ok::<usize, ()>(0),
            },
            SubscribedTopic::Other => SubscriptionAction::MaybeContext,
            _ => SubscriptionAction::Ignore,
        },
{
    match topic {
        SubscribedTopic::Group(g) => SubscriptionAction::SyncGroup(g),
        SubscribedTopic::Namespace(n) => {
            let recover = match keyless_groups {
                Ok(count) => count != 0,
                Err(()) => true,
            };
            SubscriptionAction::Namespace {
                namespace_id: n,
                emit_beacon: readiness_running,
                recover,
            }
        },
        SubscribedTopic::Other => SubscriptionAction::MaybeContext,
        _ => SubscriptionAction::Ignore,
    }
}

} // verus!
