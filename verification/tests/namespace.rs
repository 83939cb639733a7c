use node_handlers::namespace::{
    backfill_summary, namespace_follow_ups, route_namespace_message, subscription_action,
    NamespaceApplyResult, NamespaceFollowUps, NamespaceMsgKind, NamespaceRoute, SubscriptionAction,
};
use node_handlers::topics::SubscribedTopic;

const NS: [u8; 32] = [0x42; 32];

#[test]
fn namespace_messages_are_routed() {
    let route = |len: usize, decoded, sig_ok| route_namespace_message(len, 100, decoded, NS, sig_ok);
    assert_eq!(route(101, Some((NamespaceMsgKind::Op, NS)), true), NamespaceRoute::DropOversized);
    assert_eq!(route(100, None, true), NamespaceRoute::DropUndecodable);
    // Acks carry no namespace check.
    assert_eq!(route(10, Some((NamespaceMsgKind::Ack, [1; 32])), true), NamespaceRoute::Ack);
    assert_eq!(route(10, Some((NamespaceMsgKind::ReadinessBeacon, [1; 32])), true), NamespaceRoute::DropMismatch);
    assert_eq!(route(10, Some((NamespaceMsgKind::ReadinessBeacon, NS)), true), NamespaceRoute::Beacon);
    assert_eq!(route(10, Some((NamespaceMsgKind::ReadinessProbe, NS)), true), NamespaceRoute::Probe);
    assert_eq!(route(10, Some((NamespaceMsgKind::MigrationHeartbeat, NS)), true), NamespaceRoute::MigrationHeartbeat);
    assert_eq!(route(10, Some((NamespaceMsgKind::Op, NS)), true), NamespaceRoute::ApplyOp);
    assert_eq!(route(10, Some((NamespaceMsgKind::Op, [1; 32])), true), NamespaceRoute::DropMismatch);
    // An op whose signature fails is never applied.
    assert_eq!(route(10, Some((NamespaceMsgKind::Op, NS)), false), NamespaceRoute::DropBadSignature);
    assert_eq!(route(10, Some((NamespaceMsgKind::Op, [1; 32])), false), NamespaceRoute::DropMismatch);
    // The op signature is not read for other kinds.
    assert_eq!(route(10, Some((NamespaceMsgKind::ReadinessBeacon, NS)), false), NamespaceRoute::Beacon);
}

#[test]
fn follow_ups_of_an_applied_or_pending_op() {
    assert_eq!(
        namespace_follow_ups(NamespaceApplyResult::Applied { divergence: true }, true, false),
        NamespaceFollowUps {
            notify_readiness: true,
            update_migration_facts: false,
            observe_signer: true,
            drain_buffers: true,
            reconcile_divergence: true,
            recover_keys: true,
            emit_ack: true,
            backfill: false,
        }
    );
    let pending = namespace_follow_ups(NamespaceApplyResult::Pending, true, true);
    assert!(pending.backfill && !pending.emit_ack && !pending.drain_buffers && !pending.notify_readiness);
    let other = namespace_follow_ups(NamespaceApplyResult::Other, true, true);
    assert_eq!(
        other,
        NamespaceFollowUps {
            notify_readiness: false,
            update_migration_facts: false,
            observe_signer: false,
            drain_buffers: false,
            reconcile_divergence: false,
            recover_keys: false,
            emit_ack: false,
            backfill: false,
        }
    );
}

#[test]
fn backfill_summaries() {
    assert_eq!(backfill_summary(&vec![]), (false, 0));
    assert_eq!(
        backfill_summary(&vec![
            NamespaceApplyResult::Other,
            NamespaceApplyResult::Applied { divergence: true },
            NamespaceApplyResult::Pending,
            NamespaceApplyResult::Applied { divergence: false },
            NamespaceApplyResult::Applied { divergence: true },
        ]),
        (true, 2)
    );
    assert_eq!(backfill_summary(&vec![NamespaceApplyResult::Pending]), (false, 0));
}

#[test]
fn subscriptions_set_work_in_motion() {
    assert_eq!(subscription_action(SubscribedTopic::Group([1; 32]), true, Ok(0)), SubscriptionAction::SyncGroup([1; 32]));
    assert_eq!(
        subscription_action(SubscribedTopic::Namespace(NS), false, Ok(0)),
        SubscriptionAction::Namespace { namespace_id: NS, emit_beacon: false, recover: false }
    );
    assert_eq!(
        subscription_action(SubscribedTopic::Namespace(NS), true, Ok(2)),
        SubscriptionAction::Namespace { namespace_id: NS, emit_beacon: true, recover: true }
    );
    assert_eq!(
        subscription_action(SubscribedTopic::Namespace(NS), true, Err(())),
        SubscriptionAction::Namespace { namespace_id: NS, emit_beacon: true, recover: true }
    );
    assert_eq!(subscription_action(SubscribedTopic::MalformedGroup, true, Ok(0)), SubscriptionAction::Ignore);
    assert_eq!(subscription_action(SubscribedTopic::MalformedNamespace, true, Ok(0)), SubscriptionAction::Ignore);
    assert_eq!(subscription_action(SubscribedTopic::Other, true, Ok(0)), SubscriptionAction::MaybeContext);
}
