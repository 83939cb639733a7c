use node_handlers::topics::{classify_subscription_topic, parse_namespace_announce_topic, NamespaceTopicError, SubscribedTopic};

#[test]
fn ns_announce_topic_resolves_to_namespace_id_for_admission() {
    let namespace_id = [0x42u8; 32];
    let topic = format!("ns/{}", hex::encode(namespace_id));
    let parsed = parse_namespace_announce_topic(&topic)
        .expect("ns/<hex> announce topic must route into the admission path, not be dropped");
    assert_eq!(parsed, namespace_id);
}

#[test]
fn legacy_group_topic_is_not_a_namespace_announce_topic() {
    let topic = format!("group/{}", hex::encode([0x42u8; 32]));
    assert_eq!(parse_namespace_announce_topic(&topic), Err(NamespaceTopicError::NotNamespaceTopic));
}

#[test]
fn unprefixed_topic_is_not_a_namespace_announce_topic() {
    assert_eq!(
        parse_namespace_announce_topic("some-context-id"),
        Err(NamespaceTopicError::NotNamespaceTopic),
    );
}

#[test]
fn ns_topic_with_malformed_hex_is_rejected_as_malformed() {
    assert_eq!(parse_namespace_announce_topic("ns/not-hex"), Err(NamespaceTopicError::MalformedHex));
    assert_eq!(
        parse_namespace_announce_topic(&format!("ns/{}", hex::encode([0u8; 16]))),
        Err(NamespaceTopicError::MalformedHex),
    );
}

#[test]
fn uppercase_hex_and_distinct_bytes_decode() {
    let id: [u8; 32] = core::array::from_fn(|i| (i * 7 + 3) as u8);
    let upper = format!("ns/{}", hex::encode_upper(id));
    assert_eq!(parse_namespace_announce_topic(&upper), Ok(id));
    assert_eq!(parse_namespace_announce_topic("ns/"), Err(NamespaceTopicError::MalformedHex));
    assert_eq!(parse_namespace_announce_topic("n"), Err(NamespaceTopicError::NotNamespaceTopic));
}

#[test]
fn subscription_topics_are_classified() {
    let id: [u8; 32] = core::array::from_fn(|i| (255 - i) as u8);
    assert_eq!(classify_subscription_topic(&format!("group/{}", hex::encode(id))), SubscribedTopic::Group(id));
    assert_eq!(classify_subscription_topic(&format!("ns/{}", hex::encode(id))), SubscribedTopic::Namespace(id));
    assert_eq!(classify_subscription_topic("group/zz"), SubscribedTopic::MalformedGroup);
    assert_eq!(classify_subscription_topic("ns/zz"), SubscribedTopic::MalformedNamespace);
    assert_eq!(classify_subscription_topic("some-context-id"), SubscribedTopic::Other);
}
