//! Gossipsub topic names: `ns/<hex(namespace_id)>` for namespace governance,
//! `group/<hex(group_id)>` for group state, anything else a context topic.
use vstd::prelude::*;

use vstd::string::StringSliceAdditionalSpecFns;

use crate::crypto::{hex_decode_32, hex_decoded, hex_digit_value, is_hex_digit, is_hex_of_len};

verus! {

/// The bytes of `ns/`.
pub const NS_PREFIX: [u8; 3] = [110, 115, 47];

/// The bytes of `group/`.
pub const GROUP_PREFIX: [u8; 6] = [103, 114, 111, 117, 112, 47];

/// `b` starts with `p`.
pub open spec fn has_prefix(b: Seq<u8>, p: Seq<u8>) -> bool {
    b.len() >= p.len() && b.subrange(0, p.len() as int) == p
}

/// `b` without its first `n` bytes.
pub open spec fn after(b: Seq<u8>, n: int) -> Seq<u8> {
    b.subrange(n, b.len() as int)
}

/// Why a topic was rejected as a namespace-governance announce topic.
#[derive(Debug, PartialEq, Eq, Clone, Copy)]
pub enum NamespaceTopicError {
    /// The topic does not carry the `ns/` prefix.
    NotNamespaceTopic,
    /// The topic has the prefix but the suffix is not a 32-byte hex id.
    MalformedHex,
}

/// Whether `b` starts with `p`.
pub(crate) fn starts_with(b: &[u8], p: &[u8]) -> (res: bool)
    ensures
        res == has_prefix(b@, p@),
{
    if b.len() < p.len() {
        return false;
    }
    let mut i: usize = 0;
    while i < p.len()
        invariant
            i <= p@.len(),
            p@.len() <= b@.len(),
            forall|j: int| 0 <= j < i ==> b@[j] == p@[j],
        decreases p@.len() - i,
    {
        if b[i] != p[i] {
            assert(b@.subrange(0, p@.len() as int)[i as int] != p@[i as int]);
            return false;
        }
        i = i + 1;
    }
    assert(b@.subrange(0, p@.len() as int) =~= p@);
    true
}

/// The bytes of `b` from position `n` on.
fn tail_from(b: &[u8], n: usize) -> (res: Vec<u8>)
    requires
        n <= b@.len(),
    ensures
        res@ == after(b@, n as int),
{
    let mut out: Vec<u8> = Vec::new();
    let mut i: usize = n;
    while i < b.len()
        invariant
            n <= i <= b@.len(),
            out@ == b@.subrange(n as int, i as int),
        decreases b@.len() - i,
    {
        out.push(b[i]);
        i = i + 1;
        assert(out@ =~= b@.subrange(n as int, i as int));
    }
    out
}

/// Decode the 32-byte id after a prefix of length `n`, if the rest is
/// exactly 64 hex digits.
fn id_after(b: &[u8], n: usize) -> (res: Option<[u8; 32]>)
    requires
        n <= b@.len(),
    ensures
        res is Some <==> is_hex_of_len(after(b@, n as int), 32),
        res matches Some(id) ==> id@ == hex_decoded(after(b@, n as int)),
{
    let rest = tail_from(b, n);
    hex_decode_32(rest.as_slice())
}

/// Parse a `TeeAttestationAnnounce` topic into its namespace id: the topic
/// must be `ns/` followed by exactly 64 hex digits.
pub fn parse_namespace_announce_topic(topic_str: &str) -> (res: Result<[u8; 32], NamespaceTopicError>)
    ensures
        !has_prefix(topic_str.spec_bytes(), NS_PREFIX@) ==> res == Err::<[u8; 32], _>(
            NamespaceTopicError::NotNamespaceTopic,
        ),
        has_prefix(topic_str.spec_bytes(), NS_PREFIX@) && !is_hex_of_len(
            after(topic_str.spec_bytes(), 3),
            32,
        ) ==> res == Err::<[u8; 32], _>(NamespaceTopicError::MalformedHex),
        has_prefix(topic_str.spec_bytes(), NS_PREFIX@) && is_hex_of_len(
            after(topic_str.spec_bytes(), 3),
            32,
        ) ==> res is Ok && res->Ok_0@ == hex_decoded(after(topic_str.spec_bytes(), 3)),
{
    let bytes = topic_str.as_bytes();
    let prefix = NS_PREFIX;
    if !starts_with(bytes, prefix.as_slice()) {
        return Err(NamespaceTopicError::NotNamespaceTopic);
    }
    match id_after(bytes, 3) {
        Some(id) => Ok(id),
        None => Err(NamespaceTopicError::MalformedHex),
    }
}

/// What a peer subscribed to.
#[derive(Debug, PartialEq, Eq, Clone, Copy)]
pub enum SubscribedTopic {
    /// `group/<hex>` with a well-formed group id.
    Group([u8; 32]),
    /// `group/` with a malformed id: ignored.
    MalformedGroup,
    /// `ns/<hex>` with a well-formed namespace id.
    Namespace([u8; 32]),
    /// `ns/` with a malformed id: ignored.
    MalformedNamespace,
    /// Anything else: possibly a context id.
    Other,
}

/// Classify a subscription topic: the `group/` prefix is tried first, then
/// `ns/`; each must be followed by exactly 64 hex digits.
pub fn classify_subscription_topic(topic_str: &str) -> (res: SubscribedTopic)
    ensures
        ({
            let b = topic_str.spec_bytes();
            if has_prefix(b, GROUP_PREFIX@) {
                if is_hex_of_len(after(b, 6), 32) {
                    res matches SubscribedTopic::Group(id) && id@ == hex_decoded(after(b, 6))
                } else {
                    res == SubscribedTopic::MalformedGroup
                }
            } else if has_prefix(b, NS_PREFIX@) {
                if is_hex_of_len(after(b, 3), 32) {
                    res matches SubscribedTopic::Namespace(id) && id@ == hex_decoded(after(b, 3))
                } else {
                    res == SubscribedTopic::MalformedNamespace
                }
            } else {
                res == SubscribedTopic::Other
            }
        }),
{
    let bytes = topic_str.as_bytes();
    let group_prefix = GROUP_PREFIX;
    let ns_prefix = NS_PREFIX;
    if starts_with(bytes, group_prefix.as_slice()) {
        match id_after(bytes, 6) {
            Some(id) => SubscribedTopic::Group(id),
            None => SubscribedTopic::MalformedGroup,
        }
    } else if starts_with(bytes, ns_prefix.as_slice()) {
        match id_after(bytes, 3) {
            Some(id) => SubscribedTopic::Namespace(id),
            None => SubscribedTopic::MalformedNamespace,
        }
    } else {
        SubscribedTopic::Other
    }
}

/// The lowercase hex digit for a nibble.
pub open spec fn hex_lower_digit(n: int) -> u8 {
    if n < 10 {
        (48 + n) as u8
    } else {
        (97 + n - 10) as u8
    }
}

/// The lowercase hex spelling of `bytes`, high nibble first (as
/// `hex::encode` writes it).
pub open spec fn hex_encoded(bytes: Seq<u8>) -> Seq<u8> {
    Seq::new(
        2 * bytes.len(),
        |i: int|
            if i % 2 == 0 {
                hex_lower_digit(bytes[i / 2] as int / 16)
            } else {
                hex_lower_digit(bytes[i / 2] as int % 16)
            },
    )
}

proof fn lemma_hex_digit_roundtrip(n: int)
    requires
        0 <= n < 16,
    ensures
        is_hex_digit(hex_lower_digit(n)),
        hex_digit_value(hex_lower_digit(n)) == n,
{
}

/// Hex encoding then decoding gives the bytes back.
pub proof fn lemma_hex_roundtrip(bytes: Seq<u8>)
    ensures
        is_hex_of_len(hex_encoded(bytes), bytes.len() as int),
        hex_decoded(hex_encoded(bytes)) == bytes,
{
    let e = hex_encoded(bytes);
    assert forall|i: int| 0 <= i < e.len() implies is_hex_digit(#[trigger] e[i]) by {
        let b = bytes[i / 2] as int;
        if i % 2 == 0 {
            lemma_hex_digit_roundtrip(b / 16);
        } else {
            lemma_hex_digit_roundtrip(b % 16);
        }
    }
    let d = hex_decoded(e);
    assert forall|i: int| 0 <= i < bytes.len() implies d[i] == bytes[i] by {
        let b = bytes[i] as int;
        assert((2 * i) / 2 == i);
        assert((2 * i + 1) / 2 == i);
        assert((2 * i) % 2 == 0);
        assert((2 * i + 1) % 2 == 1);
        lemma_hex_digit_roundtrip(b / 16);
        lemma_hex_digit_roundtrip(b % 16);
        assert((b / 16) * 16 + b % 16 == b);
    }
    assert(d =~= bytes);
}

/// A topic spelled `ns/` followed by the lowercase hex of a namespace id
/// parses back to that id: publish and receive sides agree on the topic.
pub proof fn lemma_namespace_topic_roundtrip(topic: Seq<u8>, namespace_id: Seq<u8>)
    requires
        namespace_id.len() == 32,
        topic == NS_PREFIX@ + hex_encoded(namespace_id),
    ensures
        has_prefix(topic, NS_PREFIX@),
        is_hex_of_len(after(topic, 3), 32),
        hex_decoded(after(topic, 3)) == namespace_id,
{
    assert(topic.subrange(0, 3) =~= NS_PREFIX@);
    assert(after(topic, 3) =~= hex_encoded(namespace_id));
    lemma_hex_roundtrip(namespace_id);
}

} // verus!
