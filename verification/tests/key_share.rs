use std::collections::VecDeque;

use ed25519_dalek::{Signer, SigningKey};
use node_handlers::key_share::{KeyShareAction, KeyShareError, KeyShareMsg, KeyShareSession};

const DOMAIN: &[u8] = b"test-challenge-domain";

struct Side {
    session: KeyShareSession,
    sk: SigningKey,
    sender_key: [u8; 32],
    inbox: VecDeque<KeyShareMsg>,
    /// What to hand to the next `step`: `Some(None)` after a send, `None`
    /// while waiting for a message.
    next: Option<Option<KeyShareMsg>>,
    outcome: Option<Result<[u8; 32], KeyShareError>>,
}

impl Side {
    fn new(sk: SigningKey, peer: [u8; 32], sender_key: [u8; 32], challenge: [u8; 32]) -> Side {
        let me = sk.verifying_key().to_bytes();
        Side {
            session: KeyShareSession::new(me, peer, challenge, DOMAIN.to_vec()),
            sk,
            sender_key,
            inbox: VecDeque::new(),
            next: Some(None),
            outcome: None,
        }
    }

    /// Run one step; returns the message to deliver to the peer, if any.
    fn turn(&mut self) -> Option<KeyShareMsg> {
        if self.outcome.is_some() {
            return None;
        }
        let input = match self.next.take() {
            Some(input) => input,
            None => match self.inbox.pop_front() {
                Some(msg) => Some(msg),
                None => return None,
            },
        };
        let me = self.sk.verifying_key().to_bytes();
        match self.session.step(input) {
            KeyShareAction::SendInit => {
                self.next = Some(None);
                Some(KeyShareMsg::Init { party: me, key_share: true })
            }
            KeyShareAction::Receive => None,
            KeyShareAction::SendChallenge { seq, challenge } => {
                self.next = Some(None);
                Some(KeyShareMsg::Challenge { seq, challenge })
            }
            KeyShareAction::SendResponse { seq, challenge } => {
                let payload = self.session.challenge_payload(&challenge);
                self.next = Some(None);
                Some(KeyShareMsg::ChallengeResponse { seq, signature: self.sk.sign(&payload).to_bytes() })
            }
            KeyShareAction::SendKeyShare { seq } => {
                self.next = Some(None);
                Some(KeyShareMsg::KeyShare { seq, sender_key: self.sender_key })
            }
            KeyShareAction::Finish { sender_key } => {
                self.outcome = Some(Ok(sender_key));
                None
            }
            KeyShareAction::Fail(e) => {
                self.outcome = Some(Err(e));
                None
            }
        }
    }
}

fn run(a: &mut Side, b: &mut Side) {
    for _ in 0..100 {
        if let Some(m) = a.turn() {
            b.inbox.push_back(m);
        }
        if let Some(m) = b.turn() {
            a.inbox.push_back(m);
        }
        if a.outcome.is_some() && b.outcome.is_some() {
            return;
        }
    }
}

#[test]
fn two_members_exchange_sender_keys() {
    let a_sk = SigningKey::from_bytes(&[1; 32]);
    let b_sk = SigningKey::from_bytes(&[2; 32]);
    let a_pk = a_sk.verifying_key().to_bytes();
    let b_pk = b_sk.verifying_key().to_bytes();
    let mut a = Side::new(a_sk, b_pk, [0xA1; 32], [0x11; 32]);
    let mut b = Side::new(b_sk, a_pk, [0xB2; 32], [0x22; 32]);
    run(&mut a, &mut b);
    assert_eq!(a.outcome, Some(Ok([0xB2; 32])));
    assert_eq!(b.outcome, Some(Ok([0xA1; 32])));
}

#[test]
fn a_peer_that_is_not_the_author_is_refused() {
    let a_sk = SigningKey::from_bytes(&[1; 32]);
    let b_sk = SigningKey::from_bytes(&[2; 32]);
    let expected_author = SigningKey::from_bytes(&[3; 32]).verifying_key().to_bytes();
    let a_pk = a_sk.verifying_key().to_bytes();
    let mut a = Side::new(a_sk, expected_author, [0xA1; 32], [0x11; 32]);
    let mut b = Side::new(b_sk, a_pk, [0xB2; 32], [0x22; 32]);
    run(&mut a, &mut b);
    assert_eq!(a.outcome, Some(Err(KeyShareError::UnexpectedIdentity)));
}

fn lead_until_response(author: [u8; 32]) -> KeyShareSession {
    // [0xFF; 32] is the largest identity, so this side leads.
    let mut s = KeyShareSession::new([0xFF; 32], author, [0x11; 32], DOMAIN.to_vec());
    assert_eq!(s.step(None), KeyShareAction::SendInit);
    assert_eq!(s.step(None), KeyShareAction::Receive);
    assert_eq!(
        s.step(Some(KeyShareMsg::Init { party: author, key_share: true })),
        KeyShareAction::SendChallenge { seq: 0, challenge: [0x11; 32] }
    );
    assert_eq!(s.step(None), KeyShareAction::Receive);
    s
}

#[test]
fn an_impostor_fails_authentication_and_gets_no_key() {
    let author_sk = SigningKey::from_bytes(&[2; 32]);
    let author = author_sk.verifying_key().to_bytes();
    let impostor_sk = SigningKey::from_bytes(&[9; 32]);
    let mut s = lead_until_response(author);
    let payload = s.challenge_payload(&[0x11; 32]);
    let forged = impostor_sk.sign(&payload).to_bytes();
    assert_eq!(
        s.step(Some(KeyShareMsg::ChallengeResponse { seq: 0, signature: forged })),
        KeyShareAction::Fail(KeyShareError::PeerNotAuthenticated)
    );
    assert_eq!(s.step(None), KeyShareAction::Fail(KeyShareError::Finished));
}

#[test]
fn the_leader_sends_its_key_only_after_the_peer_proved_itself() {
    let author_sk = SigningKey::from_bytes(&[2; 32]);
    let author = author_sk.verifying_key().to_bytes();
    let mut s = lead_until_response(author);
    let payload = s.challenge_payload(&[0x11; 32]);
    let genuine = author_sk.sign(&payload).to_bytes();
    assert_eq!(s.step(Some(KeyShareMsg::ChallengeResponse { seq: 0, signature: genuine })), KeyShareAction::Receive);
    assert_eq!(
        s.step(Some(KeyShareMsg::Challenge { seq: 1, challenge: [0x22; 32] })),
        KeyShareAction::SendResponse { seq: 1, challenge: [0x22; 32] }
    );
    assert_eq!(s.step(None), KeyShareAction::SendKeyShare { seq: 2 });
    assert_eq!(s.step(None), KeyShareAction::Receive);
    assert_eq!(
        s.step(Some(KeyShareMsg::KeyShare { seq: 2, sender_key: [0x5E; 32] })),
        KeyShareAction::Finish { sender_key: [0x5E; 32] }
    );
}

#[test]
fn sequence_and_order_are_enforced() {
    let me = [0xFF; 32];
    let author = [0x01; 32];
    // We hold the larger identity, so we lead.
    let mut s = KeyShareSession::new(me, author, [7; 32], DOMAIN.to_vec());
    assert_eq!(s.step(None), KeyShareAction::SendInit);
    assert_eq!(s.step(None), KeyShareAction::Receive);
    assert_eq!(
        s.step(Some(KeyShareMsg::Init { party: author, key_share: true })),
        KeyShareAction::SendChallenge { seq: 0, challenge: [7; 32] }
    );
    assert_eq!(s.step(None), KeyShareAction::Receive);
    assert_eq!(
        s.step(Some(KeyShareMsg::ChallengeResponse { seq: 1, signature: [0; 64] })),
        KeyShareAction::Fail(KeyShareError::UnexpectedSequence)
    );
    assert_eq!(s.step(None), KeyShareAction::Fail(KeyShareError::Finished));

    let mut t = KeyShareSession::new([0x00; 32], author, [7; 32], DOMAIN.to_vec());
    assert_eq!(t.step(Some(KeyShareMsg::Other)), KeyShareAction::Fail(KeyShareError::OutOfTurn));
    let mut u = KeyShareSession::new([0x00; 32], author, [7; 32], DOMAIN.to_vec());
    u.step(None);
    u.step(None);
    assert_eq!(u.step(Some(KeyShareMsg::Closed)), KeyShareAction::Fail(KeyShareError::Closed));
    let mut v = KeyShareSession::new([0x00; 32], author, [7; 32], DOMAIN.to_vec());
    v.step(None);
    v.step(None);
    assert_eq!(
        v.step(Some(KeyShareMsg::Init { party: author, key_share: false })),
        KeyShareAction::Fail(KeyShareError::UnexpectedMessage)
    );
}

#[test]
fn the_signed_payload_is_domain_then_challenge() {
    let s = KeyShareSession::new([1; 32], [2; 32], [3; 32], b"dom".to_vec());
    let mut expected = b"dom".to_vec();
    expected.extend_from_slice(&[9u8; 32]);
    assert_eq!(s.challenge_payload(&[9; 32]), expected);
}
