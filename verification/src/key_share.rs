//! The mutually authenticated exchange of sender keys between this node and
//! the author of a delta it cannot decrypt.
//!
//! Both sides open with `Init { KeyShare }`. The side whose identity key is
//! the larger byte string leads: it sends a challenge, checks the peer's
//! signature over `domain ++ challenge`, answers the peer's challenge, sends
//! its sender key and takes the peer's. The other side mirrors it: it answers
//! first, then challenges, and sends its key only after receiving the
//! peer's. Sequence ids count each side's messages from zero.
//!
//! The session is a state machine: [`KeyShareSession::step`] takes what the
//! previous action produced (`None` after a send, the received message after
//! a receive) and returns the next action. Sending, receiving, signing and
//! storing the key are the caller's.
use vstd::prelude::*;

use crate::bytes::{bytes32_eq, bytes32_lt, seq_lt};
use crate::crypto::{ed25519_signature_valid, ed25519_verify};

verus! {

/// A message received from the peer, as far as the exchange reads it.
#[derive(Debug, PartialEq, Eq, Clone, Copy)]
pub enum KeyShareMsg {
    /// The stream closed.
    Closed,
    /// An `Init`; `key_share` tells whether its payload is `KeyShare`.
    Init { party: [u8; 32], key_share: bool },
    Challenge { seq: usize, challenge: [u8; 32] },
    ChallengeResponse { seq: usize, signature: [u8; 64] },
    KeyShare { seq: usize, sender_key: [u8; 32] },
    /// Anything else.
    Other,
}

/// Why the exchange stopped short.
#[derive(Debug, PartialEq, Eq, Clone, Copy)]
pub enum KeyShareError {
    /// The stream closed mid-exchange.
    Closed,
    /// Another message than the one the exchange is at.
    UnexpectedMessage,
    /// The peer answered as another identity than the delta's author.
    UnexpectedIdentity,
    /// A message carried the wrong sequence id.
    UnexpectedSequence,
    /// The peer's signature over our challenge does not verify.
    PeerNotAuthenticated,
    /// `step` was given a message when none was awaited, or none when one was.
    OutOfTurn,
    /// The exchange is over.
    Finished,
}

/// What the caller does next.
#[derive(Debug, PartialEq, Eq, Clone, Copy)]
pub enum KeyShareAction {
    /// Send `Init { KeyShare }` as our identity.
    SendInit,
    /// Receive the peer's next message.
    Receive,
    /// Send `Challenge { challenge }` with this sequence id.
    SendChallenge { seq: usize, challenge: [u8; 32] },
    /// Sign [`KeyShareSession::challenge_payload`] of `challenge` with our
    /// identity key and send it as `ChallengeResponse` with this sequence id.
    SendResponse { seq: usize, challenge: [u8; 32] },
    /// Send our sender key as `KeyShare` with this sequence id.
    SendKeyShare { seq: usize },
    /// Store `sender_key` as the peer's; the exchange succeeded.
    Finish { sender_key: [u8; 32] },
    /// The exchange failed.
    Fail(KeyShareError),
}

/// Where the exchange stands.
#[derive(Debug, PartialEq, Eq, Structural, Clone, Copy)]
pub enum KeySharePhase {
    Start,
    InitSent,
    AwaitAck,
    LeadChallengeSent,
    LeadAwaitResponse,
    LeadAwaitChallenge,
    LeadResponseSent,
    LeadKeySent,
    LeadAwaitKey,
    FollowAwaitChallenge,
    FollowResponseSent,
    FollowChallengeSent,
    FollowAwaitResponse,
    FollowAwaitKey,
    FollowKeySent,
    Done,
    Failed,
}

/// The state of an exchange.
pub struct KeyShareState {
    pub phase: KeySharePhase,
    pub our_identity: [u8; 32],
    pub author: [u8; 32],
    /// Our challenge.
    pub challenge: [u8; 32],
    /// The challenge domain prefix.
    pub domain: Seq<u8>,
    /// The peer's sender key, once received.
    pub peer_key: [u8; 32],
    /// The peer's signature over our challenge, once it verified.
    pub proof: Option<[u8; 64]>,
}

/// The peer proved it holds the author's identity key: its signature over
/// `domain ++ challenge` verified under the author's key.
pub open spec fn peer_authenticated(s: KeyShareState) -> bool {
    s.proof matches Some(sig) && ed25519_signature_valid(s.author@, s.domain + s.challenge@, sig@)
}

/// Whether this node leads: its identity is the larger byte string.
pub open spec fn leads(s: KeyShareState) -> bool {
    seq_lt(s.author@, s.our_identity@)
}

/// `s` moved to `phase`.
pub open spec fn moved(s: KeyShareState, phase: KeySharePhase) -> KeyShareState {
    KeyShareState { phase, ..s }
}

/// The failure `e`.
pub open spec fn failed(s: KeyShareState, e: KeyShareError) -> (KeyShareState, KeyShareAction) {
    (moved(s, KeySharePhase::Failed), KeyShareAction::Fail(e))
}

/// Whether `phase` waits for a message.
pub open spec fn receiving(phase: KeySharePhase) -> bool {
    match phase {
        KeySharePhase::AwaitAck | KeySharePhase::LeadAwaitResponse
        | KeySharePhase::LeadAwaitChallenge | KeySharePhase::LeadAwaitKey
        | KeySharePhase::FollowAwaitChallenge | KeySharePhase::FollowAwaitResponse
        | KeySharePhase::FollowAwaitKey => true,
        _ => false,
    }
}

/// One step of the exchange from `s` given what the previous action
/// produced.
pub open spec fn key_share_next(s: KeyShareState, input: Option<KeyShareMsg>) -> (
    KeyShareState,
    KeyShareAction,
) {
    if s.phase == KeySharePhase::Done || s.phase == KeySharePhase::Failed {
        (s, KeyShareAction::Fail(KeyShareError::Finished))
    } else if receiving(s.phase) != (input is Some) {
        failed(s, KeyShareError::OutOfTurn)
    } else {
        match input {
            None => match s.phase {
                KeySharePhase::Start => (moved(s, KeySharePhase::InitSent), KeyShareAction::SendInit),
                KeySharePhase::InitSent => (moved(s, KeySharePhase::AwaitAck), KeyShareAction::Receive),
                KeySharePhase::LeadChallengeSent => (
                    moved(s, KeySharePhase::LeadAwaitResponse),
                    KeyShareAction::Receive,
                ),
                KeySharePhase::LeadResponseSent => (
                    moved(s, KeySharePhase::LeadKeySent),
                    KeyShareAction::SendKeyShare { seq: 2 },
                ),
                KeySharePhase::LeadKeySent => (
                    moved(s, KeySharePhase::LeadAwaitKey),
                    KeyShareAction::Receive,
                ),
                KeySharePhase::FollowResponseSent => (
                    moved(s, KeySharePhase::FollowChallengeSent),
                    KeyShareAction::SendChallenge { seq: 1, challenge: s.challenge },
                ),
                KeySharePhase::FollowChallengeSent => (
                    moved(s, KeySharePhase::FollowAwaitResponse),
                    KeyShareAction::Receive,
                ),
                _ => (moved(s, KeySharePhase::Done), KeyShareAction::Finish {
                    sender_key: s.peer_key,
                }),
            },
            Some(KeyShareMsg::Closed) => failed(s, KeyShareError::Closed),
            Some(msg) => match (s.phase, msg) {
                (KeySharePhase::AwaitAck, KeyShareMsg::Init { party, key_share: true }) => {
                    if party@ != s.author@ {
                        failed(s, KeyShareError::UnexpectedIdentity)
                    } else if leads(s) {
                        (
                            moved(s, KeySharePhase::LeadChallengeSent),
                            KeyShareAction::SendChallenge {
                                seq: 0,
                                challenge: s.challenge,
                            },
                        )
                    } else {
                        (moved(s, KeySharePhase::FollowAwaitChallenge), KeyShareAction::Receive)
                    }
                },
                (KeySharePhase::LeadAwaitResponse, KeyShareMsg::ChallengeResponse { seq, signature }) =>
                response_step(s, seq, signature, 0, KeySharePhase::LeadAwaitChallenge),
                (KeySharePhase::FollowAwaitResponse, KeyShareMsg::ChallengeResponse { seq, signature }) =>
                response_step(s, seq, signature, 1, KeySharePhase::FollowAwaitKey),
                (KeySharePhase::LeadAwaitChallenge, KeyShareMsg::Challenge { seq, challenge }) => {
                    if seq != 1 {
                        failed(s, KeyShareError::UnexpectedSequence)
                    } else {
                        (
                            moved(s, KeySharePhase::LeadResponseSent),
                            KeyShareAction::SendResponse { seq: 1, challenge },
                        )
                    }
                },
                (KeySharePhase::FollowAwaitChallenge, KeyShareMsg::Challenge { seq, challenge }) => {
                    if seq != 0 {
                        failed(s, KeyShareError::UnexpectedSequence)
                    } else {
                        (
                            moved(s, KeySharePhase::FollowResponseSent),
                            KeyShareAction::SendResponse { seq: 0, challenge },
                        )
                    }
                },
                (KeySharePhase::LeadAwaitKey, KeyShareMsg::KeyShare { seq, sender_key }) => {
                    if seq != 2 {
                        failed(s, KeyShareError::UnexpectedSequence)
                    } else {
                        (
                            KeyShareState { phase: KeySharePhase::Done, peer_key: sender_key, ..s },
                            KeyShareAction::Finish { sender_key },
                        )
                    }
                },
                (KeySharePhase::FollowAwaitKey, KeyShareMsg::KeyShare { seq, sender_key }) => {
                    if seq != 2 {
                        failed(s, KeyShareError::UnexpectedSequence)
                    } else {
                        (
                            KeyShareState {
                                phase: KeySharePhase::FollowKeySent,
                                peer_key: sender_key,
                                ..s
                            },
                            KeyShareAction::SendKeyShare { seq: 2 },
                        )
                    }
                },
                _ => failed(s, KeyShareError::UnexpectedMessage),
            },
        }
    }
}

/// The step on the peer's challenge response: the expected sequence id, and
/// a signature that verifies under the author's key over our challenge.
pub open spec fn response_step(
    s: KeyShareState,
    seq: usize,
    signature: [u8; 64],
    expected: usize,
    next: KeySharePhase,
) -> (KeyShareState, KeyShareAction) {
    if seq != expected {
        failed(s, KeyShareError::UnexpectedSequence)
    } else if !ed25519_signature_valid(s.author@, s.domain + s.challenge@, signature@) {
        failed(s, KeyShareError::PeerNotAuthenticated)
    } else {
        (KeyShareState { phase: next, proof: Some(signature), ..s }, KeyShareAction::Receive)
    }
}

/// What holds in every phase: from the moment the peer's response is
/// checked on, the peer is authenticated.
pub open spec fn key_share_inv(s: KeyShareState) -> bool {
    match s.phase {
        KeySharePhase::LeadAwaitChallenge | KeySharePhase::LeadResponseSent
        | KeySharePhase::LeadKeySent | KeySharePhase::LeadAwaitKey
        | KeySharePhase::FollowAwaitKey | KeySharePhase::FollowKeySent | KeySharePhase::Done =>
            peer_authenticated(s),
        _ => true,
    }
}

/// An exchange in progress.
pub struct KeyShareSession {
    phase: KeySharePhase,
    our_identity: [u8; 32],
    author: [u8; 32],
    challenge: [u8; 32],
    domain: Vec<u8>,
    peer_key: [u8; 32],
    proof: Option<[u8; 64]>,
}

impl KeyShareSession {
    /// The state of the exchange.
    pub closed spec fn state(&self) -> KeyShareState {
        KeyShareState {
            phase: self.phase,
            our_identity: self.our_identity,
            author: self.author,
            challenge: self.challenge,
            domain: self.domain@,
            peer_key: self.peer_key,
            proof: self.proof,
        }
    }

    /// A new exchange, as `our_identity`, with the delta author `author`,
    /// using `challenge` (random, the caller's) as our challenge and `domain`
    /// as the challenge prefix.
    pub fn new(our_identity: [u8; 32], author: [u8; 32], challenge: [u8; 32], domain: Vec<u8>) -> (s:
        Self)
        ensures
            s.state().phase == KeySharePhase::Start,
            s.state().our_identity == our_identity,
            s.state().author == author,
            s.state().challenge == challenge,
            s.state().domain == domain@,
            s.state().proof is None,
            key_share_inv(s.state()),
    {
        let s = KeyShareSession {
            phase: KeySharePhase::Start,
            our_identity,
            author,
            challenge,
            domain,
            peer_key: [0u8; 32],
            proof: None,
        };
        s
    }

    /// The bytes signed to answer `challenge`: the domain, then the challenge.
    pub fn challenge_payload(&self, challenge: &[u8; 32]) -> (res: Vec<u8>)
        ensures
            res@ == self.state().domain + challenge@,
    {
        let mut out: Vec<u8> = Vec::new();
        let mut i: usize = 0;
        while i < self.domain.len()
            invariant
                i <= self.domain@.len(),
                out@ == self.domain@.subrange(0, i as int),
            decreases self.domain@.len() - i,
        {
            out.push(self.domain[i]);
            i = i + 1;
            assert(out@ =~= self.domain@.subrange(0, i as int));
        }
        let mut j: usize = 0;
        while j < 32
            invariant
                j <= 32,
                challenge@.len() == 32,
                out@ == self.domain@ + challenge@.subrange(0, j as int),
            decreases 32 - j,
        {
            out.push(challenge[j]);
            j = j + 1;
            assert(out@ =~= self.domain@ + challenge@.subrange(0, j as int));
        }
        assert(challenge@.subrange(0, 32) =~= challenge@);
        out
    }

    fn fail(&mut self, e: KeyShareError) -> (a: KeyShareAction)
        ensures
            (final(self).state(), a) == failed(old(self).state(), e),
    {
        self.phase = KeySharePhase::Failed;
        KeyShareAction::Fail(e)
    }

    fn go(&mut self, phase: KeySharePhase, a: KeyShareAction) -> (res: KeyShareAction)
        ensures
            final(self).state() == moved(old(self).state(), phase),
            res == a,
    {
        self.phase = phase;
        a
    }

    fn on_response(&mut self, seq: usize, signature: [u8; 64], expected: usize, next: KeySharePhase) -> (a:
        KeyShareAction)
        ensures
            (final(self).state(), a) == response_step(old(self).state(), seq, signature, expected, next),
    {
        if seq != expected {
            return self.fail(KeyShareError::UnexpectedSequence);
        }
        let payload = self.challenge_payload(&self.challenge);
        if !ed25519_verify(&self.author, payload.as_slice(), &signature) {
            return self.fail(KeyShareError::PeerNotAuthenticated);
        }
        self.proof = Some(signature);
        self.phase = next;
        KeyShareAction::Receive
    }

    /// Advance the exchange (see [`key_share_next`]).
    pub fn step(&mut self, input: Option<KeyShareMsg>) -> (a: KeyShareAction)
        ensures
            (final(self).state(), a) == key_share_next(old(self).state(), input),
    {
        if self.phase == KeySharePhase::Done || self.phase == KeySharePhase::Failed {
            return KeyShareAction::Fail(KeyShareError::Finished);
        }
        let awaiting = match self.phase {
            KeySharePhase::AwaitAck | KeySharePhase::LeadAwaitResponse
            | KeySharePhase::LeadAwaitChallenge | KeySharePhase::LeadAwaitKey
            | KeySharePhase::FollowAwaitChallenge | KeySharePhase::FollowAwaitResponse
            | KeySharePhase::FollowAwaitKey => true,
            _ => false,
        };
        if awaiting != input.is_some() {
            return self.fail(KeyShareError::OutOfTurn);
        }
        match input {
            None => match self.phase {
                KeySharePhase::Start => self.go(KeySharePhase::InitSent, KeyShareAction::SendInit),
                KeySharePhase::InitSent => self.go(KeySharePhase::AwaitAck, KeyShareAction::Receive),
                KeySharePhase::LeadChallengeSent => self.go(
                    KeySharePhase::LeadAwaitResponse,
                    KeyShareAction::Receive,
                ),
                KeySharePhase::LeadResponseSent => self.go(
                    KeySharePhase::LeadKeySent,
                    KeyShareAction::SendKeyShare { seq: 2 },
                ),
                KeySharePhase::LeadKeySent => self.go(
                    KeySharePhase::LeadAwaitKey,
                    KeyShareAction::Receive,
                ),
                KeySharePhase::FollowResponseSent => {
                    let c = self.challenge;
                    self.go(
                        KeySharePhase::FollowChallengeSent,
                        KeyShareAction::SendChallenge { seq: 1, challenge: c },
                    )
                },
                KeySharePhase::FollowChallengeSent => self.go(
                    KeySharePhase::FollowAwaitResponse,
                    KeyShareAction::Receive,
                ),
                _ => {
                    let k = self.peer_key;
                    self.go(KeySharePhase::Done, KeyShareAction::Finish { sender_key: k })
                },
            },
            Some(KeyShareMsg::Closed) => self.fail(KeyShareError::Closed),
            Some(msg) => match (self.phase, msg) {
                (KeySharePhase::AwaitAck, KeyShareMsg::Init { party, key_share: true }) => {
                    if !bytes32_eq(&party, &self.author) {
                        self.fail(KeyShareError::UnexpectedIdentity)
                    } else if bytes32_lt(&self.author, &self.our_identity) {
                        let c = self.challenge;
                        self.go(
                            KeySharePhase::LeadChallengeSent,
                            KeyShareAction::SendChallenge { seq: 0, challenge: c },
                        )
                    } else {
                        self.go(KeySharePhase::FollowAwaitChallenge, KeyShareAction::Receive)
                    }
                },
                (KeySharePhase::LeadAwaitResponse, KeyShareMsg::ChallengeResponse { seq, signature }) =>
                self.on_response(seq, signature, 0, KeySharePhase::LeadAwaitChallenge),
                (KeySharePhase::FollowAwaitResponse, KeyShareMsg::ChallengeResponse { seq, signature }) =>
                self.on_response(seq, signature, 1, KeySharePhase::FollowAwaitKey),
                (KeySharePhase::LeadAwaitChallenge, KeyShareMsg::Challenge { seq, challenge }) => {
                    if seq != 1 {
                        self.fail(KeyShareError::UnexpectedSequence)
                    } else {
                        self.go(
                            KeySharePhase::LeadResponseSent,
                            KeyShareAction::SendResponse { seq: 1, challenge },
                        )
                    }
                },
                (KeySharePhase::FollowAwaitChallenge, KeyShareMsg::Challenge { seq, challenge }) => {
                    if seq != 0 {
                        self.fail(KeyShareError::UnexpectedSequence)
                    } else {
                        self.go(
                            KeySharePhase::FollowResponseSent,
                            KeyShareAction::SendResponse { seq: 0, challenge },
                        )
                    }
                },
                (KeySharePhase::LeadAwaitKey, KeyShareMsg::KeyShare { seq, sender_key }) => {
                    if seq != 2 {
                        self.fail(KeyShareError::UnexpectedSequence)
                    } else {
                        self.peer_key = sender_key;
                        self.phase = KeySharePhase::Done;
                        KeyShareAction::Finish { sender_key }
                    }
                },
                (KeySharePhase::FollowAwaitKey, KeyShareMsg::KeyShare { seq, sender_key }) => {
                    if seq != 2 {
                        self.fail(KeyShareError::UnexpectedSequence)
                    } else {
                        self.peer_key = sender_key;
                        self.phase = KeySharePhase::FollowKeySent;
                        KeyShareAction::SendKeyShare { seq: 2 }
                    }
                },
                _ => self.fail(KeyShareError::UnexpectedMessage),
            },
        }
    }
}

/// Every step keeps [`key_share_inv`].
pub proof fn lemma_key_share_step_keeps_inv(s: KeyShareState, input: Option<KeyShareMsg>)
    requires
        key_share_inv(s),
    ensures
        key_share_inv(key_share_next(s, input).0),
{
}

/// Our sender key is sent, and the peer's key accepted, only once the peer
/// proved it holds the author's identity key: its signature over our
/// challenge verified under the author's key.
pub proof fn lemma_keys_move_only_after_authentication(
    s: KeyShareState,
    input: Option<KeyShareMsg>,
)
    requires
        key_share_inv(s),
    ensures
        (key_share_next(s, input).1 is SendKeyShare || key_share_next(s, input).1 is Finish)
            ==> peer_authenticated(key_share_next(s, input).0),
{
}

} // verus!
