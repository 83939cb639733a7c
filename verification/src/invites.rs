//! The inviting side of the specialized-node invite protocol.
//!
//! A member that broadcast a discovery with a nonce keeps the nonce as a
//! pending invite for one context. The first specialized node whose
//! verification request names the nonce claims it; while its claim is
//! younger than [`INVITE_CLAIM_TTL_MS`], other requests for the nonce are
//! refused. A failed verification hands the nonce back, and the invitee's
//! join confirmation retires it.
use vstd::prelude::*;

use crate::bytes::bytes32_eq;
use crate::keyed::{index_of_key, keys_distinct, lemma_index_of_absent, lemma_index_of_key,
    lemma_index_of_present};

verus! {

/// How long a claim on a nonce blocks other claimants.
pub const INVITE_CLAIM_TTL_MS: u64 = 60_000;

/// The state of one pending invite.
#[derive(Debug, PartialEq, Eq, Clone, Copy)]
pub enum InviteState {
    /// Waiting for a verification request.
    Pending,
    /// Claimed by `invitee` at `claimed_at_ms`; waiting for its join
    /// confirmation.
    AwaitingConfirmation { invitee: [u8; 32], claimed_at_ms: u64 },
}

/// One pending invite: the context it is for, who invites, and its state.
#[derive(Debug, PartialEq, Eq, Clone, Copy)]
pub struct PendingInvite {
    pub context_id: [u8; 32],
    pub inviter_id: [u8; 32],
    pub state: InviteState,
}

/// Why a verification request's claim was refused.
#[derive(Debug, PartialEq, Eq, Clone, Copy)]
pub enum InviteClaimError {
    /// No invite is pending for the nonce.
    UnknownNonce,
    /// Another node holds a claim younger than the TTL.
    InProgress,
}

/// The message the inviting node answers with for each refusal.
pub open spec fn invite_refusal_text(e: InviteRefusal) -> Seq<char> {
    match e {
        InviteRefusal::UnknownNonce => "Unknown nonce - no pending invite request"@,
        InviteRefusal::InProgress => "Invite already in progress - please wait for TTL expiry"@,
        InviteRefusal::MockNotAccepted => "Mock TEE attestation not accepted in this environment"@,
        InviteRefusal::AttestationInvalid => "Attestation verification failed"@,
        InviteRefusal::VerifierError { mock: true } => "Mock attestation verification failed"@,
        InviteRefusal::VerifierError { mock: false } => "Attestation verification failed"@,
    }
}

/// Why a verification request got no invitation.
#[derive(Debug, PartialEq, Eq, Clone, Copy)]
pub enum InviteRefusal {
    UnknownNonce,
    InProgress,
    /// A mock attestation where mocks are not accepted.
    MockNotAccepted,
    /// The attestation did not verify.
    AttestationInvalid,
    /// The (mock) attestation verifier itself failed; the caller appends
    /// its error to the message.
    VerifierError { mock: bool },
}

impl InviteRefusal {
    /// The refusal's message.
    pub fn text(&self) -> (s: &'static str)
        ensures
            s@ == invite_refusal_text(*self),
    {
        match self {
            InviteRefusal::UnknownNonce => "Unknown nonce - no pending invite request",
            InviteRefusal::InProgress => "Invite already in progress - please wait for TTL expiry",
            InviteRefusal::MockNotAccepted => "Mock TEE attestation not accepted in this environment",
            InviteRefusal::AttestationInvalid => "Attestation verification failed",
            InviteRefusal::VerifierError { mock } => {
                if *mock {
                    "Mock attestation verification failed"
                } else {
                    "Attestation verification failed"
                }
            },
        }
    }
}

/// A state accepts a verification request: pending, or claimed at least a
/// TTL ago (a clock that went backwards counts as no time elapsed).
pub open spec fn claimable(state: InviteState, now_ms: u64) -> bool {
    match state {
        InviteState::Pending => true,
        InviteState::AwaitingConfirmation { claimed_at_ms, .. } => now_ms >= claimed_at_ms && now_ms
            - claimed_at_ms >= INVITE_CLAIM_TTL_MS,
    }
}

/// The pending invites, one per nonce.
pub struct PendingInvites {
    rows: Vec<([u8; 32], PendingInvite)>,
}

spec fn invite_keys(rows: Seq<([u8; 32], PendingInvite)>) -> Seq<Seq<u8>> {
    rows.map_values(|r: ([u8; 32], PendingInvite)| r.0@)
}

impl PendingInvites {
    /// The invite pending for `nonce`.
    pub closed spec fn invite_of(&self, nonce: Seq<u8>) -> Option<PendingInvite> {
        let i = index_of_key(invite_keys(self.rows@), nonce);
        if i >= 0 {
            Some(self.rows@[i].1)
        } else {
            None
        }
    }

    /// One invite per nonce.
    pub closed spec fn wf(&self) -> bool {
        keys_distinct(invite_keys(self.rows@))
    }

    /// No invites.
    pub fn new() -> (t: Self)
        ensures
            t.wf(),
            forall|n: Seq<u8>| t.invite_of(n) is None,
    {
        let t = PendingInvites { rows: Vec::new() };
        assert forall|n: Seq<u8>| t.invite_of(n) is None by {
            lemma_index_of_absent(invite_keys(t.rows@), n);
        }
        t
    }

    fn find(&self, nonce: &[u8; 32]) -> (res: Option<usize>)
        requires
            self.wf(),
        ensures
            match res {
                Some(i) => i < self.rows@.len() && index_of_key(invite_keys(self.rows@), nonce@)
                    == i,
                None => index_of_key(invite_keys(self.rows@), nonce@) == -1,
            },
    {
        let mut i: usize = 0;
        while i < self.rows.len()
            invariant
                self.wf(),
                i <= self.rows@.len(),
                forall|j: int| 0 <= j < i ==> invite_keys(self.rows@)[j] != nonce@,
            decreases self.rows@.len() - i,
        {
            if bytes32_eq(&self.rows[i].0, nonce) {
                proof {
                    lemma_index_of_key(invite_keys(self.rows@), nonce@, i as int);
                }
                return Some(i);
            }
            i = i + 1;
        }
        proof {
            lemma_index_of_absent(invite_keys(self.rows@), nonce@);
        }
        None
    }

    /// Replace the invite at position `i` (same nonce).
    fn replace_at(&mut self, i: usize, invite: PendingInvite)
        requires
            old(self).wf(),
            i < old(self).rows@.len(),
        ensures
            final(self).wf(),
            final(self).invite_of(old(self).rows@[i as int].0@) == Some(invite),
            forall|k: Seq<u8>|
                k != old(self).rows@[i as int].0@ ==> final(self).invite_of(k) == old(
                    self,
                ).invite_of(k),
    {
        let ghost old_rows = self.rows@;
        let nonce = self.rows[i].0;
        self.rows.set(i, (nonce, invite));
        proof {
            let nk = invite_keys(self.rows@);
            let ok = invite_keys(old_rows);
            assert(nk =~= ok);
            lemma_index_of_key(nk, nonce@, i as int);
        }
    }

    /// Record a pending invite for `nonce` (replacing any earlier one).
    pub fn register(&mut self, nonce: [u8; 32], context_id: [u8; 32], inviter_id: [u8; 32])
        requires
            old(self).wf(),
        ensures
            final(self).wf(),
            final(self).invite_of(nonce@) == Some(
                PendingInvite { context_id, inviter_id, state: InviteState::Pending },
            ),
            forall|k: Seq<u8>| k != nonce@ ==> final(self).invite_of(k) == old(self).invite_of(k),
    {
        let ghost old_rows = self.rows@;
        let invite = PendingInvite { context_id, inviter_id, state: InviteState::Pending };
        match self.find(&nonce) {
            Some(i) => {
                proof {
                    lemma_index_of_present(invite_keys(old_rows), nonce@);
                }
                self.replace_at(i, invite);
            },
            None => {
                self.rows.push((nonce, invite));
                proof {
                    let nk = invite_keys(self.rows@);
                    let ok = invite_keys(old_rows);
                    assert(nk =~= ok.push(nonce@));
                    assert forall|x: int| 0 <= x < ok.len() implies ok[x] != nonce@ by {
                        if ok[x] == nonce@ {
                            assert(exists|y: int| 0 <= y < ok.len() && ok[y] == nonce@);
                        }
                    }
                    lemma_index_of_key(nk, nonce@, ok.len() as int);
                    assert forall|k: Seq<u8>| k != nonce@ implies index_of_key(nk, k) == index_of_key(
                        ok,
                        k,
                    ) by {
                        let oi = index_of_key(ok, k);
                        if oi >= 0 {
                            lemma_index_of_present(ok, k);
                            lemma_index_of_key(nk, k, oi);
                        } else {
                            assert forall|x: int| 0 <= x < nk.len() implies nk[x] != k by {
                                if x < ok.len() && nk[x] == k {
                                    assert(exists|y: int| 0 <= y < ok.len() && ok[y] == k);
                                }
                            }
                            lemma_index_of_absent(nk, k);
                        }
                    }
                }
            },
        }
    }

    /// A verification request from `invitee` names `nonce` at `now_ms`: the
    /// claim succeeds when an invite is pending for the nonce and its state
    /// is claimable; the invite then awaits `invitee`'s confirmation, and the
    /// context and inviter are returned.
    pub fn claim(&mut self, nonce: [u8; 32], invitee: [u8; 32], now_ms: u64) -> (res: Result<
        ([u8; 32], [u8; 32]),
        InviteClaimError,
    >)
        requires
            old(self).wf(),
        ensures
            final(self).wf(),
            forall|k: Seq<u8>| k != nonce@ ==> final(self).invite_of(k) == old(self).invite_of(k),
            match old(self).invite_of(nonce@) {
                None => res == Err::<([u8; 32], [u8; 32]), _>(InviteClaimError::UnknownNonce)
                    && *final(self) == *old(self),
                Some(inv) => if claimable(inv.state, now_ms) {
                    &&& res == Ok::<_, InviteClaimError>((inv.context_id, inv.inviter_id))
                    &&& final(self).invite_of(nonce@) == Some(
                        PendingInvite {
                            state: InviteState::AwaitingConfirmation {
                                invitee,
                                claimed_at_ms: now_ms,
                            },
                            ..inv
                        },
                    )
                } else {
                    res == Err::<([u8; 32], [u8; 32]), _>(InviteClaimError::InProgress)
                        && *final(self) == *old(self)
                },
            },
    {
        let ghost old_rows = self.rows@;
        match self.find(&nonce) {
            None => Err(InviteClaimError::UnknownNonce),
            Some(i) => {
                proof {
                    lemma_index_of_present(invite_keys(old_rows), nonce@);
                }
                let inv = self.rows[i].1;
                let open = match inv.state {
                    InviteState::Pending => true,
                    InviteState::AwaitingConfirmation { claimed_at_ms, .. } => now_ms
                        >= claimed_at_ms && now_ms - claimed_at_ms >= INVITE_CLAIM_TTL_MS,
                };
                if !open {
                    return Err(InviteClaimError::InProgress);
                }
                let claimed = PendingInvite {
                    context_id: inv.context_id,
                    inviter_id: inv.inviter_id,
                    state: InviteState::AwaitingConfirmation { invitee, claimed_at_ms: now_ms },
                };
                self.replace_at(i, claimed);
                Ok((inv.context_id, inv.inviter_id))
            },
        }
    }

    /// Hand a claimed nonce back for another attempt: its invite, if any, is
    /// pending again.
    pub fn reset_to_pending(&mut self, nonce: [u8; 32])
        requires
            old(self).wf(),
        ensures
            final(self).wf(),
            forall|k: Seq<u8>| k != nonce@ ==> final(self).invite_of(k) == old(self).invite_of(k),
            match old(self).invite_of(nonce@) {
                None => final(self).invite_of(nonce@) is None,
                Some(inv) => final(self).invite_of(nonce@) == Some(
                    PendingInvite { state: InviteState::Pending, ..inv },
                ),
            },
    {
        let ghost old_rows = self.rows@;
        match self.find(&nonce) {
            None => {},
            Some(i) => {
                proof {
                    lemma_index_of_present(invite_keys(old_rows), nonce@);
                }
                let inv = self.rows[i].1;
                self.replace_at(
                    i,
                    PendingInvite {
                        context_id: inv.context_id,
                        inviter_id: inv.inviter_id,
                        state: InviteState::Pending,
                    },
                );
            },
        }
    }

    /// The invitee confirmed it joined: retire the nonce, returning the
    /// context it was for (`None` when no invite was pending for it).
    pub fn confirm(&mut self, nonce: [u8; 32]) -> (res: Option<[u8; 32]>)
        requires
            old(self).wf(),
        ensures
            final(self).wf(),
            final(self).invite_of(nonce@) is None,
            forall|k: Seq<u8>| k != nonce@ ==> final(self).invite_of(k) == old(self).invite_of(k),
            res == match old(self).invite_of(nonce@) {
                Some(inv) => Some(inv.context_id),
                None => None,
            },
    {
        let ghost old_rows = self.rows@;
        match self.find(&nonce) {
            None => None,
            Some(i) => {
                let (_, inv) = self.rows.remove(i);
                proof {
                    let nk = invite_keys(self.rows@);
                    let ok = invite_keys(old_rows);
                    lemma_index_of_present(ok, nonce@);
                    assert(nk =~= ok.remove(i as int));
                    assert forall|x: int| 0 <= x < nk.len() implies nk[x] != nonce@ by {
                        if x < i {
                            assert(nk[x] == ok[x]);
                        } else {
                            assert(nk[x] == ok[x + 1]);
                        }
                    }
                    lemma_index_of_absent(nk, nonce@);
                    assert forall|k: Seq<u8>| k != nonce@ implies (index_of_key(nk, k) >= 0) == (
                    index_of_key(ok, k) >= 0) && (index_of_key(nk, k) >= 0 ==> self.rows@[index_of_key(
                        nk,
                        k,
                    )].1 == old_rows[index_of_key(ok, k)].1) by {
                        let oi = index_of_key(ok, k);
                        if oi >= 0 {
                            lemma_index_of_present(ok, k);
                            if oi < i {
                                assert(nk[oi] == k);
                                lemma_index_of_key(nk, k, oi);
                            } else {
                                assert(oi != i);
                                assert(nk[oi - 1] == k);
                                lemma_index_of_key(nk, k, oi - 1);
                            }
                        } else {
                            assert forall|x: int| 0 <= x < nk.len() implies nk[x] != k by {
                                let y = if x < i {
                                    x
                                } else {
                                    x + 1
                                };
                                assert(nk[x] == ok[y]);
                                if ok[y] == k {
                                    assert(exists|z: int| 0 <= z < ok.len() && ok[z] == k);
                                }
                            }
                            lemma_index_of_absent(nk, k);
                        }
                    }
                }
                Some(inv.context_id)
            },
        }
    }
}

/// What the attestation check of a claimed request decided.
#[derive(Debug, PartialEq, Eq, Clone, Copy)]
pub enum AttestationVerdict {
    /// Create the invitation.
    Invite,
    /// Refuse; the nonce goes back to pending.
    Refuse(InviteRefusal),
}

/// After a claim: a mock quote is refused where mocks are not accepted;
/// otherwise the (mock) verifier's answer decides: `Ok(true)` invites,
/// `Ok(false)` is an invalid attestation, `Err` a failed verifier.
pub fn attestation_verdict(is_mock: bool, accept_mock: bool, verified: Result<bool, ()>) -> (v:
    AttestationVerdict)
    ensures
        is_mock && !accept_mock ==> v == AttestationVerdict::Refuse(InviteRefusal::MockNotAccepted),
        !(is_mock && !accept_mock) ==> v == match verified {
            Ok(true) => AttestationVerdict::Invite,
            Ok(false) => AttestationVerdict::Refuse(InviteRefusal::AttestationInvalid),
            Err(()) => AttestationVerdict::Refuse(InviteRefusal::VerifierError { mock: is_mock }),
        },
{
    if is_mock && !accept_mock {
        return AttestationVerdict::Refuse(InviteRefusal::MockNotAccepted);
    }
    match verified {
        Ok(true) => AttestationVerdict::Invite,
        Ok(false) => AttestationVerdict::Refuse(InviteRefusal::AttestationInvalid),
        Err(()) => AttestationVerdict::Refuse(InviteRefusal::VerifierError { mock: is_mock }),
    }
}

/// A node answers a discovery broadcast only when it runs in read-only mode
/// and the discovery asks for a read-only node.
pub fn should_answer_discovery(node_read_only: bool, wanted_read_only: bool) -> (res: bool)
    ensures
        res == (node_read_only && wanted_read_only),
{
    node_read_only && wanted_read_only
}

/// The context to confirm joining, from an invitation response: nothing when
/// the response carries an error, carries no invitation, or its invitation
/// does not decode (`invitation` is `None` when absent, `Some(Err)` when it
/// does not decode), or when this node holds no identity to join with.
pub fn invitation_context(
    has_error: bool,
    invitation: Option<Result<[u8; 32], ()>>,
    has_identity: bool,
) -> (res: Option<[u8; 32]>)
    ensures
        res == (if !has_error && has_identity && invitation matches Some(Ok(_)) {
            Some(invitation->0->Ok_0)
        } else {
            None
        }),
{
    if has_error {
        return None;
    }
    match invitation {
        Some(Ok(context_id)) => {
            if has_identity {
                Some(context_id)
            } else {
                None
            }
        },
        _ => None,
    }
}

/// A claim is exclusive: once a node claimed a nonce at `claimed_at_ms`, a
/// request for the same nonce before the TTL has run out is refused, and one
/// at or after it is accepted.
pub proof fn lemma_claim_is_exclusive_until_ttl(
    invitee: [u8; 32],
    claimed_at_ms: u64,
    now_ms: u64,
)
    ensures
        now_ms < claimed_at_ms + INVITE_CLAIM_TTL_MS ==> !claimable(
            InviteState::AwaitingConfirmation { invitee, claimed_at_ms },
            now_ms,
        ),
        now_ms >= claimed_at_ms + INVITE_CLAIM_TTL_MS ==> claimable(
            InviteState::AwaitingConfirmation { invitee, claimed_at_ms },
            now_ms,
        ),
{
}

} // verus!
