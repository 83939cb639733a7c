use node_handlers::invites::{invitation_context, should_answer_discovery};
use node_handlers::invites::{
    attestation_verdict, AttestationVerdict, InviteClaimError, InviteRefusal, PendingInvites,
    INVITE_CLAIM_TTL_MS,
};

const NONCE: [u8; 32] = [0x4E; 32];
const CTX: [u8; 32] = [0xC1; 32];
const INVITER: [u8; 32] = [0x1A; 32];

#[test]
fn the_first_claim_wins_until_the_ttl() {
    let mut t = PendingInvites::new();
    assert_eq!(t.claim(NONCE, [1; 32], 1000), Err(InviteClaimError::UnknownNonce));
    t.register(NONCE, CTX, INVITER);
    assert_eq!(t.claim(NONCE, [1; 32], 1000), Ok((CTX, INVITER)));
    assert_eq!(t.claim(NONCE, [2; 32], 1000 + INVITE_CLAIM_TTL_MS - 1), Err(InviteClaimError::InProgress));
    // A clock that went backwards does not free the claim.
    assert_eq!(t.claim(NONCE, [2; 32], 10), Err(InviteClaimError::InProgress));
    assert_eq!(t.claim(NONCE, [2; 32], 1000 + INVITE_CLAIM_TTL_MS), Ok((CTX, INVITER)));
}

#[test]
fn a_failed_verification_hands_the_nonce_back() {
    let mut t = PendingInvites::new();
    t.register(NONCE, CTX, INVITER);
    assert!(t.claim(NONCE, [1; 32], 1000).is_ok());
    t.reset_to_pending(NONCE);
    assert_eq!(t.claim(NONCE, [2; 32], 1001), Ok((CTX, INVITER)));
    // Resetting an unknown nonce changes nothing.
    t.reset_to_pending([0; 32]);
    assert_eq!(t.claim([0; 32], [2; 32], 1001), Err(InviteClaimError::UnknownNonce));
}

#[test]
fn a_confirmation_retires_the_nonce() {
    let mut t = PendingInvites::new();
    t.register(NONCE, CTX, INVITER);
    t.register([7; 32], [0xC2; 32], INVITER);
    assert_eq!(t.confirm(NONCE), Some(CTX));
    assert_eq!(t.confirm(NONCE), None);
    assert_eq!(t.claim(NONCE, [1; 32], 1000), Err(InviteClaimError::UnknownNonce));
    assert_eq!(t.claim([7; 32], [1; 32], 1000), Ok(([0xC2; 32], INVITER)));
}

#[test]
fn attestation_verdicts_and_messages() {
    assert_eq!(attestation_verdict(true, false, Ok(true)), AttestationVerdict::Refuse(InviteRefusal::MockNotAccepted));
    assert_eq!(attestation_verdict(true, true, Ok(true)), AttestationVerdict::Invite);
    assert_eq!(attestation_verdict(false, false, Ok(false)), AttestationVerdict::Refuse(InviteRefusal::AttestationInvalid));
    assert_eq!(
        attestation_verdict(true, true, Err(())),
        AttestationVerdict::Refuse(InviteRefusal::VerifierError { mock: true })
    );
    assert_eq!(InviteRefusal::UnknownNonce.text(), "Unknown nonce - no pending invite request");
    assert_eq!(InviteRefusal::InProgress.text(), "Invite already in progress - please wait for TTL expiry");
    assert_eq!(InviteRefusal::MockNotAccepted.text(), "Mock TEE attestation not accepted in this environment");
    assert_eq!(InviteRefusal::VerifierError { mock: true }.text(), "Mock attestation verification failed");
}

#[test]
fn discovery_and_invitation_responses() {
    assert!(should_answer_discovery(true, true));
    assert!(!should_answer_discovery(false, true));
    assert!(!should_answer_discovery(true, false));
    assert_eq!(invitation_context(false, Some(Ok(CTX)), true), Some(CTX));
    assert_eq!(invitation_context(true, Some(Ok(CTX)), true), None);
    assert_eq!(invitation_context(false, None, true), None);
    assert_eq!(invitation_context(false, Some(Err(())), true), None);
    assert_eq!(invitation_context(false, Some(Ok(CTX)), false), None);
}
