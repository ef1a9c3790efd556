//! Authenticator-wide state and the value types exchanged with the outside
//! collaborators (the PKCS#11 key store and the user-consent prompt).
//!
//! A command handler that needs outside work publishes a [`PendingAction`]
//! of plain values; the caller performs the prompt and the key-store calls
//! and hands back an [`Outcome`], again plain values, which verified code
//! turns into the reply.

use vstd::prelude::*;

verus! {

/// PIN retries available after a reset and at every successful PIN check.
pub const MAX_PIN_RETRIES: u8 = 8;

/// Consecutive wrong PINs in one power cycle that block PIN auth until reboot.
pub const MAX_CONSECUTIVE_WRONG: u8 = 3;

/// Mutable authenticator-wide state: the U2F signature counter and the
/// CTAP2 PIN bookkeeping.
pub struct AuthState {
    /// Monotonic 32-bit U2F signature counter.
    pub counter: u32,
    /// Remaining PIN retries before the authenticator is blocked.
    pub pin_retries: u8,
    /// Consecutive wrong PINs in this power cycle, capped at
    /// `MAX_CONSECUTIVE_WRONG`.
    pub consecutive_wrong: u8,
    /// Whether a client PIN has been set.
    pub pin_set: bool,
}

impl AuthState {
    pub open spec fn wf(self) -> bool {
        &&& self.pin_retries <= MAX_PIN_RETRIES
        &&& self.consecutive_wrong <= MAX_CONSECUTIVE_WRONG
    }

    pub fn new() -> (r: AuthState)
        ensures
            r.wf(),
            r.counter == 0,
            r.pin_retries == MAX_PIN_RETRIES,
            r.consecutive_wrong == 0,
            !r.pin_set,
    {
        AuthState { counter: 0, pin_retries: MAX_PIN_RETRIES, consecutive_wrong: 0, pin_set: false }
    }
}

/// Outside work a command handler has asked for.  All fields are plain
/// values; the caller owes exactly one [`Outcome`] per action.
#[derive(Clone)]
pub enum PendingAction {
    /// U2F REGISTER: confirm presence, then mint a key pair, a key handle
    /// binding it to `application`, and an attestation signature.
    U2fRegister { challenge: Vec<u8>, application: Vec<u8> },
    /// U2F AUTHENTICATE: confirm presence if `user_presence` is 1, validate
    /// the key handle against `application`, then sign `sign_data`.
    /// `counter` is the signature counter baked into `sign_data`.
    U2fSign {
        key_handle: Vec<u8>,
        application: Vec<u8>,
        sign_data: Vec<u8>,
        user_presence: u8,
        counter: u32,
    },
    /// U2F AUTHENTICATE check-only: validate the key handle, no prompt.
    U2fCheckOnly { key_handle: Vec<u8>, application: Vec<u8> },
    /// CTAP2 MakeCredential: verify `pin_auth` (if a PIN is set), refuse
    /// any credential of `exclude_ids` that belongs to this authenticator
    /// and relying party, confirm presence, then mint a credential and
    /// build the authenticator data for it.
    MakeCredential {
        client_data_hash: Vec<u8>,
        rp_id: Vec<u8>,
        exclude_ids: Vec<Vec<u8>>,
        pin_auth: Option<Vec<u8>>,
        sign_counter: u32,
    },
    /// CTAP2 GetAssertion: verify `pin_auth` (if a PIN is set), confirm
    /// presence, pick the first credential of `credential_ids` that
    /// validates for `rp_id`, sign authData plus `client_data_hash`.
    GetAssertion {
        rp_id: Vec<u8>,
        client_data_hash: Vec<u8>,
        credential_ids: Vec<Vec<u8>>,
        pin_auth: Option<Vec<u8>>,
        sign_counter: u32,
    },
    /// CTAP2 ClientPIN getKeyAgreement: the platform key-agreement public key.
    GetKeyAgreement,
    /// CTAP2 ClientPIN setPIN or changePIN: raw CBOR parameter bytes for the
    /// key-agreement and PIN decryption steps.
    SetPin { params: Vec<u8>, change: bool },
    /// CTAP2 ClientPIN getPINToken: the backend decrypts and checks the PIN
    /// hash from the raw CBOR parameter bytes.
    GetPinToken { params: Vec<u8> },
    /// CTAP2 Reset: confirm presence, then clear PIN state.
    Reset,
}

/// The counter value a pending action reserved when it was parsed: it is
/// committed when the action succeeds and released otherwise, so a
/// declined, timed-out or cancelled request leaves the counter where it
/// was.
pub open spec fn spec_reserved_counter(a: PendingAction) -> Option<u32> {
    match a {
        PendingAction::U2fSign { counter, .. } => Some(counter),
        PendingAction::MakeCredential { sign_counter, .. } => Some(sign_counter),
        PendingAction::GetAssertion { sign_counter, .. } => Some(sign_counter),
        _ => None,
    }
}

/// The authenticator state after releasing the action's reserved counter.
pub open spec fn spec_release(auth: AuthState, a: PendingAction) -> AuthState {
    match spec_reserved_counter(a) {
        Some(c) => (AuthState {
            counter: if c >= 1 {
                (c - 1) as u32
            } else {
                0u32
            },
            ..auth
        }),
        None => auth,
    }
}

/// What a command handler hands back to the framer: either a finished
/// reply payload, or a request for outside work.
pub enum Step {
    Reply(Vec<u8>),
    Pending(PendingAction),
}

/// What came back from the prompt and the key store for a pending action.
pub enum Outcome {
    /// The user declined the prompt.
    Denied,
    /// The prompt timed out.
    TimedOut,
    /// The operation is not allowed now (reset long after power-up).
    NotAllowed,
    /// The key store failed.
    Failed,
    /// No offered credential belongs to this authenticator and relying
    /// party.
    NoCredentials,
    /// An excluded credential belongs to this authenticator (reported
    /// after user presence).
    CredentialExcluded,
    /// The request's pinAuth did not verify against the PIN token.
    PinAuthInvalid,
    /// REGISTER succeeded.
    U2fRegistered { public_key: Vec<u8>, key_handle: Vec<u8>, certificate: Vec<u8>, signature: Vec<u8> },
    /// AUTHENTICATE signature over the sign data.
    U2fSigned { signature: Vec<u8> },
    /// Check-only result: whether the key handle belongs to the application.
    U2fChecked { valid: bool },
    /// MakeCredential result: authenticator data and packed attestation.
    CredentialMinted { auth_data: Vec<u8>, signature: Vec<u8>, certificate: Vec<u8> },
    /// GetAssertion result for the selected credential.
    AssertionSigned { credential_id: Vec<u8>, auth_data: Vec<u8>, signature: Vec<u8> },
    /// Key-agreement public key coordinates (P-256, 32 bytes each).
    KeyAgreement { x: Vec<u8>, y: Vec<u8> },
    /// setPIN / changePIN result.
    PinSet { ok: bool },
    /// getPINToken result: whether the PIN matched, and the encrypted token.
    PinChecked { correct: bool, pin_token: Vec<u8> },
    /// Reset completed.
    ResetDone,
}

} // verus!
