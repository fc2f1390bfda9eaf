//! The dispatcher state machine: verify-then-route orchestration.
//!
//! A dispatch runs `Received -> ExpirationChecked -> NonceReserved ->
//! SignatureVerified -> Routed -> Completed`, falling into a terminal
//! `Rejected(reason)` from any earlier step. The two external collaborators —
//! the verification authority and the routed target — are outside this
//! library, so the pipeline is exposed as three steps the host drives in
//! order:
//!
//! 1. [`WebAuthnDispatcher::execute_with_webauthn`] runs every gate up to and
//!    including nonce reservation and returns the exact request to put to the
//!    verification authority, carrying the independently derived challenge.
//! 2. [`check_verification`] turns the authority's verdict into either the
//!    routed call to perform under the signer's authority or the rejection.
//! 3. [`complete_dispatch`] returns the target's result verbatim, or wraps
//!    its failure.
//!
//! The nonce is reserved before verification on purpose: a failed
//! verification burns it, so a single nonce cannot be used to brute-force
//! signatures across unlimited attempts. A legitimate signer needs a fresh
//! nonce after any failed attempt.

use vstd::prelude::*;
use crate::errors::DispatchError;
use crate::intent::{
    ContractCallIntent, IntentView, WebAuthnSignature, SignatureView, SUPPORTED_VERSION,
};
use crate::challenge::{challenge_of, compute_challenge};
use crate::expiration::{time_error, check_expiration};
use crate::ledger::{ReplayLedger, copy_bytes};

verus! {

/// The dispatcher's durable state: the verification authority's address, set
/// once at initialization, and the replay ledger it exclusively owns.
pub struct WebAuthnDispatcher {
    verifier: Option<Vec<u8>>,
    ledger: ReplayLedger,
}

/// The mathematical shape of the dispatcher's state.
#[verifier::ext_equal]
pub ghost struct DispatcherView {
    pub verifier: Option<Seq<u8>>,
    pub consumed: Set<(Seq<u8>, Seq<u8>)>,
}

impl View for WebAuthnDispatcher {
    type V = DispatcherView;

    closed spec fn view(&self) -> DispatcherView {
        DispatcherView {
            verifier: match self.verifier {
                Some(v) => Some(v@),
                None => None,
            },
            consumed: self.ledger.consumed(),
        }
    }
}

/// Everything the verification authority is asked with: the signer's proof
/// material, forwarded verbatim, and the challenge the dispatcher derived
/// independently from the intent — never one supplied inside the request.
#[derive(Debug)]
pub struct VerifyRequest {
    /// Address of the verification authority to ask.
    pub verifier_contract: Vec<u8>,
    /// Passkey public key the signature must be valid for.
    pub passkey_public_key: Vec<u8>,
    /// Relying-party identifier hash the authenticator data must match.
    pub rp_id_hash: Vec<u8>,
    /// Authenticator data from the signature bundle.
    pub authenticator_data: Vec<u8>,
    /// Client data from the signature bundle, with the embedded challenge.
    pub client_data_json: Vec<u8>,
    /// The dispatcher-derived challenge the embedded one must equal.
    pub expected_challenge: Vec<u8>,
    /// Raw signature bytes.
    pub signature: Vec<u8>,
}

/// The verification authority's verdict on a [`VerifyRequest`].
#[derive(Clone, Copy, Debug, PartialEq, Eq, Structural)]
pub enum VerifyOutcome {
    /// The signature is valid for the public key and the expected challenge.
    Valid,
    /// The signature does not verify.
    InvalidSignature,
    /// The authenticator or client context bytes could not be parsed.
    MalformedContext,
    /// The challenge embedded in the client context does not equal the
    /// expected challenge.
    ChallengeMismatch,
}

/// The routed call to perform after successful verification, under the
/// authority of the signer — not of the direct caller. This authority
/// substitution is the point of the protocol.
#[derive(Debug)]
pub struct RouteRequest {
    /// Target contract address.
    pub contract_id: Vec<u8>,
    /// Function selector on the target.
    pub fn_name: Vec<u8>,
    /// Ordered opaque call arguments.
    pub args: Vec<Vec<u8>>,
    /// The account under whose authority the call is made.
    pub signer: Vec<u8>,
}

/// The first gate that rejects a dispatch, if any, evaluated in the fixed
/// order: configuration, protocol version, time window, replay ledger.
pub open spec fn gate_error(d: DispatcherView, iv: IntentView, now: u64) -> Option<DispatchError> {
    match d.verifier {
        None => Some(DispatchError::VerifierNotConfigured),
        Some(_) => if iv.v != SUPPORTED_VERSION {
            Some(DispatchError::UnsupportedVersion)
        } else {
            match time_error(iv, now) {
                Some(e) => Some(e),
                None => if d.consumed.contains((iv.signer, iv.nonce)) {
                    Some(DispatchError::AlreadyConsumed)
                } else {
                    None
                },
            }
        },
    }
}

/// The state after a dispatch has reserved an intent's (signer, nonce) pair.
pub open spec fn after_reservation(d: DispatcherView, iv: IntentView) -> DispatcherView {
    DispatcherView { verifier: d.verifier, consumed: d.consumed.insert((iv.signer, iv.nonce)) }
}

/// What a returned verification request holds: the bundle's proof material
/// verbatim, the caller's key and relying-party hash, the configured
/// authority, and the independently derived challenge.
pub open spec fn request_matches(
    d: DispatcherView,
    iv: IntentView,
    sv: SignatureView,
    pk: Seq<u8>,
    rp: Seq<u8>,
    req: VerifyRequest,
) -> bool {
    &&& d.verifier == Some(req.verifier_contract@)
    &&& req.passkey_public_key@ == pk
    &&& req.rp_id_hash@ == rp
    &&& req.authenticator_data@ == sv.authenticator_data
    &&& req.client_data_json@ == sv.client_data_json
    &&& req.signature@ == sv.signature
    &&& req.expected_challenge@ == challenge_of(iv)
}

/// What a routed call holds: the intent's target, selector, arguments and
/// signer, verbatim.
pub open spec fn route_matches(iv: IntentView, route: RouteRequest) -> bool {
    &&& route.contract_id@ == iv.contract_id
    &&& route.fn_name@ == iv.fn_name
    &&& route.args@.map_values(|a: Vec<u8>| a@) == iv.args
    &&& route.signer@ == iv.signer
}

/// The rejection a verification verdict maps to, if any.
pub open spec fn verification_verdict(outcome: VerifyOutcome) -> Option<DispatchError> {
    match outcome {
        VerifyOutcome::Valid => None,
        VerifyOutcome::InvalidSignature => Some(DispatchError::InvalidSignature),
        VerifyOutcome::MalformedContext => Some(DispatchError::MalformedContext),
        VerifyOutcome::ChallengeMismatch => Some(DispatchError::ChallengeMismatch),
    }
}

/// An exact copy of a list of opaque argument values.
fn copy_args(src: &Vec<Vec<u8>>) -> (r: Vec<Vec<u8>>)
    ensures
        r@.len() == src@.len(),
        forall|j: int| 0 <= j < src@.len() ==> #[trigger] r@[j]@ == src@[j]@,
{
    let mut r: Vec<Vec<u8>> = Vec::new();
    let mut i: usize = 0;
    while i < src.len()
        invariant
            i <= src@.len(),
            r@.len() == i,
            forall|j: int| 0 <= j < i ==> #[trigger] r@[j]@ == src@[j]@,
        decreases src@.len() - i,
    {
        r.push(copy_bytes(&src[i]));
        i = i + 1;
    }
    r
}

impl WebAuthnDispatcher {
    /// A fresh dispatcher: no verification authority configured, no nonce
    /// consumed.
    pub fn new() -> (r: Self)
        ensures
            r@.verifier == None::<Seq<u8>>,
            r@.consumed == Set::<(Seq<u8>, Seq<u8>)>::empty(),
    {
        WebAuthnDispatcher { verifier: None, ledger: ReplayLedger::new() }
    }

    /// Set the verification authority's address. The last write wins: the
    /// host restricts who may call this; the dispatcher itself keeps no
    /// separate once-only latch.
    pub fn initialize(&mut self, verifier_contract: Vec<u8>)
        ensures
            final(self)@.verifier == Some(verifier_contract@),
            final(self)@.consumed == old(self)@.consumed,
    {
        self.verifier = Some(verifier_contract);
    }

    /// Pure read: has this (signer, nonce) pair been consumed?
    pub fn is_nonce_used(&self, signer: &Vec<u8>, nonce: &Vec<u8>) -> (r: bool)
        ensures
            r == self@.consumed.contains((signer@, nonce@)),
    {
        self.ledger.is_consumed(signer, nonce)
    }

    /// Run a dispatch up to and including nonce reservation.
    ///
    /// The gates run in the fixed order of [`gate_error`]; the first failure
    /// rejects the dispatch and leaves the state unchanged. When every gate
    /// passes, the (signer, nonce) pair is reserved — before verification, so
    /// that a failed verification still burns it — and the returned request
    /// carries the bundle's proof material together with the challenge
    /// derived independently from the intent's canonical encoding.
    pub fn execute_with_webauthn(
        &mut self,
        intent: &ContractCallIntent,
        webauthn_signature: &WebAuthnSignature,
        passkey_public_key: &Vec<u8>,
        rp_id_hash: &Vec<u8>,
        current_time: u64,
    ) -> (r: Result<VerifyRequest, DispatchError>)
        requires
            intent@.wf(),
        ensures
            old(self)@.consumed.subset_of(final(self)@.consumed),
            match gate_error(old(self)@, intent@, current_time) {
                Some(e) => r == Err::<VerifyRequest, DispatchError>(e) && final(self)@ == old(
                    self,
                )@,
                None => {
                    &&& final(self)@ == after_reservation(old(self)@, intent@)
                    &&& r matches Ok(req) && request_matches(
                        old(self)@,
                        intent@,
                        webauthn_signature@,
                        passkey_public_key@,
                        rp_id_hash@,
                        req,
                    )
                },
            },
    {
        let verifier: Vec<u8> = match &self.verifier {
            Some(v) => copy_bytes(v),
            None => {
                return Err(DispatchError::VerifierNotConfigured);
            },
        };
        if intent.v != SUPPORTED_VERSION {
            return Err(DispatchError::UnsupportedVersion);
        }
        if let Err(e) = check_expiration(intent, current_time) {
            return Err(e);
        }
        if let Err(e) = self.ledger.consume(&intent.signer, &intent.nonce) {
            proof {
                assert(self@ =~= old(self)@);
            }
            return Err(e);
        }
        let challenge = compute_challenge(intent);
        proof {
            assert(self@ =~= after_reservation(old(self)@, intent@));
        }
        Ok(
            VerifyRequest {
                verifier_contract: verifier,
                passkey_public_key: copy_bytes(passkey_public_key),
                rp_id_hash: copy_bytes(rp_id_hash),
                authenticator_data: copy_bytes(&webauthn_signature.authenticator_data),
                client_data_json: copy_bytes(&webauthn_signature.client_data_json),
                expected_challenge: challenge,
                signature: copy_bytes(&webauthn_signature.signature),
            },
        )
    }
}

/// Turn the verification authority's verdict into the routed call or the
/// rejection. Only a `Valid` verdict routes; every other verdict rejects the
/// dispatch with the same-named error.
pub fn check_verification(intent: &ContractCallIntent, outcome: VerifyOutcome) -> (r: Result<
    RouteRequest,
    DispatchError,
>)
    ensures
        match verification_verdict(outcome) {
            Some(e) => r == Err::<RouteRequest, DispatchError>(e),
            None => r matches Ok(route) && route_matches(intent@, route),
        },
{
    match outcome {
        VerifyOutcome::Valid => {
            let route = RouteRequest {
                contract_id: copy_bytes(&intent.contract_id),
                fn_name: copy_bytes(&intent.fn_name),
                args: copy_args(&intent.args),
                signer: copy_bytes(&intent.signer),
            };
            proof {
                assert(route.args@.map_values(|a: Vec<u8>| a@) =~= intent@.args);
            }
            Ok(route)
        },
        VerifyOutcome::InvalidSignature => Err(DispatchError::InvalidSignature),
        VerifyOutcome::MalformedContext => Err(DispatchError::MalformedContext),
        VerifyOutcome::ChallengeMismatch => Err(DispatchError::ChallengeMismatch),
    }
}

/// Return the routed target's result verbatim to the original caller, or
/// surface its failure as `TargetInvocationFailed` with the opaque cause.
pub fn complete_dispatch(target_result: Result<Vec<u8>, u32>) -> (r: Result<
    Vec<u8>,
    DispatchError,
>)
    ensures
        match target_result {
            Ok(bytes) => r == Ok::<Vec<u8>, DispatchError>(bytes),
            Err(code) => r == Err::<Vec<u8>, DispatchError>(
                DispatchError::TargetInvocationFailed(code),
            ),
        },
{
    match target_result {
        Ok(bytes) => Ok(bytes),
        Err(code) => Err(DispatchError::TargetInvocationFailed(code)),
    }
}

/// Replay safety: once a dispatch has reserved a (signer, nonce) pair, every
/// later attempt with the same pair is rejected before it can reach
/// signature verification — whenever it fails no earlier gate, the reason is
/// `AlreadyConsumed`.
pub proof fn lemma_replay_safety(
    d: DispatcherView,
    iv1: IntentView,
    iv2: IntentView,
    now1: u64,
    now2: u64,
)
    requires
        gate_error(d, iv1, now1) == None::<DispatchError>,
        iv2.signer == iv1.signer,
        iv2.nonce == iv1.nonce,
    ensures
        gate_error(after_reservation(d, iv1), iv2, now2) != None::<DispatchError>,
        iv2.v == SUPPORTED_VERSION && time_error(iv2, now2) == None::<DispatchError>
            ==> gate_error(after_reservation(d, iv1), iv2, now2) == Some(
            DispatchError::AlreadyConsumed,
        ),
{
    assert(after_reservation(d, iv1).consumed.contains((iv2.signer, iv2.nonce)));
}

/// Fail closed on missing configuration: before initialization every
/// dispatch attempt is rejected with `VerifierNotConfigured`, whatever the
/// intent and the time.
pub proof fn lemma_fail_closed_unconfigured(d: DispatcherView, iv: IntentView, now: u64)
    requires
        d.verifier == None::<Seq<u8>>,
    ensures
        gate_error(d, iv, now) == Some(DispatchError::VerifierNotConfigured),
{
}

/// Challenge binding: the request handed to the verification authority
/// carries the challenge derived independently from the intent's canonical
/// encoding (`execute_with_webauthn` ensures `request_matches`, whose last
/// clause pins `expected_challenge`), and every verdict other than `Valid` —
/// in particular `ChallengeMismatch`, reported when the challenge embedded
/// in the client context differs from the expected one — rejects the
/// dispatch with the same-named error, however cryptographically valid the
/// signature may otherwise be.
pub proof fn lemma_challenge_binding(outcome: VerifyOutcome)
    ensures
        outcome != VerifyOutcome::Valid ==> verification_verdict(outcome)
            != None::<DispatchError>,
        verification_verdict(VerifyOutcome::ChallengeMismatch) == Some(
            DispatchError::ChallengeMismatch,
        ),
{
}

} // verus!
