use vstd::prelude::*;

verus! {

/// Why a dispatch attempt was rejected.
///
/// Every gate of the dispatcher fails closed: the first failing check aborts
/// the pipeline and its reason is surfaced to the caller verbatim, so that a
/// legitimate client can tell "retry with a fresh nonce" (`AlreadyConsumed`,
/// `InvalidSignature`) from "resubmit before expiry" (`Expired`) from "the
/// dispatcher is not configured" (`VerifierNotConfigured`).
#[derive(Clone, Copy, Debug, PartialEq, Eq, Structural)]
pub enum DispatchError {
    /// The current time is past the intent's expires-at timestamp.
    Expired,
    /// The intent's issued-at timestamp lies further in the future than the
    /// clock-skew tolerance allows.
    IssuedInFuture,
    /// The (signer, nonce) pair was already consumed by an earlier dispatch.
    AlreadyConsumed,
    /// The verification authority rejected the signature.
    InvalidSignature,
    /// The challenge embedded in the signer's client context does not equal
    /// the challenge the dispatcher derived independently.
    ChallengeMismatch,
    /// The verification authority could not parse the authenticator or client
    /// context bytes.
    MalformedContext,
    /// `execute_with_webauthn` was called before `initialize`.
    VerifierNotConfigured,
    /// The intent's protocol version is not a supported value.
    UnsupportedVersion,
    /// The routed target invocation failed; the code is its opaque cause.
    TargetInvocationFailed(u32),
}

} // verus!
