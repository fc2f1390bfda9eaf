//! Challenge derivation: the fixed-size digest of an intent's canonical
//! encoding, the value a signer must have cryptographically committed to.

use vstd::prelude::*;
use sha2::Digest;
use crate::intent::{ContractCallIntent, IntentView};
use crate::encode::{encode_intent, encoded_intent};

verus! {

/// The SHA-256 digest of a byte sequence, as the `sha2` crate computes it: a
/// function of the input bytes alone.
pub uninterp spec fn sha256_of(bytes: Seq<u8>) -> Seq<u8>;

/// Relies on sha2::Sha256::digest: computes the SHA-256 digest of the input,
/// always 32 bytes, depending on the input bytes alone.
#[verifier::external_body]
fn sha256(bytes: &Vec<u8>) -> (r: Vec<u8>)
    ensures
        r@ == sha256_of(bytes@),
        r@.len() == 32,
{
    sha2::Sha256::digest(bytes.as_slice()).to_vec()
}

/// The challenge a signer commits to for an intent: the SHA-256 digest of the
/// intent's canonical encoding.
pub open spec fn challenge_of(iv: IntentView) -> Seq<u8> {
    sha256_of(encoded_intent(iv))
}

/// Derive the challenge digest for a canonical intent encoding.
pub fn derive_challenge(intent_bytes: &Vec<u8>) -> (r: Vec<u8>)
    ensures
        r@ == sha256_of(intent_bytes@),
        r@.len() == 32,
{
    sha256(intent_bytes)
}

/// Encode an intent canonically and derive its challenge in one step.
pub fn compute_challenge(intent: &ContractCallIntent) -> (r: Vec<u8>)
    requires
        intent@.wf(),
    ensures
        r@ == challenge_of(intent@),
        r@.len() == 32,
{
    let intent_bytes = encode_intent(intent);
    derive_challenge(&intent_bytes)
}

} // verus!
