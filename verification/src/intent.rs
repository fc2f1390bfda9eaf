use vstd::prelude::*;

verus! {

/// The only protocol version this dispatcher accepts.
pub const SUPPORTED_VERSION: u32 = 1;

/// Length, in bytes, of a nonce.
pub const NONCE_LEN: usize = 32;

/// How far in the future an intent's issued-at timestamp may lie, in seconds,
/// to accommodate clock drift between the signer and the host.
pub const CLOCK_SKEW_TOLERANCE: u64 = 60;

/// The authenticated request: "call function `fn_name` on contract
/// `contract_id` with arguments `args`, on behalf of `signer`", bounded in
/// time by `iat`/`exp` and made unique per signer by `nonce`.
///
/// Addresses, symbols and argument values are opaque byte strings in the
/// target's native encoding; the dispatcher never interprets them, it only
/// encodes them canonically and routes them.
#[derive(Clone, Debug)]
pub struct ContractCallIntent {
    /// Protocol version; dispatch fails closed unless it is `SUPPORTED_VERSION`.
    pub v: u32,
    /// Target contract address.
    pub contract_id: Vec<u8>,
    /// Function selector on the target.
    pub fn_name: Vec<u8>,
    /// Ordered call arguments, each one opaque encoded value.
    pub args: Vec<Vec<u8>>,
    /// The account on whose authority the call is made.
    pub signer: Vec<u8>,
    /// Unique-per-signer token of exactly `NONCE_LEN` bytes.
    pub nonce: Vec<u8>,
    /// Issued-at timestamp, in seconds.
    pub iat: u64,
    /// Expires-at timestamp, in seconds; at least `iat`.
    pub exp: u64,
}

/// The mathematical shape of an intent: every byte-string field as a sequence.
#[verifier::ext_equal]
pub ghost struct IntentView {
    pub v: u32,
    pub contract_id: Seq<u8>,
    pub fn_name: Seq<u8>,
    pub args: Seq<Seq<u8>>,
    pub signer: Seq<u8>,
    pub nonce: Seq<u8>,
    pub iat: u64,
    pub exp: u64,
}

impl View for ContractCallIntent {
    type V = IntentView;

    open spec fn view(&self) -> IntentView {
        IntentView {
            v: self.v,
            contract_id: self.contract_id@,
            fn_name: self.fn_name@,
            args: self.args@.map_values(|a: Vec<u8>| a@),
            signer: self.signer@,
            nonce: self.nonce@,
            iat: self.iat,
            exp: self.exp,
        }
    }
}

impl IntentView {
    /// Well-formedness: the nonce has its fixed size, the time window is not
    /// inverted, and every variable-length field is short enough for its
    /// 32-bit length prefix in the canonical encoding.
    pub open spec fn wf(self) -> bool {
        &&& self.nonce.len() == NONCE_LEN
        &&& self.iat <= self.exp
        &&& self.contract_id.len() <= u32::MAX
        &&& self.fn_name.len() <= u32::MAX
        &&& self.signer.len() <= u32::MAX
        &&& self.args.len() <= u32::MAX
        &&& forall|k: int| 0 <= k < self.args.len() ==> #[trigger] self.args[k].len() <= u32::MAX
    }
}

/// The signer-produced proof that accompanies an intent.
#[derive(Clone, Debug)]
pub struct WebAuthnSignature {
    /// Raw signature bytes (r || s).
    pub signature: Vec<u8>,
    /// Authenticator data, opaque and scheme-specific.
    pub authenticator_data: Vec<u8>,
    /// Client data, opaque and scheme-specific; carries the embedded
    /// challenge the verification authority compares against the
    /// dispatcher-derived one.
    pub client_data_json: Vec<u8>,
    /// The exact byte sequence the signer signed over.
    pub signature_payload: Vec<u8>,
}

/// The mathematical shape of a signature bundle.
#[verifier::ext_equal]
pub ghost struct SignatureView {
    pub signature: Seq<u8>,
    pub authenticator_data: Seq<u8>,
    pub client_data_json: Seq<u8>,
    pub signature_payload: Seq<u8>,
}

impl View for WebAuthnSignature {
    type V = SignatureView;

    open spec fn view(&self) -> SignatureView {
        SignatureView {
            signature: self.signature@,
            authenticator_data: self.authenticator_data@,
            client_data_json: self.client_data_json@,
            signature_payload: self.signature_payload@,
        }
    }
}

} // verus!
