use webauthn_dispatcher::challenge::{compute_challenge, derive_challenge};
use webauthn_dispatcher::dispatcher::{
    check_verification, complete_dispatch, VerifyOutcome, WebAuthnDispatcher,
};
use webauthn_dispatcher::encode::encode_intent;
use webauthn_dispatcher::errors::DispatchError;
use webauthn_dispatcher::intent::{ContractCallIntent, WebAuthnSignature};

fn make_intent(nonce_byte: u8, iat: u64, exp: u64) -> ContractCallIntent {
    ContractCallIntent {
        v: 1,
        contract_id: vec![0xAA, 0xBB],
        fn_name: b"mint".to_vec(),
        args: vec![vec![0x01, 0x02], vec![0x03]],
        signer: vec![0x55; 4],
        nonce: vec![nonce_byte; 32],
        iat,
        exp,
    }
}

fn make_signature() -> WebAuthnSignature {
    WebAuthnSignature {
        signature: vec![0x11; 64],
        authenticator_data: vec![0x22; 37],
        client_data_json: b"{\"challenge\":\"...\"}".to_vec(),
        signature_payload: vec![0x33; 8],
    }
}

#[test]
fn test_initialize() {
    let mut dispatcher = WebAuthnDispatcher::new();
    let verifier_contract = vec![0x77; 32];
    let intent = make_intent(1, 100, 200);
    let sig = make_signature();

    // Before initialization every dispatch fails closed.
    let before = dispatcher.execute_with_webauthn(&intent, &sig, &vec![0x04; 65], &vec![0; 32], 150);
    assert_eq!(before.unwrap_err(), DispatchError::VerifierNotConfigured);

    dispatcher.initialize(verifier_contract.clone());

    // The stored verifier contract address comes back in the request.
    let req = dispatcher
        .execute_with_webauthn(&intent, &sig, &vec![0x04; 65], &vec![0; 32], 150)
        .unwrap();
    assert_eq!(req.verifier_contract, verifier_contract);
}

#[test]
fn test_nonce_uniqueness() {
    let mut dispatcher = WebAuthnDispatcher::new();
    let signer = vec![0x55; 4];
    let nonce = vec![0u8; 32];

    // First check should return false (not used).
    assert_eq!(dispatcher.is_nonce_used(&signer, &nonce), false);

    // After a successful dispatch the nonce is marked as used.
    dispatcher.initialize(vec![0x77; 32]);
    let mut intent = make_intent(0, 100, 200);
    intent.signer = signer.clone();
    dispatcher
        .execute_with_webauthn(&intent, &make_signature(), &vec![0x04; 65], &vec![0; 32], 150)
        .unwrap();
    assert_eq!(dispatcher.is_nonce_used(&signer, &nonce), true);
}

#[test]
fn encode_is_deterministic_and_injective() {
    let intent = make_intent(7, 100, 200);
    let once = encode_intent(&intent);
    let twice = encode_intent(&intent);
    assert_eq!(once, twice);

    let mut other = make_intent(7, 100, 200);
    other.args = vec![vec![0x01], vec![0x02, 0x03]];
    assert_ne!(encode_intent(&other), once);

    let mut later = make_intent(7, 100, 201);
    later.exp = 201;
    assert_ne!(encode_intent(&later), once);
}

#[test]
fn encode_exact_bytes() {
    let intent = ContractCallIntent {
        v: 1,
        contract_id: vec![0xAA],
        fn_name: vec![0x66],
        args: vec![vec![0x01, 0x02]],
        signer: vec![0x55],
        nonce: vec![0x07; 32],
        iat: 100,
        exp: 200,
    };
    let mut expected: Vec<u8> = Vec::new();
    expected.extend_from_slice(&[0, 0, 0, 1]); // version
    expected.extend_from_slice(&[0, 0, 0, 1, 0xAA]); // contract id
    expected.extend_from_slice(&[0, 0, 0, 1, 0x66]); // function selector
    expected.extend_from_slice(&[0, 0, 0, 1]); // argument count
    expected.extend_from_slice(&[0, 0, 0, 2, 0x01, 0x02]); // argument 0
    expected.extend_from_slice(&[0, 0, 0, 1, 0x55]); // signer
    expected.extend_from_slice(&[0x07; 32]); // nonce
    expected.extend_from_slice(&[0, 0, 0, 0, 0, 0, 0, 100]); // issued at
    expected.extend_from_slice(&[0, 0, 0, 0, 0, 0, 0, 200]); // expires at
    assert_eq!(encode_intent(&intent), expected);
}

#[test]
fn challenge_is_sha256_of_encoding() {
    // SHA-256 of the empty byte string, a published reference value.
    let empty_digest: [u8; 32] = [
        0xe3, 0xb0, 0xc4, 0x42, 0x98, 0xfc, 0x1c, 0x14, 0x9a, 0xfb, 0xf4, 0xc8, 0x99, 0x6f,
        0xb9, 0x24, 0x27, 0xae, 0x41, 0xe4, 0x64, 0x9b, 0x93, 0x4c, 0xa4, 0x95, 0x99, 0x1b,
        0x78, 0x52, 0xb8, 0x55,
    ];
    let digest = derive_challenge(&Vec::new());
    assert_eq!(digest, empty_digest.to_vec());

    let intent = make_intent(7, 100, 200);
    assert_eq!(compute_challenge(&intent), derive_challenge(&encode_intent(&intent)));
    assert_eq!(compute_challenge(&intent).len(), 32);
    assert_ne!(compute_challenge(&intent), encode_intent(&intent));
}

#[test]
fn full_dispatch_scenario() {
    let mut dispatcher = WebAuthnDispatcher::new();
    dispatcher.initialize(vec![0x77; 32]);
    let now: u64 = 1000;
    let intent = make_intent(9, now, now + 60);
    let sig = make_signature();
    let pk = vec![0x04; 65];
    let rp = vec![0x10; 32];

    let req = dispatcher.execute_with_webauthn(&intent, &sig, &pk, &rp, now).unwrap();
    assert_eq!(req.expected_challenge, compute_challenge(&intent));
    assert_eq!(req.passkey_public_key, pk);
    assert_eq!(req.rp_id_hash, rp);
    assert_eq!(req.authenticator_data, sig.authenticator_data);
    assert_eq!(req.client_data_json, sig.client_data_json);
    assert_eq!(req.signature, sig.signature);

    let route = check_verification(&intent, VerifyOutcome::Valid).unwrap();
    assert_eq!(route.contract_id, intent.contract_id);
    assert_eq!(route.fn_name, intent.fn_name);
    assert_eq!(route.args, intent.args);
    assert_eq!(route.signer, intent.signer);

    let result = complete_dispatch(Ok(vec![0xEE, 0xFF]));
    assert_eq!(result.unwrap(), vec![0xEE, 0xFF]);

    assert!(dispatcher.is_nonce_used(&intent.signer, &intent.nonce));

    // Re-submitting the identical request is a replay.
    let replay = dispatcher.execute_with_webauthn(&intent, &sig, &pk, &rp, now);
    assert_eq!(replay.unwrap_err(), DispatchError::AlreadyConsumed);
}

#[test]
fn expired_intent_leaves_nonce_unused() {
    let mut dispatcher = WebAuthnDispatcher::new();
    dispatcher.initialize(vec![0x77; 32]);
    let now: u64 = 1000;
    let intent = make_intent(3, now - 10, now - 1);

    let r = dispatcher.execute_with_webauthn(
        &intent,
        &make_signature(),
        &vec![0x04; 65],
        &vec![0; 32],
        now,
    );
    assert_eq!(r.unwrap_err(), DispatchError::Expired);
    // Expiration runs before nonce reservation.
    assert_eq!(dispatcher.is_nonce_used(&intent.signer, &intent.nonce), false);
}

#[test]
fn expiration_boundaries() {
    let mut dispatcher = WebAuthnDispatcher::new();
    dispatcher.initialize(vec![0x77; 32]);
    let t: u64 = 5000;

    // expires-at = t: still valid at current time exactly t.
    let intent = make_intent(20, t - 100, t);
    assert!(dispatcher
        .execute_with_webauthn(&intent, &make_signature(), &vec![0x04; 65], &vec![0; 32], t)
        .is_ok());

    // One time unit later it is expired.
    let intent2 = make_intent(21, t - 100, t);
    let r = dispatcher.execute_with_webauthn(
        &intent2,
        &make_signature(),
        &vec![0x04; 65],
        &vec![0; 32],
        t + 1,
    );
    assert_eq!(r.unwrap_err(), DispatchError::Expired);

    // issued-at = t, skew tolerance 60: current time t - 60 passes.
    let intent3 = make_intent(22, t, t + 100);
    assert!(dispatcher
        .execute_with_webauthn(&intent3, &make_signature(), &vec![0x04; 65], &vec![0; 32], t - 60)
        .is_ok());

    // One time unit earlier it is from the future.
    let intent4 = make_intent(23, t, t + 100);
    let r = dispatcher.execute_with_webauthn(
        &intent4,
        &make_signature(),
        &vec![0x04; 65],
        &vec![0; 32],
        t - 61,
    );
    assert_eq!(r.unwrap_err(), DispatchError::IssuedInFuture);
}

#[test]
fn unsupported_version_fails_closed() {
    let mut dispatcher = WebAuthnDispatcher::new();
    dispatcher.initialize(vec![0x77; 32]);
    let mut intent = make_intent(4, 100, 200);
    intent.v = 2;
    let r = dispatcher.execute_with_webauthn(
        &intent,
        &make_signature(),
        &vec![0x04; 65],
        &vec![0; 32],
        150,
    );
    assert_eq!(r.unwrap_err(), DispatchError::UnsupportedVersion);
}

#[test]
fn verification_verdicts_map_to_errors() {
    let intent = make_intent(5, 100, 200);
    assert_eq!(
        check_verification(&intent, VerifyOutcome::InvalidSignature).unwrap_err(),
        DispatchError::InvalidSignature
    );
    assert_eq!(
        check_verification(&intent, VerifyOutcome::MalformedContext).unwrap_err(),
        DispatchError::MalformedContext
    );
    assert_eq!(
        check_verification(&intent, VerifyOutcome::ChallengeMismatch).unwrap_err(),
        DispatchError::ChallengeMismatch
    );
}

#[test]
fn failed_verification_burns_nonce() {
    let mut dispatcher = WebAuthnDispatcher::new();
    dispatcher.initialize(vec![0x77; 32]);
    let intent = make_intent(6, 100, 200);

    dispatcher
        .execute_with_webauthn(&intent, &make_signature(), &vec![0x04; 65], &vec![0; 32], 150)
        .unwrap();
    let verdict = check_verification(&intent, VerifyOutcome::InvalidSignature);
    assert_eq!(verdict.unwrap_err(), DispatchError::InvalidSignature);

    // The nonce was reserved before verification and stays burned.
    assert!(dispatcher.is_nonce_used(&intent.signer, &intent.nonce));
    let retry = dispatcher.execute_with_webauthn(
        &intent,
        &make_signature(),
        &vec![0x04; 65],
        &vec![0; 32],
        150,
    );
    assert_eq!(retry.unwrap_err(), DispatchError::AlreadyConsumed);
}

#[test]
fn target_failure_is_wrapped() {
    let r = complete_dispatch(Err(7));
    assert_eq!(r.unwrap_err(), DispatchError::TargetInvocationFailed(7));
}
