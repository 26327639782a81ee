use ark_std::rand::rngs::StdRng;
use ark_std::rand::SeedableRng;

use asset::bls12_381;
use asset::error::AdaptorError;
use asset::scheme1::{hash_challenge, AdaptorSignatureScheme as _, Schnorr as Scheme1};
use asset::scheme2::{hash_shared_secret, AdaptorSignatureScheme as _, Schnorr as Scheme2};
use asset::scheme3::{hash_h1, hash_h3, AdaptorSignatureScheme as _, Schnorr as Scheme3};
use asset::scheme4::{
    message_to_scalar, AdaptorFullSignature, AdaptorSignatureScheme as _, BbsPlusAdaptor,
    PublicKey, SecretKey,
};
use asset::scheme5::{AdaptorSignatureScheme as _, Schnorr as Scheme5};
use asset::secp256k1::{Point, Scalar};

fn s(v: u64) -> Scalar {
    Scalar::from_be_bytes_mod_order(&v.to_be_bytes())
}

fn g(v: u64) -> Point {
    Point::mul_generator(&s(v))
}

fn b(v: u64) -> bls12_381::Scalar {
    bls12_381::Scalar::from_be_bytes_mod_order(&v.to_be_bytes())
}

fn properties_rng() -> StdRng {
    StdRng::from_seed([42u8; 32])
}

// ------------------------------------------------------------
// Scheme 1
// ------------------------------------------------------------

#[test]
fn scheme1_fixed_nonce_round_trip() {
    let (x, y) = (s(7), s(11));
    let (signer_pk, adaptor_pk) = (g(7), g(11));
    let message = b"fixed nonce";
    let pre = Scheme1::pre_sign_with_nonce(&adaptor_pk, &signer_pk, &x, message, &s(5));
    // R = 5G + Y = 16G and s~ = c*x + 5.
    assert_eq!(pre.commitment, g(16));
    let c = hash_challenge(&pre.commitment, &signer_pk, message);
    assert_eq!(pre.prover_response, c.mul(&x).add(&s(5)));
    assert_eq!(Scheme1::verify(&pre, &adaptor_pk, &signer_pk, message), Ok(()));
    assert_eq!(
        Scheme1::verify(&pre, &adaptor_pk, &signer_pk, b"other message"),
        Err(AdaptorError::PreSignatureVerification)
    );
    let full = Scheme1::adapt(&pre, &y).unwrap();
    assert_eq!(full.commitment, pre.commitment);
    assert_eq!(full.prover_response, pre.prover_response.add(&y));
    assert_eq!(Scheme1::verify_full_signature(&full, &signer_pk, message), Ok(()));
    assert_eq!(Scheme1::extract(&pre, &full), Ok(y));
    // The pre-signature itself is not a valid signature.
    let unadapted = asset::scheme1::AdaptorFullSignature {
        commitment: pre.commitment,
        prover_response: pre.prover_response,
    };
    assert_eq!(
        Scheme1::verify_full_signature(&unadapted, &signer_pk, message),
        Err(AdaptorError::SignatureVerification)
    );
}

// ------------------------------------------------------------
// Scheme 2
// ------------------------------------------------------------

#[test]
fn scheme2_fixed_nonces_round_trip() {
    let (x, y) = (s(3), s(17));
    let (signer_pk, adaptor_pk) = (g(3), g(17));
    let message = b"encrypted";
    let (pre, ek) =
        Scheme2::pre_sign_with_nonces(&adaptor_pk, &signer_pk, &x, message, &s(4), &s(9));
    assert_eq!(pre.commitment, g(21));
    assert_eq!(pre.encryption_commitment, g(9));
    // s^ = s~ + H_E(9Y).
    let mask = hash_shared_secret(&adaptor_pk.mul(&s(9)));
    assert_eq!(pre.encrypted_response, ek.add(&mask));
    assert_ne!(pre.encrypted_response, ek);
    assert_eq!(Scheme2::verify(&pre, &adaptor_pk, &y, &signer_pk, message), Ok(()));
    assert_eq!(
        Scheme2::verify(&pre, &adaptor_pk, &s(18), &signer_pk, message),
        Err(AdaptorError::PreSignatureVerification)
    );
    let full = Scheme2::adapt(&pre, &y).unwrap();
    assert_eq!(full.prover_response, ek.add(&y));
    assert_eq!(Scheme2::verify_full_signature(&full, &signer_pk, message), Ok(()));
    assert_eq!(Scheme2::extract(&ek, &full), Ok(y));
}

// ------------------------------------------------------------
// Scheme 3
// ------------------------------------------------------------

#[test]
fn scheme3_fixed_nonce_round_trip() {
    let (x, y) = (s(23), s(29));
    let (signer_pk, adaptor_pk) = (g(23), g(29));
    let message = b"asset";
    let (pre, ek) = Scheme3::pre_sign_with_nonce(&adaptor_pk, &signer_pk, &x, message, &s(31));
    assert_eq!(pre.commitment, g(31));
    assert_eq!(ek, s(31));
    assert_eq!(Scheme3::verify(&pre, &adaptor_pk, &y, &signer_pk, message), Ok(()));
    assert_eq!(
        Scheme3::verify(&pre, &adaptor_pk, &y, &signer_pk, b"asset?"),
        Err(AdaptorError::PreSignatureVerification)
    );
    let full = Scheme3::adapt(&pre, &adaptor_pk, &y, &signer_pk).unwrap();
    // R = R~ + Y + kG with k = H1(Y || 31Y || 23Y).
    let k = hash_h1(&adaptor_pk, &adaptor_pk.mul(&s(31)), &adaptor_pk.mul(&x));
    assert_eq!(full.commitment, g(31).add(&adaptor_pk).add(&Point::mul_generator(&k)));
    assert_eq!(full.prover_response, pre.prover_response.add(&y).add(&k).sub(&hash_h3(&k)));
    assert_eq!(Scheme3::verify_full_signature(&full, &signer_pk, message), Ok(()));
    assert_eq!(Scheme3::extract(&pre, &full, &adaptor_pk, &x, &ek), Ok(y));
}

// ------------------------------------------------------------
// Scheme 5
// ------------------------------------------------------------

#[test]
fn scheme5_errors_name_the_failed_check() {
    let (x, y) = (s(2), s(41));
    let (signer_pk, adaptor_pk) = (g(2), g(41));
    let message = b"proof of knowledge";
    let pre = Scheme5::pre_sign_with_nonces(&adaptor_pk, &signer_pk, &x, message, &s(8), &s(12));
    assert_eq!(pre.proof_commitment, g(12));
    assert_eq!(Scheme5::verify(&pre, &adaptor_pk, &signer_pk, message), Ok(()));
    // A wrong statement fails the first check.
    assert_eq!(
        Scheme5::verify(&pre, &g(40), &signer_pk, message),
        Err(AdaptorError::PreSignatureVerification)
    );
    // A tampered proof fails the second check only.
    let mut tampered = pre;
    tampered.proof_response = pre.proof_response.add(&s(1));
    assert_eq!(
        Scheme5::verify(&tampered, &adaptor_pk, &signer_pk, message),
        Err(AdaptorError::ProofVerification)
    );
    let full = Scheme5::adapt(&pre, &y).unwrap();
    assert_eq!(Scheme5::extract(&pre, &full), Ok(y));
    assert_eq!(
        asset::scheme1::hash_challenge(&full.commitment, &signer_pk, message),
        asset::scheme5::hash_challenge(&full.commitment, &signer_pk, message)
    );
}

// ------------------------------------------------------------
// Scheme 4
// ------------------------------------------------------------

#[test]
fn scheme4_message_encoding() {
    // The empty message and a multiple of the order both map to 1.
    assert_eq!(message_to_scalar(b""), b(1));
    assert_eq!(message_to_scalar(&[0u8, 0u8]), b(1));
    let order_be: [u8; 32] = [
        0x73, 0xed, 0xa7, 0x53, 0x29, 0x9d, 0x7d, 0x48, 0x33, 0x39, 0xd8, 0x08, 0x09, 0xa1, 0xd8,
        0x05, 0x53, 0xbd, 0xa4, 0x02, 0xff, 0xfe, 0x5b, 0xfe, 0xff, 0xff, 0xff, 0xff, 0x00, 0x00,
        0x00, 0x01,
    ];
    assert_eq!(message_to_scalar(&order_be), b(1));
    assert_eq!(message_to_scalar(&[0x01, 0x02]), b(258));
}

#[test]
fn scheme4_fixed_nonces_round_trip() {
    let rng = &mut properties_rng();
    let params = BbsPlusAdaptor::setup(rng).unwrap();
    assert_eq!(params.h0, bls12_381::G2Point::generator());
    let sk = SecretKey(b(1234));
    let pk = PublicKey(params.h0.mul(&sk.0));
    let y = b(77);
    let statement = params.g1.mul(&y);
    let message = b"fixed BBS+ nonces";

    // e = -sk leaves nothing to invert.
    let minus_sk = b(0).sub(&sk.0);
    assert!(BbsPlusAdaptor::pre_sign_with(&params, &statement, &sk, message, &b(5), &minus_sk)
        .is_none());

    let pre = BbsPlusAdaptor::pre_sign_with(&params, &statement, &sk, message, &b(5), &b(6))
        .unwrap();
    assert_eq!(pre.e, b(6));
    assert_eq!(pre.r, b(5));
    // A * (e + sk) = g0 + 5 g1 + Y + m g2.
    let m = message_to_scalar(message);
    let base = params.g0.add(&params.g1.mul(&b(5))).add(&statement).add(&params.g2.mul(&m));
    assert_eq!(pre.a.mul(&b(6).add(&sk.0)), base);

    assert_eq!(BbsPlusAdaptor::verify(&params, &pre, &statement, &pk, message), Ok(()));
    assert_eq!(
        BbsPlusAdaptor::verify(&params, &pre, &params.g1.mul(&b(78)), &pk, message),
        Err(AdaptorError::PreSignatureVerification)
    );
    let full = BbsPlusAdaptor::adapt(&pre, &y).unwrap();
    assert_eq!(full.r, b(82));
    assert_eq!(BbsPlusAdaptor::verify_full_signature(&params, &full, &pk, message), Ok(()));
    assert_eq!(BbsPlusAdaptor::extract(&pre, &full), Ok(y));
    let unadapted = AdaptorFullSignature { a: pre.a, e: pre.e, r: pre.r };
    assert_eq!(
        BbsPlusAdaptor::verify_full_signature(&params, &unadapted, &pk, message),
        Err(AdaptorError::SignatureVerification)
    );
}

#[test]
fn scheme4_keys_are_multiples_of_the_parameters() {
    let rng = &mut properties_rng();
    let params = BbsPlusAdaptor::setup(rng).unwrap();
    let (pk, sk) = BbsPlusAdaptor::keygen(&params, rng).unwrap();
    assert_eq!(pk.0, params.h0.mul(&sk.0));
    assert!(!sk.0.is_zero());
    let (statement, witness) = BbsPlusAdaptor::adaptor_keygen(&params, rng).unwrap();
    assert_eq!(statement, params.g1.mul(&witness));
    assert!(!witness.is_zero());
}

#[test]
fn scheme4_messages_with_the_same_scalar_share_pre_signatures() {
    let rng = &mut properties_rng();
    let params = BbsPlusAdaptor::setup(rng).unwrap();
    let (pk, sk) = BbsPlusAdaptor::keygen(&params, rng).unwrap();
    let (statement, _witness) = BbsPlusAdaptor::adaptor_keygen(&params, rng).unwrap();
    let message = [0x01u8, 0x02u8];
    let same_scalar = [0x00u8, 0x01u8, 0x02u8];
    let pre = BbsPlusAdaptor::pre_sign(&params, &statement, &pk, &sk, &message, rng).unwrap();
    assert_eq!(BbsPlusAdaptor::verify(&params, &pre, &statement, &pk, &same_scalar), Ok(()));
    assert_eq!(
        BbsPlusAdaptor::verify(&params, &pre, &statement, &pk, &[0x01u8, 0x03u8]),
        Err(AdaptorError::PreSignatureVerification)
    );
}
