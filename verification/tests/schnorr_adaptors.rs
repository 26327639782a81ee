use ark_crypto_primitives::signature::schnorr::Schnorr as ArkSchnorr;
use ark_crypto_primitives::signature::SignatureScheme;
use ark_ec::{AffineRepr, CurveGroup, Group};
use ark_secp256k1::Projective as Secp256k1;
use ark_serialize::CanonicalSerialize;
use ark_std::rand::rngs::StdRng;
use ark_std::rand::SeedableRng;
use sha3::Keccak256;

use asset::secp256k1::{Point, Scalar};

type KeyScheme = ArkSchnorr<Secp256k1, Keccak256>;

/// The deterministic generator behind `ark_std::test_rng`.
fn test_rng() -> StdRng {
    let seed = [
        1, 0, 0, 0, 23, 0, 0, 0, 200, 1, 0, 0, 210, 30, 0, 0, 0, 0, 0, 0, 0, 0, 0, 0, 0, 0, 0, 0,
        0, 0, 0, 0,
    ];
    StdRng::from_seed(seed)
}

/// Schnorr key generation of `ark_crypto_primitives` with the standard
/// generator, carried over into the library's types.
fn keygen(rng: &mut StdRng) -> (Point, Scalar) {
    let mut parameters = KeyScheme::setup(rng).unwrap();
    parameters.generator = Secp256k1::generator().into_affine();
    let (pk, sk) = KeyScheme::keygen(&parameters, rng).unwrap();
    let mut pk_bytes = Vec::new();
    pk.serialize_compressed(&mut pk_bytes).unwrap();
    let mut sk_bytes = Vec::new();
    sk.0.serialize_compressed(&mut sk_bytes).unwrap();
    (
        Point::from_bytes(&pk_bytes).unwrap(),
        Scalar::from_bytes(&sk_bytes).unwrap(),
    )
}

// ============================================================
// Scheme 1: Schnorr adaptor signature
// ============================================================

use asset::scheme1::{AdaptorSignatureScheme as Scheme1Adaptor, Schnorr as Scheme1};

#[test]
fn scheme1_completeness() {
    let rng = &mut test_rng();
    let (signer_pk, signer_sk) = keygen(rng);
    let (adaptor_pk, adaptor_sk) = keygen(rng);
    let message = b"hello adaptor signature";

    let pre_sig =
        <Scheme1 as Scheme1Adaptor>::pre_sign(&adaptor_pk, &signer_pk, &signer_sk, message, rng)
            .unwrap();
    assert!(<Scheme1 as Scheme1Adaptor>::verify(&pre_sig, &adaptor_pk, &signer_pk, message).is_ok());

    let adapted_sig = <Scheme1 as Scheme1Adaptor>::adapt(&pre_sig, &adaptor_sk).unwrap();
    assert!(
        <Scheme1 as Scheme1Adaptor>::verify_full_signature(&adapted_sig, &signer_pk, message)
            .is_ok()
    );

    let extracted_sk = <Scheme1 as Scheme1Adaptor>::extract(&pre_sig, &adapted_sig).unwrap();
    assert_eq!(extracted_sk, adaptor_sk);
}

#[test]
fn scheme1_soundness() {
    let rng = &mut test_rng();
    let (signer_pk, signer_sk) = keygen(rng);
    let (adaptor_pk, _adaptor_sk) = keygen(rng);
    let message = b"hello adaptor signature";

    // Pre-signature generated with an invalid adaptor public key.
    let pre_sig =
        <Scheme1 as Scheme1Adaptor>::pre_sign(&signer_pk, &signer_pk, &signer_sk, message, rng)
            .unwrap();
    assert!(<Scheme1 as Scheme1Adaptor>::verify(&pre_sig, &adaptor_pk, &signer_pk, message).is_err());

    // Pre-signature generated for an invalid message.
    let pre_sig = <Scheme1 as Scheme1Adaptor>::pre_sign(
        &adaptor_pk,
        &signer_pk,
        &signer_sk,
        b"invalid",
        rng,
    )
    .unwrap();
    assert!(<Scheme1 as Scheme1Adaptor>::verify(&pre_sig, &adaptor_pk, &signer_pk, message).is_err());

    // Valid pre-signature.
    let pre_sig =
        <Scheme1 as Scheme1Adaptor>::pre_sign(&adaptor_pk, &signer_pk, &signer_sk, message, rng)
            .unwrap();
    assert!(<Scheme1 as Scheme1Adaptor>::verify(&pre_sig, &adaptor_pk, &signer_pk, message).is_ok());

    // Adapt with an invalid secret key.
    let adapted_sig = <Scheme1 as Scheme1Adaptor>::adapt(&pre_sig, &signer_sk).unwrap();
    assert!(
        <Scheme1 as Scheme1Adaptor>::verify_full_signature(&adapted_sig, &signer_pk, message)
            .is_err()
    );

    // Extraction gives the secret actually used in the adaptation.
    let extracted_sk = <Scheme1 as Scheme1Adaptor>::extract(&pre_sig, &adapted_sig).unwrap();
    assert_eq!(extracted_sk, signer_sk);
}

// ============================================================
// Scheme 2: encrypted pre-signature
// ============================================================

use asset::scheme2::{AdaptorSignatureScheme as Scheme2Adaptor, Schnorr as Scheme2};

#[test]
fn scheme2_completeness() {
    let rng = &mut test_rng();
    let (signer_pk, signer_sk) = keygen(rng);
    let (adaptor_pk, adaptor_sk) = keygen(rng);
    let message = b"hello adaptor signature";

    let (pre_sig, extraction_key) =
        <Scheme2 as Scheme2Adaptor>::pre_sign(&adaptor_pk, &signer_pk, &signer_sk, message, rng)
            .unwrap();
    assert!(<Scheme2 as Scheme2Adaptor>::verify(
        &pre_sig,
        &adaptor_pk,
        &adaptor_sk,
        &signer_pk,
        message,
    )
    .is_ok());

    let adapted_sig = <Scheme2 as Scheme2Adaptor>::adapt(&pre_sig, &adaptor_sk).unwrap();
    assert!(
        <Scheme2 as Scheme2Adaptor>::verify_full_signature(&adapted_sig, &signer_pk, message)
            .is_ok()
    );

    let extracted_sk = <Scheme2 as Scheme2Adaptor>::extract(&extraction_key, &adapted_sig).unwrap();
    assert_eq!(extracted_sk, adaptor_sk);
}

#[test]
fn scheme2_soundness() {
    let rng = &mut test_rng();
    let (signer_pk, signer_sk) = keygen(rng);
    let (adaptor_pk, adaptor_sk) = keygen(rng);
    let message = b"hello adaptor signature";

    // Pre-signature with an invalid adaptor public key.
    let (pre_sig, _extraction_key) =
        <Scheme2 as Scheme2Adaptor>::pre_sign(&signer_pk, &signer_pk, &signer_sk, message, rng)
            .unwrap();
    assert!(<Scheme2 as Scheme2Adaptor>::verify(
        &pre_sig,
        &adaptor_pk,
        &adaptor_sk,
        &signer_pk,
        message,
    )
    .is_err());

    // Pre-signature generated for an invalid message.
    let (pre_sig, _extraction_key) = <Scheme2 as Scheme2Adaptor>::pre_sign(
        &adaptor_pk,
        &signer_pk,
        &signer_sk,
        b"invalid",
        rng,
    )
    .unwrap();
    assert!(<Scheme2 as Scheme2Adaptor>::verify(
        &pre_sig,
        &adaptor_pk,
        &adaptor_sk,
        &signer_pk,
        message,
    )
    .is_err());

    // Valid pre-signature.
    let (pre_sig, extraction_key) =
        <Scheme2 as Scheme2Adaptor>::pre_sign(&adaptor_pk, &signer_pk, &signer_sk, message, rng)
            .unwrap();
    assert!(<Scheme2 as Scheme2Adaptor>::verify(
        &pre_sig,
        &adaptor_pk,
        &adaptor_sk,
        &signer_pk,
        message,
    )
    .is_ok());

    // Adapt with an invalid secret key.
    let adapted_sig = <Scheme2 as Scheme2Adaptor>::adapt(&pre_sig, &signer_sk).unwrap();
    assert!(
        <Scheme2 as Scheme2Adaptor>::verify_full_signature(&adapted_sig, &signer_pk, message)
            .is_err()
    );

    // Extraction with the key does not give the correct witness.
    let extracted_sk = <Scheme2 as Scheme2Adaptor>::extract(&extraction_key, &adapted_sig).unwrap();
    assert_ne!(extracted_sk, adaptor_sk);
}

// ============================================================
// Scheme 3: ASSET
// ============================================================

use asset::scheme3::{AdaptorSignatureScheme as Scheme3Adaptor, Schnorr as Scheme3};

#[test]
fn scheme3_completeness() {
    let rng = &mut test_rng();
    let (signer_pk, signer_sk) = keygen(rng);
    let (adaptor_pk, adaptor_sk) = keygen(rng);
    let message = b"hello adaptor signature";

    let (pre_sig, extraction_key) =
        <Scheme3 as Scheme3Adaptor>::pre_sign(&adaptor_pk, &signer_pk, &signer_sk, message, rng)
            .unwrap();
    assert!(<Scheme3 as Scheme3Adaptor>::verify(
        &pre_sig,
        &adaptor_pk,
        &adaptor_sk,
        &signer_pk,
        message,
    )
    .is_ok());

    let adapted_sig =
        <Scheme3 as Scheme3Adaptor>::adapt(&pre_sig, &adaptor_pk, &adaptor_sk, &signer_pk)
            .unwrap();
    assert!(
        <Scheme3 as Scheme3Adaptor>::verify_full_signature(&adapted_sig, &signer_pk, message)
            .is_ok()
    );

    let extracted_sk = <Scheme3 as Scheme3Adaptor>::extract(
        &pre_sig,
        &adapted_sig,
        &adaptor_pk,
        &signer_sk,
        &extraction_key,
    )
    .unwrap();
    assert_eq!(extracted_sk, adaptor_sk);
}

#[test]
fn scheme3_soundness() {
    let rng = &mut test_rng();
    let (signer_pk, signer_sk) = keygen(rng);
    let (adaptor_pk, adaptor_sk) = keygen(rng);
    let message = b"hello adaptor signature";

    // Valid pre-signature.
    let (pre_sig, _extraction_key) =
        <Scheme3 as Scheme3Adaptor>::pre_sign(&adaptor_pk, &signer_pk, &signer_sk, message, rng)
            .unwrap();
    assert!(<Scheme3 as Scheme3Adaptor>::verify(
        &pre_sig,
        &adaptor_pk,
        &adaptor_sk,
        &signer_pk,
        message,
    )
    .is_ok());

    // Invalid message.
    let (invalid_pre_sig, _invalid_extraction_key) = <Scheme3 as Scheme3Adaptor>::pre_sign(
        &adaptor_pk,
        &signer_pk,
        &signer_sk,
        b"invalid",
        rng,
    )
    .unwrap();
    assert!(<Scheme3 as Scheme3Adaptor>::verify(
        &invalid_pre_sig,
        &adaptor_pk,
        &adaptor_sk,
        &signer_pk,
        message,
    )
    .is_err());

    // Fresh valid pre-signature for the invalid adaptation test.
    let (pre_sig, extraction_key) =
        <Scheme3 as Scheme3Adaptor>::pre_sign(&adaptor_pk, &signer_pk, &signer_sk, message, rng)
            .unwrap();

    // Adapt using an invalid secret key: signer_sk instead of y.
    let adapted_sig =
        <Scheme3 as Scheme3Adaptor>::adapt(&pre_sig, &adaptor_pk, &signer_sk, &signer_pk).unwrap();
    assert!(
        <Scheme3 as Scheme3Adaptor>::verify_full_signature(&adapted_sig, &signer_pk, message)
            .is_err()
    );

    // SecExt does not recover the correct adaptor witness.
    let extracted_sk = <Scheme3 as Scheme3Adaptor>::extract(
        &pre_sig,
        &adapted_sig,
        &adaptor_pk,
        &signer_sk,
        &extraction_key,
    )
    .unwrap();
    assert_ne!(extracted_sk, adaptor_sk);
}

// ============================================================
// Scheme 5: pre-signature with a proof of knowledge of the nonce
// ============================================================

use ark_ff::PrimeField;
use ark_secp256k1::{Affine, Fr};
use ark_serialize::CanonicalDeserialize;
use asset::scheme5::{
    hash_challenge as scheme5_hash_challenge, AdaptorSignatureScheme as Scheme5Adaptor,
    Schnorr as Scheme5,
};

fn to_ark_point(p: &Point) -> Affine {
    Affine::deserialize_compressed(&p.to_bytes()[..]).unwrap()
}

fn to_ark_scalar(s: &Scalar) -> Fr {
    Fr::from_le_bytes_mod_order(&s.to_bytes())
}

fn from_ark_scalar(s: &Fr) -> Scalar {
    let mut bytes = Vec::new();
    s.serialize_compressed(&mut bytes).unwrap();
    Scalar::from_bytes(&bytes).unwrap()
}

#[test]
fn scheme5_completeness() {
    let rng = &mut test_rng();
    let (signer_pk, signer_sk) = keygen(rng);
    let (adaptor_pk, adaptor_sk) = keygen(rng);
    let message = b"hello enhanced adaptor signature";

    let pre_sig =
        <Scheme5 as Scheme5Adaptor>::pre_sign(&adaptor_pk, &signer_pk, &signer_sk, message, rng)
            .unwrap();
    assert!(<Scheme5 as Scheme5Adaptor>::verify(&pre_sig, &adaptor_pk, &signer_pk, message).is_ok());

    let adapted_sig = <Scheme5 as Scheme5Adaptor>::adapt(&pre_sig, &adaptor_sk).unwrap();

    // Verify the resulting Schnorr signature directly with the curve library.
    let challenge = scheme5_hash_challenge(&adapted_sig.commitment, &signer_pk, message);
    let left = Secp256k1::generator() * to_ark_scalar(&adapted_sig.prover_response);
    let right = to_ark_point(&adapted_sig.commitment).into_group()
        + to_ark_point(&signer_pk) * to_ark_scalar(&challenge);
    assert_eq!(left.into_affine(), right.into_affine());

    let extracted_sk = <Scheme5 as Scheme5Adaptor>::extract(&pre_sig, &adapted_sig).unwrap();
    assert_eq!(extracted_sk, adaptor_sk);
}

#[test]
fn invalid_proof_is_rejected() {
    let rng = &mut test_rng();
    let (signer_pk, signer_sk) = keygen(rng);
    let (adaptor_pk, _) = keygen(rng);
    let message = b"hello enhanced adaptor signature";

    let mut pre_sig =
        <Scheme5 as Scheme5Adaptor>::pre_sign(&adaptor_pk, &signer_pk, &signer_sk, message, rng)
            .unwrap();

    // Valid before modification.
    assert!(<Scheme5 as Scheme5Adaptor>::verify(&pre_sig, &adaptor_pk, &signer_pk, message).is_ok());

    // Modify s'.
    let modified = to_ark_scalar(&pre_sig.proof_response) + Fr::from(1u64);
    pre_sig.proof_response = from_ark_scalar(&modified);

    // The proof of knowledge must now fail.
    assert!(<Scheme5 as Scheme5Adaptor>::verify(&pre_sig, &adaptor_pk, &signer_pk, message)
        .is_err());
}

#[test]
fn scheme5_soundness() {
    let rng = &mut test_rng();
    let (signer_pk, signer_sk) = keygen(rng);
    let (adaptor_pk, _) = keygen(rng);
    let message = b"hello enhanced adaptor signature";

    // Pre-sign under the wrong statement.
    let pre_sig =
        <Scheme5 as Scheme5Adaptor>::pre_sign(&signer_pk, &signer_pk, &signer_sk, message, rng)
            .unwrap();

    // Verify using the actual adaptor statement.
    assert!(<Scheme5 as Scheme5Adaptor>::verify(&pre_sig, &adaptor_pk, &signer_pk, message)
        .is_err());
}
