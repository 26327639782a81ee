use ark_std::rand::rngs::StdRng;
use ark_std::rand::SeedableRng;

use asset::scheme4::{AdaptorSignatureScheme, BbsPlusAdaptor};

/// The deterministic generator behind `ark_std::test_rng`.
fn bbs_test_rng() -> StdRng {
    let seed = [
        1, 0, 0, 0, 23, 0, 0, 0, 200, 1, 0, 0, 210, 30, 0, 0, 0, 0, 0, 0, 0, 0, 0, 0, 0, 0, 0, 0,
        0, 0, 0, 0,
    ];
    StdRng::from_seed(seed)
}

#[test]
fn scheme4_completeness() {
    let rng = &mut bbs_test_rng();

    // Setup
    let params = <BbsPlusAdaptor as AdaptorSignatureScheme>::setup(rng).unwrap();

    // BBS+ signer key generation
    let (signer_pk, signer_sk) =
        <BbsPlusAdaptor as AdaptorSignatureScheme>::keygen(&params, rng).unwrap();

    // Adaptor statement Y = y*g1
    let (adaptor_pk, adaptor_sk) =
        <BbsPlusAdaptor as AdaptorSignatureScheme>::adaptor_keygen(&params, rng).unwrap();

    let message = b"hello BBS+ adaptor signature";

    // pSign
    let pre_sig = <BbsPlusAdaptor as AdaptorSignatureScheme>::pre_sign(
        &params,
        &adaptor_pk,
        &signer_pk,
        &signer_sk,
        message,
        rng,
    )
    .unwrap();

    // pVrfy
    assert!(<BbsPlusAdaptor as AdaptorSignatureScheme>::verify(
        &params,
        &pre_sig,
        &adaptor_pk,
        &signer_pk,
        message,
    )
    .is_ok());

    // Adapt
    let adapted_sig =
        <BbsPlusAdaptor as AdaptorSignatureScheme>::adapt(&pre_sig, &adaptor_sk).unwrap();

    // Vrfy
    assert!(<BbsPlusAdaptor as AdaptorSignatureScheme>::verify_full_signature(
        &params,
        &adapted_sig,
        &signer_pk,
        message,
    )
    .is_ok());

    // Extract: the extracted witness must equal y
    let extracted_sk =
        <BbsPlusAdaptor as AdaptorSignatureScheme>::extract(&pre_sig, &adapted_sig).unwrap();
    assert_eq!(extracted_sk, adaptor_sk);
}

#[test]
fn scheme4_soundness() {
    let rng = &mut bbs_test_rng();

    let params = <BbsPlusAdaptor as AdaptorSignatureScheme>::setup(rng).unwrap();
    let (signer_pk, signer_sk) =
        <BbsPlusAdaptor as AdaptorSignatureScheme>::keygen(&params, rng).unwrap();

    // Correct adaptor statement / witness
    let (adaptor_pk, adaptor_sk) =
        <BbsPlusAdaptor as AdaptorSignatureScheme>::adaptor_keygen(&params, rng).unwrap();

    // Different adaptor statement / witness
    let (wrong_adaptor_pk, wrong_adaptor_sk) =
        <BbsPlusAdaptor as AdaptorSignatureScheme>::adaptor_keygen(&params, rng).unwrap();

    let message = b"hello BBS+ adaptor signature";

    let pre_sig = <BbsPlusAdaptor as AdaptorSignatureScheme>::pre_sign(
        &params,
        &adaptor_pk,
        &signer_pk,
        &signer_sk,
        message,
        rng,
    )
    .unwrap();

    // Correct statement => pVrfy succeeds
    assert!(<BbsPlusAdaptor as AdaptorSignatureScheme>::verify(
        &params,
        &pre_sig,
        &adaptor_pk,
        &signer_pk,
        message,
    )
    .is_ok());

    // Wrong statement => pVrfy fails
    assert!(<BbsPlusAdaptor as AdaptorSignatureScheme>::verify(
        &params,
        &pre_sig,
        &wrong_adaptor_pk,
        &signer_pk,
        message,
    )
    .is_err());

    // Wrong message => pVrfy fails
    assert!(<BbsPlusAdaptor as AdaptorSignatureScheme>::verify(
        &params,
        &pre_sig,
        &adaptor_pk,
        &signer_pk,
        b"wrong message",
    )
    .is_err());

    // Correctly adapted full signature => Vrfy succeeds
    let correct_adapted_sig =
        <BbsPlusAdaptor as AdaptorSignatureScheme>::adapt(&pre_sig, &adaptor_sk).unwrap();
    assert!(<BbsPlusAdaptor as AdaptorSignatureScheme>::verify_full_signature(
        &params,
        &correct_adapted_sig,
        &signer_pk,
        message,
    )
    .is_ok());

    // Wrong adaptor secret key => invalid full signature
    let wrong_adapted_sig =
        <BbsPlusAdaptor as AdaptorSignatureScheme>::adapt(&pre_sig, &wrong_adaptor_sk).unwrap();
    assert!(<BbsPlusAdaptor as AdaptorSignatureScheme>::verify_full_signature(
        &params,
        &wrong_adapted_sig,
        &signer_pk,
        message,
    )
    .is_err());

    // Extraction from the incorrectly adapted signature gives exactly wrong_y.
    let extracted_wrong_sk =
        <BbsPlusAdaptor as AdaptorSignatureScheme>::extract(&pre_sig, &wrong_adapted_sig)
            .unwrap();
    assert_eq!(extracted_wrong_sk, wrong_adaptor_sk);
    assert_ne!(extracted_wrong_sk, adaptor_sk);
}
