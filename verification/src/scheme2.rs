//! The Schnorr adaptor signature with an encrypted pre-signature (the
//! "trivial solution"), over secp256k1 with Keccak-256.
//!
//! pSign computes the Schnorr adaptor pre-signature `(R, s~)` of scheme 1 and
//! hides `s~` under a DHIES-style mask: `U = rho G`, `K = rho Y`,
//! `s^ = s~ + H_E(K)`. The pre-signature is `(R, U, s^)` and the signer keeps
//! `s~` as extraction key. The holder of `y` recovers `s~ = s^ - H_E(yU)`;
//! pVrfy then checks `s~G + Y = R + cX`, Adapt outputs `(R, s~ + y)`, and
//! Extract computes `y = s - s~` from the extraction key.

use ark_std::rand::rngs::StdRng;
use vstd::prelude::*;

use crate::arith::{be_nat, extend_bytes, lemma_sub_mod_add_cancel, sub_mod};
use crate::error::AdaptorError;
use crate::keccak::{keccak256, keccak256_digest};
use crate::scheme1::{challenge, commitment_plus_challenge, full_signature_holds};
use crate::secp256k1::{group_order, secp256k1_generator_multiple, Point, Scalar};

pub use crate::scheme1::hash_challenge;

verus! {

/// The encrypted pre-signature `(R, U, s^)`.
#[derive(Clone, Copy, Debug)]
pub struct AdaptorPreSignature {
    pub commitment: Point,
    pub encryption_commitment: Point,
    pub encrypted_response: Scalar,
}

/// The full signature `(R, s)`.
#[derive(Clone, Copy, Debug)]
pub struct AdaptorFullSignature {
    pub commitment: Point,
    pub prover_response: Scalar,
}

/// The encrypted Schnorr adaptor scheme.
pub struct Schnorr;

// ------------------------------------------------------------------
// Specification
// ------------------------------------------------------------------

/// The mask `H_E(K)`, for `K = shared_secret * G` hashed in compressed form.
pub open spec fn mask(shared_secret: nat) -> nat {
    be_nat(keccak256(secp256k1_generator_multiple(shared_secret))) % group_order()
}

/// `s~ = s^ - H_E(yU)`: the response that the holder of `y` decrypts.
pub open spec fn decrypted_response(sig: AdaptorPreSignature, adaptor_sk: nat) -> nat {
    sub_mod(
        sig.encrypted_response@ as int,
        mask((sig.encryption_commitment@ * adaptor_sk) % group_order()) as int,
        group_order(),
    )
}

/// pVrfy: the decrypted response satisfies `s~G + Y = R + cX`.
pub open spec fn pre_signature_holds(
    sig: AdaptorPreSignature,
    adaptor_pk: nat,
    adaptor_sk: nat,
    signer_pk: nat,
    message: Seq<u8>,
) -> bool {
    crate::scheme1::pre_signature_holds(
        sig.commitment@,
        decrypted_response(sig, adaptor_sk),
        adaptor_pk,
        signer_pk,
        message,
    )
}

/// `(sig, ek)` is what pSign gives for the nonce `r` and the encryption
/// nonce `rho`: `R = rG + Y`, `s~ = cx + r`, `U = rho G`,
/// `s^ = s~ + H_E(rho Y)`, `ek = s~`.
pub open spec fn is_pre_signature_for(
    sig: AdaptorPreSignature,
    extraction_key: nat,
    adaptor_pk: nat,
    signer_pk: nat,
    signer_sk: nat,
    message: Seq<u8>,
    nonce: nat,
    encryption_nonce: nat,
) -> bool {
    &&& sig.commitment@ == (nonce + adaptor_pk) % group_order()
    &&& extraction_key == (challenge(sig.commitment@, signer_pk, message) * signer_sk + nonce)
        % group_order()
    &&& sig.encryption_commitment@ == encryption_nonce
    &&& sig.encrypted_response@ == (extraction_key + mask(
        (adaptor_pk * encryption_nonce) % group_order(),
    )) % group_order()
}

/// `(sig, ek)` is what pSign gives for some nonces.
pub open spec fn is_pre_signature(
    sig: AdaptorPreSignature,
    extraction_key: nat,
    adaptor_pk: nat,
    signer_pk: nat,
    signer_sk: nat,
    message: Seq<u8>,
) -> bool {
    exists|nonce: nat, encryption_nonce: nat|
        nonce < group_order() && encryption_nonce < group_order() && #[trigger]
        is_pre_signature_for(
            sig,
            extraction_key,
            adaptor_pk,
            signer_pk,
            signer_sk,
            message,
            nonce,
            encryption_nonce,
        )
}

/// `full` is `pre` decrypted and adapted with `adaptor_sk`: same `R`,
/// `s = s~ + y`.
pub open spec fn is_adaptation_of(
    full: AdaptorFullSignature,
    pre: AdaptorPreSignature,
    adaptor_sk: nat,
) -> bool {
    &&& full.commitment == pre.commitment
    &&& full.prover_response@ == (decrypted_response(pre, adaptor_sk) + adaptor_sk)
        % group_order()
}

// ------------------------------------------------------------------
// Laws
// ------------------------------------------------------------------

/// The holder of the witness `y` of `Y = yG` decrypts exactly the response
/// that the signer keeps as extraction key.
pub proof fn lemma_decryption_recovers_response(
    sig: AdaptorPreSignature,
    extraction_key: nat,
    adaptor_sk: nat,
    signer_pk: nat,
    signer_sk: nat,
    message: Seq<u8>,
)
    requires
        adaptor_sk < group_order(),
        is_pre_signature(sig, extraction_key, adaptor_sk, signer_pk, signer_sk, message),
    ensures
        decrypted_response(sig, adaptor_sk) == extraction_key,
{
    let (nonce, rho) = choose|nonce: nat, encryption_nonce: nat|
        nonce < group_order() && encryption_nonce < group_order() && #[trigger]
        is_pre_signature_for(
            sig,
            extraction_key,
            adaptor_sk,
            signer_pk,
            signer_sk,
            message,
            nonce,
            encryption_nonce,
        );
    vstd::arithmetic::mul::lemma_mul_is_commutative(adaptor_sk as int, rho as int);
    let m = mask((adaptor_sk * rho) % group_order());
    vstd::arithmetic::div_mod::lemma_mod_bound(m as int, group_order() as int);
    lemma_sub_mod_add_cancel(m, extraction_key, group_order());
}

/// A pre-signature made with the signer's key pair `(xG, x)` passes
/// pre-verification by the holder of the witness of `Y`.
pub proof fn lemma_pre_sign_verifies(
    sig: AdaptorPreSignature,
    extraction_key: nat,
    adaptor_sk: nat,
    signer_sk: nat,
    message: Seq<u8>,
)
    requires
        adaptor_sk < group_order(),
        signer_sk < group_order(),
        is_pre_signature(sig, extraction_key, adaptor_sk, signer_sk, signer_sk, message),
    ensures
        pre_signature_holds(sig, adaptor_sk, adaptor_sk, signer_sk, message),
{
    lemma_decryption_recovers_response(
        sig,
        extraction_key,
        adaptor_sk,
        signer_sk,
        signer_sk,
        message,
    );
    let (nonce, rho) = choose|nonce: nat, encryption_nonce: nat|
        nonce < group_order() && encryption_nonce < group_order() && #[trigger]
        is_pre_signature_for(
            sig,
            extraction_key,
            adaptor_sk,
            signer_sk,
            signer_sk,
            message,
            nonce,
            encryption_nonce,
        );
    crate::scheme1::lemma_pre_sign_verifies(nonce, adaptor_sk, signer_sk, message);
}

/// Adapting a pre-signature that passes pre-verification for `Y = yG` with
/// the witness `y` gives a full signature that passes verification.
pub proof fn lemma_adapt_verifies(
    pre: AdaptorPreSignature,
    full: AdaptorFullSignature,
    adaptor_sk: nat,
    signer_pk: nat,
    message: Seq<u8>,
)
    requires
        adaptor_sk < group_order(),
        pre_signature_holds(pre, adaptor_sk, adaptor_sk, signer_pk, message),
        is_adaptation_of(full, pre, adaptor_sk),
    ensures
        full_signature_holds(full.commitment@, full.prover_response@, signer_pk, message),
{
    let q = group_order() as int;
    let s = decrypted_response(pre, adaptor_sk);
    vstd::arithmetic::div_mod::lemma_mod_bound(
        pre.encrypted_response@ - mask((pre.encryption_commitment@ * adaptor_sk) % group_order()),
        q,
    );
    crate::scheme1::lemma_adapt_verifies(pre.commitment@, s, adaptor_sk, signer_pk, message);
}

/// Extracting with the extraction key from the adaptation of an honestly
/// made pre-signature gives the witness back.
pub proof fn lemma_extract_recovers_witness(
    pre: AdaptorPreSignature,
    full: AdaptorFullSignature,
    extraction_key: nat,
    adaptor_sk: nat,
    signer_pk: nat,
    signer_sk: nat,
    message: Seq<u8>,
)
    requires
        adaptor_sk < group_order(),
        is_pre_signature(pre, extraction_key, adaptor_sk, signer_pk, signer_sk, message),
        is_adaptation_of(full, pre, adaptor_sk),
    ensures
        sub_mod(full.prover_response@ as int, extraction_key as int, group_order()) == adaptor_sk,
{
    lemma_decryption_recovers_response(
        pre,
        extraction_key,
        adaptor_sk,
        signer_pk,
        signer_sk,
        message,
    );
    let (nonce, rho) = choose|nonce: nat, encryption_nonce: nat|
        nonce < group_order() && encryption_nonce < group_order() && #[trigger]
        is_pre_signature_for(
            pre,
            extraction_key,
            adaptor_sk,
            signer_pk,
            signer_sk,
            message,
            nonce,
            encryption_nonce,
        );
    vstd::arithmetic::div_mod::lemma_mod_bound(
        (challenge(pre.commitment@, signer_pk, message) * signer_sk + nonce) as int,
        group_order() as int,
    );
    lemma_sub_mod_add_cancel(extraction_key, adaptor_sk, group_order());
}


/// The mask is the Keccak-256 digest, read big-endian modulo the order, of
/// the compressed encoding of the shared point.
pub proof fn lemma_mask_is_keccak(shared_secret: nat)
    ensures
        mask(shared_secret) == be_nat(keccak256(secp256k1_generator_multiple(shared_secret)))
            % group_order(),
{
}

// ------------------------------------------------------------------
// Algorithms
// ------------------------------------------------------------------

/// The mask `h = H_E(K)`.
pub fn hash_shared_secret(shared_secret: &Point) -> (h: Scalar)
    ensures
        h@ == mask(shared_secret@),
{
    let mut transcript: Vec<u8> = Vec::new();
    extend_bytes(&mut transcript, &shared_secret.to_bytes());
    let digest = keccak256_digest(transcript.as_slice());
    Scalar::from_be_bytes_mod_order(&digest)
}

/// `s~ = s^ - H_E(yU)`.
fn decrypt_response(signature: &AdaptorPreSignature, adaptor_sk: &Scalar) -> (s: Scalar)
    ensures
        s@ == decrypted_response(*signature, adaptor_sk@),
{
    let shared_secret = signature.encryption_commitment.mul(adaptor_sk);
    let mask = hash_shared_secret(&shared_secret);
    signature.encrypted_response.sub(&mask)
}

impl Schnorr {
    /// pSign for given nonces `r` and `rho`; returns the pre-signature and
    /// the extraction key `s~`.
    pub fn pre_sign_with_nonces(
        adaptor_pk: &Point,
        signer_pk: &Point,
        signer_sk: &Scalar,
        message: &[u8],
        nonce: &Scalar,
        encryption_nonce: &Scalar,
    ) -> (r: (AdaptorPreSignature, Scalar))
        ensures
            is_pre_signature_for(
                r.0,
                r.1@,
                adaptor_pk@,
                signer_pk@,
                signer_sk@,
                message@,
                nonce@,
                encryption_nonce@,
            ),
    {
        // Standard Schnorr adaptor pre-signature.
        let commitment = Point::mul_generator(nonce).add(adaptor_pk);
        let verifier_challenge = hash_challenge(&commitment, signer_pk, message);
        let prover_response = verifier_challenge.mul(signer_sk).add(nonce);
        proof {
            Scalar::lemma_bounded(*nonce);
            vstd::arithmetic::div_mod::lemma_add_mod_noop(
                (verifier_challenge@ * signer_sk@) as int,
                nonce@ as int,
                group_order() as int,
            );
        }
        // DHIES-style encryption of s~.
        let encryption_commitment = Point::mul_generator(encryption_nonce);
        let shared_secret = adaptor_pk.mul(encryption_nonce);
        let mask = hash_shared_secret(&shared_secret);
        let encrypted_response = prover_response.add(&mask);
        (AdaptorPreSignature { commitment, encryption_commitment, encrypted_response }, prover_response)
    }
}

/// The algorithms of the encrypted adaptor scheme.
pub trait AdaptorSignatureScheme {
    /// pSign: the pre-signature `(R, U, s^)` and the extraction key `s~`.
    fn pre_sign(
        adaptor_pk: &Point,
        signer_pk: &Point,
        signer_sk: &Scalar,
        message: &[u8],
        rng: &mut StdRng,
    ) -> (r: Result<(AdaptorPreSignature, Scalar), AdaptorError>)
        ensures
            r is Ok,
            r matches Ok((sig, ek)) ==> is_pre_signature(
                sig,
                ek@,
                adaptor_pk@,
                signer_pk@,
                signer_sk@,
                message@,
            ),
            r matches Ok((sig, ek)) ==> (signer_pk@ == signer_sk@ ==> pre_signature_holds(
                sig,
                adaptor_pk@,
                adaptor_pk@,
                signer_pk@,
                message@,
            )),
    ;

    /// pVrfy: decrypts `s~` with `y` and checks `s~G + Y = R + cX`.
    fn verify(
        signature: &AdaptorPreSignature,
        adaptor_pk: &Point,
        adaptor_sk: &Scalar,
        signer_pk: &Point,
        message: &[u8],
    ) -> (r: Result<(), AdaptorError>)
        ensures
            r is Ok <==> pre_signature_holds(
                *signature,
                adaptor_pk@,
                adaptor_sk@,
                signer_pk@,
                message@,
            ),
            r matches Err(e) ==> e == AdaptorError::PreSignatureVerification,
    ;

    /// Adapt: decrypts `s~` with `y` and outputs `(R, s~ + y)`.
    fn adapt(signature: &AdaptorPreSignature, adaptor_sk: &Scalar) -> (r: Result<
        AdaptorFullSignature,
        AdaptorError,
    >)
        ensures
            r matches Ok(full) && is_adaptation_of(full, *signature, adaptor_sk@),
    ;

    /// Extract: `y = s - ek`.
    fn extract(extraction_key: &Scalar, signature: &AdaptorFullSignature) -> (r: Result<
        Scalar,
        AdaptorError,
    >)
        ensures
            r matches Ok(y) && y@ == sub_mod(
                signature.prover_response@ as int,
                extraction_key@ as int,
                group_order(),
            ),
    ;

    /// Vrfy: checks `sG = R + cX`.
    fn verify_full_signature(
        signature: &AdaptorFullSignature,
        signer_pk: &Point,
        message: &[u8],
    ) -> (r: Result<(), AdaptorError>)
        ensures
            r is Ok <==> full_signature_holds(
                signature.commitment@,
                signature.prover_response@,
                signer_pk@,
                message@,
            ),
            r matches Err(e) ==> e == AdaptorError::SignatureVerification,
    ;
}

impl AdaptorSignatureScheme for Schnorr {
    fn pre_sign(
        adaptor_pk: &Point,
        signer_pk: &Point,
        signer_sk: &Scalar,
        message: &[u8],
        rng: &mut StdRng,
    ) -> (r: Result<(AdaptorPreSignature, Scalar), AdaptorError>) {
        let nonce = Scalar::random(rng);
        let encryption_nonce = Scalar::random(rng);
        let (sig, ek) = Schnorr::pre_sign_with_nonces(
            adaptor_pk,
            signer_pk,
            signer_sk,
            message,
            &nonce,
            &encryption_nonce,
        );
        proof {
            Scalar::lemma_bounded(nonce);
            Scalar::lemma_bounded(encryption_nonce);
            Scalar::lemma_bounded(*signer_sk);
            Point::lemma_bounded(*adaptor_pk);
            assert(is_pre_signature_for(
                sig,
                ek@,
                adaptor_pk@,
                signer_pk@,
                signer_sk@,
                message@,
                nonce@,
                encryption_nonce@,
            ));
            if signer_pk@ == signer_sk@ {
                lemma_pre_sign_verifies(sig, ek@, adaptor_pk@, signer_sk@, message@);
            }
        }
        Ok((sig, ek))
    }

    fn verify(
        signature: &AdaptorPreSignature,
        adaptor_pk: &Point,
        adaptor_sk: &Scalar,
        signer_pk: &Point,
        message: &[u8],
    ) -> (r: Result<(), AdaptorError>) {
        let prover_response = decrypt_response(signature, adaptor_sk);
        let left = Point::mul_generator(&prover_response).add(adaptor_pk);
        let right = commitment_plus_challenge(&signature.commitment, signer_pk, message);
        if left.equals(&right) {
            Ok(())
        } else {
            Err(AdaptorError::PreSignatureVerification)
        }
    }

    fn adapt(signature: &AdaptorPreSignature, adaptor_sk: &Scalar) -> (r: Result<
        AdaptorFullSignature,
        AdaptorError,
    >) {
        let prover_response = decrypt_response(signature, adaptor_sk);
        Ok(
            AdaptorFullSignature {
                commitment: signature.commitment,
                prover_response: prover_response.add(adaptor_sk),
            },
        )
    }

    fn extract(extraction_key: &Scalar, signature: &AdaptorFullSignature) -> (r: Result<
        Scalar,
        AdaptorError,
    >) {
        Ok(signature.prover_response.sub(extraction_key))
    }

    fn verify_full_signature(
        signature: &AdaptorFullSignature,
        signer_pk: &Point,
        message: &[u8],
    ) -> (r: Result<(), AdaptorError>) {
        let left = Point::mul_generator(&signature.prover_response);
        let right = commitment_plus_challenge(&signature.commitment, signer_pk, message);
        proof {
            Scalar::lemma_bounded(signature.prover_response);
            vstd::arithmetic::div_mod::lemma_small_mod(
                signature.prover_response@,
                group_order(),
            );
        }
        if left.equals(&right) {
            Ok(())
        } else {
            Err(AdaptorError::SignatureVerification)
        }
    }
}

} // verus!
