//! The Schnorr adaptor signature enhanced with a proof of knowledge of the
//! nonce, over secp256k1 with Keccak-256.
//!
//! - pSign': the scheme-1 pre-signature `(R^, s~)` with `R^ = rG + Y` and
//!   `s~ = r + cx`, plus a Schnorr proof of knowledge of `r`: `R' = r'G`,
//!   `c' = HProve(X || m || R^ || s~ || Y || R')`, `s' = r' + c'r`;
//! - pVrfy': `s~G + Y = R^ + cX` and `s'G = R' + c'(R^ - Y)`;
//! - Adapt' and Extract' ignore the proof: `s = s~ + y`, `y = s - s~`.

use ark_std::rand::rngs::StdRng;
use vstd::prelude::*;

use crate::arith::{be_nat, extend_bytes, le_encoding, lemma_sub_mod_add_cancel, sub_mod};
use crate::error::AdaptorError;
use crate::keccak::{keccak256, keccak256_digest};
use crate::scheme1::{challenge, commitment_plus_challenge, full_signature_holds, pre_signature_holds};
use crate::secp256k1::{group_order, secp256k1_generator_multiple, Point, Scalar};

pub use crate::scheme1::hash_challenge;

verus! {

/// The enhanced pre-signature `((R^, s~), (R', s'))`.
#[derive(Clone, Copy, Debug)]
pub struct AdaptorPreSignature {
    pub commitment: Point,
    pub prover_response: Scalar,
    pub proof_commitment: Point,
    pub proof_response: Scalar,
}

/// The full signature `(R^, s)`.
#[derive(Clone, Copy, Debug)]
pub struct AdaptorFullSignature {
    pub commitment: Point,
    pub prover_response: Scalar,
}

/// The enhanced Schnorr adaptor scheme.
pub struct Schnorr;

// ------------------------------------------------------------------
// Specification
// ------------------------------------------------------------------

/// The domain tag `"HProve"`.
pub open spec fn hprove_tag() -> Seq<u8> {
    seq![72u8, 80u8, 114u8, 111u8, 118u8, 101u8]
}

/// `c' = HProve(X || m || R^ || s~ || Y || R')`.
pub open spec fn proof_challenge(
    signer_pk: nat,
    message: Seq<u8>,
    commitment: nat,
    prover_response: nat,
    adaptor_pk: nat,
    proof_commitment: nat,
) -> nat {
    be_nat(
        keccak256(
            hprove_tag() + secp256k1_generator_multiple(signer_pk) + message
                + secp256k1_generator_multiple(commitment) + le_encoding(prover_response, 32)
                + secp256k1_generator_multiple(adaptor_pk) + secp256k1_generator_multiple(
                proof_commitment,
            ),
        ),
    ) % group_order()
}

/// The proof check `s'G = R' + c'(R^ - Y)`, over logarithms.
pub open spec fn proof_holds(
    sig: AdaptorPreSignature,
    adaptor_pk: nat,
    signer_pk: nat,
    message: Seq<u8>,
) -> bool {
    let c = proof_challenge(
        signer_pk,
        message,
        sig.commitment@,
        sig.prover_response@,
        adaptor_pk,
        sig.proof_commitment@,
    );
    sig.proof_response@ == (sig.proof_commitment@ + c * sub_mod(
        sig.commitment@ as int,
        adaptor_pk as int,
        group_order(),
    )) % group_order()
}

/// `sig` is what pSign' gives for the nonce `r` and the proof nonce `r'`.
pub open spec fn is_pre_signature_for(
    sig: AdaptorPreSignature,
    adaptor_pk: nat,
    signer_pk: nat,
    signer_sk: nat,
    message: Seq<u8>,
    nonce: nat,
    proof_nonce: nat,
) -> bool {
    &&& sig.commitment@ == (nonce + adaptor_pk) % group_order()
    &&& sig.prover_response@ == (challenge(sig.commitment@, signer_pk, message) * signer_sk
        + nonce) % group_order()
    &&& sig.proof_commitment@ == proof_nonce
    &&& sig.proof_response@ == (proof_nonce + proof_challenge(
        signer_pk,
        message,
        sig.commitment@,
        sig.prover_response@,
        adaptor_pk,
        proof_nonce,
    ) * nonce) % group_order()
}

/// `sig` is what pSign' gives for some nonces.
pub open spec fn is_pre_signature(
    sig: AdaptorPreSignature,
    adaptor_pk: nat,
    signer_pk: nat,
    signer_sk: nat,
    message: Seq<u8>,
) -> bool {
    exists|nonce: nat, proof_nonce: nat|
        nonce < group_order() && proof_nonce < group_order() && #[trigger] is_pre_signature_for(
            sig,
            adaptor_pk,
            signer_pk,
            signer_sk,
            message,
            nonce,
            proof_nonce,
        )
}

/// `full` is `pre` adapted with `adaptor_sk`: same `R^`, `s = s~ + y`.
pub open spec fn is_adaptation_of(
    full: AdaptorFullSignature,
    pre: AdaptorPreSignature,
    adaptor_sk: nat,
) -> bool {
    &&& full.commitment == pre.commitment
    &&& full.prover_response@ == (pre.prover_response@ + adaptor_sk) % group_order()
}

// ------------------------------------------------------------------
// Laws
// ------------------------------------------------------------------

/// The proof attached by pSign' verifies, whatever the keys: `R^ - Y` is
/// `rG`, and `s' = r' + c'r`.
pub proof fn lemma_proof_verifies(
    sig: AdaptorPreSignature,
    adaptor_pk: nat,
    signer_pk: nat,
    signer_sk: nat,
    message: Seq<u8>,
    nonce: nat,
    proof_nonce: nat,
)
    requires
        nonce < group_order(),
        adaptor_pk < group_order(),
        is_pre_signature_for(sig, adaptor_pk, signer_pk, signer_sk, message, nonce, proof_nonce),
    ensures
        proof_holds(sig, adaptor_pk, signer_pk, message),
{
    vstd::arithmetic::mul::lemma_mul_is_commutative(
        nonce as int,
        proof_challenge(
            signer_pk,
            message,
            sig.commitment@,
            sig.prover_response@,
            adaptor_pk,
            proof_nonce,
        ) as int,
    );
    vstd::arithmetic::div_mod::lemma_mod_bound((nonce + adaptor_pk) as int, group_order() as int);
    vstd::arithmetic::div_mod::lemma_small_mod(adaptor_pk, group_order());
    vstd::arithmetic::div_mod::lemma_small_mod(nonce, group_order());
    vstd::arithmetic::div_mod::lemma_sub_mod_noop((nonce + adaptor_pk) as int, adaptor_pk as int, group_order() as int);
    vstd::arithmetic::div_mod::lemma_mod_twice((nonce + adaptor_pk) as int, group_order() as int);
}

/// A pre-signature made by pSign' with the signer's key pair `(xG, x)`
/// passes both checks of pVrfy'.
pub proof fn lemma_pre_sign_verifies(
    sig: AdaptorPreSignature,
    adaptor_pk: nat,
    signer_sk: nat,
    message: Seq<u8>,
)
    requires
        adaptor_pk < group_order(),
        signer_sk < group_order(),
        is_pre_signature(sig, adaptor_pk, signer_sk, signer_sk, message),
    ensures
        pre_signature_holds(sig.commitment@, sig.prover_response@, adaptor_pk, signer_sk, message),
        proof_holds(sig, adaptor_pk, signer_sk, message),
{
    let (nonce, proof_nonce) = choose|nonce: nat, proof_nonce: nat|
        nonce < group_order() && proof_nonce < group_order() && #[trigger] is_pre_signature_for(
            sig,
            adaptor_pk,
            signer_sk,
            signer_sk,
            message,
            nonce,
            proof_nonce,
        );
    crate::scheme1::lemma_pre_sign_verifies(nonce, adaptor_pk, signer_sk, message);
    lemma_proof_verifies(sig, adaptor_pk, signer_sk, signer_sk, message, nonce, proof_nonce);
}

/// Adapting a pre-signature whose first check passes for `Y = yG` with the
/// witness `y` gives a Schnorr signature that verifies.
pub proof fn lemma_adapt_verifies(
    pre: AdaptorPreSignature,
    full: AdaptorFullSignature,
    adaptor_sk: nat,
    signer_pk: nat,
    message: Seq<u8>,
)
    requires
        adaptor_sk < group_order(),
        pre_signature_holds(pre.commitment@, pre.prover_response@, adaptor_sk, signer_pk, message),
        is_adaptation_of(full, pre, adaptor_sk),
    ensures
        full_signature_holds(full.commitment@, full.prover_response@, signer_pk, message),
{
    Scalar::lemma_bounded(pre.prover_response);
    crate::scheme1::lemma_adapt_verifies(
        pre.commitment@,
        pre.prover_response@,
        adaptor_sk,
        signer_pk,
        message,
    );
}

/// Extracting from a pre-signature and its adaptation with `k` gives `k`.
pub proof fn lemma_extract_inverts_adapt(pre: AdaptorPreSignature, full: AdaptorFullSignature, k: nat)
    requires
        k < group_order(),
        is_adaptation_of(full, pre, k),
    ensures
        sub_mod(full.prover_response@ as int, pre.prover_response@ as int, group_order()) == k,
{
    Scalar::lemma_bounded(pre.prover_response);
    lemma_sub_mod_add_cancel(pre.prover_response@, k, group_order());
}


/// The proof challenge is the Keccak-256 digest, read big-endian modulo the
/// order, of `"HProve" || X || m || R^ || s~ || Y || R'`: it covers the
/// whole message, the pre-signature, the statement and the proof
/// commitment.
pub proof fn lemma_proof_challenge_is_keccak(
    signer_pk: nat,
    message: Seq<u8>,
    commitment: nat,
    prover_response: nat,
    adaptor_pk: nat,
    proof_commitment: nat,
)
    ensures
        proof_challenge(
            signer_pk,
            message,
            commitment,
            prover_response,
            adaptor_pk,
            proof_commitment,
        ) == be_nat(
            keccak256(
                seq![72u8, 80u8, 114u8, 111u8, 118u8, 101u8] + secp256k1_generator_multiple(signer_pk)
                + message + secp256k1_generator_multiple(commitment) + le_encoding(
                prover_response,
                32,
            ) + secp256k1_generator_multiple(adaptor_pk) + secp256k1_generator_multiple(
                proof_commitment,
            ),
            ),
        ) % group_order(),
{
}

/// The proof check accepts exactly the response `s' = r' + c'(R^ - Y)`, with
/// `c'` the Keccak-256 digest of `"HProve" || X || m || R^ || s~ || Y || R'`
/// read modulo the order: for a given `R'` every other response is refused.
pub proof fn lemma_proof_accepts_one_response(
    sig: AdaptorPreSignature,
    adaptor_pk: nat,
    signer_pk: nat,
    message: Seq<u8>,
)
    ensures
        ({
            let commitment = sig.commitment@;
            let prover_response = sig.prover_response@;
            let proof_commitment = sig.proof_commitment@;
            let c = be_nat(
                keccak256(
                    seq![72u8, 80u8, 114u8, 111u8, 118u8, 101u8] + secp256k1_generator_multiple(signer_pk)
                + message + secp256k1_generator_multiple(commitment) + le_encoding(
                prover_response,
                32,
            ) + secp256k1_generator_multiple(adaptor_pk) + secp256k1_generator_multiple(
                proof_commitment,
            ),
                ),
            ) % group_order();
            proof_holds(sig, adaptor_pk, signer_pk, message) <==> sig.proof_response@ == (
            proof_commitment + c * sub_mod(commitment as int, adaptor_pk as int, group_order()))
                % group_order()
        }),
{
}

// ------------------------------------------------------------------
// Algorithms
// ------------------------------------------------------------------

/// `c' = HProve(X || m || R^ || s~ || Y || R')`, domain-separated with
/// `"HProve"`.
pub fn hash_proof_challenge(
    signer_pk: &Point,
    message: &[u8],
    commitment: &Point,
    prover_response: &Scalar,
    adaptor_pk: &Point,
    proof_commitment: &Point,
) -> (c: Scalar)
    ensures
        c@ == proof_challenge(
            signer_pk@,
            message@,
            commitment@,
            prover_response@,
            adaptor_pk@,
            proof_commitment@,
        ),
{
    let mut transcript: Vec<u8> = Vec::new();
    transcript.push(72u8);
    transcript.push(80u8);
    transcript.push(114u8);
    transcript.push(111u8);
    transcript.push(118u8);
    transcript.push(101u8);
    extend_bytes(&mut transcript, &signer_pk.to_bytes());
    extend_bytes(&mut transcript, message);
    extend_bytes(&mut transcript, &commitment.to_bytes());
    extend_bytes(&mut transcript, &prover_response.to_bytes());
    extend_bytes(&mut transcript, &adaptor_pk.to_bytes());
    extend_bytes(&mut transcript, &proof_commitment.to_bytes());
    let digest = keccak256_digest(transcript.as_slice());
    proof {
        assert(transcript@ =~= hprove_tag() + secp256k1_generator_multiple(signer_pk@) + message@
            + secp256k1_generator_multiple(commitment@) + le_encoding(prover_response@, 32)
            + secp256k1_generator_multiple(adaptor_pk@) + secp256k1_generator_multiple(
            proof_commitment@,
        ));
    }
    Scalar::from_be_bytes_mod_order(&digest)
}

impl Schnorr {
    /// pSign' for given nonces `r` and `r'`.
    pub fn pre_sign_with_nonces(
        adaptor_pk: &Point,
        signer_pk: &Point,
        signer_sk: &Scalar,
        message: &[u8],
        nonce: &Scalar,
        proof_nonce: &Scalar,
    ) -> (sig: AdaptorPreSignature)
        ensures
            is_pre_signature_for(
                sig,
                adaptor_pk@,
                signer_pk@,
                signer_sk@,
                message@,
                nonce@,
                proof_nonce@,
            ),
    {
        // Standard Schnorr adaptor pre-signature.
        let commitment = Point::mul_generator(nonce).add(adaptor_pk);
        let verifier_challenge = hash_challenge(&commitment, signer_pk, message);
        let prover_response = verifier_challenge.mul(signer_sk).add(nonce);
        proof {
            vstd::arithmetic::div_mod::lemma_add_mod_noop(
                (verifier_challenge@ * signer_sk@) as int,
                nonce@ as int,
                group_order() as int,
            );
        }
        // Schnorr-style proof of knowledge of r.
        let proof_commitment = Point::mul_generator(proof_nonce);
        let proof_challenge = hash_proof_challenge(
            signer_pk,
            message,
            &commitment,
            &prover_response,
            adaptor_pk,
            &proof_commitment,
        );
        let proof_response = proof_nonce.add(&proof_challenge.mul(nonce));
        proof {
            vstd::arithmetic::div_mod::lemma_add_mod_noop_right(
                proof_nonce@ as int,
                (proof_challenge@ * nonce@) as int,
                group_order() as int,
            );
        }
        AdaptorPreSignature { commitment, prover_response, proof_commitment, proof_response }
    }
}

/// The algorithms of the enhanced adaptor scheme.
pub trait AdaptorSignatureScheme {
    /// pSign': the pre-signature and a proof of knowledge of its nonce.
    fn pre_sign(
        adaptor_pk: &Point,
        signer_pk: &Point,
        signer_sk: &Scalar,
        message: &[u8],
        rng: &mut StdRng,
    ) -> (r: Result<AdaptorPreSignature, AdaptorError>)
        ensures
            r is Ok,
            r matches Ok(sig) ==> is_pre_signature(
                sig,
                adaptor_pk@,
                signer_pk@,
                signer_sk@,
                message@,
            ),
            r matches Ok(sig) ==> (signer_pk@ == signer_sk@ ==> pre_signature_holds(
                sig.commitment@,
                sig.prover_response@,
                adaptor_pk@,
                signer_pk@,
                message@,
            ) && proof_holds(sig, adaptor_pk@, signer_pk@, message@)),
    ;

    /// pVrfy': checks `s~G + Y = R^ + cX`, then `s'G = R' + c'(R^ - Y)`.
    fn verify(
        signature: &AdaptorPreSignature,
        adaptor_pk: &Point,
        signer_pk: &Point,
        message: &[u8],
    ) -> (r: Result<(), AdaptorError>)
        ensures
            r == Err::<(), AdaptorError>(AdaptorError::PreSignatureVerification)
                <==> !pre_signature_holds(
                signature.commitment@,
                signature.prover_response@,
                adaptor_pk@,
                signer_pk@,
                message@,
            ),
            r == Err::<(), AdaptorError>(AdaptorError::ProofVerification) <==> (
            pre_signature_holds(
                signature.commitment@,
                signature.prover_response@,
                adaptor_pk@,
                signer_pk@,
                message@,
            ) && !proof_holds(*signature, adaptor_pk@, signer_pk@, message@)),
            r is Ok <==> (pre_signature_holds(
                signature.commitment@,
                signature.prover_response@,
                adaptor_pk@,
                signer_pk@,
                message@,
            ) && proof_holds(*signature, adaptor_pk@, signer_pk@, message@)),
    ;

    /// Adapt': `s = s~ + y`; the proof is dropped.
    fn adapt(signature: &AdaptorPreSignature, adaptor_sk: &Scalar) -> (r: Result<
        AdaptorFullSignature,
        AdaptorError,
    >)
        ensures
            r matches Ok(full) && is_adaptation_of(full, *signature, adaptor_sk@),
    ;

    /// Extract': `y = s - s~`.
    fn extract(pre_signature: &AdaptorPreSignature, signature: &AdaptorFullSignature) -> (r:
        Result<Scalar, AdaptorError>)
        ensures
            r matches Ok(y) && y@ == sub_mod(
                signature.prover_response@ as int,
                pre_signature.prover_response@ as int,
                group_order(),
            ),
    ;
}

impl AdaptorSignatureScheme for Schnorr {
    fn pre_sign(
        adaptor_pk: &Point,
        signer_pk: &Point,
        signer_sk: &Scalar,
        message: &[u8],
        rng: &mut StdRng,
    ) -> (r: Result<AdaptorPreSignature, AdaptorError>) {
        let nonce = Scalar::random(rng);
        let proof_nonce = Scalar::random(rng);
        let sig = Schnorr::pre_sign_with_nonces(
            adaptor_pk,
            signer_pk,
            signer_sk,
            message,
            &nonce,
            &proof_nonce,
        );
        proof {
            Scalar::lemma_bounded(nonce);
            Scalar::lemma_bounded(proof_nonce);
            Scalar::lemma_bounded(*signer_sk);
            Point::lemma_bounded(*adaptor_pk);
            assert(is_pre_signature_for(
                sig,
                adaptor_pk@,
                signer_pk@,
                signer_sk@,
                message@,
                nonce@,
                proof_nonce@,
            ));
            if signer_pk@ == signer_sk@ {
                lemma_pre_sign_verifies(sig, adaptor_pk@, signer_sk@, message@);
            }
        }
        Ok(sig)
    }

    fn verify(
        signature: &AdaptorPreSignature,
        adaptor_pk: &Point,
        signer_pk: &Point,
        message: &[u8],
    ) -> (r: Result<(), AdaptorError>) {
        // 1. Standard adaptor pre-signature verification.
        let left = Point::mul_generator(&signature.prover_response).add(adaptor_pk);
        let right = commitment_plus_challenge(&signature.commitment, signer_pk, message);
        if !left.equals(&right) {
            return Err(AdaptorError::PreSignatureVerification);
        }
        // 2. Schnorr-style proof-of-knowledge verification.
        let proof_challenge = hash_proof_challenge(
            signer_pk,
            message,
            &signature.commitment,
            &signature.prover_response,
            adaptor_pk,
            &signature.proof_commitment,
        );
        let nonce_commitment = signature.commitment.sub(adaptor_pk);
        let proof_left = Point::mul_generator(&signature.proof_response);
        let proof_right = signature.proof_commitment.add(&nonce_commitment.mul(&proof_challenge));
        proof {
            vstd::arithmetic::div_mod::lemma_add_mod_noop_right(
                signature.proof_commitment@ as int,
                (nonce_commitment@ * proof_challenge@) as int,
                group_order() as int,
            );
            vstd::arithmetic::mul::lemma_mul_is_commutative(
                nonce_commitment@ as int,
                proof_challenge@ as int,
            );
        }
        if !proof_left.equals(&proof_right) {
            return Err(AdaptorError::ProofVerification);
        }
        Ok(())
    }

    fn adapt(signature: &AdaptorPreSignature, adaptor_sk: &Scalar) -> (r: Result<
        AdaptorFullSignature,
        AdaptorError,
    >) {
        Ok(
            AdaptorFullSignature {
                commitment: signature.commitment,
                prover_response: signature.prover_response.add(adaptor_sk),
            },
        )
    }

    fn extract(pre_signature: &AdaptorPreSignature, signature: &AdaptorFullSignature) -> (r:
        Result<Scalar, AdaptorError>) {
        Ok(signature.prover_response.sub(&pre_signature.prover_response))
    }
}

} // verus!
