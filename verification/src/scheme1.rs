//! The Schnorr adaptor signature over secp256k1 with Keccak-256.
//!
//! With `G` the generator, `X = xG` the signer's key and `Y = yG` the
//! adaptor statement:
//!
//! - pSign: `R = rG + Y`, `c = H(R || X || m)`, `s~ = r + cx`;
//! - pVrfy: `s~G + Y = R + cX`;
//! - Adapt: `s = s~ + y`;
//! - Extract: `y = s - s~`;
//! - Vrfy: `sG = R + cX`.
//!
//! Points are viewed as their discrete logarithms, so every equation above is
//! stated modulo the group order.

use ark_std::rand::rngs::StdRng;
use vstd::prelude::*;

use crate::arith::{
    be_nat, extend_bytes, lemma_cancel_factor, lemma_cong_add, lemma_sub_mod_add_cancel,
    lemma_suffix_distinct, sub_mod,
};
use crate::error::AdaptorError;
use crate::keccak::{keccak256, keccak256_digest};
use crate::secp256k1::{group_order, secp256k1_generator_multiple, Point, Scalar};

verus! {

/// The pre-signature `(R, s~)`.
#[derive(Clone, Copy, Debug)]
pub struct AdaptorPreSignature {
    pub commitment: Point,
    pub prover_response: Scalar,
}

/// The full signature `(R, s)`.
#[derive(Clone, Copy, Debug)]
pub struct AdaptorFullSignature {
    pub commitment: Point,
    pub prover_response: Scalar,
}

/// The Schnorr adaptor scheme over secp256k1 with Keccak-256.
pub struct Schnorr;

// ------------------------------------------------------------------
// Specification
// ------------------------------------------------------------------

/// The challenge `c = H(R || X || m)`, with `R = commitment * G` and
/// `X = signer_pk * G` hashed in compressed form and the digest read as a
/// big-endian integer modulo the order.
pub open spec fn challenge(commitment: nat, signer_pk: nat, message: Seq<u8>) -> nat {
    be_nat(
        keccak256(
            secp256k1_generator_multiple(commitment) + secp256k1_generator_multiple(signer_pk)
                + message,
        ),
    ) % group_order()
}

/// The pre-verification equation `s~G + Y = R + cX`, over logarithms.
pub open spec fn pre_signature_holds(
    commitment: nat,
    response: nat,
    adaptor_pk: nat,
    signer_pk: nat,
    message: Seq<u8>,
) -> bool {
    (response + adaptor_pk) % group_order() == (commitment + challenge(
        commitment,
        signer_pk,
        message,
    ) * signer_pk) % group_order()
}

/// The verification equation `sG = R + cX`, over logarithms.
pub open spec fn full_signature_holds(
    commitment: nat,
    response: nat,
    signer_pk: nat,
    message: Seq<u8>,
) -> bool {
    response % group_order() == (commitment + challenge(commitment, signer_pk, message)
        * signer_pk) % group_order()
}

/// `sig` is what pSign gives for nonce `r`: `R = rG + Y`, `s~ = cx + r`.
pub open spec fn is_pre_signature_for(
    sig: AdaptorPreSignature,
    adaptor_pk: nat,
    signer_pk: nat,
    signer_sk: nat,
    message: Seq<u8>,
    nonce: nat,
) -> bool {
    &&& sig.commitment@ == (nonce + adaptor_pk) % group_order()
    &&& sig.prover_response@ == (challenge(sig.commitment@, signer_pk, message) * signer_sk
        + nonce) % group_order()
}

/// `sig` is what pSign gives for some nonce.
pub open spec fn is_pre_signature(
    sig: AdaptorPreSignature,
    adaptor_pk: nat,
    signer_pk: nat,
    signer_sk: nat,
    message: Seq<u8>,
) -> bool {
    exists|nonce: nat|
        nonce < group_order() && #[trigger] is_pre_signature_for(
            sig,
            adaptor_pk,
            signer_pk,
            signer_sk,
            message,
            nonce,
        )
}

/// `full` is `pre` adapted with `adaptor_sk`: same `R`, `s = s~ + y`.
pub open spec fn is_adaptation_of(
    full: AdaptorFullSignature,
    pre: AdaptorPreSignature,
    adaptor_sk: nat,
) -> bool {
    &&& full.commitment == pre.commitment
    &&& full.prover_response@ == (pre.prover_response@ + adaptor_sk) % group_order()
}

// ------------------------------------------------------------------
// Laws
// ------------------------------------------------------------------

/// A pre-signature made with the signer's key pair `(xG, x)` passes
/// pre-verification, whatever the nonce, statement and message.
pub proof fn lemma_pre_sign_verifies(nonce: nat, adaptor_pk: nat, signer_sk: nat, message: Seq<u8>)
    requires
        nonce < group_order(),
        adaptor_pk < group_order(),
        signer_sk < group_order(),
    ensures
        ({
            let commitment = (nonce + adaptor_pk) % group_order();
            let response = (challenge(commitment, signer_sk, message) * signer_sk + nonce)
                % group_order();
            pre_signature_holds(commitment, response, adaptor_pk, signer_sk, message)
        }),
{
    let q = group_order() as int;
    let commitment = (nonce + adaptor_pk) % group_order();
    let cx = challenge(commitment, signer_sk, message) * signer_sk;
    vstd::arithmetic::div_mod::lemma_add_mod_noop_right(adaptor_pk as int, (cx + nonce) as int, q);
    vstd::arithmetic::div_mod::lemma_add_mod_noop_right(cx as int, (nonce + adaptor_pk) as int, q);
}

/// Adapting a pre-signature that passes pre-verification for `Y = yG` with
/// the witness `y` gives a full signature that passes verification.
pub proof fn lemma_adapt_verifies(
    commitment: nat,
    response: nat,
    adaptor_sk: nat,
    signer_pk: nat,
    message: Seq<u8>,
)
    requires
        response < group_order(),
        adaptor_sk < group_order(),
        pre_signature_holds(commitment, response, adaptor_sk, signer_pk, message),
    ensures
        full_signature_holds(
            commitment,
            (response + adaptor_sk) % group_order(),
            signer_pk,
            message,
        ),
{
    vstd::arithmetic::div_mod::lemma_mod_twice(
        (response + adaptor_sk) as int,
        group_order() as int,
    );
}

/// Extracting from a pre-signature and its adaptation with `k` gives `k` back.
pub proof fn lemma_extract_inverts_adapt(response: nat, k: nat)
    requires
        response < group_order(),
        k < group_order(),
    ensures
        sub_mod(((response + k) % group_order()) as int, response as int, group_order()) == k,
{
    lemma_sub_mod_add_cancel(response, k, group_order());
}

/// When a pre-signature passes pre-verification for `Y` and a full signature
/// with the same `R` passes verification, extraction gives the logarithm of
/// `Y`: a witness for the statement.
pub proof fn lemma_extract_finds_witness(
    commitment: nat,
    pre_response: nat,
    full_response: nat,
    adaptor_pk: nat,
    signer_pk: nat,
    message: Seq<u8>,
)
    requires
        pre_response < group_order(),
        full_response < group_order(),
        adaptor_pk < group_order(),
        pre_signature_holds(commitment, pre_response, adaptor_pk, signer_pk, message),
        full_signature_holds(commitment, full_response, signer_pk, message),
    ensures
        sub_mod(full_response as int, pre_response as int, group_order()) == adaptor_pk,
{
    vstd::arithmetic::div_mod::lemma_small_mod(full_response, group_order());
    lemma_extract_inverts_adapt(pre_response, adaptor_pk);
}

/// A pre-signature that passes pre-verification for one statement fails it
/// for every other statement.
pub proof fn lemma_pre_signature_binds_statement(
    commitment: nat,
    response: nat,
    adaptor_pk: nat,
    other_pk: nat,
    signer_pk: nat,
    message: Seq<u8>,
)
    requires
        adaptor_pk < group_order(),
        other_pk < group_order(),
        adaptor_pk != other_pk,
        pre_signature_holds(commitment, response, adaptor_pk, signer_pk, message),
    ensures
        !pre_signature_holds(commitment, response, other_pk, signer_pk, message),
{
    if pre_signature_holds(commitment, response, other_pk, signer_pk, message) {
        let q = group_order() as int;
        lemma_cong_add(
            (response + adaptor_pk) as int,
            -(response as int),
            (response + other_pk) as int,
            -(response as int),
            q,
        );
        vstd::arithmetic::div_mod::lemma_small_mod(adaptor_pk, group_order());
        vstd::arithmetic::div_mod::lemma_small_mod(other_pk, group_order());
    }
}

/// Adapting a pre-signature that passes pre-verification for `Y = yG` with
/// any value other than `y` gives a full signature that fails verification.
pub proof fn lemma_adapt_with_wrong_witness_fails(
    commitment: nat,
    response: nat,
    adaptor_sk: nat,
    other_sk: nat,
    signer_pk: nat,
    message: Seq<u8>,
)
    requires
        adaptor_sk < group_order(),
        other_sk < group_order(),
        adaptor_sk != other_sk,
        pre_signature_holds(commitment, response, adaptor_sk, signer_pk, message),
    ensures
        !full_signature_holds(commitment, (response + other_sk) % group_order(), signer_pk, message),
{
    vstd::arithmetic::div_mod::lemma_mod_twice((response + other_sk) as int, group_order() as int);
    if full_signature_holds(commitment, (response + other_sk) % group_order(), signer_pk, message) {
        lemma_pre_signature_binds_statement(
            commitment,
            response,
            adaptor_sk,
            other_sk,
            signer_pk,
            message,
        );
    }
}

/// When the signer's key is not the identity (it has an inverse modulo the
/// order, which `Scalar::inverse` gives for any nonzero key), a pre-signature that passes pre-verification for one message
/// passes it for another exactly when the two challenges are equal.
pub proof fn lemma_pre_signature_binds_message(
    commitment: nat,
    response: nat,
    adaptor_pk: nat,
    signer_pk: nat,
    signer_pk_inverse: nat,
    message: Seq<u8>,
    other_message: Seq<u8>,
)
    requires
        (signer_pk * signer_pk_inverse) % group_order() == 1,
        pre_signature_holds(commitment, response, adaptor_pk, signer_pk, message),
    ensures
        pre_signature_holds(commitment, response, adaptor_pk, signer_pk, other_message)
            <==> challenge(commitment, signer_pk, other_message) == challenge(
            commitment,
            signer_pk,
            message,
        ),
{
    let q = group_order() as int;
    let c1 = challenge(commitment, signer_pk, message) as int;
    let c2 = challenge(commitment, signer_pk, other_message) as int;
    if pre_signature_holds(commitment, response, adaptor_pk, signer_pk, other_message) {
        let x = signer_pk as int;
        lemma_cong_add(commitment + c1 * x, -(commitment as int), commitment + c2 * x,
            -(commitment as int), q);
        lemma_cancel_factor(c1, c2, x, signer_pk_inverse as int, q);
        vstd::arithmetic::div_mod::lemma_mod_bound(c1, q);
        vstd::arithmetic::div_mod::lemma_small_mod(c1 as nat, group_order());
        vstd::arithmetic::div_mod::lemma_small_mod(c2 as nat, group_order());
    }
}

/// The challenge is the Keccak-256 digest, read big-endian modulo the order,
/// of `R || X || m` with every byte of the message `m` in the transcript.
pub proof fn lemma_challenge_hashes_whole_message(commitment: nat, signer_pk: nat, message: Seq<u8>)
    ensures
        challenge(commitment, signer_pk, message) == be_nat(
            keccak256(
                secp256k1_generator_multiple(commitment) + secp256k1_generator_multiple(signer_pk)
                    + message,
            ),
        ) % group_order(),
{
}

/// Two different messages share a challenge only through a Keccak-256
/// collision (modulo the order) on two different transcripts, each of which
/// holds its whole message.
pub proof fn lemma_challenge_collision(
    commitment: nat,
    signer_pk: nat,
    message: Seq<u8>,
    other_message: Seq<u8>,
)
    requires
        message != other_message,
        challenge(commitment, signer_pk, message) == challenge(commitment, signer_pk, other_message),
    ensures
        ({
            let prefix = secp256k1_generator_multiple(commitment) + secp256k1_generator_multiple(
                signer_pk,
            );
            &&& prefix + message != prefix + other_message
            &&& be_nat(keccak256(prefix + message)) % group_order() == be_nat(
                keccak256(prefix + other_message),
            ) % group_order()
        }),
{
    let prefix = secp256k1_generator_multiple(commitment) + secp256k1_generator_multiple(signer_pk);
    lemma_suffix_distinct(prefix, message, other_message);
}

/// When the signer's key has an inverse modulo the order, a pre-signature
/// that passes pre-verification for two different messages does so only
/// through a Keccak-256 collision (modulo the order) on the two full
/// transcripts `R || X || m` and `R || X || m'`.
pub proof fn lemma_pre_signature_binds_whole_message(
    commitment: nat,
    response: nat,
    adaptor_pk: nat,
    signer_pk: nat,
    signer_pk_inverse: nat,
    message: Seq<u8>,
    other_message: Seq<u8>,
)
    requires
        message != other_message,
        (signer_pk * signer_pk_inverse) % group_order() == 1,
        pre_signature_holds(commitment, response, adaptor_pk, signer_pk, message),
        pre_signature_holds(commitment, response, adaptor_pk, signer_pk, other_message),
    ensures
        ({
            let prefix = secp256k1_generator_multiple(commitment) + secp256k1_generator_multiple(
                signer_pk,
            );
            &&& prefix + message != prefix + other_message
            &&& be_nat(keccak256(prefix + message)) % group_order() == be_nat(
                keccak256(prefix + other_message),
            ) % group_order()
        }),
{
    lemma_pre_signature_binds_message(
        commitment,
        response,
        adaptor_pk,
        signer_pk,
        signer_pk_inverse,
        message,
        other_message,
    );
    lemma_challenge_collision(commitment, signer_pk, message, other_message);
}

/// When the signer's key has an inverse modulo the order, a full signature
/// that verifies for two different messages does so only through a
/// Keccak-256 collision (modulo the order) on the two full transcripts
/// `R || X || m` and `R || X || m'`.
pub proof fn lemma_full_signature_binds_whole_message(
    commitment: nat,
    response: nat,
    signer_pk: nat,
    signer_pk_inverse: nat,
    message: Seq<u8>,
    other_message: Seq<u8>,
)
    requires
        message != other_message,
        (signer_pk * signer_pk_inverse) % group_order() == 1,
        full_signature_holds(commitment, response, signer_pk, message),
        full_signature_holds(commitment, response, signer_pk, other_message),
    ensures
        ({
            let prefix = secp256k1_generator_multiple(commitment) + secp256k1_generator_multiple(
                signer_pk,
            );
            &&& prefix + message != prefix + other_message
            &&& be_nat(keccak256(prefix + message)) % group_order() == be_nat(
                keccak256(prefix + other_message),
            ) % group_order()
        }),
{
    let q = group_order() as int;
    let c1 = challenge(commitment, signer_pk, message) as int;
    let c2 = challenge(commitment, signer_pk, other_message) as int;
    let x = signer_pk as int;
    lemma_cong_add(commitment + c1 * x, -(commitment as int), commitment + c2 * x,
        -(commitment as int), q);
    lemma_cancel_factor(c1, c2, x, signer_pk_inverse as int, q);
    vstd::arithmetic::div_mod::lemma_small_mod(c1 as nat, group_order());
    vstd::arithmetic::div_mod::lemma_small_mod(c2 as nat, group_order());
    lemma_challenge_collision(commitment, signer_pk, message, other_message);
}

// ------------------------------------------------------------------
// Algorithms
// ------------------------------------------------------------------

/// `c = H(R || X || m)`.
pub fn hash_challenge(commitment: &Point, signer_pk: &Point, message: &[u8]) -> (c: Scalar)
    ensures
        c@ == challenge(commitment@, signer_pk@, message@),
{
    let mut transcript: Vec<u8> = Vec::new();
    extend_bytes(&mut transcript, &commitment.to_bytes());
    extend_bytes(&mut transcript, &signer_pk.to_bytes());
    extend_bytes(&mut transcript, message);
    let digest = keccak256_digest(transcript.as_slice());
    Scalar::from_be_bytes_mod_order(&digest)
}

/// `R + cX`, the right-hand side of both verification equations.
pub(crate) fn commitment_plus_challenge(
    commitment: &Point,
    signer_pk: &Point,
    message: &[u8],
) -> (r: Point)
    ensures
        r@ == (commitment@ + challenge(commitment@, signer_pk@, message@) * signer_pk@)
            % group_order(),
{
    let c = hash_challenge(commitment, signer_pk, message);
    let r = commitment.add(&signer_pk.mul(&c));
    proof {
        vstd::arithmetic::div_mod::lemma_add_mod_noop_right(
            commitment@ as int,
            (signer_pk@ * c@) as int,
            group_order() as int,
        );
        vstd::arithmetic::mul::lemma_mul_is_commutative(signer_pk@ as int, c@ as int);
    }
    r
}

impl Schnorr {
    /// pSign for a given nonce `r`: `R = rG + Y`, `s~ = cx + r`.
    pub fn pre_sign_with_nonce(
        adaptor_pk: &Point,
        signer_pk: &Point,
        signer_sk: &Scalar,
        message: &[u8],
        nonce: &Scalar,
    ) -> (sig: AdaptorPreSignature)
        ensures
            is_pre_signature_for(sig, adaptor_pk@, signer_pk@, signer_sk@, message@, nonce@),
    {
        let commitment = Point::mul_generator(nonce).add(adaptor_pk);
        let verifier_challenge = hash_challenge(&commitment, signer_pk, message);
        let prover_response = verifier_challenge.mul(signer_sk).add(nonce);
        proof {
            vstd::arithmetic::div_mod::lemma_add_mod_noop(
                (verifier_challenge@ * signer_sk@) as int,
                nonce@ as int,
                group_order() as int,
            );
        }
        AdaptorPreSignature { commitment, prover_response }
    }
}


/// The five algorithms of an adaptor signature scheme.
pub trait AdaptorSignatureScheme {
    /// pSign: a pre-signature on `message` under the statement `adaptor_pk`.
    fn pre_sign(
        adaptor_pk: &Point,
        signer_pk: &Point,
        signer_sk: &Scalar,
        message: &[u8],
        rng: &mut StdRng,
    ) -> (r: Result<AdaptorPreSignature, AdaptorError>)
        ensures
            r is Ok,
            r matches Ok(sig) ==> is_pre_signature(sig, adaptor_pk@, signer_pk@, signer_sk@, message@),
            r matches Ok(sig) ==> (signer_pk@ == signer_sk@ ==> pre_signature_holds(
                sig.commitment@,
                sig.prover_response@,
                adaptor_pk@,
                signer_pk@,
                message@,
            )),
    ;

    /// pVrfy: checks `s~G + Y = R + cX`.
    fn verify(
        signature: &AdaptorPreSignature,
        adaptor_pk: &Point,
        signer_pk: &Point,
        message: &[u8],
    ) -> (r: Result<(), AdaptorError>)
        ensures
            r is Ok <==> pre_signature_holds(
                signature.commitment@,
                signature.prover_response@,
                adaptor_pk@,
                signer_pk@,
                message@,
            ),
            r matches Err(e) ==> e == AdaptorError::PreSignatureVerification,
    ;

    /// Adapt: `s = s~ + y`.
    fn adapt(signature: &AdaptorPreSignature, adaptor_sk: &Scalar) -> (r: Result<
        AdaptorFullSignature,
        AdaptorError,
    >)
        ensures
            r matches Ok(full) && is_adaptation_of(full, *signature, adaptor_sk@),
    ;

    /// Extract: `y = s - s~`.
    fn extract(pre_signature: &AdaptorPreSignature, signature: &AdaptorFullSignature) -> (r:
        Result<Scalar, AdaptorError>)
        ensures
            r matches Ok(y) && y@ == sub_mod(
                signature.prover_response@ as int,
                pre_signature.prover_response@ as int,
                group_order(),
            ),
    ;

    /// Vrfy: checks `sG = R + cX`.
    fn verify_full_signature(
        signature: &AdaptorFullSignature,
        signer_pk: &Point,
        message: &[u8],
    ) -> (r: Result<(), AdaptorError>)
        ensures
            r is Ok <==> full_signature_holds(
                signature.commitment@,
                signature.prover_response@,
                signer_pk@,
                message@,
            ),
            r matches Err(e) ==> e == AdaptorError::SignatureVerification,
    ;
}

impl AdaptorSignatureScheme for Schnorr {
    fn pre_sign(
        adaptor_pk: &Point,
        signer_pk: &Point,
        signer_sk: &Scalar,
        message: &[u8],
        rng: &mut StdRng,
    ) -> (r: Result<AdaptorPreSignature, AdaptorError>) {
        let nonce = Scalar::random(rng);
        let sig = Schnorr::pre_sign_with_nonce(adaptor_pk, signer_pk, signer_sk, message, &nonce);
        proof {
            Scalar::lemma_bounded(nonce);
            Scalar::lemma_bounded(*signer_sk);
            Point::lemma_bounded(*adaptor_pk);
            assert(is_pre_signature_for(sig, adaptor_pk@, signer_pk@, signer_sk@, message@, nonce@));
            if signer_pk@ == signer_sk@ {
                lemma_pre_sign_verifies(nonce@, adaptor_pk@, signer_sk@, message@);
            }
        }
        Ok(sig)
    }

    fn verify(
        signature: &AdaptorPreSignature,
        adaptor_pk: &Point,
        signer_pk: &Point,
        message: &[u8],
    ) -> (r: Result<(), AdaptorError>) {
        let left = Point::mul_generator(&signature.prover_response).add(adaptor_pk);
        let right = commitment_plus_challenge(&signature.commitment, signer_pk, message);
        if left.equals(&right) {
            Ok(())
        } else {
            Err(AdaptorError::PreSignatureVerification)
        }
    }

    fn adapt(signature: &AdaptorPreSignature, adaptor_sk: &Scalar) -> (r: Result<
        AdaptorFullSignature,
        AdaptorError,
    >) {
        Ok(
            AdaptorFullSignature {
                commitment: signature.commitment,
                prover_response: signature.prover_response.add(adaptor_sk),
            },
        )
    }

    fn extract(pre_signature: &AdaptorPreSignature, signature: &AdaptorFullSignature) -> (r:
        Result<Scalar, AdaptorError>) {
        Ok(signature.prover_response.sub(&pre_signature.prover_response))
    }

    fn verify_full_signature(
        signature: &AdaptorFullSignature,
        signer_pk: &Point,
        message: &[u8],
    ) -> (r: Result<(), AdaptorError>) {
        let left = Point::mul_generator(&signature.prover_response);
        let right = commitment_plus_challenge(&signature.commitment, signer_pk, message);
        proof {
            Scalar::lemma_bounded(signature.prover_response);
            vstd::arithmetic::div_mod::lemma_small_mod(
                signature.prover_response@,
                group_order(),
            );
        }
        if left.equals(&right) {
            Ok(())
        } else {
            Err(AdaptorError::SignatureVerification)
        }
    }
}

} // verus!
