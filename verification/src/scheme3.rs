//! The ASSET adaptor signature over secp256k1 with Keccak-256.
//!
//! - pSign: `R~ = rG`, `k = H1(Y || rY || xY)`, `k0 = H3(k)`, `K = kG`,
//!   `R = R~ + Y + K`, `c = H2(X || R || m)`, `s~ = cx + r + k0`; the
//!   pre-signature is `(R~, s~)` and the extraction key is `r`;
//! - pVrfy: `k' = H1(Y || yR~ || yX)`, `k0' = H3(k')`, `R = R~ + Y + k'G`,
//!   `c' = H2(X || R || m)`, check `(s~ - k0')G = R~ + c'X`;
//! - Adapt: `s = s~ + y + k' - k0'`, output `(R, s)`;
//! - SecExt: `k = H1(Y || rY || xY)`, `y' = s - s~ - k + H3(k)`;
//! - Vrfy: `sG = R + H2(X || R || m)X`.

use ark_std::rand::rngs::StdRng;
use vstd::prelude::*;

use crate::arith::{
    be_nat, extend_bytes, le_encoding, lemma_cancel_factor, lemma_cong_add, lemma_sub_mod_cong,
    lemma_suffix_distinct, sub_mod,
};
use crate::error::AdaptorError;
use crate::keccak::{keccak256, keccak256_digest};
use crate::secp256k1::{group_order, secp256k1_generator_multiple, Point, Scalar};

verus! {

/// The pre-signature `(R~, s~)`.
#[derive(Clone, Copy, Debug)]
pub struct AdaptorPreSignature {
    pub commitment: Point,
    pub prover_response: Scalar,
}

/// The full signature `(R, s)`.
#[derive(Clone, Copy, Debug)]
pub struct AdaptorFullSignature {
    pub commitment: Point,
    pub prover_response: Scalar,
}

/// The ASSET adaptor scheme.
pub struct Schnorr;

// ------------------------------------------------------------------
// Specification
// ------------------------------------------------------------------

/// `H1(Y || A || B)`, with the domain tag `"H1"`.
pub open spec fn h1(adaptor_pk: nat, a: nat, b: nat) -> nat {
    be_nat(
        keccak256(
            seq![72u8, 49u8] + secp256k1_generator_multiple(adaptor_pk)
                + secp256k1_generator_multiple(a) + secp256k1_generator_multiple(b),
        ),
    ) % group_order()
}

/// `H2(X || R || m)`, with the domain tag `"H2"`.
pub open spec fn h2(signer_pk: nat, commitment: nat, message: Seq<u8>) -> nat {
    be_nat(
        keccak256(
            seq![72u8, 50u8] + secp256k1_generator_multiple(signer_pk)
                + secp256k1_generator_multiple(commitment) + message,
        ),
    ) % group_order()
}

/// `H3(k)`, with the domain tag `"H3"` and `k` in its 32-byte encoding.
pub open spec fn h3(k: nat) -> nat {
    be_nat(keccak256(seq![72u8, 51u8] + le_encoding(k, 32))) % group_order()
}

/// `R = R~ + Y + kG`.
pub open spec fn final_commitment(commitment: nat, adaptor_pk: nat, k: nat) -> nat {
    (commitment + adaptor_pk + k) % group_order()
}

/// `k' = H1(Y || yR~ || yX)`, the key the holder of `y` derives.
pub open spec fn witness_key(commitment: nat, adaptor_pk: nat, adaptor_sk: nat, signer_pk: nat) -> nat {
    h1(
        adaptor_pk,
        (commitment * adaptor_sk) % group_order(),
        (signer_pk * adaptor_sk) % group_order(),
    )
}

/// `k = H1(Y || rY || xY)`, the key the signer derives from the nonce.
pub open spec fn signer_key(adaptor_pk: nat, nonce: nat, signer_sk: nat) -> nat {
    h1(adaptor_pk, (adaptor_pk * nonce) % group_order(), (adaptor_pk * signer_sk) % group_order())
}

/// pVrfy: `(s~ - k0')G = R~ + c'X`, over logarithms.
pub open spec fn pre_signature_holds(
    sig: AdaptorPreSignature,
    adaptor_pk: nat,
    adaptor_sk: nat,
    signer_pk: nat,
    message: Seq<u8>,
) -> bool {
    let k = witness_key(sig.commitment@, adaptor_pk, adaptor_sk, signer_pk);
    let commitment = final_commitment(sig.commitment@, adaptor_pk, k);
    sub_mod(sig.prover_response@ as int, h3(k) as int, group_order()) == (sig.commitment@ + h2(
        signer_pk,
        commitment,
        message,
    ) * signer_pk) % group_order()
}

/// Vrfy: `sG = R + H2(X || R || m)X`, over logarithms.
pub open spec fn full_signature_holds(
    commitment: nat,
    response: nat,
    signer_pk: nat,
    message: Seq<u8>,
) -> bool {
    response % group_order() == (commitment + h2(signer_pk, commitment, message) * signer_pk)
        % group_order()
}

/// `sig` is what pSign gives for the nonce `r`: `R~ = rG`,
/// `s~ = cx + r + H3(k)`; the extraction key is `r`.
pub open spec fn is_pre_signature_for(
    sig: AdaptorPreSignature,
    adaptor_pk: nat,
    signer_pk: nat,
    signer_sk: nat,
    message: Seq<u8>,
    nonce: nat,
) -> bool {
    let k = signer_key(adaptor_pk, nonce, signer_sk);
    let commitment = final_commitment(nonce, adaptor_pk, k);
    &&& sig.commitment@ == nonce
    &&& sig.prover_response@ == (h2(signer_pk, commitment, message) * signer_sk + nonce + h3(k))
        % group_order()
}

/// `full` is `pre` adapted by the holder of `y`: `R = R~ + Y + k'G`,
/// `s = s~ + y + k' - H3(k')`.
pub open spec fn is_adaptation_of(
    full: AdaptorFullSignature,
    pre: AdaptorPreSignature,
    adaptor_pk: nat,
    adaptor_sk: nat,
    signer_pk: nat,
) -> bool {
    let k = witness_key(pre.commitment@, adaptor_pk, adaptor_sk, signer_pk);
    &&& full.commitment@ == final_commitment(pre.commitment@, adaptor_pk, k)
    &&& full.prover_response@ == sub_mod(
        (pre.prover_response@ + adaptor_sk + k) as int,
        h3(k) as int,
        group_order(),
    )
}

/// SecExt: `y' = s - s~ - k + H3(k)` for `k = H1(Y || rY || xY)`.
pub open spec fn extracted_witness(
    pre: AdaptorPreSignature,
    full: AdaptorFullSignature,
    adaptor_pk: nat,
    signer_sk: nat,
    extraction_key: nat,
) -> nat {
    let k = signer_key(adaptor_pk, extraction_key, signer_sk);
    sub_mod(
        full.prover_response@ - pre.prover_response@ - k,
        -(h3(k) as int),
        group_order(),
    )
}

// ------------------------------------------------------------------
// Laws
// ------------------------------------------------------------------

/// With `Y = yG` and `X = xG`, the signer's key `H1(Y || rY || xY)` and the
/// key `H1(Y || yR~ || yX)` of the witness holder coincide.
pub proof fn lemma_keys_agree(nonce: nat, y: nat, x: nat)
    ensures
        signer_key(y, nonce, x) == witness_key(nonce, y, y, x),
{
    vstd::arithmetic::mul::lemma_mul_is_commutative(y as int, nonce as int);
    vstd::arithmetic::mul::lemma_mul_is_commutative(y as int, x as int);
}

/// A pre-signature made with the signer's key pair `(xG, x)` for `Y = yG`
/// passes pre-verification by the holder of `y`.
pub proof fn lemma_pre_sign_verifies(
    sig: AdaptorPreSignature,
    adaptor_sk: nat,
    signer_sk: nat,
    message: Seq<u8>,
    nonce: nat,
)
    requires
        nonce < group_order(),
        is_pre_signature_for(sig, adaptor_sk, signer_sk, signer_sk, message, nonce),
    ensures
        pre_signature_holds(sig, adaptor_sk, adaptor_sk, signer_sk, message),
{
    let q = group_order() as int;
    lemma_keys_agree(nonce, adaptor_sk, signer_sk);
    let k = signer_key(adaptor_sk, nonce, signer_sk);
    let k0 = h3(k) as int;
    let commitment = final_commitment(nonce, adaptor_sk, k);
    let a = h2(signer_sk, commitment, message) * signer_sk + nonce;
    // (a + k0) mod q - k0 is congruent to a.
    vstd::arithmetic::div_mod::lemma_mod_twice(a + k0, q);
    lemma_cong_add((a + k0) % q, -k0, a + k0, -k0, q);
}

/// Adapting a pre-signature that passes pre-verification for `Y = yG` with
/// the witness `y` gives a full signature that passes verification.
pub proof fn lemma_adapt_verifies(
    pre: AdaptorPreSignature,
    full: AdaptorFullSignature,
    adaptor_sk: nat,
    signer_pk: nat,
    message: Seq<u8>,
)
    requires
        pre_signature_holds(pre, adaptor_sk, adaptor_sk, signer_pk, message),
        is_adaptation_of(full, pre, adaptor_sk, adaptor_sk, signer_pk),
    ensures
        full_signature_holds(full.commitment@, full.prover_response@, signer_pk, message),
{
    let q = group_order() as int;
    let k = witness_key(pre.commitment@, adaptor_sk, adaptor_sk, signer_pk) as int;
    let k0 = h3(k as nat) as int;
    let r = pre.commitment@ as int;
    let s = pre.prover_response@ as int;
    let y = adaptor_sk as int;
    let commitment = full.commitment@ as int;
    let cx = (h2(signer_pk, commitment as nat, message) * signer_pk) as int;
    // s - k0 is congruent to r + cX; add y + k to both sides.
    vstd::arithmetic::div_mod::lemma_mod_twice(s - k0, q);
    vstd::arithmetic::div_mod::lemma_mod_twice(r + cx, q);
    lemma_cong_add(s - k0, y + k, r + cx, y + k, q);
    // R is congruent to r + y + k.
    vstd::arithmetic::div_mod::lemma_mod_twice(r + y + k, q);
    lemma_cong_add(commitment, cx, r + y + k, cx, q);
    // The adapted response is s + y + k - k0, reduced.
    vstd::arithmetic::div_mod::lemma_mod_twice(s + y + k - k0, q);
}

/// With the extraction key `r` of an honestly made pre-signature, SecExt on
/// its adaptation with the witness `y` gives `y` back.
pub proof fn lemma_extract_recovers_witness(
    pre: AdaptorPreSignature,
    full: AdaptorFullSignature,
    adaptor_sk: nat,
    signer_sk: nat,
    message: Seq<u8>,
    nonce: nat,
)
    requires
        adaptor_sk < group_order(),
        is_pre_signature_for(pre, adaptor_sk, signer_sk, signer_sk, message, nonce),
        is_adaptation_of(full, pre, adaptor_sk, adaptor_sk, signer_sk),
    ensures
        extracted_witness(pre, full, adaptor_sk, signer_sk, nonce) == adaptor_sk,
{
    let q = group_order() as int;
    lemma_keys_agree(nonce, adaptor_sk, signer_sk);
    let k = signer_key(adaptor_sk, nonce, signer_sk) as int;
    let k0 = h3(k as nat) as int;
    let s = pre.prover_response@ as int;
    let y = adaptor_sk as int;
    let t = s + y + k - k0;
    vstd::arithmetic::div_mod::lemma_mod_twice(t, q);
    lemma_cong_add(t % q, -s - k + k0, t, -s - k + k0, q);
    vstd::arithmetic::div_mod::lemma_small_mod(adaptor_sk, group_order());
}


/// When the signer's key is not the identity (it has an inverse modulo the
/// order, which `Scalar::inverse` gives for any nonzero key), a pre-signature that passes pre-verification for one message
/// passes it for another exactly when the two `H2` challenges are equal.
pub proof fn lemma_pre_signature_binds_message(
    sig: AdaptorPreSignature,
    adaptor_pk: nat,
    adaptor_sk: nat,
    signer_pk: nat,
    signer_pk_inverse: nat,
    message: Seq<u8>,
    other_message: Seq<u8>,
)
    requires
        (signer_pk * signer_pk_inverse) % group_order() == 1,
        pre_signature_holds(sig, adaptor_pk, adaptor_sk, signer_pk, message),
    ensures
        ({
            let k = witness_key(sig.commitment@, adaptor_pk, adaptor_sk, signer_pk);
            let commitment = final_commitment(sig.commitment@, adaptor_pk, k);
            pre_signature_holds(sig, adaptor_pk, adaptor_sk, signer_pk, other_message) <==> h2(
                signer_pk,
                commitment,
                other_message,
            ) == h2(signer_pk, commitment, message)
        }),
{
    let q = group_order() as int;
    let k = witness_key(sig.commitment@, adaptor_pk, adaptor_sk, signer_pk);
    let commitment = final_commitment(sig.commitment@, adaptor_pk, k);
    let c1 = h2(signer_pk, commitment, message) as int;
    let c2 = h2(signer_pk, commitment, other_message) as int;
    if pre_signature_holds(sig, adaptor_pk, adaptor_sk, signer_pk, other_message) {
        let x = signer_pk as int;
        let r = sig.commitment@ as int;
        lemma_cong_add(r + c1 * x, -r, r + c2 * x, -r, q);
        lemma_cancel_factor(c1, c2, x, signer_pk_inverse as int, q);
        vstd::arithmetic::div_mod::lemma_small_mod(c1 as nat, group_order());
        vstd::arithmetic::div_mod::lemma_small_mod(c2 as nat, group_order());
    }
}

/// `H1` is the Keccak-256 digest, read big-endian modulo the order, of
/// `"H1" || Y || A || B`.
pub proof fn lemma_h1_is_keccak(adaptor_pk: nat, a: nat, b: nat)
    ensures
        h1(adaptor_pk, a, b) == be_nat(
            keccak256(
                seq![72u8, 49u8] + secp256k1_generator_multiple(adaptor_pk)
                    + secp256k1_generator_multiple(a) + secp256k1_generator_multiple(b),
            ),
        ) % group_order(),
{
}

/// `H3` is the Keccak-256 digest, read big-endian modulo the order, of
/// `"H3"` followed by the 32-byte little-endian encoding of `k`.
pub proof fn lemma_h3_is_keccak(k: nat)
    ensures
        h3(k) == be_nat(keccak256(seq![72u8, 51u8] + le_encoding(k, 32))) % group_order(),
{
}

/// `H2` is the Keccak-256 digest, read big-endian modulo the order, of
/// `"H2" || X || R || m` with every byte of the message `m` in the
/// transcript.
pub proof fn lemma_h2_hashes_whole_message(signer_pk: nat, commitment: nat, message: Seq<u8>)
    ensures
        h2(signer_pk, commitment, message) == be_nat(
            keccak256(
                seq![72u8, 50u8] + secp256k1_generator_multiple(signer_pk)
                    + secp256k1_generator_multiple(commitment) + message,
            ),
        ) % group_order(),
{
}

/// Two different messages share an `H2` challenge only through a Keccak-256
/// collision (modulo the order) on two different transcripts, each of which
/// holds its whole message.
pub proof fn lemma_h2_collision(
    signer_pk: nat,
    commitment: nat,
    message: Seq<u8>,
    other_message: Seq<u8>,
)
    requires
        message != other_message,
        h2(signer_pk, commitment, message) == h2(signer_pk, commitment, other_message),
    ensures
        ({
            let prefix = seq![72u8, 50u8] + secp256k1_generator_multiple(signer_pk)
                + secp256k1_generator_multiple(commitment);
            &&& prefix + message != prefix + other_message
            &&& be_nat(keccak256(prefix + message)) % group_order() == be_nat(
                keccak256(prefix + other_message),
            ) % group_order()
        }),
{
    let prefix = seq![72u8, 50u8] + secp256k1_generator_multiple(signer_pk)
        + secp256k1_generator_multiple(commitment);
    lemma_suffix_distinct(prefix, message, other_message);
}

/// When the signer's key has an inverse modulo the order, a pre-signature
/// that passes pre-verification for two different messages does so only
/// through a Keccak-256 collision (modulo the order) on the two full `H2`
/// transcripts.
pub proof fn lemma_pre_signature_binds_whole_message(
    sig: AdaptorPreSignature,
    adaptor_pk: nat,
    adaptor_sk: nat,
    signer_pk: nat,
    signer_pk_inverse: nat,
    message: Seq<u8>,
    other_message: Seq<u8>,
)
    requires
        message != other_message,
        (signer_pk * signer_pk_inverse) % group_order() == 1,
        pre_signature_holds(sig, adaptor_pk, adaptor_sk, signer_pk, message),
        pre_signature_holds(sig, adaptor_pk, adaptor_sk, signer_pk, other_message),
    ensures
        ({
            let k = witness_key(sig.commitment@, adaptor_pk, adaptor_sk, signer_pk);
            let prefix = seq![72u8, 50u8] + secp256k1_generator_multiple(signer_pk)
                + secp256k1_generator_multiple(final_commitment(sig.commitment@, adaptor_pk, k));
            &&& prefix + message != prefix + other_message
            &&& be_nat(keccak256(prefix + message)) % group_order() == be_nat(
                keccak256(prefix + other_message),
            ) % group_order()
        }),
{
    lemma_pre_signature_binds_message(
        sig,
        adaptor_pk,
        adaptor_sk,
        signer_pk,
        signer_pk_inverse,
        message,
        other_message,
    );
    let k = witness_key(sig.commitment@, adaptor_pk, adaptor_sk, signer_pk);
    lemma_h2_collision(
        signer_pk,
        final_commitment(sig.commitment@, adaptor_pk, k),
        message,
        other_message,
    );
}

/// When the signer's key has an inverse modulo the order, a full signature
/// that verifies for two different messages does so only through a
/// Keccak-256 collision (modulo the order) on the two full `H2` transcripts.
pub proof fn lemma_full_signature_binds_whole_message(
    commitment: nat,
    response: nat,
    signer_pk: nat,
    signer_pk_inverse: nat,
    message: Seq<u8>,
    other_message: Seq<u8>,
)
    requires
        message != other_message,
        (signer_pk * signer_pk_inverse) % group_order() == 1,
        full_signature_holds(commitment, response, signer_pk, message),
        full_signature_holds(commitment, response, signer_pk, other_message),
    ensures
        ({
            let prefix = seq![72u8, 50u8] + secp256k1_generator_multiple(signer_pk)
                + secp256k1_generator_multiple(commitment);
            &&& prefix + message != prefix + other_message
            &&& be_nat(keccak256(prefix + message)) % group_order() == be_nat(
                keccak256(prefix + other_message),
            ) % group_order()
        }),
{
    let q = group_order() as int;
    let c1 = h2(signer_pk, commitment, message) as int;
    let c2 = h2(signer_pk, commitment, other_message) as int;
    let x = signer_pk as int;
    lemma_cong_add(commitment + c1 * x, -(commitment as int), commitment + c2 * x,
        -(commitment as int), q);
    lemma_cancel_factor(c1, c2, x, signer_pk_inverse as int, q);
    vstd::arithmetic::div_mod::lemma_small_mod(c1 as nat, group_order());
    vstd::arithmetic::div_mod::lemma_small_mod(c2 as nat, group_order());
    lemma_h2_collision(signer_pk, commitment, message, other_message);
}

// ------------------------------------------------------------------
// Algorithms
// ------------------------------------------------------------------

/// `k = H1(Y || A || B)`, domain-separated with `"H1"`.
pub fn hash_h1(adaptor_pk: &Point, y_r: &Point, y_x: &Point) -> (k: Scalar)
    ensures
        k@ == h1(adaptor_pk@, y_r@, y_x@),
{
    let mut transcript: Vec<u8> = Vec::new();
    transcript.push(72u8);
    transcript.push(49u8);
    extend_bytes(&mut transcript, &adaptor_pk.to_bytes());
    extend_bytes(&mut transcript, &y_r.to_bytes());
    extend_bytes(&mut transcript, &y_x.to_bytes());
    let digest = keccak256_digest(transcript.as_slice());
    proof {
        assert(transcript@ =~= seq![72u8, 49u8] + secp256k1_generator_multiple(adaptor_pk@)
            + secp256k1_generator_multiple(y_r@) + secp256k1_generator_multiple(y_x@));
    }
    Scalar::from_be_bytes_mod_order(&digest)
}

/// `c = H2(X || R || m)`, domain-separated with `"H2"`.
pub fn hash_h2(signer_pk: &Point, final_commitment: &Point, message: &[u8]) -> (c: Scalar)
    ensures
        c@ == h2(signer_pk@, final_commitment@, message@),
{
    let mut transcript: Vec<u8> = Vec::new();
    transcript.push(72u8);
    transcript.push(50u8);
    extend_bytes(&mut transcript, &signer_pk.to_bytes());
    extend_bytes(&mut transcript, &final_commitment.to_bytes());
    extend_bytes(&mut transcript, message);
    let digest = keccak256_digest(transcript.as_slice());
    proof {
        assert(transcript@ =~= seq![72u8, 50u8] + secp256k1_generator_multiple(signer_pk@)
            + secp256k1_generator_multiple(final_commitment@) + message@);
    }
    Scalar::from_be_bytes_mod_order(&digest)
}

/// `k0 = H3(k)`, domain-separated with `"H3"`.
pub fn hash_h3(k: &Scalar) -> (k0: Scalar)
    ensures
        k0@ == h3(k@),
{
    let mut transcript: Vec<u8> = Vec::new();
    transcript.push(72u8);
    transcript.push(51u8);
    extend_bytes(&mut transcript, &k.to_bytes());
    let digest = keccak256_digest(transcript.as_slice());
    proof {
        assert(transcript@ =~= seq![72u8, 51u8] + le_encoding(k@, 32));
    }
    Scalar::from_be_bytes_mod_order(&digest)
}

/// `k = H1(Y || A || B)` and `k0 = H3(k)`.
fn derive_keys(adaptor_pk: &Point, a: &Point, b: &Point) -> (r: (Scalar, Scalar))
    ensures
        r.0@ == h1(adaptor_pk@, a@, b@),
        r.1@ == h3(r.0@),
{
    let k = hash_h1(adaptor_pk, a, b);
    let k0 = hash_h3(&k);
    (k, k0)
}

/// `R = R~ + Y + kG`.
fn final_commitment_point(commitment: &Point, adaptor_pk: &Point, k: &Scalar) -> (r: Point)
    ensures
        r@ == final_commitment(commitment@, adaptor_pk@, k@),
{
    let r = commitment.add(adaptor_pk).add(&Point::mul_generator(k));
    proof {
        Scalar::lemma_bounded(*k);
        vstd::arithmetic::div_mod::lemma_small_mod(k@, group_order());
        vstd::arithmetic::div_mod::lemma_add_mod_noop(
            (commitment@ + adaptor_pk@) as int,
            k@ as int,
            group_order() as int,
        );
        vstd::arithmetic::div_mod::lemma_mod_twice(
            (commitment@ + adaptor_pk@) as int,
            group_order() as int,
        );
    }
    r
}

/// `R~ + cX`.
fn commitment_plus_challenge(commitment: &Point, signer_pk: &Point, c: &Scalar) -> (r: Point)
    ensures
        r@ == (commitment@ + c@ * signer_pk@) % group_order(),
{
    let r = commitment.add(&signer_pk.mul(c));
    proof {
        vstd::arithmetic::div_mod::lemma_add_mod_noop_right(
            commitment@ as int,
            (signer_pk@ * c@) as int,
            group_order() as int,
        );
        vstd::arithmetic::mul::lemma_mul_is_commutative(signer_pk@ as int, c@ as int);
    }
    r
}

impl Schnorr {
    /// pSign for a given nonce `r`; returns the pre-signature and the
    /// extraction key `r`.
    pub fn pre_sign_with_nonce(
        adaptor_pk: &Point,
        signer_pk: &Point,
        signer_sk: &Scalar,
        message: &[u8],
        nonce: &Scalar,
    ) -> (r: (AdaptorPreSignature, Scalar))
        ensures
            is_pre_signature_for(r.0, adaptor_pk@, signer_pk@, signer_sk@, message@, nonce@),
            r.1 == *nonce,
    {
        let commitment = Point::mul_generator(nonce);
        let y_r = adaptor_pk.mul(nonce);
        let y_x = adaptor_pk.mul(signer_sk);
        let (k, k0) = derive_keys(adaptor_pk, &y_r, &y_x);
        let final_commitment = final_commitment_point(&commitment, adaptor_pk, &k);
        let challenge = hash_h2(signer_pk, &final_commitment, message);
        let cx = challenge.mul(signer_sk);
        let cx_r = cx.add(nonce);
        let prover_response = cx_r.add(&k0);
        proof {
            let q = group_order() as int;
            Scalar::lemma_bounded(*nonce);
            Scalar::lemma_bounded(k0);
            vstd::arithmetic::div_mod::lemma_small_mod(nonce@, group_order());
            vstd::arithmetic::div_mod::lemma_small_mod(k0@, group_order());
            vstd::arithmetic::div_mod::lemma_mod_twice((challenge@ * signer_sk@) as int, q);
            lemma_cong_add(cx@ as int, nonce@ as int, (challenge@ * signer_sk@) as int, nonce@ as int, q);
            vstd::arithmetic::div_mod::lemma_mod_twice((cx@ + nonce@) as int, q);
            lemma_cong_add(
                cx_r@ as int,
                k0@ as int,
                (challenge@ * signer_sk@ + nonce@) as int,
                k0@ as int,
                q,
            );
        }
        (AdaptorPreSignature { commitment, prover_response }, *nonce)
    }
}


/// The algorithms of the ASSET adaptor scheme.
pub trait AdaptorSignatureScheme {
    /// pSign: the pre-signature `(R~, s~)` and the extraction key `r`.
    fn pre_sign(
        adaptor_pk: &Point,
        signer_pk: &Point,
        signer_sk: &Scalar,
        message: &[u8],
        rng: &mut StdRng,
    ) -> (r: Result<(AdaptorPreSignature, Scalar), AdaptorError>)
        ensures
            r is Ok,
            r matches Ok((sig, ek)) ==> is_pre_signature_for(
                sig,
                adaptor_pk@,
                signer_pk@,
                signer_sk@,
                message@,
                ek@,
            ),
            r matches Ok((sig, ek)) ==> (signer_pk@ == signer_sk@ ==> pre_signature_holds(
                sig,
                adaptor_pk@,
                adaptor_pk@,
                signer_pk@,
                message@,
            )),
    ;

    /// pVrfy: checks `(s~ - H3(k'))G = R~ + c'X` with the witness `y`.
    fn verify(
        signature: &AdaptorPreSignature,
        adaptor_pk: &Point,
        adaptor_sk: &Scalar,
        signer_pk: &Point,
        message: &[u8],
    ) -> (r: Result<(), AdaptorError>)
        ensures
            r is Ok <==> pre_signature_holds(
                *signature,
                adaptor_pk@,
                adaptor_sk@,
                signer_pk@,
                message@,
            ),
            r matches Err(e) ==> e == AdaptorError::PreSignatureVerification,
    ;

    /// Adapt: `R = R~ + Y + k'G`, `s = s~ + y + k' - H3(k')`.
    fn adapt(
        signature: &AdaptorPreSignature,
        adaptor_pk: &Point,
        adaptor_sk: &Scalar,
        signer_pk: &Point,
    ) -> (r: Result<AdaptorFullSignature, AdaptorError>)
        ensures
            r matches Ok(full) && is_adaptation_of(
                full,
                *signature,
                adaptor_pk@,
                adaptor_sk@,
                signer_pk@,
            ),
    ;

    /// SecExt: `y' = s - s~ - k + H3(k)` with `k = H1(Y || rY || xY)`.
    fn extract(
        pre_signature: &AdaptorPreSignature,
        signature: &AdaptorFullSignature,
        adaptor_pk: &Point,
        signer_sk: &Scalar,
        extraction_key: &Scalar,
    ) -> (r: Result<Scalar, AdaptorError>)
        ensures
            r matches Ok(y) && y@ == extracted_witness(
                *pre_signature,
                *signature,
                adaptor_pk@,
                signer_sk@,
                extraction_key@,
            ),
    ;

    /// Vrfy: checks `sG = R + H2(X || R || m)X`.
    fn verify_full_signature(
        signature: &AdaptorFullSignature,
        signer_pk: &Point,
        message: &[u8],
    ) -> (r: Result<(), AdaptorError>)
        ensures
            r is Ok <==> full_signature_holds(
                signature.commitment@,
                signature.prover_response@,
                signer_pk@,
                message@,
            ),
            r matches Err(e) ==> e == AdaptorError::SignatureVerification,
    ;
}

impl AdaptorSignatureScheme for Schnorr {
    fn pre_sign(
        adaptor_pk: &Point,
        signer_pk: &Point,
        signer_sk: &Scalar,
        message: &[u8],
        rng: &mut StdRng,
    ) -> (r: Result<(AdaptorPreSignature, Scalar), AdaptorError>) {
        let nonce = Scalar::random(rng);
        let (sig, ek) = Schnorr::pre_sign_with_nonce(
            adaptor_pk,
            signer_pk,
            signer_sk,
            message,
            &nonce,
        );
        proof {
            Scalar::lemma_bounded(nonce);
            if signer_pk@ == signer_sk@ {
                lemma_pre_sign_verifies(sig, adaptor_pk@, signer_sk@, message@, nonce@);
            }
        }
        Ok((sig, ek))
    }

    fn verify(
        signature: &AdaptorPreSignature,
        adaptor_pk: &Point,
        adaptor_sk: &Scalar,
        signer_pk: &Point,
        message: &[u8],
    ) -> (r: Result<(), AdaptorError>) {
        let r_y = signature.commitment.mul(adaptor_sk);
        let x_y = signer_pk.mul(adaptor_sk);
        let (k_prime, k0_prime) = derive_keys(adaptor_pk, &r_y, &x_y);
        let final_commitment = final_commitment_point(&signature.commitment, adaptor_pk, &k_prime);
        let challenge = hash_h2(signer_pk, &final_commitment, message);
        let left = Point::mul_generator(&signature.prover_response.sub(&k0_prime));
        let right = commitment_plus_challenge(&signature.commitment, signer_pk, &challenge);
        if left.equals(&right) {
            Ok(())
        } else {
            Err(AdaptorError::PreSignatureVerification)
        }
    }

    fn adapt(
        signature: &AdaptorPreSignature,
        adaptor_pk: &Point,
        adaptor_sk: &Scalar,
        signer_pk: &Point,
    ) -> (r: Result<AdaptorFullSignature, AdaptorError>) {
        let r_y = signature.commitment.mul(adaptor_sk);
        let x_y = signer_pk.mul(adaptor_sk);
        let (k_prime, k0_prime) = derive_keys(adaptor_pk, &r_y, &x_y);
        let final_commitment = final_commitment_point(&signature.commitment, adaptor_pk, &k_prime);
        let s_y = signature.prover_response.add(adaptor_sk);
        let s_y_k = s_y.add(&k_prime);
        let adapted_response = s_y_k.sub(&k0_prime);
        proof {
            let q = group_order() as int;
            let s = signature.prover_response@ as int;
            Scalar::lemma_bounded(k_prime);
            vstd::arithmetic::div_mod::lemma_small_mod(k_prime@, group_order());
            vstd::arithmetic::div_mod::lemma_mod_twice(s + adaptor_sk@, q);
            lemma_cong_add(s_y@ as int, k_prime@ as int, s + adaptor_sk@, k_prime@ as int, q);
            vstd::arithmetic::div_mod::lemma_mod_twice(s + adaptor_sk@ + k_prime@, q);
            lemma_sub_mod_cong(
                s_y_k@ as int,
                s + adaptor_sk@ + k_prime@,
                k0_prime@ as int,
                group_order(),
            );
        }
        Ok(AdaptorFullSignature { commitment: final_commitment, prover_response: adapted_response })
    }

    fn extract(
        pre_signature: &AdaptorPreSignature,
        signature: &AdaptorFullSignature,
        adaptor_pk: &Point,
        signer_sk: &Scalar,
        extraction_key: &Scalar,
    ) -> (r: Result<Scalar, AdaptorError>) {
        let y_r = adaptor_pk.mul(extraction_key);
        let y_x = adaptor_pk.mul(signer_sk);
        let (k, k0) = derive_keys(adaptor_pk, &y_r, &y_x);
        let d1 = signature.prover_response.sub(&pre_signature.prover_response);
        let d2 = d1.sub(&k);
        let extracted = d2.add(&k0);
        proof {
            let q = group_order() as int;
            let s = signature.prover_response@ as int;
            let t = pre_signature.prover_response@ as int;
            Scalar::lemma_bounded(k0);
            vstd::arithmetic::div_mod::lemma_small_mod(k0@, group_order());
            lemma_sub_mod_cong(d1@ as int, s - t, k@ as int, group_order());
            vstd::arithmetic::div_mod::lemma_mod_twice(s - t, q);
            vstd::arithmetic::div_mod::lemma_mod_twice(s - t - k@, q);
            lemma_cong_add(d2@ as int, k0@ as int, s - t - k@, k0@ as int, q);
        }
        Ok(extracted)
    }

    fn verify_full_signature(
        signature: &AdaptorFullSignature,
        signer_pk: &Point,
        message: &[u8],
    ) -> (r: Result<(), AdaptorError>) {
        let challenge = hash_h2(signer_pk, &signature.commitment, message);
        let left = Point::mul_generator(&signature.prover_response);
        let right = commitment_plus_challenge(&signature.commitment, signer_pk, &challenge);
        proof {
            Scalar::lemma_bounded(signature.prover_response);
            vstd::arithmetic::div_mod::lemma_small_mod(
                signature.prover_response@,
                group_order(),
            );
        }
        if left.equals(&right) {
            Ok(())
        } else {
            Err(AdaptorError::SignatureVerification)
        }
    }
}

} // verus!
