//! The BBS+ adaptor signature over BLS12-381, for one message.
//!
//! Public parameters are `g0, g1, g2` in `G1` and `h0` in `G2`; the signer's
//! key is `vk = sk * h0`; the adaptor statement is `Y = y * g1`.
//!
//! - pSign: `A = (g0 + r*g1 + Y + m*g2) / (e + sk)`, output `(A, e, r)`;
//! - pVrfy: `e(A, vk + e*h0) = e(g0 + r*g1 + Y + m*g2, h0)`;
//! - Adapt: `r' = r + y`, output `(A, e, r')`;
//! - Extract: `y = r' - r`;
//! - Vrfy: `e(A, vk + e*h0) = e(g0 + r'*g1 + m*g2, h0)`.
//!
//! Group elements are viewed as their discrete logarithms, so the pairing
//! equations are products of logarithms modulo the group order.

use ark_std::rand::rngs::StdRng;
use vstd::prelude::*;

use crate::arith::{
    be_nat, lemma_add_mod_cong, lemma_cancel_factor, lemma_cong_add, lemma_cong_mul,
    lemma_mod_cong, lemma_sub_mod_add_cancel, sub_mod,
};
use crate::bls12_381::{group_order, G1Point, G2Point, Gt, Scalar};
use crate::error::AdaptorError;

verus! {

/// How many draws a sampling loop makes before it gives up.
pub const SAMPLING_ATTEMPTS: u32 = 64;

/// The generators `g0, g1, g2` of `G1` and `h0` of `G2`.
#[derive(Clone, Copy, Debug)]
pub struct PublicParameters {
    pub g0: G1Point,
    pub g1: G1Point,
    pub g2: G1Point,
    pub h0: G2Point,
}

/// The verification key `vk = sk * h0`.
#[derive(Clone, Copy, Debug)]
pub struct PublicKey(pub G2Point);

/// The signing key `sk`.
#[derive(Clone, Copy, Debug)]
pub struct SecretKey(pub Scalar);

/// The adaptor statement `Y = y * g1`.
pub type AdaptorPublicKey = G1Point;

/// The adaptor witness `y`.
pub type AdaptorSecretKey = Scalar;

/// The pre-signature `(A, e, r)`.
#[derive(Clone, Copy, Debug)]
pub struct AdaptorPreSignature {
    pub a: G1Point,
    pub e: Scalar,
    pub r: Scalar,
}

/// The adapted signature `(A, e, r')`.
#[derive(Clone, Copy, Debug)]
pub struct AdaptorFullSignature {
    pub a: G1Point,
    pub e: Scalar,
    pub r: Scalar,
}

/// The BBS+ adaptor scheme.
pub struct BbsPlusAdaptor;

// ------------------------------------------------------------------
// Specification
// ------------------------------------------------------------------

/// The message as a nonzero scalar: its big-endian value modulo the order,
/// or `1` where that is zero.
pub open spec fn message_scalar(message: Seq<u8>) -> nat {
    if be_nat(message) % group_order() == 0 {
        1
    } else {
        be_nat(message) % group_order()
    }
}

/// The logarithm of `g0 + r*g1 + Y + m*g2`, before reduction.
pub open spec fn pre_base(
    params: PublicParameters,
    adaptor_pk: nat,
    r: nat,
    message: Seq<u8>,
) -> nat {
    params.g0@ + params.g1@ * r + adaptor_pk + params.g2@ * message_scalar(message)
}

/// The logarithm of `g0 + r*g1 + m*g2`, before reduction.
pub open spec fn full_base(params: PublicParameters, r: nat, message: Seq<u8>) -> nat {
    params.g0@ + params.g1@ * r + params.g2@ * message_scalar(message)
}

/// `e(A, vk + e*h0) = e(B, h0)`, over logarithms.
pub open spec fn pairing_equation(a: nat, e: nat, signer_pk: nat, h0: nat, base: nat) -> bool {
    (a * (signer_pk + h0 * e)) % group_order() == (base * h0) % group_order()
}

/// The pre-verification equation.
pub open spec fn pre_signature_holds(
    params: PublicParameters,
    sig: AdaptorPreSignature,
    adaptor_pk: nat,
    signer_pk: nat,
    message: Seq<u8>,
) -> bool {
    pairing_equation(
        sig.a@,
        sig.e@,
        signer_pk,
        params.h0@,
        pre_base(params, adaptor_pk, sig.r@, message),
    )
}

/// The verification equation of a BBS+ signature.
pub open spec fn full_signature_holds(
    params: PublicParameters,
    sig: AdaptorFullSignature,
    signer_pk: nat,
    message: Seq<u8>,
) -> bool {
    pairing_equation(sig.a@, sig.e@, signer_pk, params.h0@, full_base(params, sig.r@, message))
}

/// `A * (e + sk) = g0 + r*g1 + Y + m*g2`, with `e + sk` invertible: what
/// pSign computes for the nonces `e` and `r`.
pub open spec fn is_pre_signature(
    params: PublicParameters,
    sig: AdaptorPreSignature,
    adaptor_pk: nat,
    signer_sk: nat,
    message: Seq<u8>,
) -> bool {
    &&& (sig.e@ + signer_sk) % group_order() != 0
    &&& (sig.a@ * (sig.e@ + signer_sk)) % group_order() == pre_base(
        params,
        adaptor_pk,
        sig.r@,
        message,
    ) % group_order()
}

/// `full` is `pre` adapted with `adaptor_sk`: same `A` and `e`, `r' = r + y`.
pub open spec fn is_adaptation_of(
    full: AdaptorFullSignature,
    pre: AdaptorPreSignature,
    adaptor_sk: nat,
) -> bool {
    &&& full.a == pre.a
    &&& full.e == pre.e
    &&& full.r@ == (pre.r@ + adaptor_sk) % group_order()
}

// ------------------------------------------------------------------
// Laws
// ------------------------------------------------------------------

/// A pre-signature made with the signer's key pair `(sk * h0, sk)` passes
/// pre-verification.
pub proof fn lemma_pre_sign_verifies(
    params: PublicParameters,
    sig: AdaptorPreSignature,
    adaptor_pk: nat,
    signer_pk: nat,
    signer_sk: nat,
    message: Seq<u8>,
)
    requires
        signer_pk == (params.h0@ * signer_sk) % group_order(),
        is_pre_signature(params, sig, adaptor_pk, signer_sk, message),
    ensures
        pre_signature_holds(params, sig, adaptor_pk, signer_pk, message),
{
    let q = group_order() as int;
    let a = sig.a@ as int;
    let e = sig.e@ as int;
    let h0 = params.h0@ as int;
    let sk = signer_sk as int;
    let base = pre_base(params, adaptor_pk, sig.r@, message) as int;
    // vk + e*h0 is congruent to h0 * (sk + e).
    lemma_mod_cong(h0 * sk, q);
    vstd::arithmetic::div_mod::lemma_mod_twice(h0 * e, q);
    lemma_cong_add(signer_pk as int, h0 * e, h0 * sk, h0 * e, q);
    assert(h0 * sk + h0 * e == h0 * (sk + e)) by (nonlinear_arith);
    // A * (vk + e*h0) is congruent to h0 * (A * (sk + e)), hence to h0 * B.
    vstd::arithmetic::div_mod::lemma_mod_twice(a, q);
    lemma_cong_mul(a, signer_pk + h0 * e, a, h0 * (sk + e), q);
    assert(a * (h0 * (sk + e)) == h0 * (a * (sk + e))) by (nonlinear_arith);
    vstd::arithmetic::div_mod::lemma_mod_twice(h0, q);
    lemma_cong_mul(h0, a * (sk + e), h0, base, q);
    assert(h0 * base == base * h0) by (nonlinear_arith);
}

/// Adapting a pre-signature that passes pre-verification for `Y = y * g1`
/// with the witness `y` gives a signature that passes verification.
pub proof fn lemma_adapt_verifies(
    params: PublicParameters,
    pre: AdaptorPreSignature,
    full: AdaptorFullSignature,
    adaptor_pk: nat,
    adaptor_sk: nat,
    signer_pk: nat,
    message: Seq<u8>,
)
    requires
        adaptor_pk == (params.g1@ * adaptor_sk) % group_order(),
        pre_signature_holds(params, pre, adaptor_pk, signer_pk, message),
        is_adaptation_of(full, pre, adaptor_sk),
    ensures
        full_signature_holds(params, full, signer_pk, message),
{
    let q = group_order() as int;
    let g0 = params.g0@ as int;
    let g1 = params.g1@ as int;
    let h0 = params.h0@ as int;
    let gm = (params.g2@ * message_scalar(message)) as int;
    let r = pre.r@ as int;
    let y = adaptor_sk as int;
    // g1 * r' is congruent to g1 * r + Y.
    vstd::arithmetic::div_mod::lemma_mod_twice(g1, q);
    vstd::arithmetic::div_mod::lemma_mod_twice(r + y, q);
    lemma_cong_mul(g1, full.r@ as int, g1, r + y, q);
    assert(g1 * (r + y) == g1 * r + g1 * y) by (nonlinear_arith);
    vstd::arithmetic::div_mod::lemma_mod_twice(g1 * y, q);
    vstd::arithmetic::div_mod::lemma_mod_twice(g1 * r, q);
    lemma_cong_add(g1 * r, g1 * y, g1 * r, adaptor_pk as int, q);
    // So the two bases are congruent, and so are their products with h0.
    let pre_b = pre_base(params, adaptor_pk, pre.r@, message) as int;
    let full_b = full_base(params, full.r@, message) as int;
    vstd::arithmetic::div_mod::lemma_mod_twice(g0, q);
    vstd::arithmetic::div_mod::lemma_mod_twice(gm, q);
    lemma_cong_add(g0 + gm, g1 * full.r@, g0 + gm, g1 * r + adaptor_pk, q);
    assert(full_b == g0 + gm + g1 * full.r@);
    assert(pre_b == g0 + gm + (g1 * r + adaptor_pk));
    lemma_cong_mul(full_b, h0, pre_b, h0, q);
}

/// Extracting from a pre-signature and its adaptation with `k` gives `k`.
pub proof fn lemma_extract_inverts_adapt(pre: AdaptorPreSignature, full: AdaptorFullSignature, k: nat)
    requires
        k < group_order(),
        is_adaptation_of(full, pre, k),
    ensures
        sub_mod(full.r@ as int, pre.r@ as int, group_order()) == k,
{
    Scalar::lemma_bounded(pre.r);
    lemma_sub_mod_add_cancel(pre.r@, k, group_order());
}

/// When a pre-signature passes pre-verification for `Y` and a signature
/// with the same `A` and `e` passes verification, and `h0` is not the
/// identity, extraction gives a witness: `Y = (r' - r) * g1`.
pub proof fn lemma_extract_finds_witness(
    params: PublicParameters,
    pre: AdaptorPreSignature,
    full: AdaptorFullSignature,
    adaptor_pk: nat,
    signer_pk: nat,
    message: Seq<u8>,
    h0_inverse: nat,
)
    requires
        adaptor_pk < group_order(),
        (params.h0@ * h0_inverse) % group_order() == 1,
        full.a == pre.a,
        full.e == pre.e,
        pre_signature_holds(params, pre, adaptor_pk, signer_pk, message),
        full_signature_holds(params, full, signer_pk, message),
    ensures
        adaptor_pk == (params.g1@ * sub_mod(full.r@ as int, pre.r@ as int, group_order()))
            % group_order(),
{
    let q = group_order() as int;
    let h0 = params.h0@ as int;
    let hi = h0_inverse as int;
    let g1 = params.g1@ as int;
    let r = pre.r@ as int;
    let r2 = full.r@ as int;
    let pre_b = pre_base(params, adaptor_pk, pre.r@, message) as int;
    let full_b = full_base(params, full.r@, message) as int;
    // The two bases times h0 are congruent; multiplying by h0's inverse
    // cancels h0.
    vstd::arithmetic::div_mod::lemma_mod_twice(hi, q);
    lemma_cong_mul(pre_b * h0, hi, full_b * h0, hi, q);
    assert(pre_b * h0 * hi == pre_b * (h0 * hi)) by (nonlinear_arith);
    assert(full_b * h0 * hi == full_b * (h0 * hi)) by (nonlinear_arith);
    vstd::arithmetic::div_mod::lemma_mod_twice(pre_b, q);
    vstd::arithmetic::div_mod::lemma_mod_twice(full_b, q);
    vstd::arithmetic::div_mod::lemma_small_mod(1, group_order());
    lemma_cong_mul(pre_b, h0 * hi, pre_b, 1, q);
    lemma_cong_mul(full_b, h0 * hi, full_b, 1, q);
    // So Y + g1 * r is congruent to g1 * r'; subtract g1 * r.
    lemma_cong_add(pre_b, -(g1 * r) - params.g0@ - params.g2@ * message_scalar(message), full_b,
        -(g1 * r) - params.g0@ - params.g2@ * message_scalar(message), q);
    assert(g1 * r2 - g1 * r == g1 * (r2 - r)) by (nonlinear_arith);
    vstd::arithmetic::div_mod::lemma_mod_twice(r2 - r, q);
    vstd::arithmetic::div_mod::lemma_mod_twice(g1, q);
    lemma_cong_mul(g1, r2 - r, g1, (r2 - r) % q, q);
    vstd::arithmetic::div_mod::lemma_small_mod(adaptor_pk, group_order());
}


/// When `h0` is not the identity, a pre-signature that passes
/// pre-verification for one statement fails it for every other statement.
pub proof fn lemma_pre_signature_binds_statement(
    params: PublicParameters,
    sig: AdaptorPreSignature,
    adaptor_pk: nat,
    other_pk: nat,
    signer_pk: nat,
    message: Seq<u8>,
    h0_inverse: nat,
)
    requires
        adaptor_pk < group_order(),
        other_pk < group_order(),
        adaptor_pk != other_pk,
        (params.h0@ * h0_inverse) % group_order() == 1,
        pre_signature_holds(params, sig, adaptor_pk, signer_pk, message),
    ensures
        !pre_signature_holds(params, sig, other_pk, signer_pk, message),
{
    if pre_signature_holds(params, sig, other_pk, signer_pk, message) {
        let q = group_order() as int;
        let h0 = params.h0@ as int;
        let hi = h0_inverse as int;
        let b1 = pre_base(params, adaptor_pk, sig.r@, message) as int;
        let b2 = pre_base(params, other_pk, sig.r@, message) as int;
        lemma_cancel_factor(b1, b2, h0, hi, q);
        let rest = b1 - adaptor_pk;
        lemma_cong_add(b1, -rest, b2, -rest, q);
        vstd::arithmetic::div_mod::lemma_small_mod(adaptor_pk, group_order());
        vstd::arithmetic::div_mod::lemma_small_mod(other_pk, group_order());
    }
}

/// When `g1` and `h0` are not the identity, adapting a pre-signature that
/// passes pre-verification for `Y = y * g1` with any value other than `y`
/// gives a signature that fails verification.
pub proof fn lemma_adapt_with_wrong_witness_fails(
    params: PublicParameters,
    pre: AdaptorPreSignature,
    full: AdaptorFullSignature,
    adaptor_pk: nat,
    adaptor_sk: nat,
    other_sk: nat,
    signer_pk: nat,
    message: Seq<u8>,
    g1_inverse: nat,
    h0_inverse: nat,
)
    requires
        adaptor_sk < group_order(),
        other_sk < group_order(),
        adaptor_sk != other_sk,
        adaptor_pk == (params.g1@ * adaptor_sk) % group_order(),
        (params.g1@ * g1_inverse) % group_order() == 1,
        (params.h0@ * h0_inverse) % group_order() == 1,
        pre_signature_holds(params, pre, adaptor_pk, signer_pk, message),
        is_adaptation_of(full, pre, other_sk),
    ensures
        !full_signature_holds(params, full, signer_pk, message),
{
    if full_signature_holds(params, full, signer_pk, message) {
        let q = group_order() as int;
        vstd::arithmetic::div_mod::lemma_mod_bound(
            (params.g1@ * adaptor_sk) as int,
            q,
        );
        lemma_extract_finds_witness(params, pre, full, adaptor_pk, signer_pk, message, h0_inverse);
        Scalar::lemma_bounded(pre.r);
        lemma_sub_mod_add_cancel(pre.r@, other_sk, group_order());
        // g1 * y and g1 * y' are congruent; cancel g1.
        lemma_cancel_factor(
            adaptor_sk as int,
            other_sk as int,
            params.g1@ as int,
            g1_inverse as int,
            q,
        );
        assert(adaptor_sk * params.g1@ == params.g1@ * adaptor_sk) by (nonlinear_arith);
        assert(other_sk * params.g1@ == params.g1@ * other_sk) by (nonlinear_arith);
        vstd::arithmetic::div_mod::lemma_small_mod(adaptor_sk, group_order());
        vstd::arithmetic::div_mod::lemma_small_mod(other_sk, group_order());
    }
}

/// When `g2` and `h0` are not the identity (they have inverses modulo the
/// order), a pre-signature that passes pre-verification for one message
/// passes it for another exactly when the two messages map to the same
/// scalar.
pub proof fn lemma_pre_signature_binds_message(
    params: PublicParameters,
    sig: AdaptorPreSignature,
    adaptor_pk: nat,
    signer_pk: nat,
    message: Seq<u8>,
    other_message: Seq<u8>,
    g2_inverse: nat,
    h0_inverse: nat,
)
    requires
        (params.g2@ * g2_inverse) % group_order() == 1,
        (params.h0@ * h0_inverse) % group_order() == 1,
        pre_signature_holds(params, sig, adaptor_pk, signer_pk, message),
    ensures
        pre_signature_holds(params, sig, adaptor_pk, signer_pk, other_message) <==> message_scalar(
            message,
        ) == message_scalar(other_message),
{
    let q = group_order() as int;
    let m1 = message_scalar(message) as int;
    let m2 = message_scalar(other_message) as int;
    if pre_signature_holds(params, sig, adaptor_pk, signer_pk, other_message) {
        let h0 = params.h0@ as int;
        let g2 = params.g2@ as int;
        let b1 = pre_base(params, adaptor_pk, sig.r@, message) as int;
        let b2 = pre_base(params, adaptor_pk, sig.r@, other_message) as int;
        lemma_cancel_factor(b1, b2, h0, h0_inverse as int, q);
        let rest = b1 - g2 * m1;
        assert(b2 == rest + g2 * m2);
        lemma_cong_add(b1, -rest, b2, -rest, q);
        assert(m1 * g2 == g2 * m1) by (nonlinear_arith);
        assert(m2 * g2 == g2 * m2) by (nonlinear_arith);
        lemma_cancel_factor(m1, m2, g2, g2_inverse as int, q);
        vstd::arithmetic::div_mod::lemma_mod_bound(be_nat(message) as int, q);
        vstd::arithmetic::div_mod::lemma_mod_bound(be_nat(other_message) as int, q);
        vstd::arithmetic::div_mod::lemma_small_mod(m1 as nat, group_order());
        vstd::arithmetic::div_mod::lemma_small_mod(m2 as nat, group_order());
    }
}

/// A message of any length maps to its whole big-endian value modulo the
/// order, or to `1` where that value is zero modulo the order.
pub proof fn lemma_message_scalar_value(message: Seq<u8>)
    ensures
        be_nat(message) % group_order() != 0 ==> message_scalar(message) == be_nat(message)
            % group_order(),
        be_nat(message) % group_order() == 0 ==> message_scalar(message) == 1,
        message_scalar(message) != 0,
{
}

/// Two messages map to the same scalar only when their whole big-endian
/// values agree modulo the order, or both reduce to `0` or `1`.
pub proof fn lemma_message_scalar_separates(message: Seq<u8>, other_message: Seq<u8>)
    requires
        message_scalar(message) == message_scalar(other_message),
    ensures
        be_nat(message) % group_order() == be_nat(other_message) % group_order() || (be_nat(
            message,
        ) % group_order() <= 1 && be_nat(other_message) % group_order() <= 1),
{
}

/// When `g2` and `h0` have inverses modulo the order, a pre-signature that
/// passes pre-verification for two messages binds their whole big-endian
/// values: they agree modulo the order, or both reduce to `0` or `1`.
pub proof fn lemma_pre_signature_binds_whole_message(
    params: PublicParameters,
    sig: AdaptorPreSignature,
    adaptor_pk: nat,
    signer_pk: nat,
    message: Seq<u8>,
    other_message: Seq<u8>,
    g2_inverse: nat,
    h0_inverse: nat,
)
    requires
        (params.g2@ * g2_inverse) % group_order() == 1,
        (params.h0@ * h0_inverse) % group_order() == 1,
        pre_signature_holds(params, sig, adaptor_pk, signer_pk, message),
        pre_signature_holds(params, sig, adaptor_pk, signer_pk, other_message),
    ensures
        be_nat(message) % group_order() == be_nat(other_message) % group_order() || (be_nat(
            message,
        ) % group_order() <= 1 && be_nat(other_message) % group_order() <= 1),
{
    lemma_pre_signature_binds_message(
        params,
        sig,
        adaptor_pk,
        signer_pk,
        message,
        other_message,
        g2_inverse,
        h0_inverse,
    );
    lemma_message_scalar_separates(message, other_message);
}

/// When `g2` and `h0` have inverses modulo the order, a signature that
/// verifies for two messages binds their whole big-endian values: they agree
/// modulo the order, or both reduce to `0` or `1`.
pub proof fn lemma_full_signature_binds_whole_message(
    params: PublicParameters,
    sig: AdaptorFullSignature,
    signer_pk: nat,
    message: Seq<u8>,
    other_message: Seq<u8>,
    g2_inverse: nat,
    h0_inverse: nat,
)
    requires
        (params.g2@ * g2_inverse) % group_order() == 1,
        (params.h0@ * h0_inverse) % group_order() == 1,
        full_signature_holds(params, sig, signer_pk, message),
        full_signature_holds(params, sig, signer_pk, other_message),
    ensures
        be_nat(message) % group_order() == be_nat(other_message) % group_order() || (be_nat(
            message,
        ) % group_order() <= 1 && be_nat(other_message) % group_order() <= 1),
{
    let q = group_order() as int;
    let m1 = message_scalar(message) as int;
    let m2 = message_scalar(other_message) as int;
    let g2 = params.g2@ as int;
    let b1 = full_base(params, sig.r@, message) as int;
    let b2 = full_base(params, sig.r@, other_message) as int;
    lemma_cancel_factor(b1, b2, params.h0@ as int, h0_inverse as int, q);
    let rest = b1 - g2 * m1;
    assert(b2 == rest + g2 * m2);
    lemma_cong_add(b1, -rest, b2, -rest, q);
    assert(m1 * g2 == g2 * m1) by (nonlinear_arith);
    assert(m2 * g2 == g2 * m2) by (nonlinear_arith);
    lemma_cancel_factor(m1, m2, g2, g2_inverse as int, q);
    vstd::arithmetic::div_mod::lemma_mod_bound(be_nat(message) as int, q);
    vstd::arithmetic::div_mod::lemma_mod_bound(be_nat(other_message) as int, q);
    vstd::arithmetic::div_mod::lemma_small_mod(m1 as nat, group_order());
    vstd::arithmetic::div_mod::lemma_small_mod(m2 as nat, group_order());
    lemma_message_scalar_separates(message, other_message);
}

// ------------------------------------------------------------------
// Algorithms
// ------------------------------------------------------------------

/// `A = B * inv` with `inv * (e + sk) = 1` gives `A * (e + sk) = B`.
proof fn lemma_division(a: nat, base: nat, inv: nat, den: nat)
    requires
        a == (base * inv) % group_order(),
        (inv * (den % group_order())) % group_order() == 1,
    ensures
        (a * den) % group_order() == base % group_order(),
{
    let q = group_order() as int;
    let (a, base, inv, den) = (a as int, base as int, inv as int, den as int);
    vstd::arithmetic::div_mod::lemma_mod_twice(base * inv, q);
    vstd::arithmetic::div_mod::lemma_mod_twice(den, q);
    lemma_cong_mul(a, den, base * inv, den, q);
    assert((base * inv) * den == base * (inv * den)) by (nonlinear_arith);
    vstd::arithmetic::div_mod::lemma_mul_mod_noop_right(inv, den, q);
    vstd::arithmetic::div_mod::lemma_mod_twice(base, q);
    vstd::arithmetic::div_mod::lemma_small_mod(1, group_order());
    lemma_cong_mul(base, inv * den, base, 1, q);
}

/// Draws scalars until one is nonzero, giving up after `SAMPLING_ATTEMPTS`
/// draws. Alongside the result come the draws made: every one before the
/// last is zero; the result is the last draw when that is nonzero, and
/// `None` only when all `SAMPLING_ATTEMPTS` draws were zero.
fn random_nonzero_scalar(rng: &mut StdRng) -> (r: (Option<Scalar>, Ghost<Seq<Scalar>>))
    ensures
        1 <= r.1@.len() <= SAMPLING_ATTEMPTS,
        forall|i: int| 0 <= i < r.1@.len() - 1 ==> (#[trigger] r.1@[i])@ == 0,
        r.0 is Some <==> r.1@.last()@ != 0,
        r.0 matches Some(s) ==> s == r.1@.last() && s@ != 0,
        r.0 is None ==> r.1@.len() == SAMPLING_ATTEMPTS,
{
    let mut attempt: u32 = 0;
    let ghost mut draws: Seq<Scalar> = Seq::empty();
    while attempt < SAMPLING_ATTEMPTS
        invariant
            attempt <= SAMPLING_ATTEMPTS,
            draws.len() == attempt,
            forall|i: int| 0 <= i < draws.len() ==> (#[trigger] draws[i])@ == 0,
        decreases SAMPLING_ATTEMPTS - attempt,
    {
        let value = Scalar::random(rng);
        proof {
            draws = draws.push(value);
        }
        if !value.is_zero() {
            return (Some(value), Ghost(draws));
        }
        attempt = attempt + 1;
    }
    (None, Ghost(draws))
}

/// The message as a nonzero scalar: its big-endian value modulo the order,
/// or `1` where that is zero.
pub fn message_to_scalar(message: &[u8]) -> (m: Scalar)
    ensures
        m@ == message_scalar(message@),
{
    let value = Scalar::from_be_bytes_mod_order(message);
    if value.is_zero() {
        Scalar::one()
    } else {
        value
    }
}

/// `g0 + r*g1 + m*g2`.
fn commitment_base(params: &PublicParameters, r: &Scalar, m: &Scalar) -> (b: G1Point)
    ensures
        b@ % group_order() == (params.g0@ + params.g1@ * r@ + params.g2@ * m@) % group_order(),
{
    let q = Ghost(group_order() as int);
    let t1 = params.g1.mul(r);
    let s1 = params.g0.add(&t1);
    let t2 = params.g2.mul(m);
    let b = s1.add(&t2);
    proof {
        let (g0, g1, g2) = (params.g0@ as int, params.g1@ as int, params.g2@ as int);
        vstd::arithmetic::div_mod::lemma_mod_twice(g0, q@);
        vstd::arithmetic::div_mod::lemma_mod_twice(g1 * r@, q@);
        vstd::arithmetic::div_mod::lemma_mod_twice(g2 * m@, q@);
        lemma_add_mod_cong(g0, t1@ as int, g0, g1 * r@, q@);
        lemma_add_mod_cong(s1@ as int, t2@ as int, g0 + g1 * r@, g2 * m@, q@);
    }
    b
}

/// Whether `e(A, vk + e*h0) = e(B, h0)`, for a point `B` whose logarithm is
/// congruent to `base`.
fn pairing_check(
    params: &PublicParameters,
    a: &G1Point,
    e: &Scalar,
    signer_pk: &PublicKey,
    b: &G1Point,
    Ghost(base): Ghost<nat>,
) -> (ok: bool)
    requires
        b@ % group_order() == base % group_order(),
    ensures
        ok == pairing_equation(a@, e@, signer_pk.0@, params.h0@, base),
{
    let q = Ghost(group_order() as int);
    let second_left = signer_pk.0.add(&params.h0.mul(e));
    let left = Gt::pairing(a, &second_left);
    let right = Gt::pairing(b, &params.h0);
    proof {
        let (pk, h0) = (signer_pk.0@ as int, params.h0@ as int);
        vstd::arithmetic::div_mod::lemma_mod_twice(pk, q@);
        vstd::arithmetic::div_mod::lemma_mod_twice(h0 * e@, q@);
        lemma_add_mod_cong(pk, (h0 * e@) % q@, pk, h0 * e@, q@);
        vstd::arithmetic::div_mod::lemma_mod_twice(a@ as int, q@);
        lemma_cong_mul(a@ as int, second_left@ as int, a@ as int, pk + h0 * e@, q@);
        vstd::arithmetic::div_mod::lemma_mod_twice(h0, q@);
        lemma_cong_mul(b@ as int, h0, base as int, h0, q@);
    }
    left.equals(&right)
}

impl BbsPlusAdaptor {
    /// Setup for given scalars: `g0 = k0 * P1`, `g1 = k1 * P1`,
    /// `g2 = k2 * P1`, and `h0` the `G2` generator.
    pub fn setup_with(k0: &Scalar, k1: &Scalar, k2: &Scalar) -> (p: PublicParameters)
        ensures
            p.g0@ == k0@,
            p.g1@ == k1@,
            p.g2@ == k2@,
            p.h0@ == 1,
    {
        PublicParameters {
            g0: G1Point::mul_generator(k0),
            g1: G1Point::mul_generator(k1),
            g2: G1Point::mul_generator(k2),
            h0: G2Point::generator(),
        }
    }

    /// pSign for given nonces `r` and `e`: `A = (g0 + r*g1 + Y + m*g2) /
    /// (e + sk)`; `None` exactly when `e + sk` is zero.
    pub fn pre_sign_with(
        params: &PublicParameters,
        adaptor_pk: &AdaptorPublicKey,
        signer_sk: &SecretKey,
        message: &[u8],
        r: &Scalar,
        e: &Scalar,
    ) -> (sig: Option<AdaptorPreSignature>)
        ensures
            sig is None <==> (e@ + signer_sk.0@) % group_order() == 0,
            sig matches Some(s) ==> s.e == *e && s.r == *r && is_pre_signature(
                *params,
                s,
                adaptor_pk@,
                signer_sk.0@,
                message@,
            ),
    {
        let m = message_to_scalar(message);
        let denominator = e.add(&signer_sk.0);
        let inverse = match denominator.inverse() {
            Some(inv) => inv,
            None => {
                return None;
            },
        };
        let partial = commitment_base(params, r, &m);
        let base = partial.add(adaptor_pk);
        let a = base.mul(&inverse);
        let sig = AdaptorPreSignature { a, e: *e, r: *r };
        proof {
            let q = group_order() as int;
            let full = params.g0@ + params.g1@ * r@ + params.g2@ * m@;
            vstd::arithmetic::div_mod::lemma_mod_twice(adaptor_pk@ as int, q);
            lemma_add_mod_cong(partial@ as int, adaptor_pk@ as int, full as int, adaptor_pk@ as int, q);
            lemma_division(a@, base@, inverse@, e@ + signer_sk.0@);
        }
        Some(sig)
    }
}


/// The algorithms of the BBS+ adaptor scheme, with its setup and key
/// generation.
pub trait AdaptorSignatureScheme {
    /// Setup: `g0, g1, g2` random nonzero multiples of the `G1` generator,
    /// `h0` the `G2` generator.
    fn setup(rng: &mut StdRng) -> (r: Result<PublicParameters, AdaptorError>)
        ensures
            r matches Ok(p) ==> p.h0@ == 1 && p.g0@ != 0 && p.g1@ != 0 && p.g2@ != 0,
            r matches Err(e) ==> e == AdaptorError::SamplingExhausted,
    ;

    /// KeyGen: `sk` random nonzero, `vk = sk * h0`.
    fn keygen(params: &PublicParameters, rng: &mut StdRng) -> (r: Result<
        (PublicKey, SecretKey),
        AdaptorError,
    >)
        ensures
            r matches Ok((pk, sk)) ==> sk.0@ != 0 && pk.0@ == (params.h0@ * sk.0@)
                % group_order(),
            r matches Err(e) ==> e == AdaptorError::SamplingExhausted,
    ;

    /// The adaptor statement and witness: `y` random nonzero, `Y = y * g1`.
    fn adaptor_keygen(params: &PublicParameters, rng: &mut StdRng) -> (r: Result<
        (AdaptorPublicKey, AdaptorSecretKey),
        AdaptorError,
    >)
        ensures
            r matches Ok((pk, sk)) ==> sk@ != 0 && pk@ == (params.g1@ * sk@) % group_order(),
            r matches Err(e) ==> e == AdaptorError::SamplingExhausted,
    ;

    /// pSign: random nonzero `r` and `e` with `e + sk` nonzero, and
    /// `A = (g0 + r*g1 + Y + m*g2) / (e + sk)`.
    fn pre_sign(
        params: &PublicParameters,
        adaptor_pk: &AdaptorPublicKey,
        signer_pk: &PublicKey,
        signer_sk: &SecretKey,
        message: &[u8],
        rng: &mut StdRng,
    ) -> (r: Result<AdaptorPreSignature, AdaptorError>)
        ensures
            r matches Ok(sig) ==> sig.r@ != 0 && sig.e@ != 0 && is_pre_signature(
                *params,
                sig,
                adaptor_pk@,
                signer_sk.0@,
                message@,
            ),
            r matches Ok(sig) ==> (signer_pk.0@ == (params.h0@ * signer_sk.0@) % group_order()
                ==> pre_signature_holds(*params, sig, adaptor_pk@, signer_pk.0@, message@)),
            r matches Err(e) ==> e == AdaptorError::SamplingExhausted,
    ;

    /// pVrfy: checks `e(A, vk + e*h0) = e(g0 + r*g1 + Y + m*g2, h0)`.
    fn verify(
        params: &PublicParameters,
        signature: &AdaptorPreSignature,
        adaptor_pk: &AdaptorPublicKey,
        signer_pk: &PublicKey,
        message: &[u8],
    ) -> (r: Result<(), AdaptorError>)
        ensures
            r is Ok <==> pre_signature_holds(
                *params,
                *signature,
                adaptor_pk@,
                signer_pk.0@,
                message@,
            ),
            r matches Err(e) ==> e == AdaptorError::PreSignatureVerification,
    ;

    /// Adapt: `r' = r + y`.
    fn adapt(signature: &AdaptorPreSignature, adaptor_sk: &AdaptorSecretKey) -> (r: Result<
        AdaptorFullSignature,
        AdaptorError,
    >)
        ensures
            r matches Ok(full) && is_adaptation_of(full, *signature, adaptor_sk@),
    ;

    /// Extract: `y = r' - r`.
    fn extract(pre_signature: &AdaptorPreSignature, signature: &AdaptorFullSignature) -> (r:
        Result<AdaptorSecretKey, AdaptorError>)
        ensures
            r matches Ok(y) && y@ == sub_mod(
                signature.r@ as int,
                pre_signature.r@ as int,
                group_order(),
            ),
    ;

    /// Vrfy: checks `e(A, vk + e*h0) = e(g0 + r'*g1 + m*g2, h0)`.
    fn verify_full_signature(
        params: &PublicParameters,
        signature: &AdaptorFullSignature,
        signer_pk: &PublicKey,
        message: &[u8],
    ) -> (r: Result<(), AdaptorError>)
        ensures
            r is Ok <==> full_signature_holds(*params, *signature, signer_pk.0@, message@),
            r matches Err(e) ==> e == AdaptorError::SignatureVerification,
    ;
}

impl AdaptorSignatureScheme for BbsPlusAdaptor {
    fn setup(rng: &mut StdRng) -> (r: Result<PublicParameters, AdaptorError>) {
        let k0 = match random_nonzero_scalar(rng).0 {
            Some(k) => k,
            None => {
                return Err(AdaptorError::SamplingExhausted);
            },
        };
        let k1 = match random_nonzero_scalar(rng).0 {
            Some(k) => k,
            None => {
                return Err(AdaptorError::SamplingExhausted);
            },
        };
        let k2 = match random_nonzero_scalar(rng).0 {
            Some(k) => k,
            None => {
                return Err(AdaptorError::SamplingExhausted);
            },
        };
        Ok(BbsPlusAdaptor::setup_with(&k0, &k1, &k2))
    }

    fn keygen(params: &PublicParameters, rng: &mut StdRng) -> (r: Result<
        (PublicKey, SecretKey),
        AdaptorError,
    >) {
        let sk = match random_nonzero_scalar(rng).0 {
            Some(k) => k,
            None => {
                return Err(AdaptorError::SamplingExhausted);
            },
        };
        let vk = params.h0.mul(&sk);
        Ok((PublicKey(vk), SecretKey(sk)))
    }

    fn adaptor_keygen(params: &PublicParameters, rng: &mut StdRng) -> (r: Result<
        (AdaptorPublicKey, AdaptorSecretKey),
        AdaptorError,
    >) {
        let y = match random_nonzero_scalar(rng).0 {
            Some(k) => k,
            None => {
                return Err(AdaptorError::SamplingExhausted);
            },
        };
        let statement = params.g1.mul(&y);
        Ok((statement, y))
    }

    fn pre_sign(
        params: &PublicParameters,
        adaptor_pk: &AdaptorPublicKey,
        signer_pk: &PublicKey,
        signer_sk: &SecretKey,
        message: &[u8],
        rng: &mut StdRng,
    ) -> (r: Result<AdaptorPreSignature, AdaptorError>) {
        let r = match random_nonzero_scalar(rng).0 {
            Some(k) => k,
            None => {
                return Err(AdaptorError::SamplingExhausted);
            },
        };
        let mut attempt: u32 = 0;
        while attempt < SAMPLING_ATTEMPTS
            invariant
                attempt <= SAMPLING_ATTEMPTS,
                r@ != 0,
            decreases SAMPLING_ATTEMPTS - attempt,
        {
            if let Some(candidate) = random_nonzero_scalar(rng).0 {
                if let Some(sig) = BbsPlusAdaptor::pre_sign_with(
                    params,
                    adaptor_pk,
                    signer_sk,
                    message,
                    &r,
                    &candidate,
                ) {
                    proof {
                        if signer_pk.0@ == (params.h0@ * signer_sk.0@) % group_order() {
                            lemma_pre_sign_verifies(
                                *params,
                                sig,
                                adaptor_pk@,
                                signer_pk.0@,
                                signer_sk.0@,
                                message@,
                            );
                        }
                    }
                    return Ok(sig);
                }
            }
            attempt = attempt + 1;
        }
        Err(AdaptorError::SamplingExhausted)
    }

    fn verify(
        params: &PublicParameters,
        signature: &AdaptorPreSignature,
        adaptor_pk: &AdaptorPublicKey,
        signer_pk: &PublicKey,
        message: &[u8],
    ) -> (r: Result<(), AdaptorError>) {
        let m = message_to_scalar(message);
        let partial = commitment_base(params, &signature.r, &m);
        let base = partial.add(adaptor_pk);
        proof {
            let q = group_order() as int;
            let full = params.g0@ + params.g1@ * signature.r@ + params.g2@ * m@;
            vstd::arithmetic::div_mod::lemma_mod_twice(adaptor_pk@ as int, q);
            lemma_add_mod_cong(partial@ as int, adaptor_pk@ as int, full as int, adaptor_pk@ as int, q);
        }
        if pairing_check(
            params,
            &signature.a,
            &signature.e,
            signer_pk,
            &base,
            Ghost(pre_base(*params, adaptor_pk@, signature.r@, message@)),
        ) {
            Ok(())
        } else {
            Err(AdaptorError::PreSignatureVerification)
        }
    }

    fn adapt(signature: &AdaptorPreSignature, adaptor_sk: &AdaptorSecretKey) -> (r: Result<
        AdaptorFullSignature,
        AdaptorError,
    >) {
        let adapted_r = signature.r.add(adaptor_sk);
        Ok(AdaptorFullSignature { a: signature.a, e: signature.e, r: adapted_r })
    }

    fn extract(pre_signature: &AdaptorPreSignature, signature: &AdaptorFullSignature) -> (r:
        Result<AdaptorSecretKey, AdaptorError>) {
        Ok(signature.r.sub(&pre_signature.r))
    }

    fn verify_full_signature(
        params: &PublicParameters,
        signature: &AdaptorFullSignature,
        signer_pk: &PublicKey,
        message: &[u8],
    ) -> (r: Result<(), AdaptorError>) {
        let m = message_to_scalar(message);
        let base = commitment_base(params, &signature.r, &m);
        if pairing_check(
            params,
            &signature.a,
            &signature.e,
            signer_pk,
            &base,
            Ghost(full_base(*params, signature.r@, message@)),
        ) {
            Ok(())
        } else {
            Err(AdaptorError::SignatureVerification)
        }
    }
}

} // verus!
