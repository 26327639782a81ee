//! The BLS12-381 pairing groups and their scalar field.
//!
//! As for secp256k1, a scalar is held as its canonical little-endian encoding
//! and viewed as the integer it denotes. The groups `G1`, `G2` and the target
//! group all have the prime order `r`; an element of each is held as its
//! canonical compressed encoding and viewed as its discrete logarithm: with
//! respect to the standard generators in `G1` and `G2`, and with respect to
//! the pairing of those two generators in the target group.

use ark_bls12_381::{Bls12_381, Fr, G1Affine, G2Affine};
use ark_ec::pairing::Pairing;
use ark_ec::{AffineRepr, CurveGroup};
use ark_ff::{Field, PrimeField, UniformRand};
use ark_serialize::{CanonicalDeserialize, CanonicalSerialize};
use ark_std::rand::rngs::StdRng;
use vstd::prelude::*;

use crate::arith::{
    be_nat, le_encoding, le_nat, lemma_le_encoding_roundtrip, lemma_le_nat_injective,
    lemma_le_nat_zeros, sub_mod,
};

verus! {

/// The order `r` of the BLS12-381 groups, which is the modulus of the scalar
/// field.
pub open spec fn group_order() -> nat {
    0x73eda753299d7d483339d80809a1d80553bda402fffe5bfeffffffff00000001nat
}

// ------------------------------------------------------------------
// Scalars
// ------------------------------------------------------------------

/// An element of the scalar field of BLS12-381.
#[derive(Clone, Copy, Debug, PartialEq, Eq)]
pub struct Scalar {
    bytes: [u8; 32],
}

impl View for Scalar {
    type V = nat;

    closed spec fn view(&self) -> nat {
        le_nat(self.bytes@) % group_order()
    }
}

impl Scalar {
    #[verifier::type_invariant]
    spec fn canonical(self) -> bool {
        le_nat(self.bytes@) < group_order()
    }

    /// A scalar is below the group order.
    pub proof fn lemma_bounded(s: Scalar)
        ensures
            s@ < group_order(),
    {
    }

    fn from_canonical(bytes: [u8; 32]) -> (r: Scalar)
        requires
            le_nat(bytes@) < group_order(),
        ensures
            r@ == le_nat(bytes@),
    {
        Scalar { bytes }
    }

    /// The canonical little-endian encoding of this scalar.
    pub fn to_bytes(&self) -> (r: [u8; 32])
        ensures
            r@ == le_encoding(self@, 32),
            self@ < group_order(),
    {
        proof {
            use_type_invariant(self);
            lemma_le_encoding_roundtrip(self.bytes@);
        }
        self.bytes
    }

    /// `self + other` in the field.
    pub fn add(&self, other: &Scalar) -> (r: Scalar)
        ensures
            r@ == (self@ + other@) % group_order(),
    {
        Scalar::from_canonical(field_add(self, other))
    }

    /// `self - other` in the field.
    pub fn sub(&self, other: &Scalar) -> (r: Scalar)
        ensures
            r@ == sub_mod(self@ as int, other@ as int, group_order()),
    {
        Scalar::from_canonical(field_sub(self, other))
    }

    /// The field element denoted by the big-endian integer `bytes`, reduced
    /// modulo the group order.
    pub fn from_be_bytes_mod_order(bytes: &[u8]) -> (r: Scalar)
        ensures
            r@ == be_nat(bytes@) % group_order(),
    {
        Scalar::from_canonical(field_from_be_bytes(bytes))
    }

    /// A scalar drawn from `rng`.
    pub fn random(rng: &mut StdRng) -> (r: Scalar) {
        Scalar::from_canonical(field_random(rng))
    }

    /// The multiplicative inverse; `None` exactly for zero.
    pub fn inverse(&self) -> (r: Option<Scalar>)
        ensures
            r is None <==> self@ == 0,
            r matches Some(inv) ==> (inv@ * self@) % group_order() == 1,
    {
        match field_inverse(self) {
            Some(b) => Some(Scalar::from_canonical(b)),
            None => None,
        }
    }

    /// The scalar `1`.
    pub fn one() -> (r: Scalar)
        ensures
            r@ == 1,
    {
        let mut bytes = [0u8; 32];
        bytes[0] = 1u8;
        proof {
            lemma_le_nat_zeros(bytes@.skip(1));
            vstd::arithmetic::div_mod::lemma_small_mod(1, group_order());
        }
        Scalar::from_canonical(bytes)
    }

    /// Whether the scalar is zero.
    pub fn is_zero(&self) -> (r: bool)
        ensures
            r == (self@ == 0),
    {
        proof {
            use_type_invariant(self);
            vstd::arithmetic::div_mod::lemma_small_mod(le_nat(self.bytes@), group_order());
        }
        let zero = [0u8; 32];
        proof {
            lemma_le_nat_zeros(zero@);
            if le_nat(self.bytes@) == 0 {
                lemma_le_nat_injective(self.bytes@, zero@);
            }
        }
        crate::arith::bytes_equal(&self.bytes, &zero)
    }
}

/// Calls `Add` of `Fr`: the sum modulo the order, re-encoded.
#[verifier::external_body]
fn field_add(a: &Scalar, b: &Scalar) -> (r: [u8; 32])
    ensures
        le_nat(r@) == (a@ + b@) % group_order(),
{
    let mut out = [0u8; 32];
    let sum = Fr::from_le_bytes_mod_order(&a.bytes) + Fr::from_le_bytes_mod_order(&b.bytes);
    sum.serialize_compressed(&mut out[..]).unwrap();
    out
}

/// Calls `Sub` of `Fr`: the difference modulo the order, re-encoded.
#[verifier::external_body]
fn field_sub(a: &Scalar, b: &Scalar) -> (r: [u8; 32])
    ensures
        le_nat(r@) == sub_mod(a@ as int, b@ as int, group_order()),
{
    let mut out = [0u8; 32];
    let diff = Fr::from_le_bytes_mod_order(&a.bytes) - Fr::from_le_bytes_mod_order(&b.bytes);
    diff.serialize_compressed(&mut out[..]).unwrap();
    out
}

/// Calls `PrimeField::from_be_bytes_mod_order` of `Fr`, documented to read a
/// big-endian integer and reduce it modulo the order.
#[verifier::external_body]
fn field_from_be_bytes(bytes: &[u8]) -> (r: [u8; 32])
    ensures
        le_nat(r@) == be_nat(bytes@) % group_order(),
{
    let mut out = [0u8; 32];
    Fr::from_be_bytes_mod_order(bytes).serialize_compressed(&mut out[..]).unwrap();
    out
}

/// Calls `Field::inverse` of `Fr`, documented to return the inverse of a
/// nonzero element and `None` for zero.
#[verifier::external_body]
fn field_inverse(a: &Scalar) -> (r: Option<[u8; 32]>)
    ensures
        r is None <==> a@ == 0,
        r matches Some(b) ==> le_nat(b@) < group_order() && (le_nat(b@) * a@) % group_order() == 1,
{
    let inv = Fr::from_le_bytes_mod_order(&a.bytes).inverse()?;
    let mut out = [0u8; 32];
    inv.serialize_compressed(&mut out[..]).unwrap();
    Some(out)
}

/// Calls `UniformRand::rand` of `Fr`. Nothing is promised of the value but
/// that it is a field element.
#[verifier::external_body]
fn field_random(rng: &mut StdRng) -> (r: [u8; 32])
    ensures
        le_nat(r@) < group_order(),
{
    let mut out = [0u8; 32];
    Fr::rand(rng).serialize_compressed(&mut out[..]).unwrap();
    out
}


// ------------------------------------------------------------------
// G1
// ------------------------------------------------------------------

/// The compressed encoding of `k * P1`, for `P1` the standard generator of
/// `G1`.
pub uninterp spec fn bls12_381_g1_multiple(k: nat) -> Seq<u8>;

/// `bytes` is the encoding of `k * P1`, and of no other multiple below the
/// order.
pub open spec fn encodes_g1_multiple(bytes: Seq<u8>, k: nat) -> bool {
    &&& k < group_order()
    &&& bytes == bls12_381_g1_multiple(k)
    &&& forall|j: nat| j < group_order() && #[trigger] bls12_381_g1_multiple(j) == bytes ==> j == k
}

/// A point of `G1`.
#[derive(Clone, Copy, Debug, PartialEq, Eq)]
pub struct G1Point {
    bytes: [u8; 48],
}

impl View for G1Point {
    type V = nat;

    /// The discrete logarithm of the point.
    closed spec fn view(&self) -> nat {
        (choose|k: nat| encodes_g1_multiple(self.bytes@, k)) % group_order()
    }
}

impl G1Point {
    #[verifier::type_invariant]
    spec fn valid(self) -> bool {
        exists|k: nat| encodes_g1_multiple(self.bytes@, k)
    }

    fn from_encoding(bytes: [u8; 48], Ghost(k): Ghost<nat>) -> (r: G1Point)
        requires
            encodes_g1_multiple(bytes@, k),
        ensures
            r@ == k,
    {
        let ghost p = G1Point { bytes };
        assert(encodes_g1_multiple(p.bytes@, k));
        let r = G1Point { bytes };
        r
    }

    /// The compressed encoding of the point.
    pub fn to_bytes(&self) -> (r: [u8; 48])
        ensures
            r@ == bls12_381_g1_multiple(self@),
    {
        proof {
            use_type_invariant(self);
        }
        self.bytes
    }

    /// `k * P1`.
    pub fn mul_generator(k: &Scalar) -> (r: G1Point)
        ensures
            r@ == k@,
    {
        proof {
            use_type_invariant(k);
        }
        G1Point::from_encoding(g1_generator_times(k), Ghost(k@))
    }

    /// `self + other`.
    pub fn add(&self, other: &G1Point) -> (r: G1Point)
        ensures
            r@ == (self@ + other@) % group_order(),
    {
        G1Point::from_encoding(g1_add(self, other), Ghost((self@ + other@) % group_order()))
    }

    /// `k * self`.
    pub fn mul(&self, k: &Scalar) -> (r: G1Point)
        ensures
            r@ == (self@ * k@) % group_order(),
    {
        G1Point::from_encoding(g1_mul(self, k), Ghost((self@ * k@) % group_order()))
    }
}

/// Calls `AffineRepr::generator` and `Mul` of `G1Affine`, compressing
/// `k * P1`: the result is named `bls12_381_g1_multiple`, and no other
/// multiple below the order shares it, since `P1` has prime order.
#[verifier::external_body]
fn g1_generator_times(k: &Scalar) -> (r: [u8; 48])
    ensures
        r@ == bls12_381_g1_multiple(k@),
        encodes_g1_multiple(r@, k@),
{
    let mut out = [0u8; 48];
    let p = G1Affine::generator() * Fr::from_le_bytes_mod_order(&k.bytes);
    p.into_affine().serialize_compressed(&mut out[..]).unwrap();
    out
}

/// Calls `Add` of `G1Affine`: `a * P1 + b * P1` is `(a + b) * P1`, the
/// exponent taken modulo the order.
#[verifier::external_body]
fn g1_add(p: &G1Point, q: &G1Point) -> (r: [u8; 48])
    ensures
        encodes_g1_multiple(r@, (p@ + q@) % group_order()),
{
    let mut out = [0u8; 48];
    let a = G1Affine::deserialize_compressed(&p.bytes[..]).unwrap();
    let b = G1Affine::deserialize_compressed(&q.bytes[..]).unwrap();
    (a + b).into_affine().serialize_compressed(&mut out[..]).unwrap();
    out
}

/// Calls `Mul` of `G1Affine` by `Fr`: `k * (a * P1)` is `(k * a) * P1`, the
/// exponent taken modulo the order.
#[verifier::external_body]
fn g1_mul(p: &G1Point, k: &Scalar) -> (r: [u8; 48])
    ensures
        encodes_g1_multiple(r@, (p@ * k@) % group_order()),
{
    let mut out = [0u8; 48];
    let a = G1Affine::deserialize_compressed(&p.bytes[..]).unwrap();
    let prod = a * Fr::from_le_bytes_mod_order(&k.bytes);
    prod.into_affine().serialize_compressed(&mut out[..]).unwrap();
    out
}

// ------------------------------------------------------------------
// G2
// ------------------------------------------------------------------

/// The compressed encoding of `k * P2`, for `P2` the standard generator of
/// `G2`.
pub uninterp spec fn bls12_381_g2_multiple(k: nat) -> Seq<u8>;

/// `bytes` is the encoding of `k * P2`, and of no other multiple below the
/// order.
pub open spec fn encodes_g2_multiple(bytes: Seq<u8>, k: nat) -> bool {
    &&& k < group_order()
    &&& bytes == bls12_381_g2_multiple(k)
    &&& forall|j: nat| j < group_order() && #[trigger] bls12_381_g2_multiple(j) == bytes ==> j == k
}

/// A point of `G2`.
#[derive(Clone, Copy, Debug, PartialEq, Eq)]
pub struct G2Point {
    bytes: [u8; 96],
}

impl View for G2Point {
    type V = nat;

    /// The discrete logarithm of the point.
    closed spec fn view(&self) -> nat {
        (choose|k: nat| encodes_g2_multiple(self.bytes@, k)) % group_order()
    }
}

impl G2Point {
    #[verifier::type_invariant]
    spec fn valid(self) -> bool {
        exists|k: nat| encodes_g2_multiple(self.bytes@, k)
    }

    fn from_encoding(bytes: [u8; 96], Ghost(k): Ghost<nat>) -> (r: G2Point)
        requires
            encodes_g2_multiple(bytes@, k),
        ensures
            r@ == k,
    {
        let ghost p = G2Point { bytes };
        assert(encodes_g2_multiple(p.bytes@, k));
        let r = G2Point { bytes };
        r
    }

    /// The compressed encoding of the point.
    pub fn to_bytes(&self) -> (r: [u8; 96])
        ensures
            r@ == bls12_381_g2_multiple(self@),
    {
        proof {
            use_type_invariant(self);
        }
        self.bytes
    }

    /// The standard generator `P2`.
    pub fn generator() -> (r: G2Point)
        ensures
            r@ == 1,
    {
        proof {
            vstd::arithmetic::div_mod::lemma_small_mod(1, group_order());
        }
        G2Point::from_encoding(g2_generator(), Ghost(1))
    }

    /// `self + other`.
    pub fn add(&self, other: &G2Point) -> (r: G2Point)
        ensures
            r@ == (self@ + other@) % group_order(),
    {
        G2Point::from_encoding(g2_add(self, other), Ghost((self@ + other@) % group_order()))
    }

    /// `k * self`.
    pub fn mul(&self, k: &Scalar) -> (r: G2Point)
        ensures
            r@ == (self@ * k@) % group_order(),
    {
        G2Point::from_encoding(g2_mul(self, k), Ghost((self@ * k@) % group_order()))
    }
}

/// Calls `AffineRepr::generator` of `G2Affine`: the result is the encoding
/// of `1 * P2`, and of no other multiple below the order.
#[verifier::external_body]
fn g2_generator() -> (r: [u8; 96])
    ensures
        r@ == bls12_381_g2_multiple(1),
        encodes_g2_multiple(r@, 1),
{
    let mut out = [0u8; 96];
    G2Affine::generator().serialize_compressed(&mut out[..]).unwrap();
    out
}

/// Calls `Add` of `G2Affine`: `a * P2 + b * P2` is `(a + b) * P2`, the
/// exponent taken modulo the order.
#[verifier::external_body]
fn g2_add(p: &G2Point, q: &G2Point) -> (r: [u8; 96])
    ensures
        encodes_g2_multiple(r@, (p@ + q@) % group_order()),
{
    let mut out = [0u8; 96];
    let a = G2Affine::deserialize_compressed(&p.bytes[..]).unwrap();
    let b = G2Affine::deserialize_compressed(&q.bytes[..]).unwrap();
    (a + b).into_affine().serialize_compressed(&mut out[..]).unwrap();
    out
}

/// Calls `Mul` of `G2Affine` by `Fr`: `k * (a * P2)` is `(k * a) * P2`, the
/// exponent taken modulo the order.
#[verifier::external_body]
fn g2_mul(p: &G2Point, k: &Scalar) -> (r: [u8; 96])
    ensures
        encodes_g2_multiple(r@, (p@ * k@) % group_order()),
{
    let mut out = [0u8; 96];
    let a = G2Affine::deserialize_compressed(&p.bytes[..]).unwrap();
    let prod = a * Fr::from_le_bytes_mod_order(&k.bytes);
    prod.into_affine().serialize_compressed(&mut out[..]).unwrap();
    out
}

// ------------------------------------------------------------------
// Target group
// ------------------------------------------------------------------

/// The compressed encoding of `e(P1, P2)^k`.
pub uninterp spec fn bls12_381_gt_power(k: nat) -> Seq<u8>;

/// `bytes` is the encoding of `e(P1, P2)^k`, and of no other power below
/// the order.
pub open spec fn encodes_gt_power(bytes: Seq<u8>, k: nat) -> bool {
    &&& k < group_order()
    &&& bytes == bls12_381_gt_power(k)
    &&& forall|j: nat| j < group_order() && #[trigger] bls12_381_gt_power(j) == bytes ==> j == k
}

/// An element of the target group of the pairing.
#[derive(Clone, Copy, Debug, PartialEq, Eq)]
pub struct Gt {
    bytes: [u8; 576],
}

impl View for Gt {
    type V = nat;

    /// The discrete logarithm of the element, to the base `e(P1, P2)`.
    closed spec fn view(&self) -> nat {
        (choose|k: nat| encodes_gt_power(self.bytes@, k)) % group_order()
    }
}

impl Gt {
    #[verifier::type_invariant]
    spec fn valid(self) -> bool {
        exists|k: nat| encodes_gt_power(self.bytes@, k)
    }

    fn from_encoding(bytes: [u8; 576], Ghost(k): Ghost<nat>) -> (r: Gt)
        requires
            encodes_gt_power(bytes@, k),
        ensures
            r@ == k,
    {
        let ghost p = Gt { bytes };
        assert(encodes_gt_power(p.bytes@, k));
        let r = Gt { bytes };
        r
    }

    /// The pairing `e(p, q)`: bilinear, so `e(a * P1, b * P2)` is
    /// `e(P1, P2)^(a * b)`.
    pub fn pairing(p: &G1Point, q: &G2Point) -> (r: Gt)
        ensures
            r@ == (p@ * q@) % group_order(),
    {
        Gt::from_encoding(pair(p, q), Ghost((p@ * q@) % group_order()))
    }

    /// Whether the two elements are the same.
    pub fn equals(&self, other: &Gt) -> (r: bool)
        ensures
            r == (self@ == other@),
    {
        proof {
            use_type_invariant(self);
            use_type_invariant(other);
        }
        crate::arith::bytes_equal(&self.bytes, &other.bytes)
    }
}

/// Calls `Pairing::pairing` of `Bls12_381` and compresses the output:
/// bilinearity gives `e(a * P1, b * P2) = e(P1, P2)^(a * b)`, and
/// `e(P1, P2)` has order `r`, so no other power below the order shares the
/// encoding.
#[verifier::external_body]
fn pair(p: &G1Point, q: &G2Point) -> (r: [u8; 576])
    ensures
        r@ == bls12_381_gt_power((p@ * q@) % group_order()),
        encodes_gt_power(r@, (p@ * q@) % group_order()),
{
    let mut out = [0u8; 576];
    let a = G1Affine::deserialize_compressed(&p.bytes[..]).unwrap();
    let b = G2Affine::deserialize_compressed(&q.bytes[..]).unwrap();
    Bls12_381::pairing(a, b).serialize_compressed(&mut out[..]).unwrap();
    out
}

} // verus!
