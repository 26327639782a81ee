//! The secp256k1 group and its scalar field.
//!
//! A scalar is held as its canonical 32-byte little-endian encoding and is
//! viewed as the integer it denotes, below the group order. A point is held as
//! its canonical compressed encoding and is viewed as its discrete logarithm
//! with respect to the standard generator: the group has prime order, so every
//! point is `k * G` for exactly one `k` below the order.

use ark_ec::{AffineRepr, CurveGroup};
use ark_ff::{Field, PrimeField, UniformRand};
use ark_secp256k1::{Affine, Fr};
use ark_serialize::{CanonicalDeserialize, CanonicalSerialize};
use ark_std::rand::rngs::StdRng;
use vstd::prelude::*;

use crate::arith::{be_nat, le_encoding, le_nat, lemma_le_encoding_roundtrip, sub_mod};

verus! {

/// The order of the secp256k1 group, which is the modulus of its scalar field.
pub open spec fn group_order() -> nat {
    0xFFFFFFFFFFFFFFFFFFFFFFFFFFFFFFFEBAAEDCE6AF48A03BBFD25E8CD0364141nat
}

// ------------------------------------------------------------------
// Scalars
// ------------------------------------------------------------------

/// An element of the scalar field of secp256k1.
#[derive(Clone, Copy, Debug, PartialEq, Eq)]
pub struct Scalar {
    bytes: [u8; 32],
}

impl View for Scalar {
    type V = nat;

    closed spec fn view(&self) -> nat {
        le_nat(self.bytes@) % group_order()
    }
}

impl Scalar {
    #[verifier::type_invariant]
    spec fn canonical(self) -> bool {
        le_nat(self.bytes@) < group_order()
    }

    /// A scalar is below the group order.
    pub proof fn lemma_bounded(s: Scalar)
        ensures
            s@ < group_order(),
    {
    }

    fn from_canonical(bytes: [u8; 32]) -> (r: Scalar)
        requires
            le_nat(bytes@) < group_order(),
        ensures
            r@ == le_nat(bytes@),
    {
        Scalar { bytes }
    }

    /// The canonical little-endian encoding of this scalar.
    pub fn to_bytes(&self) -> (r: [u8; 32])
        ensures
            r@ == le_encoding(self@, 32),
            self@ < group_order(),
    {
        proof {
            use_type_invariant(self);
            lemma_le_encoding_roundtrip(self.bytes@);
        }
        self.bytes
    }

    /// Reads a canonical little-endian encoding; `None` exactly when `bytes`
    /// is not 32 bytes denoting an integer below the group order.
    pub fn from_bytes(bytes: &[u8]) -> (r: Option<Scalar>)
        ensures
            r is Some <==> (bytes@.len() == 32 && le_nat(bytes@) < group_order()),
            r matches Some(s) ==> s@ == le_nat(bytes@),
    {
        match decode_scalar(bytes) {
            Some(b) => Some(Scalar::from_canonical(b)),
            None => None,
        }
    }

    /// `self + other` in the field.
    pub fn add(&self, other: &Scalar) -> (r: Scalar)
        ensures
            r@ == (self@ + other@) % group_order(),
    {
        Scalar::from_canonical(field_add(self, other))
    }

    /// `self - other` in the field.
    pub fn sub(&self, other: &Scalar) -> (r: Scalar)
        ensures
            r@ == sub_mod(self@ as int, other@ as int, group_order()),
    {
        Scalar::from_canonical(field_sub(self, other))
    }

    /// `self * other` in the field.
    pub fn mul(&self, other: &Scalar) -> (r: Scalar)
        ensures
            r@ == (self@ * other@) % group_order(),
    {
        Scalar::from_canonical(field_mul(self, other))
    }

    /// The field element denoted by the big-endian integer `bytes`, reduced
    /// modulo the group order.
    pub fn from_be_bytes_mod_order(bytes: &[u8]) -> (r: Scalar)
        ensures
            r@ == be_nat(bytes@) % group_order(),
    {
        Scalar::from_canonical(field_from_be_bytes(bytes))
    }

    /// A scalar drawn from `rng`.
    pub fn random(rng: &mut StdRng) -> (r: Scalar) {
        Scalar::from_canonical(field_random(rng))
    }

    /// The multiplicative inverse; `None` exactly for zero.
    pub fn inverse(&self) -> (r: Option<Scalar>)
        ensures
            r is None <==> self@ == 0,
            r matches Some(inv) ==> (inv@ * self@) % group_order() == 1,
    {
        match field_inverse(self) {
            Some(b) => Some(Scalar::from_canonical(b)),
            None => None,
        }
    }
}

/// Calls `CanonicalDeserialize::deserialize_compressed` for `Fr`, which reads
/// 32 little-endian bytes and refuses an integer not below the order: the
/// result, when there is one, is the input itself.
#[verifier::external_body]
fn decode_scalar(bytes: &[u8]) -> (r: Option<[u8; 32]>)
    ensures
        r is Some <==> (bytes@.len() == 32 && le_nat(bytes@) < group_order()),
        r matches Some(b) ==> b@ == bytes@,
{
    let b: [u8; 32] = bytes.try_into().ok()?;
    Fr::deserialize_compressed(&b[..]).ok()?;
    Some(b)
}

/// Calls `Add` of `Fr`: the sum modulo the order, re-encoded.
#[verifier::external_body]
fn field_add(a: &Scalar, b: &Scalar) -> (r: [u8; 32])
    ensures
        le_nat(r@) == (a@ + b@) % group_order(),
{
    let mut out = [0u8; 32];
    let sum = Fr::from_le_bytes_mod_order(&a.bytes) + Fr::from_le_bytes_mod_order(&b.bytes);
    sum.serialize_compressed(&mut out[..]).unwrap();
    out
}

/// Calls `Sub` of `Fr`: the difference modulo the order, re-encoded.
#[verifier::external_body]
fn field_sub(a: &Scalar, b: &Scalar) -> (r: [u8; 32])
    ensures
        le_nat(r@) == sub_mod(a@ as int, b@ as int, group_order()),
{
    let mut out = [0u8; 32];
    let diff = Fr::from_le_bytes_mod_order(&a.bytes) - Fr::from_le_bytes_mod_order(&b.bytes);
    diff.serialize_compressed(&mut out[..]).unwrap();
    out
}

/// Calls `Mul` of `Fr`: the product modulo the order, re-encoded.
#[verifier::external_body]
fn field_mul(a: &Scalar, b: &Scalar) -> (r: [u8; 32])
    ensures
        le_nat(r@) == (a@ * b@) % group_order(),
{
    let mut out = [0u8; 32];
    let prod = Fr::from_le_bytes_mod_order(&a.bytes) * Fr::from_le_bytes_mod_order(&b.bytes);
    prod.serialize_compressed(&mut out[..]).unwrap();
    out
}

/// Calls `PrimeField::from_be_bytes_mod_order` of `Fr`, documented to read a
/// big-endian integer and reduce it modulo the order.
#[verifier::external_body]
fn field_from_be_bytes(bytes: &[u8]) -> (r: [u8; 32])
    ensures
        le_nat(r@) == be_nat(bytes@) % group_order(),
{
    let mut out = [0u8; 32];
    Fr::from_be_bytes_mod_order(bytes).serialize_compressed(&mut out[..]).unwrap();
    out
}

/// Calls `Field::inverse` of `Fr`, documented to return the inverse of a
/// nonzero element and `None` for zero.
#[verifier::external_body]
fn field_inverse(a: &Scalar) -> (r: Option<[u8; 32]>)
    ensures
        r is None <==> a@ == 0,
        r matches Some(b) ==> le_nat(b@) < group_order() && (le_nat(b@) * a@) % group_order() == 1,
{
    let inv = Fr::from_le_bytes_mod_order(&a.bytes).inverse()?;
    let mut out = [0u8; 32];
    inv.serialize_compressed(&mut out[..]).unwrap();
    Some(out)
}

/// Calls `UniformRand::rand` of `Fr`. Nothing is promised of the value but
/// that it is a field element.
#[verifier::external_body]
fn field_random(rng: &mut StdRng) -> (r: [u8; 32])
    ensures
        le_nat(r@) < group_order(),
{
    let mut out = [0u8; 32];
    Fr::rand(rng).serialize_compressed(&mut out[..]).unwrap();
    out
}

// ------------------------------------------------------------------
// Points
// ------------------------------------------------------------------

/// The compressed encoding of `k * G`, for `G` the standard generator.
pub uninterp spec fn secp256k1_generator_multiple(k: nat) -> Seq<u8>;

/// `bytes` is the encoding of `k * G`, and of no other multiple below the
/// order.
pub open spec fn encodes_multiple(bytes: Seq<u8>, k: nat) -> bool {
    &&& k < group_order()
    &&& bytes == secp256k1_generator_multiple(k)
    &&& forall|j: nat|
        j < group_order() && #[trigger] secp256k1_generator_multiple(j) == bytes ==> j == k
}

/// A point of the secp256k1 group.
#[derive(Clone, Copy, Debug, PartialEq, Eq)]
pub struct Point {
    bytes: [u8; 33],
}

impl View for Point {
    type V = nat;

    /// The discrete logarithm of the point.
    closed spec fn view(&self) -> nat {
        (choose|k: nat| encodes_multiple(self.bytes@, k)) % group_order()
    }
}

impl Point {
    #[verifier::type_invariant]
    spec fn valid(self) -> bool {
        exists|k: nat| encodes_multiple(self.bytes@, k)
    }

    /// A logarithm is below the group order.
    pub proof fn lemma_bounded(p: Point)
        ensures
            p@ < group_order(),
    {
    }

    fn from_encoding(bytes: [u8; 33], Ghost(k): Ghost<nat>) -> (r: Point)
        requires
            encodes_multiple(bytes@, k),
        ensures
            r@ == k,
    {
        let ghost p = Point { bytes };
        assert(encodes_multiple(p.bytes@, k));
        let r = Point { bytes };
        assert(encodes_multiple(r.bytes@, r@));
        r
    }

    /// The compressed encoding of the point.
    pub fn to_bytes(&self) -> (r: [u8; 33])
        ensures
            r@ == secp256k1_generator_multiple(self@),
            self@ < group_order(),
    {
        proof {
            use_type_invariant(self);
        }
        self.bytes
    }

    /// Reads a compressed encoding, checking that it names a point of the
    /// group. The encoding of `k * G` gives the point of logarithm `k`.
    pub fn from_bytes(bytes: &[u8]) -> (r: Option<Point>)
        ensures
            forall|k: nat| #[trigger] encodes_multiple(bytes@, k) ==> r is Some && r->0@ == k,
            bytes@.len() != 33 ==> r is None,
    {
        match decode_point(bytes) {
            Some(b) => {
                let ghost k = choose|k: nat| encodes_multiple(b@, k);
                Some(Point::from_encoding(b, Ghost(k)))
            },
            None => None,
        }
    }

    /// `k * G`.
    pub fn mul_generator(k: &Scalar) -> (r: Point)
        ensures
            r@ == k@,
    {
        proof {
            use_type_invariant(k);
        }
        Point::from_encoding(generator_times(k), Ghost(k@))
    }

    /// `self + other`.
    pub fn add(&self, other: &Point) -> (r: Point)
        ensures
            r@ == (self@ + other@) % group_order(),
    {
        Point::from_encoding(group_add(self, other), Ghost((self@ + other@) % group_order()))
    }

    /// `self - other`.
    pub fn sub(&self, other: &Point) -> (r: Point)
        ensures
            r@ == sub_mod(self@ as int, other@ as int, group_order()),
    {
        Point::from_encoding(
            group_sub(self, other),
            Ghost(sub_mod(self@ as int, other@ as int, group_order())),
        )
    }

    /// `k * self`.
    pub fn mul(&self, k: &Scalar) -> (r: Point)
        ensures
            r@ == (self@ * k@) % group_order(),
    {
        Point::from_encoding(group_mul(self, k), Ghost((self@ * k@) % group_order()))
    }

    /// Whether the two points are the same.
    pub fn equals(&self, other: &Point) -> (r: bool)
        ensures
            r == (self@ == other@),
    {
        proof {
            use_type_invariant(self);
            use_type_invariant(other);
        }
        crate::arith::bytes_equal(&self.bytes, &other.bytes)
    }
}

/// Calls `CanonicalDeserialize::deserialize_compressed` for `Affine`, which
/// checks that the point lies in the group, then serializes it again: a
/// canonical encoding comes back unchanged, and an input that is not 33
/// bytes long is refused. Which 33-byte strings are refused is not stated.
#[verifier::external_body]
fn decode_point(bytes: &[u8]) -> (r: Option<[u8; 33]>)
    ensures
        r matches Some(b) ==> exists|k: nat| encodes_multiple(b@, k),
        r is Some && r->0@ == bytes@ <== exists|k: nat| encodes_multiple(bytes@, k),
        r is None <== bytes@.len() != 33,
{
    let b: [u8; 33] = bytes.try_into().ok()?;
    let point = Affine::deserialize_compressed(&b[..]).ok()?;
    let mut out = [0u8; 33];
    point.serialize_compressed(&mut out[..]).unwrap();
    Some(out)
}

/// Calls `AffineRepr::generator` and `Mul` of `Affine`, compressing the
/// product `k * G`: the result is named `secp256k1_generator_multiple`, and
/// no other multiple below the order shares it, since `G` has prime order.
#[verifier::external_body]
fn generator_times(k: &Scalar) -> (r: [u8; 33])
    ensures
        r@ == secp256k1_generator_multiple(k@),
        encodes_multiple(r@, k@),
{
    let mut out = [0u8; 33];
    let p = Affine::generator() * Fr::from_le_bytes_mod_order(&k.bytes);
    p.into_affine().serialize_compressed(&mut out[..]).unwrap();
    out
}

/// Calls `Add` of `Affine`: `a * G + b * G` is `(a + b) * G`, the exponent
/// taken modulo the order.
#[verifier::external_body]
fn group_add(p: &Point, q: &Point) -> (r: [u8; 33])
    ensures
        encodes_multiple(r@, (p@ + q@) % group_order()),
{
    let mut out = [0u8; 33];
    let a = Affine::deserialize_compressed(&p.bytes[..]).unwrap();
    let b = Affine::deserialize_compressed(&q.bytes[..]).unwrap();
    (a + b).into_affine().serialize_compressed(&mut out[..]).unwrap();
    out
}

/// Calls `Sub` of the projective group: `a * G - b * G` is `(a - b) * G`,
/// the exponent taken modulo the order.
#[verifier::external_body]
fn group_sub(p: &Point, q: &Point) -> (r: [u8; 33])
    ensures
        encodes_multiple(r@, sub_mod(p@ as int, q@ as int, group_order())),
{
    let mut out = [0u8; 33];
    let a = Affine::deserialize_compressed(&p.bytes[..]).unwrap();
    let b = Affine::deserialize_compressed(&q.bytes[..]).unwrap();
    (a.into_group() - b.into_group()).into_affine().serialize_compressed(&mut out[..]).unwrap();
    out
}

/// Calls `Mul` of `Affine` by `Fr`: `k * (a * G)` is `(k * a) * G`, the
/// exponent taken modulo the order.
#[verifier::external_body]
fn group_mul(p: &Point, k: &Scalar) -> (r: [u8; 33])
    ensures
        encodes_multiple(r@, (p@ * k@) % group_order()),
{
    let mut out = [0u8; 33];
    let a = Affine::deserialize_compressed(&p.bytes[..]).unwrap();
    let prod = a * Fr::from_le_bytes_mod_order(&k.bytes);
    prod.into_affine().serialize_compressed(&mut out[..]).unwrap();
    out
}

} // verus!
