use ark_ec::pairing::Pairing;
use ark_ec::AffineRepr;
use ark_ff::PrimeField;
use ark_serialize::CanonicalSerialize;
use ark_std::rand::rngs::StdRng;
use ark_std::rand::SeedableRng;
use sha3::{Digest, Keccak256};

use asset::bls12_381;
use asset::secp256k1::{Point, Scalar};

/// The secp256k1 group order, little-endian.
const SECP_ORDER_LE: [u8; 32] = [
    0x41, 0x41, 0x36, 0xd0, 0x8c, 0x5e, 0xd2, 0xbf, 0x3b, 0xa0, 0x48, 0xaf, 0xe6, 0xdc, 0xae, 0xba,
    0xfe, 0xff, 0xff, 0xff, 0xff, 0xff, 0xff, 0xff, 0xff, 0xff, 0xff, 0xff, 0xff, 0xff, 0xff, 0xff,
];

fn secp_scalar(v: u64) -> Scalar {
    Scalar::from_be_bytes_mod_order(&v.to_be_bytes())
}

fn bls_scalar(v: u64) -> bls12_381::Scalar {
    bls12_381::Scalar::from_be_bytes_mod_order(&v.to_be_bytes())
}

fn le_u64(bytes: &[u8]) -> u64 {
    assert!(bytes[8..].iter().all(|b| *b == 0));
    u64::from_le_bytes(bytes[..8].try_into().unwrap())
}

fn primitives_rng() -> StdRng {
    StdRng::from_seed([7u8; 32])
}

// ------------------------------------------------------------
// secp256k1 scalars
// ------------------------------------------------------------

#[test]
fn secp_scalar_arithmetic_is_modular() {
    let two = secp_scalar(2);
    let three = secp_scalar(3);
    assert_eq!(le_u64(&two.add(&three).to_bytes()), 5);
    assert_eq!(le_u64(&two.mul(&three).to_bytes()), 6);
    assert_eq!(le_u64(&three.sub(&two).to_bytes()), 1);
    // 2 - 3 = q - 1.
    let mut q_minus_one = SECP_ORDER_LE;
    q_minus_one[0] -= 1;
    assert_eq!(two.sub(&three).to_bytes(), q_minus_one);
    // (q - 1) + 1 = 0.
    let minus_one = Scalar::from_bytes(&q_minus_one).unwrap();
    assert_eq!(minus_one.add(&secp_scalar(1)).to_bytes(), [0u8; 32]);
}

#[test]
fn secp_scalar_reads_big_endian_modulo_the_order() {
    let mut order_be = SECP_ORDER_LE;
    order_be.reverse();
    assert_eq!(Scalar::from_be_bytes_mod_order(&order_be).to_bytes(), [0u8; 32]);
    let mut order_plus_one_be = order_be;
    order_plus_one_be[31] += 1;
    assert_eq!(le_u64(&Scalar::from_be_bytes_mod_order(&order_plus_one_be).to_bytes()), 1);
    assert_eq!(le_u64(&Scalar::from_be_bytes_mod_order(&[0x01, 0x02]).to_bytes()), 258);
    assert_eq!(Scalar::from_be_bytes_mod_order(&[]).to_bytes(), [0u8; 32]);
}

#[test]
fn secp_scalar_decoding_refuses_non_canonical_input() {
    assert!(Scalar::from_bytes(&SECP_ORDER_LE).is_none());
    assert!(Scalar::from_bytes(&[1u8; 31]).is_none());
    assert!(Scalar::from_bytes(&[1u8; 33]).is_none());
    let bytes = secp_scalar(12345).to_bytes();
    assert_eq!(Scalar::from_bytes(&bytes).unwrap(), secp_scalar(12345));
}

// ------------------------------------------------------------
// secp256k1 points
// ------------------------------------------------------------

#[test]
fn secp_generator_multiple_matches_the_curve_library() {
    let mut expected = Vec::new();
    ark_secp256k1::Affine::generator().serialize_compressed(&mut expected).unwrap();
    assert_eq!(Point::mul_generator(&secp_scalar(1)).to_bytes().to_vec(), expected);
    let mut expected_seven = Vec::new();
    (ark_secp256k1::Affine::generator() * ark_secp256k1::Fr::from(7u64))
        .serialize_compressed(&mut expected_seven)
        .unwrap();
    // The projective form serializes through its affine form.
    assert_eq!(Point::mul_generator(&secp_scalar(7)).to_bytes().to_vec(), expected_seven);
}

#[test]
fn secp_group_operations_act_on_logarithms() {
    let g = |k: u64| Point::mul_generator(&secp_scalar(k));
    assert_eq!(g(2).add(&g(3)), g(5));
    assert_ne!(g(2).add(&g(3)), g(2));
    assert_eq!(g(5).sub(&g(2)), g(3));
    assert_ne!(g(5).sub(&g(2)), g(5));
    assert_eq!(g(4).mul(&secp_scalar(3)), g(12));
    assert_ne!(g(4).mul(&secp_scalar(3)), g(4));
    assert!(g(6).equals(&g(2).mul(&secp_scalar(3))));
    assert!(!g(6).equals(&g(7)));
}

#[test]
fn secp_point_decoding() {
    let p = Point::mul_generator(&secp_scalar(99));
    assert_eq!(Point::from_bytes(&p.to_bytes()).unwrap(), p);
    assert!(Point::from_bytes(&[0xffu8; 33]).is_none());
    assert!(Point::from_bytes(&p.to_bytes()[..32]).is_none());
}

#[test]
fn schnorr_challenge_hashes_the_transcript() {
    let r = Point::mul_generator(&secp_scalar(11));
    let x = Point::mul_generator(&secp_scalar(13));
    let message = b"transcript";
    let mut hasher = Keccak256::new();
    hasher.update(r.to_bytes());
    hasher.update(x.to_bytes());
    hasher.update(message);
    let digest = hasher.finalize();
    let expected = Scalar::from_be_bytes_mod_order(&digest);
    assert_eq!(asset::scheme1::hash_challenge(&r, &x, message), expected);
    let expected_field = ark_secp256k1::Fr::from_be_bytes_mod_order(&digest);
    let mut expected_bytes = Vec::new();
    expected_field.serialize_compressed(&mut expected_bytes).unwrap();
    assert_eq!(expected.to_bytes().to_vec(), expected_bytes);
}

// ------------------------------------------------------------
// BLS12-381
// ------------------------------------------------------------

#[test]
fn bls_scalar_arithmetic_is_modular() {
    let two = bls_scalar(2);
    let five = bls_scalar(5);
    assert_eq!(le_u64(&two.add(&five).to_bytes()), 7);
    assert_eq!(le_u64(&five.sub(&two).to_bytes()), 3);
    assert_eq!(le_u64(&bls12_381::Scalar::one().to_bytes()), 1);
    assert!(bls_scalar(0).is_zero());
    assert!(!bls_scalar(9).is_zero());
    let inv = two.inverse().unwrap();
    assert_ne!(inv, two);
    // 2 * inv(2) = 1, checked through the curve library.
    let prod = ark_bls12_381::Fr::from_le_bytes_mod_order(&inv.to_bytes())
        * ark_bls12_381::Fr::from(2u64);
    assert_eq!(prod, ark_bls12_381::Fr::from(1u64));
    assert!(bls_scalar(0).inverse().is_none());
}

#[test]
fn bls_generators_match_the_curve_library() {
    let mut g1 = Vec::new();
    ark_bls12_381::G1Affine::generator().serialize_compressed(&mut g1).unwrap();
    assert_eq!(bls12_381::G1Point::mul_generator(&bls_scalar(1)).to_bytes().to_vec(), g1);
    let mut g2 = Vec::new();
    ark_bls12_381::G2Affine::generator().serialize_compressed(&mut g2).unwrap();
    assert_eq!(bls12_381::G2Point::generator().to_bytes().to_vec(), g2);
}

#[test]
fn bls_group_operations_act_on_logarithms() {
    let g1 = |k: u64| bls12_381::G1Point::mul_generator(&bls_scalar(k));
    assert_eq!(g1(2).add(&g1(3)), g1(5));
    assert_eq!(g1(4).mul(&bls_scalar(3)), g1(12));
    assert_ne!(g1(4).mul(&bls_scalar(3)), g1(4));
    let h = bls12_381::G2Point::generator();
    assert_eq!(h.add(&h), h.mul(&bls_scalar(2)));
    assert_ne!(h.mul(&bls_scalar(2)), h);
}

#[test]
fn pairing_is_bilinear() {
    let p = bls12_381::G1Point::mul_generator(&bls_scalar(1));
    let q = bls12_381::G2Point::generator();
    let two = bls_scalar(2);
    let three = bls_scalar(3);
    let left = bls12_381::Gt::pairing(&p.mul(&two), &q.mul(&three));
    let right = bls12_381::Gt::pairing(&p.mul(&three), &q.mul(&two));
    assert!(left.equals(&right));
    let six = bls12_381::Gt::pairing(&p.mul(&bls_scalar(6)), &q);
    assert!(left.equals(&six));
    assert!(!left.equals(&bls12_381::Gt::pairing(&p, &q)));
    // The encoding is that of the curve library's pairing output.
    let mut expected = Vec::new();
    ark_bls12_381::Bls12_381::pairing(
        ark_bls12_381::G1Affine::generator(),
        ark_bls12_381::G2Affine::generator(),
    )
    .serialize_compressed(&mut expected)
    .unwrap();
    assert_eq!(expected.len(), 576);
}

#[test]
fn random_scalars_differ() {
    let rng = &mut primitives_rng();
    let a = Scalar::random(rng);
    let b = Scalar::random(rng);
    assert_ne!(a, b);
    let c = bls12_381::Scalar::random(rng);
    let d = bls12_381::Scalar::random(rng);
    assert_ne!(c, d);
}

#[test]
fn secp_scalar_inverse() {
    let seven = secp_scalar(7);
    let inv = seven.inverse().unwrap();
    assert_ne!(inv, seven);
    assert_eq!(le_u64(&inv.mul(&seven).to_bytes()), 1);
    assert!(secp_scalar(0).inverse().is_none());
}
