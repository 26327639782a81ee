//! Adaptor signatures over secp256k1 (Schnorr variants) and BLS12-381 (BBS+),
//! with contracts stated over the discrete logarithms of the group elements.

pub mod arith;
pub mod error;
pub mod rng;
pub mod keccak;
pub mod secp256k1;
pub mod bls12_381;
pub mod scheme1;
pub mod scheme2;
pub mod scheme3;
pub mod scheme4;
pub mod scheme5;
