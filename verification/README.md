# asset

Adaptor signatures, verified with Verus.

Four Schnorr-style schemes over secp256k1 with Keccak-256 and one BBS+
scheme over BLS12-381:

- `scheme1`: the Schnorr adaptor signature (`R = rG + Y`, `s~ = r + cx`);
- `scheme2`: the same with the pre-signature response encrypted to the
  statement holder (DHIES-style mask);
- `scheme3`: ASSET, where pre-verification and adaptation need the witness;
- `scheme4`: the BBS+ adaptor signature (`r' = r + y`);
- `scheme5`: the Schnorr adaptor signature with a proof of knowledge of the
  nonce.

The curve arithmetic, hashing and randomness come from arkworks and `sha3`,
called through small trusted wrappers in `secp256k1.rs`, `bls12_381.rs`,
`keccak.rs` and `rng.rs`. Group elements are viewed as their discrete
logarithms, so every contract is an equation modulo the group order; the
completeness and extraction properties of each scheme are proved as lemmas in
its module.
