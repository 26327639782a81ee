//! The random-number generator that key generation and signing draw from.

use ark_std::rand::rngs::StdRng;
use vstd::prelude::*;

verus! {

/// The seeded generator of `rand`, carried through opaquely.
#[verifier::external_type_specification]
#[verifier::external_body]
pub struct ExStdRng(StdRng);

} // verus!
