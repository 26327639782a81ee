//! Why an adaptor-signature operation refused its input.

use vstd::prelude::*;

verus! {

/// The reason an operation failed.
#[derive(Clone, Copy, Debug, PartialEq, Eq)]
pub enum AdaptorError {
    /// The pre-signature does not satisfy the pre-verification equation.
    PreSignatureVerification,
    /// The (adapted) full signature does not satisfy the verification equation.
    SignatureVerification,
    /// The proof of knowledge attached to a pre-signature does not verify.
    ProofVerification,
    /// Every sample drawn from the random-number generator was unusable.
    SamplingExhausted,
}

} // verus!
