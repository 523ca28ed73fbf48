//! Configuration values for proofs of non-existence.

use vstd::prelude::*;

verus! {

/// The algorithm that hashes the names of an NSEC3 chain.
#[derive(Clone, Copy, Debug, PartialEq, Eq, Hash, Structural)]
pub enum Nsec3HashAlgorithm {
    Sha1,
}

impl Default for Nsec3HashAlgorithm {
    fn default() -> (algorithm: Nsec3HashAlgorithm)
        ensures
            algorithm == Nsec3HashAlgorithm::Sha1,
    {
        Nsec3HashAlgorithm::Sha1
    }
}

/// The kind of non-existence proof provided by the nameserver.
#[derive(Clone, Debug, PartialEq, Eq)]
pub enum NxProofKind {
    /// Use NSEC.
    Nsec,
    /// Use NSEC3.
    Nsec3 {
        /// The algorithm used to hash the names.
        algorithm: Nsec3HashAlgorithm,
        /// The salt used for hashing.
        salt: Vec<u8>,
        /// The number of hashing iterations.
        iterations: u16,
    },
}

} // verus!
