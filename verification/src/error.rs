//! The errors the library returns.  None are recovered internally; a failed
//! operation leaves the caller's state untouched so retry is possible.

use vstd::prelude::*;

verus! {

/// Why an operation was refused.
#[derive(Clone, Copy, Debug, PartialEq, Eq, Structural)]
pub enum Error {
    /// A wire-format point or scalar decode failed.
    InvalidByteSequence,
    /// Update parameters have fewer servers than the threshold, or a
    /// threshold of one or less.
    InvalidThreshold,
    /// A requested update spans more epochs than the server retains.
    InsufficientEpochs,
    /// The user has no witness yet, or lost it.
    NoWitness,
    /// Update reconstruction produced a zero chunk: the user's identifier
    /// was among some batch's deletions.
    Deleted,
    /// The Shamir validity check disagreed with the reconstruction.
    MaliciousServer,
    /// A pairing equation or challenge equality did not hold.
    VerificationFailed,
}

} // verus!
