//! The accumulator engine: keys, the accumulator value itself, membership
//! witnesses, and the batch-update coefficient algebra.

pub mod acc;
pub mod key;
pub mod proof_message;
pub mod witness;

pub use acc::{Accumulator, Coefficient};
pub use key::{PublicKey, SecretKey};
pub use proof_message::ProofMessage;
pub use witness::MembershipWitness;

pub use crate::field::Element;
pub use crate::polynomial::Polynomial;
