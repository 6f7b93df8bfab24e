//! An implementation of ALLOSAUR: a dynamic, multi-server, revocable
//! cryptographic membership accumulator on the BLS12-381 pairing curve,
//! with verified accumulator algebra, threshold share handling, and a
//! non-interactive zero-knowledge membership proof.

pub mod accumulator;
pub mod error;
pub mod field;
pub mod group;
pub mod polynomial;
pub mod servers;
pub mod shamir;
pub mod transcript;
pub mod user;
pub mod utils;
pub mod witness;

pub use error::Error;
pub use field::Element;
pub use servers::Server;
pub use user::{User, UserUpdate};
pub use witness::{MembershipProof, Witness};
pub use utils::{AccParams, PublicKeys, UserID, SECURITY_BYTES};
