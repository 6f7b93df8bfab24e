//! A message carried into a proof: either hidden behind a fresh blinder or
//! sharing a caller-chosen blinder to link proofs via Schnorr.

use crate::field::Element;
use vstd::prelude::*;

verus! {

/// The type of proof message. Either hidden or shared blinding
/// Shared blinding is used to link to other proofs via Schnorr.
#[derive(Clone, Copy, Debug)]
pub enum ProofMessage {
    /// Hidden message
    Hidden {
        /// The message to hide
        message: Element,
    },
    /// Shared blinding message
    SharedBlinding {
        /// The message to hide
        message: Element,
        /// The blinding factor
        blinder: Element,
    },
}

impl ProofMessage {
    /// The message carried, whichever variant holds it.
    pub open spec fn spec_message(&self) -> Element {
        match self {
            ProofMessage::Hidden { message } => *message,
            ProofMessage::SharedBlinding { message, .. } => *message,
        }
    }

    /// Get the message
    pub fn get_message(&self) -> (r: Element)
        ensures
            r == self.spec_message(),
    {
        match self {
            ProofMessage::Hidden { message } => *message,
            ProofMessage::SharedBlinding { message, .. } => *message,
        }
    }

    /// Get the blinding: the shared blinder where one is carried, and a
    /// fresh random scalar otherwise.
    pub fn get_blinder(&self) -> (r: Element)
        requires
            self matches ProofMessage::SharedBlinding { blinder, .. } ==> blinder.wf(),
        ensures
            self matches ProofMessage::SharedBlinding { message, blinder } ==> r == blinder,
            r.wf(),
    {
        match self {
            ProofMessage::Hidden { .. } => Element::random(),
            ProofMessage::SharedBlinding { message: _, blinder } => *blinder,
        }
    }
}

} // verus!
