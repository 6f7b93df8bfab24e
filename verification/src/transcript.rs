//! Fiat-Shamir transcripts: a merlin STROBE state paired with a ghost log
//! of the labelled messages appended so far.  The challenge drawn at the
//! end is named as a function of the domain, the log, and the challenge
//! label, and of nothing else.

use crate::field::Element;
use vstd::prelude::*;

verus! {

#[verifier::external_type_specification]
#[verifier::external_body]
pub struct ExTranscript(merlin::Transcript);

/// Relies on merlin::Transcript::new; nothing is promised of the opaque
/// state.  The label is absorbed as a message, and merlin's length encoder
/// aborts on a message of 2^32 bytes or more, so such labels are excluded.
pub assume_specification [ merlin::Transcript::new ](label: &'static [u8]) -> merlin::Transcript
    requires
        label@.len() <= u32::MAX,
;

/// Relies on merlin::Transcript::append_message; nothing is promised of the
/// opaque state.  merlin's length encoder aborts on a message of 2^32 bytes
/// or more, so such messages are excluded.
pub assume_specification [ merlin::Transcript::append_message ](
    t: &mut merlin::Transcript,
    label: &'static [u8],
    message: &[u8],
)
    requires
        message@.len() <= u32::MAX,
;

/// The transcript label "challenge".
pub const L_CHALLENGE: [u8; 9] = [99u8, 104u8, 97u8, 108u8, 108u8, 101u8, 110u8, 103u8, 101u8];

/// The transcript label "user_signature_proof".
pub const L_USER_SIGNATURE_PROOF: [u8; 20] = [117u8, 115u8, 101u8, 114u8, 95u8, 115u8, 105u8, 103u8, 110u8, 97u8, 116u8, 117u8, 114u8, 101u8, 95u8, 112u8, 114u8, 111u8, 111u8, 102u8];

/// The transcript label "basic_membership_proof".
pub const L_BASIC_MEMBERSHIP_PROOF: [u8; 22] = [98u8, 97u8, 115u8, 105u8, 99u8, 95u8, 109u8, 101u8, 109u8, 98u8, 101u8, 114u8, 115u8, 104u8, 105u8, 112u8, 95u8, 112u8, 114u8, 111u8, 111u8, 102u8];

/// The transcript label "Proof Param K".
pub const L_PROOF_PARAM_K: [u8; 13] = [80u8, 114u8, 111u8, 111u8, 102u8, 32u8, 80u8, 97u8, 114u8, 97u8, 109u8, 32u8, 75u8];

/// The transcript label "Proof Param X".
pub const L_PROOF_PARAM_X: [u8; 13] = [80u8, 114u8, 111u8, 111u8, 102u8, 32u8, 80u8, 97u8, 114u8, 97u8, 109u8, 32u8, 88u8];

/// The transcript label "Proof Param Y".
pub const L_PROOF_PARAM_Y: [u8; 13] = [80u8, 114u8, 111u8, 111u8, 102u8, 32u8, 80u8, 97u8, 114u8, 97u8, 109u8, 32u8, 89u8];

/// The transcript label "Proof Param Z".
pub const L_PROOF_PARAM_Z: [u8; 13] = [80u8, 114u8, 111u8, 111u8, 102u8, 32u8, 80u8, 97u8, 114u8, 97u8, 109u8, 32u8, 90u8];

/// The transcript label "user_pub_key".
pub const L_USER_PUB_KEY: [u8; 12] = [117u8, 115u8, 101u8, 114u8, 95u8, 112u8, 117u8, 98u8, 95u8, 107u8, 101u8, 121u8];

/// The transcript label "commitment".
pub const L_COMMITMENT: [u8; 10] = [99u8, 111u8, 109u8, 109u8, 105u8, 116u8, 109u8, 101u8, 110u8, 116u8];

/// The transcript label "Signature Public Key".
pub const L_SIGNATURE_PUBLIC_KEY: [u8; 20] = [83u8, 105u8, 103u8, 110u8, 97u8, 116u8, 117u8, 114u8, 101u8, 32u8, 80u8, 117u8, 98u8, 108u8, 105u8, 99u8, 32u8, 75u8, 101u8, 121u8];

/// The transcript label "Witness Public Key".
pub const L_WITNESS_PUBLIC_KEY: [u8; 18] = [87u8, 105u8, 116u8, 110u8, 101u8, 115u8, 115u8, 32u8, 80u8, 117u8, 98u8, 108u8, 105u8, 99u8, 32u8, 75u8, 101u8, 121u8];

/// The transcript label "Accumulator".
pub const L_ACCUMULATOR: [u8; 11] = [65u8, 99u8, 99u8, 117u8, 109u8, 117u8, 108u8, 97u8, 116u8, 111u8, 114u8];

/// The transcript label "U_1".
pub const L_U_1: [u8; 3] = [85u8, 95u8, 49u8];

/// The transcript label "U_2".
pub const L_U_2: [u8; 3] = [85u8, 95u8, 50u8];

/// The transcript label "R".
pub const L_R_POINT: [u8; 1] = [82u8];

/// The transcript label "T_1".
pub const L_T_1: [u8; 3] = [84u8, 95u8, 49u8];

/// The transcript label "T_2".
pub const L_T_2: [u8; 3] = [84u8, 95u8, 50u8];

/// The transcript label "Pi_1".
pub const L_PI_1: [u8; 4] = [80u8, 105u8, 95u8, 49u8];

/// The transcript label "Pi_2".
pub const L_PI_2: [u8; 4] = [80u8, 105u8, 95u8, 50u8];

/// The transcript label "Ephemeral challenge".
pub const L_EPHEMERAL_CHALLENGE: [u8; 19] = [69u8, 112u8, 104u8, 101u8, 109u8, 101u8, 114u8, 97u8, 108u8, 32u8, 99u8, 104u8, 97u8, 108u8, 108u8, 101u8, 110u8, 103u8, 101u8];

/// What drawing a scalar challenge from a merlin transcript returns: a
/// function of the domain label, the appended labelled messages, and the
/// challenge label alone.
pub uninterp spec fn transcript_scalar_of(
    domain: Seq<u8>,
    log: Seq<(Seq<u8>, Seq<u8>)>,
    label: Seq<u8>,
) -> nat;

/// A transcript under construction.
pub struct FsTranscript {
    inner: merlin::Transcript,
    domain: Ghost<Seq<u8>>,
    log: Ghost<Seq<(Seq<u8>, Seq<u8>)>>,
}

impl FsTranscript {
    /// The domain label the transcript was created under.
    pub closed spec fn domain(&self) -> Seq<u8> {
        self.domain@
    }

    /// The labelled messages appended so far, oldest first.
    pub closed spec fn log(&self) -> Seq<(Seq<u8>, Seq<u8>)> {
        self.log@
    }
}

/// A fresh transcript under a domain label.
pub(crate) fn ts_new(domain: &'static [u8]) -> (t: FsTranscript)
    requires
        domain@.len() <= u32::MAX,
    ensures
        t.domain() == domain@,
        t.log() == Seq::<(Seq<u8>, Seq<u8>)>::empty(),
{
    FsTranscript {
        inner: merlin::Transcript::new(domain),
        domain: Ghost(domain@),
        log: Ghost(Seq::empty()),
    }
}

/// Absorb one labelled message.
pub(crate) fn ts_append(t: &mut FsTranscript, label: &'static [u8], msg: &[u8])
    requires
        msg@.len() <= u32::MAX,
    ensures
        final(t).domain() == old(t).domain(),
        final(t).log() == old(t).log().push((label@, msg@)),
{
    t.inner.append_message(label, msg);
    proof {
        t.log@ = t.log@.push((label@, msg@));
    }
}

/// Relies on merlin::Transcript::challenge_bytes and on the wide scalar
/// reduction: the canonical challenge scalar is a function of the domain,
/// the absorbed messages, and the challenge label.
#[verifier::external_body]
pub(crate) fn ts_challenge(t: &mut FsTranscript, label: &'static [u8]) -> (r: Element)
    ensures
        r@ == transcript_scalar_of(old(t).domain(), old(t).log(), label@),
        r.wf(),
{
    let mut okm = [0u8; 64];
    t.inner.challenge_bytes(label, &mut okm);
    let s = blsful::inner_types::Scalar::from_bytes_wide(&okm);
    let bytes = s.to_be_bytes();
    Element::from_bytes(&bytes).unwrap()
}

impl Element {
    /// Compute an element from a transcript challenge.
    pub fn from_transcript(label: &'static [u8], t: &mut FsTranscript) -> (r: Element)
        ensures
            r@ == transcript_scalar_of(old(t).domain(), old(t).log(), label@),
            r.wf(),
    {
        ts_challenge(t, label)
    }
}

} // verus!
