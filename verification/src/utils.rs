//! Shared parameters: the fixed group generators every party must agree
//! on, and the pair of public keys a server publishes.

use crate::accumulator::PublicKey;
use crate::field::Element;
use crate::group::{
    g1_gen, g1_valid_of, g2_gen, g2_valid_of, hash_to_g1_of, hash_to_g2_of,
};
use crate::transcript::FsTranscript;
use vstd::prelude::*;

verus! {

/// The security parameter for the system, in bytes.
pub const SECURITY_BYTES: usize = 16;

/// The UserID type
pub type UserID = Element;

/// ALLOSAUR public keys
#[derive(Copy, Clone, Debug, PartialEq, Eq)]
pub struct PublicKeys {
    /// The witness public key
    pub witness_key: PublicKey,
    /// The signature public key
    pub sign_key: PublicKey,
}

impl PublicKeys {
    /// Both keys hold valid G2 encodings.
    pub open spec fn wf(&self) -> bool {
        self.witness_key.wf() && self.sign_key.wf()
    }
}

/// The 32-byte seed whose first byte is `b0` and whose other bytes are 0xFF.
pub open spec fn param_seed(b0: u8) -> Seq<u8> {
    seq![b0].add(Seq::new(31, |i: int| 0xFFu8))
}

/// Group parameters: eight fixed generators deterministically derived from
/// tagged seeds, agreed on by every party.
#[derive(Copy, Clone, Debug, PartialEq, Eq)]
pub struct AccParams {
    p1: [u8; 48],
    p2: [u8; 96],
    k0: [u8; 48],
    k1: [u8; 48],
    k2: [u8; 96],
    x1: [u8; 48],
    y1: [u8; 48],
    z1: [u8; 48],
}

impl AccParams {
    /// The stored p1 point.
    pub closed spec fn s_p1(&self) -> Seq<u8> {
        self.p1@
    }

    /// The stored p2 point.
    pub closed spec fn s_p2(&self) -> Seq<u8> {
        self.p2@
    }

    /// The stored k0 point.
    pub closed spec fn s_k0(&self) -> Seq<u8> {
        self.k0@
    }

    /// The stored k1 point.
    pub closed spec fn s_k1(&self) -> Seq<u8> {
        self.k1@
    }

    /// The stored k2 point.
    pub closed spec fn s_k2(&self) -> Seq<u8> {
        self.k2@
    }

    /// The stored x1 point.
    pub closed spec fn s_x1(&self) -> Seq<u8> {
        self.x1@
    }

    /// The stored y1 point.
    pub closed spec fn s_y1(&self) -> Seq<u8> {
        self.y1@
    }

    /// The stored z1 point.
    pub closed spec fn s_z1(&self) -> Seq<u8> {
        self.z1@
    }

    /// Every stored point is a valid encoding of its group.
    pub open spec fn wf(&self) -> bool {
        &&& g1_valid_of(self.s_p1())
        &&& g2_valid_of(self.s_p2())
        &&& g1_valid_of(self.s_k0())
        &&& g1_valid_of(self.s_k1())
        &&& g2_valid_of(self.s_k2())
        &&& g1_valid_of(self.s_x1())
        &&& g1_valid_of(self.s_y1())
        &&& g1_valid_of(self.s_z1())
    }

    /// The parameters are the fixed ones every party derives: the two
    /// generators, and the six points hashed from the stepped seeds.
    pub open spec fn is_default(&self) -> bool {
        &&& self.s_p1() == g1_gen()
        &&& self.s_p2() == g2_gen()
        &&& self.s_k0() == hash_to_g1_of(param_seed(0xFF))
        &&& self.s_k1() == hash_to_g1_of(param_seed(0xFE))
        &&& self.s_k2() == hash_to_g2_of(param_seed(0xFD))
        &&& self.s_x1() == hash_to_g1_of(param_seed(0xFC))
        &&& self.s_y1() == hash_to_g1_of(param_seed(0xFB))
        &&& self.s_z1() == hash_to_g1_of(param_seed(0xFA))
    }

    /// Derive the fixed parameters from the tagged seeds.
    pub fn new() -> (r: AccParams)
        ensures
            r.wf(),
            r.is_default(),
    {
        let mut array = [0xFFu8; 32];
        proof {
            assert(array@ =~= param_seed(0xFF));
        }
        let k0 = crate::group::hash_to_g1(vstd::array::array_as_slice(&array));
        array[0] = 0xFE;
        proof {
            assert(array@ =~= param_seed(0xFE));
        }
        let k1 = crate::group::hash_to_g1(vstd::array::array_as_slice(&array));
        array[0] = 0xFD;
        proof {
            assert(array@ =~= param_seed(0xFD));
        }
        let k2 = crate::group::hash_to_g2(vstd::array::array_as_slice(&array));
        array[0] = 0xFC;
        proof {
            assert(array@ =~= param_seed(0xFC));
        }
        let x1 = crate::group::hash_to_g1(vstd::array::array_as_slice(&array));
        array[0] = 0xFB;
        proof {
            assert(array@ =~= param_seed(0xFB));
        }
        let y1 = crate::group::hash_to_g1(vstd::array::array_as_slice(&array));
        array[0] = 0xFA;
        proof {
            assert(array@ =~= param_seed(0xFA));
        }
        let z1 = crate::group::hash_to_g1(vstd::array::array_as_slice(&array));
        AccParams {
            p1: crate::group::g1_generator(),
            p2: crate::group::g2_generator(),
            k0,
            k1,
            k2,
            x1,
            y1,
            z1,
        }
    }

    /// Get the p1 Generator
    pub fn get_p1(&self) -> (r: [u8; 48])
        ensures
            r@ == self.s_p1(),
            self.wf() ==> g1_valid_of(r@),
            self.is_default() ==> r@ == g1_gen(),
    {
        self.p1
    }

    /// Get the p2 Generator
    pub fn get_p2(&self) -> (r: [u8; 96])
        ensures
            r@ == self.s_p2(),
            self.wf() ==> g2_valid_of(r@),
            self.is_default() ==> r@ == g2_gen(),
    {
        self.p2
    }

    /// Get the k0 Generator
    pub fn get_k0(&self) -> (r: [u8; 48])
        ensures
            r@ == self.s_k0(),
            self.wf() ==> g1_valid_of(r@),
            self.is_default() ==> r@ == hash_to_g1_of(param_seed(0xFF)),
    {
        self.k0
    }

    /// Get the k1 Generator
    pub fn get_k1(&self) -> (r: [u8; 48])
        ensures
            r@ == self.s_k1(),
            self.wf() ==> g1_valid_of(r@),
            self.is_default() ==> r@ == hash_to_g1_of(param_seed(0xFE)),
    {
        self.k1
    }

    /// Get the k2 Generator
    pub fn get_k2(&self) -> (r: [u8; 96])
        ensures
            r@ == self.s_k2(),
            self.wf() ==> g2_valid_of(r@),
            self.is_default() ==> r@ == hash_to_g2_of(param_seed(0xFD)),
    {
        self.k2
    }

    /// Get the x1 Generator
    pub fn get_x1(&self) -> (r: [u8; 48])
        ensures
            r@ == self.s_x1(),
            self.wf() ==> g1_valid_of(r@),
            self.is_default() ==> r@ == hash_to_g1_of(param_seed(0xFC)),
    {
        self.x1
    }

    /// Get the y1 Generator
    pub fn get_y1(&self) -> (r: [u8; 48])
        ensures
            r@ == self.s_y1(),
            self.wf() ==> g1_valid_of(r@),
            self.is_default() ==> r@ == hash_to_g1_of(param_seed(0xFB)),
    {
        self.y1
    }

    /// Get the z1 Generator
    pub fn get_z1(&self) -> (r: [u8; 48])
        ensures
            r@ == self.s_z1(),
            self.wf() ==> g1_valid_of(r@),
            self.is_default() ==> r@ == hash_to_g1_of(param_seed(0xFA)),
    {
        self.z1
    }

    /// Add these proof params to the transcript
    pub fn add_to_transcript(&self, transcript: &mut FsTranscript)
        ensures
            final(transcript).domain() == old(transcript).domain(),
            final(transcript).log() == old(transcript).log() + params_log(*self),
    {
        crate::transcript::ts_append(transcript, vstd::array::array_as_slice(&crate::transcript::L_PROOF_PARAM_K), vstd::array::array_as_slice(&self.k1));
        crate::transcript::ts_append(transcript, vstd::array::array_as_slice(&crate::transcript::L_PROOF_PARAM_X), vstd::array::array_as_slice(&self.x1));
        crate::transcript::ts_append(transcript, vstd::array::array_as_slice(&crate::transcript::L_PROOF_PARAM_Y), vstd::array::array_as_slice(&self.y1));
        crate::transcript::ts_append(transcript, vstd::array::array_as_slice(&crate::transcript::L_PROOF_PARAM_Z), vstd::array::array_as_slice(&self.z1));
        proof {
            assert(transcript.log() =~= old(transcript).log() + params_log(*self));
        }
    }
}

impl Default for AccParams {
    /// The fixed parameters every party derives.
    fn default() -> (r: AccParams)
        ensures
            r.wf(),
            r.is_default(),
    {
        AccParams::new()
    }
}

/// The four labelled parameter messages a proof transcript absorbs.
pub open spec fn params_log(p: AccParams) -> Seq<(Seq<u8>, Seq<u8>)> {
    seq![
        (crate::transcript::L_PROOF_PARAM_K@, p.s_k1()),
        (crate::transcript::L_PROOF_PARAM_X@, p.s_x1()),
        (crate::transcript::L_PROOF_PARAM_Y@, p.s_y1()),
        (crate::transcript::L_PROOF_PARAM_Z@, p.s_z1()),
    ]
}

} // verus!
