//! Points of the pairing groups G1, G2 and Gt, carried as compressed byte
//! encodings.  The group operations live in the pairing library; their
//! results are named by uninterpreted functions over the encodings, and
//! every wrapper promises that it returns the named value.

use blsful::inner_types::{
    ExpandMsgXmd, G1Affine, G1Projective, G2Affine, G2Projective, Group, GroupEncoding,
};
use vstd::prelude::*;

verus! {

/// Whether 48 bytes are a valid compressed G1 encoding.
pub uninterp spec fn g1_valid_of(b: Seq<u8>) -> bool;

/// The compressed sum of two G1 points.
pub uninterp spec fn g1_add_of(a: Seq<u8>, b: Seq<u8>) -> Seq<u8>;

/// The compressed difference of two G1 points.
pub uninterp spec fn g1_sub_of(a: Seq<u8>, b: Seq<u8>) -> Seq<u8>;

/// The compressed product of a G1 point by a canonical scalar.
pub uninterp spec fn g1_mul_of(p: Seq<u8>, k: nat) -> Seq<u8>;

/// The compressed image of hashing bytes onto G1 under the fixed
/// "BLS12381G1_XMD:SHA-256_SSWU_RO_" domain separator.
pub uninterp spec fn hash_to_g1_of(msg: Seq<u8>) -> Seq<u8>;

/// Whether 96 bytes are a valid compressed G2 encoding.
pub uninterp spec fn g2_valid_of(b: Seq<u8>) -> bool;

/// The compressed sum of two G2 points.
pub uninterp spec fn g2_add_of(a: Seq<u8>, b: Seq<u8>) -> Seq<u8>;

/// The compressed product of a G2 point by a canonical scalar.
pub uninterp spec fn g2_mul_of(p: Seq<u8>, k: nat) -> Seq<u8>;

/// The compressed image of hashing bytes onto G2 under the fixed
/// "BLS12381G2_XMD:SHA-256_SSWU_RO_" domain separator.
pub uninterp spec fn hash_to_g2_of(msg: Seq<u8>) -> Seq<u8>;

/// The serialized pairing of a G1 point with a G2 point.
pub uninterp spec fn pairing_of(a: Seq<u8>, b: Seq<u8>) -> Seq<u8>;

/// The serialized group operation of Gt on serialized elements.
pub uninterp spec fn gt_add_of(a: Seq<u8>, b: Seq<u8>) -> Seq<u8>;

/// The compressed fixed generator of G1.
pub open spec fn g1_gen() -> Seq<u8> {
    seq![
        0x97u8, 0xf1u8, 0xd3u8, 0xa7u8, 0x31u8, 0x97u8, 0xd7u8, 0x94u8, 0x26u8, 0x95u8, 0x63u8,
        0x8cu8, 0x4fu8, 0xa9u8, 0xacu8, 0x0fu8, 0xc3u8, 0x68u8, 0x8cu8, 0x4fu8, 0x97u8, 0x74u8,
        0xb9u8, 0x05u8, 0xa1u8, 0x4eu8, 0x3au8, 0x3fu8, 0x17u8, 0x1bu8, 0xacu8, 0x58u8, 0x6cu8,
        0x55u8, 0xe8u8, 0x3fu8, 0xf9u8, 0x7au8, 0x1au8, 0xefu8, 0xfbu8, 0x3au8, 0xf0u8, 0x0au8,
        0xdbu8, 0x22u8, 0xc6u8, 0xbbu8,
    ]
}

/// The compressed identity of G1: the infinity flag followed by zeros.
pub open spec fn g1_id() -> Seq<u8> {
    seq![0xc0u8].add(Seq::new(47, |i: int| 0u8))
}

/// Relies on G1Projective::GENERATOR, whose compressed form is the fixed
/// 48-byte generator encoding of BLS12-381.
#[verifier::external_body]
pub(crate) fn g1_generator() -> (r: [u8; 48])
    ensures
        r@ == g1_gen(),
        g1_valid_of(r@),
{
    G1Projective::GENERATOR.to_compressed()
}

/// Relies on G1Projective::IDENTITY, whose compressed form sets only the
/// infinity and compression flags.
#[verifier::external_body]
pub(crate) fn g1_identity() -> (r: [u8; 48])
    ensures
        r@ == g1_id(),
        g1_valid_of(r@),
{
    G1Projective::IDENTITY.to_compressed()
}

/// Relies on G1 addition and the compressed encoding round trip.
#[verifier::external_body]
pub(crate) fn g1_add(a: &[u8; 48], b: &[u8; 48]) -> (r: [u8; 48])
    requires
        g1_valid_of(a@),
        g1_valid_of(b@),
    ensures
        r@ == g1_add_of(a@, b@),
        g1_valid_of(r@),
{
    let pa = G1Projective::from_compressed(a).unwrap();
    let pb = G1Projective::from_compressed(b).unwrap();
    (pa + pb).to_compressed()
}

/// Relies on G1 subtraction and the compressed encoding round trip.
#[verifier::external_body]
pub(crate) fn g1_sub(a: &[u8; 48], b: &[u8; 48]) -> (r: [u8; 48])
    requires
        g1_valid_of(a@),
        g1_valid_of(b@),
    ensures
        r@ == g1_sub_of(a@, b@),
        g1_valid_of(r@),
{
    let pa = G1Projective::from_compressed(a).unwrap();
    let pb = G1Projective::from_compressed(b).unwrap();
    (pa - pb).to_compressed()
}

/// Relies on G1 scalar multiplication and the compressed encoding round trip.
#[verifier::external_body]
pub(crate) fn g1_mul(p: &[u8; 48], k: &crate::field::Element) -> (r: [u8; 48])
    requires
        g1_valid_of(p@),
        k.wf(),
    ensures
        r@ == g1_mul_of(p@, k@),
        g1_valid_of(r@),
{
    let pp = G1Projective::from_compressed(p).unwrap();
    let s = blsful::inner_types::Scalar::from_be_bytes(&k.to_bytes()).unwrap();
    (pp * s).to_compressed()
}

/// Relies on G1Projective::from_compressed accepting exactly the valid
/// compressed encodings.
#[verifier::external_body]
pub(crate) fn g1_is_valid(b: &[u8; 48]) -> (r: bool)
    ensures
        r == g1_valid_of(b@),
{
    bool::from(G1Projective::from_compressed(b).is_some())
}

/// Relies on G1Projective::hash with the fixed SSWU domain separator: the
/// result is a valid point that depends on the message alone.
#[verifier::external_body]
pub(crate) fn hash_to_g1(msg: &[u8]) -> (r: [u8; 48])
    ensures
        r@ == hash_to_g1_of(msg@),
        g1_valid_of(r@),
{
    G1Projective::hash::<ExpandMsgXmd<sha2::Sha256>>(msg, b"BLS12381G1_XMD:SHA-256_SSWU_RO_")
        .to_compressed()
}

/// The compressed fixed generator of G2.
pub open spec fn g2_gen() -> Seq<u8> {
    seq![
        0x93u8, 0xe0u8, 0x2bu8, 0x60u8, 0x52u8, 0x71u8, 0x9fu8, 0x60u8, 0x7du8, 0xacu8, 0xd3u8,
        0xa0u8, 0x88u8, 0x27u8, 0x4fu8, 0x65u8, 0x59u8, 0x6bu8, 0xd0u8, 0xd0u8, 0x99u8, 0x20u8,
        0xb6u8, 0x1au8, 0xb5u8, 0xdau8, 0x61u8, 0xbbu8, 0xdcu8, 0x7fu8, 0x50u8, 0x49u8, 0x33u8,
        0x4cu8, 0xf1u8, 0x12u8, 0x13u8, 0x94u8, 0x5du8, 0x57u8, 0xe5u8, 0xacu8, 0x7du8, 0x05u8,
        0x5du8, 0x04u8, 0x2bu8, 0x7eu8, 0x02u8, 0x4au8, 0xa2u8, 0xb2u8, 0xf0u8, 0x8fu8, 0x0au8,
        0x91u8, 0x26u8, 0x08u8, 0x05u8, 0x27u8, 0x2du8, 0xc5u8, 0x10u8, 0x51u8, 0xc6u8, 0xe4u8,
        0x7au8, 0xd4u8, 0xfau8, 0x40u8, 0x3bu8, 0x02u8, 0xb4u8, 0x51u8, 0x0bu8, 0x64u8, 0x7au8,
        0xe3u8, 0xd1u8, 0x77u8, 0x0bu8, 0xacu8, 0x03u8, 0x26u8, 0xa8u8, 0x05u8, 0xbbu8, 0xefu8,
        0xd4u8, 0x80u8, 0x56u8, 0xc8u8, 0xc1u8, 0x21u8, 0xbdu8, 0xb8u8,
    ]
}

/// Relies on G2Projective::GENERATOR, whose compressed form is the fixed
/// 96-byte generator encoding of BLS12-381.
#[verifier::external_body]
pub(crate) fn g2_generator() -> (r: [u8; 96])
    ensures
        r@ == g2_gen(),
        g2_valid_of(r@),
{
    G2Projective::GENERATOR.to_compressed()
}

/// Relies on G2 addition and the compressed encoding round trip.
#[verifier::external_body]
pub(crate) fn g2_add(a: &[u8; 96], b: &[u8; 96]) -> (r: [u8; 96])
    requires
        g2_valid_of(a@),
        g2_valid_of(b@),
    ensures
        r@ == g2_add_of(a@, b@),
        g2_valid_of(r@),
{
    let pa = G2Projective::from_compressed(a).unwrap();
    let pb = G2Projective::from_compressed(b).unwrap();
    (pa + pb).to_compressed()
}

/// Relies on G2 scalar multiplication and the compressed encoding round trip.
#[verifier::external_body]
pub(crate) fn g2_mul(p: &[u8; 96], k: &crate::field::Element) -> (r: [u8; 96])
    requires
        g2_valid_of(p@),
        k.wf(),
    ensures
        r@ == g2_mul_of(p@, k@),
        g2_valid_of(r@),
{
    let pp = G2Projective::from_compressed(p).unwrap();
    let s = blsful::inner_types::Scalar::from_be_bytes(&k.to_bytes()).unwrap();
    (pp * s).to_compressed()
}

/// Relies on G2Projective::from_compressed accepting exactly the valid
/// compressed encodings.
#[verifier::external_body]
pub(crate) fn g2_is_valid(b: &[u8; 96]) -> (r: bool)
    ensures
        r == g2_valid_of(b@),
{
    bool::from(G2Projective::from_compressed(b).is_some())
}

/// Relies on G2Projective::hash with the fixed SSWU domain separator: the
/// result is a valid point that depends on the message alone.
#[verifier::external_body]
pub(crate) fn hash_to_g2(msg: &[u8]) -> (r: [u8; 96])
    ensures
        r@ == hash_to_g2_of(msg@),
        g2_valid_of(r@),
{
    G2Projective::hash::<ExpandMsgXmd<sha2::Sha256>>(msg, b"BLS12381G2_XMD:SHA-256_SSWU_RO_")
        .to_compressed()
}

/// Relies on the optimal Ate pairing of BLS12-381 and Gt serialization:
/// the serialized pairing value depends on the two points alone.
#[verifier::external_body]
pub(crate) fn pair(a: &[u8; 48], b: &[u8; 96]) -> (r: [u8; 576])
    requires
        g1_valid_of(a@),
        g2_valid_of(b@),
    ensures
        r@ == pairing_of(a@, b@),
{
    let pa = G1Affine::from_compressed(a).unwrap();
    let pb = G2Affine::from_compressed(b).unwrap();
    let gt = blsful::inner_types::pairing(&pa, &pb);
    let mut out = [0u8; 576];
    out.copy_from_slice(gt.to_bytes().as_ref());
    out
}

/// Relies on the pairing and on the Gt group operation (written additively
/// by this pairing library): the result serializes the combination of the
/// two pairing values.
#[verifier::external_body]
pub(crate) fn pair_add(a1: &[u8; 48], b1: &[u8; 96], a2: &[u8; 48], b2: &[u8; 96]) -> (r: [u8; 576])
    requires
        g1_valid_of(a1@),
        g2_valid_of(b1@),
        g1_valid_of(a2@),
        g2_valid_of(b2@),
    ensures
        r@ == gt_add_of(pairing_of(a1@, b1@), pairing_of(a2@, b2@)),
{
    let x1 = G1Affine::from_compressed(a1).unwrap();
    let y1 = G2Affine::from_compressed(b1).unwrap();
    let x2 = G1Affine::from_compressed(a2).unwrap();
    let y2 = G2Affine::from_compressed(b2).unwrap();
    let gt = blsful::inner_types::pairing(&x1, &y1) + blsful::inner_types::pairing(&x2, &y2);
    let mut out = [0u8; 576];
    out.copy_from_slice(gt.to_bytes().as_ref());
    out
}

/// Byte equality of slices.
pub(crate) fn bytes_eq(a: &[u8], b: &[u8]) -> (r: bool)
    ensures
        r == (a@ == b@),
{
    if a.len() != b.len() {
        return false;
    }
    let mut i: usize = 0;
    while i < a.len()
        invariant
            0 <= i <= a@.len(),
            a@.len() == b@.len(),
            forall|j: int| 0 <= j < i ==> a@[j] == b@[j],
        decreases a@.len() - i,
    {
        if a[i] != b[i] {
            return false;
        }
        i += 1;
    }
    proof {
        assert(a@ =~= b@);
    }
    true
}

} // verus!
