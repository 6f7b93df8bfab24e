//! Shamir reconstruction tests, the proof byte round trip, and checks that
//! the fixed parameters match the curve library's own derivations.

use allosaur::accumulator::Element;
use allosaur::shamir::{shamir_coefficients, shamir_rebuild_point, shamir_rebuild_scalar, shamir_share};
use allosaur::{MembershipProof, Server, User, UserID, Witness};
use blsful::inner_types::{ExpandMsgXmd, Field, G1Projective, G2Projective, Scalar};
use rand::RngCore;

fn to_scalar(e: &Element) -> Scalar {
    Scalar::from_be_bytes(&e.to_bytes()).unwrap()
}

fn to_element(s: Scalar) -> Element {
    Element::from_bytes(&s.to_be_bytes()).unwrap()
}

#[test]
fn test_shamir() {
    let threshold = 3;
    let num_shares = 5;
    let secret = Element::random();
    let shares = shamir_share(threshold, num_shares, secret);
    let coeffs = shamir_coefficients(threshold, &shares).unwrap();
    let rebuild = shamir_rebuild_scalar(&shares, &coeffs.0, &None);
    assert_eq!(secret, rebuild.unwrap());
}

#[test]
fn test_shamir_check() {
    let threshold = 3;
    let num_shares = 5;
    let secret = to_element(Scalar::random(rand::rngs::OsRng));
    let shares = shamir_share(threshold, num_shares, secret);
    let coeffs = shamir_coefficients(threshold, &shares).unwrap();
    let rebuild = shamir_rebuild_scalar(&shares, &coeffs.0, &coeffs.1);
    assert_eq!(secret, rebuild.unwrap());
}

#[test]
fn test_shamir_affine() {
    let threshold = 3;
    let num_shares = 5;
    let secret = Scalar::random(rand::rngs::OsRng);
    let a = Scalar::random(rand::rngs::OsRng);
    let b = Scalar::random(rand::rngs::OsRng);
    let mut shares = shamir_share(threshold, num_shares, to_element(secret));
    for share in shares.iter_mut() {
        share.1 = to_element(to_scalar(&share.1) * a + b);
    }
    let coeffs = shamir_coefficients(threshold, &shares).unwrap();
    let rebuild = shamir_rebuild_scalar(&shares, &coeffs.0, &coeffs.1);
    assert_eq!(to_element(a * secret + b), rebuild.unwrap());
}

#[test]
fn test_shamir_point() {
    let threshold = 3;
    let num_shares = 5;
    let secret_1 = Scalar::random(rand::rngs::OsRng);
    let secret_2 = Scalar::random(rand::rngs::OsRng);
    let a = G1Projective::GENERATOR;
    let b = G1Projective::GENERATOR * Scalar::random(rand::rngs::OsRng);
    let shares_1 = shamir_share(threshold, num_shares, to_element(secret_1));
    let shares_2 = shamir_share(threshold, num_shares, to_element(secret_2));
    let mut point_shares: Vec<(Element, [u8; 48])> = Vec::new();
    for i in 0..shares_1.len() {
        let p = a * to_scalar(&shares_1[i].1) + b * to_scalar(&shares_2[i].1);
        point_shares.push((shares_1[i].0, p.to_compressed()));
    }
    let coeffs = shamir_coefficients(threshold, &shares_1).unwrap();
    let rebuild = shamir_rebuild_point(&point_shares, &coeffs.0, &coeffs.1);
    assert_eq!((a * secret_1 + b * secret_2).to_compressed(), rebuild.unwrap());
}

#[test]
fn corrupted_share_fails_check() {
    // A corrupted share among the first three is caught by the check
    // coefficients derived from a fourth share.
    let threshold = 3;
    let num_shares = 5;
    let secret = Element::random();
    let mut shares = shamir_share(threshold, num_shares, secret);
    shares[1].1 = to_element(to_scalar(&shares[1].1) + Scalar::ONE);
    let coeffs = shamir_coefficients(threshold, &shares).unwrap();
    let rebuild = shamir_rebuild_scalar(&shares, &coeffs.0, &coeffs.1);
    assert!(rebuild.is_none());
}

#[test]
fn degenerate_share_points_are_refused() {
    let threshold = 2;
    let secret = Element::random();
    let mut shares = shamir_share(threshold, 3, secret);
    shares[1].0 = shares[0].0;
    assert!(shamir_coefficients(threshold, &shares).is_none());
}

#[test]
fn proof_bytes_round_trip() {
    let params = allosaur::AccParams::new();
    let mut server = Server::new(&params);
    let mut user = User::new(&server, UserID::random());
    server.add(user.get_id());
    user.create_witness(&params, &server);
    let mut ephemeral_challenge = [0u8; 32];
    rand::rngs::OsRng.fill_bytes(&mut ephemeral_challenge);
    let proof = user
        .make_membership_proof(&params, &server.get_public_keys(), &ephemeral_challenge)
        .unwrap();
    let bytes = proof.to_bytes();
    assert_eq!(bytes.len(), 432);
    let decoded = MembershipProof::from_bytes(&bytes).unwrap();
    assert_eq!(decoded, proof);
    assert!(Witness::check_membership_proof(
        &decoded,
        &params,
        &server.get_public_keys(),
        &server.get_accumulator(),
        &ephemeral_challenge
    ));
}

#[test]
fn proof_decode_rejects_bad_point() {
    let mut bytes = [0u8; 432];
    bytes[0] = 0x01;
    assert_eq!(
        MembershipProof::from_bytes(&bytes),
        Err(allosaur::Error::InvalidByteSequence)
    );
}

#[test]
fn params_match_curve_derivation() {
    // The fixed parameters are exactly the library's hash-to-curve images
    // of the stepped seeds.
    const DST_G1: &[u8] = b"BLS12381G1_XMD:SHA-256_SSWU_RO_";
    const DST_G2: &[u8] = b"BLS12381G2_XMD:SHA-256_SSWU_RO_";
    let params = allosaur::AccParams::new();
    let mut array = [0xFFu8; 32];
    let k0 = G1Projective::hash::<ExpandMsgXmd<sha2::Sha256>>(&array, DST_G1);
    assert_eq!(params.get_k0(), k0.to_compressed());
    array[0] = 0xFE;
    let k1 = G1Projective::hash::<ExpandMsgXmd<sha2::Sha256>>(&array, DST_G1);
    assert_eq!(params.get_k1(), k1.to_compressed());
    array[0] = 0xFD;
    let k2 = G2Projective::hash::<ExpandMsgXmd<sha2::Sha256>>(&array, DST_G2);
    assert_eq!(params.get_k2(), k2.to_compressed());
    assert_eq!(params.get_p1(), G1Projective::GENERATOR.to_compressed());
    assert_eq!(params.get_p2(), G2Projective::GENERATOR.to_compressed());
}

#[test]
fn scalar_decode_rejects_field_order() {
    // The canonical encoding of the field order itself must be refused.
    let q_bytes: [u8; 32] = [
        0x73, 0xed, 0xa7, 0x53, 0x29, 0x9d, 0x7d, 0x48, 0x33, 0x39, 0xd8, 0x08, 0x09, 0xa1,
        0xd8, 0x05, 0x53, 0xbd, 0xa4, 0x02, 0xff, 0xfe, 0x5b, 0xfe, 0xff, 0xff, 0xff, 0xff,
        0x00, 0x00, 0x00, 0x01,
    ];
    assert!(Element::from_bytes(&q_bytes).is_none());
    let mut below = q_bytes;
    below[31] = 0x00;
    assert!(Element::from_bytes(&below).is_some());
}

#[test]
fn fixed_generator_encodings() {
    // The compressed encodings of the fixed generators, as the curve
    // standard sets them.
    let g1: [u8; 48] = [
        0x97, 0xf1, 0xd3, 0xa7, 0x31, 0x97, 0xd7, 0x94, 0x26, 0x95, 0x63, 0x8c, 0x4f, 0xa9,
        0xac, 0x0f, 0xc3, 0x68, 0x8c, 0x4f, 0x97, 0x74, 0xb9, 0x05, 0xa1, 0x4e, 0x3a, 0x3f,
        0x17, 0x1b, 0xac, 0x58, 0x6c, 0x55, 0xe8, 0x3f, 0xf9, 0x7a, 0x1a, 0xef, 0xfb, 0x3a,
        0xf0, 0x0a, 0xdb, 0x22, 0xc6, 0xbb,
    ];
    assert_eq!(G1Projective::GENERATOR.to_compressed(), g1);
    assert_eq!(allosaur::AccParams::new().get_p1(), g1);
    let g2: [u8; 96] = [
        0x93, 0xe0, 0x2b, 0x60, 0x52, 0x71, 0x9f, 0x60, 0x7d, 0xac, 0xd3, 0xa0, 0x88, 0x27,
        0x4f, 0x65, 0x59, 0x6b, 0xd0, 0xd0, 0x99, 0x20, 0xb6, 0x1a, 0xb5, 0xda, 0x61, 0xbb,
        0xdc, 0x7f, 0x50, 0x49, 0x33, 0x4c, 0xf1, 0x12, 0x13, 0x94, 0x5d, 0x57, 0xe5, 0xac,
        0x7d, 0x05, 0x5d, 0x04, 0x2b, 0x7e, 0x02, 0x4a, 0xa2, 0xb2, 0xf0, 0x8f, 0x0a, 0x91,
        0x26, 0x08, 0x05, 0x27, 0x2d, 0xc5, 0x10, 0x51, 0xc6, 0xe4, 0x7a, 0xd4, 0xfa, 0x40,
        0x3b, 0x02, 0xb4, 0x51, 0x0b, 0x64, 0x7a, 0xe3, 0xd1, 0x77, 0x0b, 0xac, 0x03, 0x26,
        0xa8, 0x05, 0xbb, 0xef, 0xd4, 0x80, 0x56, 0xc8, 0xc1, 0x21, 0xbd, 0xb8,
    ];
    assert_eq!(G2Projective::GENERATOR.to_compressed(), g2);
    assert_eq!(allosaur::AccParams::new().get_p2(), g2);
    let mut id = [0u8; 48];
    id[0] = 0xc0;
    assert_eq!(G1Projective::IDENTITY.to_compressed(), id);
}
