//! Accumulator engine tests: batch products, coefficient vectors, and the
//! single add/remove paths.

use allosaur::accumulator::{Accumulator, Element, MembershipWitness, PublicKey, SecretKey};
use blsful::inner_types::{G1Projective, Scalar};

fn to_scalar(e: &Element) -> Scalar {
    Scalar::from_be_bytes(&e.to_bytes()).unwrap()
}

#[test]
fn acc_new_accmulator_100() {
    let key = SecretKey::new(None);
    let elems = (0..100).map(|_| Element::random()).collect::<Vec<Element>>();
    let acc = Accumulator::with_elements(&key, elems.as_slice());
    assert_ne!(acc.to_bytes(), Accumulator::at_generator().to_bytes());
}

#[allow(non_snake_case)]
#[test]
fn new_accumulator_10K() {
    let key = SecretKey::new(None);
    let elems = (0..10_000).map(|_| Element::random()).collect::<Vec<Element>>();
    let acc = Accumulator::with_elements(&key, elems.as_slice());
    assert_ne!(acc.to_bytes(), Accumulator::at_generator().to_bytes());
}

#[test]
fn add_test() {
    let key = SecretKey::new(None);
    let mut acc = Accumulator::at_generator();
    acc.add_assign(&key, Element::hash(b"value1"));
    assert_ne!(acc.to_bytes(), Accumulator::at_generator().to_bytes());
}

#[test]
fn sub_test() {
    let key = SecretKey::new(None);
    let mut acc = Accumulator::at_generator();
    assert_eq!(acc.to_bytes(), Accumulator::at_generator().to_bytes());
    acc.add_assign(&key, Element::hash(b"value1"));
    assert_ne!(acc.to_bytes(), Accumulator::at_generator().to_bytes());
    assert!(acc.remove_assign(&key, Element::hash(b"value1")));
    assert_eq!(acc.to_bytes(), Accumulator::at_generator().to_bytes());
}

#[test]
fn acc_batch_test() {
    let key = SecretKey::new(None);
    let mut acc = Accumulator::at_generator();
    let values = &[Element::hash(b"value1"), Element::hash(b"value2")];
    acc.update_assign(&key, values, &[]).unwrap();
    assert_ne!(acc.to_bytes(), Accumulator::at_generator().to_bytes());
    acc.update_assign(&key, &[], values).unwrap();
    assert_eq!(acc.to_bytes(), Accumulator::at_generator().to_bytes());
}

#[test]
fn key_batch_test() {
    let key = SecretKey::new(None);
    let data = vec![Element::hash(b"value1"), Element::hash(b"value2")];
    let add = key.batch_additions(data.as_slice());
    let del = key.batch_deletions(data.as_slice()).unwrap();
    let res = to_scalar(&add) * to_scalar(&del);
    assert_eq!(res, Scalar::ONE);
    assert_eq!(G1Projective::GENERATOR * res, G1Projective::GENERATOR);
}

#[test]
fn coefficient_test() {
    let key = SecretKey::new(Some(b"1234567890"));
    let data = vec![
        Element::hash(b"1"),
        Element::hash(b"2"),
        Element::hash(b"3"),
        Element::hash(b"4"),
        Element::hash(b"5"),
    ];
    let coefficients = key.create_coefficients(&data[0..2], &data[2..5]).unwrap();
    assert_eq!(coefficients.len(), 3);
}

#[test]
fn generator_encoding_matches_curve() {
    // The accumulator's generator constant is the curve's fixed generator.
    assert_eq!(
        Accumulator::at_generator().to_bytes(),
        G1Projective::GENERATOR.to_compressed()
    );
}

#[test]
fn witness_follows_single_removal() {
    // A witness for y equals the accumulator with y removed.
    let key = SecretKey::new(None);
    let y = Element::random();
    let others = vec![Element::random(), Element::random(), y];
    let acc = Accumulator::with_elements(&key, &others);
    let wit = MembershipWitness::new(y, acc, &key).unwrap();
    let removed = acc.remove(&key, y).unwrap();
    assert_eq!(wit.to_bytes(), removed.to_bytes());
    let pk = PublicKey::from_secret_key(&key);
    assert!(wit.verify(y, pk, acc));
}

#[test]
fn hash_to_scalar_is_deterministic() {
    assert_eq!(Element::hash(b"abc").to_bytes(), Element::hash(b"abc").to_bytes());
    assert_ne!(Element::hash(b"abc").to_bytes(), Element::hash(b"abd").to_bytes());
}

#[test]
fn batch_deletions_refuses_negated_key() {
    // Deleting the negation of the secret key hits the zero product.
    let key = SecretKey::new(None);
    let alpha = Scalar::from_be_bytes(&key.to_bytes()).unwrap();
    let neg = Element::from_bytes(&(-alpha).to_be_bytes()).unwrap();
    assert!(key.batch_deletions(&[neg]).is_none());
}
