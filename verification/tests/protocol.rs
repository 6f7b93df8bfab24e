//! End-to-end protocol tests: witness issuance, threshold updates across
//! server replicas, membership proofs, and the single-server batch update.

use allosaur::accumulator::{Accumulator, Element, MembershipWitness, ProofMessage, PublicKey, SecretKey};
use allosaur::{Server, User, UserID, UserUpdate, Witness};
use blsful::inner_types::Scalar;
use rand::RngCore;

#[test]
fn tests_new_accmulator_100() {
    let params = allosaur::AccParams::new();
    let mut server = Server::new(&params);
    for _ in 0..100 {
        server.add(UserID::random());
    }
}

#[test]
fn test_witness_issue() {
    let params = allosaur::AccParams::new();
    let mut server = Server::new(&params);
    let mut users = Vec::new();
    for _ in 0..10 {
        users.push(User::new(&server, UserID::random()));
        server.add(users.last().unwrap().get_id());
        users.last_mut().unwrap().create_witness(&params, &server);
        assert!(users
            .last()
            .unwrap()
            .check_witness(&params, &server.get_accumulator())
            .is_ok());
    }
}

#[test]
fn test_witness_update() {
    const SERVERS: usize = 5;
    const SERVER_THRESHOLD: usize = 3;
    const USERS: usize = 10;
    let params = allosaur::AccParams::new();
    let mut server = Server::new(&params);
    let mut users = Vec::new();
    for _ in 0..USERS {
        users.push(User::new(&server, UserID::random()));
        server.add(users.last().unwrap().get_id());
        users.last_mut().unwrap().create_witness(&params, &server);
        assert!(users
            .last()
            .unwrap()
            .check_witness(&params, &server.get_accumulator())
            .is_ok());
    }
    for i in 1..USERS {
        server.delete(users[i].get_id());
        assert!(!users[i]
            .check_witness(&params, &server.get_accumulator())
            .is_ok());
    }
    let servers: Vec<Server> = (0..SERVERS).map(|_| server.clone()).collect();
    let res = users[0].update(&servers, SERVER_THRESHOLD);
    assert!(res.is_ok());
    assert!(users[0]
        .check_witness(&params, &server.get_accumulator())
        .is_ok());
}

#[test]
fn test_witness_update_add() {
    const SERVERS: usize = 5;
    const SERVER_THRESHOLD: usize = 3;
    const USERS: usize = 10;
    let params = allosaur::AccParams::new();
    let mut server = Server::new(&params);
    let mut users = Vec::new();
    for _ in 0..USERS {
        users.push(User::new(&server, UserID::random()));
        server.add(users.last().unwrap().get_id());
        users.last_mut().unwrap().create_witness(&params, &server);
        assert!(users
            .last()
            .unwrap()
            .check_witness(&params, &server.get_accumulator())
            .is_ok());
    }
    for i in 1..USERS {
        server.delete(users[i].get_id());
        assert!(!users[i]
            .check_witness(&params, &server.get_accumulator())
            .is_ok());
    }
    for i in 1..USERS {
        server.delete(users[i].get_id());
        users.push(User::new(&server, UserID::random()));
        server.add(users.last().unwrap().get_id());
    }
    let servers: Vec<Server> = (0..SERVERS).map(|_| server.clone()).collect();
    let res = users[0].update(&servers, SERVER_THRESHOLD);
    assert!(res.is_ok());
    assert!(users[0]
        .check_witness(&params, &server.get_accumulator())
        .is_ok());
}

#[test]
fn basic_membership_proof() {
    let params = allosaur::AccParams::new();
    let mut server = Server::new(&params);
    let mut users = Vec::new();
    for _ in 0..10 {
        users.push(User::new(&server, UserID::random()));
        server.add(users.last().unwrap().get_id());
        users.last_mut().unwrap().create_witness(&params, &server);
    }
    for i in 0..10 {
        let mut ephemeral_challenge = [0u8; 32];
        rand::rngs::OsRng.fill_bytes(&mut ephemeral_challenge);
        let proof = users[i]
            .make_membership_proof(&params, &server.get_public_keys(), &ephemeral_challenge)
            .unwrap();

        assert!(Witness::check_membership_proof(
            &proof,
            &params,
            &server.get_public_keys(),
            &server.get_accumulator(),
            &ephemeral_challenge
        ));
    }
}

#[test]
fn basic_membership_proof_failure() {
    const SERVERS: usize = 10;

    let params = allosaur::AccParams::new();
    let mut server = Server::new(&params);
    let mut users = Vec::new();
    for _ in 0..SERVERS {
        users.push(User::new(&server, UserID::random()));
        server.add(users.last().unwrap().get_id());
        users.last_mut().unwrap().create_witness(&params, &server);
    }
    for i in 1..SERVERS {
        server.delete(users[i].get_id());
    }
    for i in 0..SERVERS {
        let mut ephemeral_challenge = [0u8; 32];
        rand::rngs::OsRng.fill_bytes(&mut ephemeral_challenge);
        let proof = users[i]
            .make_membership_proof(&params, &server.get_public_keys(), &ephemeral_challenge)
            .unwrap();

        assert!(!Witness::check_membership_proof(
            &proof,
            &params,
            &server.get_public_keys(),
            &server.get_accumulator(),
            &ephemeral_challenge
        ));
    }
}

#[test]
fn test_split_witness_update() {
    const SERVERS: usize = 5;
    const SERVER_THRESHOLD: usize = 3;
    const USERS: usize = 10;
    let params = allosaur::AccParams::new();
    let mut server = Server::new(&params);
    let mut users = Vec::new();
    for _ in 0..USERS {
        users.push(User::new(&server, UserID::random()));
        server.add(users.last().unwrap().get_id());
        users.last_mut().unwrap().create_witness(&params, &server);
        assert!(users
            .last()
            .unwrap()
            .check_witness(&params, &server.get_accumulator())
            .is_ok());
    }
    for i in 1..USERS {
        server.delete(users[i].get_id());
        assert!(!users[i]
            .check_witness(&params, &server.get_accumulator())
            .is_ok());
    }
    let servers: Vec<Server> = (0..SERVERS).map(|_| server.clone()).collect();
    let res = users[0].prepare_for_update(servers[0].get_epoch(), SERVERS, SERVER_THRESHOLD);
    assert!(res.is_ok());
    let UserUpdate { epoch_diff: d, y_shares, y_values } = res.unwrap();
    let dvs: Vec<(Vec<Element>, Vec<[u8; 48]>)> =
        (0..SERVERS).map(|i| servers[i].update(d, &y_shares[i])).collect();
    let res = users[0].post_update(
        users[0].witness.as_ref().unwrap().witness,
        SERVER_THRESHOLD,
        &y_shares,
        &y_values,
        &dvs,
    );
    assert!(res.is_ok());
    let new_wit = res.unwrap();
    users[0].witness.as_mut().map(|w| w.witness = new_wit);
    assert!(users[0]
        .check_witness(&params, &server.get_accumulator())
        .is_ok());
}

#[test]
fn test_witness_split_update_add() {
    const SERVERS: usize = 5;
    const SERVER_THRESHOLD: usize = 3;
    const USERS: usize = 10;
    let params = allosaur::AccParams::new();
    let mut server = Server::new(&params);
    let mut users = Vec::new();
    for _ in 0..USERS {
        users.push(User::new(&server, UserID::random()));
        server.add(users.last().unwrap().get_id());
        users.last_mut().unwrap().create_witness(&params, &server);
        assert!(users
            .last()
            .unwrap()
            .check_witness(&params, &server.get_accumulator())
            .is_ok());
    }
    for i in 1..USERS {
        server.delete(users[i].get_id());
        assert!(!users[i]
            .check_witness(&params, &server.get_accumulator())
            .is_ok());
    }
    for i in 1..USERS {
        server.delete(users[i].get_id());
        users.push(User::new(&server, UserID::random()));
        server.add(users.last().unwrap().get_id());
    }
    let servers: Vec<Server> = (0..SERVERS).map(|_| server.clone()).collect();
    let res = users[0].prepare_for_update(servers[0].get_epoch(), SERVERS, SERVER_THRESHOLD);
    assert!(res.is_ok());
    let UserUpdate { epoch_diff: d, y_shares, y_values } = res.unwrap();
    let dvs: Vec<(Vec<Element>, Vec<[u8; 48]>)> =
        (0..SERVERS).map(|i| servers[i].update(d, &y_shares[i])).collect();

    let res = users[0].post_update(
        users[0].witness.as_ref().unwrap().witness,
        SERVER_THRESHOLD,
        &y_shares,
        &y_values,
        &dvs,
    );
    assert!(res.is_ok());
    let new_wit = res.unwrap();
    users[0].witness.as_mut().map(|w| w.witness = new_wit);
    assert!(users[0]
        .check_witness(&params, &server.get_accumulator())
        .is_ok());
}

#[test]
fn single_server_split_batch_update() {
    const USERS: usize = 1500;
    const ADDITIONS: usize = 200;
    const DELETIONS: usize = 200;
    const SLICES: usize = 50;
    let key = SecretKey::new(None);
    let pk = PublicKey::from_secret_key(&key);
    let items: Vec<Element> = (0..USERS).map(|_| Element::random()).collect();
    let mut acc = Accumulator::with_elements(&key, items.as_slice());

    let y = items.last().unwrap().clone();
    let mut witness = MembershipWitness::new(y, acc, &key).unwrap();

    let additions: Vec<Element> = (0..ADDITIONS).map(|_| Element::random()).collect();
    let (deletions, _) = items.split_at(DELETIONS);
    let mut split_additions: Vec<&[Element]> = additions.chunks(SLICES).collect();

    let deletions = deletions.to_vec();
    let mut split_deletions: Vec<&[Element]> = deletions.chunks(SLICES).collect();
    if split_deletions.len() < split_additions.len() {
        split_deletions.resize(split_additions.len(), &[]);
    }
    if split_additions.len() < split_deletions.len() {
        split_additions.resize(split_deletions.len(), &[]);
    }

    let mut deltas = vec![Vec::new(); split_additions.len() + split_deletions.len()];
    for (i, addition) in split_additions.iter().enumerate() {
        deltas[i] = acc.update_assign(&key, addition, split_deletions[i]).unwrap();
    }
    for (i, addition) in split_additions.iter().enumerate() {
        witness
            .batch_update_assign(y, &addition, &split_deletions[i], &deltas[i])
            .unwrap();
    }
    assert!(witness.verify(y, pk, acc));
}

#[test]
fn deleted_user_update_reports_deletion() {
    const SERVERS: usize = 5;
    const SERVER_THRESHOLD: usize = 3;
    let params = allosaur::AccParams::new();
    let mut server = Server::new(&params);
    let mut users = Vec::new();
    for _ in 0..4 {
        users.push(User::new(&server, UserID::random()));
        server.add(users.last().unwrap().get_id());
        users.last_mut().unwrap().create_witness(&params, &server);
    }
    server.delete(users[1].get_id());
    let servers: Vec<Server> = (0..SERVERS).map(|_| server.clone()).collect();
    let res = users[1].update(&servers, SERVER_THRESHOLD);
    assert_eq!(res, Err(allosaur::Error::Deleted));
}

#[test]
fn update_without_witness_is_refused() {
    let params = allosaur::AccParams::new();
    let server = Server::new(&params);
    let mut user = User::new(&server, UserID::random());
    let servers: Vec<Server> = vec![server];
    assert_eq!(user.update(&servers, 2), Err(allosaur::Error::NoWitness));
}

#[test]
fn bad_threshold_is_refused() {
    let params = allosaur::AccParams::new();
    let server = Server::new(&params);
    let user = User::new(&server, UserID::random());
    assert_eq!(
        user.prepare_for_update(server.get_epoch(), 5, 1).unwrap_err(),
        allosaur::Error::InvalidThreshold
    );
    assert_eq!(
        user.prepare_for_update(server.get_epoch(), 2, 3).unwrap_err(),
        allosaur::Error::InvalidThreshold
    );
}

#[test]
fn quick_delete_advances_without_rewrites() {
    const SERVERS: usize = 5;
    const SERVER_THRESHOLD: usize = 3;
    let params = allosaur::AccParams::new();
    let mut server = Server::new(&params);
    let mut users = Vec::new();
    for _ in 0..6 {
        users.push(User::new(&server, UserID::random()));
        server.add(users.last().unwrap().get_id());
        users.last_mut().unwrap().create_witness(&params, &server);
    }
    // A quick deletion advances the accumulator but repairs no witnesses.
    let epoch_before = server.get_epoch();
    assert!(server.quick_delete(users[5].get_id()).is_some());
    assert_eq!(server.get_epoch(), epoch_before + 1);
    assert!(!users[0]
        .check_witness(&params, &server.get_accumulator())
        .is_ok());
    // The survivor recovers through the update protocol.
    let servers: Vec<Server> = (0..SERVERS).map(|_| server.clone()).collect();
    assert!(users[0].update(&servers, SERVER_THRESHOLD).is_ok());
    assert!(users[0]
        .check_witness(&params, &server.get_accumulator())
        .is_ok());
}

#[test]
fn duplicate_add_is_refused() {
    let params = allosaur::AccParams::new();
    let mut server = Server::new(&params);
    let y = UserID::random();
    assert!(server.add(y).is_some());
    assert!(server.add(y).is_none());
    assert!(server.delete(y).is_some());
    assert!(server.delete(y).is_none());
}

#[test]
fn proof_message_carries_its_parts() {
    let m = Element::random();
    let b = Element::random();
    let hidden = ProofMessage::Hidden { message: m };
    assert_eq!(hidden.get_message(), m);
    let shared = ProofMessage::SharedBlinding { message: m, blinder: b };
    assert_eq!(shared.get_message(), m);
    assert_eq!(shared.get_blinder(), b);
}

#[test]
fn random_accumulator_depends_on_seed() {
    let mut seed = [7u8; 64];
    let a1 = Accumulator::random(&seed);
    let a2 = Accumulator::random(&seed);
    assert_eq!(a1.to_bytes(), a2.to_bytes());
    seed[0] = 8;
    let a3 = Accumulator::random(&seed);
    assert_ne!(a1.to_bytes(), a3.to_bytes());
}

#[test]
fn element_one_is_multiplicative_identity() {
    let one = Element::one();
    assert_eq!(Scalar::from_be_bytes(&one.to_bytes()).unwrap(), Scalar::ONE);
}

#[test]
fn update_spanning_more_than_the_log_is_refused() {
    // A request bridging more epochs than the deletion log spans is turned
    // away with the insufficient-epochs error.
    let params = allosaur::AccParams::new();
    let mut server = Server::new(&params);
    let mut user = User::new(&server, UserID::random());
    server.add(user.get_id());
    user.create_witness(&params, &server);
    user.epoch = 0;
    let servers: Vec<Server> = vec![server.clone(), server];
    assert_eq!(
        user.update(&servers, 2),
        Err(allosaur::Error::InsufficientEpochs)
    );
}
