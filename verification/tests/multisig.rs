use multi_party_schnorr::curve::{Point, Scalar};
use multi_party_schnorr::error::Error;
use multi_party_schnorr::hashing::challenge;
use multi_party_schnorr::multisig::{partial_sign, verify, EphKey, KeyPair, Keys, MT256};

fn scalar(n: u64) -> Scalar {
    let mut b = [0u8; 32];
    b[24..].copy_from_slice(&n.to_be_bytes());
    Scalar::from_bytes(b).unwrap()
}

fn pair(n: u64) -> KeyPair {
    KeyPair { public_key: Point::generator().times(&scalar(n)), private_key: scalar(n) }
}

#[test]
fn two_party_key_gen() {
    let message: [u8; 4] = [79, 77, 69, 82];
    // party1 key gen:
    let keys_1 = Keys::create();
    let broadcast1 = Keys::broadcast(&keys_1);
    // party2 key gen:
    let keys_2 = Keys::create();
    let broadcast2 = Keys::broadcast(&keys_2);
    let ix_vec = vec![broadcast1, broadcast2];
    let e = Keys::collect_and_compute_challenge(&ix_vec);

    let y1 = partial_sign(&keys_1, &e);
    let y2 = partial_sign(&keys_2, &e);

    // partial verify
    assert!(verify(&keys_1.I.public_key, &keys_1.X.public_key, &y1, &e).is_ok());
    assert!(verify(&keys_2.I.public_key, &keys_2.X.public_key, &y2, &e).is_ok());

    // merkle tree (in case needed)
    let ge_vec = vec![keys_1.I.public_key, keys_2.I.public_key];
    let mt256 = MT256::create_tree(&ge_vec);
    let proof1 = mt256.gen_proof_for_ge(&keys_1.I.public_key).unwrap();
    let proof2 = mt256.gen_proof_for_ge(&keys_2.I.public_key).unwrap();
    let root = mt256.get_root();

    // signing
    let party1_com = EphKey::gen_commit();
    let party2_com = EphKey::gen_commit();

    let eph_pub_key_vec =
        vec![party1_com.eph_key_pair.public_key, party2_com.eph_key_pair.public_key];
    let pub_key_vec = vec![keys_1.I.public_key, keys_2.I.public_key];

    let (it, xt, es) =
        EphKey::compute_joint_comm_e(pub_key_vec, eph_pub_key_vec, &message).unwrap();
    let party1_sign_key = Keys { I: keys_1.I, X: party1_com.eph_key_pair };
    let party2_sign_key = Keys { I: keys_2.I, X: party2_com.eph_key_pair };

    let y1 = partial_sign(&party1_sign_key, &es);
    let y2 = partial_sign(&party2_sign_key, &es);
    let y = EphKey::add_signature_parts(&vec![y1, y2]);

    assert!(verify(&it, &xt, &y, &es).is_ok());

    assert!(MT256::validate_proof(&proof1, &root).is_ok());
    assert!(MT256::validate_proof(&proof2, &root).is_ok());
}

#[test]
fn multisig_part_of_another_signer_does_not_verify() {
    let keys_1 = Keys::create();
    let keys_2 = Keys::create();
    let e = Keys::collect_and_compute_challenge(&vec![
        Keys::broadcast(&keys_1),
        Keys::broadcast(&keys_2),
    ]);
    let y1 = partial_sign(&keys_1, &e);
    assert_eq!(
        verify(&keys_2.I.public_key, &keys_2.X.public_key, &y1, &e),
        Err(Error::InvalidSig)
    );
}

#[test]
fn merkle_proof_against_another_root_is_refused() {
    let keys_1 = Keys::create();
    let keys_2 = Keys::create();
    let keys_3 = Keys::create();
    let tree = MT256::create_tree(&vec![keys_1.I.public_key, keys_2.I.public_key]);
    let other = MT256::create_tree(&vec![keys_1.I.public_key, keys_3.I.public_key]);
    let proof = tree.gen_proof_for_ge(&keys_1.I.public_key).unwrap();
    assert_eq!(MT256::validate_proof(&proof, &tree.get_root()), Ok(()));
    assert_eq!(
        MT256::validate_proof(&proof, &other.get_root()),
        Err(Error::InvalidCommitment)
    );
    assert_eq!(MT256::validate_proof(&proof, &vec![0u8; 31]), Err(Error::InvalidCommitment));
    assert!(tree.gen_proof_for_ge(&keys_3.I.public_key).is_none());
}

#[test]
fn joint_challenge_needs_a_key_of_each_kind() {
    let keys = Keys::create();
    assert!(matches!(
        EphKey::compute_joint_comm_e(vec![], vec![keys.X.public_key], &[1, 2, 3]),
        Err(Error::InvalidParameters)
    ));
    assert!(matches!(
        EphKey::compute_joint_comm_e(vec![keys.I.public_key], vec![], &[1, 2, 3]),
        Err(Error::InvalidParameters)
    ));
}

#[test]
fn the_parts_add_up_to_the_part_of_the_sums() {
    let signers = [Keys { I: pair(5), X: pair(3) }, Keys { I: pair(6), X: pair(4) }];
    let e = scalar(2);
    let y1 = partial_sign(&signers[0], &e);
    let y2 = partial_sign(&signers[1], &e);
    assert_eq!(y1.to_bytes(), scalar(13).to_bytes());
    assert_eq!(y2.to_bytes(), scalar(16).to_bytes());
    let y = EphKey::add_signature_parts(&vec![y1, y2]);
    assert_eq!(y.to_bytes(), scalar(7 + 2 * 11).to_bytes());
    assert_eq!(verify(&pair(11).public_key, &pair(7).public_key, &y, &e), Ok(()));
    assert_eq!(verify(&pair(11).public_key, &pair(7).public_key, &y1, &e), Err(Error::InvalidSig));
}

#[test]
fn the_joint_challenge_hashes_the_sums_and_the_message() {
    let message = [1u8, 2, 3];
    let (it, xt, e) = EphKey::compute_joint_comm_e(
        vec![pair(5).public_key, pair(6).public_key],
        vec![pair(3).public_key, pair(4).public_key, pair(1).public_key],
        &message,
    )
    .unwrap();
    assert!(it.equals(&pair(11).public_key));
    assert!(xt.equals(&pair(8).public_key));
    assert_eq!(e.to_bytes(), challenge(&it, &xt, &message).to_bytes());
}

#[test]
fn broadcast_and_challenge_of_the_key_exchange() {
    let a = Keys { I: pair(5), X: pair(3) };
    let b = Keys { I: pair(6), X: pair(4) };
    let first = Keys::broadcast(&a);
    assert_eq!(first.len(), 2);
    assert!(first[0].equals(&a.I.public_key));
    assert!(first[1].equals(&a.X.public_key));
    let mut data = Vec::new();
    for k in [&a, &b] {
        data.extend(k.I.public_key.to_bytes());
        data.extend(k.X.public_key.to_bytes());
    }
    let e = Keys::collect_and_compute_challenge(&vec![Keys::broadcast(&a), Keys::broadcast(&b)]);
    assert_eq!(e.to_bytes(), multi_party_schnorr::hashing::hash_to_scalar(&data).to_bytes());
    let swapped =
        Keys::collect_and_compute_challenge(&vec![Keys::broadcast(&b), Keys::broadcast(&a)]);
    assert_ne!(e.to_bytes(), swapped.to_bytes());
    let fresh = KeyPair::create();
    assert!(fresh.public_key.equals(&Point::generator().times(&fresh.private_key)));
}
