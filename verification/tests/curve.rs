use multi_party_schnorr::curve::{Point, Scalar};
use multi_party_schnorr::error::Error;
use multi_party_schnorr::hashing::{
    challenge, commit, copy_bytes, hash_to_scalar, sample_blinding, same_bytes, SECURITY,
};
use sha2::{Digest, Sha256};

const ORDER: &str = "fffffffffffffffffffffffffffffffebaaedce6af48a03bbfd25e8cd0364141";
const G: &str = "0279be667ef9dcbbac55a06295ce870b07029bfcdb2dce28d959f2815b16f81798";
const G2: &str = "02c6047f9441ed7d6d3045406e95c07cd85c778e4b8cef3ca7abac09b95c709ee5";
const G3: &str = "02f9308a019258c31049344f85f89d5229b531c845836f99b08601f113bce036f9";

fn unhex(s: &str) -> Vec<u8> {
    (0..s.len() / 2).map(|i| u8::from_str_radix(&s[2 * i..2 * i + 2], 16).unwrap()).collect()
}

fn scalar(n: u64) -> Scalar {
    let mut b = [0u8; 32];
    b[24..].copy_from_slice(&n.to_be_bytes());
    Scalar::from_bytes(b).unwrap()
}

/// The group order minus `n`.
fn order_minus(n: u8) -> Scalar {
    let mut b = unhex(ORDER);
    b[31] -= n;
    Scalar::decode(&b).unwrap()
}

#[test]
fn generator_has_the_standard_encoding() {
    assert_eq!(Point::generator().to_bytes().to_vec(), unhex(G));
}

#[test]
fn multiples_of_the_generator() {
    let g = Point::generator();
    assert_eq!(g.times(&scalar(1)).to_bytes().to_vec(), unhex(G));
    assert_eq!(g.times(&scalar(2)).to_bytes().to_vec(), unhex(G2));
    assert_eq!(g.plus(&g).to_bytes().to_vec(), unhex(G2));
    assert_eq!(g.plus(&g).plus(&g).to_bytes().to_vec(), unhex(G3));
    assert_eq!(g.times(&scalar(3)).to_bytes().to_vec(), unhex(G3));
    assert!(g.plus(&g).equals(&g.times(&scalar(2))));
    assert!(!g.plus(&g).equals(&g));
}

#[test]
fn a_point_and_its_inverse_add_up_to_the_identity() {
    let g = Point::generator();
    let minus_g = g.times(&order_minus(1));
    assert_eq!(g.plus(&minus_g).to_bytes(), [0u8; 33]);
    assert_eq!(g.times(&Scalar::zero()).to_bytes(), [0u8; 33]);
    let identity = Point::from_bytes([0u8; 33]).unwrap();
    assert!(identity.plus(&g).equals(&g));
}

#[test]
fn scalar_addition_wraps_at_the_group_order() {
    assert_eq!(order_minus(1).plus(&scalar(2)).to_bytes(), scalar(1).to_bytes());
    assert_eq!(order_minus(1).plus(&scalar(1)).to_bytes(), [0u8; 32]);
    assert_eq!(scalar(7).plus(&scalar(8)).to_bytes(), scalar(15).to_bytes());
    assert_eq!(Scalar::zero().plus(&scalar(8)).to_bytes(), scalar(8).to_bytes());
}

#[test]
fn scalar_multiplication_is_modular() {
    assert_eq!(scalar(2).times(&scalar(3)).to_bytes(), scalar(6).to_bytes());
    assert_eq!(order_minus(1).times(&order_minus(1)).to_bytes(), scalar(1).to_bytes());
    assert_eq!(order_minus(1).times(&scalar(2)).to_bytes(), order_minus(2).to_bytes());
    assert_eq!(Scalar::zero().times(&scalar(9)).to_bytes(), [0u8; 32]);
}

#[test]
fn scalars_are_below_the_group_order() {
    let mut q = [0u8; 32];
    q.copy_from_slice(&unhex(ORDER));
    assert!(Scalar::from_bytes(q).is_none());
    assert!(Scalar::from_bytes([0xff; 32]).is_none());
    assert!(Scalar::from_bytes([0u8; 32]).is_some());
    assert_eq!(Scalar::zero().to_bytes(), [0u8; 32]);
    assert_eq!(order_minus(1).to_bytes().to_vec(), {
        let mut b = unhex(ORDER);
        b[31] = 0x40;
        b
    });
    assert!(matches!(Scalar::decode(&unhex(ORDER)), Err(Error::InternalCurve)));
    assert!(matches!(Scalar::decode(&[1, 2, 3]), Err(Error::InternalCurve)));
}

#[test]
fn random_scalars_are_not_zero_and_differ() {
    let a = Scalar::random();
    let b = Scalar::random();
    assert_ne!(a.to_bytes(), [0u8; 32]);
    assert_ne!(a.to_bytes(), b.to_bytes());
}

#[test]
fn reducing_a_long_number() {
    let mut b = unhex(ORDER);
    b[31] += 5;
    assert_eq!(Scalar::reduce(&b).to_bytes(), scalar(5).to_bytes());
    let mut twice = vec![1u8];
    twice.extend(vec![0u8; 32]);
    // 2^256 mod q
    let expected = unhex("000000000000000000000000000000014551231950b75fc4402da1732fc9bebf");
    assert_eq!(Scalar::reduce(&twice).to_bytes().to_vec(), expected);
    assert_eq!(Scalar::reduce(&vec![]).to_bytes(), [0u8; 32]);
}

#[test]
fn bytes_that_encode_no_point_are_an_internal_curve_error() {
    let mut bad = unhex(G);
    bad[0] = 0x05;
    assert!(matches!(Point::decode(&bad), Err(Error::InternalCurve)));
    assert!(matches!(Point::decode(&unhex(G)[..32]), Err(Error::InternalCurve)));
    let mut off_curve = [0u8; 33];
    off_curve[0] = 0x02;
    off_curve[32] = 0x05;
    assert!(Point::from_bytes(off_curve).is_none());
    let g = Point::decode(&unhex(G)).unwrap();
    assert!(g.equals(&Point::generator()));
}

#[test]
fn hashing_to_a_scalar_is_sha256_modulo_the_order() {
    let empty = unhex("e3b0c44298fc1c149afbf4c8996fb92427ae41e4649b934ca495991b7852b855");
    assert_eq!(hash_to_scalar(&vec![]).to_bytes().to_vec(), empty);
    let abc = unhex("ba7816bf8f01cfea414140de5dae2223b00361a396177a9cb410ff61f20015ad");
    assert_eq!(hash_to_scalar(&b"abc".to_vec()).to_bytes().to_vec(), abc);
}

#[test]
fn challenge_hashes_nonce_key_and_message_in_this_order() {
    let r = Point::generator();
    let y = r.plus(&r);
    let message = [0x4F, 0x4D, 0x45, 0x52];
    let mut data = unhex(G);
    data.extend(unhex(G2));
    data.extend(message);
    let digest = Sha256::digest(&data).to_vec();
    assert_eq!(challenge(&r, &y, &message).to_bytes(), Scalar::reduce(&digest).to_bytes());
    assert_ne!(challenge(&y, &r, &message).to_bytes(), challenge(&r, &y, &message).to_bytes());
    assert_ne!(challenge(&r, &y, &[0x4F]).to_bytes(), challenge(&r, &y, &message).to_bytes());
}

#[test]
fn commitment_is_the_hash_of_point_and_blinding() {
    let y = Point::generator();
    let blinding = vec![0x01, 0x02, 0x03];
    let mut data = unhex(G);
    data.extend(blinding.iter());
    let mut digest = Sha256::digest(&data).to_vec();
    while digest.first() == Some(&0) {
        digest.remove(0);
    }
    assert_eq!(commit(&y, &blinding), digest);
    assert_ne!(commit(&y, &vec![0x01, 0x02, 0x04]), digest);
    assert_ne!(commit(&y.plus(&y), &blinding), digest);
}

#[test]
fn byte_strings_are_copied_and_compared() {
    let a = vec![1u8, 2, 3];
    assert_eq!(copy_bytes(&a), a);
    assert!(same_bytes(&a, &vec![1, 2, 3]));
    assert!(!same_bytes(&a, &vec![1, 2, 4]));
    assert!(!same_bytes(&a, &vec![1, 2]));
    assert!(same_bytes(&vec![], &vec![]));
}

#[test]
fn a_blinding_factor_is_a_fresh_number_of_at_most_256_bits() {
    assert_eq!(SECURITY, 256);
    let a = sample_blinding();
    let b = sample_blinding();
    assert_ne!(a, b);
    for blinding in [a, b] {
        let significant: Vec<u8> = blinding.iter().copied().skip_while(|byte| *byte == 0).collect();
        assert!(significant.len() <= 32);
        assert!(!significant.is_empty());
    }
}
