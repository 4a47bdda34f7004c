use multi_party_schnorr::curve::{Point, Scalar};
use multi_party_schnorr::error::Error;
use multi_party_schnorr::party_i::{
    verify, KeyGenBroadcastMessage1, Keys, LocalSig, Parameters, SharedKeys, Signature,
};
use multi_party_schnorr::vss::VerifiableSS;

struct Dealt {
    keys: Vec<Keys>,
    shared: Vec<SharedKeys>,
    schemes: Vec<VerifiableSS>,
}

/// Runs the dealing of `parties.len()` fresh secrets among `parties` with threshold `t`.
fn deal(t: u16, parties: &[usize]) -> Dealt {
    let n = parties.len();
    let params = Parameters { threshold: t, share_count: n as u16 };
    let keys: Vec<Keys> = parties.iter().map(|p| Keys::phase1_create(p - 1)).collect();
    let mut comms: Vec<KeyGenBroadcastMessage1> = Vec::new();
    let mut blinds: Vec<Vec<u8>> = Vec::new();
    for k in keys.iter() {
        let (c, b) = k.phase1_broadcast();
        comms.push(c);
        blinds.push(b);
    }
    let ys: Vec<Point> = keys.iter().map(|k| k.y_i).collect();
    let parties_vec = parties.to_vec();
    let mut schemes: Vec<VerifiableSS> = Vec::new();
    let mut all_shares: Vec<Vec<Scalar>> = Vec::new();
    for k in keys.iter() {
        let (vss, shares, index) = k
            .phase1_verify_com_phase2_distribute(&params, &blinds, &ys, &comms, &parties_vec)
            .unwrap();
        assert_eq!(index, k.party_index);
        schemes.push(vss);
        all_shares.push(shares);
    }
    let mut shared: Vec<SharedKeys> = Vec::new();
    for (pos, k) in keys.iter().enumerate() {
        let received: Vec<Scalar> = all_shares.iter().map(|s| s[pos]).collect();
        let sk = k
            .phase2_verify_vss_construct_keypair(&params, &ys, &received, &schemes, &parties[pos])
            .unwrap();
        shared.push(sk);
    }
    Dealt { keys, shared, schemes }
}

#[test]
fn three_of_five_keygen_agrees_on_public_key() {
    let dealt = deal(2, &[1, 2, 3, 4, 5]);
    let y = dealt.shared[0].y;
    for sk in dealt.shared.iter() {
        assert!(sk.y.equals(&y));
    }
    let mut sum = dealt.keys[0].y_i;
    for k in dealt.keys.iter().skip(1) {
        sum = sum.plus(&k.y_i);
    }
    assert!(sum.equals(&y));
}

#[test]
fn three_of_five_sign_with_subset_verifies() {
    let message: [u8; 4] = [0x4F, 0x4D, 0x45, 0x52];
    let long = deal(2, &[1, 2, 3, 4, 5]);
    let signers = [1usize, 3, 4];
    let eph = deal(2, &signers);
    let mut sigs: Vec<LocalSig> = Vec::new();
    for (pos, s) in signers.iter().enumerate() {
        sigs.push(LocalSig::compute(&message, &eph.shared[pos], &long.shared[s - 1]));
    }
    let indices: Vec<usize> = signers.iter().map(|s| s - 1).collect();
    let vss_sum =
        LocalSig::verify_local_sigs(&sigs, &indices, &long.schemes, &eph.schemes).unwrap();
    let sig = Signature::generate(&vss_sum, &sigs, &indices, eph.shared[0].y).unwrap();
    assert_eq!(sig.verify(&message, &long.shared[0].y), Ok(()));
    assert!(verify(&long.shared[0].y, &sig.v, &sig.sigma, &message));
    assert_eq!(sig.verify(&[0x4F, 0x4D, 0x45, 0x53], &long.shared[0].y), Err(Error::InvalidSig));
}
