use multi_party_schnorr::curve::{Point, Scalar};
use multi_party_schnorr::error::Error;
use multi_party_schnorr::hashing::{challenge, commit};
use multi_party_schnorr::party_i::{
    verify, KeyGenBroadcastMessage1, Keys, LocalSig, Parameters, SharedKeys, Signature,
};
use multi_party_schnorr::vss::{ShamirSecretSharing, VerifiableSS};

fn scalar(n: u64) -> Scalar {
    let mut b = [0u8; 32];
    b[24..].copy_from_slice(&n.to_be_bytes());
    Scalar::from_bytes(b).unwrap()
}

struct Phase1 {
    keys: Vec<Keys>,
    comms: Vec<KeyGenBroadcastMessage1>,
    blinds: Vec<Vec<u8>>,
    ys: Vec<Point>,
}

fn phase1(n: usize) -> Phase1 {
    let keys: Vec<Keys> = (0..n).map(Keys::phase1_create).collect();
    let mut comms = Vec::new();
    let mut blinds = Vec::new();
    for k in keys.iter() {
        let (c, b) = k.phase1_broadcast();
        comms.push(c);
        blinds.push(b);
    }
    let ys = keys.iter().map(|k| k.y_i).collect();
    Phase1 { keys, comms, blinds, ys }
}

struct Dealt {
    keys: Vec<Keys>,
    shared: Vec<SharedKeys>,
    schemes: Vec<VerifiableSS>,
}

fn copies(schemes: &[VerifiableSS]) -> Vec<VerifiableSS> {
    schemes.iter().map(|s| s.copy()).collect()
}

fn deal(t: u16, parties: &[usize]) -> Dealt {
    let n = parties.len();
    let params = Parameters { threshold: t, share_count: n as u16 };
    let p = phase1(n);
    let parties_vec = parties.to_vec();
    let mut schemes = Vec::new();
    let mut all_shares: Vec<Vec<Scalar>> = Vec::new();
    for k in p.keys.iter() {
        let (vss, shares, _) = k
            .phase1_verify_com_phase2_distribute(&params, &p.blinds, &p.ys, &p.comms, &parties_vec)
            .unwrap();
        schemes.push(vss);
        all_shares.push(shares);
    }
    let mut shared = Vec::new();
    for (pos, k) in p.keys.iter().enumerate() {
        let received: Vec<Scalar> = all_shares.iter().map(|s| s[pos]).collect();
        shared.push(
            k.phase2_verify_vss_construct_keypair(&params, &p.ys, &received, &schemes, &parties[pos])
                .unwrap(),
        );
    }
    Dealt { keys: p.keys, shared, schemes }
}

#[test]
fn a_key_pair_is_a_scalar_and_its_multiple_of_the_generator() {
    let keys = Keys::phase1_create(3);
    assert_eq!(keys.party_index, 3);
    assert!(keys.y_i.equals(&Point::generator().times(&keys.u_i)));
    let other = Keys::phase1_create(3);
    assert!(!keys.y_i.equals(&other.y_i));
}

#[test]
fn the_broadcast_commitment_opens_to_the_public_contribution() {
    let keys = Keys::phase1_create(0);
    let (comm, blind) = keys.phase1_broadcast();
    assert_eq!(comm.com, commit(&keys.y_i, &blind));
    assert!(blind.len() <= 32);
    let (_, other_blind) = keys.phase1_broadcast();
    assert_ne!(blind, other_blind);
}

#[test]
fn distribute_deals_one_share_for_each_party() {
    let p = phase1(3);
    let params = Parameters { threshold: 1, share_count: 3 };
    let (vss, shares, index) = p.keys[1]
        .phase1_verify_com_phase2_distribute(&params, &p.blinds, &p.ys, &p.comms, &vec![1, 2, 3])
        .unwrap();
    assert_eq!(index, 1);
    assert_eq!(shares.len(), 3);
    assert_eq!(vss.commitments.len(), 2);
    assert_eq!(vss.parameters.threshold, 1);
    assert_eq!(vss.parameters.share_count, 3);
    assert!(vss.commitments[0].equals(&p.keys[1].y_i));
    for (j, s) in shares.iter().enumerate() {
        assert!(vss.validate_share(s, j as u16 + 1));
    }
}

#[test]
fn distribute_refuses_a_commitment_that_does_not_open() {
    let mut p = phase1(3);
    let params = Parameters { threshold: 1, share_count: 3 };
    let parties = vec![1, 2, 3];
    p.ys[1] = p.ys[1].plus(&Point::generator());
    let r = p.keys[0].phase1_verify_com_phase2_distribute(&params, &p.blinds, &p.ys, &p.comms, &parties);
    assert!(matches!(r, Err(Error::InvalidCommitment)));
    let mut p = phase1(3);
    p.blinds[2].push(1);
    let r = p.keys[0].phase1_verify_com_phase2_distribute(&params, &p.blinds, &p.ys, &p.comms, &parties);
    assert!(matches!(r, Err(Error::InvalidCommitment)));
    let mut p = phase1(3);
    p.comms[0].com[0] ^= 1;
    let r = p.keys[0].phase1_verify_com_phase2_distribute(&params, &p.blinds, &p.ys, &p.comms, &parties);
    assert!(matches!(r, Err(Error::InvalidCommitment)));
}

#[test]
fn distribute_refuses_malformed_parameters() {
    let p = phase1(3);
    let ok = Parameters { threshold: 1, share_count: 3 };
    let run = |params: &Parameters, parties: Vec<usize>| {
        p.keys[0].phase1_verify_com_phase2_distribute(params, &p.blinds, &p.ys, &p.comms, &parties)
    };
    assert!(run(&ok, vec![1, 2, 3]).is_ok());
    assert!(run(&ok, vec![1, 3, 7]).is_ok());
    // duplicate index
    assert!(matches!(run(&ok, vec![1, 2, 2]), Err(Error::InvalidParameters)));
    // index zero
    assert!(matches!(run(&ok, vec![0, 1, 2]), Err(Error::InvalidParameters)));
    // index that does not fit 16 bits
    assert!(matches!(run(&ok, vec![1, 2, 65536]), Err(Error::InvalidParameters)));
    assert!(run(&ok, vec![1, 2, 65535]).is_ok());
    // too few or too many indices
    assert!(matches!(run(&ok, vec![1, 2]), Err(Error::InvalidParameters)));
    assert!(matches!(run(&ok, vec![1, 2, 3, 4]), Err(Error::InvalidParameters)));
    // share count that does not agree with the vectors
    let four = Parameters { threshold: 1, share_count: 4 };
    assert!(matches!(run(&four, vec![1, 2, 3, 4]), Err(Error::InvalidParameters)));
    // threshold not below the share count
    let high = Parameters { threshold: 3, share_count: 3 };
    assert!(matches!(run(&high, vec![1, 2, 3]), Err(Error::InvalidParameters)));
    let edge = Parameters { threshold: 2, share_count: 3 };
    assert!(run(&edge, vec![1, 2, 3]).is_ok());
    // malformed parameters are reported before a bad commitment
    let mut q = phase1(3);
    q.ys[0] = q.ys[1];
    let r = q.keys[0].phase1_verify_com_phase2_distribute(&ok, &q.blinds, &q.ys, &q.comms, &vec![1, 1, 2]);
    assert!(matches!(r, Err(Error::InvalidParameters)));
}

#[test]
fn construct_keypair_adds_up_shares_and_contributions() {
    let g = Point::generator();
    // two dealers with the polynomials 5 + 3x and 7 + x, read at the point 2
    let schemes = vec![
        VerifiableSS {
            parameters: ShamirSecretSharing { threshold: 1, share_count: 2 },
            commitments: vec![g.times(&scalar(5)), g.times(&scalar(3))],
        },
        VerifiableSS {
            parameters: ShamirSecretSharing { threshold: 1, share_count: 2 },
            commitments: vec![g.times(&scalar(7)), g.times(&scalar(1))],
        },
    ];
    let ys = vec![g.times(&scalar(5)), g.times(&scalar(7))];
    let shares = vec![scalar(11), scalar(9)];
    let params = Parameters { threshold: 1, share_count: 2 };
    let keys = Keys::phase1_create(1);
    let shared =
        keys.phase2_verify_vss_construct_keypair(&params, &ys, &shares, &schemes, &2).unwrap();
    assert_eq!(shared.x_i.to_bytes(), scalar(20).to_bytes());
    assert!(shared.y.equals(&g.times(&scalar(12))));
    // the same shares are not valid at the point 1
    let r = keys.phase2_verify_vss_construct_keypair(&params, &ys, &shares, &schemes, &1);
    assert!(matches!(r, Err(Error::InvalidSS)));
    // one share off by one
    let r = keys.phase2_verify_vss_construct_keypair(
        &params,
        &ys,
        &vec![scalar(11), scalar(10)],
        &schemes,
        &2,
    );
    assert!(matches!(r, Err(Error::InvalidSS)));
    // a dealing whose constant commitment is not the dealer's contribution
    let r = keys.phase2_verify_vss_construct_keypair(
        &params,
        &vec![g.times(&scalar(5)), g.times(&scalar(8))],
        &shares,
        &schemes,
        &2,
    );
    assert!(matches!(r, Err(Error::InvalidSS)));
}

#[test]
fn construct_keypair_refuses_malformed_parameters() {
    let d = deal(1, &[1, 2, 3]);
    let params = Parameters { threshold: 1, share_count: 3 };
    let ys: Vec<Point> = d.keys.iter().map(|k| k.y_i).collect();
    let shares = vec![scalar(1), scalar(2), scalar(3)];
    let run = |params: &Parameters, ys: &Vec<Point>, shares: &Vec<Scalar>, schemes: &Vec<VerifiableSS>, index: usize| {
        d.keys[0].phase2_verify_vss_construct_keypair(params, ys, shares, schemes, &index)
    };
    let schemes = copies(&d.schemes);
    // wrong shares, well-formed input
    assert!(matches!(run(&params, &ys, &shares, &schemes, 1), Err(Error::InvalidSS)));
    assert!(matches!(run(&params, &ys, &shares, &schemes, 0), Err(Error::InvalidParameters)));
    assert!(matches!(run(&params, &ys, &shares, &schemes, 65536), Err(Error::InvalidParameters)));
    assert!(matches!(
        run(&params, &ys, &vec![scalar(1), scalar(2)], &schemes, 1),
        Err(Error::InvalidParameters)
    ));
    assert!(matches!(
        run(&params, &ys[..2].to_vec(), &shares, &schemes, 1),
        Err(Error::InvalidParameters)
    ));
    let mut short = copies(&d.schemes);
    short.pop();
    assert!(matches!(run(&params, &ys, &shares, &short, 1), Err(Error::InvalidParameters)));
    let mut hollow = copies(&d.schemes);
    hollow[2].commitments.clear();
    assert!(matches!(run(&params, &ys, &shares, &hollow, 1), Err(Error::InvalidParameters)));
    let none = Parameters { threshold: 0, share_count: 0 };
    assert!(matches!(
        run(&none, &vec![], &vec![], &vec![], 1),
        Err(Error::InvalidParameters)
    ));
}

#[test]
fn local_signature_is_nonce_share_plus_challenge_times_key_share() {
    let g = Point::generator();
    let message = [0x4F, 0x4D, 0x45, 0x52];
    let eph = SharedKeys { y: g.times(&scalar(11)), x_i: scalar(100) };
    let long = SharedKeys { y: g.times(&scalar(13)), x_i: scalar(7) };
    let sig = LocalSig::compute(&message, &eph, &long);
    let e = challenge(&eph.y, &long.y, &message);
    assert_eq!(sig.e.to_bytes(), e.to_bytes());
    assert_eq!(sig.gamma_i.to_bytes(), scalar(100).plus(&e.times(&scalar(7))).to_bytes());
    // with a key share of zero the local signature is the nonce share
    let zero_key = SharedKeys { y: long.y, x_i: Scalar::zero() };
    assert_eq!(LocalSig::compute(&message, &eph, &zero_key).gamma_i.to_bytes(), scalar(100).to_bytes());
    // with a nonce share of zero and a key share of one it is the challenge
    let zero_nonce = SharedKeys { y: eph.y, x_i: Scalar::zero() };
    let one_key = SharedKeys { y: long.y, x_i: scalar(1) };
    assert_eq!(LocalSig::compute(&message, &zero_nonce, &one_key).gamma_i.to_bytes(), e.to_bytes());
}

#[test]
fn a_plain_schnorr_signature_verifies() {
    let g = Point::generator();
    let message = b"message".to_vec();
    let x = Scalar::random();
    let k = Scalar::random();
    let y = g.times(&x);
    let r = g.times(&k);
    let e = challenge(&r, &y, &message);
    let sigma = k.plus(&e.times(&x));
    assert!(verify(&y, &r, &sigma, &message));
    assert!(verify(&y, &r, &sigma, &message));
    let sig = Signature { sigma, v: r };
    assert_eq!(sig.verify(&message, &y), Ok(()));
    assert_eq!(sig.verify(b"another", &y), Err(Error::InvalidSig));
    assert_eq!(sig.verify(&message, &r), Err(Error::InvalidSig));
    let off = Signature { sigma: sigma.plus(&scalar(1)), v: r };
    assert_eq!(off.verify(&message, &y), Err(Error::InvalidSig));
    assert!(!verify(&y, &y, &sigma, &message));
}

#[test]
fn local_signatures_are_checked_against_the_joint_commitments() {
    let message = [1u8, 2, 3];
    let long = deal(1, &[1, 2, 3]);
    let signers = [1usize, 3];
    let eph = deal(1, &signers);
    let sigs: Vec<LocalSig> = signers
        .iter()
        .enumerate()
        .map(|(pos, s)| LocalSig::compute(&message, &eph.shared[pos], &long.shared[s - 1]))
        .collect();
    let indices = vec![0usize, 2];
    let vss_sum = LocalSig::verify_local_sigs(&sigs, &indices, &long.schemes, &eph.schemes).unwrap();
    assert_eq!(vss_sum.commitments.len(), 2);
    assert_eq!(vss_sum.parameters.threshold, 1);
    assert_eq!(vss_sum.parameters.share_count, 2);
    // the commitment to the constant term is R + e * Y
    let expected = eph.shared[0].y.plus(&long.shared[0].y.times(&sigs[0].e));
    let g = Point::generator();
    assert!(vss_sum.validate_share_public(&g.times(&sigs[0].gamma_i), 1));
    assert!(vss_sum.validate_share_public(&g.times(&sigs[1].gamma_i), 3));
    let sig = Signature::generate(&vss_sum, &sigs, &indices, eph.shared[0].y).unwrap();
    assert!(g.times(&sig.sigma).equals(&expected));
    assert_eq!(sig.verify(&message, &long.shared[0].y), Ok(()));

    // a tampered gamma_i
    let mut tampered = sigs.clone();
    tampered[1].gamma_i = tampered[1].gamma_i.plus(&scalar(1));
    assert!(matches!(
        LocalSig::verify_local_sigs(&tampered, &indices, &long.schemes, &eph.schemes),
        Err(Error::InvalidSS)
    ));
    // the signers at other points
    assert!(matches!(
        LocalSig::verify_local_sigs(&sigs, &vec![0, 1], &long.schemes, &eph.schemes),
        Err(Error::InvalidSS)
    ));
    // no more signers than the threshold
    assert!(matches!(
        LocalSig::verify_local_sigs(&sigs[..1].to_vec(), &vec![0], &long.schemes, &eph.schemes),
        Err(Error::InvalidParameters)
    ));
    // a local signature missing
    assert!(matches!(
        LocalSig::verify_local_sigs(&sigs[..1].to_vec(), &indices, &long.schemes, &eph.schemes),
        Err(Error::InvalidParameters)
    ));
    // no dealings
    assert!(matches!(
        LocalSig::verify_local_sigs(&sigs, &indices, &vec![], &eph.schemes),
        Err(Error::InvalidParameters)
    ));
    assert!(matches!(
        LocalSig::verify_local_sigs(&sigs, &indices, &long.schemes, &vec![]),
        Err(Error::InvalidParameters)
    ));
    // a dealing with too few commitments
    let mut short = copies(&eph.schemes);
    short[1].commitments.pop();
    assert!(matches!(
        LocalSig::verify_local_sigs(&sigs, &indices, &long.schemes, &short),
        Err(Error::InvalidParameters)
    ));
    // a signer index whose point does not fit 16 bits
    assert!(matches!(
        LocalSig::verify_local_sigs(&sigs, &vec![0, 65535], &long.schemes, &eph.schemes),
        Err(Error::InvalidParameters)
    ));
}

#[test]
fn generate_interpolates_the_first_signers_only() {
    let vss = VerifiableSS {
        parameters: ShamirSecretSharing { threshold: 1, share_count: 3 },
        commitments: vec![],
    };
    let v = Point::generator();
    // gamma(x) = 5 + 3x at the points 1, 2, 4; the third value is off the line
    let sigs = vec![
        LocalSig { gamma_i: scalar(8), e: scalar(1) },
        LocalSig { gamma_i: scalar(11), e: scalar(1) },
        LocalSig { gamma_i: scalar(1000), e: scalar(1) },
    ];
    let sig = Signature::generate(&vss, &sigs, &vec![0, 1, 3], v).unwrap();
    assert_eq!(sig.sigma.to_bytes(), scalar(5).to_bytes());
    assert!(sig.v.equals(&v));
    let sig = Signature::generate(&vss, &sigs, &vec![0, 1], v).unwrap();
    assert_eq!(sig.sigma.to_bytes(), scalar(5).to_bytes());
    // a signer twice among the first two
    assert!(matches!(
        Signature::generate(&vss, &sigs, &vec![1, 1, 3], v),
        Err(Error::InvalidParameters)
    ));
    // a signer twice after the first two
    assert!(Signature::generate(&vss, &sigs, &vec![0, 1, 1], v).is_ok());
    // fewer signers than the threshold asks for
    assert!(matches!(Signature::generate(&vss, &sigs, &vec![0], v), Err(Error::InvalidParameters)));
    // fewer local signatures than signers
    assert!(matches!(
        Signature::generate(&vss, &sigs[..2].to_vec(), &vec![0, 1, 3], v),
        Err(Error::InvalidParameters)
    ));
    // a signer whose point does not fit 16 bits
    assert!(matches!(
        Signature::generate(&vss, &sigs, &vec![0, 65535], v),
        Err(Error::InvalidParameters)
    ));
    let top = VerifiableSS {
        parameters: ShamirSecretSharing { threshold: 65535, share_count: 3 },
        commitments: vec![],
    };
    assert!(matches!(
        Signature::generate(&top, &sigs, &vec![0, 1, 3], v),
        Err(Error::InvalidParameters)
    ));
}

#[test]
fn as_many_signers_as_the_threshold_give_a_signature_that_fails() {
    let message: [u8; 4] = [0x4F, 0x4D, 0x45, 0x52];
    let long = deal(2, &[1, 2, 3, 4, 5]);
    let signers = [1usize, 2];
    // two signers can only deal their nonces with a threshold of one
    let eph = deal(1, &signers);
    let sigs: Vec<LocalSig> = signers
        .iter()
        .enumerate()
        .map(|(pos, s)| LocalSig::compute(&message, &eph.shared[pos], &long.shared[s - 1]))
        .collect();
    let indices = vec![0usize, 1];
    assert!(matches!(
        LocalSig::verify_local_sigs(&sigs, &indices, &long.schemes, &eph.schemes),
        Err(Error::InvalidParameters)
    ));
    let vss = VerifiableSS {
        parameters: ShamirSecretSharing { threshold: 1, share_count: 2 },
        commitments: vec![],
    };
    let sig = Signature::generate(&vss, &sigs, &indices, eph.shared[0].y).unwrap();
    assert_eq!(sig.verify(&message, &long.shared[0].y), Err(Error::InvalidSig));
    assert!(!verify(&long.shared[0].y, &sig.v, &sig.sigma, &message));
}

#[test]
fn any_three_of_five_sign() {
    let message = b"any three of five".to_vec();
    let long = deal(2, &[1, 2, 3, 4, 5]);
    for signers in [[1usize, 2, 3], [2, 4, 5], [5, 3, 1]] {
        let eph = deal(2, &signers);
        let sigs: Vec<LocalSig> = signers
            .iter()
            .enumerate()
            .map(|(pos, s)| LocalSig::compute(&message, &eph.shared[pos], &long.shared[s - 1]))
            .collect();
        let indices: Vec<usize> = signers.iter().map(|s| s - 1).collect();
        let vss_sum =
            LocalSig::verify_local_sigs(&sigs, &indices, &long.schemes, &eph.schemes).unwrap();
        let sig = Signature::generate(&vss_sum, &sigs, &indices, eph.shared[0].y).unwrap();
        assert_eq!(sig.verify(&message, &long.shared[0].y), Ok(()));
    }
}

#[test]
fn four_of_five_sign_with_a_threshold_of_two() {
    let message = b"four signers".to_vec();
    let long = deal(2, &[1, 2, 3, 4, 5]);
    let signers = [1usize, 2, 4, 5];
    let eph = deal(2, &signers);
    let sigs: Vec<LocalSig> = signers
        .iter()
        .enumerate()
        .map(|(pos, s)| LocalSig::compute(&message, &eph.shared[pos], &long.shared[s - 1]))
        .collect();
    let indices: Vec<usize> = signers.iter().map(|s| s - 1).collect();
    let vss_sum = LocalSig::verify_local_sigs(&sigs, &indices, &long.schemes, &eph.schemes).unwrap();
    let sig = Signature::generate(&vss_sum, &sigs, &indices, eph.shared[0].y).unwrap();
    assert_eq!(sig.verify(&message, &long.shared[0].y), Ok(()));
}
