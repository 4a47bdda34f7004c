use multi_party_schnorr::curve::{Point, Scalar};
use multi_party_schnorr::error::{Error, MachineError};
use multi_party_schnorr::keygen::rounds::{LocalKey, ProceedError as KeygenProceedError};
use multi_party_schnorr::keygen::{Keygen, ProtocolMessage as KeygenMessage, M as KeygenBody};
use multi_party_schnorr::party_i::verify;
use multi_party_schnorr::sign::rounds::{ProceedError as SignProceedError, SigRes};
use multi_party_schnorr::sign::{ProtocolMessage as SignMessage, Sign, M as SignBody};
use multi_party_schnorr::store::Msg;

/// Ships every queued message of every machine to the machines it is meant for.
fn ship_keygen(machines: &mut Vec<Keygen>, tamper: &dyn Fn(&mut Msg<KeygenMessage>)) {
    let mut wire: Vec<Msg<KeygenMessage>> = Vec::new();
    for m in machines.iter_mut() {
        wire.extend(m.message_queue());
    }
    for mut msg in wire {
        tamper(&mut msg);
        match msg.receiver {
            Some(to) => {
                let body = copy_keygen(&msg.body);
                let _ = machines[usize::from(to) - 1]
                    .handle_incoming(Msg { sender: msg.sender, receiver: msg.receiver, body });
            }
            None => {
                for (k, m) in machines.iter_mut().enumerate() {
                    if k + 1 != usize::from(msg.sender) {
                        let body = copy_keygen(&msg.body);
                        let _ = m.handle_incoming(Msg { sender: msg.sender, receiver: None, body });
                    }
                }
            }
        }
    }
}

fn copy_keygen(m: &KeygenMessage) -> KeygenMessage {
    match &m.0 {
        KeygenBody::Round1(b) => KeygenMessage(KeygenBody::Round1(b.copy())),
        KeygenBody::Round2((vss, share)) => KeygenMessage(KeygenBody::Round2((vss.copy(), *share))),
    }
}

fn copy_sign(m: &SignMessage) -> SignMessage {
    match &m.0 {
        SignBody::Round1(b) => SignMessage(SignBody::Round1(b.copy())),
        SignBody::Round2((vss, share)) => SignMessage(SignBody::Round2((vss.copy(), *share))),
        SignBody::Round3(l) => SignMessage(SignBody::Round3(*l)),
        SignBody::Round4(c) => SignMessage(SignBody::Round4(*c)),
        SignBody::Round5(v) => SignMessage(SignBody::Round5(*v)),
    }
}

fn ship_sign(machines: &mut Vec<Sign>, tamper: &dyn Fn(&mut Msg<SignMessage>)) {
    let mut wire: Vec<Msg<SignMessage>> = Vec::new();
    for m in machines.iter_mut() {
        wire.extend(m.message_queue());
    }
    for mut msg in wire {
        tamper(&mut msg);
        match msg.receiver {
            Some(to) => {
                let body = copy_sign(&msg.body);
                let _ = machines[usize::from(to) - 1]
                    .handle_incoming(Msg { sender: msg.sender, receiver: msg.receiver, body });
            }
            None => {
                for (k, m) in machines.iter_mut().enumerate() {
                    if k + 1 != usize::from(msg.sender) {
                        let body = copy_sign(&msg.body);
                        let _ = m.handle_incoming(Msg { sender: msg.sender, receiver: None, body });
                    }
                }
            }
        }
    }
}

fn run_keygen(t: u16, n: u16) -> Vec<LocalKey> {
    run_keygen_with(t, n, &|_| {}).into_iter().map(|r| r.unwrap()).collect()
}

/// Runs key generation with every message on the wire passed through `tamper`.
fn run_keygen_with(
    t: u16,
    n: u16,
    tamper: &dyn Fn(&mut Msg<KeygenMessage>),
) -> Vec<Result<LocalKey, MachineError<KeygenProceedError>>> {
    let mut machines: Vec<Keygen> = (1..=n).map(|i| Keygen::new(i, t, n).unwrap()).collect();
    let mut failed: Vec<Option<MachineError<KeygenProceedError>>> = vec![None; usize::from(n)];
    for _round in 0..3 {
        for (k, m) in machines.iter_mut().enumerate() {
            if failed[k].is_none() {
                if let Err(e) = m.proceed() {
                    failed[k] = Some(e);
                    if e != MachineError::Driver(Error::NotEnoughMessages) {
                        assert_eq!(m.current_round(), 3);
                        assert!(!m.is_finished());
                    }
                }
            }
        }
        ship_keygen(&mut machines, tamper);
    }
    machines
        .iter_mut()
        .enumerate()
        .map(|(k, m)| match failed[k] {
            Some(e) => Err(e),
            None => {
                assert!(m.is_finished());
                m.pick_output().unwrap()
            }
        })
        .collect()
}

fn copy_key(k: &LocalKey) -> LocalKey {
    LocalKey {
        shared_keys: k.shared_keys,
        vss_scheme: k.vss_scheme.copy(),
        vk_vec: k.vk_vec.clone(),
        vss_scheme_vec: k.vss_scheme_vec.iter().map(|v| v.copy()).collect(),
        party_i: k.party_i,
        t: k.t,
        n: k.n,
    }
}

fn run_sign(
    keys: &[LocalKey],
    signers: &[usize],
    message: &[u8],
) -> Vec<Result<SigRes, MachineError<SignProceedError>>> {
    run_sign_with(keys, signers, message, &|_| {})
}

fn run_sign_with(
    keys: &[LocalKey],
    signers: &[usize],
    message: &[u8],
    tamper: &dyn Fn(&mut Msg<SignMessage>),
) -> Vec<Result<SigRes, MachineError<SignProceedError>>> {
    let mut machines: Vec<Sign> = signers
        .iter()
        .enumerate()
        .map(|(pos, s)| {
            Sign::new(message.to_vec(), pos as u16 + 1, signers.to_vec(), copy_key(&keys[s - 1]))
                .unwrap()
        })
        .collect();
    let mut failed: Vec<Option<MachineError<SignProceedError>>> = vec![None; signers.len()];
    for _round in 0..6 {
        for (k, m) in machines.iter_mut().enumerate() {
            if failed[k].is_none() {
                if let Err(e) = m.proceed() {
                    failed[k] = Some(e);
                }
            }
        }
        ship_sign(&mut machines, tamper);
    }
    machines
        .iter_mut()
        .enumerate()
        .map(|(k, m)| match failed[k] {
            Some(e) => Err(e),
            None => m.pick_output().unwrap(),
        })
        .collect()
}

#[test]
fn keygen_t2_n5_ends_with_one_public_key() {
    let keys = run_keygen(2, 5);
    assert_eq!(keys.len(), 5);
    let y = keys[0].public_key();
    for (k, key) in keys.iter().enumerate() {
        assert!(key.public_key().equals(&y));
        assert_eq!(usize::from(key.party_i), k + 1);
        assert_eq!(key.t, 2);
        assert_eq!(key.n, 5);
        assert_eq!(key.vk_vec.len(), 5);
        assert_eq!(key.vss_scheme_vec.len(), 5);
    }
    let mut sum = keys[0].vk_vec[0];
    for y_i in keys[0].vk_vec.iter().skip(1) {
        sum = sum.plus(y_i);
    }
    assert!(sum.equals(&y));
}

#[test]
fn sign_t2_n5_with_signers_1_3_4_verifies() {
    let message: [u8; 4] = [0x4F, 0x4D, 0x45, 0x52];
    let keys = run_keygen(2, 5);
    let results = run_sign(&keys, &[1, 3, 4], &message);
    let y = keys[0].public_key();
    let first = results[0].unwrap().signature;
    for r in results.iter() {
        let sig = r.unwrap().signature;
        assert!(verify(&y, &sig.v, &sig.sigma, &message));
        assert_eq!(sig.verify(&message, &y), Ok(()));
        assert!(sig.v.equals(&first.v));
        assert_eq!(sig.sigma.to_bytes(), first.sigma.to_bytes());
    }
}

#[test]
fn sign_with_as_many_signers_as_the_threshold_is_refused() {
    let keys = run_keygen(2, 5);
    let r = Sign::new(vec![1, 2, 3], 1, vec![1, 2], copy_key(&keys[0]));
    assert!(matches!(r, Err(Error::InvalidParameters)));
}

#[test]
fn proceed_before_the_inbox_is_full_is_not_enough_messages() {
    let mut m = Keygen::new(1, 1, 3).unwrap();
    assert_eq!(m.current_round(), 0);
    assert_eq!(m.proceed(), Ok(()));
    assert_eq!(m.current_round(), 1);
    assert!(!m.wants_to_proceed());
    assert_eq!(m.proceed(), Err(MachineError::Driver(Error::NotEnoughMessages)));
    assert_eq!(m.current_round(), 1);
}

#[test]
fn proceed_on_a_finished_or_gone_machine_is_invalid_parameters() {
    let mut machines: Vec<Keygen> = (1..=2).map(|i| Keygen::new(i, 1, 2).unwrap()).collect();
    for _round in 0..3 {
        for m in machines.iter_mut() {
            m.proceed().unwrap();
        }
        ship_keygen(&mut machines, &|_| {});
    }
    let m = &mut machines[0];
    assert!(m.is_finished());
    assert_eq!(m.proceed(), Err(MachineError::Driver(Error::InvalidParameters)));
    assert!(m.pick_output().unwrap().is_ok());
    assert!(!m.is_finished());
    assert_eq!(m.proceed(), Err(MachineError::Driver(Error::InvalidParameters)));
    assert!(matches!(
        m.pick_output(),
        Some(Err(MachineError::Driver(Error::InvalidParameters)))
    ));
    let _unused: Option<KeygenProceedError> = None;
}

#[test]
fn a_changed_public_contribution_fails_round_one_of_all_others() {
    let tamper = |msg: &mut Msg<KeygenMessage>| {
        if msg.sender == 2 {
            if let KeygenBody::Round1(b) = &mut msg.body.0 {
                b.y_i = b.y_i.plus(&Point::generator());
            }
        }
    };
    let results = run_keygen_with(2, 5, &tamper);
    for (k, r) in results.iter().enumerate() {
        if k + 1 == 2 {
            // the party that lied gets through round 1 and then waits in vain
            assert!(matches!(r, Err(MachineError::Driver(Error::NotEnoughMessages))));
        } else {
            assert!(matches!(
                r,
                Err(MachineError::ProceedRound(KeygenProceedError::Round1(
                    Error::InvalidCommitment
                )))
            ));
        }
    }
}

#[test]
fn a_random_share_fails_round_two_of_its_receiver_only() {
    let tamper = |msg: &mut Msg<KeygenMessage>| {
        if msg.sender == 2 && msg.receiver == Some(3) {
            if let KeygenBody::Round2((_, share)) = &mut msg.body.0 {
                *share = Scalar::random();
            }
        }
    };
    let results = run_keygen_with(2, 5, &tamper);
    let y = results[0].as_ref().unwrap().public_key();
    for (k, r) in results.iter().enumerate() {
        if k + 1 == 3 {
            assert!(matches!(
                r,
                Err(MachineError::ProceedRound(KeygenProceedError::Round2(Error::InvalidSS)))
            ));
        } else {
            assert!(r.as_ref().unwrap().public_key().equals(&y));
        }
    }
}

#[test]
fn a_changed_dealing_fails_round_two_of_its_receiver() {
    let tamper = |msg: &mut Msg<KeygenMessage>| {
        if msg.sender == 1 && msg.receiver == Some(2) {
            if let KeygenBody::Round2((vss, _)) = &mut msg.body.0 {
                vss.commitments[1] = vss.commitments[1].plus(&Point::generator());
            }
        }
    };
    let results = run_keygen_with(1, 3, &tamper);
    assert!(results[0].is_ok());
    assert!(matches!(
        results[1],
        Err(MachineError::ProceedRound(KeygenProceedError::Round2(Error::InvalidSS)))
    ));
    assert!(results[2].is_ok());
}

#[test]
fn a_changed_local_signature_fails_round_three_of_all_others() {
    let message = [9u8, 8, 7];
    let keys = run_keygen(1, 3);
    let tamper = |msg: &mut Msg<SignMessage>| {
        if msg.sender == 2 {
            if let SignBody::Round3(l) = &mut msg.body.0 {
                l.gamma_i = l.gamma_i.plus(&l.e);
            }
        }
    };
    let results = run_sign_with(&keys, &[1, 2, 3], &message, &tamper);
    // the signer that lied reads its own local signature as it made it, gets
    // through round 3 and then waits in vain
    assert!(matches!(results[1], Err(MachineError::Driver(Error::NotEnoughMessages))));
    for k in [0usize, 2] {
        assert!(matches!(
            results[k],
            Err(MachineError::ProceedRound(SignProceedError::Round3(Error::InvalidSS)))
        ));
    }
}

#[test]
fn a_changed_nonce_commitment_fails_round_one_of_signing() {
    let keys = run_keygen(1, 3);
    let tamper = |msg: &mut Msg<SignMessage>| {
        if msg.sender == 1 {
            if let SignBody::Round1(b) = &mut msg.body.0 {
                b.decom.push(7);
            }
        }
    };
    let results = run_sign_with(&keys, &[2, 3], &[1], &tamper);
    assert!(matches!(results[0], Err(MachineError::Driver(Error::NotEnoughMessages))));
    assert!(matches!(
        results[1],
        Err(MachineError::ProceedRound(SignProceedError::Round1(Error::InvalidCommitment)))
    ));
}

#[test]
fn a_signer_that_names_another_party_fails_round_one_of_signing() {
    let keys = run_keygen(1, 3);
    let tamper = |msg: &mut Msg<SignMessage>| {
        if msg.sender == 1 {
            if let SignBody::Round1(b) = &mut msg.body.0 {
                b.index = 2;
            }
        }
    };
    let results = run_sign_with(&keys, &[1, 2], &[1], &tamper);
    assert!(matches!(
        results[1],
        Err(MachineError::ProceedRound(SignProceedError::Round1(Error::InvalidParameters)))
    ));
}

#[test]
fn two_of_three_sign_with_each_pair() {
    let keys = run_keygen(1, 3);
    let y = keys[0].public_key();
    for signers in [[1usize, 2], [1, 3], [2, 3], [3, 1]] {
        let message = vec![signers[0] as u8, signers[1] as u8];
        for r in run_sign(&keys, &signers, &message) {
            let sig = r.unwrap().signature;
            assert_eq!(sig.verify(&message, &y), Ok(()));
        }
    }
}

#[test]
fn a_machine_is_made_for_a_party_among_at_least_two() {
    assert!(Keygen::new(1, 1, 2).is_ok());
    assert!(Keygen::new(5, 2, 5).is_ok());
    assert!(Keygen::new(5, 4, 5).is_ok());
    for (i, t, n) in [(0u16, 1u16, 2u16), (3, 1, 2), (1, 0, 2), (1, 2, 2), (1, 1, 1), (1, 5, 5), (1, 0, 0)] {
        assert!(matches!(Keygen::new(i, t, n), Err(Error::InvalidParameters)));
    }
    let m = Keygen::new(2, 1, 3).unwrap();
    assert_eq!(m.party_ind(), 2);
    assert_eq!(m.parties(), 3);
    assert_eq!(m.current_round(), 0);
    assert_eq!(m.total_rounds(), Some(2));
    assert!(m.wants_to_proceed());
    assert!(!m.is_finished());
}

#[test]
fn a_signing_machine_is_made_for_enough_different_signers() {
    let keys = run_keygen(2, 5);
    let make = |i: u16, parties: Vec<usize>| Sign::new(vec![1], i, parties, copy_key(&keys[0]));
    assert!(make(1, vec![1, 3, 4]).is_ok());
    assert!(make(4, vec![1, 2, 3, 5]).is_ok());
    assert!(matches!(make(0, vec![1, 3, 4]), Err(Error::InvalidParameters)));
    assert!(matches!(make(4, vec![1, 3, 4]), Err(Error::InvalidParameters)));
    assert!(matches!(make(1, vec![1, 3]), Err(Error::InvalidParameters)));
    assert!(matches!(make(1, vec![1, 3, 3]), Err(Error::InvalidParameters)));
    assert!(matches!(make(1, vec![1, 3, 6]), Err(Error::InvalidParameters)));
    assert!(matches!(make(1, vec![0, 3, 4]), Err(Error::InvalidParameters)));
    assert!(matches!(make(1, vec![]), Err(Error::InvalidParameters)));
    let m = make(2, vec![1, 3, 4]).unwrap();
    assert_eq!(m.party_ind(), 2);
    assert_eq!(m.parties(), 3);
    assert_eq!(m.current_round(), 0);
    assert_eq!(m.total_rounds(), Some(5));
}

#[test]
fn round_zero_queues_one_broadcast_that_opens() {
    let mut m = Keygen::new(2, 1, 3).unwrap();
    assert!(m.message_queue().is_empty());
    m.proceed().unwrap();
    let queue = m.message_queue();
    assert_eq!(queue.len(), 1);
    assert!(m.message_queue().is_empty());
    assert_eq!(queue[0].sender, 2);
    assert_eq!(queue[0].receiver, None);
    match &queue[0].body.0 {
        KeygenBody::Round1(b) => {
            assert_eq!(b.index, 1);
            assert_eq!(b.comm.com, multi_party_schnorr::hashing::commit(&b.y_i, &b.decom));
        }
        _ => panic!("round 0 queues a first-phase broadcast"),
    }
}

#[test]
fn round_one_queues_a_share_for_each_peer_in_order() {
    let mut machines: Vec<Keygen> = (1..=4).map(|i| Keygen::new(i, 2, 4).unwrap()).collect();
    for m in machines.iter_mut() {
        m.proceed().unwrap();
    }
    ship_keygen(&mut machines, &|_| {});
    let m = &mut machines[2];
    assert!(m.wants_to_proceed());
    m.proceed().unwrap();
    assert_eq!(m.current_round(), 2);
    let queue = m.message_queue();
    assert_eq!(queue.len(), 3);
    for (msg, to) in queue.iter().zip([1u16, 2, 4]) {
        assert_eq!(msg.sender, 3);
        assert_eq!(msg.receiver, Some(to));
        match &msg.body.0 {
            KeygenBody::Round2((vss, share)) => {
                assert_eq!(vss.parameters.threshold, 2);
                assert_eq!(vss.parameters.share_count, 4);
                assert_eq!(vss.commitments.len(), 3);
                assert!(vss.validate_share(share, to));
            }
            _ => panic!("round 1 queues shares"),
        }
    }
}

#[test]
fn the_inbox_refuses_what_is_not_a_peers_first_message() {
    let mut a = Keygen::new(1, 1, 3).unwrap();
    let mut b = Keygen::new(2, 1, 3).unwrap();
    let mut c = Keygen::new(3, 1, 3).unwrap();
    a.proceed().unwrap();
    b.proceed().unwrap();
    c.proceed().unwrap();
    let from_a = a.message_queue().pop().unwrap();
    let from_c = c.message_queue().pop().unwrap();
    assert_eq!(b.message_queue().len(), 1);
    let refused = Err(MachineError::Driver(Error::InvalidParameters));
    let again = |m: &Msg<KeygenMessage>, sender: u16, receiver: Option<u16>| Msg {
        sender,
        receiver,
        body: copy_keygen(&m.body),
    };
    // a broadcast that is addressed to one party
    assert_eq!(b.handle_incoming(again(&from_a, 1, Some(2))), refused);
    // from nobody, from the party itself, from a party that does not exist
    assert_eq!(b.handle_incoming(again(&from_a, 0, None)), refused);
    assert_eq!(b.handle_incoming(again(&from_a, 2, None)), refused);
    assert_eq!(b.handle_incoming(again(&from_a, 4, None)), refused);
    assert!(!b.wants_to_proceed());
    // the first message of a peer
    assert_eq!(b.handle_incoming(again(&from_a, 1, None)), Ok(()));
    // a second message of the same peer
    assert_eq!(b.handle_incoming(again(&from_a, 1, None)), refused);
    assert!(!b.wants_to_proceed());
    assert_eq!(b.proceed(), Err(MachineError::Driver(Error::NotEnoughMessages)));
    assert_eq!(b.handle_incoming(again(&from_c, 3, None)), Ok(()));
    assert!(b.wants_to_proceed());
    assert_eq!(b.proceed(), Ok(()));
    // the inbox of round 1 is gone
    assert_eq!(b.handle_incoming(again(&from_a, 3, None)), refused);
    // a share that is addressed to another party, or broadcast
    let share = b.message_queue().remove(0);
    assert_eq!(share.receiver, Some(1));
    assert_eq!(b.handle_incoming(again(&share, 1, Some(3))), refused);
    assert_eq!(b.handle_incoming(again(&share, 1, None)), refused);
    assert_eq!(b.handle_incoming(again(&share, 1, Some(2))), Ok(()));
    assert_eq!(b.handle_incoming(again(&share, 1, Some(2))), refused);
}

#[test]
fn nothing_is_picked_before_the_end() {
    let mut m = Keygen::new(1, 1, 2).unwrap();
    assert!(m.pick_output().is_none());
    m.proceed().unwrap();
    assert!(m.pick_output().is_none());
    assert_eq!(m.current_round(), 1);
}

#[test]
fn signing_waits_for_every_round() {
    let keys = run_keygen(1, 2);
    let mut machines: Vec<Sign> = (1..=2u16)
        .map(|i| Sign::new(vec![7, 7], i, vec![1, 2], copy_key(&keys[usize::from(i) - 1])).unwrap())
        .collect();
    for round in 0..6u16 {
        for m in machines.iter_mut() {
            assert_eq!(m.current_round(), round);
            assert!(m.wants_to_proceed());
            assert_eq!(m.proceed(), Ok(()));
            if round < 5 {
                assert!(!m.wants_to_proceed());
                assert_eq!(m.proceed(), Err(MachineError::Driver(Error::NotEnoughMessages)));
                assert_eq!(m.current_round(), round + 1);
                assert!(m.pick_output().is_none());
            }
        }
        ship_sign(&mut machines, &|_| {});
    }
    for m in machines.iter_mut() {
        assert!(m.is_finished());
        assert_eq!(m.current_round(), 6);
        assert_eq!(m.proceed(), Err(MachineError::Driver(Error::InvalidParameters)));
        let sig = m.pick_output().unwrap().unwrap().signature;
        assert_eq!(sig.verify(&[7, 7], &keys[0].public_key()), Ok(()));
        assert_eq!(m.proceed(), Err(MachineError::Driver(Error::InvalidParameters)));
        assert!(matches!(
            m.pick_output(),
            Some(Err(MachineError::Driver(Error::InvalidParameters)))
        ));
    }
}

#[test]
fn a_false_verdict_fails_round_five_of_all_others() {
    let keys = run_keygen(1, 3);
    let tamper = |msg: &mut Msg<SignMessage>| {
        if msg.sender == 3 {
            if let SignBody::Round5(v) = &mut msg.body.0 {
                *v = false;
            }
        }
    };
    let results = run_sign_with(&keys, &[1, 2, 3], &[5, 5], &tamper);
    for k in [0usize, 1] {
        assert!(matches!(
            results[k],
            Err(MachineError::ProceedRound(SignProceedError::Round5(Error::InvalidSig)))
        ));
    }
    assert!(results[2].is_ok());
}

#[test]
fn a_changed_commitment_makes_its_receivers_say_no() {
    let keys = run_keygen(1, 3);
    let tamper = |msg: &mut Msg<SignMessage>| {
        if msg.sender == 1 {
            if let SignBody::Round4(c) = &mut msg.body.0 {
                *c = c.plus(&Point::generator());
            }
        }
    };
    let results = run_sign_with(&keys, &[1, 2, 3], &[5, 5], &tamper);
    // signers 2 and 3 find their local signatures off the changed commitments
    // and say so; everybody reads a false verdict
    for r in results.iter() {
        assert!(matches!(
            r,
            Err(MachineError::ProceedRound(SignProceedError::Round5(Error::InvalidSig)))
        ));
    }
}

#[test]
fn rounds_three_and_four_queue_a_commitment_and_a_verdict() {
    let keys = run_keygen(1, 3);
    let signers = vec![1usize, 2, 3];
    let mut machines: Vec<Sign> = (1..=3u16)
        .map(|i| Sign::new(vec![1], i, signers.clone(), copy_key(&keys[usize::from(i) - 1])).unwrap())
        .collect();
    for _round in 0..3 {
        for m in machines.iter_mut() {
            m.proceed().unwrap();
        }
        ship_sign(&mut machines, &|_| {});
    }
    let mut commitments = Vec::new();
    for m in machines.iter_mut() {
        assert_eq!(m.current_round(), 3);
        m.proceed().unwrap();
        let mut queue = m.message_queue();
        assert_eq!(queue.len(), 1);
        let msg = queue.pop().unwrap();
        assert_eq!(msg.receiver, None);
        match msg.body.0 {
            SignBody::Round4(c) => commitments.push(c),
            _ => panic!("round 3 queues a commitment"),
        }
    }
    // with a threshold of one the polynomial has two coefficients: the third
    // signer commits to zero
    assert_eq!(commitments[2].to_bytes(), [0u8; 33]);
    assert_ne!(commitments[0].to_bytes(), [0u8; 33]);
    assert_ne!(commitments[1].to_bytes(), [0u8; 33]);
    for (k, m) in machines.iter_mut().enumerate() {
        for (j, c) in commitments.iter().enumerate() {
            if j != k {
                let msg = Msg {
                    sender: j as u16 + 1,
                    receiver: None,
                    body: SignMessage(SignBody::Round4(*c)),
                };
                assert_eq!(m.handle_incoming(msg), Ok(()));
            }
        }
        assert_eq!(m.proceed(), Ok(()));
        let queue = m.message_queue();
        assert_eq!(queue.len(), 1);
        assert!(matches!(queue[0].body.0, SignBody::Round5(true)));
    }
}
