//! What holds of the protocols whatever the parties receive.

use crate::curve::{ec_mul, generator_encoding, group_order, Scalar};
use crate::error::Error;
use crate::hashing::commitment_to;
use crate::keygen::rounds::{
    all_open, contributions, BroadcastPhase1, LocalKey, ProceedError, Round0, Round1, Round2,
};
use crate::keygen::rounds::{including_me, peer};
use crate::party_i::{point_sum, scalar_sum, signature_valid, total};
use crate::store::{slot_of, takes, Msg};
use crate::vss::{encodings, share_valid, vss_point_valid, VerifiableSS};
use vstd::arithmetic::div_mod::{lemma_add_mod_noop, lemma_mod_bound, lemma_small_mod};
use vstd::arithmetic::mul::lemma_mul_is_distributive_add;
use vstd::prelude::*;

verus! {

/// Agreement on the joint key: two parties that have read the same
/// first-phase broadcasts, however they stand among the parties, and that
/// both finish key generation hold the same joint public key, the sum of the
/// public contributions in the broadcasts.
pub proof fn law_keygen_agreement(
    a1: Round1,
    a_peers: Seq<BroadcastPhase1>,
    a2: Round2,
    a_sent: Seq<Msg<(VerifiableSS, Scalar)>>,
    a_shares: Seq<(VerifiableSS, Scalar)>,
    a_key: LocalKey,
    b1: Round1,
    b_peers: Seq<BroadcastPhase1>,
    b2: Round2,
    b_sent: Seq<Msg<(VerifiableSS, Scalar)>>,
    b_shares: Seq<(VerifiableSS, Scalar)>,
    b_key: LocalKey,
)
    requires
        a1.received(a_peers) == b1.received(b_peers),
        a1.leads_to(a_peers, a2, a_sent),
        b1.leads_to(b_peers, b2, b_sent),
        a2.leads_to(a_shares, a_key),
        b2.leads_to(b_shares, b_key),
    ensures
        a_key.shared_keys.y@ == b_key.shared_keys.y@,
        a_key.shared_keys.y@ == point_sum(encodings(contributions(a1.received(a_peers)))),
{
}

/// An honest dealer passes the check: every share that a party sends in
/// round 1 lies on the polynomial of the dealing it is sent with, at the
/// point that the receiving peer named, and the constant commitment of the
/// dealing is the public contribution that the party broadcast.
pub proof fn law_dealt_shares_are_valid(
    r0: Round0,
    r1: Round1,
    peers: Seq<BroadcastPhase1>,
    r2: Round2,
    sent: Seq<Msg<(VerifiableSS, Scalar)>>,
    k: int,
)
    requires
        r0.leads_to(r1),
        r1.leads_to(peers, r2, sent),
        0 <= k < sent.len(),
    ensures
        share_valid(sent[k].body.0@.commitments, sent[k].body.1@, (peers[k].index + 1) as u16),
        sent[k].body.0@.commitments[0] == r1.mybroadcast.y_i@,
        sent[k].body.0@.commitments[0] == ec_mul(generator_encoding(), r1.keys.u_i@),
{
}

/// The commitment binds: where a broadcast that round 1 reads carries a
/// public contribution other than the one `y` that its commitment was made
/// to, and the hash tells the two apart under the broadcast's blinding
/// factor, the round fails with `InvalidCommitment`.
pub proof fn law_commitment_binds(r1: Round1, peers: Seq<BroadcastPhase1>, j: int, y: Seq<u8>)
    requires
        r1.inputs_valid(peers),
        0 <= j < r1.received(peers).len(),
        r1.received(peers)[j].comm@ == commitment_to(y, r1.received(peers)[j].decom@),
        commitment_to(r1.received(peers)[j].y_i@, r1.received(peers)[j].decom@) != commitment_to(
            y,
            r1.received(peers)[j].decom@,
        ),
    ensures
        !r1.accepts(peers),
        r1.failure(peers) == ProceedError::Round1(Error::InvalidCommitment),
{
    assert(!r1.received(peers)[j].opens());
    assert(!all_open(r1.received(peers)));
}

/// Shares are sound: where one of the shares that round 2 reads does not lie
/// on the polynomial of the dealing it came with, at this party's point, the
/// round fails with `InvalidSS`. What other parties read is not part of the
/// round's input and does not bear on it.
pub proof fn law_tampered_share_is_refused(
    r2: Round2,
    peers: Seq<(VerifiableSS, Scalar)>,
    j: int,
)
    requires
        r2.inputs_valid(peers),
        0 <= j < r2.received(peers).len(),
        !share_valid(
            r2.received(peers)[j].0@.commitments,
            r2.received(peers)[j].1@,
            (r2.index + 1) as u16,
        ),
    ensures
        !r2.accepts(peers),
        r2.failure(peers) == ProceedError::Round2(Error::InvalidSS),
{
}

/// Local signatures bind: where the `gamma_i` of one of the local signatures
/// that round 3 of signing reads does not lie on the jointly committed
/// polynomial at its signer's point, the round fails with `InvalidSS`.
pub proof fn law_tampered_local_sig_is_refused(
    r3: crate::sign::rounds::Round3,
    peers: Seq<crate::party_i::LocalSig>,
    i: int,
)
    requires
        r3.inputs_valid(peers),
        0 <= i < r3.parties.len(),
        !vss_point_valid(
            r3.commitments(peers),
            ec_mul(generator_encoding(), r3.received(peers)[i].gamma_i@),
            r3.parties[i] as u16,
        ),
    ensures
        !r3.accepts(peers),
        r3.failure(peers) == crate::sign::rounds::ProceedError::Round3(Error::InvalidSS),
{
    let points = crate::sign::rounds::zero_based(r3.parties@);
    assert(points[i] + 1 == r3.parties[i]);
    assert(r3.received(peers)[i].gamma_i@ == r3.received(peers)[i].gamma_i@);
}

/// A false verdict ends the run: where one of the verdicts that round 5 of
/// signing reads is false, the round fails with `InvalidSig`.
pub proof fn law_false_verdict_is_refused(
    r5: crate::sign::rounds::Round5,
    peers: Seq<bool>,
    k: int,
)
    requires
        r5.inputs_valid(peers),
        0 <= k < r5.received(peers).len(),
        !r5.received(peers)[k],
    ensures
        !r5.accepts(peers),
        r5.failure(peers) == crate::sign::rounds::ProceedError::Round5(Error::InvalidSig),
{
}

/// What signing hands out is a signature: the nonce point `R` and the
/// scalar `sigma` of a signing run that ends satisfy
/// `G · sigma == R + H(R ‖ Y ‖ m) · Y` for the joint public key `Y` and the
/// message `m` of the run.
pub proof fn law_signing_ends_with_a_valid_signature(
    r5: crate::sign::rounds::Round5,
    peers: Seq<bool>,
    res: crate::sign::rounds::SigRes,
)
    requires
        r5.leads_to(peers, res),
    ensures
        signature_valid(
            r5.private_key.shared_keys.y@,
            res.signature.v@,
            res.signature.sigma@,
            r5.message@,
        ),
        res.signature.v == r5.tmpkey.shared_keys.y,
{
}

/// Verification is a function of its inputs: the same public key, nonce
/// point, scalar and message are accepted together or refused together.
pub proof fn law_verification_is_a_function(
    y_a: Seq<u8>,
    r_a: Seq<u8>,
    sigma_a: nat,
    message_a: Seq<u8>,
    y_b: Seq<u8>,
    r_b: Seq<u8>,
    sigma_b: nat,
    message_b: Seq<u8>,
)
    requires
        y_a == y_b,
        r_a == r_b,
        sigma_a == sigma_b,
        message_a == message_b,
    ensures
        signature_valid(y_a, r_a, sigma_a, message_a) == signature_valid(
            y_b,
            r_b,
            sigma_b,
            message_b,
        ),
{
}

/// An inbox takes messages from peers only: from a party other than its
/// owner among the parties that it has slots for.
pub proof fn law_inbox_takes_peers_only<B>(slots: Seq<Option<B>>, owner: u16, sender: u16)
    requires
        owner >= 1,
        takes(slots, owner, sender),
    ensures
        1 <= sender <= slots.len() + 1,
        sender != owner,
{
}

/// An inbox takes one message from each peer: once it has taken a message
/// from a sender, it takes no other from that sender, and what it held from
/// the other senders stays.
pub proof fn law_inbox_refuses_a_second_message<B>(
    slots: Seq<Option<B>>,
    owner: u16,
    sender: u16,
    body: B,
)
    requires
        owner >= 1,
        takes(slots, owner, sender),
    ensures
        !takes(slots.update(slot_of(sender, owner), Some(body)), owner, sender),
        forall|other: u16|
            other != sender && 1 <= other && other != owner && slot_of(other, owner) < slots.len()
                ==> slots.update(slot_of(sender, owner), Some(body))[slot_of(other, owner)]
                == slots[slot_of(other, owner)],
{
}

/// The input of a round holds the party's own message at the party's place
/// and the peers' messages around it, in the order of their indices.
pub proof fn law_own_message_stands_at_own_place<B>(peers: Seq<B>, party_i: u16, own: B)
    requires
        1 <= party_i <= peers.len() + 1,
    ensures
        including_me(peers, party_i, own).len() == peers.len() + 1,
        including_me(peers, party_i, own)[party_i - 1] == own,
        forall|k: int|
            0 <= k < peers.len() ==> #[trigger] including_me(peers, party_i, own)[peer(k, party_i)
                - 1] == peers[k],
{
}

/// The parts of an n-of-n signature: `y_i = x_i + e · i_i` for each signer.
pub open spec fn signature_parts(xs: Seq<nat>, is: Seq<nat>, e: nat) -> Seq<nat> {
    Seq::new(xs.len(), |k: int| (xs[k] + e * is[k]) % group_order())
}

/// The parts of an n-of-n signature add up to the part of the sums: the sum
/// of the `y_i = x_i + e · i_i` is `Σ x_i + e · Σ i_i` modulo the group
/// order.
pub proof fn law_signature_parts_add_up(xs: Seq<nat>, is: Seq<nat>, e: nat)
    requires
        xs.len() == is.len(),
    ensures
        scalar_sum(signature_parts(xs, is, e)) == (total(xs) + e * total(is)) % group_order(),
    decreases xs.len(),
{
    let q: int = group_order() as int;
    let parts = signature_parts(xs, is, e);
    if xs.len() == 0 {
        assert(total(parts) == 0);
        assert(total(xs) == 0);
        assert(total(is) == 0);
        assert(e * 0 == 0) by (nonlinear_arith);
    } else {
        let n = xs.len() - 1;
        law_signature_parts_add_up(xs.drop_last(), is.drop_last(), e);
        assert(parts.drop_last() =~= signature_parts(xs.drop_last(), is.drop_last(), e));
        let before: int = total(parts.drop_last()) as int;
        let sums: int = (total(xs.drop_last()) + e * total(is.drop_last())) as int;
        let last: int = (xs[n] + e * is[n]) as int;
        assert(before % q == sums % q);
        assert(parts.last() == last % q);
        assert(total(parts) == before + last % q);
        assert(total(xs) == total(xs.drop_last()) + xs[n]);
        assert(total(is) == total(is.drop_last()) + is[n]);
        assert(e * total(is) == e * total(is.drop_last()) + e * is[n]) by {
            lemma_mul_is_distributive_add(e as int, total(is.drop_last()) as int, is[n] as int);
        }
        assert(total(xs) + e * total(is) == sums + last);
        lemma_add_mod_noop(before, last % q, q);
        lemma_add_mod_noop(sums, last, q);
        lemma_mod_bound(last, q);
        lemma_small_mod((last % q) as nat, q as nat);
        assert((before + last % q) % q == (sums + last) % q);
    }
}

} // verus!
