//! The rounds of distributed key generation.

use crate::curve::{ec_mul, generator_encoding, Point, Scalar};
use crate::error::Error;
use crate::hashing::{commitment_to, copy_bytes};
use crate::party_i::{
    construct_inputs_valid, indices_valid, openings_match, point_sum,
    scalar_sum, shares_match, KeyGenBroadcastMessage1, Keys, Parameters, SharedKeys,
};
use crate::store::{
    broadcast_owner, broadcast_slots, broadcast_store_new, direct_owner, direct_slots,
    direct_store_new, no_messages, views, Body, Msg,
};
use crate::vss::{encodings, numbers, share_valid, VerifiableSS, VssView};
use round_based::containers::BroadcastMsgsStore;
use round_based::containers::P2PMsgsStore;
use vstd::prelude::*;

verus! {

/// What a party broadcasts first: the commitment to its public contribution
/// `y_i`, the blinding factor that opens it, `y_i` itself and the party's
/// 0-based index.
#[derive(Clone, Debug)]
pub struct BroadcastPhase1 {
    pub comm: KeyGenBroadcastMessage1,
    pub decom: Vec<u8>,
    pub y_i: Point,
    pub index: usize,
}

/// What a first-phase broadcast says.
pub struct Phase1View {
    pub comm: Seq<u8>,
    pub decom: Seq<u8>,
    pub y_i: Seq<u8>,
    pub index: usize,
}

impl View for BroadcastPhase1 {
    type V = Phase1View;

    open spec fn view(&self) -> Phase1View {
        Phase1View { comm: self.comm@, decom: self.decom@, y_i: self.y_i@, index: self.index }
    }
}

impl BroadcastPhase1 {
    /// Whether the blinding factor opens the commitment to `y_i`.
    pub open spec fn opens(self) -> bool {
        self.comm@ == commitment_to(self.y_i@, self.decom@)
    }

    /// A copy of the message.
    pub fn copy(&self) -> (r: BroadcastPhase1)
        ensures
            r@ == self@,
            r.y_i == self.y_i,
    {
        BroadcastPhase1 {
            comm: KeyGenBroadcastMessage1 { com: copy_bytes(&self.comm.com) },
            decom: copy_bytes(&self.decom),
            y_i: self.y_i,
            index: self.index,
        }
    }
}

/// The messages of a round with the party's own among them: the peers'
/// messages stand in the order of their indices, and `own` goes where
/// party `party_i` belongs.
pub open spec fn including_me<B>(peers: Seq<B>, party_i: u16, own: B) -> Seq<B> {
    peers.insert(party_i - 1, own)
}

/// The 1-based index of the peer whose message is the `k`-th that party
/// `party_i` sends or receives.
pub open spec fn peer(k: int, party_i: u16) -> int {
    if k < party_i - 1 {
        k + 1
    } else {
        k + 2
    }
}

/// Whether every message opens its commitment.
pub open spec fn all_open(received: Seq<BroadcastPhase1>) -> bool {
    forall|j: int| 0 <= j < received.len() ==> (#[trigger] received[j]).opens()
}

/// Whether every message names a party among `n` and no two name the same.
pub open spec fn indices_in_range(received: Seq<BroadcastPhase1>, n: int) -> bool {
    &&& forall|j: int| 0 <= j < received.len() ==> (#[trigger] received[j]).index < n
    &&& forall|i: int, j: int|
        0 <= i < j < received.len() ==> (#[trigger] received[i]).index != (
        #[trigger] received[j]).index
}

/// The public contributions that the messages carry.
pub open spec fn contributions(received: Seq<BroadcastPhase1>) -> Seq<Point> {
    received.map_values(|m: BroadcastPhase1| m.y_i)
}

/// The dealings that the messages carry.
pub open spec fn dealings(received: Seq<(VerifiableSS, Scalar)>) -> Seq<VssView> {
    received.map_values(|m: (VerifiableSS, Scalar)| m.0@)
}

/// The shares that the messages carry.
pub open spec fn dealt_shares(received: Seq<(VerifiableSS, Scalar)>) -> Seq<nat> {
    received.map_values(|m: (VerifiableSS, Scalar)| m.1@)
}

/// Whether every share lies on the polynomial of the dealing it came with,
/// at `index`, and every dealing's constant commitment is its dealer's public
/// contribution.
pub open spec fn all_shares_valid(
    ys: Seq<Point>,
    received: Seq<(VerifiableSS, Scalar)>,
    index: u16,
) -> bool {
    forall|j: int|
        0 <= j < received.len() ==> {
            &&& share_valid((#[trigger] received[j]).0@.commitments, received[j].1@, index)
            &&& received[j].0@.commitments[0] == ys[j]@
        }
}

/// Whether every dealing holds a commitment at least.
pub open spec fn all_committed(received: Seq<(VerifiableSS, Scalar)>) -> bool {
    forall|j: int| 0 <= j < received.len() ==> (#[trigger] received[j]).0@.commitments.len() >= 1
}

/// The start of key generation: party `party_i` of `n`, with threshold `t`.
pub struct Round0 {
    pub party_i: u16,
    pub t: u16,
    pub n: u16,
    pub parties: Vec<usize>,
}

/// The party has broadcast its commitment and waits for its peers'.
pub struct Round1 {
    pub keys: Keys,
    pub mybroadcast: BroadcastPhase1,
    pub party_i: u16,
    pub t: u16,
    pub n: u16,
    pub parties: Vec<usize>,
}

/// The party has dealt its secret and waits for its peers' shares.
pub struct Round2 {
    pub keys: Keys,
    pub index: usize,
    pub own_vss: VerifiableSS,
    pub own_share: Scalar,
    pub y_vec: Vec<Point>,
    pub party_i: u16,
    pub t: u16,
    pub n: u16,
    pub parties: Vec<usize>,
}

/// What a party holds when key generation is over: its share of the joint
/// secret, the joint public key, and every party's public contribution and
/// dealing.
#[derive(Clone, Debug)]
pub struct LocalKey {
    pub shared_keys: SharedKeys,
    pub vss_scheme: VerifiableSS,
    pub vk_vec: Vec<Point>,
    pub vss_scheme_vec: Vec<VerifiableSS>,
    pub party_i: u16,
    pub t: u16,
    pub n: u16,
}

/// The round of key generation that failed, and why.
#[derive(Clone, Copy, Debug, PartialEq, Eq, Structural)]
pub enum ProceedError {
    Round0(Error),
    Round1(Error),
    Round2(Error),
}

impl Round0 {
    /// Whether the round can proceed: the party is one of the `n`.
    pub open spec fn accepts(self) -> bool {
        1 <= self.party_i <= self.n
    }

    /// Whether `next` is a state that this round may lead to: it holds a
    /// key pair for the party and the broadcast that commits to the public
    /// half and opens the commitment.
    pub open spec fn leads_to(self, next: Round1) -> bool {
        &&& next.party_i == self.party_i
        &&& next.t == self.t
        &&& next.n == self.n
        &&& next.parties == self.parties
        &&& next.keys.wf()
        &&& next.keys.party_index == self.party_i - 1
        &&& next.mybroadcast.y_i == next.keys.y_i
        &&& next.mybroadcast.index == next.keys.party_index
        &&& next.mybroadcast.opens()
    }

    /// The broadcast that the round queues on its way to `next`.
    pub open spec fn announces(self, next: Round1) -> Msg<Phase1View> {
        Msg { sender: self.party_i, receiver: None, body: next.mybroadcast@ }
    }

    /// Draws the party's key pair, commits to the public half and queues the
    /// broadcast of commitment, opening and public half.
    pub fn proceed(self, output: &mut Vec<Msg<BroadcastPhase1>>) -> (r: Result<
        Round1,
        ProceedError,
    >)
        ensures
            r is Ok <==> self.accepts(),
            r matches Err(e) ==> e == ProceedError::Round0(Error::InvalidParameters)
                && final(output)@ == old(output)@,
            r matches Ok(next) ==> self.leads_to(next) && views(final(output)@) == views(
                old(output)@,
            ).push(self.announces(next)),
    {
        if self.party_i < 1 || self.party_i > self.n {
            return Err(ProceedError::Round0(Error::InvalidParameters));
        }
        let keys = Keys::phase1_create(self.party_i as usize - 1);
        let (comm, decom) = keys.phase1_broadcast();
        let mybroadcast = BroadcastPhase1 { comm, decom, y_i: keys.y_i, index: keys.party_index };
        let body = mybroadcast.copy();
        let ghost before = output@;
        let msg = Msg { sender: self.party_i, receiver: None, body };
        output.push(msg);
        assert(views(output@) =~= views(before).push(msg@));
        Ok(
            Round1 {
                keys,
                mybroadcast,
                party_i: self.party_i,
                t: self.t,
                n: self.n,
                parties: self.parties,
            },
        )
    }

    /// A hint to the driver: the round computes on the curve.
    pub fn is_expensive(&self) -> (r: bool)
        ensures
            r,
    {
        true
    }
}

impl Round1 {
    /// The first-phase broadcasts of all parties, this party's own among
    /// the `peers`'.
    pub open spec fn received(self, peers: Seq<BroadcastPhase1>) -> Seq<BroadcastPhase1> {
        including_me(peers, self.party_i, self.mybroadcast)
    }

    /// What the round asks of itself and its input when the parties that
    /// may take part are `1..=limit`: the party is one of the `n`, every
    /// peer has sent its broadcast, the threshold is below `n`, and the
    /// broadcasts name `n` different parties among the `limit`.
    pub open spec fn inputs_valid_within(self, limit: u16, peers: Seq<BroadcastPhase1>) -> bool {
        &&& 1 <= self.party_i <= self.n
        &&& peers.len() + 1 == self.n
        &&& self.t < self.n
        &&& indices_in_range(self.received(peers), limit as int)
    }

    /// Whether the round proceeds on the peers' broadcasts when the
    /// parties that may take part are `1..=limit`: the input is valid and
    /// every opening fits its commitment.
    pub open spec fn accepts_within(self, limit: u16, peers: Seq<BroadcastPhase1>) -> bool {
        self.inputs_valid_within(limit, peers) && all_open(self.received(peers))
    }

    /// The error that the round fails with where it does not proceed.
    pub open spec fn failure_within(self, limit: u16, peers: Seq<BroadcastPhase1>) -> ProceedError {
        ProceedError::Round1(
            if self.inputs_valid_within(limit, peers) {
                Error::InvalidCommitment
            } else {
                Error::InvalidParameters
            },
        )
    }

    /// What `proceed` asks of the round and its input: in key generation
    /// the parties that take part are `1..=n`.
    pub open spec fn inputs_valid(self, peers: Seq<BroadcastPhase1>) -> bool {
        self.inputs_valid_within(self.n, peers)
    }

    /// Whether the round proceeds on the peers' broadcasts.
    pub open spec fn accepts(self, peers: Seq<BroadcastPhase1>) -> bool {
        self.accepts_within(self.n, peers)
    }

    /// The error that the round fails with where it does not proceed.
    pub open spec fn failure(self, peers: Seq<BroadcastPhase1>) -> ProceedError {
        self.failure_within(self.n, peers)
    }

    /// Whether `next` and the messages `sent` are what this round may lead
    /// to on the peers' broadcasts: `next` holds a dealing of this party's
    /// secret `u_i` with threshold `t` and the party's own share of it, and
    /// `sent` holds, for each peer in the order of the peers' indices, the
    /// dealing and the share that is valid at the point the peer named.
    pub open spec fn leads_to(
        self,
        peers: Seq<BroadcastPhase1>,
        next: Round2,
        sent: Seq<Msg<(VerifiableSS, Scalar)>>,
    ) -> bool {
        &&& next.keys == self.keys
        &&& next.index == self.keys.party_index
        &&& next.party_i == self.party_i
        &&& next.t == self.t
        &&& next.n == self.n
        &&& next.parties == self.parties
        &&& next.y_vec@ == contributions(self.received(peers))
        &&& next.own_vss@.threshold == self.t
        &&& next.own_vss@.share_count == self.n
        &&& next.own_vss@.commitments.len() == self.t + 1
        &&& next.own_vss@.commitments[0] == ec_mul(generator_encoding(), self.keys.u_i@)
        &&& share_valid(
            next.own_vss@.commitments,
            next.own_share@,
            (self.mybroadcast.index + 1) as u16,
        )
        &&& sent.len() == self.n - 1
        &&& forall|k: int|
            0 <= k < sent.len() ==> {
                let m = #[trigger] sent[k];
                &&& m.sender == self.party_i
                &&& m.receiver == Some(peer(k, self.party_i) as u16)
                &&& m.body.0@ == next.own_vss@
                &&& share_valid(next.own_vss@.commitments, m.body.1@, (peers[k].index + 1) as u16)
            }
    }

    /// Checks that every party's opening fits its commitment, deals this
    /// party's secret with threshold `t` and queues a share for each peer.
    /// `input` holds the peers' broadcasts in the order of their indices.
    pub fn proceed(
        self,
        input: Vec<BroadcastPhase1>,
        output: &mut Vec<Msg<(VerifiableSS, Scalar)>>,
    ) -> (r: Result<Round2, ProceedError>)
        ensures
            r is Ok <==> self.accepts(input@),
            r matches Err(e) ==> final(output)@ == old(output)@ && e == self.failure(input@),
            r matches Ok(next) ==> {
                &&& final(output)@.len() == old(output)@.len() + self.n - 1
                &&& final(output)@.subrange(0, old(output)@.len() as int) == old(output)@
                &&& self.leads_to(
                    input@,
                    next,
                    final(output)@.subrange(
                        old(output)@.len() as int,
                        final(output)@.len() as int,
                    ),
                )
            },
    {
        let limit = self.n;
        self.proceed_within(limit, input, output)
    }

    /// Does the round's work when the parties that may take part are
    /// `1..=limit`, of which the `n` parties of this run are a part.
    pub fn proceed_within(
        self,
        limit: u16,
        input: Vec<BroadcastPhase1>,
        output: &mut Vec<Msg<(VerifiableSS, Scalar)>>,
    ) -> (r: Result<Round2, ProceedError>)
        ensures
            r is Ok <==> self.accepts_within(limit, input@),
            r matches Err(e) ==> final(output)@ == old(output)@ && e == self.failure_within(
                limit,
                input@,
            ),
            r matches Ok(next) ==> {
                &&& final(output)@.len() == old(output)@.len() + self.n - 1
                &&& final(output)@.subrange(0, old(output)@.len() as int) == old(output)@
                &&& self.leads_to(
                    input@,
                    next,
                    final(output)@.subrange(
                        old(output)@.len() as int,
                        final(output)@.len() as int,
                    ),
                )
            },
    {
        let n = self.n as usize;
        if self.party_i < 1 || self.party_i > self.n || input.len() != n - 1 || self.t >= self.n {
            return Err(ProceedError::Round1(Error::InvalidParameters));
        }
        let me = self.party_i as usize - 1;
        let ghost peers = input@;
        let ghost received = self.received(peers);
        let mut all = input;
        all.insert(me, self.mybroadcast);
        assert(all@ == received);
        let mut a: Vec<KeyGenBroadcastMessage1> = Vec::new();
        let mut b: Vec<Vec<u8>> = Vec::new();
        let mut c: Vec<Point> = Vec::new();
        let mut d: Vec<usize> = Vec::new();
        let mut j: usize = 0;
        while j < n
            invariant
                j <= n,
                n == self.n,
                1 <= self.party_i <= self.n,
                self.t < self.n,
                peers == input@,
                peers.len() + 1 == n,
                received == self.received(peers),
                output@ == old(output)@,
                all@ == received,
                received.len() == n,
                a.len() == j,
                b.len() == j,
                c.len() == j,
                d.len() == j,
                forall|k: int| 0 <= k < j ==> (#[trigger] received[k]).index < limit,
                forall|k: int| 0 <= k < j ==> (#[trigger] a[k])@ == received[k].comm@,
                forall|k: int| 0 <= k < j ==> (#[trigger] b[k])@ == received[k].decom@,
                forall|k: int| 0 <= k < j ==> (#[trigger] c[k]) == received[k].y_i,
                forall|k: int| 0 <= k < j ==> (#[trigger] d[k]) == received[k].index + 1,
            decreases n - j,
        {
            let m = &all[j];
            if m.index >= limit as usize {
                return Err(ProceedError::Round1(Error::InvalidParameters));
            }
            a.push(KeyGenBroadcastMessage1 { com: copy_bytes(&m.comm.com) });
            b.push(copy_bytes(&m.decom));
            c.push(m.y_i);
            d.push(m.index + 1);
            j += 1;
        }
        let params = Parameters { threshold: self.t, share_count: self.n };
        proof {
            assert(c@ =~= contributions(received));
            assert(indices_valid(d@) <==> indices_in_range(received, limit as int)) by {
                if indices_in_range(received, limit as int) {
                    assert forall|i: int, k: int| 0 <= i < k < d.len() implies d[i] != d[k] by {
                        assert(received[i].index != received[k].index);
                    }
                }
                if indices_valid(d@) {
                    assert forall|i: int, k: int| 0 <= i < k < received.len() implies (
                    #[trigger] received[i]).index != (#[trigger] received[k]).index by {
                        assert(d[i] != d[k]);
                    }
                }
            }
            assert(openings_match(a@, c@, b@) <==> all_open(received)) by {
                if all_open(received) {
                    assert forall|k: int| 0 <= k < a.len() implies (#[trigger] a[k]).com@
                        == commitment_to(c[k]@, b[k]@) by {
                        assert(received[k].opens());
                    }
                }
                if openings_match(a@, c@, b@) {
                    assert forall|k: int| 0 <= k < received.len() implies (
                    #[trigger] received[k]).opens() by {
                        assert(a[k].com@ == commitment_to(c[k]@, b[k]@));
                    }
                }
            }
        }
        let (vss_scheme, secret_shares, index) =
            match self.keys.phase1_verify_com_phase2_distribute(&params, &b, &c, &a, &d) {
            Ok(dealt) => dealt,
            Err(e) => {
                return Err(ProceedError::Round1(e));
            },
        };
        let ghost before = output@;
        let mut i: usize = 0;
        while i < n
            invariant
                i <= n,
                n == self.n,
                me == self.party_i - 1,
                me < n,
                secret_shares.len() == n,
                d.len() == n,
                peers.len() + 1 == n,
                received == including_me(peers, self.party_i, self.mybroadcast),
                forall|k: int| 0 <= k < n ==> (#[trigger] d[k]) == received[k].index + 1,
                forall|k: int| 0 <= k < n ==> (#[trigger] received[k]).index < limit,
                forall|k: int|
                    0 <= k < n ==> share_valid(
                        vss_scheme@.commitments,
                        (#[trigger] secret_shares[k])@,
                        d[k] as u16,
                    ),
                output@.len() == before.len() + (if i <= me {
                    i as int
                } else {
                    i - 1
                }),
                output@.subrange(0, before.len() as int) == before,
                forall|k: int|
                    0 <= k < output@.len() - before.len() ==> {
                        let m = #[trigger] output@[before.len() + k];
                        &&& m.sender == self.party_i
                        &&& m.receiver == Some(peer(k, self.party_i) as u16)
                        &&& m.body.0@ == vss_scheme@
                        &&& share_valid(
                            vss_scheme@.commitments,
                            m.body.1@,
                            (peers[k].index + 1) as u16,
                        )
                    },
            decreases n - i,
        {
            if i != me {
                let ghost sent = output@;
                let ghost k = sent.len() - before.len();
                let msg = Msg {
                    sender: self.party_i,
                    receiver: Some((i + 1) as u16),
                    body: (vss_scheme.copy(), secret_shares[i]),
                };
                output.push(msg);
                proof {
                    assert(output@.subrange(0, before.len() as int) =~= sent.subrange(
                        0,
                        before.len() as int,
                    ));
                    assert(peer(k, self.party_i) == i + 1);
                    assert(received[i as int] == peers[k]);
                    assert(d[i as int] == peers[k].index + 1);
                    assert forall|q: int| 0 <= q < output@.len() - before.len() implies {
                        let m = #[trigger] output@[before.len() + q];
                        &&& m.sender == self.party_i
                        &&& m.receiver == Some(peer(q, self.party_i) as u16)
                        &&& m.body.0@ == vss_scheme@
                        &&& share_valid(
                            vss_scheme@.commitments,
                            m.body.1@,
                            (peers[q].index + 1) as u16,
                        )
                    } by {
                        if q < k {
                            assert(output@[before.len() + q] == sent[before.len() + q]);
                        }
                    }
                }
            }
            i += 1;
        }
        let next = Round2 {
            keys: self.keys,
            index,
            own_vss: vss_scheme,
            own_share: secret_shares[me],
            y_vec: c,
            party_i: self.party_i,
            t: self.t,
            n: self.n,
            parties: self.parties,
        };
        proof {
            assert(received[me as int] == self.mybroadcast);
            assert(d[me as int] == self.mybroadcast.index + 1);
            let sent = output@.subrange(before.len() as int, output@.len() as int);
            assert forall|k: int| 0 <= k < sent.len() implies {
                let m = #[trigger] sent[k];
                &&& m.sender == self.party_i
                &&& m.receiver == Some(peer(k, self.party_i) as u16)
                &&& m.body.0@ == next.own_vss@
                &&& share_valid(next.own_vss@.commitments, m.body.1@, (peers[k].index + 1) as u16)
            } by {
                assert(sent[k] == output@[before.len() + k]);
            }
        }
        Ok(next)
    }

    /// A hint to the driver: the round computes on the curve.
    pub fn is_expensive(&self) -> (r: bool)
        ensures
            r,
    {
        true
    }

    /// The inbox for this round's input: the first-phase broadcasts of the
    /// `n - 1` peers of party `i`.
    pub fn expects_messages(i: u16, n: u16) -> (store: BroadcastMsgsStore<Body>)
        requires
            n >= 1,
        ensures
            broadcast_owner(store) == i,
            broadcast_slots(store) == no_messages::<Body>(n),
    {
        broadcast_store_new(i, n)
    }
}

impl Round2 {
    /// The dealings and shares of all parties, this party's own among the
    /// `peers`'.
    pub open spec fn received(self, peers: Seq<(VerifiableSS, Scalar)>) -> Seq<
        (VerifiableSS, Scalar),
    > {
        including_me(peers, self.party_i, (self.own_vss, self.own_share))
    }

    /// What `proceed` asks of the round and its input: the party is one of
    /// the `n`, there is a public contribution for each party, every peer
    /// has sent its dealing and share, the party's point fits 16 bits, and
    /// every dealing holds a commitment at least.
    pub open spec fn inputs_valid(self, peers: Seq<(VerifiableSS, Scalar)>) -> bool {
        &&& 1 <= self.party_i <= self.n
        &&& peers.len() + 1 == self.n
        &&& self.y_vec.len() == self.n
        &&& self.index < 0xFFFF
        &&& all_committed(self.received(peers))
    }

    /// Whether the round proceeds on the peers' dealings and shares: they
    /// are what `inputs_valid` asks for, and every share is valid at this
    /// party's point, `index + 1`, under a dealing whose constant commitment
    /// is the dealer's public contribution.
    pub open spec fn accepts(self, peers: Seq<(VerifiableSS, Scalar)>) -> bool {
        self.inputs_valid(peers) && all_shares_valid(
            self.y_vec@,
            self.received(peers),
            (self.index + 1) as u16,
        )
    }

    /// The error that the round fails with where it does not proceed.
    pub open spec fn failure(self, peers: Seq<(VerifiableSS, Scalar)>) -> ProceedError {
        ProceedError::Round2(
            if self.inputs_valid(peers) {
                Error::InvalidSS
            } else {
                Error::InvalidParameters
            },
        )
    }

    /// Whether `key` is the local key that this round leads to: the joint
    /// public key is the sum of the public contributions, and the party's
    /// share of the joint secret is the sum of the shares it was dealt.
    pub open spec fn leads_to(self, peers: Seq<(VerifiableSS, Scalar)>, key: LocalKey) -> bool {
        &&& key.shared_keys.y@ == point_sum(encodings(self.y_vec@))
        &&& key.shared_keys.x_i@ == scalar_sum(dealt_shares(self.received(peers)))
        &&& key.vss_scheme == self.own_vss
        &&& key.vk_vec == self.y_vec
        &&& key.vss_scheme_vec@.map_values(|v: VerifiableSS| v@) == dealings(self.received(peers))
        &&& key.party_i == self.party_i
        &&& key.t == self.t
        &&& key.n == self.n
    }

    /// Checks every share against its dealer's commitments at this party's
    /// point, `index + 1`, and puts the local key together. `input` holds the
    /// peers' dealings and shares in the order of the peers' indices.
    pub fn proceed(self, input: Vec<(VerifiableSS, Scalar)>) -> (r: Result<LocalKey, ProceedError>)
        ensures
            r is Ok <==> self.accepts(input@),
            r matches Err(e) ==> e == self.failure(input@),
            r matches Ok(key) ==> self.leads_to(input@, key),
    {
        let n = self.n as usize;
        if self.party_i < 1 || self.party_i > self.n || input.len() != n - 1 || self.y_vec.len()
            != n || self.index >= 0xFFFF {
            return Err(ProceedError::Round2(Error::InvalidParameters));
        }
        let me = self.party_i as usize - 1;
        let ghost peers = input@;
        let ghost received = self.received(peers);
        let mut all = input;
        all.insert(me, (self.own_vss.copy(), self.own_share));
        assert forall|k: int| 0 <= k < n implies (#[trigger] all[k]).0@ == received[k].0@ && all[k].1
            == received[k].1 by {
            if k != me {
                assert(all[k] == received[k]);
            }
        }
        let mut a: Vec<VerifiableSS> = Vec::new();
        let mut b: Vec<Scalar> = Vec::new();
        let mut j: usize = 0;
        while j < n
            invariant
                j <= n,
                all.len() == n,
                received.len() == n,
                a.len() == j,
                b.len() == j,
                forall|k: int|
                    0 <= k < n ==> (#[trigger] all[k]).0@ == received[k].0@ && all[k].1
                        == received[k].1,
                forall|k: int| 0 <= k < j ==> (#[trigger] a[k])@ == received[k].0@,
                forall|k: int| 0 <= k < j ==> (#[trigger] b[k]) == received[k].1,
            decreases n - j,
        {
            a.push(all[j].0.copy());
            b.push(all[j].1);
            j += 1;
        }
        let params = Parameters { threshold: self.t, share_count: self.n };
        let point = self.index + 1;
        proof {
            assert(numbers(b@) =~= dealt_shares(received));
            assert(a@.map_values(|v: VerifiableSS| v@) =~= dealings(received));
            assert(construct_inputs_valid(params, self.y_vec@, b@, a@, point) <==> all_committed(
                received,
            )) by {
                if all_committed(received) {
                    assert forall|k: int| 0 <= k < a.len() implies (#[trigger] a[k]).commitments.len()
                        >= 1 by {
                        assert(received[k].0@.commitments.len() >= 1);
                        assert(a[k]@.commitments.len() == a[k].commitments.len());
                    }
                }
                if construct_inputs_valid(params, self.y_vec@, b@, a@, point) {
                    assert forall|k: int| 0 <= k < received.len() implies (
                    #[trigger] received[k]).0@.commitments.len() >= 1 by {
                        assert(a[k].commitments.len() >= 1);
                        assert(a[k]@.commitments.len() == a[k].commitments.len());
                    }
                }
            }
            assert(all_committed(received) ==> (shares_match(self.y_vec@, b@, a@, point as u16)
                <==> all_shares_valid(self.y_vec@, received, point as u16))) by {
                assert forall|k: int| 0 <= k < a.len() && all_committed(received) implies (
                #[trigger] a[k]).commitments.len() >= 1 by {
                    assert(received[k].0@.commitments.len() >= 1);
                    assert(a[k]@.commitments.len() == a[k].commitments.len());
                }
                if all_committed(received) && all_shares_valid(self.y_vec@, received, point as u16) {
                    assert forall|k: int| 0 <= k < a.len() implies {
                        &&& share_valid((#[trigger] a[k]).commitment_encodings(), b[k]@, point as u16)
                        &&& a[k].commitments[0]@ == self.y_vec[k]@
                    } by {
                        assert(received[k].0@.commitments[0] == self.y_vec[k]@);
                        assert(a[k]@.commitments == a[k].commitment_encodings());
                        assert(a[k].commitments.len() >= 1);
                        assert(a[k].commitment_encodings()[0] == a[k].commitments[0]@);
                    }
                }
                if all_committed(received) && shares_match(self.y_vec@, b@, a@, point as u16) {
                    assert forall|k: int| 0 <= k < received.len() implies {
                        &&& share_valid(
                            (#[trigger] received[k]).0@.commitments,
                            received[k].1@,
                            point as u16,
                        )
                        &&& received[k].0@.commitments[0] == self.y_vec[k]@
                    } by {
                        assert(a[k].commitments[0]@ == self.y_vec[k]@);
                        assert(a[k]@.commitments == a[k].commitment_encodings());
                        assert(a[k].commitments.len() >= 1);
                        assert(a[k].commitment_encodings()[0] == a[k].commitments[0]@);
                    }
                }
            }
        }
        let shared_keys =
            match self.keys.phase2_verify_vss_construct_keypair(&params, &self.y_vec, &b, &a, &point) {
            Ok(keys) => keys,
            Err(e) => {
                return Err(ProceedError::Round2(e));
            },
        };
        Ok(
            LocalKey {
                shared_keys,
                vss_scheme: self.own_vss,
                vk_vec: self.y_vec,
                vss_scheme_vec: a,
                party_i: self.party_i,
                t: self.t,
                n: self.n,
            },
        )
    }

    /// A hint to the driver: the round computes on the curve.
    pub fn is_expensive(&self) -> (r: bool)
        ensures
            r,
    {
        true
    }

    /// The inbox for this round's input: the dealings and shares of the
    /// `n - 1` peers of party `i`.
    pub fn expects_messages(i: u16, n: u16) -> (store: P2PMsgsStore<Body>)
        requires
            n >= 1,
        ensures
            direct_owner(store) == i,
            direct_slots(store) == no_messages::<Body>(n),
    {
        direct_store_new(i, n)
    }
}

impl LocalKey {
    /// The joint public key.
    pub fn public_key(&self) -> (y: Point)
        ensures
            y == self.shared_keys.y,
    {
        self.shared_keys.y
    }
}

} // verus!
