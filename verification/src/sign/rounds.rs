//! The rounds of distributed signing.

use crate::curve::{
    ec_mul, generator_encoding, group_order, identity_encoding, Point, Scalar,
};
use crate::error::Error;
use crate::hashing::challenge_value;
use crate::keygen::rounds::{including_me, BroadcastPhase1, LocalKey, Phase1View};
use crate::party_i::{
    generate_inputs_valid, interpolated_sigma, joint_commitments, local_sigs_inputs_valid,
    local_sigs_match, signature_valid, Keys, LocalSig, Signature,
};
use crate::store::{
    broadcast_owner, broadcast_slots, broadcast_store_new, direct_owner, direct_slots,
    direct_store_new, no_messages, views, Body, Msg,
};
use crate::vss::{encodings, vss_point_valid, VerifiableSS};
use round_based::containers::BroadcastMsgsStore;
use round_based::containers::P2PMsgsStore;
use vstd::prelude::*;

verus! {

/// The start of a signing run: the party is the `party_i`-th of the `n`
/// signers `parties`, which are given by their indices in key generation,
/// and signs `message` with its share `private_key`.
pub struct Round0 {
    pub private_key: LocalKey,
    pub message: Vec<u8>,
    pub party_i: u16,
    pub t: u16,
    pub n: u16,
    pub parties: Vec<usize>,
}

/// The party has broadcast the commitment to its nonce and waits for its
/// peers'.
pub struct Round1 {
    pub keys: Keys,
    pub mybroadcast: BroadcastPhase1,
    pub private_key: LocalKey,
    pub message: Vec<u8>,
    pub party_i: u16,
    pub t: u16,
    pub n: u16,
    pub parties: Vec<usize>,
}

/// The party has dealt its nonce and waits for its peers' shares.
pub struct Round2 {
    pub keys: Keys,
    pub index: usize,
    pub own_vss: VerifiableSS,
    pub own_share: Scalar,
    pub y_vec: Vec<Point>,
    pub private_key: LocalKey,
    pub message: Vec<u8>,
    pub party_i: u16,
    pub t: u16,
    pub n: u16,
    pub parties: Vec<usize>,
}

/// The party has broadcast its local signature and waits for its peers'.
pub struct Round3 {
    pub tmpkey: LocalKey,
    pub local_sig: LocalSig,
    pub y_vec: Vec<Point>,
    pub private_key: LocalKey,
    pub message: Vec<u8>,
    pub party_i: u16,
    pub t: u16,
    pub n: u16,
    pub parties: Vec<usize>,
}

/// The party has checked the local signatures and broadcast its commitment
/// to a coefficient of the polynomial that they lie on; it waits for its
/// peers' commitments.
pub struct Round4 {
    pub tmpkey: LocalKey,
    pub local_sigs: Vec<LocalSig>,
    pub commitment: Point,
    pub private_key: LocalKey,
    pub message: Vec<u8>,
    pub party_i: u16,
    pub t: u16,
    pub n: u16,
    pub parties: Vec<usize>,
}

/// The party has checked its own local signature against the commitments
/// that were broadcast and has broadcast its verdict; it waits for its
/// peers' verdicts.
pub struct Round5 {
    pub tmpkey: LocalKey,
    pub local_sigs: Vec<LocalSig>,
    pub vss_sum: VerifiableSS,
    pub verdict: bool,
    pub private_key: LocalKey,
    pub message: Vec<u8>,
    pub party_i: u16,
    pub t: u16,
    pub n: u16,
    pub parties: Vec<usize>,
}

/// The outcome of a signing run.
#[derive(Clone, Copy, Debug)]
pub struct SigRes {
    pub signature: Signature,
}

/// The round of signing that failed, and why.
#[derive(Clone, Copy, Debug, PartialEq, Eq, Structural)]
pub enum ProceedError {
    Round0(Error),
    Round1(Error),
    Round2(Error),
    Round3(Error),
    Round4(Error),
    Round5(Error),
}

/// Whether the signers are given by different indices of key generation
/// among `limit` parties.
pub open spec fn signers_valid(parties: Seq<usize>, limit: u16) -> bool {
    &&& forall|k: int| 0 <= k < parties.len() ==> 1 <= #[trigger] parties[k] <= limit
    &&& forall|i: int, j: int| 0 <= i < j < parties.len() ==> parties[i] != parties[j]
}

/// Whether each broadcast names the signer that stands at its place.
pub open spec fn names_signers(received: Seq<BroadcastPhase1>, parties: Seq<usize>) -> bool {
    forall|k: int| 0 <= k < received.len() ==> (#[trigger] received[k]).index + 1 == parties[k]
}

/// The signers' 0-based indices.
pub open spec fn zero_based(parties: Seq<usize>) -> Seq<usize> {
    Seq::new(parties.len(), |k: int| (parties[k] - 1) as usize)
}

/// A copy of a sequence of indices.
fn copy_indices(v: &Vec<usize>) -> (r: Vec<usize>)
    ensures
        r@ == v@,
{
    let mut r: Vec<usize> = Vec::new();
    let mut i: usize = 0;
    while i < v.len()
        invariant
            i <= v.len(),
            r@ == v@.subrange(0, i as int),
        decreases v.len() - i,
    {
        r.push(v[i]);
        assert(r@ =~= v@.subrange(0, i + 1));
        i += 1;
    }
    assert(r@ =~= v@);
    r
}

/// A copy of a sequence of points.
fn copy_points(v: &Vec<Point>) -> (r: Vec<Point>)
    ensures
        r@ == v@,
{
    let mut r: Vec<Point> = Vec::new();
    let mut i: usize = 0;
    while i < v.len()
        invariant
            i <= v.len(),
            r@ == v@.subrange(0, i as int),
        decreases v.len() - i,
    {
        r.push(v[i]);
        assert(r@ =~= v@.subrange(0, i + 1));
        i += 1;
    }
    assert(r@ =~= v@);
    r
}

/// Whether the signers are different parties of key generation among `limit`.
fn check_signers(parties: &Vec<usize>, limit: u16) -> (r: bool)
    ensures
        r == signers_valid(parties@, limit),
{
    let mut j: usize = 0;
    while j < parties.len()
        invariant
            j <= parties.len(),
            forall|k: int| 0 <= k < j ==> 1 <= #[trigger] parties[k] <= limit,
            forall|a: int, b: int| 0 <= a < b < j ==> parties[a] != parties[b],
        decreases parties.len() - j,
    {
        if parties[j] < 1 || parties[j] > limit as usize {
            return false;
        }
        let mut i: usize = 0;
        while i < j
            invariant
                i <= j < parties.len(),
                forall|a: int| 0 <= a < i ==> parties[a] != parties[j as int],
            decreases j - i,
        {
            if parties[i] == parties[j] {
                return false;
            }
            i += 1;
        }
        j += 1;
    }
    true
}

/// Whether the signers of a run are different parties of key generation.
pub(crate) fn signers_ok(round: &Round0) -> (r: bool)
    ensures
        r == signers_valid(round.parties@, round.private_key.n),
{
    check_signers(&round.parties, round.private_key.n)
}

/// The failure of a round of key generation as the failure of the round of
/// signing that did its work.
fn from_keygen(e: crate::keygen::rounds::ProceedError) -> (r: ProceedError)
    ensures
        r == lift(e),
{
    match e {
        crate::keygen::rounds::ProceedError::Round0(e) => ProceedError::Round0(e),
        crate::keygen::rounds::ProceedError::Round1(e) => ProceedError::Round1(e),
        crate::keygen::rounds::ProceedError::Round2(e) => ProceedError::Round2(e),
    }
}

/// The failure of a round of key generation as the failure of the round of
/// signing that did its work.
pub open spec fn lift(e: crate::keygen::rounds::ProceedError) -> ProceedError {
    match e {
        crate::keygen::rounds::ProceedError::Round0(e) => ProceedError::Round0(e),
        crate::keygen::rounds::ProceedError::Round1(e) => ProceedError::Round1(e),
        crate::keygen::rounds::ProceedError::Round2(e) => ProceedError::Round2(e),
    }
}

impl Round0 {
    /// Whether the round can proceed: the party is one of the `n` signers,
    /// the signers are more than the threshold and are different parties of
    /// key generation.
    pub open spec fn accepts(self) -> bool {
        &&& 1 <= self.party_i <= self.n
        &&& self.parties.len() == self.n
        &&& self.t < self.n
        &&& signers_valid(self.parties@, self.private_key.n)
    }

    /// Whether `next` is a state that this round may lead to: it holds a
    /// fresh nonce pair under the party's index in key generation and the
    /// broadcast that commits to the public half and opens the commitment.
    pub open spec fn leads_to(self, next: Round1) -> bool {
        &&& next.private_key == self.private_key
        &&& next.message == self.message
        &&& next.party_i == self.party_i
        &&& next.t == self.t
        &&& next.n == self.n
        &&& next.parties == self.parties
        &&& next.keys.wf()
        &&& next.keys.party_index == self.parties[self.party_i - 1] - 1
        &&& next.mybroadcast.y_i == next.keys.y_i
        &&& next.mybroadcast.index == next.keys.party_index
        &&& next.mybroadcast.opens()
    }

    /// The broadcast that the round queues on its way to `next`.
    pub open spec fn announces(self, next: Round1) -> Msg<Phase1View> {
        Msg { sender: self.party_i, receiver: None, body: next.mybroadcast@ }
    }

    /// Draws the party's nonce pair, commits to the public half and queues
    /// the broadcast of commitment, opening and public half.
    pub fn proceed(self, output: &mut Vec<Msg<BroadcastPhase1>>) -> (r: Result<
        Round1,
        ProceedError,
    >)
        ensures
            r is Ok <==> self.accepts(),
            r matches Err(e) ==> e == ProceedError::Round0(Error::InvalidParameters)
                && final(output)@ == old(output)@,
            r matches Ok(next) ==> self.leads_to(next) && views(final(output)@) == views(
                old(output)@,
            ).push(self.announces(next)),
    {
        if self.party_i < 1 || self.party_i > self.n || self.parties.len() != self.n as usize
            || self.t >= self.n || !check_signers(&self.parties, self.private_key.n) {
            return Err(ProceedError::Round0(Error::InvalidParameters));
        }
        let keys = Keys::phase1_create(self.parties[self.party_i as usize - 1] - 1);
        let (comm, decom) = keys.phase1_broadcast();
        let mybroadcast = BroadcastPhase1 { comm, decom, y_i: keys.y_i, index: keys.party_index };
        let body = mybroadcast.copy();
        let ghost before = output@;
        let msg = Msg { sender: self.party_i, receiver: None, body };
        output.push(msg);
        assert(views(output@) =~= views(before).push(msg@));
        Ok(
            Round1 {
                keys,
                mybroadcast,
                private_key: self.private_key,
                message: self.message,
                party_i: self.party_i,
                t: self.t,
                n: self.n,
                parties: self.parties,
            },
        )
    }

    /// A hint to the driver: the round computes on the curve.
    pub fn is_expensive(&self) -> (r: bool)
        ensures
            r,
    {
        true
    }
}

impl Round1 {
    /// The dealing round of key generation that does this round's work.
    pub open spec fn dealing(self) -> crate::keygen::rounds::Round1 {
        crate::keygen::rounds::Round1 {
            keys: self.keys,
            mybroadcast: self.mybroadcast,
            party_i: self.party_i,
            t: self.t,
            n: self.n,
            parties: self.parties,
        }
    }

    /// What `proceed` asks of the round and its input: what the dealing
    /// round asks among the parties of key generation, and that each
    /// broadcast names the signer that stands at its place.
    pub open spec fn inputs_valid(self, peers: Seq<BroadcastPhase1>) -> bool {
        &&& self.dealing().inputs_valid_within(self.private_key.n, peers)
        &&& self.parties.len() == self.n
        &&& names_signers(self.dealing().received(peers), self.parties@)
    }

    /// Whether the round proceeds on the peers' broadcasts: they are what
    /// `inputs_valid` asks for and every opening fits its commitment.
    pub open spec fn accepts(self, peers: Seq<BroadcastPhase1>) -> bool {
        self.inputs_valid(peers) && crate::keygen::rounds::all_open(self.dealing().received(peers))
    }

    /// The error that the round fails with where it does not proceed.
    pub open spec fn failure(self, peers: Seq<BroadcastPhase1>) -> ProceedError {
        ProceedError::Round1(
            if self.inputs_valid(peers) {
                Error::InvalidCommitment
            } else {
                Error::InvalidParameters
            },
        )
    }

    /// Whether `next` and the messages `sent` are what this round may lead
    /// to: what the dealing round leads to, with the key and the message
    /// carried on.
    pub open spec fn leads_to(
        self,
        peers: Seq<BroadcastPhase1>,
        next: Round2,
        sent: Seq<Msg<(VerifiableSS, Scalar)>>,
    ) -> bool {
        &&& self.dealing().leads_to(peers, next.checking(), sent)
        &&& next.private_key == self.private_key
        &&& next.message == self.message
    }

    /// Checks that every signer's opening fits its commitment, deals this
    /// party's nonce with threshold `t` among the signers and queues a share
    /// for each peer. `input` holds the peers' broadcasts in the order of
    /// the signers.
    pub fn proceed(
        self,
        input: Vec<BroadcastPhase1>,
        output: &mut Vec<Msg<(VerifiableSS, Scalar)>>,
    ) -> (r: Result<Round2, ProceedError>)
        ensures
            r is Ok <==> self.accepts(input@),
            r matches Err(e) ==> final(output)@ == old(output)@ && e == self.failure(input@),
            r matches Ok(next) ==> {
                &&& final(output)@.len() == old(output)@.len() + self.n - 1
                &&& final(output)@.subrange(0, old(output)@.len() as int) == old(output)@
                &&& self.leads_to(
                    input@,
                    next,
                    final(output)@.subrange(
                        old(output)@.len() as int,
                        final(output)@.len() as int,
                    ),
                )
            },
    {
        let n = self.n as usize;
        if self.party_i < 1 || self.party_i > self.n || input.len() != n - 1 || self.parties.len()
            != n {
            return Err(ProceedError::Round1(Error::InvalidParameters));
        }
        let me = self.party_i as usize - 1;
        let ghost received = self.dealing().received(input@);
        if self.mybroadcast.index == usize::MAX || self.mybroadcast.index + 1 != self.parties[me] {
            assert(received[me as int] == self.mybroadcast);
            return Err(ProceedError::Round1(Error::InvalidParameters));
        }
        let mut k: usize = 0;
        while k < n - 1
            invariant
                k <= n - 1,
                n == self.n,
                me == self.party_i - 1,
                me < n,
                input.len() == n - 1,
                self.parties.len() == n,
                received == including_me(input@, self.party_i, self.mybroadcast),
                output@ == old(output)@,
                forall|q: int|
                    0 <= q < n && (q == me || (q < me && q < k) || (q > me && q <= k)) ==> (
                    #[trigger] received[q]).index + 1 == self.parties[q],
            decreases n - 1 - k,
        {
            let place = if k < me {
                k
            } else {
                k + 1
            };
            assert(received[place as int] == input[k as int]);
            if input[k].index == usize::MAX || input[k].index + 1 != self.parties[place] {
                return Err(ProceedError::Round1(Error::InvalidParameters));
            }
            k += 1;
        }
        assert(names_signers(received, self.parties@));
        let limit = self.private_key.n;
        let dealing = crate::keygen::rounds::Round1 {
            keys: self.keys,
            mybroadcast: self.mybroadcast,
            party_i: self.party_i,
            t: self.t,
            n: self.n,
            parties: self.parties,
        };
        match dealing.proceed_within(limit, input, output) {
            Ok(next) => Ok(
                Round2 {
                    keys: next.keys,
                    index: next.index,
                    own_vss: next.own_vss,
                    own_share: next.own_share,
                    y_vec: next.y_vec,
                    private_key: self.private_key,
                    message: self.message,
                    party_i: next.party_i,
                    t: next.t,
                    n: next.n,
                    parties: next.parties,
                },
            ),
            Err(e) => Err(from_keygen(e)),
        }
    }

    /// A hint to the driver: the round computes on the curve.
    pub fn is_expensive(&self) -> (r: bool)
        ensures
            r,
    {
        true
    }

    /// The inbox for this round's input: the first-phase broadcasts of the
    /// `n - 1` peers of signer `i`.
    pub fn expects_messages(i: u16, n: u16) -> (store: BroadcastMsgsStore<Body>)
        requires
            n >= 1,
        ensures
            broadcast_owner(store) == i,
            broadcast_slots(store) == no_messages::<Body>(n),
    {
        broadcast_store_new(i, n)
    }
}

impl Round2 {
    /// The share-checking round of key generation that does this round's
    /// work.
    pub open spec fn checking(self) -> crate::keygen::rounds::Round2 {
        crate::keygen::rounds::Round2 {
            keys: self.keys,
            index: self.index,
            own_vss: self.own_vss,
            own_share: self.own_share,
            y_vec: self.y_vec,
            party_i: self.party_i,
            t: self.t,
            n: self.n,
            parties: self.parties,
        }
    }

    /// Whether the round proceeds on the peers' dealings and shares: as the
    /// share-checking round of key generation does.
    pub open spec fn accepts(self, peers: Seq<(VerifiableSS, Scalar)>) -> bool {
        self.checking().accepts(peers)
    }

    /// The error that the round fails with where it does not proceed.
    pub open spec fn failure(self, peers: Seq<(VerifiableSS, Scalar)>) -> ProceedError {
        lift(self.checking().failure(peers))
    }

    /// Whether `next` is the state that this round leads to: it holds the
    /// ephemeral key that the share-checking round puts together, and the
    /// party's local signature `gamma_i = r_i + e · x_i` with the challenge
    /// `e = H(R ‖ Y ‖ m)`.
    pub open spec fn leads_to(self, peers: Seq<(VerifiableSS, Scalar)>, next: Round3) -> bool {
        &&& self.checking().leads_to(peers, next.tmpkey)
        &&& next.local_sig.e@ == challenge_value(
            next.tmpkey.shared_keys.y@,
            self.private_key.shared_keys.y@,
            self.message@,
        )
        &&& next.local_sig.gamma_i@ == (next.tmpkey.shared_keys.x_i@ + next.local_sig.e@
            * self.private_key.shared_keys.x_i@) % group_order()
        &&& next.y_vec@ == self.y_vec@
        &&& next.private_key == self.private_key
        &&& next.message == self.message
        &&& next.party_i == self.party_i
        &&& next.t == self.t
        &&& next.n == self.n
        &&& next.parties@ == self.parties@
    }

    /// Checks every share of the peers' nonces at this party's point, puts
    /// the ephemeral key together, computes the party's local signature and
    /// queues its broadcast. `input` holds the peers' dealings and shares in
    /// the order of the signers.
    pub fn proceed(self, input: Vec<(VerifiableSS, Scalar)>, output: &mut Vec<Msg<LocalSig>>) -> (r:
        Result<Round3, ProceedError>)
        ensures
            r is Ok <==> self.accepts(input@),
            r matches Err(e) ==> final(output)@ == old(output)@ && e == self.failure(input@),
            r matches Ok(next) ==> self.leads_to(input@, next) && final(output)@ == old(
                output,
            )@.push(Msg { sender: self.party_i, receiver: None, body: next.local_sig }),
    {
        let parties = copy_indices(&self.parties);
        let y_vec = copy_points(&self.y_vec);
        let checking = crate::keygen::rounds::Round2 {
            keys: self.keys,
            index: self.index,
            own_vss: self.own_vss,
            own_share: self.own_share,
            y_vec: self.y_vec,
            party_i: self.party_i,
            t: self.t,
            n: self.n,
            parties: self.parties,
        };
        let tmpkey = match checking.proceed(input) {
            Ok(key) => key,
            Err(e) => {
                return Err(from_keygen(e));
            },
        };
        let local_sig = LocalSig::compute(
            self.message.as_slice(),
            &tmpkey.shared_keys,
            &self.private_key.shared_keys,
        );
        output.push(Msg { sender: self.party_i, receiver: None, body: local_sig });
        Ok(
            Round3 {
                tmpkey,
                local_sig,
                y_vec,
                private_key: self.private_key,
                message: self.message,
                party_i: self.party_i,
                t: self.t,
                n: self.n,
                parties,
            },
        )
    }

    /// A hint to the driver: the round computes on the curve.
    pub fn is_expensive(&self) -> (r: bool)
        ensures
            r,
    {
        true
    }

    /// The inbox for this round's input: the dealings and shares of the
    /// `n - 1` peers of signer `i`.
    pub fn expects_messages(i: u16, n: u16) -> (store: P2PMsgsStore<Body>)
        requires
            n >= 1,
        ensures
            direct_owner(store) == i,
            direct_slots(store) == no_messages::<Body>(n),
    {
        direct_store_new(i, n)
    }
}

impl Round3 {
    /// The local signatures of all signers, this party's own among the
    /// `peers`'.
    pub open spec fn received(self, peers: Seq<LocalSig>) -> Seq<LocalSig> {
        including_me(peers, self.party_i, self.local_sig)
    }

    /// The threshold of the dealings of key generation.
    pub open spec fn threshold(self) -> u16 {
        self.private_key.vss_scheme_vec[0].parameters.threshold
    }

    /// The commitments to the coefficients of the polynomial that the local
    /// signatures lie on.
    pub open spec fn commitments(self, peers: Seq<LocalSig>) -> Seq<Seq<u8>> {
        joint_commitments(
            self.received(peers),
            self.private_key.vss_scheme_vec@,
            self.tmpkey.vss_scheme_vec@,
            self.threshold(),
        )
    }

    /// The commitment that the party broadcasts: the one to the coefficient
    /// of its place among the signers, from 0, and the identity, which
    /// commits to zero, where the polynomial has no such coefficient.
    pub open spec fn own_commitment(self, peers: Seq<LocalSig>) -> Seq<u8> {
        if self.party_i - 1 <= self.threshold() {
            self.commitments(peers)[self.party_i - 1]
        } else {
            identity_encoding()
        }
    }

    /// What `proceed` asks of the round and its input: the party is one of
    /// the `n` signers, every peer has sent its local signature, the signers
    /// are given by indices from 1, and the dealings are what the check of
    /// the local signatures asks for.
    pub open spec fn inputs_valid(self, peers: Seq<LocalSig>) -> bool {
        &&& 1 <= self.party_i <= self.n
        &&& peers.len() + 1 == self.n
        &&& self.parties.len() == self.n
        &&& forall|k: int| 0 <= k < self.parties.len() ==> #[trigger] self.parties[k] >= 1
        &&& local_sigs_inputs_valid(
            self.received(peers),
            zero_based(self.parties@),
            self.private_key.vss_scheme_vec@,
            self.tmpkey.vss_scheme_vec@,
        )
    }

    /// Whether every signer's local signature lies on the jointly committed
    /// polynomial.
    pub open spec fn sigs_match(self, peers: Seq<LocalSig>) -> bool {
        local_sigs_match(self.received(peers), zero_based(self.parties@), self.commitments(peers))
    }

    /// Whether the round proceeds on the peers' local signatures: they are
    /// what `inputs_valid` asks for and every local signature is valid.
    pub open spec fn accepts(self, peers: Seq<LocalSig>) -> bool {
        self.inputs_valid(peers) && self.sigs_match(peers)
    }

    /// The error that the round fails with where it does not proceed.
    pub open spec fn failure(self, peers: Seq<LocalSig>) -> ProceedError {
        ProceedError::Round3(
            if self.inputs_valid(peers) {
                Error::InvalidSS
            } else {
                Error::InvalidParameters
            },
        )
    }

    /// Whether `next` is the state that this round leads to: it holds all
    /// local signatures and the commitment that the party broadcasts.
    pub open spec fn leads_to(self, peers: Seq<LocalSig>, next: Round4) -> bool {
        &&& next.local_sigs@ == self.received(peers)
        &&& next.commitment@ == self.own_commitment(peers)
        &&& next.tmpkey == self.tmpkey
        &&& next.private_key == self.private_key
        &&& next.message == self.message
        &&& next.party_i == self.party_i
        &&& next.t == self.t
        &&& next.n == self.n
        &&& next.parties == self.parties
    }

    /// Checks every signer's local signature against the dealers'
    /// commitments and queues the broadcast of this party's commitment to
    /// the polynomial that the local signatures lie on. `input` holds the
    /// peers' local signatures in the order of the signers.
    pub fn proceed(self, input: Vec<LocalSig>, output: &mut Vec<Msg<Point>>) -> (r: Result<
        Round4,
        ProceedError,
    >)
        ensures
            r is Ok <==> self.accepts(input@),
            r matches Err(e) ==> final(output)@ == old(output)@ && e == self.failure(input@),
            r matches Ok(next) ==> self.leads_to(input@, next) && final(output)@ == old(
                output,
            )@.push(Msg { sender: self.party_i, receiver: None, body: next.commitment }),
    {
        let n = self.n as usize;
        if self.party_i < 1 || self.party_i > self.n || input.len() != n - 1 || self.parties.len()
            != n {
            return Err(ProceedError::Round3(Error::InvalidParameters));
        }
        let me = self.party_i as usize - 1;
        let ghost received = self.received(input@);
        let mut gamma_vec = input;
        gamma_vec.insert(me, self.local_sig);
        assert(gamma_vec@ == received);
        let parties_points_vec = match zero_based_indices(&self.parties) {
            Some(v) => v,
            None => {
                return Err(ProceedError::Round3(Error::InvalidParameters));
            },
        };
        let vss_sum = match LocalSig::verify_local_sigs(
            &gamma_vec,
            &parties_points_vec,
            &self.private_key.vss_scheme_vec,
            &self.tmpkey.vss_scheme_vec,
        ) {
            Ok(vss_sum) => vss_sum,
            Err(e) => {
                return Err(ProceedError::Round3(e));
            },
        };
        assert(vss_sum.commitments.len() == vss_sum.commitment_encodings().len());
        let commitment = if me < vss_sum.commitments.len() {
            assert(vss_sum.commitment_encodings()[me as int] == vss_sum.commitments[me as int]@);
            vss_sum.commitments[me]
        } else {
            Point::identity()
        };
        output.push(Msg { sender: self.party_i, receiver: None, body: commitment });
        Ok(
            Round4 {
                tmpkey: self.tmpkey,
                local_sigs: gamma_vec,
                commitment,
                private_key: self.private_key,
                message: self.message,
                party_i: self.party_i,
                t: self.t,
                n: self.n,
                parties: self.parties,
            },
        )
    }

    /// A hint to the driver: the round computes on the curve.
    pub fn is_expensive(&self) -> (r: bool)
        ensures
            r,
    {
        true
    }

    /// The inbox for this round's input: the local signatures of the
    /// `n - 1` peers of signer `i`.
    pub fn expects_messages(i: u16, n: u16) -> (store: BroadcastMsgsStore<Body>)
        requires
            n >= 1,
        ensures
            broadcast_owner(store) == i,
            broadcast_slots(store) == no_messages::<Body>(n),
    {
        broadcast_store_new(i, n)
    }
}

/// The signers' 0-based indices; `None` where a signer is given by 0.
fn zero_based_indices(parties: &Vec<usize>) -> (r: Option<Vec<usize>>)
    ensures
        r is Some <==> forall|k: int| 0 <= k < parties.len() ==> #[trigger] parties[k] >= 1,
        r matches Some(v) ==> v@ == zero_based(parties@),
{
    let mut v: Vec<usize> = Vec::new();
    let mut k: usize = 0;
    while k < parties.len()
        invariant
            k <= parties.len(),
            v.len() == k,
            forall|q: int| 0 <= q < k ==> #[trigger] parties[q] >= 1,
            forall|q: int| 0 <= q < k ==> #[trigger] v[q] == parties[q] - 1,
        decreases parties.len() - k,
    {
        if parties[k] < 1 {
            return None;
        }
        v.push(parties[k] - 1);
        k += 1;
    }
    assert(v@ =~= zero_based(parties@));
    Some(v)
}

impl Round4 {
    /// The commitments of all signers, this party's own among the `peers`'.
    pub open spec fn received(self, peers: Seq<Point>) -> Seq<Point> {
        including_me(peers, self.party_i, self.commitment)
    }

    /// What `proceed` asks of the round and its input: the party is one of
    /// the `n` signers, every peer has sent its commitment, there is a local
    /// signature for each signer, the party is given by an index from 1 that
    /// fits 16 bits, and there is a dealing of a nonce.
    pub open spec fn inputs_valid(self, peers: Seq<Point>) -> bool {
        &&& 1 <= self.party_i <= self.n
        &&& peers.len() + 1 == self.n
        &&& self.local_sigs.len() == self.n
        &&& self.parties.len() == self.n
        &&& 1 <= self.parties[self.party_i - 1] <= 0xFFFF
        &&& self.tmpkey.vss_scheme_vec.len() >= 1
    }

    /// Whether the party's own local signature lies on the polynomial that
    /// the broadcast commitments commit to, at the party's point.
    pub open spec fn verdict(self, peers: Seq<Point>) -> bool {
        vss_point_valid(
            encodings(self.received(peers)),
            ec_mul(generator_encoding(), self.local_sigs[self.party_i - 1].gamma_i@),
            self.parties[self.party_i - 1] as u16,
        )
    }

    /// Whether the round proceeds on the peers' commitments.
    pub open spec fn accepts(self, peers: Seq<Point>) -> bool {
        self.inputs_valid(peers)
    }

    /// The error that the round fails with where it does not proceed.
    pub open spec fn failure(self, peers: Seq<Point>) -> ProceedError {
        ProceedError::Round4(Error::InvalidParameters)
    }

    /// Whether `next` is the state that this round leads to: it holds the
    /// commitments that were broadcast, under the parameters of the dealings
    /// of the nonces, and the party's verdict on its own local signature.
    pub open spec fn leads_to(self, peers: Seq<Point>, next: Round5) -> bool {
        &&& next.vss_sum.commitments@ == self.received(peers)
        &&& next.vss_sum.parameters == self.tmpkey.vss_scheme_vec[0].parameters
        &&& next.verdict == self.verdict(peers)
        &&& next.local_sigs == self.local_sigs
        &&& next.tmpkey == self.tmpkey
        &&& next.private_key == self.private_key
        &&& next.message == self.message
        &&& next.party_i == self.party_i
        &&& next.t == self.t
        &&& next.n == self.n
        &&& next.parties == self.parties
    }

    /// Puts the commitments that were broadcast together, checks the
    /// party's own local signature against them and queues the broadcast of
    /// the verdict. `input` holds the peers' commitments in the order of the
    /// signers.
    pub fn proceed(self, input: Vec<Point>, output: &mut Vec<Msg<bool>>) -> (r: Result<
        Round5,
        ProceedError,
    >)
        ensures
            r is Ok <==> self.accepts(input@),
            r matches Err(e) ==> final(output)@ == old(output)@ && e == self.failure(input@),
            r matches Ok(next) ==> self.leads_to(input@, next) && final(output)@ == old(
                output,
            )@.push(Msg { sender: self.party_i, receiver: None, body: next.verdict }),
    {
        let n = self.n as usize;
        if self.party_i < 1 || self.party_i > self.n || input.len() != n - 1
            || self.local_sigs.len() != n || self.parties.len() != n
            || self.tmpkey.vss_scheme_vec.len() < 1 {
            return Err(ProceedError::Round4(Error::InvalidParameters));
        }
        let me = self.party_i as usize - 1;
        if self.parties[me] < 1 || self.parties[me] > 0xFFFF {
            return Err(ProceedError::Round4(Error::InvalidParameters));
        }
        let mut commitments = input;
        commitments.insert(me, self.commitment);
        let vss_sum = VerifiableSS {
            parameters: self.tmpkey.vss_scheme_vec[0].parameters,
            commitments,
        };
        let gamma_i_g = Point::generator().times(&self.local_sigs[me].gamma_i);
        let verdict = vss_sum.validate_share_public(&gamma_i_g, self.parties[me] as u16);
        output.push(Msg { sender: self.party_i, receiver: None, body: verdict });
        Ok(
            Round5 {
                tmpkey: self.tmpkey,
                local_sigs: self.local_sigs,
                vss_sum,
                verdict,
                private_key: self.private_key,
                message: self.message,
                party_i: self.party_i,
                t: self.t,
                n: self.n,
                parties: self.parties,
            },
        )
    }

    /// A hint to the driver: the round computes on the curve.
    pub fn is_expensive(&self) -> (r: bool)
        ensures
            r,
    {
        true
    }

    /// The inbox for this round's input: the commitments of the `n - 1`
    /// peers of signer `i`.
    pub fn expects_messages(i: u16, n: u16) -> (store: BroadcastMsgsStore<Body>)
        requires
            n >= 1,
        ensures
            broadcast_owner(store) == i,
            broadcast_slots(store) == no_messages::<Body>(n),
    {
        broadcast_store_new(i, n)
    }
}

impl Round5 {
    /// The verdicts of all signers, this party's own among the `peers`'.
    pub open spec fn received(self, peers: Seq<bool>) -> Seq<bool> {
        including_me(peers, self.party_i, self.verdict)
    }

    /// What `proceed` asks of the round and its input: the party is one of
    /// the `n` signers, every peer has sent its verdict, and the signers are
    /// given by indices from 1.
    pub open spec fn inputs_valid(self, peers: Seq<bool>) -> bool {
        &&& 1 <= self.party_i <= self.n
        &&& peers.len() + 1 == self.n
        &&& self.parties.len() == self.n
        &&& forall|k: int| 0 <= k < self.parties.len() ==> #[trigger] self.parties[k] >= 1
    }

    /// Whether every signer found its local signature valid.
    pub open spec fn all_agree(self, peers: Seq<bool>) -> bool {
        forall|k: int| 0 <= k < self.received(peers).len() ==> #[trigger] self.received(peers)[k]
    }

    /// Whether the local signatures of the first signers are enough to
    /// interpolate from.
    pub open spec fn reconstructs(self) -> bool {
        generate_inputs_valid(
            self.vss_sum.parameters.threshold,
            self.local_sigs@,
            zero_based(self.parties@),
        )
    }

    /// The scalar that the local signatures of the first signers
    /// interpolate to.
    pub open spec fn sigma(self) -> nat {
        interpolated_sigma(
            self.vss_sum.parameters.threshold,
            self.local_sigs@,
            zero_based(self.parties@),
        )
    }

    /// Whether the interpolated scalar and the joint nonce point are a
    /// signature on the message under the joint public key.
    pub open spec fn verifies(self) -> bool {
        signature_valid(
            self.private_key.shared_keys.y@,
            self.tmpkey.shared_keys.y@,
            self.sigma(),
            self.message@,
        )
    }

    /// Whether the round proceeds on the peers' verdicts: every signer found
    /// its local signature valid, the local signatures are enough to
    /// interpolate from, and what they interpolate to is a signature.
    pub open spec fn accepts(self, peers: Seq<bool>) -> bool {
        &&& self.inputs_valid(peers)
        &&& self.all_agree(peers)
        &&& self.reconstructs()
        &&& self.verifies()
    }

    /// The error that the round fails with where it does not proceed:
    /// `InvalidSig` where a signer's verdict is false or the interpolated
    /// signature does not verify, `InvalidParameters` where the input is
    /// malformed.
    pub open spec fn failure(self, peers: Seq<bool>) -> ProceedError {
        ProceedError::Round5(
            if !self.inputs_valid(peers) {
                Error::InvalidParameters
            } else if !self.all_agree(peers) {
                Error::InvalidSig
            } else if !self.reconstructs() {
                Error::InvalidParameters
            } else {
                Error::InvalidSig
            },
        )
    }

    /// Whether `res` is the signature that this round leads to: the joint
    /// nonce point and the scalar that the local signatures interpolate to,
    /// which verify under the joint public key.
    pub open spec fn leads_to(self, peers: Seq<bool>, res: SigRes) -> bool {
        &&& res.signature.v == self.tmpkey.shared_keys.y
        &&& res.signature.sigma@ == self.sigma()
        &&& signature_valid(
            self.private_key.shared_keys.y@,
            res.signature.v@,
            res.signature.sigma@,
            self.message@,
        )
    }

    /// Reads the signers' verdicts, interpolates the signature from the
    /// local signatures and checks it. `input` holds the peers' verdicts in
    /// the order of the signers.
    pub fn proceed(self, input: Vec<bool>) -> (r: Result<SigRes, ProceedError>)
        ensures
            r is Ok <==> self.accepts(input@),
            r matches Err(e) ==> e == self.failure(input@),
            r matches Ok(res) ==> self.leads_to(input@, res),
    {
        let n = self.n as usize;
        if self.party_i < 1 || self.party_i > self.n || input.len() != n - 1 || self.parties.len()
            != n {
            return Err(ProceedError::Round5(Error::InvalidParameters));
        }
        let me = self.party_i as usize - 1;
        let parties_points_vec = match zero_based_indices(&self.parties) {
            Some(v) => v,
            None => {
                return Err(ProceedError::Round5(Error::InvalidParameters));
            },
        };
        let ghost received = self.received(input@);
        let mut verdicts = input;
        verdicts.insert(me, self.verdict);
        assert(verdicts@ == received);
        let mut k: usize = 0;
        while k < n
            invariant
                k <= n,
                verdicts.len() == n,
                verdicts@ == received,
                received == self.received(input@),
                self.inputs_valid(input@),
                forall|q: int| 0 <= q < k ==> #[trigger] received[q],
            decreases n - k,
        {
            if !verdicts[k] {
                return Err(ProceedError::Round5(Error::InvalidSig));
            }
            k += 1;
        }
        let signature = match Signature::generate(
            &self.vss_sum,
            &self.local_sigs,
            &parties_points_vec,
            self.tmpkey.public_key(),
        ) {
            Ok(signature) => signature,
            Err(e) => {
                return Err(ProceedError::Round5(e));
            },
        };
        match signature.verify(self.message.as_slice(), &self.private_key.shared_keys.y) {
            Ok(()) => Ok(SigRes { signature }),
            Err(e) => Err(ProceedError::Round5(e)),
        }
    }

    /// A hint to the driver: the round computes on the curve.
    pub fn is_expensive(&self) -> (r: bool)
        ensures
            r,
    {
        true
    }

    /// The inbox for this round's input: the verdicts of the `n - 1` peers
    /// of signer `i`.
    pub fn expects_messages(i: u16, n: u16) -> (store: BroadcastMsgsStore<Body>)
        requires
            n >= 1,
        ensures
            broadcast_owner(store) == i,
            broadcast_slots(store) == no_messages::<Body>(n),
    {
        broadcast_store_new(i, n)
    }
}

} // verus!
