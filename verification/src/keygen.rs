//! Distributed key generation as a state machine that the caller drives:
//! feed it the peers' messages, let it proceed when a round's messages are
//! complete, and ship what it queues.

pub mod rounds;

use crate::curve::Scalar;
use crate::error::{Error, MachineError};
use crate::store::{
    broadcast_owner, broadcast_slots, broadcast_store_finish, broadcast_store_push,
    broadcast_store_wants_more, direct_owner, direct_slots, direct_store_finish,
    direct_store_push, direct_store_wants_more, lemma_phase1_slots, lemma_share_slots,
    no_messages, only_phase1, only_share, phase1_messages, phase1_slots, share_messages,
    share_slots, slot_of, takes, views, wants, Body, Msg,
};
use crate::vss::{VerifiableSS, VssView};
use round_based::containers::BroadcastMsgsStore;
use round_based::containers::P2PMsgsStore;
pub use rounds::{BroadcastPhase1, LocalKey, ProceedError};
use rounds::{Phase1View, Round0, Round1, Round2};
use vstd::prelude::*;

verus! {

/// The body of a message of key generation.
pub enum M {
    Round1(BroadcastPhase1),
    Round2((VerifiableSS, Scalar)),
}

/// A message of key generation as it goes over the wire.
pub struct ProtocolMessage(pub M);

/// What a message of key generation says.
pub enum MView {
    Round1(Phase1View),
    Round2((VssView, nat)),
}

impl View for ProtocolMessage {
    type V = MView;

    open spec fn view(&self) -> MView {
        match self.0 {
            M::Round1(b) => MView::Round1(b@),
            M::Round2(s) => MView::Round2(s@),
        }
    }
}

/// Where a party stands in key generation.
pub enum R {
    Round0(Round0),
    Round1(Round1),
    Round2(Round2),
    Final(LocalKey),
    Gone,
}

/// A party's key generation.
pub struct Keygen {
    round: R,
    msgs1: Option<BroadcastMsgsStore<Body>>,
    msgs2: Option<P2PMsgsStore<Body>>,
    msgs_queue: Vec<Msg<ProtocolMessage>>,
    party_i: u16,
    party_n: u16,
}

/// The first-phase broadcasts as messages of key generation.
pub open spec fn wrap_phase1(out: Seq<Msg<BroadcastPhase1>>) -> Seq<Msg<MView>> {
    out.map_values(
        |m: Msg<BroadcastPhase1>|
            Msg { sender: m.sender, receiver: m.receiver, body: MView::Round1(m.body@) },
    )
}

/// The dealt shares as messages of key generation.
pub open spec fn wrap_shares(out: Seq<Msg<(VerifiableSS, Scalar)>>) -> Seq<Msg<MView>> {
    out.map_values(
        |m: Msg<(VerifiableSS, Scalar)>|
            Msg { sender: m.sender, receiver: m.receiver, body: MView::Round2(m.body@) },
    )
}

/// Moves the first-phase broadcasts of a round to the machine's queue.
fn queue_phase1(queue: &mut Vec<Msg<ProtocolMessage>>, out: Vec<Msg<BroadcastPhase1>>)
    ensures
        views(final(queue)@) == views(old(queue)@) + wrap_phase1(out@),
{
    let ghost all = out@;
    let ghost before = queue@;
    let mut out = out;
    let mut done: Ghost<int> = Ghost(0);
    while out.len() > 0
        invariant
            0 <= done@ <= all.len(),
            out@ == all.subrange(done@, all.len() as int),
            views(queue@) == views(before) + wrap_phase1(all.subrange(0, done@)),
        decreases out.len(),
    {
        let ghost sent = queue@;
        let Msg { sender, receiver, body } = out.remove(0);
        let msg = Msg { sender, receiver, body: ProtocolMessage(M::Round1(body)) };
        queue.push(msg);
        proof {
            assert(msg@ == wrap_phase1(all)[done@]);
            assert(views(queue@) =~= views(sent).push(msg@));
            assert(wrap_phase1(all.subrange(0, done@ + 1)) =~= wrap_phase1(
                all.subrange(0, done@),
            ).push(msg@));
            assert(out@ =~= all.subrange(done@ + 1, all.len() as int));
            done@ = done@ + 1;
        }
    }
    assert(all.subrange(0, done@) =~= all);
}

/// Moves the dealt shares of a round to the machine's queue.
fn queue_shares(queue: &mut Vec<Msg<ProtocolMessage>>, out: Vec<Msg<(VerifiableSS, Scalar)>>)
    ensures
        views(final(queue)@) == views(old(queue)@) + wrap_shares(out@),
{
    let ghost all = out@;
    let ghost before = queue@;
    let mut out = out;
    let mut done: Ghost<int> = Ghost(0);
    while out.len() > 0
        invariant
            0 <= done@ <= all.len(),
            out@ == all.subrange(done@, all.len() as int),
            views(queue@) == views(before) + wrap_shares(all.subrange(0, done@)),
        decreases out.len(),
    {
        let ghost sent = queue@;
        let Msg { sender, receiver, body } = out.remove(0);
        let msg = Msg { sender, receiver, body: ProtocolMessage(M::Round2(body)) };
        queue.push(msg);
        proof {
            assert(msg@ == wrap_shares(all)[done@]);
            assert(views(queue@) =~= views(sent).push(msg@));
            assert(wrap_shares(all.subrange(0, done@ + 1)) =~= wrap_shares(
                all.subrange(0, done@),
            ).push(msg@));
            assert(out@ =~= all.subrange(done@ + 1, all.len() as int));
            done@ = done@ + 1;
        }
    }
    assert(all.subrange(0, done@) =~= all);
}

/// What fills the slots of an inbox, in their order.
pub open spec fn contents<B>(slots: Seq<Option<B>>) -> Seq<B> {
    Seq::new(slots.len(), |k: int| slots[k]->0)
}

impl Keygen {
    /// Where the party stands.
    pub closed spec fn round(&self) -> R {
        self.round
    }

    /// The slots of the inbox for first-phase broadcasts, until the round
    /// that reads them has taken the inbox.
    pub closed spec fn inbox1(&self) -> Option<Seq<Option<BroadcastPhase1>>> {
        match self.msgs1 {
            Some(store) => Some(phase1_slots(broadcast_slots(store))),
            None => None,
        }
    }

    /// The slots of the inbox for dealt shares, until the round that reads
    /// them has taken the inbox.
    pub closed spec fn inbox2(&self) -> Option<Seq<Option<(VerifiableSS, Scalar)>>> {
        match self.msgs2 {
            Some(store) => Some(share_slots(direct_slots(store))),
            None => None,
        }
    }

    /// What the messages that wait to be shipped say.
    pub closed spec fn queue(&self) -> Seq<Msg<MView>> {
        views(self.msgs_queue@)
    }

    /// The party's 1-based index.
    pub closed spec fn index(&self) -> u16 {
        self.party_i
    }

    /// The number of parties.
    pub closed spec fn count(&self) -> u16 {
        self.party_n
    }

    /// Whether the inboxes belong to the party and each holds nothing but
    /// messages of its round.
    pub closed spec fn owned(&self) -> bool {
        &&& self.msgs1 matches Some(store) ==> broadcast_owner(store) == self.party_i
            && only_phase1(broadcast_slots(store))
        &&& self.msgs2 matches Some(store) ==> direct_owner(store) == self.party_i && only_share(
            direct_slots(store),
        )
    }

    /// The machine's invariant: the party is one of at least two, each
    /// inbox has a slot for each peer, and the round that the party stands
    /// in is this party's and has its inbox.
    pub open spec fn wf(&self) -> bool {
        &&& 1 <= self.index() <= self.count()
        &&& 2 <= self.count()
        &&& self.owned()
        &&& match self.inbox1() {
            Some(slots) => slots.len() == self.count() - 1,
            None => true,
        }
        &&& match self.inbox2() {
            Some(slots) => slots.len() == self.count() - 1,
            None => true,
        }
        &&& match self.round() {
            R::Round0(r) => r.party_i == self.index() && r.n == self.count() && self.inbox1()
                is Some && self.inbox2() is Some,
            R::Round1(r) => r.party_i == self.index() && r.n == self.count() && self.inbox1()
                is Some && self.inbox2() is Some,
            R::Round2(r) => r.party_i == self.index() && r.n == self.count() && self.inbox2()
                is Some,
            _ => true,
        }
    }

    /// Whether the round that the party stands in has all it needs: round 0
    /// needs nothing, rounds 1 and 2 a message from every peer.
    pub open spec fn ready(&self) -> bool {
        match self.round() {
            R::Round0(_) => true,
            R::Round1(_) => self.inbox1() matches Some(slots) && !wants(slots),
            R::Round2(_) => self.inbox2() matches Some(slots) && !wants(slots),
            _ => false,
        }
    }

    /// A machine for party `i` of `n` with threshold `t`, in round 0.
    pub fn new(i: u16, t: u16, n: u16) -> (r: Result<Keygen, Error>)
        ensures
            r is Ok <==> 2 <= n && 1 <= t < n && 1 <= i <= n,
            r matches Err(e) ==> e == Error::InvalidParameters,
            r matches Ok(machine) ==> {
                &&& machine.wf()
                &&& machine.index() == i
                &&& machine.count() == n
                &&& machine.queue() == Seq::<Msg<MView>>::empty()
                &&& machine.inbox1() == Some(no_messages::<BroadcastPhase1>(n))
                &&& machine.inbox2() == Some(no_messages::<(VerifiableSS, Scalar)>(n))
                &&& machine.round() matches R::Round0(r0) && r0.party_i == i && r0.t == t && r0.n
                    == n && r0.parties@ == Seq::new(n as nat, |k: int| (k + 1) as usize)
            },
    {
        if n < 2 || t < 1 || t >= n || i < 1 || i > n {
            return Err(Error::InvalidParameters);
        }
        let mut parties: Vec<usize> = Vec::new();
        let mut k: usize = 0;
        while k < n as usize
            invariant
                k <= n,
                parties.len() == k,
                forall|j: int| 0 <= j < k ==> #[trigger] parties[j] == j + 1,
            decreases n - k,
        {
            parties.push(k + 1);
            k += 1;
        }
        assert(parties@ =~= Seq::new(n as nat, |k: int| (k + 1) as usize));
        let machine = Keygen {
            round: R::Round0(Round0 { party_i: i, t, n, parties }),
            msgs1: Some(Round1::expects_messages(i, n)),
            msgs2: Some(Round2::expects_messages(i, n)),
            msgs_queue: Vec::new(),
            party_i: i,
            party_n: n,
        };
        proof {
            let empty = no_messages::<Body>(n);
            assert(machine.queue() =~= Seq::<Msg<MView>>::empty());
            assert(phase1_slots(empty) =~= no_messages::<BroadcastPhase1>(n));
            assert(share_slots(empty) =~= no_messages::<(VerifiableSS, Scalar)>(n));
        }
        Ok(machine)
    }

    /// Takes a message from a peer into the inbox of the round it belongs
    /// to. A message that the inbox refuses, or whose round is over, leaves
    /// the machine as it was.
    pub fn handle_incoming(&mut self, msg: Msg<ProtocolMessage>) -> (r: Result<
        (),
        MachineError<ProceedError>,
    >)
        requires
            old(self).wf(),
        ensures
            final(self).wf(),
            final(self).round() == old(self).round(),
            final(self).queue() == old(self).queue(),
            final(self).index() == old(self).index(),
            final(self).count() == old(self).count(),
            r is Ok <==> old(self).takes_message(msg),
            r matches Err(e) ==> e == MachineError::<ProceedError>::Driver(Error::InvalidParameters)
                && final(self).inbox1() == old(self).inbox1() && final(self).inbox2() == old(
                self,
            ).inbox2(),
            r is Ok ==> match msg.body.0 {
                M::Round1(b) => final(self).inbox2() == old(self).inbox2() && final(self).inbox1()
                    == Some(
                    old(self).inbox1()->0.update(slot_of(msg.sender, old(self).index()), Some(b)),
                ),
                M::Round2(s) => final(self).inbox1() == old(self).inbox1() && final(self).inbox2()
                    == Some(
                    old(self).inbox2()->0.update(slot_of(msg.sender, old(self).index()), Some(s)),
                ),
            },
    {
        let Msg { sender, receiver, body } = msg;
        match body.0 {
            M::Round1(b) => {
                match self.msgs1.take() {
                    Some(store) => {
                        let mut store = store;
                        let ghost before = broadcast_slots(store);
                        proof {
                            lemma_phase1_slots(before);
                        }
                        let body = Body::Phase1(b);
                        let taken = broadcast_store_push(&mut store, Msg { sender, receiver, body });
                        proof {
                            let slot = slot_of(sender, self.party_i);
                            if taken {
                                assert(phase1_slots(before.update(slot, Some(body))) =~= phase1_slots(
                                    before,
                                ).update(slot, Some(b)));
                            }
                        }
                        self.msgs1 = Some(store);
                        if taken {
                            Ok(())
                        } else {
                            Err(MachineError::Driver(Error::InvalidParameters))
                        }
                    },
                    None => Err(MachineError::Driver(Error::InvalidParameters)),
                }
            },
            M::Round2(s) => {
                match self.msgs2.take() {
                    Some(store) => {
                        let mut store = store;
                        let ghost before = direct_slots(store);
                        proof {
                            lemma_share_slots(before);
                        }
                        let body = Body::Share(s);
                        let taken = direct_store_push(&mut store, Msg { sender, receiver, body });
                        proof {
                            let slot = slot_of(sender, self.party_i);
                            if taken {
                                assert(share_slots(before.update(slot, Some(body))) =~= share_slots(
                                    before,
                                ).update(slot, Some(s)));
                            }
                        }
                        self.msgs2 = Some(store);
                        if taken {
                            Ok(())
                        } else {
                            Err(MachineError::Driver(Error::InvalidParameters))
                        }
                    },
                    None => Err(MachineError::Driver(Error::InvalidParameters)),
                }
            },
        }
    }

    /// Whether the machine takes `msg`: its round's inbox is still there,
    /// the message is of the inbox's kind (a broadcast in round 1, a message
    /// to this party in round 2) and comes from a peer that has not sent one
    /// yet.
    pub open spec fn takes_message(&self, msg: Msg<ProtocolMessage>) -> bool {
        match msg.body.0 {
            M::Round1(_) => self.inbox1() matches Some(slots) && msg.receiver is None && takes(
                slots,
                self.index(),
                msg.sender,
            ),
            M::Round2(_) => self.inbox2() matches Some(slots) && msg.receiver == Some(self.index())
                && takes(slots, self.index(), msg.sender),
        }
    }

    /// Whether the round that the party stands in has all it needs.
    pub fn wants_to_proceed(&self) -> (r: bool)
        requires
            self.wf(),
        ensures
            r == self.ready(),
    {
        match &self.round {
            R::Round0(_) => true,
            R::Round1(_) => match &self.msgs1 {
                Some(store) => {
                    proof {
                        lemma_phase1_slots(broadcast_slots(*store));
                    }
                    !broadcast_store_wants_more(store)
                },
                None => false,
            },
            R::Round2(_) => match &self.msgs2 {
                Some(store) => {
                    proof {
                        lemma_share_slots(direct_slots(*store));
                    }
                    !direct_store_wants_more(store)
                },
                None => false,
            },
            _ => false,
        }
    }

    /// The messages that wait to be shipped; the queue is empty afterwards.
    pub fn message_queue(&mut self) -> (r: Vec<Msg<ProtocolMessage>>)
        requires
            old(self).wf(),
        ensures
            final(self).wf(),
            views(r@) == old(self).queue(),
            final(self).queue() == Seq::<Msg<MView>>::empty(),
            final(self).round() == old(self).round(),
            final(self).inbox1() == old(self).inbox1(),
            final(self).inbox2() == old(self).inbox2(),
            final(self).index() == old(self).index(),
            final(self).count() == old(self).count(),
    {
        let mut queue: Vec<Msg<ProtocolMessage>> = Vec::new();
        std::mem::swap(&mut self.msgs_queue, &mut queue);
        assert(self.queue() =~= Seq::<Msg<MView>>::empty());
        queue
    }

    /// Whether key generation has ended with a local key that waits to be
    /// picked.
    pub fn is_finished(&self) -> (r: bool)
        ensures
            r == (self.round() is Final),
    {
        match &self.round {
            R::Final(_) => true,
            _ => false,
        }
    }

    /// The number of the round that the party stands in; 3 when key
    /// generation is over.
    pub fn current_round(&self) -> (r: u16)
        ensures
            r == match self.round() {
                R::Round0(_) => 0u16,
                R::Round1(_) => 1u16,
                R::Round2(_) => 2u16,
                _ => 3u16,
            },
    {
        match &self.round {
            R::Round0(_) => 0,
            R::Round1(_) => 1,
            R::Round2(_) => 2,
            _ => 3,
        }
    }

    /// The number of rounds that take input.
    pub fn total_rounds(&self) -> (r: Option<u16>)
        ensures
            r == Some(2u16),
    {
        Some(2)
    }

    /// The party's index, from 1.
    pub fn party_ind(&self) -> (r: u16)
        ensures
            r == self.index(),
    {
        self.party_i
    }

    /// The number of parties that take part.
    pub fn parties(&self) -> (r: u16)
        ensures
            r == self.count(),
    {
        self.party_n
    }

    /// Whether `after` and `r` are what proceeding leads to from a machine
    /// that is ready. Round 0 queues the party's broadcast. Round 1 reads the
    /// peers' broadcasts and queues a share for each peer. Round 2 reads
    /// the peers' shares and ends with the local key. A round that takes
    /// input succeeds if and only if it accepts the input; where it fails,
    /// the machine is gone.
    pub open spec fn steps_to(&self, after: Keygen, r: Result<(), MachineError<ProceedError>>) -> bool {
        match self.round() {
            R::Round0(r0) => {
                &&& r is Ok
                &&& after.inbox1() == self.inbox1()
                &&& after.inbox2() == self.inbox2()
                &&& after.round() matches R::Round1(next)
                &&& r0.leads_to(next)
                &&& after.queue() == self.queue().push(
                    (Msg {
                        sender: self.index(),
                        receiver: None,
                        body: MView::Round1(next.mybroadcast@),
                    }),
                )
            },
            R::Round1(r1) => {
                let peers = contents(self.inbox1()->0);
                &&& after.inbox1() is None
                &&& after.inbox2() == self.inbox2()
                &&& r is Ok <==> r1.accepts(peers)
                &&& r matches Err(e) ==> e == MachineError::ProceedRound(r1.failure(peers))
                    && after.round() is Gone && after.queue() == self.queue()
                &&& r is Ok ==> after.round() is Round2 && exists|
                    sent: Seq<Msg<(VerifiableSS, Scalar)>>,
                |
                    #[trigger] r1.leads_to(peers, after.round()->Round2_0, sent) && after.queue()
                        == self.queue() + wrap_shares(sent)
            },
            R::Round2(r2) => {
                let peers = contents(self.inbox2()->0);
                &&& after.inbox1() == self.inbox1()
                &&& after.inbox2() is None
                &&& after.queue() == self.queue()
                &&& r is Ok <==> r2.accepts(peers)
                &&& r matches Err(e) ==> e == MachineError::ProceedRound(r2.failure(peers))
                    && after.round() is Gone
                &&& r is Ok ==> after.round() is Final && r2.leads_to(
                    peers,
                    after.round()->Final_0,
                )
            },
            _ => true,
        }
    }

    /// Lets the round that the party stands in do its work. A round whose
    /// messages are not complete refuses with `NotEnoughMessages`, and a
    /// machine that has ended refuses with `InvalidParameters`; both leave
    /// the machine as it was.
    pub fn proceed(&mut self) -> (r: Result<(), MachineError<ProceedError>>)
        requires
            old(self).wf(),
        ensures
            final(self).wf(),
            final(self).index() == old(self).index(),
            final(self).count() == old(self).count(),
            old(self).round() is Final || old(self).round() is Gone ==> *final(self) == *old(self)
                && r == Err::<(), MachineError<ProceedError>>(
                MachineError::Driver(Error::InvalidParameters),
            ),
            (old(self).round() is Round1 || old(self).round() is Round2) && !old(self).ready()
                ==> *final(self) == *old(self) && r == Err::<(), MachineError<ProceedError>>(
                MachineError::Driver(Error::NotEnoughMessages),
            ),
            old(self).ready() ==> old(self).steps_to(*final(self), r),
    {
        match &self.round {
            R::Final(_) => {
                return Err(MachineError::Driver(Error::InvalidParameters));
            },
            R::Gone => {
                return Err(MachineError::Driver(Error::InvalidParameters));
            },
            _ => {},
        }
        if !self.wants_to_proceed() {
            return Err(MachineError::Driver(Error::NotEnoughMessages));
        }
        match self.current_round() {
            0 => self.proceed_round0(),
            1 => self.proceed_round1(),
            _ => self.proceed_round2(),
        }
    }

    /// Takes the round out of the machine, which is gone until the round's
    /// successor is put in.
    fn take_round(&mut self) -> (round: R)
        ensures
            round == old(self).round(),
            final(self).round() is Gone,
            final(self).queue() == old(self).queue(),
            final(self).index() == old(self).index(),
            final(self).count() == old(self).count(),
            final(self).inbox1() == old(self).inbox1(),
            final(self).inbox2() == old(self).inbox2(),
            final(self).owned() == old(self).owned(),
            final(self).msgs1 == old(self).msgs1,
            final(self).msgs2 == old(self).msgs2,
            final(self).msgs_queue == old(self).msgs_queue,
    {
        let mut round = R::Gone;
        std::mem::swap(&mut self.round, &mut round);
        round
    }

    /// Round 0: draws the key pair and queues its commitment.
    fn proceed_round0(&mut self) -> (r: Result<(), MachineError<ProceedError>>)
        requires
            old(self).wf(),
            old(self).round() is Round0,
        ensures
            final(self).wf(),
            final(self).index() == old(self).index(),
            final(self).count() == old(self).count(),
            old(self).steps_to(*final(self), r),
    {
        let ghost before = *self;
        match self.take_round() {
            R::Round0(r0) => {
                let mut out: Vec<Msg<BroadcastPhase1>> = Vec::new();
                match r0.proceed(&mut out) {
                    Ok(next) => {
                        proof {
                            assert(views(out@) =~= seq![r0.announces(next)]);
                            assert(out@.len() == views(out@).len());
                            assert(views(out@)[0] == out@[0]@);
                            assert(wrap_phase1(out@) =~= seq![
                                (Msg {
                                    sender: self.party_i,
                                    receiver: None,
                                    body: MView::Round1(next.mybroadcast@),
                                }),
                            ]);
                        }
                        self.round = R::Round1(next);
                        queue_phase1(&mut self.msgs_queue, out);
                        assert(self.queue() =~= before.queue().push(
                            (Msg {
                                sender: self.party_i,
                                receiver: None,
                                body: MView::Round1(next.mybroadcast@),
                            }),
                        ));
                        Ok(())
                    },
                    Err(e) => Err(MachineError::ProceedRound(e)),
                }
            },
            _ => Err(MachineError::Driver(Error::InvalidParameters)),
        }
    }

    /// Round 1: reads the peers' commitments, deals the secret and queues
    /// the shares.
    fn proceed_round1(&mut self) -> (r: Result<(), MachineError<ProceedError>>)
        requires
            old(self).wf(),
            old(self).round() is Round1,
            old(self).ready(),
        ensures
            final(self).wf(),
            final(self).index() == old(self).index(),
            final(self).count() == old(self).count(),
            old(self).steps_to(*final(self), r),
    {
        let ghost before = *self;
        match self.take_round() {
            R::Round1(r1) => {
                let store = self.msgs1.take().unwrap();
                let ghost slots = broadcast_slots(store);
                proof {
                    lemma_phase1_slots(slots);
                }
                let bodies = broadcast_store_finish(store).unwrap();
                let input = phase1_messages(bodies).unwrap();
                assert(input@ =~= contents(phase1_slots(slots)));
                let mut out: Vec<Msg<(VerifiableSS, Scalar)>> = Vec::new();
                match r1.proceed(input, &mut out) {
                    Ok(next) => {
                        self.round = R::Round2(next);
                        queue_shares(&mut self.msgs_queue, out);
                        proof {
                            assert(out@.subrange(0, out@.len() as int) =~= out@);
                            assert(r1.leads_to(input@, next, out@));
                            assert(self.queue() == before.queue() + wrap_shares(out@));
                            assert(before.inbox1()->0 == phase1_slots(slots));
                        }
                        Ok(())
                    },
                    Err(e) => Err(MachineError::ProceedRound(e)),
                }
            },
            _ => Err(MachineError::Driver(Error::InvalidParameters)),
        }
    }

    /// Round 2: reads the peers' shares and ends with the local key.
    fn proceed_round2(&mut self) -> (r: Result<(), MachineError<ProceedError>>)
        requires
            old(self).wf(),
            old(self).round() is Round2,
            old(self).ready(),
        ensures
            final(self).wf(),
            final(self).index() == old(self).index(),
            final(self).count() == old(self).count(),
            old(self).steps_to(*final(self), r),
    {
        match self.take_round() {
            R::Round2(r2) => {
                let store = self.msgs2.take().unwrap();
                let ghost slots = direct_slots(store);
                proof {
                    lemma_share_slots(slots);
                }
                let bodies = direct_store_finish(store).unwrap();
                let input = share_messages(bodies).unwrap();
                assert(input@ =~= contents(share_slots(slots)));
                match r2.proceed(input) {
                    Ok(key) => {
                        self.round = R::Final(key);
                        Ok(())
                    },
                    Err(e) => Err(MachineError::ProceedRound(e)),
                }
            },
            _ => Err(MachineError::Driver(Error::InvalidParameters)),
        }
    }

    /// Hands out the local key once key generation has ended; the machine
    /// is gone afterwards. `None` while it has not ended, and an error where
    /// the machine is gone.
    pub fn pick_output(&mut self) -> (r: Option<Result<LocalKey, MachineError<ProceedError>>>)
        requires
            old(self).wf(),
        ensures
            final(self).wf(),
            final(self).index() == old(self).index(),
            final(self).count() == old(self).count(),
            final(self).queue() == old(self).queue(),
            match old(self).round() {
                R::Final(key) => r == Some(Ok::<LocalKey, MachineError<ProceedError>>(key))
                    && final(self).round() is Gone,
                R::Gone => r == Some(
                    Err::<LocalKey, MachineError<ProceedError>>(
                        MachineError::Driver(Error::InvalidParameters),
                    ),
                ) && *final(self) == *old(self),
                _ => r is None && *final(self) == *old(self),
            },
    {
        match &self.round {
            R::Final(_) => {},
            R::Gone => {
                return Some(Err(MachineError::Driver(Error::InvalidParameters)));
            },
            _ => {
                return None;
            },
        }
        let mut round = R::Gone;
        std::mem::swap(&mut self.round, &mut round);
        match round {
            R::Final(key) => Some(Ok(key)),
            _ => None,
        }
    }
}

} // verus!
