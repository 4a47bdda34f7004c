//! Distributed signing as a state machine that the caller drives: feed it
//! the peers' messages, let it proceed when a round's messages are complete,
//! and ship what it queues.

pub mod rounds;

use crate::curve::{Point, Scalar};
use crate::error::{Error, MachineError};
use crate::keygen::contents;
use crate::keygen::rounds::{BroadcastPhase1, LocalKey, Phase1View};
use crate::party_i::LocalSig;
use crate::store::{
    broadcast_owner, broadcast_slots, broadcast_store_finish, broadcast_store_push,
    broadcast_store_wants_more, commitment_messages, commitment_slots, direct_owner, direct_slots,
    direct_store_finish, direct_store_push, direct_store_wants_more, lemma_commitment_slots,
    lemma_local_sig_slots, lemma_phase1_slots, lemma_share_slots, lemma_verdict_slots,
    local_sig_messages, local_sig_slots, no_messages, only_commitment, only_local_sig,
    only_phase1, only_share, only_verdict, phase1_messages, phase1_slots, share_messages,
    share_slots, slot_of, takes, verdict_messages, verdict_slots, views, wants, Body, Msg,
};
use crate::vss::{VerifiableSS, VssView};
use round_based::containers::BroadcastMsgsStore;
use round_based::containers::P2PMsgsStore;
pub use rounds::{ProceedError, SigRes};
use rounds::{signers_valid, Round0, Round1, Round2, Round3, Round4, Round5};
use vstd::prelude::*;

verus! {

/// The body of a message of signing.
pub enum M {
    Round1(BroadcastPhase1),
    Round2((VerifiableSS, Scalar)),
    Round3(LocalSig),
    Round4(Point),
    Round5(bool),
}

/// A message of signing as it goes over the wire.
pub struct ProtocolMessage(pub M);

/// What a message of signing says.
pub enum MView {
    Round1(Phase1View),
    Round2((VssView, nat)),
    Round3(LocalSig),
    Round4(Point),
    Round5(bool),
}

impl View for ProtocolMessage {
    type V = MView;

    open spec fn view(&self) -> MView {
        match self.0 {
            M::Round1(b) => MView::Round1(b@),
            M::Round2(s) => MView::Round2(s@),
            M::Round3(l) => MView::Round3(l),
            M::Round4(c) => MView::Round4(c),
            M::Round5(v) => MView::Round5(v),
        }
    }
}

/// Where a party stands in signing.
pub enum R {
    Round0(Round0),
    Round1(Round1),
    Round2(Round2),
    Round3(Round3),
    Round4(Round4),
    Round5(Round5),
    Final(SigRes),
    Gone,
}

/// A party's signing run.
pub struct Sign {
    round: R,
    msgs1: Option<BroadcastMsgsStore<Body>>,
    msgs2: Option<P2PMsgsStore<Body>>,
    msgs3: Option<BroadcastMsgsStore<Body>>,
    msgs4: Option<BroadcastMsgsStore<Body>>,
    msgs5: Option<BroadcastMsgsStore<Body>>,
    msgs_queue: Vec<Msg<ProtocolMessage>>,
    party_i: u16,
    party_n: u16,
}

/// The first-phase broadcasts as messages of signing.
pub open spec fn wrap_phase1(out: Seq<Msg<BroadcastPhase1>>) -> Seq<Msg<MView>> {
    out.map_values(
        |m: Msg<BroadcastPhase1>|
            Msg { sender: m.sender, receiver: m.receiver, body: MView::Round1(m.body@) },
    )
}

/// The dealt shares as messages of signing.
pub open spec fn wrap_shares(out: Seq<Msg<(VerifiableSS, Scalar)>>) -> Seq<Msg<MView>> {
    out.map_values(
        |m: Msg<(VerifiableSS, Scalar)>|
            Msg { sender: m.sender, receiver: m.receiver, body: MView::Round2(m.body@) },
    )
}

/// Moves the first-phase broadcasts of a round to the machine's queue.
fn queue_phase1(queue: &mut Vec<Msg<ProtocolMessage>>, out: Vec<Msg<BroadcastPhase1>>)
    ensures
        views(final(queue)@) == views(old(queue)@) + wrap_phase1(out@),
{
    let ghost all = out@;
    let ghost before = queue@;
    let mut out = out;
    let mut done: Ghost<int> = Ghost(0);
    while out.len() > 0
        invariant
            0 <= done@ <= all.len(),
            out@ == all.subrange(done@, all.len() as int),
            views(queue@) == views(before) + wrap_phase1(all.subrange(0, done@)),
        decreases out.len(),
    {
        let ghost sent = queue@;
        let Msg { sender, receiver, body } = out.remove(0);
        let msg = Msg { sender, receiver, body: ProtocolMessage(M::Round1(body)) };
        queue.push(msg);
        proof {
            assert(msg@ == wrap_phase1(all)[done@]);
            assert(views(queue@) =~= views(sent).push(msg@));
            assert(wrap_phase1(all.subrange(0, done@ + 1)) =~= wrap_phase1(
                all.subrange(0, done@),
            ).push(msg@));
            assert(out@ =~= all.subrange(done@ + 1, all.len() as int));
            done@ = done@ + 1;
        }
    }
    assert(all.subrange(0, done@) =~= all);
}

/// Moves the dealt shares of a round to the machine's queue.
fn queue_shares(queue: &mut Vec<Msg<ProtocolMessage>>, out: Vec<Msg<(VerifiableSS, Scalar)>>)
    ensures
        views(final(queue)@) == views(old(queue)@) + wrap_shares(out@),
{
    let ghost all = out@;
    let ghost before = queue@;
    let mut out = out;
    let mut done: Ghost<int> = Ghost(0);
    while out.len() > 0
        invariant
            0 <= done@ <= all.len(),
            out@ == all.subrange(done@, all.len() as int),
            views(queue@) == views(before) + wrap_shares(all.subrange(0, done@)),
        decreases out.len(),
    {
        let ghost sent = queue@;
        let Msg { sender, receiver, body } = out.remove(0);
        let msg = Msg { sender, receiver, body: ProtocolMessage(M::Round2(body)) };
        queue.push(msg);
        proof {
            assert(msg@ == wrap_shares(all)[done@]);
            assert(views(queue@) =~= views(sent).push(msg@));
            assert(wrap_shares(all.subrange(0, done@ + 1)) =~= wrap_shares(
                all.subrange(0, done@),
            ).push(msg@));
            assert(out@ =~= all.subrange(done@ + 1, all.len() as int));
            done@ = done@ + 1;
        }
    }
    assert(all.subrange(0, done@) =~= all);
}

/// Puts one message on the machine's queue.
fn queue_one(queue: &mut Vec<Msg<ProtocolMessage>>, sender: u16, body: M)
    ensures
        views(final(queue)@) == views(old(queue)@).push(
            (Msg { sender, receiver: None::<u16>, body: ProtocolMessage(body)@ }),
        ),
{
    let ghost before = queue@;
    let msg = Msg { sender, receiver: None, body: ProtocolMessage(body) };
    queue.push(msg);
    assert(views(queue@) =~= views(before).push(msg@));
}

impl Sign {
    /// Where the party stands.
    pub closed spec fn round(&self) -> R {
        self.round
    }

    /// The slots of the inbox for first-phase broadcasts, until the round
    /// that reads them has taken the inbox.
    pub closed spec fn inbox1(&self) -> Option<Seq<Option<BroadcastPhase1>>> {
        match self.msgs1 {
            Some(store) => Some(phase1_slots(broadcast_slots(store))),
            None => None,
        }
    }

    /// The slots of the inbox for dealt shares, until the round that reads
    /// them has taken the inbox.
    pub closed spec fn inbox2(&self) -> Option<Seq<Option<(VerifiableSS, Scalar)>>> {
        match self.msgs2 {
            Some(store) => Some(share_slots(direct_slots(store))),
            None => None,
        }
    }

    /// The slots of the inbox for local signatures, until the round that
    /// reads them has taken the inbox.
    pub closed spec fn inbox3(&self) -> Option<Seq<Option<LocalSig>>> {
        match self.msgs3 {
            Some(store) => Some(local_sig_slots(broadcast_slots(store))),
            None => None,
        }
    }

    /// The slots of the inbox for commitments, until the round that reads
    /// them has taken the inbox.
    pub closed spec fn inbox4(&self) -> Option<Seq<Option<Point>>> {
        match self.msgs4 {
            Some(store) => Some(commitment_slots(broadcast_slots(store))),
            None => None,
        }
    }

    /// The slots of the inbox for verdicts, until the round that reads them
    /// has taken the inbox.
    pub closed spec fn inbox5(&self) -> Option<Seq<Option<bool>>> {
        match self.msgs5 {
            Some(store) => Some(verdict_slots(broadcast_slots(store))),
            None => None,
        }
    }

    /// What the messages that wait to be shipped say.
    pub closed spec fn queue(&self) -> Seq<Msg<MView>> {
        views(self.msgs_queue@)
    }

    /// The party's place among the signers, from 1.
    pub closed spec fn index(&self) -> u16 {
        self.party_i
    }

    /// The number of signers.
    pub closed spec fn count(&self) -> u16 {
        self.party_n
    }

    /// Whether the inboxes belong to the party and each holds nothing but
    /// messages of its round.
    pub closed spec fn owned(&self) -> bool {
        &&& self.msgs1 matches Some(store) ==> broadcast_owner(store) == self.party_i
            && only_phase1(broadcast_slots(store))
        &&& self.msgs2 matches Some(store) ==> direct_owner(store) == self.party_i && only_share(
            direct_slots(store),
        )
        &&& self.msgs3 matches Some(store) ==> broadcast_owner(store) == self.party_i
            && only_local_sig(broadcast_slots(store))
        &&& self.msgs4 matches Some(store) ==> broadcast_owner(store) == self.party_i
            && only_commitment(broadcast_slots(store))
        &&& self.msgs5 matches Some(store) ==> broadcast_owner(store) == self.party_i
            && only_verdict(broadcast_slots(store))
    }

    /// The machine's invariant: the party is one of at least two signers,
    /// each inbox has a slot for each peer, and the round that the party
    /// stands in is this party's and has its inbox.
    pub open spec fn wf(&self) -> bool {
        &&& 1 <= self.index() <= self.count()
        &&& 2 <= self.count()
        &&& self.owned()
        &&& match self.inbox1() {
            Some(slots) => slots.len() == self.count() - 1,
            None => true,
        }
        &&& match self.inbox2() {
            Some(slots) => slots.len() == self.count() - 1,
            None => true,
        }
        &&& match self.inbox3() {
            Some(slots) => slots.len() == self.count() - 1,
            None => true,
        }
        &&& match self.inbox4() {
            Some(slots) => slots.len() == self.count() - 1,
            None => true,
        }
        &&& match self.inbox5() {
            Some(slots) => slots.len() == self.count() - 1,
            None => true,
        }
        &&& match self.round() {
            R::Round0(r) => r.party_i == self.index() && r.n == self.count() && self.inbox1()
                is Some && self.inbox2() is Some && self.inbox3() is Some && self.inbox4()
                is Some && self.inbox5() is Some,
            R::Round1(r) => r.party_i == self.index() && r.n == self.count() && self.inbox1()
                is Some && self.inbox2() is Some && self.inbox3() is Some && self.inbox4()
                is Some && self.inbox5() is Some,
            R::Round2(r) => r.party_i == self.index() && r.n == self.count() && self.inbox2()
                is Some && self.inbox3() is Some && self.inbox4() is Some && self.inbox5()
                is Some,
            R::Round3(r) => r.party_i == self.index() && r.n == self.count() && self.inbox3()
                is Some && self.inbox4() is Some && self.inbox5() is Some,
            R::Round4(r) => r.party_i == self.index() && r.n == self.count() && self.inbox4()
                is Some && self.inbox5() is Some,
            R::Round5(r) => r.party_i == self.index() && r.n == self.count() && self.inbox5()
                is Some,
            _ => true,
        }
    }

    /// Whether the round that the party stands in has all it needs: round 0
    /// needs nothing, the later rounds a message from every peer.
    pub open spec fn ready(&self) -> bool {
        match self.round() {
            R::Round0(_) => true,
            R::Round1(_) => self.inbox1() matches Some(slots) && !wants(slots),
            R::Round2(_) => self.inbox2() matches Some(slots) && !wants(slots),
            R::Round3(_) => self.inbox3() matches Some(slots) && !wants(slots),
            R::Round4(_) => self.inbox4() matches Some(slots) && !wants(slots),
            R::Round5(_) => self.inbox5() matches Some(slots) && !wants(slots),
            _ => false,
        }
    }

    /// A machine for the `i`-th of the signers `parties`, which are given by
    /// their indices in key generation, to sign `message` with `local_key`.
    /// The signers must be at least two and more than the key's threshold.
    pub fn new(message: Vec<u8>, i: u16, parties: Vec<usize>, local_key: LocalKey) -> (r: Result<
        Sign,
        Error,
    >)
        ensures
            r is Ok <==> 2 <= parties.len() <= 0xFFFF && 1 <= i <= parties.len() && local_key.t
                < parties.len() && signers_valid(parties@, local_key.n),
            r matches Err(e) ==> e == Error::InvalidParameters,
            r matches Ok(machine) ==> {
                &&& machine.wf()
                &&& machine.index() == i
                &&& machine.count() == parties.len()
                &&& machine.queue() == Seq::<Msg<MView>>::empty()
                &&& machine.inbox1() == Some(no_messages::<BroadcastPhase1>(parties.len() as u16))
                &&& machine.inbox2() == Some(
                    no_messages::<(VerifiableSS, Scalar)>(parties.len() as u16),
                )
                &&& machine.inbox3() == Some(no_messages::<LocalSig>(parties.len() as u16))
                &&& machine.inbox4() == Some(no_messages::<Point>(parties.len() as u16))
                &&& machine.inbox5() == Some(no_messages::<bool>(parties.len() as u16))
                &&& machine.round() == R::Round0(
                    Round0 {
                        private_key: local_key,
                        message,
                        party_i: i,
                        t: local_key.t,
                        n: parties.len() as u16,
                        parties,
                    },
                )
            },
    {
        if parties.len() < 2 || parties.len() > 0xFFFF {
            return Err(Error::InvalidParameters);
        }
        let n = parties.len() as u16;
        let t = local_key.t;
        let round = Round0 { private_key: local_key, message, party_i: i, t, n, parties };
        if i < 1 || i > n || t >= n || !rounds::signers_ok(&round) {
            return Err(Error::InvalidParameters);
        }
        let machine = Sign {
            round: R::Round0(round),
            msgs1: Some(Round1::expects_messages(i, n)),
            msgs2: Some(Round2::expects_messages(i, n)),
            msgs3: Some(Round3::expects_messages(i, n)),
            msgs4: Some(Round4::expects_messages(i, n)),
            msgs5: Some(Round5::expects_messages(i, n)),
            msgs_queue: Vec::new(),
            party_i: i,
            party_n: n,
        };
        proof {
            let empty = no_messages::<Body>(n);
            assert(machine.queue() =~= Seq::<Msg<MView>>::empty());
            assert(phase1_slots(empty) =~= no_messages::<BroadcastPhase1>(n));
            assert(share_slots(empty) =~= no_messages::<(VerifiableSS, Scalar)>(n));
            assert(local_sig_slots(empty) =~= no_messages::<LocalSig>(n));
            assert(commitment_slots(empty) =~= no_messages::<Point>(n));
            assert(verdict_slots(empty) =~= no_messages::<bool>(n));
        }
        Ok(machine)
    }

    /// Whether the machine takes `msg`: its round's inbox is still there,
    /// the message is of the inbox's kind (a message to this party in round
    /// 2, a broadcast in the other rounds) and comes from a peer that has
    /// not sent one yet.
    pub open spec fn takes_message(&self, msg: Msg<ProtocolMessage>) -> bool {
        match msg.body.0 {
            M::Round1(_) => self.inbox1() matches Some(slots) && msg.receiver is None && takes(
                slots,
                self.index(),
                msg.sender,
            ),
            M::Round2(_) => self.inbox2() matches Some(slots) && msg.receiver == Some(self.index())
                && takes(slots, self.index(), msg.sender),
            M::Round3(_) => self.inbox3() matches Some(slots) && msg.receiver is None && takes(
                slots,
                self.index(),
                msg.sender,
            ),
            M::Round4(_) => self.inbox4() matches Some(slots) && msg.receiver is None && takes(
                slots,
                self.index(),
                msg.sender,
            ),
            M::Round5(_) => self.inbox5() matches Some(slots) && msg.receiver is None && takes(
                slots,
                self.index(),
                msg.sender,
            ),
        }
    }

    /// Whether the inboxes other than the one of round `k` are the same in
    /// `self` and `other`.
    pub open spec fn same_inboxes_but(&self, other: Sign, k: int) -> bool {
        &&& k != 1 ==> self.inbox1() == other.inbox1()
        &&& k != 2 ==> self.inbox2() == other.inbox2()
        &&& k != 3 ==> self.inbox3() == other.inbox3()
        &&& k != 4 ==> self.inbox4() == other.inbox4()
        &&& k != 5 ==> self.inbox5() == other.inbox5()
    }

    /// Takes a message from a peer into the inbox of the round it belongs
    /// to. A message that the inbox refuses, or whose round is over, leaves
    /// the machine as it was.
    pub fn handle_incoming(&mut self, msg: Msg<ProtocolMessage>) -> (r: Result<
        (),
        MachineError<ProceedError>,
    >)
        requires
            old(self).wf(),
        ensures
            final(self).wf(),
            final(self).round() == old(self).round(),
            final(self).queue() == old(self).queue(),
            final(self).index() == old(self).index(),
            final(self).count() == old(self).count(),
            r is Ok <==> old(self).takes_message(msg),
            r matches Err(e) ==> e == MachineError::<ProceedError>::Driver(Error::InvalidParameters)
                && final(self).same_inboxes_but(*old(self), 0),
            r is Ok ==> match msg.body.0 {
                M::Round1(b) => final(self).same_inboxes_but(*old(self), 1) && final(self).inbox1()
                    == Some(
                    old(self).inbox1()->0.update(slot_of(msg.sender, old(self).index()), Some(b)),
                ),
                M::Round2(s) => final(self).same_inboxes_but(*old(self), 2) && final(self).inbox2()
                    == Some(
                    old(self).inbox2()->0.update(slot_of(msg.sender, old(self).index()), Some(s)),
                ),
                M::Round3(l) => final(self).same_inboxes_but(*old(self), 3) && final(self).inbox3()
                    == Some(
                    old(self).inbox3()->0.update(slot_of(msg.sender, old(self).index()), Some(l)),
                ),
                M::Round4(c) => final(self).same_inboxes_but(*old(self), 4) && final(self).inbox4()
                    == Some(
                    old(self).inbox4()->0.update(slot_of(msg.sender, old(self).index()), Some(c)),
                ),
                M::Round5(v) => final(self).same_inboxes_but(*old(self), 5) && final(self).inbox5()
                    == Some(
                    old(self).inbox5()->0.update(slot_of(msg.sender, old(self).index()), Some(v)),
                ),
            },
    {
        let Msg { sender, receiver, body } = msg;
        match body.0 {
            M::Round1(b) => {
                match self.msgs1.take() {
                    Some(store) => {
                        let mut store = store;
                        let ghost before = broadcast_slots(store);
                        proof {
                            lemma_phase1_slots(before);
                        }
                        let body = Body::Phase1(b);
                        let taken = broadcast_store_push(&mut store, Msg { sender, receiver, body });
                        proof {
                            let slot = slot_of(sender, self.party_i);
                            if taken {
                                assert(phase1_slots(before.update(slot, Some(body))) =~= phase1_slots(
                                    before,
                                ).update(slot, Some(b)));
                            }
                        }
                        self.msgs1 = Some(store);
                        if taken {
                            Ok(())
                        } else {
                            Err(MachineError::Driver(Error::InvalidParameters))
                        }
                    },
                    None => Err(MachineError::Driver(Error::InvalidParameters)),
                }
            },
            M::Round2(s) => {
                match self.msgs2.take() {
                    Some(store) => {
                        let mut store = store;
                        let ghost before = direct_slots(store);
                        proof {
                            lemma_share_slots(before);
                        }
                        let body = Body::Share(s);
                        let taken = direct_store_push(&mut store, Msg { sender, receiver, body });
                        proof {
                            let slot = slot_of(sender, self.party_i);
                            if taken {
                                assert(share_slots(before.update(slot, Some(body))) =~= share_slots(
                                    before,
                                ).update(slot, Some(s)));
                            }
                        }
                        self.msgs2 = Some(store);
                        if taken {
                            Ok(())
                        } else {
                            Err(MachineError::Driver(Error::InvalidParameters))
                        }
                    },
                    None => Err(MachineError::Driver(Error::InvalidParameters)),
                }
            },
            M::Round3(l) => {
                match self.msgs3.take() {
                    Some(store) => {
                        let mut store = store;
                        let ghost before = broadcast_slots(store);
                        proof {
                            lemma_local_sig_slots(before);
                        }
                        let body = Body::LocalSig(l);
                        let taken = broadcast_store_push(&mut store, Msg { sender, receiver, body });
                        proof {
                            let slot = slot_of(sender, self.party_i);
                            if taken {
                                assert(local_sig_slots(before.update(slot, Some(body))) =~= local_sig_slots(
                                    before,
                                ).update(slot, Some(l)));
                            }
                        }
                        self.msgs3 = Some(store);
                        if taken {
                            Ok(())
                        } else {
                            Err(MachineError::Driver(Error::InvalidParameters))
                        }
                    },
                    None => Err(MachineError::Driver(Error::InvalidParameters)),
                }
            },
            M::Round4(c) => {
                match self.msgs4.take() {
                    Some(store) => {
                        let mut store = store;
                        let ghost before = broadcast_slots(store);
                        proof {
                            lemma_commitment_slots(before);
                        }
                        let body = Body::Commitment(c);
                        let taken = broadcast_store_push(&mut store, Msg { sender, receiver, body });
                        proof {
                            let slot = slot_of(sender, self.party_i);
                            if taken {
                                assert(commitment_slots(before.update(slot, Some(body))) =~= commitment_slots(
                                    before,
                                ).update(slot, Some(c)));
                            }
                        }
                        self.msgs4 = Some(store);
                        if taken {
                            Ok(())
                        } else {
                            Err(MachineError::Driver(Error::InvalidParameters))
                        }
                    },
                    None => Err(MachineError::Driver(Error::InvalidParameters)),
                }
            },
            M::Round5(v) => {
                match self.msgs5.take() {
                    Some(store) => {
                        let mut store = store;
                        let ghost before = broadcast_slots(store);
                        proof {
                            lemma_verdict_slots(before);
                        }
                        let body = Body::Verdict(v);
                        let taken = broadcast_store_push(&mut store, Msg { sender, receiver, body });
                        proof {
                            let slot = slot_of(sender, self.party_i);
                            if taken {
                                assert(verdict_slots(before.update(slot, Some(body))) =~= verdict_slots(
                                    before,
                                ).update(slot, Some(v)));
                            }
                        }
                        self.msgs5 = Some(store);
                        if taken {
                            Ok(())
                        } else {
                            Err(MachineError::Driver(Error::InvalidParameters))
                        }
                    },
                    None => Err(MachineError::Driver(Error::InvalidParameters)),
                }
            },
        }
    }

    /// Whether the round that the party stands in has all it needs.
    pub fn wants_to_proceed(&self) -> (r: bool)
        requires
            self.wf(),
        ensures
            r == self.ready(),
    {
        match &self.round {
            R::Round0(_) => true,
            R::Round1(_) => match &self.msgs1 {
                Some(store) => {
                    proof {
                        lemma_phase1_slots(broadcast_slots(*store));
                    }
                    !broadcast_store_wants_more(store)
                },
                None => false,
            },
            R::Round2(_) => match &self.msgs2 {
                Some(store) => {
                    proof {
                        lemma_share_slots(direct_slots(*store));
                    }
                    !direct_store_wants_more(store)
                },
                None => false,
            },
            R::Round3(_) => match &self.msgs3 {
                Some(store) => {
                    proof {
                        lemma_local_sig_slots(broadcast_slots(*store));
                    }
                    !broadcast_store_wants_more(store)
                },
                None => false,
            },
            R::Round4(_) => match &self.msgs4 {
                Some(store) => {
                    proof {
                        lemma_commitment_slots(broadcast_slots(*store));
                    }
                    !broadcast_store_wants_more(store)
                },
                None => false,
            },
            R::Round5(_) => match &self.msgs5 {
                Some(store) => {
                    proof {
                        lemma_verdict_slots(broadcast_slots(*store));
                    }
                    !broadcast_store_wants_more(store)
                },
                None => false,
            },
            _ => false,
        }
    }

    /// The messages that wait to be shipped; the queue is empty afterwards.
    pub fn message_queue(&mut self) -> (r: Vec<Msg<ProtocolMessage>>)
        requires
            old(self).wf(),
        ensures
            final(self).wf(),
            views(r@) == old(self).queue(),
            final(self).queue() == Seq::<Msg<MView>>::empty(),
            final(self).round() == old(self).round(),
            final(self).same_inboxes_but(*old(self), 0),
            final(self).index() == old(self).index(),
            final(self).count() == old(self).count(),
    {
        let mut queue: Vec<Msg<ProtocolMessage>> = Vec::new();
        std::mem::swap(&mut self.msgs_queue, &mut queue);
        assert(self.queue() =~= Seq::<Msg<MView>>::empty());
        queue
    }

    /// Whether signing has ended with a signature that waits to be picked.
    pub fn is_finished(&self) -> (r: bool)
        ensures
            r == (self.round() is Final),
    {
        match &self.round {
            R::Final(_) => true,
            _ => false,
        }
    }

    /// The number of the round that the party stands in; 6 when signing is
    /// over.
    pub fn current_round(&self) -> (r: u16)
        ensures
            r == match self.round() {
                R::Round0(_) => 0u16,
                R::Round1(_) => 1u16,
                R::Round2(_) => 2u16,
                R::Round3(_) => 3u16,
                R::Round4(_) => 4u16,
                R::Round5(_) => 5u16,
                _ => 6u16,
            },
    {
        match &self.round {
            R::Round0(_) => 0,
            R::Round1(_) => 1,
            R::Round2(_) => 2,
            R::Round3(_) => 3,
            R::Round4(_) => 4,
            R::Round5(_) => 5,
            _ => 6,
        }
    }

    /// The number of rounds that take input.
    pub fn total_rounds(&self) -> (r: Option<u16>)
        ensures
            r == Some(5u16),
    {
        Some(5)
    }

    /// The party's index, from 1.
    pub fn party_ind(&self) -> (r: u16)
        ensures
            r == self.index(),
    {
        self.party_i
    }

    /// The number of parties that take part.
    pub fn parties(&self) -> (r: u16)
        ensures
            r == self.count(),
    {
        self.party_n
    }

    /// Whether `after` and `r` are what proceeding leads to from a machine
    /// that is ready. Round 0 queues the party's broadcast. Round 1 reads the
    /// peers' broadcasts and queues a share for each peer. Round 2 reads the
    /// peers' shares and queues the party's local signature. Round 3 reads
    /// the peers' local signatures and queues the party's commitment. Round
    /// 4 reads the peers' commitments and queues the party's verdict. Round
    /// 5 reads the peers' verdicts and ends with the signature. A round
    /// succeeds if and only if it accepts its input; where it fails, the
    /// machine is gone and has queued nothing.
    pub open spec fn steps_to(&self, after: Sign, r: Result<(), MachineError<ProceedError>>) -> bool {
        &&& r is Err ==> after.round() is Gone && after.queue() == self.queue()
        &&& match self.round() {
            R::Round0(r0) => {
                &&& after.same_inboxes_but(*self, 0)
                &&& r is Ok <==> r0.accepts()
                &&& r matches Err(e) ==> e == MachineError::ProceedRound(
                    ProceedError::Round0(Error::InvalidParameters),
                )
                &&& r is Ok ==> after.round() is Round1 && r0.leads_to(after.round()->Round1_0)
                    && after.queue() == self.queue().push(
                    (Msg {
                        sender: self.index(),
                        receiver: None,
                        body: MView::Round1(after.round()->Round1_0.mybroadcast@),
                    }),
                )
            },
            R::Round1(r1) => {
                let peers = contents(self.inbox1()->0);
                &&& after.inbox1() is None
                &&& after.same_inboxes_but(*self, 1)
                &&& r is Ok <==> r1.accepts(peers)
                &&& r matches Err(e) ==> e == MachineError::ProceedRound(r1.failure(peers))
                &&& r is Ok ==> after.round() is Round2 && exists|
                    sent: Seq<Msg<(VerifiableSS, Scalar)>>,
                |
                    #[trigger] r1.leads_to(peers, after.round()->Round2_0, sent) && after.queue()
                        == self.queue() + wrap_shares(sent)
            },
            R::Round2(r2) => {
                let peers = contents(self.inbox2()->0);
                &&& after.inbox2() is None
                &&& after.same_inboxes_but(*self, 2)
                &&& r is Ok <==> r2.accepts(peers)
                &&& r matches Err(e) ==> e == MachineError::ProceedRound(r2.failure(peers))
                &&& r is Ok ==> after.round() is Round3 && r2.leads_to(
                    peers,
                    after.round()->Round3_0,
                ) && after.queue() == self.queue().push(
                    (Msg {
                        sender: self.index(),
                        receiver: None,
                        body: MView::Round3(after.round()->Round3_0.local_sig),
                    }),
                )
            },
            R::Round3(r3) => {
                let peers = contents(self.inbox3()->0);
                &&& after.inbox3() is None
                &&& after.same_inboxes_but(*self, 3)
                &&& r is Ok <==> r3.accepts(peers)
                &&& r matches Err(e) ==> e == MachineError::ProceedRound(r3.failure(peers))
                &&& r is Ok ==> after.round() is Round4 && r3.leads_to(
                    peers,
                    after.round()->Round4_0,
                ) && after.queue() == self.queue().push(
                    (Msg {
                        sender: self.index(),
                        receiver: None,
                        body: MView::Round4(after.round()->Round4_0.commitment),
                    }),
                )
            },
            R::Round4(r4) => {
                let peers = contents(self.inbox4()->0);
                &&& after.inbox4() is None
                &&& after.same_inboxes_but(*self, 4)
                &&& r is Ok <==> r4.accepts(peers)
                &&& r matches Err(e) ==> e == MachineError::ProceedRound(r4.failure(peers))
                &&& r is Ok ==> after.round() is Round5 && r4.leads_to(
                    peers,
                    after.round()->Round5_0,
                ) && after.queue() == self.queue().push(
                    (Msg {
                        sender: self.index(),
                        receiver: None,
                        body: MView::Round5(after.round()->Round5_0.verdict),
                    }),
                )
            },
            R::Round5(r5) => {
                let peers = contents(self.inbox5()->0);
                &&& after.inbox5() is None
                &&& after.same_inboxes_but(*self, 5)
                &&& after.queue() == self.queue()
                &&& r is Ok <==> r5.accepts(peers)
                &&& r matches Err(e) ==> e == MachineError::ProceedRound(r5.failure(peers))
                &&& r is Ok ==> after.round() is Final && r5.leads_to(peers, after.round()->Final_0)
            },
            _ => true,
        }
    }

    /// Lets the round that the party stands in do its work. A round whose
    /// messages are not complete refuses with `NotEnoughMessages`, and a
    /// machine that has ended refuses with `InvalidParameters`; both leave
    /// the machine as it was.
    pub fn proceed(&mut self) -> (r: Result<(), MachineError<ProceedError>>)
        requires
            old(self).wf(),
        ensures
            final(self).wf(),
            final(self).index() == old(self).index(),
            final(self).count() == old(self).count(),
            old(self).round() is Final || old(self).round() is Gone ==> *final(self) == *old(self)
                && r == Err::<(), MachineError<ProceedError>>(
                MachineError::Driver(Error::InvalidParameters),
            ),
            !(old(self).round() is Final || old(self).round() is Gone) && !old(self).ready()
                ==> *final(self) == *old(self) && r == Err::<(), MachineError<ProceedError>>(
                MachineError::Driver(Error::NotEnoughMessages),
            ),
            old(self).ready() ==> old(self).steps_to(*final(self), r),
    {
        match &self.round {
            R::Final(_) => {
                return Err(MachineError::Driver(Error::InvalidParameters));
            },
            R::Gone => {
                return Err(MachineError::Driver(Error::InvalidParameters));
            },
            _ => {},
        }
        if !self.wants_to_proceed() {
            return Err(MachineError::Driver(Error::NotEnoughMessages));
        }
        match self.current_round() {
            0 => self.proceed_round0(),
            1 => self.proceed_round1(),
            2 => self.proceed_round2(),
            3 => self.proceed_round3(),
            4 => self.proceed_round4(),
            _ => self.proceed_round5(),
        }
    }

    /// Takes the round out of the machine, which is gone until the round's
    /// successor is put in.
    fn take_round(&mut self) -> (round: R)
        ensures
            round == old(self).round(),
            final(self).round() is Gone,
            final(self).queue() == old(self).queue(),
            final(self).index() == old(self).index(),
            final(self).count() == old(self).count(),
            final(self).same_inboxes_but(*old(self), 0),
            final(self).owned() == old(self).owned(),
            final(self).msgs1 == old(self).msgs1,
            final(self).msgs2 == old(self).msgs2,
            final(self).msgs3 == old(self).msgs3,
            final(self).msgs4 == old(self).msgs4,
            final(self).msgs5 == old(self).msgs5,
            final(self).msgs_queue == old(self).msgs_queue,
    {
        let mut round = R::Gone;
        std::mem::swap(&mut self.round, &mut round);
        round
    }

    /// Round 0: draws the nonce and queues its commitment.
    fn proceed_round0(&mut self) -> (r: Result<(), MachineError<ProceedError>>)
        requires
            old(self).wf(),
            old(self).round() is Round0,
        ensures
            final(self).wf(),
            final(self).index() == old(self).index(),
            final(self).count() == old(self).count(),
            old(self).steps_to(*final(self), r),
    {
        let ghost before = *self;
        match self.take_round() {
            R::Round0(r0) => {
                let mut out: Vec<Msg<BroadcastPhase1>> = Vec::new();
                match r0.proceed(&mut out) {
                    Ok(next) => {
                        proof {
                            assert(views(out@) =~= seq![r0.announces(next)]);
                            assert(out@.len() == views(out@).len());
                            assert(views(out@)[0] == out@[0]@);
                            assert(wrap_phase1(out@) =~= seq![
                                (Msg {
                                    sender: self.party_i,
                                    receiver: None,
                                    body: MView::Round1(next.mybroadcast@),
                                }),
                            ]);
                        }
                        self.round = R::Round1(next);
                        queue_phase1(&mut self.msgs_queue, out);
                        assert(self.queue() =~= before.queue().push(
                            (Msg {
                                sender: self.party_i,
                                receiver: None,
                                body: MView::Round1(next.mybroadcast@),
                            }),
                        ));
                        Ok(())
                    },
                    Err(e) => Err(MachineError::ProceedRound(e)),
                }
            },
            _ => Err(MachineError::Driver(Error::InvalidParameters)),
        }
    }

    /// Round 1: reads the peers' commitments, deals the nonce and queues the
    /// shares.
    fn proceed_round1(&mut self) -> (r: Result<(), MachineError<ProceedError>>)
        requires
            old(self).wf(),
            old(self).round() is Round1,
            old(self).ready(),
        ensures
            final(self).wf(),
            final(self).index() == old(self).index(),
            final(self).count() == old(self).count(),
            old(self).steps_to(*final(self), r),
    {
        let ghost before = *self;
        match self.take_round() {
            R::Round1(r1) => {
                let store = self.msgs1.take().unwrap();
                let ghost slots = broadcast_slots(store);
                proof {
                    lemma_phase1_slots(slots);
                }
                let bodies = broadcast_store_finish(store).unwrap();
                let input = phase1_messages(bodies).unwrap();
                assert(input@ =~= contents(phase1_slots(slots)));
                let mut out: Vec<Msg<(VerifiableSS, Scalar)>> = Vec::new();
                match r1.proceed(input, &mut out) {
                    Ok(next) => {
                        self.round = R::Round2(next);
                        queue_shares(&mut self.msgs_queue, out);
                        proof {
                            assert(out@.subrange(0, out@.len() as int) =~= out@);
                            assert(r1.leads_to(input@, next, out@));
                        }
                        Ok(())
                    },
                    Err(e) => Err(MachineError::ProceedRound(e)),
                }
            },
            _ => Err(MachineError::Driver(Error::InvalidParameters)),
        }
    }

    /// Round 2: reads the peers' shares and queues the local signature.
    fn proceed_round2(&mut self) -> (r: Result<(), MachineError<ProceedError>>)
        requires
            old(self).wf(),
            old(self).round() is Round2,
            old(self).ready(),
        ensures
            final(self).wf(),
            final(self).index() == old(self).index(),
            final(self).count() == old(self).count(),
            old(self).steps_to(*final(self), r),
    {
        match self.take_round() {
            R::Round2(r2) => {
                let store = self.msgs2.take().unwrap();
                let ghost slots = direct_slots(store);
                proof {
                    lemma_share_slots(slots);
                }
                let bodies = direct_store_finish(store).unwrap();
                let input = share_messages(bodies).unwrap();
                assert(input@ =~= contents(share_slots(slots)));
                let mut out: Vec<Msg<LocalSig>> = Vec::new();
                match r2.proceed(input, &mut out) {
                    Ok(next) => {
                        let sent = out.pop().unwrap();
                        queue_one(&mut self.msgs_queue, sent.sender, M::Round3(sent.body));
                        self.round = R::Round3(next);
                        Ok(())
                    },
                    Err(e) => Err(MachineError::ProceedRound(e)),
                }
            },
            _ => Err(MachineError::Driver(Error::InvalidParameters)),
        }
    }

    /// Round 3: reads the peers' local signatures and queues the party's
    /// commitment.
    fn proceed_round3(&mut self) -> (r: Result<(), MachineError<ProceedError>>)
        requires
            old(self).wf(),
            old(self).round() is Round3,
            old(self).ready(),
        ensures
            final(self).wf(),
            final(self).index() == old(self).index(),
            final(self).count() == old(self).count(),
            old(self).steps_to(*final(self), r),
    {
        match self.take_round() {
            R::Round3(r3) => {
                let store = self.msgs3.take().unwrap();
                let ghost slots = broadcast_slots(store);
                proof {
                    lemma_local_sig_slots(slots);
                }
                let bodies = broadcast_store_finish(store).unwrap();
                let input = local_sig_messages(bodies).unwrap();
                assert(input@ =~= contents(local_sig_slots(slots)));
                let mut out: Vec<Msg<Point>> = Vec::new();
                match r3.proceed(input, &mut out) {
                    Ok(next) => {
                        let sent = out.pop().unwrap();
                        queue_one(&mut self.msgs_queue, sent.sender, M::Round4(sent.body));
                        self.round = R::Round4(next);
                        Ok(())
                    },
                    Err(e) => Err(MachineError::ProceedRound(e)),
                }
            },
            _ => Err(MachineError::Driver(Error::InvalidParameters)),
        }
    }

    /// Round 4: reads the peers' commitments and queues the verdict.
    fn proceed_round4(&mut self) -> (r: Result<(), MachineError<ProceedError>>)
        requires
            old(self).wf(),
            old(self).round() is Round4,
            old(self).ready(),
        ensures
            final(self).wf(),
            final(self).index() == old(self).index(),
            final(self).count() == old(self).count(),
            old(self).steps_to(*final(self), r),
    {
        match self.take_round() {
            R::Round4(r4) => {
                let store = self.msgs4.take().unwrap();
                let ghost slots = broadcast_slots(store);
                proof {
                    lemma_commitment_slots(slots);
                }
                let bodies = broadcast_store_finish(store).unwrap();
                let input = commitment_messages(bodies).unwrap();
                assert(input@ =~= contents(commitment_slots(slots)));
                let mut out: Vec<Msg<bool>> = Vec::new();
                match r4.proceed(input, &mut out) {
                    Ok(next) => {
                        let sent = out.pop().unwrap();
                        queue_one(&mut self.msgs_queue, sent.sender, M::Round5(sent.body));
                        self.round = R::Round5(next);
                        Ok(())
                    },
                    Err(e) => Err(MachineError::ProceedRound(e)),
                }
            },
            _ => Err(MachineError::Driver(Error::InvalidParameters)),
        }
    }

    /// Round 5: reads the peers' verdicts and ends with the signature.
    fn proceed_round5(&mut self) -> (r: Result<(), MachineError<ProceedError>>)
        requires
            old(self).wf(),
            old(self).round() is Round5,
            old(self).ready(),
        ensures
            final(self).wf(),
            final(self).index() == old(self).index(),
            final(self).count() == old(self).count(),
            old(self).steps_to(*final(self), r),
    {
        match self.take_round() {
            R::Round5(r5) => {
                let store = self.msgs5.take().unwrap();
                let ghost slots = broadcast_slots(store);
                proof {
                    lemma_verdict_slots(slots);
                }
                let bodies = broadcast_store_finish(store).unwrap();
                let input = verdict_messages(bodies).unwrap();
                assert(input@ =~= contents(verdict_slots(slots)));
                match r5.proceed(input) {
                    Ok(res) => {
                        self.round = R::Final(res);
                        Ok(())
                    },
                    Err(e) => Err(MachineError::ProceedRound(e)),
                }
            },
            _ => Err(MachineError::Driver(Error::InvalidParameters)),
        }
    }

    /// Hands out the signature once signing has ended; the machine is gone
    /// afterwards. `None` while it has not ended, and an error where the
    /// machine is gone.
    pub fn pick_output(&mut self) -> (r: Option<Result<SigRes, MachineError<ProceedError>>>)
        requires
            old(self).wf(),
        ensures
            final(self).wf(),
            final(self).index() == old(self).index(),
            final(self).count() == old(self).count(),
            final(self).queue() == old(self).queue(),
            match old(self).round() {
                R::Final(res) => r == Some(Ok::<SigRes, MachineError<ProceedError>>(res))
                    && final(self).round() is Gone,
                R::Gone => r == Some(
                    Err::<SigRes, MachineError<ProceedError>>(
                        MachineError::Driver(Error::InvalidParameters),
                    ),
                ) && *final(self) == *old(self),
                _ => r is None && *final(self) == *old(self),
            },
    {
        match &self.round {
            R::Final(_) => {},
            R::Gone => {
                return Some(Err(MachineError::Driver(Error::InvalidParameters)));
            },
            _ => {
                return None;
            },
        }
        let mut round = R::Gone;
        std::mem::swap(&mut self.round, &mut round);
        match round {
            R::Final(res) => Some(Ok(res)),
            _ => None,
        }
    }
}

} // verus!
