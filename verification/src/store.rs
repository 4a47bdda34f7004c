//! Messages between parties and the inboxes that collect a round's messages,
//! one from each peer.

use crate::curve::{Point, Scalar};
use crate::keygen::rounds::BroadcastPhase1;
use crate::party_i::LocalSig;
use crate::vss::VerifiableSS;
use round_based::containers::BroadcastMsgsStore;
use round_based::containers::MessageStore;
use round_based::containers::P2PMsgsStore;
use vstd::prelude::*;

verus! {

/// A message on the wire: `receiver` is `None` for a broadcast and the
/// recipient's 1-based index for a message to one party.
#[derive(Clone, Debug)]
pub struct Msg<B> {
    pub sender: u16,
    pub receiver: Option<u16>,
    pub body: B,
}

impl<B: View> View for Msg<B> {
    type V = Msg<B::V>;

    open spec fn view(&self) -> Msg<B::V> {
        Msg { sender: self.sender, receiver: self.receiver, body: self.body@ }
    }
}

/// What a queue of messages says.
pub open spec fn views<B: View>(queue: Seq<Msg<B>>) -> Seq<Msg<B::V>> {
    queue.map_values(|m: Msg<B>| m@)
}

/// What a message of either protocol carries.
pub enum Body {
    /// The commitment to a public contribution or to a nonce, with its
    /// opening.
    Phase1(BroadcastPhase1),
    /// A dealing and the receiver's share of it.
    Share((VerifiableSS, Scalar)),
    /// A signer's share of the signature.
    LocalSig(LocalSig),
    /// A signer's commitment to a coefficient of the polynomial that the
    /// local signatures lie on.
    Commitment(Point),
    /// A signer's verdict on its own local signature.
    Verdict(bool),
}

/// round_based's inbox for the broadcasts of a round: a value that is
/// carried and handed to the calls below, with nothing seen inside it.
#[verifier::external_type_specification]
#[verifier::external_body]
#[verifier::reject_recursive_types(T)]
pub struct ExBroadcastMsgsStore<T>(BroadcastMsgsStore<T>);

/// round_based's inbox for the messages that a round's peers send to this
/// party alone: carried in the same way.
#[verifier::external_type_specification]
#[verifier::external_body]
#[verifier::reject_recursive_types(T)]
pub struct ExP2PMsgsStore<T>(P2PMsgsStore<T>);

/// The slot that belongs to `sender` in the inbox of `owner`: the peers
/// stand in the order of their indices, the owner left out.
pub open spec fn slot_of(sender: u16, owner: u16) -> int {
    if sender < owner {
        sender - 1
    } else {
        sender - 2
    }
}

/// Whether a slot is still empty.
pub open spec fn wants<B>(slots: Seq<Option<B>>) -> bool {
    exists|k: int| 0 <= k < slots.len() && (#[trigger] slots[k]) is None
}

/// Whether an inbox of `owner` with the given slots takes a message from
/// `sender`: the sender is a peer whose slot exists and is empty.
pub open spec fn takes<B>(slots: Seq<Option<B>>, owner: u16, sender: u16) -> bool {
    &&& sender != 0
    &&& sender != owner
    &&& 0 <= slot_of(sender, owner) < slots.len()
    &&& slots[slot_of(sender, owner)] is None
}

/// The empty inbox of a party among `n`.
pub open spec fn no_messages<B>(n: u16) -> Seq<Option<B>> {
    Seq::new((n - 1) as nat, |k: int| None::<B>)
}

/// Whether `v` holds what fills the slots, in their order.
pub open spec fn fills<B>(v: Seq<B>, slots: Seq<Option<B>>) -> bool {
    &&& v.len() == slots.len()
    &&& forall|k: int| 0 <= k < v.len() ==> slots[k] == Some(#[trigger] v[k])
}

/// The slots of an inbox for broadcasts, one for each peer in the order of
/// the peers' indices: what has arrived from the peer, if anything.
pub uninterp spec fn broadcast_slots(store: BroadcastMsgsStore<Body>) -> Seq<Option<Body>>;

/// The 1-based index of the party that an inbox for broadcasts belongs to.
pub uninterp spec fn broadcast_owner(store: BroadcastMsgsStore<Body>) -> u16;

/// Calls `BroadcastMsgsStore::new` of round_based: an empty inbox of `n - 1`
/// slots for party `i`.
#[verifier::external_body]
pub(crate) fn broadcast_store_new(i: u16, n: u16) -> (store: BroadcastMsgsStore<Body>)
    requires
        n >= 1,
    ensures
        broadcast_owner(store) == i,
        broadcast_slots(store) == no_messages::<Body>(n),
{
    BroadcastMsgsStore::new(i, n)
}

/// Calls `push_msg` of round_based's `BroadcastMsgsStore` and says whether it
/// returned `Ok`. It takes a broadcast from a peer whose slot exists
/// and is empty, and fills the slot; it refuses any other message and then
/// leaves the inbox as it was. The inbox belongs to a party with an index
/// from 1.
#[verifier::external_body]
pub(crate) fn broadcast_store_push(
    store: &mut BroadcastMsgsStore<Body>,
    msg: Msg<Body>,
) -> (taken: bool)
    requires
        broadcast_owner(*old(store)) >= 1,
    ensures
        broadcast_owner(*final(store)) == broadcast_owner(*old(store)),
        taken == (msg.receiver is None && takes(
            broadcast_slots(*old(store)),
            broadcast_owner(*old(store)),
            msg.sender,
        )),
        taken ==> broadcast_slots(*final(store)) == broadcast_slots(*old(store)).update(
            slot_of(msg.sender, broadcast_owner(*old(store))),
            Some(msg.body),
        ),
        !taken ==> broadcast_slots(*final(store)) == broadcast_slots(*old(store)),
{
    let Msg { sender, receiver, body } = msg;
    store.push_msg(round_based::Msg { sender, receiver, body }).is_ok()
}

/// Calls `wants_more` of round_based's `BroadcastMsgsStore`: whether a slot is
/// still empty.
#[verifier::external_body]
pub(crate) fn broadcast_store_wants_more(store: &BroadcastMsgsStore<Body>) -> (more: bool)
    ensures
        more == wants(broadcast_slots(*store)),
{
    store.wants_more()
}

/// Calls `finish` of round_based's `BroadcastMsgsStore` and, where it returned
/// the container, `into_vec` on it: the messages in the order of the slots
/// when every slot is filled, and `None` otherwise.
#[verifier::external_body]
pub(crate) fn broadcast_store_finish(store: BroadcastMsgsStore<Body>) -> (r: Option<Vec<Body>>)
    ensures
        r is Some == !wants(broadcast_slots(store)),
        r matches Some(v) ==> fills(v@, broadcast_slots(store)),
{
    store.finish().ok().map(|c| c.into_vec())
}

/// The slots of an inbox for messages to its owner alone, one for each peer in the order of
/// the peers' indices: what has arrived from the peer, if anything.
pub uninterp spec fn direct_slots(store: P2PMsgsStore<Body>) -> Seq<Option<Body>>;

/// The 1-based index of the party that an inbox for messages to its owner alone belongs to.
pub uninterp spec fn direct_owner(store: P2PMsgsStore<Body>) -> u16;

/// Calls `P2PMsgsStore::new` of round_based: an empty inbox of `n - 1`
/// slots for party `i`.
#[verifier::external_body]
pub(crate) fn direct_store_new(i: u16, n: u16) -> (store: P2PMsgsStore<Body>)
    requires
        n >= 1,
    ensures
        direct_owner(store) == i,
        direct_slots(store) == no_messages::<Body>(n),
{
    P2PMsgsStore::new(i, n)
}

/// Calls `push_msg` of round_based's `P2PMsgsStore` and says whether it
/// returned `Ok`. It takes a message to the owner from a peer whose slot exists
/// and is empty, and fills the slot; it refuses any other message and then
/// leaves the inbox as it was. The inbox belongs to a party with an index
/// from 1.
#[verifier::external_body]
pub(crate) fn direct_store_push(store: &mut P2PMsgsStore<Body>, msg: Msg<Body>) -> (taken: bool)
    requires
        direct_owner(*old(store)) >= 1,
    ensures
        direct_owner(*final(store)) == direct_owner(*old(store)),
        taken == (msg.receiver == Some(direct_owner(*old(store))) && takes(
            direct_slots(*old(store)),
            direct_owner(*old(store)),
            msg.sender,
        )),
        taken ==> direct_slots(*final(store)) == direct_slots(*old(store)).update(
            slot_of(msg.sender, direct_owner(*old(store))),
            Some(msg.body),
        ),
        !taken ==> direct_slots(*final(store)) == direct_slots(*old(store)),
{
    let Msg { sender, receiver, body } = msg;
    store.push_msg(round_based::Msg { sender, receiver, body }).is_ok()
}

/// Calls `wants_more` of round_based's `P2PMsgsStore`: whether a slot is
/// still empty.
#[verifier::external_body]
pub(crate) fn direct_store_wants_more(store: &P2PMsgsStore<Body>) -> (more: bool)
    ensures
        more == wants(direct_slots(*store)),
{
    store.wants_more()
}

/// Calls `finish` of round_based's `P2PMsgsStore` and, where it returned
/// the container, `into_vec` on it: the messages in the order of the slots
/// when every slot is filled, and `None` otherwise.
#[verifier::external_body]
pub(crate) fn direct_store_finish(store: P2PMsgsStore<Body>) -> (r: Option<Vec<Body>>)
    ensures
        r is Some == !wants(direct_slots(store)),
        r matches Some(v) ==> fills(v@, direct_slots(store)),
{
    store.finish().ok().map(|c| c.into_vec())
}

/// What a slot holds where it holds a first-phase broadcast.
pub open spec fn phase1_of(slot: Option<Body>) -> Option<BroadcastPhase1> {
    match slot {
        Some(Body::Phase1(b)) => Some(b),
        _ => None,
    }
}

/// The slots of an inbox as slots for first-phase broadcasts.
pub open spec fn phase1_slots(slots: Seq<Option<Body>>) -> Seq<Option<BroadcastPhase1>> {
    slots.map_values(|slot: Option<Body>| phase1_of(slot))
}

/// Whether an inbox holds nothing but first-phase broadcasts.
pub open spec fn only_phase1(slots: Seq<Option<Body>>) -> bool {
    forall|k: int| 0 <= k < slots.len() ==> ((#[trigger] slots[k]) matches Some(b) ==> b is Phase1)
}

/// Takes first-phase broadcasts out of their wrapping; `None` where a message is of
/// another kind.
pub(crate) fn phase1_messages(bodies: Vec<Body>) -> (r: Option<Vec<BroadcastPhase1>>)
    ensures
        r is Some <==> forall|k: int| 0 <= k < bodies.len() ==> (#[trigger] bodies[k]) is Phase1,
        r matches Some(v) ==> v.len() == bodies.len() && forall|k: int|
            0 <= k < v.len() ==> bodies[k] == Body::Phase1(#[trigger] v[k]),
{
    let ghost all = bodies@;
    let mut rest = bodies;
    let mut v: Vec<BroadcastPhase1> = Vec::new();
    while rest.len() > 0
        invariant
            all == bodies@,
            rest.len() + v.len() == all.len(),
            rest@ == all.subrange(0, rest.len() as int),
            forall|k: int|
                0 <= k < v.len() ==> all[rest.len() + k] == Body::Phase1(#[trigger] v[k]),
        decreases rest.len(),
    {
        let ghost before = v@;
        let ghost last = rest@.last();
        assert(last == all[rest.len() - 1]);
        match rest.pop() {
            Some(Body::Phase1(b)) => {
                v.insert(0, b);
                assert forall|k: int| 0 <= k < v.len() implies all[rest.len() + k] == Body::Phase1(
                    #[trigger] v[k],
                ) by {
                    if k > 0 {
                        assert(v[k] == before[k - 1]);
                    }
                }
            },
            _ => {
                return None;
            },
        }
    }
    assert forall|k: int| 0 <= k < all.len() implies (#[trigger] all[k]) is Phase1 by {
        assert(all[rest.len() + k] == Body::Phase1(v[k]));
    }
    Some(v)
}

/// An inbox of first-phase broadcasts wants a message where its slots for
/// first-phase broadcasts do, and what fills it fills those slots.
pub(crate) proof fn lemma_phase1_slots(slots: Seq<Option<Body>>)
    requires
        only_phase1(slots),
    ensures
        wants(phase1_slots(slots)) == wants(slots),
        phase1_slots(slots).len() == slots.len(),
        forall|k: int|
            0 <= k < slots.len() ==> ((#[trigger] phase1_slots(slots)[k]) is None <==> slots[k]
                is None),
{
    let typed = phase1_slots(slots);
    if wants(slots) {
        let k = choose|k: int| 0 <= k < slots.len() && (#[trigger] slots[k]) is None;
        assert(typed[k] is None);
    }
    if wants(typed) {
        let k = choose|k: int| 0 <= k < typed.len() && (#[trigger] typed[k]) is None;
        assert(slots[k] is None);
    }
}

/// What a slot holds where it holds a dealing with a share.
pub open spec fn share_of(slot: Option<Body>) -> Option<(VerifiableSS, Scalar)> {
    match slot {
        Some(Body::Share(b)) => Some(b),
        _ => None,
    }
}

/// The slots of an inbox as slots for dealings with shares.
pub open spec fn share_slots(slots: Seq<Option<Body>>) -> Seq<Option<(VerifiableSS, Scalar)>> {
    slots.map_values(|slot: Option<Body>| share_of(slot))
}

/// Whether an inbox holds nothing but dealings with shares.
pub open spec fn only_share(slots: Seq<Option<Body>>) -> bool {
    forall|k: int| 0 <= k < slots.len() ==> ((#[trigger] slots[k]) matches Some(b) ==> b is Share)
}

/// Takes dealings with shares out of their wrapping; `None` where a message is of
/// another kind.
pub(crate) fn share_messages(bodies: Vec<Body>) -> (r: Option<Vec<(VerifiableSS, Scalar)>>)
    ensures
        r is Some <==> forall|k: int| 0 <= k < bodies.len() ==> (#[trigger] bodies[k]) is Share,
        r matches Some(v) ==> v.len() == bodies.len() && forall|k: int|
            0 <= k < v.len() ==> bodies[k] == Body::Share(#[trigger] v[k]),
{
    let ghost all = bodies@;
    let mut rest = bodies;
    let mut v: Vec<(VerifiableSS, Scalar)> = Vec::new();
    while rest.len() > 0
        invariant
            all == bodies@,
            rest.len() + v.len() == all.len(),
            rest@ == all.subrange(0, rest.len() as int),
            forall|k: int|
                0 <= k < v.len() ==> all[rest.len() + k] == Body::Share(#[trigger] v[k]),
        decreases rest.len(),
    {
        let ghost before = v@;
        let ghost last = rest@.last();
        assert(last == all[rest.len() - 1]);
        match rest.pop() {
            Some(Body::Share(b)) => {
                v.insert(0, b);
                assert forall|k: int| 0 <= k < v.len() implies all[rest.len() + k] == Body::Share(
                    #[trigger] v[k],
                ) by {
                    if k > 0 {
                        assert(v[k] == before[k - 1]);
                    }
                }
            },
            _ => {
                return None;
            },
        }
    }
    assert forall|k: int| 0 <= k < all.len() implies (#[trigger] all[k]) is Share by {
        assert(all[rest.len() + k] == Body::Share(v[k]));
    }
    Some(v)
}

/// An inbox of dealings with shares wants a message where its slots for dealings with shares do,
/// and what fills it fills those slots.
pub(crate) proof fn lemma_share_slots(slots: Seq<Option<Body>>)
    requires
        only_share(slots),
    ensures
        wants(share_slots(slots)) == wants(slots),
        share_slots(slots).len() == slots.len(),
        forall|k: int|
            0 <= k < slots.len() ==> ((#[trigger] share_slots(slots)[k]) is None <==> slots[k]
                is None),
{
    let typed = share_slots(slots);
    if wants(slots) {
        let k = choose|k: int| 0 <= k < slots.len() && (#[trigger] slots[k]) is None;
        assert(typed[k] is None);
    }
    if wants(typed) {
        let k = choose|k: int| 0 <= k < typed.len() && (#[trigger] typed[k]) is None;
        assert(slots[k] is None);
    }
}

/// What a slot holds where it holds a local signature.
pub open spec fn local_sig_of(slot: Option<Body>) -> Option<LocalSig> {
    match slot {
        Some(Body::LocalSig(b)) => Some(b),
        _ => None,
    }
}

/// The slots of an inbox as slots for local signatures.
pub open spec fn local_sig_slots(slots: Seq<Option<Body>>) -> Seq<Option<LocalSig>> {
    slots.map_values(|slot: Option<Body>| local_sig_of(slot))
}

/// Whether an inbox holds nothing but local signatures.
pub open spec fn only_local_sig(slots: Seq<Option<Body>>) -> bool {
    forall|k: int| 0 <= k < slots.len() ==> ((#[trigger] slots[k]) matches Some(b) ==> b is LocalSig)
}

/// Takes local signatures out of their wrapping; `None` where a message is of
/// another kind.
pub(crate) fn local_sig_messages(bodies: Vec<Body>) -> (r: Option<Vec<LocalSig>>)
    ensures
        r is Some <==> forall|k: int| 0 <= k < bodies.len() ==> (#[trigger] bodies[k]) is LocalSig,
        r matches Some(v) ==> v.len() == bodies.len() && forall|k: int|
            0 <= k < v.len() ==> bodies[k] == Body::LocalSig(#[trigger] v[k]),
{
    let ghost all = bodies@;
    let mut rest = bodies;
    let mut v: Vec<LocalSig> = Vec::new();
    while rest.len() > 0
        invariant
            all == bodies@,
            rest.len() + v.len() == all.len(),
            rest@ == all.subrange(0, rest.len() as int),
            forall|k: int|
                0 <= k < v.len() ==> all[rest.len() + k] == Body::LocalSig(#[trigger] v[k]),
        decreases rest.len(),
    {
        let ghost before = v@;
        let ghost last = rest@.last();
        assert(last == all[rest.len() - 1]);
        match rest.pop() {
            Some(Body::LocalSig(b)) => {
                v.insert(0, b);
                assert forall|k: int| 0 <= k < v.len() implies all[rest.len() + k] == Body::LocalSig(
                    #[trigger] v[k],
                ) by {
                    if k > 0 {
                        assert(v[k] == before[k - 1]);
                    }
                }
            },
            _ => {
                return None;
            },
        }
    }
    assert forall|k: int| 0 <= k < all.len() implies (#[trigger] all[k]) is LocalSig by {
        assert(all[rest.len() + k] == Body::LocalSig(v[k]));
    }
    Some(v)
}

/// An inbox of local signatures wants a message where its slots for local signatures do,
/// and what fills it fills those slots.
pub(crate) proof fn lemma_local_sig_slots(slots: Seq<Option<Body>>)
    requires
        only_local_sig(slots),
    ensures
        wants(local_sig_slots(slots)) == wants(slots),
        local_sig_slots(slots).len() == slots.len(),
        forall|k: int|
            0 <= k < slots.len() ==> ((#[trigger] local_sig_slots(slots)[k]) is None <==> slots[k]
                is None),
{
    let typed = local_sig_slots(slots);
    if wants(slots) {
        let k = choose|k: int| 0 <= k < slots.len() && (#[trigger] slots[k]) is None;
        assert(typed[k] is None);
    }
    if wants(typed) {
        let k = choose|k: int| 0 <= k < typed.len() && (#[trigger] typed[k]) is None;
        assert(slots[k] is None);
    }
}

/// What a slot holds where it holds a commitment.
pub open spec fn commitment_of(slot: Option<Body>) -> Option<Point> {
    match slot {
        Some(Body::Commitment(b)) => Some(b),
        _ => None,
    }
}

/// The slots of an inbox as slots for commitments.
pub open spec fn commitment_slots(slots: Seq<Option<Body>>) -> Seq<Option<Point>> {
    slots.map_values(|slot: Option<Body>| commitment_of(slot))
}

/// Whether an inbox holds nothing but commitments.
pub open spec fn only_commitment(slots: Seq<Option<Body>>) -> bool {
    forall|k: int| 0 <= k < slots.len() ==> ((#[trigger] slots[k]) matches Some(b) ==> b is Commitment)
}

/// Takes commitments out of their wrapping; `None` where a message is of
/// another kind.
pub(crate) fn commitment_messages(bodies: Vec<Body>) -> (r: Option<Vec<Point>>)
    ensures
        r is Some <==> forall|k: int| 0 <= k < bodies.len() ==> (#[trigger] bodies[k]) is Commitment,
        r matches Some(v) ==> v.len() == bodies.len() && forall|k: int|
            0 <= k < v.len() ==> bodies[k] == Body::Commitment(#[trigger] v[k]),
{
    let ghost all = bodies@;
    let mut rest = bodies;
    let mut v: Vec<Point> = Vec::new();
    while rest.len() > 0
        invariant
            all == bodies@,
            rest.len() + v.len() == all.len(),
            rest@ == all.subrange(0, rest.len() as int),
            forall|k: int|
                0 <= k < v.len() ==> all[rest.len() + k] == Body::Commitment(#[trigger] v[k]),
        decreases rest.len(),
    {
        let ghost before = v@;
        let ghost last = rest@.last();
        assert(last == all[rest.len() - 1]);
        match rest.pop() {
            Some(Body::Commitment(b)) => {
                v.insert(0, b);
                assert forall|k: int| 0 <= k < v.len() implies all[rest.len() + k] == Body::Commitment(
                    #[trigger] v[k],
                ) by {
                    if k > 0 {
                        assert(v[k] == before[k - 1]);
                    }
                }
            },
            _ => {
                return None;
            },
        }
    }
    assert forall|k: int| 0 <= k < all.len() implies (#[trigger] all[k]) is Commitment by {
        assert(all[rest.len() + k] == Body::Commitment(v[k]));
    }
    Some(v)
}

/// An inbox of commitments wants a message where its slots for commitments do,
/// and what fills it fills those slots.
pub(crate) proof fn lemma_commitment_slots(slots: Seq<Option<Body>>)
    requires
        only_commitment(slots),
    ensures
        wants(commitment_slots(slots)) == wants(slots),
        commitment_slots(slots).len() == slots.len(),
        forall|k: int|
            0 <= k < slots.len() ==> ((#[trigger] commitment_slots(slots)[k]) is None <==> slots[k]
                is None),
{
    let typed = commitment_slots(slots);
    if wants(slots) {
        let k = choose|k: int| 0 <= k < slots.len() && (#[trigger] slots[k]) is None;
        assert(typed[k] is None);
    }
    if wants(typed) {
        let k = choose|k: int| 0 <= k < typed.len() && (#[trigger] typed[k]) is None;
        assert(slots[k] is None);
    }
}

/// What a slot holds where it holds a verdict.
pub open spec fn verdict_of(slot: Option<Body>) -> Option<bool> {
    match slot {
        Some(Body::Verdict(b)) => Some(b),
        _ => None,
    }
}

/// The slots of an inbox as slots for verdicts.
pub open spec fn verdict_slots(slots: Seq<Option<Body>>) -> Seq<Option<bool>> {
    slots.map_values(|slot: Option<Body>| verdict_of(slot))
}

/// Whether an inbox holds nothing but verdicts.
pub open spec fn only_verdict(slots: Seq<Option<Body>>) -> bool {
    forall|k: int| 0 <= k < slots.len() ==> ((#[trigger] slots[k]) matches Some(b) ==> b is Verdict)
}

/// Takes verdicts out of their wrapping; `None` where a message is of
/// another kind.
pub(crate) fn verdict_messages(bodies: Vec<Body>) -> (r: Option<Vec<bool>>)
    ensures
        r is Some <==> forall|k: int| 0 <= k < bodies.len() ==> (#[trigger] bodies[k]) is Verdict,
        r matches Some(v) ==> v.len() == bodies.len() && forall|k: int|
            0 <= k < v.len() ==> bodies[k] == Body::Verdict(#[trigger] v[k]),
{
    let ghost all = bodies@;
    let mut rest = bodies;
    let mut v: Vec<bool> = Vec::new();
    while rest.len() > 0
        invariant
            all == bodies@,
            rest.len() + v.len() == all.len(),
            rest@ == all.subrange(0, rest.len() as int),
            forall|k: int|
                0 <= k < v.len() ==> all[rest.len() + k] == Body::Verdict(#[trigger] v[k]),
        decreases rest.len(),
    {
        let ghost before = v@;
        let ghost last = rest@.last();
        assert(last == all[rest.len() - 1]);
        match rest.pop() {
            Some(Body::Verdict(b)) => {
                v.insert(0, b);
                assert forall|k: int| 0 <= k < v.len() implies all[rest.len() + k] == Body::Verdict(
                    #[trigger] v[k],
                ) by {
                    if k > 0 {
                        assert(v[k] == before[k - 1]);
                    }
                }
            },
            _ => {
                return None;
            },
        }
    }
    assert forall|k: int| 0 <= k < all.len() implies (#[trigger] all[k]) is Verdict by {
        assert(all[rest.len() + k] == Body::Verdict(v[k]));
    }
    Some(v)
}

/// An inbox of verdicts wants a message where its slots for verdicts do,
/// and what fills it fills those slots.
pub(crate) proof fn lemma_verdict_slots(slots: Seq<Option<Body>>)
    requires
        only_verdict(slots),
    ensures
        wants(verdict_slots(slots)) == wants(slots),
        verdict_slots(slots).len() == slots.len(),
        forall|k: int|
            0 <= k < slots.len() ==> ((#[trigger] verdict_slots(slots)[k]) is None <==> slots[k]
                is None),
{
    let typed = verdict_slots(slots);
    if wants(slots) {
        let k = choose|k: int| 0 <= k < slots.len() && (#[trigger] slots[k]) is None;
        assert(typed[k] is None);
    }
    if wants(typed) {
        let k = choose|k: int| 0 <= k < typed.len() && (#[trigger] typed[k]) is None;
        assert(slots[k] is None);
    }
}

} // verus!
