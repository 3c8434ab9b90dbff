//! The decisions of the mesh of links between the peers: whom a node
//! dials and what it says first, and what the bytes that arrive on a link
//! come to.

use vstd::prelude::*;
use vstd::slice::slice_subrange;
use vstd::string::StringExecFns;

use crate::messaging::codec::{decode, encode, first_record_len, parse_record, record, record_len};
use crate::messaging::dist_types::PeerId;
use crate::messaging::{Letter, LetterView, Message};
use crate::setup::hostsfile::{named, others, PeerList};

verus! {

/// The port on which every peer listens and to which every peer connects.
pub const TCP_PORT: &'static str = "6969";

/// The seconds between two attempts to bind or to connect: a peer that
/// cannot be reached yet is tried again for as long as it takes.
pub const RETRY_SECS: u64 = 2;

/// The seconds a node waits once its own links are up, so that its peers
/// can finish theirs.
pub const SETTLE_SECS: u64 = 2;

/// The address of the peer whose hostname is `host`.
pub open spec fn address_of(host: Seq<char>) -> Seq<char> {
    host + ":"@ + "6969"@
}

/// The address of the peer whose hostname is `host`: the hostname, a
/// colon and the port.
pub fn address(host: &str) -> (addr: String)
    ensures
        addr@ == address_of(host@),
{
    let mut addr = String::from_str(host);
    addr.append(":");
    addr.append(TCP_PORT);
    addr
}

/// One link to set up: the peer, its address, and the record of the
/// `Alive` letter to send as soon as the link is up.
pub struct Dial {
    pub peer: PeerId,
    pub address: String,
    pub greeting: Vec<u8>,
}

/// A link to set up, as contracts speak of it.
pub struct DialView {
    pub peer: PeerId,
    pub address: Seq<char>,
    pub greeting: Seq<u8>,
}

impl View for Dial {
    type V = DialView;

    open spec fn view(&self) -> DialView {
        DialView { peer: self.peer, address: self.address@, greeting: self.greeting@ }
    }
}

/// The link that the peer `me` sets up to `peer`.
pub open spec fn dial_to(me: PeerId, peer: (PeerId, Seq<char>)) -> DialView {
    DialView {
        peer: peer.0,
        address: address_of(peer.1),
        greeting: record(LetterView { from: me, contents: Message::Alive, to: peer.0 }),
    }
}

/// The links that a node sets up: one to every other peer, in the
/// manifest's order.
pub fn dial_plan(list: &PeerList) -> (plan: Vec<Dial>)
    requires
        list.id_of(list.host()) is Some,
    ensures
        plan@.map_values(|d: Dial| d@) == others(list.entries(), list.host()).map_values(
            |peer: (PeerId, Seq<char>)| dial_to(list.id_of(list.host())->0, peer),
        ),
{
    let me: PeerId = list.id();
    let peers = list.ids_and_names();
    let ghost wanted = others(list.entries(), list.host()).map_values(
        |peer: (PeerId, Seq<char>)| dial_to(me, peer),
    );
    let mut plan: Vec<Dial> = Vec::new();
    let mut i: usize = 0;
    while i < peers.len()
        invariant
            i <= peers@.len(),
            named(peers@) == others(list.entries(), list.host()),
            wanted == others(list.entries(), list.host()).map_values(
                |peer: (PeerId, Seq<char>)| dial_to(me, peer),
            ),
            plan@.map_values(|d: Dial| d@) == wanted.take(i as int),
        decreases peers@.len() - i,
    {
        let peer: PeerId = peers[i].0;
        let ghost before = plan@;
        assert(named(peers@)[i as int] == (peer, peers@[i as int].1@));
        let dial = Dial {
            peer,
            address: address(peers[i].1.as_str()),
            greeting: encode(&Letter::new(me, Message::Alive, peer)),
        };
        plan.push(dial);
        assert(plan@.map_values(|d: Dial| d@) =~= before.map_values(|d: Dial| d@).push(
            wanted[i as int],
        ));
        assert(wanted.take(i + 1) =~= wanted.take(i as int).push(wanted[i as int]));
        i = i + 1;
    }
    assert(wanted.take(i as int) =~= wanted);
    plan
}

/// What one record on an inbound link comes to.
#[derive(Clone, Copy, Debug, PartialEq, Eq, Structural)]
pub enum Delivery {
    /// The first letter was `Alive`: the link now belongs to this peer.
    Hello(PeerId),
    /// A letter for the mailbox.
    Mail(Letter),
    /// The record holds no letter. It is dropped.
    Garbled,
    /// The letter breaks the protocol of the link. It is dropped.
    Violation,
}

/// What one record comes to, as contracts speak of it.
pub enum DeliveryView {
    Hello(PeerId),
    Mail(LetterView),
    Garbled,
    Violation,
}

impl View for Delivery {
    type V = DeliveryView;

    open spec fn view(&self) -> DeliveryView {
        match self {
            Delivery::Hello(peer) => DeliveryView::Hello(*peer),
            Delivery::Mail(letter) => DeliveryView::Mail(letter@),
            Delivery::Garbled => DeliveryView::Garbled,
            Delivery::Violation => DeliveryView::Violation,
        }
    }
}

/// The state of an inbound link, as contracts speak of it.
#[verifier::ext_equal]
pub struct LinkState {
    /// The node that reads from the link.
    pub me: PeerId,
    /// The peer at the other end, once it has said so.
    pub peer: Option<PeerId>,
    /// The bytes that have arrived behind the last whole record.
    pub pending: Seq<u8>,
}

impl LinkState {
    /// What the letter `letter` comes to on this link. Before the link
    /// belongs to a peer only `Alive` to this node is in order, and its
    /// sender is that peer. After that, the letters of that peer to this
    /// node are mail, but for another `Alive`.
    pub open spec fn judge(self, letter: LetterView) -> DeliveryView {
        match self.peer {
            None => if letter.contents is Alive && letter.to == self.me {
                DeliveryView::Hello(letter.from)
            } else {
                DeliveryView::Violation
            },
            Some(peer) => if !(letter.contents is Alive) && letter.from == peer && letter.to
                == self.me {
                DeliveryView::Mail(letter)
            } else {
                DeliveryView::Violation
            },
        }
    }

    /// What the record `bytes` comes to on this link.
    pub open spec fn take(self, bytes: Seq<u8>) -> DeliveryView {
        match parse_record(bytes) {
            Some(letter) => self.judge(letter),
            None => DeliveryView::Garbled,
        }
    }

    /// The link after a record that came to `delivery`.
    pub open spec fn after(self, delivery: DeliveryView) -> LinkState {
        match delivery {
            DeliveryView::Hello(peer) => LinkState { peer: Some(peer), ..self },
            _ => self,
        }
    }

    /// What the whole records among the pending bytes come to, one after
    /// the other.
    pub open spec fn deliveries(self) -> Seq<DeliveryView>
        decreases self.pending.len(),
    {
        match first_record_len(self.pending) {
            Some(n) => if 4 <= n <= self.pending.len() {
                let first = self.take(self.pending.take(n));
                seq![first] + (LinkState {
                    pending: self.pending.skip(n),
                    ..self.after(first)
                }).deliveries()
            } else {
                Seq::empty()
            },
            None => Seq::empty(),
        }
    }

    /// The link after the whole records among the pending bytes.
    pub open spec fn drained(self) -> LinkState
        decreases self.pending.len(),
    {
        match first_record_len(self.pending) {
            Some(n) => if 4 <= n <= self.pending.len() {
                (LinkState {
                    pending: self.pending.skip(n),
                    ..self.after(self.take(self.pending.take(n)))
                }).drained()
            } else {
                self
            },
            None => self,
        }
    }
}

impl LinkState {
    /// The link with `bytes` behind the pending bytes.
    pub open spec fn fed(self, bytes: Seq<u8>) -> LinkState {
        LinkState { pending: self.pending + bytes, ..self }
    }
}

/// A record that is whole stays the first record, whatever follows it.
proof fn lemma_first_record_stays(stream: Seq<u8>, more: Seq<u8>)
    requires
        first_record_len(stream) is Some,
    ensures
        first_record_len(stream + more) == first_record_len(stream),
        (stream + more).take(first_record_len(stream)->0) == stream.take(
            first_record_len(stream)->0,
        ),
        (stream + more).skip(first_record_len(stream)->0) == stream.skip(
            first_record_len(stream)->0,
        ) + more,
{
    let n = first_record_len(stream)->0;
    assert((stream + more).subrange(0, 4) =~= stream.subrange(0, 4));
    assert((stream + more).take(n) =~= stream.take(n));
    assert((stream + more).skip(n) =~= stream.skip(n) + more);
}

/// The pieces in which a stream arrives do not matter: what arrives in
/// two pieces comes to the same deliveries, and leaves the link in the
/// same state, as what arrives in one.
pub proof fn lemma_pieces_do_not_matter(link: LinkState, first: Seq<u8>, second: Seq<u8>)
    ensures
        link.fed(first + second).deliveries() == link.fed(first).deliveries() + link.fed(
            first,
        ).drained().fed(second).deliveries(),
        link.fed(first + second).drained() == link.fed(first).drained().fed(second).drained(),
    decreases link.pending.len() + first.len(),
{
    let one = link.fed(first);
    let both = link.fed(first + second);
    assert(both.pending =~= one.pending + second);
    match first_record_len(one.pending) {
        Some(n) => {
            if 4 <= n <= one.pending.len() {
                lemma_first_record_stays(one.pending, second);
                let delivery = one.take(one.pending.take(n));
                let rest = LinkState { pending: one.pending.skip(n), ..one.after(delivery) };
                let start = LinkState { pending: Seq::empty(), ..one.after(delivery) };
                assert(start.fed(one.pending.skip(n)) =~= rest);
                assert(start.fed(one.pending.skip(n) + second) =~= (LinkState {
                    pending: both.pending.skip(n),
                    ..both.after(delivery)
                }));
                lemma_pieces_do_not_matter(start, one.pending.skip(n), second);
                assert(both.deliveries() =~= seq![delivery] + start.fed(
                    one.pending.skip(n) + second,
                ).deliveries());
                assert(seq![delivery] + (rest.deliveries() + rest.drained().fed(
                    second,
                ).deliveries()) =~= (seq![delivery] + rest.deliveries()) + rest.drained().fed(
                    second,
                ).deliveries());
            } else {
                assert(one.fed(second) =~= both);
                assert(Seq::<DeliveryView>::empty() + both.deliveries() =~= both.deliveries());
            }
        },
        None => {
            assert(one.fed(second) =~= both);
            assert(Seq::<DeliveryView>::empty() + both.deliveries() =~= both.deliveries());
        },
    }
}

/// A stream that begins with the record of a letter delivers that letter
/// first, and then what the rest of the stream comes to.
pub proof fn lemma_record_is_delivered(link: LinkState, letter: LetterView, rest: Seq<u8>)
    requires
        link.pending.len() == 0,
    ensures
        link.fed(record(letter) + rest).deliveries() == seq![link.judge(letter)] + link.after(
            link.judge(letter),
        ).fed(rest).deliveries(),
{
    crate::messaging::codec::lemma_record_round_trip(letter);
    let whole = link.fed(record(letter) + rest);
    assert(whole.pending =~= record(letter) + rest);
    lemma_first_record_stays(record(letter), rest);
    let n = record(letter).len() as int;
    assert(record(letter).take(n) =~= record(letter));
    assert(record(letter).skip(n) + rest =~= rest);
    assert(link.after(link.judge(letter)).fed(rest) =~= (LinkState {
        pending: whole.pending.skip(n),
        ..whole.after(link.judge(letter))
    }));
}

/// The reading end of one link: it puts the bytes that arrive together
/// into records, whatever the pieces in which they arrive.
pub struct InboundLink {
    me: PeerId,
    peer: Option<PeerId>,
    pending: Vec<u8>,
}

impl View for InboundLink {
    type V = LinkState;

    closed spec fn view(&self) -> LinkState {
        LinkState { me: self.me, peer: self.peer, pending: self.pending@ }
    }
}

impl InboundLink {
    /// A link on which nothing has arrived, read by the node `me`.
    pub fn new(me: PeerId) -> (link: Self)
        ensures
            link@ == (LinkState { me, peer: None, pending: Seq::empty() }),
    {
        InboundLink { me, peer: None, pending: Vec::new() }
    }

    /// The peer at the other end, once it has said so.
    pub fn peer(&self) -> (peer: Option<PeerId>)
        ensures
            peer == self@.peer,
    {
        self.peer
    }

    fn judge(&self, letter: Letter) -> (delivery: Delivery)
        ensures
            delivery@ == self@.judge(letter@),
    {
        let alive: bool = match letter.message() {
            Message::Alive => true,
            _ => false,
        };
        match self.peer {
            None => if alive && letter.to() == self.me {
                Delivery::Hello(letter.from())
            } else {
                Delivery::Violation
            },
            Some(peer) => if !alive && letter.from() == peer && letter.to() == self.me {
                Delivery::Mail(letter)
            } else {
                Delivery::Violation
            },
        }
    }

    /// Takes the bytes that have arrived and returns what the records that
    /// are now whole come to, in their order. The bytes behind the last
    /// whole record wait for the rest of theirs.
    pub fn receive(&mut self, bytes: &[u8]) -> (deliveries: Vec<Delivery>)
        ensures
            deliveries@.map_values(|d: Delivery| d@) == old(self)@.fed(bytes@).deliveries(),
            final(self)@ == old(self)@.fed(bytes@).drained(),
    {
        let ghost start = old(self)@.fed(bytes@);
        self.pending.extend_from_slice(bytes);
        assert(self@ =~= start);
        let mut deliveries: Vec<Delivery> = Vec::new();
        let mut at: usize = 0;
        assert(self.pending@.skip(0) =~= self.pending@);
        assert(Seq::<DeliveryView>::empty() + start.deliveries() =~= start.deliveries());
        loop
            invariant
                at <= self.pending@.len(),
                self@.me == start.me,
                start.deliveries() == deliveries@.map_values(|d: Delivery| d@) + (LinkState {
                    pending: self.pending@.skip(at as int),
                    ..self@
                }).deliveries(),
                start.drained() == (LinkState {
                    pending: self.pending@.skip(at as int),
                    ..self@
                }).drained(),
            ensures
                at <= self.pending@.len(),
                start.deliveries() == deliveries@.map_values(|d: Delivery| d@),
                start.drained() == (LinkState {
                    pending: self.pending@.skip(at as int),
                    ..self@
                }),
            decreases self.pending@.len() - at,
        {
            let rest = slice_subrange(self.pending.as_slice(), at, self.pending.len());
            assert(rest@ =~= self.pending@.skip(at as int));
            let ghost here = LinkState { pending: rest@, ..self@ };
            let Some(n) = record_len(rest) else {
                assert(deliveries@.map_values(|d: Delivery| d@) + Seq::<DeliveryView>::empty()
                    =~= deliveries@.map_values(|d: Delivery| d@));
                break ;
            };
            let whole = slice_subrange(rest, 0, n);
            assert(whole@ =~= rest@.take(n as int));
            let delivery = match decode(whole) {
                Ok(letter) => self.judge(letter),
                Err(_) => Delivery::Garbled,
            };
            assert(delivery@ == here.take(rest@.take(n as int)));
            if let Delivery::Hello(peer) = delivery {
                self.peer = Some(peer);
            }
            let ghost before = deliveries@;
            deliveries.push(delivery);
            at = at + n;
            proof {
                assert(rest@.skip(n as int) =~= self.pending@.skip(at as int));
                assert(self@.peer == here.after(delivery@).peer);
                let tail = (LinkState {
                    pending: self.pending@.skip(at as int),
                    ..self@
                });
                assert(tail =~= (LinkState {
                    pending: rest@.skip(n as int),
                    ..here.after(delivery@)
                }));
                assert(before.map_values(|d: Delivery| d@) + (seq![delivery@]
                    + tail.deliveries()) =~= deliveries@.map_values(|d: Delivery| d@)
                    + tail.deliveries());
            }
        }
        let rest = vstd::slice::slice_to_vec(
            slice_subrange(self.pending.as_slice(), at, self.pending.len()),
        );
        self.pending = rest;
        deliveries
    }
}

} // verus!
