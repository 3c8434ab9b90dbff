//! The state a node owns, and the decisions of its loop: what a proposal
//! and a delivered letter do to it, which letters it sends next, and which
//! of them it keeps because they are for itself.

use std::collections::VecDeque;
use vstd::prelude::*;

use crate::args::Project4;
use crate::messaging::dist_types::PeerId;
use crate::messaging::trace::record_text;
use crate::messaging::{Letter, LetterView, Message};
use crate::setup::hostsfile::{
    accepts_in, fresh_roles, hears_in, peers_with, role_views, PeerList,
};
use crate::setup::roster::Entry;
use crate::state::paxos::{
    carried, Audience, PaxosRole, PaxosStage, Proposal, ProtocolViolation, RoleState, Value,
};

pub mod laws;
pub mod paxos;
pub mod safety;

verus! {

/// The stage that a node works on.
pub const FIRST_STAGE: PaxosStage = 1;

/// A message with the peers it goes to.
pub type Outgoing = (Message, Seq<PeerId>);

/// The state of a node, as contracts speak of it.
#[verifier::ext_equal]
pub struct NodeState {
    /// The node's own id.
    pub id: PeerId,
    /// The entries of the manifest.
    pub entries: Seq<Entry>,
    /// The node's role in each of its stages.
    pub roles: Seq<(PaxosStage, RoleState)>,
    /// The stage the node works on.
    pub stage: PaxosStage,
    /// The messages that wait to be sent, the oldest first.
    pub log: Seq<Outgoing>,
    /// The letters that arrived and wait to be handled, the oldest first:
    /// those that the node addressed to itself.
    pub inbox: Seq<LetterView>,
}

/// Whether a letter is for the peer `id`.
pub open spec fn is_for(id: PeerId) -> spec_fn(LetterView) -> bool {
    |letter: LetterView| letter.to == id
}

/// Whether a letter is for another peer than `id`.
pub open spec fn is_not_for(id: PeerId) -> spec_fn(LetterView) -> bool {
    |letter: LetterView| letter.to != id
}

/// The letter in `letter`, as contracts speak of it.
pub open spec fn seen(letter: Option<Letter>) -> Option<LetterView> {
    match letter {
        Some(l) => Some(l@),
        None => None,
    }
}

/// The proposal at hand when `msg` reaches a node in role `role`: the one
/// that the message carries, else the proposer's own.
pub open spec fn at_hand(msg: Message, role: RoleState) -> Proposal {
    match (carried(msg), role) {
        (Some(p), _) => p,
        (None, RoleState::Prop(p)) => p.current_prop(),
        (None, _) => arbitrary(),
    }
}

/// The lines that trace the arrival of `msg` at peer `id` in role `role`,
/// and the reply to it.
pub open spec fn trace_of(id: PeerId, msg: Message, role: RoleState, reply: Option<Message>) -> Seq<
    Seq<char>,
> {
    let incoming = at_hand(msg, role);
    let received = seq![record_text(msg, id, false, incoming)->0];
    match reply {
        Some(out) => received.push(
            record_text(
                out,
                id,
                true,
                match carried(out) {
                    Some(p) => p,
                    None => incoming,
                },
            )->0,
        ),
        None => received,
    }
}

/// The message of an addressed reply.
pub open spec fn message_of(reply: Option<(Message, Audience)>) -> Option<Message> {
    match reply {
        Some((msg, _)) => Some(msg),
        None => None,
    }
}

impl NodeState {
    /// Whether `k` is the place of the role of the current stage.
    pub open spec fn is_current(self, k: int) -> bool {
        &&& 0 <= k < self.roles.len()
        &&& self.roles[k].0 == self.stage
        &&& forall|j: int| 0 <= j < k ==> (#[trigger] self.roles[j]).0 != self.stage
    }

    /// The place of the role of the current stage, if the node has one.
    pub open spec fn current(self) -> Option<int> {
        if exists|k: int| self.is_current(k) {
            Some(choose|k: int| self.is_current(k))
        } else {
            None
        }
    }

    /// The peers that a reply for `who` goes to, `sender` being the peer
    /// that is answered.
    pub open spec fn recipients(self, who: Audience, sender: PeerId) -> Seq<PeerId> {
        match who {
            Audience::Sender => seq![sender],
            Audience::Acceptors => peers_with(self.entries, accepts_in(self.stage)),
            Audience::Listeners => peers_with(self.entries, hears_in(self.stage)),
        }
    }

    /// Whether the node is the proposer of the current stage and has
    /// proposed nothing yet.
    pub open spec fn can_propose(self) -> bool {
        self.current() matches Some(k) && self.roles[k].1 matches RoleState::Prop(p)
            && !p.has_begun()
    }

    /// The proposer of the current stage.
    pub open spec fn proposer(self) -> crate::state::paxos::ProposerState
        recommends
            self.can_propose(),
    {
        self.roles[self.current()->0].1->Prop_0
    }

    /// Whether a proposal can be made now: the node can propose and a
    /// proposal number is left.
    pub open spec fn proposes(self) -> bool {
        self.can_propose() && self.proposer().num < u64::MAX
    }

    /// The log with `reply` behind its last entry, addressed to the peers
    /// it goes to.
    pub open spec fn enqueue(self, reply: Option<(Message, Audience)>, sender: PeerId) -> Seq<
        Outgoing,
    > {
        match reply {
            Some((msg, who)) => self.log.push((msg, self.recipients(who, sender))),
            None => self.log,
        }
    }

    /// Whether the node refuses `letter`: it has no role in the current
    /// stage, or its role never expects the message.
    pub open spec fn refuses(self, letter: LetterView) -> bool {
        match self.current() {
            Some(k) => self.roles[k].1.rejects(letter.contents),
            None => true,
        }
    }

    /// Whether `next` is a state in which `letter` may leave the node, with
    /// `reply` as the answer: the role of the current stage takes its step,
    /// the answer joins the log, and nothing else changes.
    pub open spec fn delivers(
        self,
        letter: LetterView,
        next: NodeState,
        reply: Option<(Message, Audience)>,
    ) -> bool {
        &&& self.current() matches Some(k)
        &&& next.roles.len() == self.roles.len()
        &&& self.roles[k].1.handles(letter.from, letter.contents, next.roles[k].1, reply)
        &&& next.roles == self.roles.update(k, (self.stage, next.roles[k].1))
        &&& next.log == self.enqueue(reply, letter.from)
        &&& next.inbox == self.inbox
        &&& next.id == self.id
        &&& next.entries == self.entries
        &&& next.stage == self.stage
    }

    /// The state after the node proposed `v`.
    pub open spec fn propose(self, v: Value) -> NodeState
        recommends
            self.can_propose(),
    {
        let k = self.current()->0;
        let p = self.roles[k].1->Prop_0;
        NodeState {
            roles: self.roles.update(k, (self.stage, RoleState::Prop(p.propose(v)))),
            log: self.log.push(
                (
                    Message::Prepare(p.propose(v).current_prop()),
                    self.recipients(Audience::Acceptors, self.id),
                ),
            ),
            ..self
        }
    }

    /// The letters that wait to be handled once `letter` has arrived, if
    /// one has: it waits behind those that wait already.
    pub open spec fn arrivals(self, letter: Option<LetterView>) -> Seq<LetterView> {
        match letter {
            Some(l) => self.inbox.push(l),
            None => self.inbox,
        }
    }

    /// Of the letters that carry the oldest message of the log, those to
    /// other peers: they go out over the links.
    pub open spec fn letters_to_send(self) -> Seq<LetterView> {
        self.next_letters().filter(is_not_for(self.id))
    }

    /// Of the letters that carry the oldest message of the log, those to
    /// the node itself: they need no link.
    pub open spec fn own_letters(self) -> Seq<LetterView> {
        self.next_letters().filter(is_for(self.id))
    }

    /// The letters that carry the oldest message of the log, one for each
    /// of its recipients.
    pub open spec fn next_letters(self) -> Seq<LetterView> {
        if self.log.len() == 0 {
            Seq::empty()
        } else {
            self.log[0].1.map_values(
                |to: PeerId| LetterView { from: self.id, contents: self.log[0].0, to },
            )
        }
    }
}

/// What the delivery of a letter came to.
pub struct Handled {
    /// The reply that joined the log, and who it is for.
    pub reply: Option<(Message, Audience)>,
    /// The lines to add to the trace.
    pub trace: Vec<String>,
}

/// The lines in `trace`, as sequences of characters.
pub open spec fn lines_of(trace: Seq<String>) -> Seq<Seq<char>> {
    trace.map_values(|line: String| line@)
}

/// The letters in `letters`, as contracts speak of them.
pub open spec fn letter_views(letters: Seq<Letter>) -> Seq<LetterView> {
    letters.map_values(|letter: Letter| letter@)
}

/// The waiting messages in `log`, their recipients as sequences.
pub open spec fn log_view(log: Seq<(Message, Vec<PeerId>)>) -> Seq<Outgoing> {
    log.map_values(|entry: (Message, Vec<PeerId>)| (entry.0, entry.1@))
}

/// A node: the manifest, the node's roles and the messages that wait to be
/// sent.
pub struct Data {
    peer_list: PeerList,
    id: PeerId,
    roles: Vec<(PaxosStage, PaxosRole)>,
    stage: PaxosStage,
    log: VecDeque<(Message, Vec<PeerId>)>,
    inbox: VecDeque<Letter>,
}

impl View for Data {
    type V = NodeState;

    closed spec fn view(&self) -> NodeState {
        NodeState {
            id: self.id,
            entries: self.peer_list.entries(),
            roles: role_views(self.roles@),
            stage: self.stage,
            log: log_view(self.log@),
            inbox: letter_views(self.inbox@),
        }
    }
}

impl Data {
    /// A node at the start: it has its id and its roles from the manifest,
    /// works on the first stage and has nothing to send.
    pub fn new(peer_list: PeerList) -> (node: Self)
        requires
            peer_list.id_of(peer_list.host()) is Some,
        ensures
            node@ == (NodeState {
                id: peer_list.id_of(peer_list.host())->0,
                entries: peer_list.entries(),
                roles: fresh_roles(peer_list.entries(), peer_list.own_roles()),
                stage: FIRST_STAGE,
                log: Seq::empty(),
                inbox: Seq::empty(),
            }),
    {
        let id = peer_list.id();
        let roles = peer_list.initial_roles();
        let node = Data {
            peer_list,
            id,
            roles,
            stage: FIRST_STAGE,
            log: VecDeque::new(),
            inbox: VecDeque::new(),
        };
        assert(node@.log =~= Seq::empty());
        assert(node@.inbox =~= Seq::empty());
        node
    }

    /// The letter that carries `msg` from this node to `to`.
    pub fn send_msg(&self, msg: Message, to: PeerId) -> (letter: Letter)
        ensures
            letter@ == (LetterView { from: self@.id, contents: msg, to }),
    {
        Letter::new(self.id, msg, to)
    }

    fn current_role(&self) -> (place: Option<usize>)
        ensures
            match place {
                Some(k) => self@.current() == Some(k as int) && k < self.roles@.len(),
                None => self@.current() is None,
            },
    {
        let mut k: usize = 0;
        while k < self.roles.len()
            invariant
                k <= self.roles@.len(),
                forall|j: int| 0 <= j < k ==> (#[trigger] self@.roles[j]).0 != self.stage,
            decreases self.roles@.len() - k,
        {
            if self.roles[k].0 == self.stage {
                assert(self@.is_current(k as int));
                return Some(k);
            }
            k = k + 1;
        }
        assert(forall|j: int| !self@.is_current(j));
        None
    }

    /// The id of this node.
    pub fn id(&self) -> (id: PeerId)
        ensures
            id == self@.id,
    {
        self.id
    }

    /// The stage that this node works on.
    pub fn stage(&self) -> (stage: PaxosStage)
        ensures
            stage == self@.stage,
    {
        self.stage
    }

    /// Makes `stage` the stage that this node works on. Its roles and the
    /// messages that wait stay as they are.
    pub fn enter_stage(&mut self, stage: PaxosStage)
        ensures
            final(self)@ == (NodeState { stage, ..old(self)@ }),
    {
        self.stage = stage;
    }

    /// The number of letters that wait to be handled.
    pub fn unread(&self) -> (count: usize)
        ensures
            count == self@.inbox.len(),
    {
        self.inbox.len()
    }

    /// The number of messages that wait to be sent.
    pub fn waiting(&self) -> (count: usize)
        ensures
            count == self@.log.len(),
    {
        self.log.len()
    }

    /// The value that this node was told has been chosen in the current
    /// stage.
    pub fn chosen_value(&self) -> (value: Option<Value>)
        ensures
            value == match self@.current() {
                Some(k) => self@.roles[k].1.learned(),
                None => None,
            },
    {
        match self.current_role() {
            Some(k) => match &self.roles[k].1 {
                PaxosRole::Prop(_) => None,
                PaxosRole::Acc(a) => a.chosen_value(),
                PaxosRole::Learn(l) => l.chosen_value(),
            },
            None => None,
        }
    }

    /// What the node is to propose now, and after how long a wait: the
    /// value it was started with, if it was started with one and can
    /// propose.
    pub fn proposal_due(&self, args: &Project4) -> (due: Option<(Value, Option<u64>)>)
        ensures
            due == match args.proposal_value {
                Some(value) => if self@.can_propose() {
                    Some((value, args.proposal_delay))
                } else {
                    None
                },
                None => None,
            },
    {
        match args.proposal_value {
            Some(value) => if self.can_propose() {
                Some((value, args.proposal_delay))
            } else {
                None
            },
            None => None,
        }
    }

    /// Whether this node is the proposer of the current stage and has
    /// proposed nothing yet.
    pub fn can_propose(&self) -> (yes: bool)
        ensures
            yes == self@.can_propose(),
    {
        match self.current_role() {
            Some(k) => match &self.roles[k].1 {
                PaxosRole::Prop(p) => !p.has_begun(),
                _ => false,
            },
            None => false,
        }
    }
}

impl Data {
    /// Proposes `v` where the node is the proposer of the current stage,
    /// has proposed nothing yet and has a proposal number left: the
    /// `Prepare` joins the log, addressed to the acceptors of the stage,
    /// and the line that traces it is returned. Else nothing changes.
    pub fn propose(&mut self, v: Value) -> (line: Option<String>)
        ensures
            final(self)@ == if old(self)@.proposes() {
                old(self)@.propose(v)
            } else {
                old(self)@
            },
            match line {
                Some(text) => old(self)@.proposes() && Some(text@) == record_text(
                    Message::Prepare(old(self)@.proposer().propose(v).current_prop()),
                    old(self)@.id,
                    true,
                    old(self)@.proposer().propose(v).current_prop(),
                ),
                None => !old(self)@.proposes(),
            },
    {
        let Some(k) = self.current_role() else {
            return None;
        };
        let ghost before = self@;
        let out: Message = match &mut self.roles[k].1 {
            PaxosRole::Prop(p) => {
                if p.has_begun() || p.num() == u64::MAX {
                    return None;
                }
                p.propose(v)
            },
            _ => {
                return None;
            },
        };
        let to = self.peer_list.acceptors(self.stage);
        let line = match out {
            Message::Prepare(prop) => out.paxos_print(self.id, true, &prop),
            _ => None,
        };
        self.log.push_back((out, to));
        proof {
            assert(self@.roles =~= before.propose(v).roles);
            assert(self@.log =~= before.propose(v).log);
        }
        line
    }

    /// Takes the letter that the mailbox gave, if it gave one, and handles
    /// the letter that has waited longest: one that the node sent to
    /// itself comes before the one that has just arrived, which then waits
    /// its turn. Where no letter waits nothing happens. A letter that the
    /// node refuses is dropped and changes nothing else. Else the role of
    /// the current stage takes its step, its reply joins the log, and the
    /// lines that trace the arrival and the reply are returned.
    pub fn tick(&mut self, letter: Option<Letter>) -> (result: Result<Handled, ProtocolViolation>)
        ensures
            old(self)@.arrivals(seen(letter)).len() == 0 ==> {
                &&& result matches Ok(done)
                &&& done.reply is None
                &&& done.trace@.len() == 0
                &&& final(self)@ == old(self)@
            },
            old(self)@.arrivals(seen(letter)).len() > 0 ==> ({
                let first = old(self)@.arrivals(seen(letter))[0];
                let taken = NodeState {
                    inbox: old(self)@.arrivals(seen(letter)).drop_first(),
                    ..old(self)@
                };
                match result {
                    Ok(done) => {
                        &&& !taken.refuses(first)
                        &&& taken.delivers(first, final(self)@, done.reply)
                        &&& lines_of(done.trace@) == trace_of(
                            taken.id,
                            first.contents,
                            taken.roles[taken.current()->0].1,
                            message_of(done.reply),
                        )
                        &&& done.trace@.len() == if done.reply is Some {
                            2int
                        } else {
                            1int
                        }
                    },
                    Err(_) => taken.refuses(first) && final(self)@ == taken,
                }
            }),
    {
        let ghost queue = old(self)@.arrivals(seen(letter));
        if let Some(arrived) = letter {
            let ghost waiting = self.inbox@;
            self.inbox.push_back(arrived);
            assert(letter_views(self.inbox@) =~= letter_views(waiting).push(arrived@));
        }
        assert(self@.inbox == queue);
        let Some(letter) = self.inbox.pop_front() else {
            return Ok(Handled { reply: None, trace: Vec::new() });
        };
        assert(letter@ == queue[0]);
        assert(self@.inbox =~= queue.drop_first());
        let ghost before = self@;
        let Some(k) = self.current_role() else {
            return Err(ProtocolViolation);
        };
        let msg: Message = *letter.message();
        let from: PeerId = letter.from();
        let incoming: Option<Proposal> = match msg {
            Message::Prepare(p) => Some(p),
            Message::Accept(p) => Some(p),
            Message::Chosen(p) => Some(p),
            _ => match &self.roles[k].1 {
                PaxosRole::Prop(p) => if p.has_begun() {
                    Some(p.current_prop())
                } else {
                    None
                },
                _ => None,
            },
        };
        let reply = match self.roles[k].1.handle(from, &msg) {
            Ok(reply) => reply,
            Err(e) => {
                assert(self@.roles =~= before.roles);
                return Err(e);
            },
        };
        let Some(incoming) = incoming else {
            return Err(ProtocolViolation);
        };
        let mut trace: Vec<String> = Vec::new();
        if let Some(line) = msg.paxos_print(self.id, false, &incoming) {
            trace.push(line);
        }
        if let Some((out, who)) = reply {
            let at_hand: Proposal = match out {
                Message::Prepare(p) => p,
                Message::Accept(p) => p,
                Message::Chosen(p) => p,
                _ => incoming,
            };
            if let Some(line) = out.paxos_print(self.id, true, &at_hand) {
                trace.push(line);
            }
            let to: Vec<PeerId> = match who {
                Audience::Sender => {
                    let mut to: Vec<PeerId> = Vec::new();
                    to.push(from);
                    to
                },
                Audience::Acceptors => self.peer_list.acceptors(self.stage),
                Audience::Listeners => self.peer_list.acceptors_and_learners(self.stage),
            };
            self.log.push_back((out, to));
        }
        proof {
            assert(self@.roles =~= before.roles.update(
                k as int,
                (before.stage, self@.roles[k as int].1),
            ));
            assert(self@.log =~= before.enqueue(reply, from));
            assert(lines_of(trace@) =~= trace_of(
                before.id,
                msg,
                before.roles[k as int].1,
                message_of(reply),
            ));
        }
        Ok(Handled { reply, trace })
    }

    /// Takes the oldest message off the log and makes the letters that
    /// carry it, one for each of its recipients. The letters to other
    /// peers are returned, to be sent over the links. A letter to the node
    /// itself needs no link: it joins the letters that wait to be handled.
    /// Where the log is empty nothing happens.
    pub fn flush_log(&mut self) -> (letters: Vec<Letter>)
        ensures
            letter_views(letters@) == old(self)@.letters_to_send(),
            letters@.len() == old(self)@.letters_to_send().len(),
            forall|i: int|
                0 <= i < letters@.len() ==> (#[trigger] letters@[i])@ == old(
                    self,
                )@.letters_to_send()[i],
            final(self)@ == if old(self)@.log.len() == 0 {
                old(self)@
            } else {
                NodeState {
                    log: old(self)@.log.drop_first(),
                    inbox: old(self)@.inbox + old(self)@.own_letters(),
                    ..old(self)@
                }
            },
    {
        let ghost before = self@;
        let ghost all = before.next_letters();
        let mut letters: Vec<Letter> = Vec::new();
        let Some((msg, to_peers)) = self.log.pop_front() else {
            assert(all.filter(is_not_for(before.id)) =~= Seq::<LetterView>::empty()) by {
                reveal(Seq::filter);
            }
            assert(letter_views(letters@) =~= before.letters_to_send());
            return letters;
        };
        assert(self@.log =~= before.log.drop_first());
        assert(before.log[0] == (msg, to_peers@));
        proof {
            assert(all.take(0) =~= Seq::<LetterView>::empty());
            assert(all.take(0).filter(is_not_for(before.id)) =~= Seq::<LetterView>::empty()) by {
                reveal(Seq::filter);
            }
            assert(all.take(0).filter(is_for(before.id)) =~= Seq::<LetterView>::empty()) by {
                reveal(Seq::filter);
            }
            assert(before.inbox + Seq::<LetterView>::empty() =~= before.inbox);
        }
        let mut i: usize = 0;
        while i < to_peers.len()
            invariant
                i <= to_peers@.len(),
                all == before.next_letters(),
                all.len() == to_peers@.len(),
                before.log.len() > 0,
                before.log[0] == (msg, to_peers@),
                letter_views(letters@) == all.take(i as int).filter(is_not_for(before.id)),
                self@ == (NodeState {
                    log: before.log.drop_first(),
                    inbox: before.inbox + all.take(i as int).filter(is_for(before.id)),
                    ..before
                }),
            decreases to_peers@.len() - i,
        {
            let letter = self.send_msg(msg, to_peers[i]);
            assert(letter@ == all[i as int]);
            proof {
                let so_far = all.take(i as int);
                assert(all.take(i + 1) == so_far.push(all[i as int]));
                so_far.lemma_filter_push(all[i as int], is_for(before.id));
                so_far.lemma_filter_push(all[i as int], is_not_for(before.id));
            }
            if letter.to() == self.id {
                let ghost waiting = self.inbox@;
                self.inbox.push_back(letter);
                assert(letter_views(self.inbox@) =~= letter_views(waiting).push(letter@));
                assert(self@.inbox =~= before.inbox + all.take(i + 1).filter(is_for(before.id)));
            } else {
                let ghost sent = letters@;
                letters.push(letter);
                assert(letter_views(letters@) =~= letter_views(sent).push(letter@));
            }
            i = i + 1;
        }
        assert(all.take(i as int) =~= all);
        assert forall|i: int| 0 <= i < letters@.len() implies (#[trigger] letters@[i])@
            == before.letters_to_send()[i] by {
            assert(letter_views(letters@)[i] == letters@[i]@);
        }
        letters
    }
}

} // verus!
