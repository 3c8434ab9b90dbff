//! The Paxos roles a node can play in one stage, each a small state machine.

use std::collections::HashMap;
use vstd::prelude::*;
use vstd::std_specs::iter::IteratorSpec;

use crate::messaging::dist_types::PeerId;
use crate::messaging::Message;

verus! {

broadcast use vstd::std_specs::hash::group_hash_axioms;

/// Totally ordered number of a proposal.
pub type ProposalNum = u64;

/// A value that can be agreed on.
pub type Value = char;

/// Names one independent Paxos instance.
pub type PaxosStage = u32;

/// A numbered value.
#[derive(Clone, Copy, Debug, PartialEq, Eq, Structural)]
pub struct Proposal {
    pub num: ProposalNum,
    pub value: Value,
}

/// What an acceptor remembers, as contracts speak of it.
pub struct AcceptorState {
    /// The highest proposal number promised so far.
    pub min_proposal: ProposalNum,
    /// The proposal accepted last.
    pub accepted_prop: Option<Proposal>,
    /// The value the acceptor was told has been chosen.
    pub chosen_value: Option<Value>,
}

impl AcceptorState {
    /// The state of an acceptor that has promised and accepted nothing.
    pub open spec fn fresh() -> AcceptorState {
        AcceptorState { min_proposal: 0, accepted_prop: None, chosen_value: None }
    }

    /// The state after a `Prepare` carrying `prop`.
    pub open spec fn prepare(self, prop: Proposal) -> AcceptorState {
        AcceptorState {
            min_proposal: if prop.num > self.min_proposal {
                prop.num
            } else {
                self.min_proposal
            },
            ..self
        }
    }

    /// Whether an `Accept` carrying `prop` is honoured.
    pub open spec fn accepts(self, prop: Proposal) -> bool {
        prop.num >= self.min_proposal
    }

    /// The state after an `Accept` carrying `prop`.
    pub open spec fn accept(self, prop: Proposal) -> AcceptorState {
        if self.accepts(prop) {
            AcceptorState { min_proposal: prop.num, accepted_prop: Some(prop), ..self }
        } else {
            self
        }
    }

    /// The state after a `Chosen` carrying `prop`.
    pub open spec fn learn(self, prop: Proposal) -> AcceptorState {
        AcceptorState { chosen_value: Some(prop.value), ..self }
    }
}

/// The acceptor role.
pub struct Accepting {
    min_proposal: ProposalNum,
    accepted_prop: Option<Proposal>,
    chosen_value: Option<Value>,
}

impl View for Accepting {
    type V = AcceptorState;

    closed spec fn view(&self) -> AcceptorState {
        AcceptorState {
            min_proposal: self.min_proposal,
            accepted_prop: self.accepted_prop,
            chosen_value: self.chosen_value,
        }
    }
}

impl Default for Accepting {
    fn default() -> (acceptor: Self)
        ensures
            acceptor@ == AcceptorState::fresh(),
    {
        Accepting { min_proposal: 0, accepted_prop: None, chosen_value: None }
    }
}

impl Accepting {
    /// The value that the acceptor was told has been chosen.
    pub fn chosen_value(&self) -> (value: Option<Value>)
        ensures
            value == self@.chosen_value,
    {
        self.chosen_value
    }

    /// Handles a `Prepare`: promises `prop.num` if it is higher than every
    /// promise made so far, and reports the proposal accepted last.
    pub fn prepare(&mut self, prop: &Proposal) -> (reply: Message)
        ensures
            final(self)@ == old(self)@.prepare(*prop),
            reply == Message::PrepareAck(old(self)@.accepted_prop),
            final(self)@.min_proposal >= old(self)@.min_proposal,
    {
        if prop.num > self.min_proposal {
            self.min_proposal = prop.num;
        }
        Message::PrepareAck(self.accepted_prop)
    }

    /// Handles an `Accept`: takes the proposal unless a higher number was
    /// promised, and reports the promise that now holds.
    pub fn accept(&mut self, prop: &Proposal) -> (reply: Message)
        ensures
            final(self)@ == old(self)@.accept(*prop),
            reply == (Message::AcceptAck { min_proposal: final(self)@.min_proposal }),
            final(self)@.min_proposal >= old(self)@.min_proposal,
    {
        if prop.num >= self.min_proposal {
            self.min_proposal = prop.num;
            self.accepted_prop = Some(*prop);
        }
        Message::AcceptAck { min_proposal: self.min_proposal }
    }
}

/// Whether no acknowledgement in `acks` reports an accepted proposal.
pub open spec fn none_reported(acks: Map<PeerId, Option<Proposal>>) -> bool {
    forall|k: PeerId| acks.contains_key(k) ==> (#[trigger] acks[k]) is None
}

/// Whether `p` is reported by some acknowledgement in `acks` and no
/// acknowledgement reports a proposal with a higher number.
pub open spec fn is_highest(acks: Map<PeerId, Option<Proposal>>, p: Proposal) -> bool {
    &&& exists|k: PeerId| acks.contains_key(k) && #[trigger] acks[k] == Some(p)
    &&& forall|k: PeerId|
        acks.contains_key(k) && (#[trigger] acks[k]) is Some ==> acks[k]->0.num <= p.num
}

/// What a proposer remembers, as contracts speak of it.
#[verifier::ext_equal]
pub struct ProposerState {
    /// The number of the current proposal.
    pub num: ProposalNum,
    /// The value of the current proposal, unset until the first proposal.
    pub value: Option<Value>,
    /// The `PrepareAck`s received, by sender.
    pub prep_acks: Map<PeerId, Option<Proposal>>,
    /// Whether `Accept` went out for the current round.
    pub broadcasted_accept: bool,
    /// The `AcceptAck`s received, by sender.
    pub accept_acks: Map<PeerId, ProposalNum>,
    /// The number of acceptors of the stage.
    pub quorum_size: usize,
    /// Whether `Chosen` went out.
    pub chosen: bool,
    /// The stage this proposer serves.
    pub stage: PaxosStage,
}

impl ProposerState {
    /// Both sets of acknowledgements are finite.
    pub open spec fn wf(self) -> bool {
        self.prep_acks.dom().finite() && self.accept_acks.dom().finite()
    }

    /// The state of a proposer that has neither sent nor received anything.
    pub open spec fn fresh(quorum_size: usize, stage: PaxosStage) -> ProposerState {
        ProposerState {
            num: 0,
            value: None,
            prep_acks: Map::empty(),
            broadcasted_accept: false,
            accept_acks: Map::empty(),
            quorum_size,
            chosen: false,
            stage,
        }
    }

    /// Whether a value has been proposed.
    pub open spec fn has_begun(self) -> bool {
        self.value is Some
    }

    /// The current proposal, once a value has been proposed.
    pub open spec fn current_prop(self) -> Proposal
        recommends
            self.has_begun(),
    {
        Proposal { num: self.num, value: self.value->0 }
    }

    /// Whether `count` acknowledgements are strictly more than half of the
    /// acceptors.
    pub open spec fn majority(self, count: nat) -> bool {
        count > self.quorum_size / 2
    }

    /// The state after proposing `v`.
    pub open spec fn propose(self, v: Value) -> ProposerState
        recommends
            !self.has_begun(),
            self.num < u64::MAX,
    {
        ProposerState { num: (self.num + 1) as u64, value: Some(v), ..self }
    }

    /// Whether a `PrepareAck` from `from` completes a majority for which
    /// `Accept` has not gone out yet. Before the proposer has proposed, no
    /// acknowledgement does.
    pub open spec fn completes_prepare(self, from: PeerId, response: Option<Proposal>) -> bool {
        &&& self.has_begun()
        &&& !self.broadcasted_accept
        &&& self.majority(self.prep_acks.insert(from, response).len())
    }

    /// Whether `next` is a state in which a `PrepareAck` from `from` that
    /// reports `response` may leave the proposer. A proposer that has
    /// proposed nothing stays as it is. Else the acknowledgement is
    /// recorded, and the one that completes a majority makes the proposer
    /// adopt the reported proposal with the highest number, if any is
    /// reported. Two states qualify only where two acknowledgements report
    /// different values under the same highest number.
    pub open spec fn prepare_ack(
        self,
        from: PeerId,
        response: Option<Proposal>,
        next: ProposerState,
    ) -> bool {
        let acks = self.prep_acks.insert(from, response);
        if !self.has_begun() {
            next == self
        } else if self.completes_prepare(from, response) {
            &&& next.prep_acks == acks
            &&& next.broadcasted_accept
            &&& next.accept_acks == self.accept_acks
            &&& next.quorum_size == self.quorum_size
            &&& next.chosen == self.chosen
            &&& next.stage == self.stage
            &&& if none_reported(acks) {
                next.num == self.num && next.value == self.value
            } else {
                next.value is Some && is_highest(acks, next.current_prop())
            }
        } else {
            next == (ProposerState { prep_acks: acks, ..self })
        }
    }

    /// The reply to a `PrepareAck` that leaves the proposer in state
    /// `next`: the `Accept` of its proposal where the acknowledgement
    /// completed a majority.
    pub open spec fn prepare_ack_reply(
        self,
        from: PeerId,
        response: Option<Proposal>,
        next: ProposerState,
    ) -> Option<Message> {
        if self.completes_prepare(from, response) {
            Some(Message::Accept(next.current_prop()))
        } else {
            None
        }
    }

    /// Whether an `AcceptAck` is left unanswered and without effect: the
    /// proposer has proposed nothing, the decision is out already, or no
    /// number above the reported one exists.
    pub open spec fn ignores_accept_ack(self, min_proposal: ProposalNum) -> bool {
        ||| !self.has_begun()
        ||| self.chosen
        ||| (min_proposal > self.num && min_proposal == u64::MAX)
    }

    /// Whether an `AcceptAck` that reports `min_proposal` turns the current
    /// proposal down: it is not ignored and reports a higher promise.
    pub open spec fn rejected_by(self, min_proposal: ProposalNum) -> bool {
        !self.ignores_accept_ack(min_proposal) && self.num < min_proposal
    }

    /// The state after an `AcceptAck` from `from` that reports
    /// `min_proposal`. An ignored one changes nothing. One that turns the
    /// proposal down starts a new round under the number above the
    /// reported promise, without acknowledgements. Any other is recorded,
    /// and the one that completes a majority makes the decision.
    pub open spec fn accept_ack(self, from: PeerId, min_proposal: ProposalNum) -> ProposerState {
        let acks = self.accept_acks.insert(from, min_proposal);
        if self.ignores_accept_ack(min_proposal) {
            self
        } else if self.rejected_by(min_proposal) {
            ProposerState {
                num: (min_proposal + 1) as u64,
                broadcasted_accept: false,
                prep_acks: Map::empty(),
                accept_acks: Map::empty(),
                ..self
            }
        } else {
            ProposerState { accept_acks: acks, chosen: self.majority(acks.len()), ..self }
        }
    }

    /// The reply to an `AcceptAck` from `from` that reports `min_proposal`:
    /// the `Prepare` of the new round, the `Chosen` of the decision, or
    /// nothing.
    pub open spec fn accept_ack_reply(self, from: PeerId, min_proposal: ProposalNum) -> Option<
        Message,
    > {
        let next = self.accept_ack(from, min_proposal);
        if self.ignores_accept_ack(min_proposal) {
            None
        } else if self.rejected_by(min_proposal) {
            Some(Message::Prepare(next.current_prop()))
        } else if next.chosen {
            Some(Message::Chosen(next.current_prop()))
        } else {
            None
        }
    }
}

/// The proposer role.
pub struct Proposing {
    num: ProposalNum,
    value: Option<Value>,
    prep_acks: HashMap<PeerId, Option<Proposal>>,
    broadcasted_accept: bool,
    accept_acks: HashMap<PeerId, ProposalNum>,
    quorum_size: usize,
    chosen: bool,
    pub stage: PaxosStage,
}

impl View for Proposing {
    type V = ProposerState;

    closed spec fn view(&self) -> ProposerState {
        ProposerState {
            num: self.num,
            value: self.value,
            prep_acks: self.prep_acks@,
            broadcasted_accept: self.broadcasted_accept,
            accept_acks: self.accept_acks@,
            quorum_size: self.quorum_size,
            chosen: self.chosen,
            stage: self.stage,
        }
    }
}

impl Default for Proposing {
    fn default() -> (proposer: Self)
        ensures
            proposer@ == ProposerState::fresh(0, 0),
    {
        Proposing::new(0, 0)
    }
}

/// The proposal with the highest number among those that `acks` reports.
fn highest_reported(acks: &HashMap<PeerId, Option<Proposal>>) -> (best: Option<Proposal>)
    ensures
        match best {
            Some(p) => is_highest(acks@, p),
            None => none_reported(acks@),
        },
{
    let mut best: Option<Proposal> = None;
    let ghost all = acks.iter().remaining();
    let ghost mut seen: int = 0;
    for entry in it: acks.iter()
        invariant
            it.seq() == all,
            seen == it.index(),
            match best {
                Some(p) => {
                    &&& exists|i: int| 0 <= i < seen && *all[i].1 == Some(p)
                    &&& forall|i: int|
                        0 <= i < seen && all[i].1 is Some ==> (#[trigger] all[i]).1->0.num <= p.num
                },
                None => forall|i: int| 0 <= i < seen ==> (#[trigger] all[i]).1 is None,
            },
    {
        let (_sender, reported) = entry;
        if let Some(p) = reported {
            let better: bool = match best {
                Some(b) => p.num >= b.num,
                None => true,
            };
            if better {
                best = Some(*p);
            }
        }
        proof {
            seen = seen + 1;
        }
    }
    proof {
        assert(seen == all.len());
        match best {
            Some(p) => {
                let i = choose|i: int| 0 <= i < seen && *all[i].1 == Some(p);
                assert(acks@.contains_key(*all[i].0) && acks@[*all[i].0] == Some(p));
                assert forall|k: PeerId|
                    acks@.contains_key(k) && (#[trigger] acks@[k]) is Some implies acks@[k]->0.num
                    <= p.num by {
                    assert(all.contains((&k, &acks@[k])));
                    let j = choose|j: int| 0 <= j < all.len() && all[j] == (&k, &acks@[k]);
                    assert(all[j].1->0.num <= p.num);
                }
            },
            None => {
                assert forall|k: PeerId| acks@.contains_key(k) implies (#[trigger] acks@[k])
                    is None by {
                    assert(all.contains((&k, &acks@[k])));
                    let j = choose|j: int| 0 <= j < all.len() && all[j] == (&k, &acks@[k]);
                    assert(all[j].1 is None);
                }
            },
        }
    }
    best
}

impl Proposing {
    /// A proposer for `stage` that counts majorities among `quorum_size`
    /// acceptors.
    pub fn new(quorum_size: usize, stage: PaxosStage) -> (proposer: Self)
        ensures
            proposer@ == ProposerState::fresh(quorum_size, stage),
    {
        Proposing {
            num: 0,
            value: None,
            prep_acks: HashMap::new(),
            broadcasted_accept: false,
            accept_acks: HashMap::new(),
            quorum_size,
            chosen: false,
            stage,
        }
    }

    /// The acknowledgements of a proposer are finitely many.
    pub proof fn lemma_wf(&self)
        ensures
            self@.wf(),
    {
    }

    /// Whether a value has been proposed.
    pub fn has_begun(&self) -> (begun: bool)
        ensures
            begun == self@.has_begun(),
    {
        self.value.is_some()
    }

    /// Whether the proposer has made the decision.
    pub fn has_chosen(&self) -> (chosen: bool)
        ensures
            chosen == self@.chosen,
    {
        self.chosen
    }

    /// The number of the current proposal.
    pub fn num(&self) -> (num: ProposalNum)
        ensures
            num == self@.num,
    {
        self.num
    }

    /// The current proposal.
    pub fn current_prop(&self) -> (prop: Proposal)
        requires
            self@.has_begun(),
        ensures
            prop == self@.current_prop(),
    {
        match self.value {
            Some(value) => Proposal { num: self.num, value },
            None => Proposal { num: self.num, value: ' ' },
        }
    }

    /// Takes the next proposal number, sets the value and returns the
    /// `Prepare` to broadcast to the acceptors.
    pub fn propose(&mut self, v: Value) -> (out: Message)
        requires
            !old(self)@.has_begun(),
            old(self)@.num < u64::MAX,
        ensures
            final(self)@ == old(self)@.propose(v),
            out == Message::Prepare(Proposal { num: (old(self)@.num + 1) as u64, value: v }),
    {
        self.num = self.num + 1;
        self.value = Some(v);
        Message::Prepare(Proposal { num: self.num, value: v })
    }

    /// Handles a `PrepareAck`. Before the proposer has proposed, the
    /// acknowledgement has no effect. Else it is recorded, and the one that
    /// completes a majority makes the proposer adopt the reported proposal
    /// with the highest number, if any was reported, and returns the
    /// `Accept` to broadcast to the acceptors.
    pub fn acknowledge_prep(&mut self, from: PeerId, response: Option<Proposal>) -> (out: Option<
        Message,
    >)
        ensures
            old(self)@.prepare_ack(from, response, final(self)@),
            out == old(self)@.prepare_ack_reply(from, response, final(self)@),
            !old(self)@.has_begun() ==> final(self)@ == old(self)@ && out is None,
            out matches Some(m) ==> m is Accept && final(self)@.prep_acks.contains_key(from)
                && final(self)@.prep_acks.len() > final(self)@.quorum_size / 2,
            out matches Some(Message::Accept(p)) ==> if none_reported(final(self)@.prep_acks) {
                old(self)@.value == Some(p.value)
            } else {
                is_highest(final(self)@.prep_acks, p)
            },
    {
        let Some(own) = self.value else {
            return None;
        };
        self.prep_acks.insert(from, response);
        if self.prep_acks.len() > self.quorum_size / 2 && !self.broadcasted_accept {
            let value: Value = match highest_reported(&self.prep_acks) {
                Some(p) => {
                    self.num = p.num;
                    self.value = Some(p.value);
                    p.value
                },
                None => own,
            };
            self.broadcasted_accept = true;
            Some(Message::Accept(Proposal { num: self.num, value }))
        } else {
            None
        }
    }

    /// Handles an `AcceptAck`. It has no effect before the proposer has
    /// proposed, after the decision, and where it reports the last number
    /// there is. A higher promise than the current number restarts phase 1
    /// under the next number above it, and the `Prepare` to broadcast is
    /// returned. Any other acknowledgement is recorded, and the one that
    /// completes a majority makes the decision: the `Chosen` to broadcast
    /// is returned.
    pub fn acknowledge_accept(&mut self, from: PeerId, min_proposal: ProposalNum) -> (out: Option<
        Message,
    >)
        ensures
            final(self)@ == old(self)@.accept_ack(from, min_proposal),
            out == old(self)@.accept_ack_reply(from, min_proposal),
            !old(self)@.has_begun() ==> final(self)@ == old(self)@ && out is None,
    {
        let Some(value) = self.value else {
            return None;
        };
        if self.chosen {
            return None;
        }
        if min_proposal > self.num {
            if min_proposal == u64::MAX {
                return None;
            }
            self.num = min_proposal + 1;
            self.broadcasted_accept = false;
            self.prep_acks.clear();
            self.accept_acks.clear();
            assert(self@.prep_acks =~= Map::empty());
            assert(self@.accept_acks =~= Map::empty());
            return Some(Message::Prepare(Proposal { num: self.num, value }));
        }
        self.accept_acks.insert(from, min_proposal);
        if self.accept_acks.len() > self.quorum_size / 2 {
            self.chosen = true;
            Some(Message::Chosen(Proposal { num: self.num, value }))
        } else {
            None
        }
    }
}

/// A role that can be told of the decision.
pub trait Chooser {
    /// Whether this role takes note of a decision.
    spec fn listens(&self) -> bool;

    /// The value this role was told has been chosen.
    spec fn learned(&self) -> Option<Value>;

    /// Takes note of the decision `prop`.
    fn accept_choice(&mut self, prop: &Proposal)
        ensures
            final(self).listens() == old(self).listens(),
            final(self).learned() == if old(self).listens() {
                Some(prop.value)
            } else {
                old(self).learned()
            },
    ;
}

impl Chooser for Accepting {
    open spec fn listens(&self) -> bool {
        true
    }

    open spec fn learned(&self) -> Option<Value> {
        self@.chosen_value
    }

    fn accept_choice(&mut self, prop: &Proposal)
        ensures
            final(self)@ == old(self)@.learn(*prop),
    {
        self.chosen_value = Some(prop.value);
    }
}

/// The learner role: it only waits for the decision.
pub struct Learning {
    chosen_value: Option<Value>,
}

/// What a learner remembers, as contracts speak of it.
pub struct LearnerState {
    /// The value the learner was told has been chosen.
    pub chosen_value: Option<Value>,
}

impl LearnerState {
    /// The state of a learner that has heard of no decision.
    pub open spec fn fresh() -> LearnerState {
        LearnerState { chosen_value: None }
    }
}

impl Learning {
    /// The value that the learner was told has been chosen.
    pub fn chosen_value(&self) -> (value: Option<Value>)
        ensures
            value == self@.chosen_value,
    {
        self.chosen_value
    }
}

impl View for Learning {
    type V = LearnerState;

    closed spec fn view(&self) -> LearnerState {
        LearnerState { chosen_value: self.chosen_value }
    }
}

impl Default for Learning {
    fn default() -> (learner: Self)
        ensures
            learner@ == LearnerState::fresh(),
    {
        Learning { chosen_value: None }
    }
}

impl Chooser for Learning {
    open spec fn listens(&self) -> bool {
        true
    }

    open spec fn learned(&self) -> Option<Value> {
        self@.chosen_value
    }

    fn accept_choice(&mut self, prop: &Proposal)
        ensures
            final(self)@ == (LearnerState { chosen_value: Some(prop.value) }),
    {
        self.chosen_value = Some(prop.value);
    }
}

/// The role a node plays in one stage.
pub enum PaxosRole {
    Prop(Proposing),
    Acc(Accepting),
    Learn(Learning),
}

/// The state of a role, as contracts speak of it.
#[verifier::ext_equal]
pub enum RoleState {
    Prop(ProposerState),
    Acc(AcceptorState),
    Learn(LearnerState),
}

impl RoleState {
    /// The value this role was told has been chosen. A proposer keeps none:
    /// it made the decision itself.
    pub open spec fn learned(self) -> Option<Value> {
        match self {
            RoleState::Prop(_) => None,
            RoleState::Acc(a) => a.chosen_value,
            RoleState::Learn(l) => l.chosen_value,
        }
    }

    /// The state after a `Chosen` carrying `prop`.
    pub open spec fn learn(self, prop: Proposal) -> RoleState {
        match self {
            RoleState::Prop(p) => RoleState::Prop(p),
            RoleState::Acc(a) => RoleState::Acc(a.learn(prop)),
            RoleState::Learn(_) => RoleState::Learn(LearnerState { chosen_value: Some(prop.value) }),
        }
    }
}

impl View for PaxosRole {
    type V = RoleState;

    open spec fn view(&self) -> RoleState {
        match self {
            PaxosRole::Prop(p) => RoleState::Prop(p@),
            PaxosRole::Acc(a) => RoleState::Acc(a@),
            PaxosRole::Learn(l) => RoleState::Learn(l@),
        }
    }
}

impl Chooser for PaxosRole {
    open spec fn listens(&self) -> bool {
        !(self is Prop)
    }

    open spec fn learned(&self) -> Option<Value> {
        self@.learned()
    }

    fn accept_choice(&mut self, prop: &Proposal)
        ensures
            final(self)@ == old(self)@.learn(*prop),
    {
        match self {
            PaxosRole::Acc(a) => a.accept_choice(prop),
            PaxosRole::Learn(l) => l.accept_choice(prop),
            PaxosRole::Prop(_) => {},
        }
    }
}

/// Who a reply goes to.
#[derive(Clone, Copy, Debug, PartialEq, Eq, Structural)]
pub enum Audience {
    /// The peer whose message is answered.
    Sender,
    /// The acceptors of the stage.
    Acceptors,
    /// The acceptors and the learners of the stage.
    Listeners,
}

/// A message for a role that never expects it.
#[derive(Clone, Copy, Debug, PartialEq, Eq, Structural)]
pub struct ProtocolViolation;

/// The proposal that a message carries.
pub open spec fn carried(msg: Message) -> Option<Proposal> {
    match msg {
        Message::Prepare(p) => Some(p),
        Message::Accept(p) => Some(p),
        Message::Chosen(p) => Some(p),
        _ => None,
    }
}

/// Who the reply `msg` of a proposer goes to.
pub open spec fn audience_of(msg: Message) -> Audience {
    if msg is Chosen {
        Audience::Listeners
    } else {
        Audience::Acceptors
    }
}

/// A proposer's reply with the peers it goes to.
pub open spec fn addressed(reply: Option<Message>) -> Option<(Message, Audience)> {
    match reply {
        Some(msg) => Some((msg, audience_of(msg))),
        None => None,
    }
}

impl RoleState {
    /// Whether this role never expects `msg`: a message of the other side
    /// of the protocol, an acknowledgement for a proposer that has proposed
    /// nothing, or `Alive` after the link is up.
    pub open spec fn rejects(self, msg: Message) -> bool {
        match (msg, self) {
            (Message::Prepare(_), RoleState::Acc(_)) => false,
            (Message::Accept(_), RoleState::Acc(_)) => false,
            (Message::PrepareAck(_), RoleState::Prop(p)) => !p.has_begun(),
            (Message::AcceptAck { .. }, RoleState::Prop(p)) => !p.has_begun(),
            (Message::Chosen(_), _) => false,
            _ => true,
        }
    }

    /// Whether `next` and `reply` are a state and an addressed reply with
    /// which this role may answer `msg` from `from`.
    pub open spec fn handles(
        self,
        from: PeerId,
        msg: Message,
        next: RoleState,
        reply: Option<(Message, Audience)>,
    ) -> bool {
        match (msg, self) {
            (Message::Prepare(p), RoleState::Acc(a)) => {
                &&& next == RoleState::Acc(a.prepare(p))
                &&& reply == Some((Message::PrepareAck(a.accepted_prop), Audience::Sender))
            },
            (Message::Accept(p), RoleState::Acc(a)) => {
                &&& next == RoleState::Acc(a.accept(p))
                &&& reply == Some(
                    (
                        Message::AcceptAck { min_proposal: a.accept(p).min_proposal },
                        Audience::Sender,
                    ),
                )
            },
            (Message::PrepareAck(response), RoleState::Prop(p)) => {
                &&& p.has_begun()
                &&& next matches RoleState::Prop(q)
                &&& p.prepare_ack(from, response, q)
                &&& reply == addressed(p.prepare_ack_reply(from, response, q))
            },
            (Message::AcceptAck { min_proposal }, RoleState::Prop(p)) => {
                &&& p.has_begun()
                &&& next == RoleState::Prop(p.accept_ack(from, min_proposal))
                &&& reply == addressed(p.accept_ack_reply(from, min_proposal))
            },
            (Message::Chosen(p), _) => next == self.learn(p) && reply is None,
            _ => false,
        }
    }
}

impl PaxosRole {
    /// Hands `msg` from `from` to the role. A message that the role never
    /// expects is refused and leaves the role as it was. Else the role
    /// takes its step, and its reply, if it has one, is returned with the
    /// peers it goes to.
    pub fn handle(&mut self, from: PeerId, msg: &Message) -> (result: Result<
        Option<(Message, Audience)>,
        ProtocolViolation,
    >)
        ensures
            match result {
                Ok(reply) => !old(self)@.rejects(*msg) && old(self)@.handles(
                    from,
                    *msg,
                    final(self)@,
                    reply,
                ),
                Err(_) => old(self)@.rejects(*msg) && final(self)@ == old(self)@,
            },
    {
        match msg {
            Message::Chosen(p) => {
                self.accept_choice(p);
                Ok(None)
            },
            Message::Alive => Err(ProtocolViolation),
            Message::Prepare(p) => match self {
                PaxosRole::Acc(a) => Ok(Some((a.prepare(p), Audience::Sender))),
                _ => Err(ProtocolViolation),
            },
            Message::Accept(p) => match self {
                PaxosRole::Acc(a) => Ok(Some((a.accept(p), Audience::Sender))),
                _ => Err(ProtocolViolation),
            },
            Message::PrepareAck(response) => match self {
                PaxosRole::Prop(p) => {
                    if !p.has_begun() {
                        return Err(ProtocolViolation);
                    }
                    let out = p.acknowledge_prep(from, *response);
                    Ok(
                        match out {
                            Some(m) => Some((m, Audience::Acceptors)),
                            None => None,
                        },
                    )
                },
                _ => Err(ProtocolViolation),
            },
            Message::AcceptAck { min_proposal } => match self {
                PaxosRole::Prop(p) => {
                    if !p.has_begun() {
                        return Err(ProtocolViolation);
                    }
                    match p.acknowledge_accept(from, *min_proposal) {
                        Some(Message::Chosen(c)) => Ok(
                            Some((Message::Chosen(c), Audience::Listeners)),
                        ),
                        Some(m) => Ok(Some((m, Audience::Acceptors))),
                        None => Ok(None),
                    }
                },
                _ => Err(ProtocolViolation),
            },
        }
    }
}

} // verus!
