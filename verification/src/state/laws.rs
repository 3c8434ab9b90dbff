//! What holds of a role over its whole history.

use vstd::prelude::*;

use crate::messaging::dist_types::PeerId;
use crate::messaging::Message;
use crate::state::paxos::{AcceptorState, Proposal, ProposalNum, ProposerState, Value};

verus! {

/// What can reach an acceptor.
pub enum AcceptorEvent {
    Prepare(Proposal),
    Accept(Proposal),
    Chosen(Proposal),
}

impl AcceptorState {
    /// The state after one event.
    pub open spec fn step(self, event: AcceptorEvent) -> AcceptorState {
        match event {
            AcceptorEvent::Prepare(p) => self.prepare(p),
            AcceptorEvent::Accept(p) => self.accept(p),
            AcceptorEvent::Chosen(p) => self.learn(p),
        }
    }

    /// The state after the events of `history`, the oldest first.
    pub open spec fn run(self, history: Seq<AcceptorEvent>) -> AcceptorState
        decreases history.len(),
    {
        if history.len() == 0 {
            self
        } else {
            self.run(history.drop_last()).step(history.last())
        }
    }
}

/// An acceptor never lowers its promise: at any point of its history
/// `min_proposal` is at least what it was at any earlier point.
pub proof fn lemma_promise_never_falls(
    start: AcceptorState,
    history: Seq<AcceptorEvent>,
    earlier: int,
    later: int,
)
    requires
        0 <= earlier <= later <= history.len(),
    ensures
        start.run(history.take(earlier)).min_proposal <= start.run(
            history.take(later),
        ).min_proposal,
    decreases later - earlier,
{
    if earlier < later {
        lemma_promise_never_falls(start, history, earlier, later - 1);
        assert(history.take(later).drop_last() =~= history.take(later - 1));
    }
}

/// An acceptor holds a proposal only if it has promised its number: the
/// number of the accepted proposal never exceeds `min_proposal`.
pub proof fn lemma_accepted_within_promise(start: AcceptorState, history: Seq<AcceptorEvent>)
    requires
        start.accepted_prop matches Some(p) ==> p.num <= start.min_proposal,
    ensures
        start.run(history).accepted_prop matches Some(p) ==> p.num <= start.run(
            history,
        ).min_proposal,
    decreases history.len(),
{
    if history.len() > 0 {
        lemma_accepted_within_promise(start, history.drop_last());
    }
}

/// What can happen to a proposer.
pub enum ProposerEvent {
    /// It is asked to propose a value.
    Propose(Value),
    /// A `PrepareAck` arrives from a peer.
    PrepareAck(PeerId, Option<Proposal>),
    /// An `AcceptAck` arrives from a peer.
    AcceptAck(PeerId, ProposalNum),
}

impl ProposerState {
    /// Whether `event` may take the proposer from this state to `next`
    /// with the reply `out`.
    pub open spec fn step(self, event: ProposerEvent, next: ProposerState, out: Option<Message>) -> bool {
        match event {
            ProposerEvent::Propose(v) => {
                &&& !self.has_begun()
                &&& self.num < u64::MAX
                &&& next == self.propose(v)
                &&& out == Some(Message::Prepare(next.current_prop()))
            },
            ProposerEvent::PrepareAck(from, response) => {
                &&& self.prepare_ack(from, response, next)
                &&& out == self.prepare_ack_reply(from, response, next)
            },
            ProposerEvent::AcceptAck(from, min_proposal) => {
                &&& next == self.accept_ack(from, min_proposal)
                &&& out == self.accept_ack_reply(from, min_proposal)
            },
        }
    }
}

/// Whether `states` and `outs` are the states that a proposer went
/// through and the replies that it gave while `events` happened to it.
pub open spec fn is_history(
    states: Seq<ProposerState>,
    events: Seq<ProposerEvent>,
    outs: Seq<Option<Message>>,
) -> bool {
    &&& states.len() == events.len() + 1
    &&& outs.len() == events.len()
    &&& forall|i: int|
        0 <= i < events.len() ==> (#[trigger] states[i]).step(events[i], states[i + 1], outs[i])
}

/// Once a proposer has made the decision, it has made it for good.
proof fn lemma_chosen_stays(
    states: Seq<ProposerState>,
    events: Seq<ProposerEvent>,
    outs: Seq<Option<Message>>,
    from: int,
    to: int,
)
    requires
        is_history(states, events, outs),
        0 <= from <= to <= events.len(),
        states[from].chosen,
    ensures
        states[to].chosen,
    decreases to - from,
{
    if from < to {
        lemma_chosen_stays(states, events, outs, from, to - 1);
        assert(states[to - 1].step(events[to - 1], states[to], outs[to - 1]));
    }
}

/// A proposer emits `Chosen` at most once: of two replies in its history
/// at most one is a `Chosen`.
pub proof fn lemma_chosen_once(
    states: Seq<ProposerState>,
    events: Seq<ProposerEvent>,
    outs: Seq<Option<Message>>,
    first: int,
    second: int,
)
    requires
        is_history(states, events, outs),
        0 <= first < second < events.len(),
        outs[first] matches Some(m) && m is Chosen,
    ensures
        !(outs[second] matches Some(m) && m is Chosen),
{
    assert(states[first].step(events[first], states[first + 1], outs[first]));
    assert(states[first + 1].chosen);
    lemma_chosen_stays(states, events, outs, first + 1, second);
    assert(states[second].step(events[second], states[second + 1], outs[second]));
}

/// Only a `PrepareAck` makes a proposer emit `Accept`, and only when
/// strictly more than half of the acceptors have acknowledged, each
/// counted once.
pub proof fn lemma_accept_needs_majority(
    state: ProposerState,
    event: ProposerEvent,
    next: ProposerState,
    out: Option<Message>,
)
    requires
        state.step(event, next, out),
        out matches Some(m) && m is Accept,
    ensures
        event is PrepareAck,
        next.prep_acks.dom().contains(event->PrepareAck_0),
        next.prep_acks.dom().len() > next.quorum_size / 2,
{
}

/// The `Accept` of a proposer carries the value of the reported proposal
/// with the highest number, where an acknowledgement received for the
/// round reports one; else the proposer's own value.
pub proof fn lemma_accept_adopts_highest(
    state: ProposerState,
    from: PeerId,
    response: Option<Proposal>,
    next: ProposerState,
    reported: Proposal,
    sender: PeerId,
)
    requires
        state.prepare_ack(from, response, next),
        state.prepare_ack_reply(from, response, next) matches Some(m) && m is Accept,
        next.prep_acks.contains_key(sender),
        next.prep_acks[sender] == Some(reported),
    ensures
        state.prepare_ack_reply(from, response, next) matches Some(Message::Accept(p))
            && reported.num <= p.num && exists|k: PeerId|
            next.prep_acks.contains_key(k) && #[trigger] next.prep_acks[k] == Some(p),
{
}

/// A `PrepareAck` that arrives a second time changes nothing and is not
/// answered.
pub proof fn lemma_prepare_ack_idempotent(
    state: ProposerState,
    from: PeerId,
    response: Option<Proposal>,
    once: ProposerState,
    twice: ProposerState,
)
    requires
        state.wf(),
        state.prepare_ack(from, response, once),
        once.prepare_ack(from, response, twice),
    ensures
        twice == once,
        once.prepare_ack_reply(from, response, twice) is None,
{
    if state.has_begun() {
        let acks = state.prep_acks.insert(from, response);
        assert(acks.insert(from, response) =~= acks);
        assert(once.prep_acks == acks);
        assert(twice.prep_acks =~= once.prep_acks);
        assert(twice =~= once);
    }
}

/// An `AcceptAck` that does not turn the proposal down changes nothing and
/// is not answered when it arrives a second time.
pub proof fn lemma_accept_ack_idempotent(state: ProposerState, from: PeerId, min_proposal: ProposalNum)
    requires
        state.wf(),
        !state.rejected_by(min_proposal),
    ensures
        state.accept_ack(from, min_proposal).accept_ack(from, min_proposal) == state.accept_ack(
            from,
            min_proposal,
        ),
        state.accept_ack(from, min_proposal).accept_ack_reply(from, min_proposal) is None,
{
    let once = state.accept_ack(from, min_proposal);
    let acks = state.accept_acks.insert(from, min_proposal);
    assert(acks.insert(from, min_proposal) =~= acks);
    assert(once.accept_ack(from, min_proposal) =~= once);
}

} // verus!
