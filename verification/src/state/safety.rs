//! Agreement: what the roles of one stage decide when they run together.
//!
//! The stage is modelled as the roles of its nodes and the set of letters
//! sent so far. A letter that was sent may arrive at any time, more than
//! once or never, so letters on different links overtake one another.

use vstd::prelude::*;

use crate::messaging::dist_types::PeerId;
use crate::messaging::{LetterView, Message};
use crate::state::paxos::{Audience, RoleState, Value};

verus! {

/// The nodes of one stage and the letters they have sent.
#[verifier::ext_equal]
pub struct Cluster {
    /// The role of every node.
    pub nodes: Map<PeerId, RoleState>,
    /// Every letter sent so far.
    pub sent: Set<LetterView>,
}

/// The letters that carry `msg` from `from` to each of `to`.
pub open spec fn letters_to(from: PeerId, msg: Message, to: Set<PeerId>) -> Set<LetterView> {
    Set::new(|l: LetterView| l.from == from && l.contents == msg && to.contains(l.to))
}

impl Cluster {
    /// Nothing has been sent and no node has heard of a decision.
    pub open spec fn starts(self) -> bool {
        &&& self.sent == Set::<LetterView>::empty()
        &&& forall|n: PeerId| self.nodes.contains_key(n) ==> (#[trigger] self.nodes[n]).learned() is None
    }

    /// No node but `proposer` is a proposer.
    pub open spec fn single_proposer(self, proposer: PeerId) -> bool {
        forall|n: PeerId|
            self.nodes.contains_key(n) && (#[trigger] self.nodes[n]) is Prop ==> n == proposer
    }

    /// The node `node` proposes `v` and sends its `Prepare` to `to`.
    pub open spec fn proposes(self, node: PeerId, v: Value, to: Set<PeerId>, next: Cluster) -> bool {
        &&& self.nodes.contains_key(node)
        &&& self.nodes[node] matches RoleState::Prop(p)
        &&& !p.has_begun()
        &&& p.num < u64::MAX
        &&& next.nodes == self.nodes.insert(node, RoleState::Prop(p.propose(v)))
        &&& next.sent == self.sent.union(
            letters_to(node, Message::Prepare(p.propose(v).current_prop()), to),
        )
    }

    /// A letter that was sent arrives: its recipient takes its step and
    /// sends its reply, if it has one, to `to`.
    pub open spec fn delivers(
        self,
        letter: LetterView,
        reply: Option<(Message, Audience)>,
        to: Set<PeerId>,
        next: Cluster,
    ) -> bool {
        &&& self.sent.contains(letter)
        &&& self.nodes.contains_key(letter.to)
        &&& self.nodes[letter.to].handles(
            letter.from,
            letter.contents,
            next.nodes[letter.to],
            reply,
        )
        &&& next.nodes == self.nodes.insert(letter.to, next.nodes[letter.to])
        &&& next.sent == match reply {
            Some((msg, _)) => self.sent.union(letters_to(letter.to, msg, to)),
            None => self.sent,
        }
    }

    /// One step of the stage: a node proposes, or a letter arrives.
    pub open spec fn step(self, next: Cluster) -> bool {
        ||| exists|node: PeerId, v: Value, to: Set<PeerId>| self.proposes(node, v, to, next)
        ||| exists|letter: LetterView, reply: Option<(Message, Audience)>, to: Set<PeerId>|
            self.delivers(letter, reply, to, next)
    }

    /// All letters that announce a decision announce the same, and every
    /// node that has heard of a decision has heard of that one.
    pub open spec fn agreed(self) -> bool {
        &&& forall|one: LetterView, other: LetterView|
            self.sent.contains(one) && self.sent.contains(other) && one.contents is Chosen
                && other.contents is Chosen ==> one.contents == other.contents
        &&& forall|a: PeerId, b: PeerId|
            self.nodes.contains_key(a) && self.nodes.contains_key(b) && (
            #[trigger] self.nodes[a]).learned() is Some && (#[trigger] self.nodes[b]).learned()
                is Some ==> self.nodes[a].learned() == self.nodes[b].learned()
    }

    /// Whether the node `proposer` is a proposer that has made the decision.
    pub open spec fn has_decided(self, proposer: PeerId) -> bool {
        self.nodes.contains_key(proposer) && (self.nodes[proposer] matches RoleState::Prop(p)
            && p.chosen)
    }

    /// Some letter that was sent announces the decision for `value`.
    pub open spec fn announced(self, value: Value) -> bool {
        exists|l: LetterView|
            self.sent.contains(l) && l.contents is Chosen && (#[trigger] l.contents)->Chosen_0.value
                == value
    }

    /// What every step keeps: the one proposer knows of its decision as
    /// soon as a letter announces one, the letters announce one decision,
    /// and whatever a node has heard was announced.
    pub open spec fn inv(self, proposer: PeerId) -> bool {
        &&& self.single_proposer(proposer)
        &&& forall|one: LetterView, other: LetterView|
            self.sent.contains(one) && self.sent.contains(other) && one.contents is Chosen
                && other.contents is Chosen ==> one.contents == other.contents
        &&& forall|l: LetterView|
            self.sent.contains(l) && (#[trigger] l.contents) is Chosen ==> self.has_decided(
                proposer,
            )
        &&& forall|n: PeerId|
            self.nodes.contains_key(n) && (#[trigger] self.nodes[n]).learned() is Some
                ==> self.announced(self.nodes[n].learned()->0)
    }
}

/// Whether `run` is a run of the stage from its start.
pub open spec fn is_run(run: Seq<Cluster>) -> bool {
    &&& run.len() > 0
    &&& run[0].starts()
    &&& forall|i: int| 0 <= i < run.len() - 1 ==> (#[trigger] run[i]).step(run[i + 1])
}

proof fn lemma_proposing_keeps(before: Cluster, proposer: PeerId, node: PeerId, v: Value, to: Set<PeerId>, next: Cluster)
    requires
        before.inv(proposer),
        before.proposes(node, v, to, next),
    ensures
        next.inv(proposer),
{
    assert forall|n: PeerId|
        next.nodes.contains_key(n) && (#[trigger] next.nodes[n]).learned() is Some
        implies next.announced(next.nodes[n].learned()->0) by {
        assert(before.nodes.contains_key(n) && before.nodes[n].learned() == next.nodes[n].learned());
        let value = before.nodes[n].learned()->0;
        assert(before.announced(value));
        let l = choose|l: LetterView|
            before.sent.contains(l) && l.contents is Chosen && (#[trigger] l.contents)->Chosen_0.value
                == value;
        assert(next.sent.contains(l));
    }
    assert forall|n: PeerId| next.nodes.contains_key(n) && (#[trigger] next.nodes[n]) is Prop
        implies n == proposer by {
        assert(before.nodes.contains_key(n) && before.nodes[n] is Prop);
    }
}

proof fn lemma_delivery_keeps(
    before: Cluster,
    proposer: PeerId,
    letter: LetterView,
    reply: Option<(Message, Audience)>,
    to: Set<PeerId>,
    next: Cluster,
)
    requires
        before.inv(proposer),
        before.delivers(letter, reply, to, next),
    ensures
        next.inv(proposer),
{
    let at = letter.to;
    let role = before.nodes[at];
    let role_after = next.nodes[at];
    assert(role is Prop <==> role_after is Prop);
    assert forall|n: PeerId| next.nodes.contains_key(n) && (#[trigger] next.nodes[n]) is Prop
        implies n == proposer by {
        assert(before.nodes.contains_key(n) && before.nodes[n] is Prop);
    }
    let announces = reply matches Some((msg, _)) && msg is Chosen;
    if announces {
        assert(role is Prop);
        assert(at == proposer);
        assert(!role->Prop_0.chosen);
        assert forall|l: LetterView| before.sent.contains(l) implies !((#[trigger] l.contents) is Chosen) by {}
    }
    assert forall|l: LetterView| next.sent.contains(l) && (#[trigger] l.contents) is Chosen
        implies next.has_decided(proposer) by {
        if before.sent.contains(l) {
            assert(before.nodes[proposer] is Prop);
            if at == proposer {
                assert(role->Prop_0.chosen);
                assert(role_after->Prop_0.chosen);
            }
        }
    }
    assert forall|n: PeerId|
        next.nodes.contains_key(n) && (#[trigger] next.nodes[n]).learned() is Some
        implies next.announced(next.nodes[n].learned()->0) by {
        let value = next.nodes[n].learned()->0;
        if n == at && before.nodes[n].learned() != next.nodes[n].learned() {
            assert(letter.contents is Chosen);
            assert(letter.contents->Chosen_0.value == value);
            assert(next.sent.contains(letter));
        } else {
            assert(before.nodes[n].learned() == Some(value));
            assert(before.announced(value));
            let l = choose|l: LetterView|
                before.sent.contains(l) && l.contents is Chosen && (
                #[trigger] l.contents)->Chosen_0.value == value;
            assert(next.sent.contains(l));
        }
    }
}

/// Every step keeps what `inv` says.
pub proof fn lemma_step_keeps(before: Cluster, proposer: PeerId, next: Cluster)
    requires
        before.inv(proposer),
        before.step(next),
    ensures
        next.inv(proposer),
{
    if exists|node: PeerId, v: Value, to: Set<PeerId>| before.proposes(node, v, to, next) {
        let (node, v, to) = choose|node: PeerId, v: Value, to: Set<PeerId>|
            before.proposes(node, v, to, next);
        lemma_proposing_keeps(before, proposer, node, v, to, next);
    } else {
        let (letter, reply, to) = choose|
            letter: LetterView,
            reply: Option<(Message, Audience)>,
            to: Set<PeerId>,
        | before.delivers(letter, reply, to, next);
        lemma_delivery_keeps(before, proposer, letter, reply, to, next);
    }
}

proof fn lemma_run_keeps(run: Seq<Cluster>, proposer: PeerId, at: int)
    requires
        is_run(run),
        run[0].single_proposer(proposer),
        0 <= at < run.len(),
    ensures
        run[at].inv(proposer),
    decreases at,
{
    if at > 0 {
        lemma_run_keeps(run, proposer, at - 1);
        assert(run[at - 1].step(run[at]));
        lemma_step_keeps(run[at - 1], proposer, run[at]);
    }
}

/// In a stage with one proposer at most one value is ever chosen: at every
/// point of every run, all letters that announce a decision announce the
/// same one, and all nodes that have heard of a decision have heard of
/// the same value.
pub proof fn lemma_agreement(run: Seq<Cluster>, proposer: PeerId, at: int)
    requires
        is_run(run),
        run[0].single_proposer(proposer),
        0 <= at < run.len(),
    ensures
        run[at].agreed(),
{
    lemma_run_keeps(run, proposer, at);
    let now = run[at];
    assert forall|a: PeerId, b: PeerId|
        now.nodes.contains_key(a) && now.nodes.contains_key(b) && (
        #[trigger] now.nodes[a]).learned() is Some && (#[trigger] now.nodes[b]).learned()
            is Some implies now.nodes[a].learned() == now.nodes[b].learned() by {
        let x = now.nodes[a].learned()->0;
        let y = now.nodes[b].learned()->0;
        assert(now.announced(x));
        assert(now.announced(y));
        let one = choose|l: LetterView|
            now.sent.contains(l) && l.contents is Chosen && (#[trigger] l.contents)->Chosen_0.value
                == x;
        let other = choose|l: LetterView|
            now.sent.contains(l) && l.contents is Chosen && (#[trigger] l.contents)->Chosen_0.value
                == y;
        assert(one.contents == other.contents);
    }
}

} // verus!
