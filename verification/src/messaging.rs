//! Messages exchanged between peers, and the addressed envelope around them.

use vstd::prelude::*;

use crate::messaging::dist_types::PeerId;
use crate::state::paxos::{Proposal, ProposalNum};

pub mod codec;
pub mod dist_types;
pub mod trace;

verus! {

/// What one peer tells another.
#[derive(Clone, Copy, Debug, PartialEq, Eq, Structural)]
pub enum Message {
    /// Sent once by a peer as soon as it has connected.
    Alive,
    /// Phase 1a, proposer to acceptor.
    Prepare(Proposal),
    /// Phase 1b, acceptor to proposer: the proposal accepted so far, if any.
    PrepareAck(Option<Proposal>),
    /// Phase 2a, proposer to acceptor.
    Accept(Proposal),
    /// Phase 2b, acceptor to proposer: the highest number promised.
    AcceptAck { min_proposal: ProposalNum },
    /// Dissemination of the decision.
    Chosen(Proposal),
}

/// A message with its sender and its recipient.
#[derive(Clone, Copy, Debug, PartialEq, Eq, Structural)]
pub struct Letter {
    from: PeerId,
    contents: Message,
    to: PeerId,
}

/// The three parts of a letter, as contracts speak of it.
pub struct LetterView {
    pub from: PeerId,
    pub contents: Message,
    pub to: PeerId,
}

impl View for Letter {
    type V = LetterView;

    closed spec fn view(&self) -> LetterView {
        LetterView { from: self.from, contents: self.contents, to: self.to }
    }
}

impl Letter {
    /// Addresses `contents` from `from` to `to`.
    pub fn new(from: PeerId, contents: Message, to: PeerId) -> (letter: Self)
        ensures
            letter@ == (LetterView { from, contents, to }),
    {
        Letter { from, contents, to }
    }

    /// The message that the letter carries.
    pub fn message(&self) -> (contents: &Message)
        ensures
            *contents == self@.contents,
    {
        &self.contents
    }

    /// The peer that sent the letter.
    pub fn from(&self) -> (from: PeerId)
        ensures
            from == self@.from,
    {
        self.from
    }

    /// The peer that the letter is for.
    pub fn to(&self) -> (to: PeerId)
        ensures
            to == self@.to,
    {
        self.to
    }

    /// The letter with the parts `parts`.
    pub closed spec fn of(parts: LetterView) -> Letter {
        Letter { from: parts.from, contents: parts.contents, to: parts.to }
    }

    /// Letters with the same parts are the same letter.
    pub proof fn lemma_same_parts(one: Letter, other: Letter)
        requires
            one@ == other@,
        ensures
            one == other,
    {
    }

    /// A letter has the parts it was made of.
    pub broadcast proof fn lemma_parts(parts: LetterView)
        ensures
            (#[trigger] Letter::of(parts))@ == parts,
    {
    }
}

impl From<(PeerId, Message, PeerId)> for Letter {
    /// The letter from the first peer to the last, with the message
    /// between them.
    fn from(value: (PeerId, Message, PeerId)) -> (letter: Self) {
        Letter { from: value.0, contents: value.1, to: value.2 }
    }
}

impl vstd::std_specs::convert::FromSpecImpl<(PeerId, Message, PeerId)> for Letter {
    open spec fn obeys_from_spec() -> bool {
        true
    }

    open spec fn from_spec(value: (PeerId, Message, PeerId)) -> Self {
        Letter::of(LetterView { from: value.0, contents: value.1, to: value.2 })
    }
}

} // verus!
