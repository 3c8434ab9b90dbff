//! The trace of a node: one line of text for every Paxos message that it
//! sends or receives.

use vstd::prelude::*;
use vstd::string::StringExecFns;

use crate::messaging::dist_types::PeerId;
use crate::messaging::Message;
use crate::state::paxos::Proposal;

verus! {

/// The character of a decimal digit.
pub open spec fn digit_char(d: nat) -> char
    recommends
        d < 10,
{
    (48 + d) as char
}

/// The decimal numeral of `n`, without sign or leading zeros.
pub open spec fn decimal(n: nat) -> Seq<char>
    decreases n,
{
    if n < 10 {
        seq![digit_char(n)]
    } else {
        decimal(n / 10).push(digit_char(n % 10))
    }
}

/// The name of a message's kind in the trace; `Alive` is not traced.
pub open spec fn message_type(m: Message) -> Option<Seq<char>> {
    match m {
        Message::Alive => None,
        Message::Prepare(_) => Some("prepare"@),
        Message::PrepareAck(_) => Some("prepare_ack"@),
        Message::Accept(_) => Some("accept"@),
        Message::AcceptAck { .. } => Some("accept_ack"@),
        Message::Chosen(_) => Some("chose"@),
    }
}

/// What the node did with the message: a decision is always "chose".
pub open spec fn action(m: Message, sent: bool) -> Seq<char> {
    if m is Chosen {
        "chose"@
    } else if sent {
        "sent"@
    } else {
        "received"@
    }
}

/// The line that traces `m` at peer `id`, with `prop` as the proposal at
/// hand; nothing for `Alive`.
pub open spec fn record_text(m: Message, id: PeerId, sent: bool, prop: Proposal) -> Option<
    Seq<char>,
> {
    match message_type(m) {
        Some(kind) => Some(
            "{\"peer_id\": "@ + decimal(id as nat) + ", \"action\": \""@ + action(m, sent)
                + "\", \"message_type\": \""@ + kind + "\", \"message_value\": \""@.push(
                prop.value,
            ) + "\", \"proposal_num\": "@ + decimal(prop.num as nat) + "}"@,
        ),
        None => None,
    }
}

fn push_decimal(s: &mut String, n: u64)
    ensures
        final(s)@ == old(s)@ + decimal(n as nat),
    decreases n,
{
    if n >= 10 {
        push_decimal(s, n / 10);
    }
    let digit: u8 = (n % 10) as u8;
    s.push((48 + digit) as char);
    assert(s@ =~= old(s)@ + decimal(n as nat));
}

impl Message {
    /// The line that traces this message at peer `id`: whether it was sent
    /// or received, its kind, and the value and number of `prop`, the
    /// proposal at hand. `Alive` is not traced.
    pub fn paxos_print(&self, id: PeerId, sent: bool, prop: &Proposal) -> (line: Option<String>)
        ensures
            match record_text(*self, id, sent, *prop) {
                Some(text) => line matches Some(s) && s@ == text,
                None => line is None,
            },
    {
        let kind: &str = match self {
            Message::Alive => {
                return None;
            },
            Message::Prepare(_) => "prepare",
            Message::PrepareAck(_) => "prepare_ack",
            Message::Accept(_) => "accept",
            Message::AcceptAck { .. } => "accept_ack",
            Message::Chosen(_) => "chose",
        };
        let action: &str = if let Message::Chosen(_) = self {
            "chose"
        } else if sent {
            "sent"
        } else {
            "received"
        };
        let mut line = String::from_str("{\"peer_id\": ");
        push_decimal(&mut line, id as u64);
        line.append(", \"action\": \"");
        line.append(action);
        line.append("\", \"message_type\": \"");
        line.append(kind);
        line.append("\", \"message_value\": \"");
        line.push(prop.value);
        line.append("\", \"proposal_num\": ");
        push_decimal(&mut line, prop.num);
        line.append("}");
        assert(line@ =~= record_text(*self, id, sent, *prop)->0);
        Some(line)
    }
}

} // verus!
