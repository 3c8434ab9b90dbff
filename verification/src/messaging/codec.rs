//! The wire format of a letter: one self-delimiting record per letter.
//!
//! A record is a four-byte little-endian length followed by that many bytes.
//! These hold the sender (eight bytes, little-endian), the message and the
//! recipient (eight bytes). A message is a four-byte tag and a body; a
//! proposal is its number (eight bytes) and the scalar value of its
//! character (four bytes); an optional proposal is one byte, 0 or 1, with
//! the proposal behind a 1.

use vstd::bytes::{
    lemma_auto_spec_u32_to_from_le_bytes, lemma_auto_spec_u64_to_from_le_bytes,
    spec_u32_from_le_bytes, spec_u32_to_le_bytes, spec_u64_from_le_bytes, spec_u64_to_le_bytes,
    u32_from_le_bytes, u32_to_le_bytes, u64_from_le_bytes, u64_to_le_bytes,
};
use vstd::prelude::*;
use vstd::slice::slice_subrange;
use vstd::utf8::is_scalar;

use crate::messaging::{Letter, LetterView, Message};
use crate::state::paxos::Proposal;

verus! {

broadcast use {vstd::utf8::char_is_scalar, vstd::utf8::char_u32_cast};

/// `char::from_u32` gives the character whose scalar value is `i`, and
/// nothing where `i` is no scalar value (a surrogate, or above 0x10FFFF).
pub assume_specification[ char::from_u32 ](i: u32) -> (c: Option<char>)
    ensures
        c == if is_scalar(i) {
            Some(i as char)
        } else {
            None::<char>
        },
;

/// A record that does not hold exactly one letter.
#[derive(Clone, Copy, Debug, PartialEq, Eq, Structural)]
pub struct CodecError;

/// The tag that tells the variants of a message apart.
pub open spec fn message_tag(m: Message) -> u32 {
    match m {
        Message::Alive => 0,
        Message::Prepare(_) => 1,
        Message::PrepareAck(_) => 2,
        Message::Accept(_) => 3,
        Message::AcceptAck { .. } => 4,
        Message::Chosen(_) => 5,
    }
}

/// The bytes of a proposal.
pub open spec fn proposal_bytes(p: Proposal) -> Seq<u8> {
    spec_u64_to_le_bytes(p.num) + spec_u32_to_le_bytes(p.value as u32)
}

/// The bytes of a message behind its tag.
pub open spec fn message_body(m: Message) -> Seq<u8> {
    match m {
        Message::Alive => Seq::empty(),
        Message::Prepare(p) => proposal_bytes(p),
        Message::PrepareAck(None) => seq![0u8],
        Message::PrepareAck(Some(p)) => seq![1u8] + proposal_bytes(p),
        Message::Accept(p) => proposal_bytes(p),
        Message::AcceptAck { min_proposal } => spec_u64_to_le_bytes(min_proposal),
        Message::Chosen(p) => proposal_bytes(p),
    }
}

/// The bytes of a message.
pub open spec fn message_bytes(m: Message) -> Seq<u8> {
    spec_u32_to_le_bytes(message_tag(m)) + message_body(m)
}

/// The bytes of a letter, without the length in front.
pub open spec fn letter_bytes(l: LetterView) -> Seq<u8> {
    spec_u64_to_le_bytes(l.from as u64) + message_bytes(l.contents) + spec_u64_to_le_bytes(
        l.to as u64,
    )
}

/// The record of a letter: the length of its bytes, then the bytes.
pub open spec fn record(l: LetterView) -> Seq<u8> {
    spec_u32_to_le_bytes(letter_bytes(l).len() as u32) + letter_bytes(l)
}

/// The proposal that `b` holds, if it holds one and nothing else.
pub open spec fn parse_proposal(b: Seq<u8>) -> Option<Proposal> {
    if b.len() == 12 && is_scalar(spec_u32_from_le_bytes(b.subrange(8, 12))) {
        Some(
            Proposal {
                num: spec_u64_from_le_bytes(b.subrange(0, 8)),
                value: spec_u32_from_le_bytes(b.subrange(8, 12)) as char,
            },
        )
    } else {
        None
    }
}

/// The message whose tag is `tag` and whose body is `body`, if there is one.
pub open spec fn parse_body(tag: u32, body: Seq<u8>) -> Option<Message> {
    if tag == 0 {
        if body.len() == 0 {
            Some(Message::Alive)
        } else {
            None
        }
    } else if tag == 1 {
        match parse_proposal(body) {
            Some(p) => Some(Message::Prepare(p)),
            None => None,
        }
    } else if tag == 2 {
        if body.len() == 1 && body[0] == 0 {
            Some(Message::PrepareAck(None))
        } else if body.len() >= 1 && body[0] == 1 {
            match parse_proposal(body.subrange(1, body.len() as int)) {
                Some(p) => Some(Message::PrepareAck(Some(p))),
                None => None,
            }
        } else {
            None
        }
    } else if tag == 3 {
        match parse_proposal(body) {
            Some(p) => Some(Message::Accept(p)),
            None => None,
        }
    } else if tag == 4 {
        if body.len() == 8 {
            Some(Message::AcceptAck { min_proposal: spec_u64_from_le_bytes(body) })
        } else {
            None
        }
    } else if tag == 5 {
        match parse_proposal(body) {
            Some(p) => Some(Message::Chosen(p)),
            None => None,
        }
    } else {
        None
    }
}

/// The message that `b` holds, if it holds one and nothing else.
pub open spec fn parse_message(b: Seq<u8>) -> Option<Message> {
    if b.len() < 4 {
        None
    } else {
        parse_body(spec_u32_from_le_bytes(b.subrange(0, 4)), b.subrange(4, b.len() as int))
    }
}

/// The letter that `b` holds, if it holds one and nothing else.
pub open spec fn parse_letter(b: Seq<u8>) -> Option<LetterView> {
    if b.len() < 16 {
        None
    } else {
        let from = spec_u64_from_le_bytes(b.subrange(0, 8));
        let to = spec_u64_from_le_bytes(b.subrange(b.len() - 8, b.len() as int));
        match parse_message(b.subrange(8, b.len() - 8)) {
            Some(contents) => if from <= usize::MAX && to <= usize::MAX {
                Some(LetterView { from: from as usize, contents, to: to as usize })
            } else {
                None
            },
            None => None,
        }
    }
}

/// The letter of which `b` is the record, if it is one.
pub open spec fn parse_record(b: Seq<u8>) -> Option<LetterView> {
    if b.len() >= 4 && spec_u32_from_le_bytes(b.subrange(0, 4)) == b.len() - 4 {
        parse_letter(b.subrange(4, b.len() as int))
    } else {
        None
    }
}

/// The length of the record at the front of `stream`, once `stream` holds
/// all of it.
pub open spec fn first_record_len(stream: Seq<u8>) -> Option<int> {
    if stream.len() >= 4 && stream.len() >= 4 + spec_u32_from_le_bytes(stream.subrange(0, 4)) {
        Some(4 + spec_u32_from_le_bytes(stream.subrange(0, 4)))
    } else {
        None
    }
}

/// A proposal's bytes hold that proposal.
pub proof fn lemma_proposal_round_trip(p: Proposal)
    ensures
        proposal_bytes(p).len() == 12,
        parse_proposal(proposal_bytes(p)) == Some(p),
{
    lemma_auto_spec_u64_to_from_le_bytes();
    lemma_auto_spec_u32_to_from_le_bytes();
    let b = proposal_bytes(p);
    assert(b.subrange(0, 8) =~= spec_u64_to_le_bytes(p.num));
    assert(b.subrange(8, 12) =~= spec_u32_to_le_bytes(p.value as u32));
}

/// A message's bytes hold that message.
pub proof fn lemma_message_round_trip(m: Message)
    ensures
        4 <= message_bytes(m).len() <= 17,
        parse_message(message_bytes(m)) == Some(m),
{
    lemma_auto_spec_u64_to_from_le_bytes();
    lemma_auto_spec_u32_to_from_le_bytes();
    let b = message_bytes(m);
    let body = message_body(m);
    assert(b.subrange(0, 4) =~= spec_u32_to_le_bytes(message_tag(m)));
    assert(b.subrange(4, b.len() as int) =~= body);
    match m {
        Message::Alive => {},
        Message::Prepare(p) => {
            lemma_proposal_round_trip(p);
        },
        Message::PrepareAck(None) => {},
        Message::PrepareAck(Some(p)) => {
            lemma_proposal_round_trip(p);
            assert(body.subrange(1, body.len() as int) =~= proposal_bytes(p));
        },
        Message::Accept(p) => {
            lemma_proposal_round_trip(p);
        },
        Message::AcceptAck { min_proposal } => {},
        Message::Chosen(p) => {
            lemma_proposal_round_trip(p);
        },
    }
}

/// A letter's bytes hold that letter.
pub proof fn lemma_letter_round_trip(l: LetterView)
    ensures
        20 <= letter_bytes(l).len() <= 33,
        parse_letter(letter_bytes(l)) == Some(l),
{
    lemma_auto_spec_u64_to_from_le_bytes();
    lemma_message_round_trip(l.contents);
    let b = letter_bytes(l);
    assert(b.subrange(0, 8) =~= spec_u64_to_le_bytes(l.from as u64));
    assert(b.subrange(8, b.len() - 8) =~= message_bytes(l.contents));
    assert(b.subrange(b.len() - 8, b.len() as int) =~= spec_u64_to_le_bytes(l.to as u64));
}

/// Decoding the record of a letter gives the letter back.
pub proof fn lemma_record_round_trip(l: LetterView)
    ensures
        24 <= record(l).len() <= 37,
        parse_record(record(l)) == Some(l),
        first_record_len(record(l)) == Some(record(l).len() as int),
{
    lemma_auto_spec_u32_to_from_le_bytes();
    lemma_letter_round_trip(l);
    let b = record(l);
    assert(b.subrange(0, 4) =~= spec_u32_to_le_bytes(letter_bytes(l).len() as u32));
    assert(b.subrange(4, b.len() as int) =~= letter_bytes(l));
}

/// Only a proposal's own bytes hold it.
pub proof fn lemma_proposal_bytes_unique(b: Seq<u8>, p: Proposal)
    requires
        parse_proposal(b) == Some(p),
    ensures
        proposal_bytes(p) == b,
{
    lemma_auto_spec_u64_to_from_le_bytes();
    lemma_auto_spec_u32_to_from_le_bytes();
    let scalar = spec_u32_from_le_bytes(b.subrange(8, 12));
    assert(p.value as u32 == scalar);
    assert(spec_u64_to_le_bytes(p.num) == b.subrange(0, 8));
    assert(spec_u32_to_le_bytes(p.value as u32) == b.subrange(8, 12));
    assert(proposal_bytes(p) =~= b);
}

/// Only a message's own bytes hold it.
pub proof fn lemma_message_bytes_unique(b: Seq<u8>, m: Message)
    requires
        parse_message(b) == Some(m),
    ensures
        message_bytes(m) == b,
{
    lemma_auto_spec_u64_to_from_le_bytes();
    lemma_auto_spec_u32_to_from_le_bytes();
    let tag = spec_u32_from_le_bytes(b.subrange(0, 4));
    let body = b.subrange(4, b.len() as int);
    assert(spec_u32_to_le_bytes(tag) == b.subrange(0, 4));
    assert(tag == message_tag(m));
    match m {
        Message::Alive => {},
        Message::Prepare(p) => {
            lemma_proposal_bytes_unique(body, p);
        },
        Message::PrepareAck(None) => {
            assert(body =~= seq![0u8]);
        },
        Message::PrepareAck(Some(p)) => {
            lemma_proposal_bytes_unique(body.subrange(1, body.len() as int), p);
            assert(body =~= seq![1u8] + body.subrange(1, body.len() as int));
        },
        Message::Accept(p) => {
            lemma_proposal_bytes_unique(body, p);
        },
        Message::AcceptAck { min_proposal } => {},
        Message::Chosen(p) => {
            lemma_proposal_bytes_unique(body, p);
        },
    }
    assert(message_body(m) == body);
    assert(message_bytes(m) =~= b);
}

/// A sequence of bytes is the record of at most one letter, and a letter
/// has no record but its own: decoding succeeds on the records of letters
/// and on nothing else.
pub proof fn lemma_record_unique(b: Seq<u8>, l: LetterView)
    requires
        parse_record(b) == Some(l),
    ensures
        record(l) == b,
{
    lemma_auto_spec_u64_to_from_le_bytes();
    lemma_auto_spec_u32_to_from_le_bytes();
    let inner = b.subrange(4, b.len() as int);
    lemma_message_bytes_unique(inner.subrange(8, inner.len() - 8), l.contents);
    assert(spec_u64_to_le_bytes(l.from as u64) == inner.subrange(0, 8));
    assert(spec_u64_to_le_bytes(l.to as u64) == inner.subrange(inner.len() - 8, inner.len() as int));
    assert(letter_bytes(l) =~= inner);
    assert(spec_u32_to_le_bytes(inner.len() as u32) == b.subrange(0, 4));
    assert(record(l) =~= b);
}

fn push_proposal(out: &mut Vec<u8>, p: &Proposal)
    ensures
        final(out)@ == old(out)@ + proposal_bytes(*p),
{
    let mut num = u64_to_le_bytes(p.num);
    let mut value = u32_to_le_bytes(p.value as u32);
    out.append(&mut num);
    out.append(&mut value);
    assert(out@ =~= old(out)@ + proposal_bytes(*p));
}

fn push_message(out: &mut Vec<u8>, m: &Message)
    ensures
        final(out)@ == old(out)@ + message_bytes(*m),
{
    let tag: u32 = match m {
        Message::Alive => 0,
        Message::Prepare(_) => 1,
        Message::PrepareAck(_) => 2,
        Message::Accept(_) => 3,
        Message::AcceptAck { .. } => 4,
        Message::Chosen(_) => 5,
    };
    let mut tag_bytes = u32_to_le_bytes(tag);
    out.append(&mut tag_bytes);
    let ghost tagged = out@;
    match m {
        Message::Alive => {},
        Message::Prepare(p) => push_proposal(out, p),
        Message::PrepareAck(None) => out.push(0),
        Message::PrepareAck(Some(p)) => {
            out.push(1);
            push_proposal(out, p);
        },
        Message::Accept(p) => push_proposal(out, p),
        Message::AcceptAck { min_proposal } => {
            let mut num = u64_to_le_bytes(*min_proposal);
            out.append(&mut num);
        },
        Message::Chosen(p) => push_proposal(out, p),
    }
    assert(out@ =~= tagged + message_body(*m));
    assert(out@ =~= old(out)@ + message_bytes(*m));
}

/// Encodes `letter` as one record.
pub fn encode(letter: &Letter) -> (out: Vec<u8>)
    ensures
        out@ == record(letter@),
        parse_record(out@) == Some(letter@),
{
    let mut body: Vec<u8> = u64_to_le_bytes(letter.from() as u64);
    push_message(&mut body, letter.message());
    let mut to = u64_to_le_bytes(letter.to() as u64);
    body.append(&mut to);
    assert(body@ =~= letter_bytes(letter@));
    proof {
        lemma_record_round_trip(letter@);
    }
    let mut out: Vec<u8> = u32_to_le_bytes(body.len() as u32);
    out.append(&mut body);
    out
}

fn read_proposal(b: &[u8]) -> (p: Option<Proposal>)
    ensures
        p == parse_proposal(b@),
{
    if b.len() != 12 {
        return None;
    }
    let num: u64 = u64_from_le_bytes(slice_subrange(b, 0, 8));
    let scalar: u32 = u32_from_le_bytes(slice_subrange(b, 8, 12));
    match char::from_u32(scalar) {
        Some(value) => Some(Proposal { num, value }),
        None => None,
    }
}

fn read_message(b: &[u8]) -> (m: Option<Message>)
    ensures
        m == parse_message(b@),
{
    if b.len() < 4 {
        return None;
    }
    let tag: u32 = u32_from_le_bytes(slice_subrange(b, 0, 4));
    let body = slice_subrange(b, 4, b.len());
    if tag == 0 {
        if body.len() == 0 {
            Some(Message::Alive)
        } else {
            None
        }
    } else if tag == 1 {
        match read_proposal(body) {
            Some(p) => Some(Message::Prepare(p)),
            None => None,
        }
    } else if tag == 2 {
        if body.len() == 1 && body[0] == 0 {
            Some(Message::PrepareAck(None))
        } else if body.len() >= 1 && body[0] == 1 {
            match read_proposal(slice_subrange(body, 1, body.len())) {
                Some(p) => Some(Message::PrepareAck(Some(p))),
                None => None,
            }
        } else {
            None
        }
    } else if tag == 3 {
        match read_proposal(body) {
            Some(p) => Some(Message::Accept(p)),
            None => None,
        }
    } else if tag == 4 {
        if body.len() == 8 {
            Some(Message::AcceptAck { min_proposal: u64_from_le_bytes(body) })
        } else {
            None
        }
    } else if tag == 5 {
        match read_proposal(body) {
            Some(p) => Some(Message::Chosen(p)),
            None => None,
        }
    } else {
        None
    }
}

/// Decodes one record. It succeeds on the record of a letter, with that
/// letter, and fails on every other sequence of bytes: one that is cut
/// short or too long for its length field, an unknown tag, a character
/// that is no scalar value, a peer id beyond the machine's range.
pub fn decode(bytes: &[u8]) -> (result: Result<Letter, CodecError>)
    ensures
        match parse_record(bytes@) {
            Some(l) => result matches Ok(letter) && letter@ == l,
            None => result is Err,
        },
        result matches Ok(letter) ==> record(letter@) == bytes@,
{
    let n: usize = bytes.len();
    if n < 4 {
        return Err(CodecError);
    }
    let declared: u32 = u32_from_le_bytes(slice_subrange(bytes, 0, 4));
    if declared as u64 != (n - 4) as u64 {
        return Err(CodecError);
    }
    let inner = slice_subrange(bytes, 4, n);
    let m: usize = inner.len();
    if m < 16 {
        return Err(CodecError);
    }
    let from: u64 = u64_from_le_bytes(slice_subrange(inner, 0, 8));
    let to: u64 = u64_from_le_bytes(slice_subrange(inner, m - 8, m));
    match read_message(slice_subrange(inner, 8, m - 8)) {
        Some(contents) => {
            if from <= usize::MAX as u64 && to <= usize::MAX as u64 {
                let letter = Letter::new(from as usize, contents, to as usize);
                proof {
                    lemma_record_unique(bytes@, letter@);
                }
                Ok(letter)
            } else {
                Err(CodecError)
            }
        },
        None => Err(CodecError),
    }
}

/// The length of the record at the front of `stream`, once `stream` holds
/// all of it; `None` while more bytes have to arrive.
pub fn record_len(stream: &[u8]) -> (len: Option<usize>)
    ensures
        match first_record_len(stream@) {
            Some(n) => len == Some(n as usize) && 4 <= n <= stream@.len(),
            None => len is None,
        },
{
    if stream.len() < 4 {
        return None;
    }
    let declared: u32 = u32_from_le_bytes(slice_subrange(stream, 0, 4));
    if (stream.len() - 4) as u64 >= declared as u64 {
        Some(declared as usize + 4)
    } else {
        None
    }
}

} // verus!
