use paxos_node::messaging::codec::{decode, encode, record_len, CodecError};
use paxos_node::messaging::{Letter, Message};
use paxos_node::state::paxos::Proposal;

fn all_messages() -> Vec<Message> {
    vec![
        Message::Alive,
        Message::Prepare(Proposal { num: 1, value: 'X' }),
        Message::PrepareAck(None),
        Message::PrepareAck(Some(Proposal { num: 7, value: 'Y' })),
        Message::Accept(Proposal { num: u64::MAX, value: '\u{10FFFF}' }),
        Message::AcceptAck { min_proposal: 0 },
        Message::AcceptAck { min_proposal: 0x0102_0304_0506_0708 },
        Message::Chosen(Proposal { num: 3, value: 'é' }),
        Message::Chosen(Proposal { num: 3, value: '\0' }),
    ]
}

#[test]
fn codec_round_trip() {
    for message in all_messages() {
        for (from, to) in [(1usize, 2usize), (0, 0), (usize::MAX, 3), (12, usize::MAX)] {
            let letter = Letter::new(from, message, to);
            let bytes = encode(&letter);
            assert_eq!(decode(&bytes), Ok(letter));
            assert_eq!(record_len(&bytes), Some(bytes.len()));
        }
    }
}

#[test]
fn prepare_letter_has_these_bytes() {
    let letter = Letter::new(1, Message::Prepare(Proposal { num: 1, value: 'X' }), 2);
    let expected: Vec<u8> = vec![
        32, 0, 0, 0, // length
        1, 0, 0, 0, 0, 0, 0, 0, // from
        1, 0, 0, 0, // tag
        1, 0, 0, 0, 0, 0, 0, 0, // number
        0x58, 0, 0, 0, // value
        2, 0, 0, 0, 0, 0, 0, 0, // to
    ];
    assert_eq!(encode(&letter), expected);
    assert_eq!(decode(&expected), Ok(letter));
}

#[test]
fn alive_letter_has_these_bytes() {
    let letter = Letter::new(3, Message::Alive, 1);
    let expected: Vec<u8> =
        vec![20, 0, 0, 0, 3, 0, 0, 0, 0, 0, 0, 0, 0, 0, 0, 0, 1, 0, 0, 0, 0, 0, 0, 0];
    assert_eq!(encode(&letter), expected);
}

#[test]
fn prepare_ack_letters_have_these_bytes() {
    let none = Letter::new(2, Message::PrepareAck(None), 1);
    let expected: Vec<u8> =
        vec![21, 0, 0, 0, 2, 0, 0, 0, 0, 0, 0, 0, 2, 0, 0, 0, 0, 1, 0, 0, 0, 0, 0, 0, 0];
    assert_eq!(encode(&none), expected);
    let some = Letter::new(2, Message::PrepareAck(Some(Proposal { num: 0x0807, value: 'Y' })), 1);
    let expected: Vec<u8> = vec![
        33, 0, 0, 0, 2, 0, 0, 0, 0, 0, 0, 0, 2, 0, 0, 0, 1, 7, 8, 0, 0, 0, 0, 0, 0, 0x59, 0, 0, 0,
        1, 0, 0, 0, 0, 0, 0, 0,
    ];
    assert_eq!(encode(&some), expected);
}

#[test]
fn accept_ack_letter_has_these_bytes() {
    let letter = Letter::new(4, Message::AcceptAck { min_proposal: 0x0102_0304_0506_0708 }, 1);
    let expected: Vec<u8> = vec![
        28, 0, 0, 0, 4, 0, 0, 0, 0, 0, 0, 0, 4, 0, 0, 0, 8, 7, 6, 5, 4, 3, 2, 1, 1, 0, 0, 0, 0, 0,
        0, 0,
    ];
    assert_eq!(encode(&letter), expected);
    assert_eq!(decode(&expected), Ok(letter));
}

#[test]
fn unknown_tag_is_refused() {
    let mut bytes = encode(&Letter::new(1, Message::Alive, 2));
    bytes[12] = 6;
    assert_eq!(decode(&bytes), Err(CodecError));
    bytes[12] = 0;
    bytes[15] = 1;
    assert_eq!(decode(&bytes), Err(CodecError));
}

#[test]
fn truncated_and_overlong_records_are_refused() {
    let bytes = encode(&Letter::new(1, Message::Prepare(Proposal { num: 1, value: 'X' }), 2));
    for cut in 0..bytes.len() {
        assert_eq!(decode(&bytes[..cut]), Err(CodecError));
    }
    let mut longer = bytes.clone();
    longer.push(0);
    assert_eq!(decode(&longer), Err(CodecError));
    longer[0] += 1;
    assert_eq!(decode(&longer), Err(CodecError));
    assert_eq!(decode(&[]), Err(CodecError));
}

#[test]
fn wrong_length_field_is_refused() {
    let mut bytes = encode(&Letter::new(1, Message::Alive, 2));
    bytes[0] = 19;
    assert_eq!(decode(&bytes), Err(CodecError));
    bytes[0] = 21;
    assert_eq!(decode(&bytes), Err(CodecError));
}

#[test]
fn a_surrogate_is_no_character() {
    let mut bytes = encode(&Letter::new(1, Message::Chosen(Proposal { num: 1, value: 'X' }), 2));
    bytes[24] = 0x00;
    bytes[25] = 0xD8;
    assert_eq!(decode(&bytes), Err(CodecError));
    bytes[25] = 0x00;
    bytes[26] = 0x11;
    assert_eq!(decode(&bytes), Err(CodecError));
    bytes[26] = 0x10;
    assert_eq!(
        decode(&bytes),
        Ok(Letter::new(1, Message::Chosen(Proposal { num: 1, value: '\u{100000}' }), 2))
    );
}

#[test]
fn option_byte_must_be_zero_or_one() {
    let mut bytes = encode(&Letter::new(2, Message::PrepareAck(None), 1));
    bytes[16] = 2;
    assert_eq!(decode(&bytes), Err(CodecError));
    bytes[16] = 1;
    assert_eq!(decode(&bytes), Err(CodecError));
    let mut bytes =
        encode(&Letter::new(2, Message::PrepareAck(Some(Proposal { num: 1, value: 'a' })), 1));
    bytes[16] = 0;
    assert_eq!(decode(&bytes), Err(CodecError));
}

#[test]
fn body_of_the_wrong_size_is_refused() {
    let alive = encode(&Letter::new(1, Message::Alive, 2));
    let mut padded = alive.clone();
    padded.insert(16, 0);
    padded[0] += 1;
    assert_eq!(decode(&padded), Err(CodecError));
    let ack = encode(&Letter::new(1, Message::AcceptAck { min_proposal: 5 }, 2));
    let mut short = ack.clone();
    short.remove(16);
    short[0] -= 1;
    assert_eq!(decode(&short), Err(CodecError));
}

#[test]
fn record_len_waits_for_the_whole_record() {
    let bytes = encode(&Letter::new(1, Message::Prepare(Proposal { num: 1, value: 'X' }), 2));
    for cut in 0..bytes.len() {
        assert_eq!(record_len(&bytes[..cut]), None);
    }
    assert_eq!(record_len(&bytes), Some(36));
    let mut two = bytes.clone();
    two.extend_from_slice(&encode(&Letter::new(2, Message::Alive, 1)));
    assert_eq!(record_len(&two), Some(36));
    assert_eq!(record_len(&two[36..]), Some(24));
    assert_eq!(record_len(&[0, 0, 0, 0]), Some(4));
    assert_eq!(record_len(&[3, 0, 0, 0, 9, 9]), None);
    assert_eq!(record_len(&[3, 0, 0, 0, 9, 9, 9, 1]), Some(7));
}

#[test]
fn letter_parts_are_kept() {
    let letter = Letter::new(5, Message::AcceptAck { min_proposal: 8 }, 6);
    assert_eq!(letter.from(), 5);
    assert_eq!(letter.to(), 6);
    assert_eq!(*letter.message(), Message::AcceptAck { min_proposal: 8 });
    let same: Letter = (5usize, Message::AcceptAck { min_proposal: 8 }, 6usize).into();
    assert_eq!(same, letter);
}
