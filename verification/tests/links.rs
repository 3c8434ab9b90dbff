use paxos_node::messaging::codec::encode;
use paxos_node::messaging::{Letter, Message};
use paxos_node::setup::hostsfile::PeerList;
use paxos_node::setup::socketry::{
    address, dial_plan, Delivery, InboundLink, RETRY_SECS, SETTLE_SECS, TCP_PORT,
};
use paxos_node::state::paxos::Proposal;

const MANIFEST: &str = "h1:proposer1\nh2:acceptor1,learner1\nh3:acceptor1,learner1\nh4:acceptor1,learner1\n";

fn prepare(from: usize, to: usize) -> Letter {
    Letter::new(from, Message::Prepare(Proposal { num: 1, value: 'X' }), to)
}

#[test]
fn every_peer_listens_on_the_same_port() {
    assert_eq!(TCP_PORT, "6969");
    assert_eq!(RETRY_SECS, 2);
    assert_eq!(SETTLE_SECS, 2);
    assert_eq!(address("h2"), "h2:6969".to_string());
    assert_eq!(address(""), ":6969".to_string());
}

#[test]
fn a_node_dials_every_other_peer() {
    let list = match PeerList::load("h2".to_string(), MANIFEST) {
        Ok(list) => list,
        Err(_) => panic!("the manifest is well-formed"),
    };
    let plan = dial_plan(&list);
    assert_eq!(plan.len(), 3);
    let peers: Vec<usize> = plan.iter().map(|d| d.peer).collect();
    assert_eq!(peers, vec![1, 3, 4]);
    let addresses: Vec<&str> = plan.iter().map(|d| d.address.as_str()).collect();
    assert_eq!(addresses, vec!["h1:6969", "h3:6969", "h4:6969"]);
    for dial in plan.iter() {
        assert_eq!(dial.greeting, encode(&Letter::new(2, Message::Alive, dial.peer)));
    }
}

#[test]
fn the_first_letter_binds_the_link() {
    let mut link = InboundLink::new(2);
    assert_eq!(link.peer(), None);
    let hello = encode(&Letter::new(1, Message::Alive, 2));
    assert_eq!(link.receive(&hello), vec![Delivery::Hello(1)]);
    assert_eq!(link.peer(), Some(1));
    assert_eq!(link.receive(&encode(&prepare(1, 2))), vec![Delivery::Mail(prepare(1, 2))]);
}

#[test]
fn anything_but_alive_first_is_a_violation() {
    let mut link = InboundLink::new(2);
    assert_eq!(link.receive(&encode(&prepare(1, 2))), vec![Delivery::Violation]);
    assert_eq!(link.peer(), None);
    assert_eq!(
        link.receive(&encode(&Letter::new(1, Message::Alive, 3))),
        vec![Delivery::Violation]
    );
    assert_eq!(link.peer(), None);
    assert_eq!(
        link.receive(&encode(&Letter::new(1, Message::Alive, 2))),
        vec![Delivery::Hello(1)]
    );
}

#[test]
fn letters_of_others_and_for_others_are_dropped() {
    let mut link = InboundLink::new(2);
    link.receive(&encode(&Letter::new(1, Message::Alive, 2)));
    assert_eq!(link.receive(&encode(&prepare(3, 2))), vec![Delivery::Violation]);
    assert_eq!(link.receive(&encode(&prepare(1, 4))), vec![Delivery::Violation]);
    assert_eq!(
        link.receive(&encode(&Letter::new(1, Message::Alive, 2))),
        vec![Delivery::Violation]
    );
    assert_eq!(link.peer(), Some(1));
    assert_eq!(link.receive(&encode(&prepare(1, 2))), vec![Delivery::Mail(prepare(1, 2))]);
}

#[test]
fn records_survive_any_split_of_the_stream() {
    let letters = vec![
        Letter::new(1, Message::Alive, 2),
        prepare(1, 2),
        Letter::new(1, Message::Accept(Proposal { num: 1, value: 'X' }), 2),
        Letter::new(1, Message::Chosen(Proposal { num: 1, value: 'X' }), 2),
    ];
    let mut stream: Vec<u8> = Vec::new();
    for letter in letters.iter() {
        stream.extend_from_slice(&encode(letter));
    }
    let expected = vec![
        Delivery::Hello(1),
        Delivery::Mail(letters[1]),
        Delivery::Mail(letters[2]),
        Delivery::Mail(letters[3]),
    ];
    let mut whole = InboundLink::new(2);
    assert_eq!(whole.receive(&stream), expected);
    for piece in 1..7 {
        let mut link = InboundLink::new(2);
        let mut got = Vec::new();
        for chunk in stream.chunks(piece) {
            got.extend(link.receive(chunk));
        }
        assert_eq!(got, expected);
        assert_eq!(link.receive(&[]), Vec::new());
    }
}

#[test]
fn bad_frame_mid_stream() {
    let first = prepare(1, 2);
    let second = Letter::new(1, Message::Accept(Proposal { num: 1, value: 'X' }), 2);
    let mut stream = encode(&Letter::new(1, Message::Alive, 2));
    stream.extend_from_slice(&encode(&first));
    stream.extend_from_slice(&[5, 0, 0, 0, 0xde, 0xad, 0xbe, 0xef, 0x00]);
    stream.extend_from_slice(&encode(&second));
    let mut link = InboundLink::new(2);
    assert_eq!(
        link.receive(&stream),
        vec![
            Delivery::Hello(1),
            Delivery::Mail(first),
            Delivery::Garbled,
            Delivery::Mail(second)
        ]
    );
}

#[test]
fn a_record_with_an_unknown_tag_is_garbled() {
    let mut bad = encode(&prepare(1, 2));
    bad[12] = 9;
    let mut stream = encode(&Letter::new(1, Message::Alive, 2));
    stream.extend_from_slice(&bad);
    stream.extend_from_slice(&encode(&prepare(1, 2)));
    let mut link = InboundLink::new(2);
    assert_eq!(
        link.receive(&stream),
        vec![Delivery::Hello(1), Delivery::Garbled, Delivery::Mail(prepare(1, 2))]
    );
}

#[test]
fn an_unfinished_record_waits() {
    let bytes = encode(&Letter::new(1, Message::Alive, 2));
    let mut link = InboundLink::new(2);
    assert_eq!(link.receive(&bytes[..3]), Vec::new());
    assert_eq!(link.receive(&bytes[3..23]), Vec::new());
    assert_eq!(link.receive(&bytes[23..]), vec![Delivery::Hello(1)]);
}
