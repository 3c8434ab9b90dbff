use paxos_node::messaging::Message;
use paxos_node::setup::grammar::{find_char, parse_line, parse_roleid, parse_roles};
use paxos_node::setup::hostsfile::{ManifestMalformed, PeerList, Role};
use paxos_node::state::paxos::{PaxosRole, Proposal};
use paxos_node::text::{from_chars, to_chars};

const MANIFEST: &str = "h1:proposer1\nh2:acceptor1,learner1\nh3:acceptor1,learner1\nh4:acceptor1,learner1\n";

fn load(host: &str, text: &str) -> PeerList {
    match PeerList::load(host.to_string(), text) {
        Ok(list) => list,
        Err(e) => panic!("line {} is malformed", e.line),
    }
}

fn line_of(host: &str, text: &str) -> usize {
    match PeerList::load(host.to_string(), text) {
        Ok(_) => panic!("the manifest was accepted"),
        Err(e) => e.line,
    }
}

fn chars(text: &str) -> Vec<char> {
    text.chars().collect()
}

#[test]
fn ids_follow_the_order_of_the_manifest() {
    let list = load("h3", MANIFEST);
    assert_eq!(list.len(), 4);
    assert_eq!(list.hostname(), "h3");
    assert_eq!(list.id(), 3);
    assert_eq!(list.peer_id("h1"), Some(1));
    assert_eq!(list.peer_id("h2"), Some(2));
    assert_eq!(list.peer_id("h4"), Some(4));
    assert_eq!(list.peer_id("h5"), None);
    assert_eq!(list.peer_id(""), None);
    assert_eq!(list.peers_count(), 3);
}

#[test]
fn peer_ids_are_the_same_on_every_node() {
    let hosts = ["h1", "h2", "h3", "h4"];
    for (i, host) in hosts.iter().enumerate() {
        let list = load(host, MANIFEST);
        assert_eq!(list.id(), i + 1);
        for (j, other) in hosts.iter().enumerate() {
            assert_eq!(list.peer_id(other), Some(j + 1));
        }
        assert_eq!(list.acceptors(1), vec![2, 3, 4]);
        assert_eq!(list.proposer(1), Some(1));
    }
}

#[test]
fn peers_are_all_but_the_node_itself() {
    let list = load("h2", MANIFEST);
    assert_eq!(
        list.ids_and_names(),
        vec![(1, "h1".to_string()), (3, "h3".to_string()), (4, "h4".to_string())]
    );
    let stranger = load("elsewhere", MANIFEST);
    assert_eq!(stranger.ids_and_names().len(), 4);
    assert_eq!(stranger.peer_id(stranger.hostname()), None);
}

#[test]
fn acceptors_and_learners_by_stage() {
    let text = "a:proposer1,acceptor2\nb:acceptor1\nc:learner1,proposer2\nd:acceptor1,learner2\ne:learner3";
    let list = load("b", text);
    assert_eq!(list.acceptors(1), vec![2, 4]);
    assert_eq!(list.acceptors(2), vec![1]);
    assert_eq!(list.acceptors(3), Vec::<usize>::new());
    assert_eq!(list.acceptors_and_learners(1), vec![2, 3, 4]);
    assert_eq!(list.acceptors_and_learners(2), vec![1, 4]);
    assert_eq!(list.acceptors_and_learners(3), vec![5]);
    assert_eq!(list.acceptors_and_learners(4), Vec::<usize>::new());
    assert_eq!(list.proposer(1), Some(1));
    assert_eq!(list.proposer(2), Some(3));
    assert_eq!(list.proposer(3), None);
}

#[test]
fn proposer_must_be_unique() {
    let list = load("a", "a:proposer1\nb:proposer1,proposer2\nc:acceptor1");
    assert_eq!(list.proposer(1), None);
    assert_eq!(list.proposer(2), Some(2));
    assert_eq!(list.proposer(0), None);
}

#[test]
fn first_role_decides_the_start() {
    let proposer = load("h1", MANIFEST).paxos_role();
    match proposer {
        PaxosRole::Prop(mut p) => {
            assert_eq!(p.stage, 1);
            assert_eq!(p.propose('X'), Message::Prepare(Proposal { num: 1, value: 'X' }));
            assert_eq!(p.acknowledge_prep(2, None), None);
            assert_eq!(
                p.acknowledge_prep(3, None),
                Some(Message::Accept(Proposal { num: 1, value: 'X' }))
            );
        }
        _ => panic!("h1 is the proposer"),
    }
    assert!(matches!(load("h2", MANIFEST).paxos_role(), PaxosRole::Acc(_)));
    assert!(matches!(load("x", "x:learner1,acceptor1").paxos_role(), PaxosRole::Learn(_)));
}

#[test]
fn initial_roles_one_per_stage() {
    let list = load("n", "m:acceptor2\nn:acceptor1,learner1,proposer2,learner7,acceptor2");
    let roles = list.initial_roles();
    assert_eq!(roles.len(), 3);
    assert_eq!(roles[0].0, 1);
    assert!(matches!(roles[0].1, PaxosRole::Acc(_)));
    assert_eq!(roles[1].0, 2);
    match &roles[1].1 {
        PaxosRole::Prop(p) => assert_eq!(p.stage, 2),
        _ => panic!("the role of stage 2 is the proposer"),
    }
    assert_eq!(roles[2].0, 7);
    assert!(matches!(roles[2].1, PaxosRole::Learn(_)));
}

#[test]
fn a_name_listed_twice_keeps_its_place() {
    let list = load("b", "a:acceptor1\nb:learner1\na:proposer1\nc:acceptor1");
    assert_eq!(list.len(), 3);
    assert_eq!(list.peer_id("a"), Some(1));
    assert_eq!(list.peer_id("b"), Some(2));
    assert_eq!(list.peer_id("c"), Some(3));
    assert_eq!(list.acceptors(1), vec![3]);
    assert_eq!(list.proposer(1), Some(1));
}

#[test]
fn line_endings() {
    let unix = load("h2", "h1:proposer1\nh2:acceptor1\n");
    let last_open = load("h2", "h1:proposer1\nh2:acceptor1");
    let dos = load("h2", "h1:proposer1\r\nh2:acceptor1\r\n");
    for list in [&unix, &last_open, &dos] {
        assert_eq!(list.len(), 2);
        assert_eq!(list.id(), 2);
        assert_eq!(list.acceptors(1), vec![2]);
    }
    assert_eq!(line_of("h2", "h1:proposer1\nh2:acceptor1\r"), 2);
    assert_eq!(load("h", "").len(), 0);
    assert_eq!(line_of("h", "\n"), 1);
    assert_eq!(line_of("h", "h:learner1\n\nk:learner1"), 2);
    assert_eq!(line_of("h", "h:learner1\n\r\n"), 2);
}

#[test]
fn malformed_lines_are_refused() {
    assert_eq!(line_of("h", "h"), 1);
    assert_eq!(line_of("h", "h:"), 1);
    assert_eq!(line_of("h", "h:proposer"), 1);
    assert_eq!(line_of("h", "h:1"), 1);
    assert_eq!(line_of("h", "h:leader1"), 1);
    assert_eq!(line_of("h", "h:Proposer1"), 1);
    assert_eq!(line_of("h", "h:proposer1,"), 1);
    assert_eq!(line_of("h", "h:,proposer1"), 1);
    assert_eq!(line_of("h", "h:proposer1,,acceptor1"), 1);
    assert_eq!(line_of("h", "h:proposer1 "), 1);
    assert_eq!(line_of("h", "h: proposer1"), 1);
    assert_eq!(line_of("h", "h:proposer1x"), 1);
    assert_eq!(line_of("h", "h:proposer-1"), 1);
    assert_eq!(line_of("h", "h:proposer1:acceptor1"), 1);
    assert_eq!(line_of("h", "h:acceptor4294967296"), 1);
    assert_eq!(line_of("h", "h:acceptor99999999999999999999999"), 1);
    assert_eq!(line_of("h", "a:learner1\nb:learner2\nc;learner3\nd:"), 3);
    assert_eq!(
        PeerList::load("h".to_string(), "a:learner1\nb:learnr2").err(),
        Some(ManifestMalformed { line: 2 })
    );
}

#[test]
fn stages_are_decimal_numbers() {
    assert_eq!(parse_roleid(&chars("acceptor0")), Some((Role::Acceptor(0), 9)));
    assert_eq!(parse_roleid(&chars("acceptor007")), Some((Role::Acceptor(7), 11)));
    assert_eq!(parse_roleid(&chars("learner4294967295")), Some((Role::Learner(4294967295), 17)));
    assert_eq!(parse_roleid(&chars("learner04294967295")), Some((Role::Learner(4294967295), 18)));
    assert_eq!(parse_roleid(&chars("learner4294967296")), None);
    assert_eq!(parse_roleid(&chars("learner99999999999")), None);
    assert_eq!(parse_roleid(&chars("proposer12")), Some((Role::Proposer(12), 10)));
    assert_eq!(parse_roleid(&chars("proposer١")), None);
    assert_eq!(parse_roleid(&chars("7")), None);
}

#[test]
fn a_role_is_read_off_the_front() {
    assert_eq!(parse_roleid(&chars("acceptor12,learner1")), Some((Role::Acceptor(12), 10)));
    assert_eq!(parse_roleid(&chars("learner3 and more")), Some((Role::Learner(3), 8)));
    assert_eq!(parse_roleid(&chars("proposer1:x")), Some((Role::Proposer(1), 9)));
    assert_eq!(parse_roleid(&chars("proposer1x")), Some((Role::Proposer(1), 9)));
    assert_eq!(parse_roleid(&chars("proposer12٣")), Some((Role::Proposer(12), 10)));
}

#[test]
fn a_role_needs_its_name_and_its_stage() {
    assert_eq!(parse_roleid(&chars("leader1")), None);
    assert_eq!(parse_roleid(&chars("acceptor")), None);
    assert_eq!(parse_roleid(&chars("proposer,1")), None);
    assert_eq!(parse_roleid(&chars("proposers1")), None);
    assert_eq!(parse_roleid(&chars("Proposer1")), None);
    assert_eq!(parse_roleid(&chars("proposerX1")), None);
    assert_eq!(parse_roleid(&chars("learne1")), None);
    assert_eq!(parse_roleid(&chars(" learner1")), None);
    assert_eq!(parse_roleid(&chars("")), None);
}

#[test]
fn role_lists() {
    let roles = parse_roles(&chars("acceptor1,learner1,proposer2"));
    assert_eq!(
        roles.map(Vec::from),
        Some(vec![Role::Acceptor(1), Role::Learner(1), Role::Proposer(2)])
    );
    assert_eq!(parse_roles(&chars("acceptor1")).map(Vec::from), Some(vec![Role::Acceptor(1)]));
    assert_eq!(parse_roles(&chars("")), None);
    assert_eq!(parse_roles(&chars("acceptor1,")), None);
    assert_eq!(parse_roles(&chars("acceptor1;learner1")), None);
    assert_eq!(parse_roles(&chars("acceptor1 ")), None);
    assert_eq!(parse_roles(&chars("acceptor1x")), None);
    assert_eq!(parse_roles(&chars(",acceptor1")), None);
    assert_eq!(parse_roles(&chars("acceptor1,,learner1")), None);
    assert_eq!(parse_roles(&chars("acceptor1,leader1")), None);
}

#[test]
fn hostname_ends_at_the_first_colon() {
    let (name, roles) = parse_line(&chars("node-7.example.org:learner3")).unwrap();
    assert_eq!(name, chars("node-7.example.org"));
    assert_eq!(Vec::from(roles), vec![Role::Learner(3)]);
    let (name, _) = parse_line(&chars(":learner3")).unwrap();
    assert_eq!(name, Vec::<char>::new());
    assert_eq!(parse_line(&chars("a:b:learner3")), None);
    assert_eq!(parse_line(&chars("learner3")), None);
    assert_eq!(find_char(&chars("a:b:c"), ':'), 1);
    assert_eq!(find_char(&chars("abc"), ':'), 3);
    assert_eq!(find_char(&chars(""), ':'), 0);
}

#[test]
fn the_manifest_is_read_line_by_line() {
    assert!(PeerList::load("a".to_string(), "a:learner1\nb:acceptor1").is_ok());
    assert_eq!(
        PeerList::load("a".to_string(), "a:learner1\nb").err(),
        Some(ManifestMalformed { line: 2 })
    );
    assert_eq!(
        PeerList::load("a".to_string(), "a\nb").err(),
        Some(ManifestMalformed { line: 1 })
    );
}

#[test]
fn text_and_characters() {
    assert_eq!(to_chars("héllo"), vec!['h', 'é', 'l', 'l', 'o']);
    assert_eq!(to_chars(""), Vec::<char>::new());
    assert_eq!(from_chars(&['h', 'é', 'l', 'l', 'o']), "héllo".to_string());
    assert_eq!(from_chars(&[]), String::new());
}
