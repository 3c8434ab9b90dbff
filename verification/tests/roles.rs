use paxos_node::messaging::Message;
use paxos_node::state::paxos::{
    Accepting, Audience, Chooser, Learning, PaxosRole, Proposal, Proposing, ProtocolViolation,
};

fn prop(num: u64, value: char) -> Proposal {
    Proposal { num, value }
}

#[test]
fn acceptor_starts_with_nothing_accepted() {
    let mut acceptor = Accepting::default();
    assert_eq!(acceptor.prepare(&prop(1, 'X')), Message::PrepareAck(None));
    assert_eq!(acceptor.chosen_value(), None);
}

#[test]
fn acceptor_accepts_the_number_it_promised() {
    let mut acceptor = Accepting::default();
    acceptor.prepare(&prop(4, 'X'));
    assert_eq!(acceptor.accept(&prop(4, 'X')), Message::AcceptAck { min_proposal: 4 });
    assert_eq!(acceptor.prepare(&prop(4, 'Z')), Message::PrepareAck(Some(prop(4, 'X'))));
}

#[test]
fn acceptor_turns_down_a_lower_number() {
    let mut acceptor = Accepting::default();
    acceptor.prepare(&prop(5, 'X'));
    assert_eq!(acceptor.accept(&prop(2, 'Y')), Message::AcceptAck { min_proposal: 5 });
    assert_eq!(acceptor.prepare(&prop(1, 'Z')), Message::PrepareAck(None));
}

#[test]
fn acceptor_accepts_a_higher_number_without_prepare() {
    let mut acceptor = Accepting::default();
    assert_eq!(acceptor.accept(&prop(9, 'Q')), Message::AcceptAck { min_proposal: 9 });
    assert_eq!(acceptor.prepare(&prop(3, 'Z')), Message::PrepareAck(Some(prop(9, 'Q'))));
}

#[test]
fn acceptor_promise_never_falls() {
    let mut acceptor = Accepting::default();
    let numbers: [u64; 8] = [3, 1, 7, 7, 2, 9, 0, 4];
    let mut last: u64 = 0;
    for (i, n) in numbers.iter().enumerate() {
        if i % 2 == 0 {
            acceptor.prepare(&prop(*n, 'a'));
        }
        match acceptor.accept(&prop(*n, 'b')) {
            Message::AcceptAck { min_proposal } => {
                assert!(min_proposal >= last);
                assert!(min_proposal >= *n);
                last = min_proposal;
            }
            other => panic!("unexpected reply {:?}", other),
        }
    }
    assert_eq!(last, 9);
}

#[test]
fn acceptor_and_learner_record_the_decision() {
    let mut acceptor = Accepting::default();
    acceptor.accept_choice(&prop(3, 'K'));
    assert_eq!(acceptor.chosen_value(), Some('K'));
    let mut learner = Learning::default();
    assert_eq!(learner.chosen_value(), None);
    learner.accept_choice(&prop(3, 'K'));
    assert_eq!(learner.chosen_value(), Some('K'));
}

#[test]
fn proposer_first_proposal_has_number_one() {
    let mut proposer = Proposing::new(3, 1);
    assert!(!proposer.has_begun());
    assert_eq!(proposer.stage, 1);
    assert_eq!(proposer.propose('X'), Message::Prepare(prop(1, 'X')));
    assert!(proposer.has_begun());
    assert_eq!(proposer.current_prop(), prop(1, 'X'));
    assert_eq!(proposer.num(), 1);
}

#[test]
fn single_proposer_three_acceptors_one_value() {
    let mut proposer = Proposing::new(3, 1);
    let mut acceptors = vec![Accepting::default(), Accepting::default(), Accepting::default()];
    let prepare = proposer.propose('X');
    assert_eq!(prepare, Message::Prepare(prop(1, 'X')));
    let mut accept = None;
    for (i, acceptor) in acceptors.iter_mut().enumerate() {
        let ack = acceptor.prepare(&prop(1, 'X'));
        assert_eq!(ack, Message::PrepareAck(None));
        if let Some(out) = proposer.acknowledge_prep(i + 2, None) {
            assert!(accept.is_none());
            accept = Some(out);
        }
    }
    assert_eq!(accept, Some(Message::Accept(prop(1, 'X'))));
    let mut chosen = None;
    for (i, acceptor) in acceptors.iter_mut().enumerate() {
        let ack = acceptor.accept(&prop(1, 'X'));
        assert_eq!(ack, Message::AcceptAck { min_proposal: 1 });
        if let Some(out) = proposer.acknowledge_accept(i + 2, 1) {
            assert!(chosen.is_none());
            chosen = Some(out);
        }
    }
    assert_eq!(chosen, Some(Message::Chosen(prop(1, 'X'))));
    assert!(proposer.has_chosen());
    for acceptor in acceptors.iter_mut() {
        acceptor.accept_choice(&prop(1, 'X'));
        assert_eq!(acceptor.chosen_value(), Some('X'));
    }
}

#[test]
fn proposer_adopts_prior_value() {
    let mut proposer = Proposing::new(3, 1);
    let mut primed = Accepting::default();
    assert_eq!(primed.accept(&prop(7, 'Y')), Message::AcceptAck { min_proposal: 7 });
    let mut plain = Accepting::default();
    proposer.propose('X');
    let first = match primed.prepare(&prop(1, 'X')) {
        Message::PrepareAck(reported) => reported,
        other => panic!("unexpected reply {:?}", other),
    };
    assert_eq!(first, Some(prop(7, 'Y')));
    assert_eq!(proposer.acknowledge_prep(2, first), None);
    let second = match plain.prepare(&prop(1, 'X')) {
        Message::PrepareAck(reported) => reported,
        other => panic!("unexpected reply {:?}", other),
    };
    assert_eq!(second, None);
    let accept = proposer.acknowledge_prep(3, second);
    assert_eq!(accept, Some(Message::Accept(prop(7, 'Y'))));
    assert_eq!(proposer.current_prop(), prop(7, 'Y'));
}

#[test]
fn proposer_adopts_the_highest_reported_number() {
    let mut proposer = Proposing::new(5, 1);
    proposer.propose('X');
    assert_eq!(proposer.acknowledge_prep(2, Some(prop(3, 'A'))), None);
    assert_eq!(proposer.acknowledge_prep(3, Some(prop(7, 'B'))), None);
    assert_eq!(
        proposer.acknowledge_prep(4, Some(prop(5, 'C'))),
        Some(Message::Accept(prop(7, 'B')))
    );
}

#[test]
fn proposer_keeps_its_value_when_nothing_is_reported() {
    let mut proposer = Proposing::new(2, 1);
    proposer.propose('V');
    assert_eq!(proposer.acknowledge_prep(1, None), None);
    assert_eq!(proposer.acknowledge_prep(2, None), Some(Message::Accept(prop(1, 'V'))));
}

#[test]
fn rejected_accept_drives_re_prepare() {
    let mut proposer = Proposing::new(3, 1);
    proposer.propose('X');
    assert_eq!(proposer.acknowledge_prep(2, Some(prop(2, 'X'))), None);
    assert_eq!(proposer.acknowledge_prep(3, None), Some(Message::Accept(prop(2, 'X'))));
    assert_eq!(proposer.acknowledge_accept(2, 5), Some(Message::Prepare(prop(6, 'X'))));
    assert_eq!(proposer.current_prop(), prop(6, 'X'));
    assert!(!proposer.has_chosen());
    assert_eq!(proposer.acknowledge_prep(2, None), None);
    assert_eq!(proposer.acknowledge_prep(3, None), Some(Message::Accept(prop(6, 'X'))));
    assert_eq!(proposer.acknowledge_accept(2, 6), None);
    assert_eq!(proposer.acknowledge_accept(4, 6), Some(Message::Chosen(prop(6, 'X'))));
}

#[test]
fn two_competing_proposers_same_stage() {
    let mut first = Proposing::new(3, 1);
    let mut second = Proposing::new(3, 1);
    let mut acceptors = vec![Accepting::default(), Accepting::default(), Accepting::default()];
    let mut learners = vec![Learning::default(), Learning::default()];

    first.propose('X');
    let mut accept = None;
    for (i, acceptor) in acceptors.iter_mut().enumerate() {
        if let Message::PrepareAck(reported) = acceptor.prepare(&first.current_prop()) {
            accept = first.acknowledge_prep(i + 3, reported).or(accept);
        }
    }
    let accepted = match accept {
        Some(Message::Accept(p)) => p,
        other => panic!("unexpected reply {:?}", other),
    };
    let mut decisions = Vec::new();
    for (i, acceptor) in acceptors.iter_mut().enumerate() {
        if let Message::AcceptAck { min_proposal } = acceptor.accept(&accepted) {
            if let Some(Message::Chosen(p)) = first.acknowledge_accept(i + 3, min_proposal) {
                decisions.push(p);
            }
        }
    }

    second.propose('Y');
    let mut accept = None;
    for (i, acceptor) in acceptors.iter_mut().enumerate() {
        if let Message::PrepareAck(reported) = acceptor.prepare(&second.current_prop()) {
            accept = second.acknowledge_prep(i + 3, reported).or(accept);
        }
    }
    let accepted = match accept {
        Some(Message::Accept(p)) => p,
        other => panic!("unexpected reply {:?}", other),
    };
    assert_eq!(accepted.value, 'X');
    for (i, acceptor) in acceptors.iter_mut().enumerate() {
        if let Message::AcceptAck { min_proposal } = acceptor.accept(&accepted) {
            if let Some(Message::Chosen(p)) = second.acknowledge_accept(i + 3, min_proposal) {
                decisions.push(p);
            }
        }
    }

    assert_eq!(decisions.len(), 2);
    for decision in decisions.iter() {
        for learner in learners.iter_mut() {
            learner.accept_choice(decision);
            assert_eq!(learner.chosen_value(), Some('X'));
        }
    }
}

#[test]
fn late_duplicate_prepare_ack() {
    let mut proposer = Proposing::new(5, 1);
    proposer.propose('X');
    assert_eq!(proposer.acknowledge_prep(2, None), None);
    assert_eq!(proposer.acknowledge_prep(3, None), None);
    assert_eq!(proposer.acknowledge_prep(4, None), Some(Message::Accept(prop(1, 'X'))));
    assert_eq!(proposer.acknowledge_prep(4, None), None);
    assert_eq!(proposer.acknowledge_prep(5, None), None);
    assert_eq!(proposer.acknowledge_prep(2, Some(prop(9, 'Z'))), None);
    assert_eq!(proposer.current_prop(), prop(1, 'X'));
}

#[test]
fn duplicate_prepare_ack_counts_once() {
    let mut proposer = Proposing::new(3, 1);
    proposer.propose('X');
    assert_eq!(proposer.acknowledge_prep(2, None), None);
    assert_eq!(proposer.acknowledge_prep(2, None), None);
    assert_eq!(proposer.acknowledge_prep(2, None), None);
    assert_eq!(proposer.acknowledge_prep(3, None), Some(Message::Accept(prop(1, 'X'))));
}

#[test]
fn duplicate_accept_ack_counts_once() {
    let mut proposer = Proposing::new(3, 1);
    proposer.propose('X');
    proposer.acknowledge_prep(2, None);
    proposer.acknowledge_prep(3, None);
    assert_eq!(proposer.acknowledge_accept(2, 1), None);
    assert_eq!(proposer.acknowledge_accept(2, 1), None);
    assert!(!proposer.has_chosen());
    assert_eq!(proposer.acknowledge_accept(3, 1), Some(Message::Chosen(prop(1, 'X'))));
}

#[test]
fn chosen_is_emitted_once() {
    let mut proposer = Proposing::new(3, 1);
    proposer.propose('X');
    proposer.acknowledge_prep(2, None);
    proposer.acknowledge_prep(3, None);
    proposer.acknowledge_accept(2, 1);
    assert_eq!(proposer.acknowledge_accept(3, 1), Some(Message::Chosen(prop(1, 'X'))));
    assert_eq!(proposer.acknowledge_accept(3, 1), None);
    assert_eq!(proposer.acknowledge_accept(4, 1), None);
    assert_eq!(proposer.acknowledge_accept(4, 50), None);
    assert_eq!(proposer.current_prop(), prop(1, 'X'));
    assert!(proposer.has_chosen());
}

#[test]
fn majority_is_strictly_more_than_half() {
    let mut even = Proposing::new(4, 1);
    even.propose('E');
    assert_eq!(even.acknowledge_prep(1, None), None);
    assert_eq!(even.acknowledge_prep(2, None), None);
    assert_eq!(even.acknowledge_prep(3, None), Some(Message::Accept(prop(1, 'E'))));
    let mut single = Proposing::new(1, 1);
    single.propose('S');
    assert_eq!(single.acknowledge_prep(1, None), Some(Message::Accept(prop(1, 'S'))));
    assert_eq!(single.acknowledge_accept(1, 1), Some(Message::Chosen(prop(1, 'S'))));
}

#[test]
fn rejection_at_the_last_number_is_ignored() {
    let mut proposer = Proposing::new(3, 1);
    proposer.propose('X');
    assert_eq!(proposer.acknowledge_accept(2, u64::MAX), None);
    assert_eq!(proposer.current_prop(), prop(1, 'X'));
    assert_eq!(
        proposer.acknowledge_accept(2, u64::MAX - 1),
        Some(Message::Prepare(prop(u64::MAX, 'X')))
    );
}

#[test]
fn stray_prepare_ack_changes_nothing() {
    let mut proposer = Proposing::new(1, 1);
    assert_eq!(proposer.acknowledge_prep(2, None), None);
    assert_eq!(proposer.acknowledge_prep(2, Some(prop(9, 'Q'))), None);
    assert!(!proposer.has_begun());
    assert_eq!(proposer.num(), 0);
    assert_eq!(proposer.propose('X'), Message::Prepare(prop(1, 'X')));
    assert_eq!(proposer.acknowledge_prep(2, None), Some(Message::Accept(prop(1, 'X'))));
}

#[test]
fn stray_accept_ack_changes_nothing() {
    let mut proposer = Proposing::new(1, 1);
    assert_eq!(proposer.acknowledge_accept(2, 0), None);
    assert_eq!(proposer.acknowledge_accept(2, 7), None);
    assert!(!proposer.has_chosen());
    assert!(!proposer.has_begun());
    assert_eq!(proposer.num(), 0);
    assert_eq!(proposer.propose('X'), Message::Prepare(prop(1, 'X')));
    assert_eq!(proposer.acknowledge_prep(2, None), Some(Message::Accept(prop(1, 'X'))));
    assert_eq!(proposer.acknowledge_accept(2, 1), Some(Message::Chosen(prop(1, 'X'))));
}

#[test]
fn a_proposer_by_default_counts_among_no_acceptors() {
    let mut proposer = Proposing::default();
    assert!(!proposer.has_begun());
    assert_eq!(proposer.stage, 0);
    assert_eq!(proposer.propose('D'), Message::Prepare(prop(1, 'D')));
    assert_eq!(proposer.acknowledge_prep(1, None), Some(Message::Accept(prop(1, 'D'))));
}

#[test]
fn role_dispatches_by_message_and_role() {
    let mut acceptor = PaxosRole::Acc(Accepting::default());
    assert_eq!(
        acceptor.handle(1, &Message::Prepare(prop(2, 'X'))),
        Ok(Some((Message::PrepareAck(None), Audience::Sender)))
    );
    assert_eq!(
        acceptor.handle(1, &Message::Accept(prop(2, 'X'))),
        Ok(Some((Message::AcceptAck { min_proposal: 2 }, Audience::Sender)))
    );
    assert_eq!(acceptor.handle(1, &Message::Chosen(prop(2, 'X'))), Ok(None));
    assert_eq!(acceptor.handle(1, &Message::PrepareAck(None)), Err(ProtocolViolation));
    assert_eq!(acceptor.handle(1, &Message::AcceptAck { min_proposal: 1 }), Err(ProtocolViolation));
    assert_eq!(acceptor.handle(1, &Message::Alive), Err(ProtocolViolation));

    let mut learner = PaxosRole::Learn(Learning::default());
    assert_eq!(learner.handle(1, &Message::Prepare(prop(2, 'X'))), Err(ProtocolViolation));
    assert_eq!(learner.handle(1, &Message::Accept(prop(2, 'X'))), Err(ProtocolViolation));
    assert_eq!(learner.handle(1, &Message::Chosen(prop(2, 'X'))), Ok(None));
    match learner {
        PaxosRole::Learn(l) => assert_eq!(l.chosen_value(), Some('X')),
        _ => panic!("the role changed"),
    }

    let mut proposer = PaxosRole::Prop(Proposing::new(1, 1));
    assert_eq!(proposer.handle(2, &Message::PrepareAck(None)), Err(ProtocolViolation));
    assert_eq!(proposer.handle(2, &Message::Prepare(prop(1, 'X'))), Err(ProtocolViolation));
    if let PaxosRole::Prop(p) = &mut proposer {
        p.propose('X');
    }
    assert_eq!(
        proposer.handle(2, &Message::PrepareAck(None)),
        Ok(Some((Message::Accept(prop(1, 'X')), Audience::Acceptors)))
    );
    assert_eq!(
        proposer.handle(2, &Message::AcceptAck { min_proposal: 1 }),
        Ok(Some((Message::Chosen(prop(1, 'X')), Audience::Listeners)))
    );
    assert_eq!(proposer.handle(2, &Message::Chosen(prop(1, 'X'))), Ok(None));
}

#[test]
fn proposer_ignores_the_decision_it_is_told() {
    let mut role = PaxosRole::Prop(Proposing::new(3, 1));
    role.accept_choice(&prop(4, 'Q'));
    match role {
        PaxosRole::Prop(p) => {
            assert!(!p.has_begun());
            assert!(!p.has_chosen());
        }
        _ => panic!("the role changed"),
    }
}
