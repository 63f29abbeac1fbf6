use bettervote::ballot::{RankedChoiceVote, VoterIp};
use bettervote::poll::Poll;

const NOW: u64 = 1_700_000_000;

#[test]
fn autogen_random_id() {
    let poll1 = Poll::new(None, "".to_string(), vec![], 1, 1, false, NOW);
    let poll2 = Poll::new(None, "".to_string(), vec![], 1, 1, false, NOW);

    // Has a 1/(2^64 - 1) chance of failing when there is no bug.
    // This is effectively negligible.
    assert_ne!(poll1.unwrap().id, poll2.unwrap().id);
}

#[test]
fn support_custom_id() {
    let id = "custom_id".to_string();
    let poll = Poll::new(Some(id.clone()), "".to_string(), vec![], 1, 1, false, NOW).unwrap();

    assert_eq!(poll.id, id);
}

#[test]
fn winners() {
    let a = String::from("a");
    let b = String::from("b");
    let c = String::from("c");

    let mut poll =
        Poll::new(None, "".to_string(), vec![a.clone(), b.clone(), c.clone()], 1, 1, false, NOW)
            .unwrap();
    poll.votes.push(RankedChoiceVote {
        ranked_choices: vec![c.clone(), a.clone(), b.clone()],
        voter_ip: VoterIp::v4(127, 0, 0, 1),
    });
    poll.votes.push(RankedChoiceVote {
        ranked_choices: vec![a.clone(), c.clone(), b.clone()],
        voter_ip: VoterIp::v4(127, 0, 0, 2),
    });
    poll.votes.push(RankedChoiceVote {
        ranked_choices: vec![a.clone(), c.clone()],
        voter_ip: VoterIp::v4(127, 0, 0, 3),
    });
    poll.votes.push(RankedChoiceVote {
        ranked_choices: vec![b.clone(), c.clone()],
        voter_ip: VoterIp::v4(127, 0, 0, 3),
    });
    poll.votes.push(RankedChoiceVote {
        ranked_choices: vec![b.clone(), c.clone()],
        voter_ip: VoterIp::v4(127, 0, 0, 3),
    });

    poll.finish().unwrap();

    assert_eq!(poll.winners.unwrap()[0].candidate, c);
}
