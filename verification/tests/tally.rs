use bettervote::ballot::{RankedChoiceVote, VoterIp};
use bettervote::error::{ErrorKind, InternalError, TallyError};
use bettervote::poll::Poll;
use bettervote::tally::fill::{select_winners, RankedCandidate};
use bettervote::tally::pairwise::{count_ballot, first_place, zero_table};
use bettervote::tally::paths::compute_strongest_paths;
use bettervote::tally::tiers::extract_tiers;

const NOW: u64 = 1_700_000_000;

fn names(list: &[&str]) -> Vec<String> {
    list.iter().map(|s| s.to_string()).collect()
}

fn ballot(list: &[&str]) -> RankedChoiceVote {
    RankedChoiceVote { ranked_choices: names(list), voter_ip: VoterIp::v4(10, 0, 0, 1) }
}

fn poll(candidates: &[&str], ballots: &[&[&str]], num_winners: usize) -> Poll {
    let mut poll =
        Poll::new(None, "".to_string(), names(candidates), 1, num_winners, false, NOW).unwrap();
    for list in ballots {
        poll.votes.push(ballot(list));
    }
    poll
}

fn ranked(list: &[(&str, usize)]) -> Vec<RankedCandidate> {
    list.iter().map(|(name, rank)| RankedCandidate { candidate: name.to_string(), rank: *rank }).collect()
}

/// The pairwise counts of the example of 45 voters and five candidates that
/// is used to explain the Schulze method.
fn example_counts() -> Vec<Vec<u64>> {
    vec![
        vec![0, 20, 26, 30, 22],
        vec![25, 0, 16, 33, 18],
        vec![19, 29, 0, 17, 24],
        vec![15, 12, 28, 0, 14],
        vec![23, 27, 21, 31, 0],
    ]
}

#[test]
fn first_place_finds_the_first_or_the_length() {
    let list = names(&["x", "y", "x"]);
    assert_eq!(first_place(&list, &"x".to_string()), 0);
    assert_eq!(first_place(&list, &"y".to_string()), 1);
    assert_eq!(first_place(&list, &"z".to_string()), 3);
    assert_eq!(first_place(&names(&[]), &"z".to_string()), 0);
}

#[test]
fn zero_table_is_square_and_zero() {
    assert_eq!(zero_table(0), Vec::<Vec<u64>>::new());
    assert_eq!(zero_table(2), vec![vec![0, 0], vec![0, 0]]);
}

#[test]
fn pairwise_counts_of_three_candidates() {
    let candidates = names(&["a", "b", "c"]);
    let mut counts = zero_table(3);
    let ballots: [&[&str]; 5] =
        [&["c", "a", "b"], &["a", "c", "b"], &["a", "c"], &["b", "c"], &["b", "c"]];
    for list in ballots {
        count_ballot(&mut counts, &candidates, &names(list));
    }
    // row: preferred; column: to whom
    assert_eq!(counts, vec![vec![0, 3, 2], vec![2, 0, 2], vec![3, 3, 0]]);
}

#[test]
fn a_ranked_candidate_is_preferred_to_every_absent_one() {
    let candidates = names(&["a", "b", "c"]);
    let mut counts = zero_table(3);
    count_ballot(&mut counts, &candidates, &names(&["b"]));
    // b is ahead of a and c; between a and c, both absent, nothing is counted
    assert_eq!(counts, vec![vec![0, 0, 0], vec![1, 0, 1], vec![0, 0, 0]]);
}

#[test]
fn an_empty_ballot_counts_nothing() {
    let candidates = names(&["a", "b"]);
    let mut counts = zero_table(2);
    count_ballot(&mut counts, &candidates, &names(&[]));
    assert_eq!(counts, zero_table(2));
}

#[test]
fn strongest_paths_of_the_example() {
    let paths = compute_strongest_paths(&example_counts());
    let expected: [[u64; 5]; 5] = [
        [0, 28, 28, 30, 24],
        [25, 0, 28, 33, 24],
        [25, 29, 0, 29, 24],
        [25, 28, 28, 0, 24],
        [25, 28, 28, 31, 0],
    ];
    for i in 0..5 {
        for j in 0..5 {
            if i != j {
                assert_eq!(paths[i][j], expected[i][j], "from {} to {}", i, j);
            }
        }
    }
}

#[test]
fn strongest_paths_without_defeats_are_zero() {
    let ties = vec![vec![0, 2, 2], vec![2, 0, 2], vec![2, 2, 0]];
    assert_eq!(compute_strongest_paths(&ties), zero_table(3));
    assert_eq!(compute_strongest_paths(&zero_table(0)), zero_table(0));
}

#[test]
fn a_defeat_counts_with_the_votes_of_the_winning_side() {
    // 0 beats 1 by 5 to 3: the path from 0 to 1 has strength 5, the path back none
    let counts = vec![vec![0, 5], vec![3, 0]];
    let paths = compute_strongest_paths(&counts);
    assert_eq!(paths[0][1], 5);
    assert_eq!(paths[1][0], 0);
}

#[test]
fn tiers_of_the_example() {
    let paths = compute_strongest_paths(&example_counts());
    // E, A, C, B, D: in this order, one in every tier
    assert_eq!(extract_tiers(&paths, 5), vec![(4, 0), (0, 1), (2, 2), (1, 3), (3, 4)]);
    assert_eq!(extract_tiers(&paths, 1), vec![(4, 0)]);
    assert_eq!(extract_tiers(&paths, 2), vec![(4, 0), (0, 1)]);
    assert_eq!(extract_tiers(&paths, 3), vec![(4, 0), (0, 1), (2, 2)]);
    // more wanted than stand: everybody
    assert_eq!(extract_tiers(&paths, 9), vec![(4, 0), (0, 1), (2, 2), (1, 3), (3, 4)]);
    // nobody wanted: the first tier is taken all the same
    assert_eq!(extract_tiers(&paths, 0), vec![(4, 0)]);
}

#[test]
fn tiers_are_never_split() {
    // 0 and 1 are tied, and both beat 2
    let counts = vec![vec![0, 1, 3], vec![1, 0, 3], vec![0, 0, 0]];
    let paths = compute_strongest_paths(&counts);
    assert_eq!(extract_tiers(&paths, 1), vec![(0, 0), (1, 0)]);
    assert_eq!(extract_tiers(&paths, 2), vec![(0, 0), (1, 0)]);
    assert_eq!(extract_tiers(&paths, 3), vec![(0, 0), (1, 0), (2, 1)]);
}

#[test]
fn tiers_of_nobody() {
    assert_eq!(extract_tiers(&zero_table(0), 1), vec![]);
}

#[test]
fn top_tier_of_three_candidates() {
    let mut poll = poll(
        &["a", "b", "c"],
        &[&["c", "a", "b"], &["a", "c", "b"], &["a", "c"], &["b", "c"], &["b", "c"]],
        1,
    );
    assert_eq!(poll.find_winners(), Ok(ranked(&[("c", 0)])));
    poll.num_winners = 3;
    assert_eq!(poll.find_winners(), Ok(ranked(&[("c", 0), ("a", 1), ("b", 2)])));
}

#[test]
fn no_ballots_one_tier_of_all() {
    for wanted in [0, 1, 2, 3, 7] {
        let poll = poll(&["a", "b", "c"], &[], wanted);
        assert_eq!(poll.find_winners(), Ok(ranked(&[("a", 0), ("b", 0), ("c", 0)])));
    }
    assert_eq!(poll(&[], &[], 1).find_winners(), Ok(vec![]));
}

#[test]
fn tallying_twice_gives_the_same_tiers() {
    let poll = poll(
        &["a", "b", "c", "d"],
        &[&["d", "a"], &["a", "b", "c", "d"], &["c"], &["b", "d", "a"], &["c", "a"]],
        2,
    );
    let first = poll.find_winners();
    let second = poll.find_winners();
    assert!(first.is_ok());
    assert_eq!(first, second);
    assert_eq!(poll.clone().find_winners(), first);
}

#[test]
fn tally_refuses_unknown_candidates() {
    let poll = poll(&["a", "b"], &[&["a"], &["a", "x"]], 1);
    assert_eq!(
        poll.find_winners(),
        Err(ErrorKind::Internal(InternalError::Tally(TallyError::UnknownCandidate)))
    );
}

#[test]
fn tally_refuses_repeated_candidates() {
    let poll = poll(&["a", "b"], &[&["a", "b", "a"]], 1);
    assert_eq!(
        poll.find_winners(),
        Err(ErrorKind::Internal(InternalError::Tally(TallyError::VoteHasDuplicateCandidates)))
    );
}

#[test]
fn tally_fails_with_the_error_of_the_first_bad_ballot() {
    let repeated_first = poll(&["a", "b"], &[&["a", "a"], &["x"]], 1);
    assert_eq!(
        repeated_first.find_winners(),
        Err(ErrorKind::Internal(InternalError::Tally(TallyError::VoteHasDuplicateCandidates)))
    );
    // within one ballot an unknown name counts before a repeated one
    let both = poll(&["a", "b"], &[&["a", "a", "x"]], 1);
    assert_eq!(
        both.find_winners(),
        Err(ErrorKind::Internal(InternalError::Tally(TallyError::UnknownCandidate)))
    );
}

#[test]
fn finish_keeps_the_winners() {
    let mut open = poll(&["a", "b"], &[&["b"]], 1);
    assert_eq!(open.is_closed(), false);
    assert_eq!(open.finish(), Ok(()));
    assert_eq!(open.is_closed(), true);
    assert_eq!(open.winners, Some(ranked(&[("b", 0)])));

    let mut bad = poll(&["a", "b"], &[&["x"]], 1);
    assert!(bad.finish().is_err());
    assert_eq!(bad.winners, None);
}

#[test]
fn close_if_due_closes_at_the_end_and_not_before() {
    let mut poll = poll(&["a", "b"], &[&["a"]], 1);
    assert_eq!(poll.end_time, NOW + 1);
    assert_eq!(poll.close_if_due(NOW), Ok(false));
    assert_eq!(poll.winners, None);
    assert_eq!(poll.close_if_due(NOW + 1), Ok(true));
    assert_eq!(poll.winners, Some(ranked(&[("a", 0)])));
    // closed once, never again
    poll.votes.push(ballot(&["b"]));
    poll.votes.push(ballot(&["b"]));
    assert_eq!(poll.close_if_due(NOW + 99), Ok(false));
    assert_eq!(poll.winners, Some(ranked(&[("a", 0)])));
}

#[test]
fn tier_fill_takes_whole_tiers() {
    let tiers = ranked(&[("a", 0), ("b", 1), ("c", 1), ("d", 2)]);
    assert_eq!(select_winners(&tiers, 1), names(&["a"]));
    assert_eq!(select_winners(&tiers, 2), names(&["a", "b", "c"]));
    assert_eq!(select_winners(&tiers, 3), names(&["a", "b", "c"]));
    assert_eq!(select_winners(&tiers, 4), names(&["a", "b", "c", "d"]));
    assert_eq!(select_winners(&tiers, 9), names(&["a", "b", "c", "d"]));
}

#[test]
fn tier_fill_always_takes_the_first_tier() {
    let tiers = ranked(&[("a", 0), ("b", 0), ("c", 1)]);
    assert_eq!(select_winners(&tiers, 0), names(&["a", "b"]));
    assert_eq!(select_winners(&tiers, 1), names(&["a", "b"]));
}

#[test]
fn tier_fill_walks_the_tiers_in_ascending_order() {
    // the ranking need not be in order, and tiers may be missing
    let tiers = ranked(&[("late", 7), ("first", 2), ("later", 7), ("also first", 2), ("last", 9)]);
    assert_eq!(select_winners(&tiers, 1), names(&["first", "also first"]));
    assert_eq!(select_winners(&tiers, 3), names(&["first", "also first", "late", "later"]));
    assert_eq!(
        select_winners(&tiers, 5),
        names(&["first", "also first", "late", "later", "last"])
    );
    let highest = ranked(&[("z", usize::MAX), ("y", 0)]);
    assert_eq!(select_winners(&highest, 2), names(&["y", "z"]));
}

#[test]
fn tier_fill_of_nothing() {
    assert_eq!(select_winners(&vec![], 1), Vec::<String>::new());
}

#[test]
fn tier_fill_never_gives_fewer_than_wanted() {
    let poll = poll(
        &["a", "b", "c", "d", "e"],
        &[&["d", "a"], &["a", "b", "c", "d"], &["c"], &["b", "d", "a"], &["c", "a"], &["e", "c"]],
        1,
    );
    for wanted in 0..=5 {
        let mut poll = poll.clone();
        poll.num_winners = wanted;
        let tiers = poll.find_winners().unwrap();
        assert!(select_winners(&tiers, wanted).len() >= wanted);
    }
    let mut more = poll.clone();
    more.num_winners = 8;
    let tiers = more.find_winners().unwrap();
    assert_eq!(select_winners(&tiers, 8).len(), 5);
}
