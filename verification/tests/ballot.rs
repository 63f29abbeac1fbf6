use bettervote::ballot::{first_repeat, first_unknown, validate_choices, RankedChoiceVote, VoterIp};
use bettervote::error::VisibleError;
use bettervote::poll::Poll;

const NOW: u64 = 1_700_000_000;

fn names(list: &[&str]) -> Vec<String> {
    list.iter().map(|s| s.to_string()).collect()
}

fn poll(prohibit: bool) -> Poll {
    Poll::new(None, "".to_string(), names(&["A", "B", "C"]), 100, 1, prohibit, NOW).unwrap()
}

#[test]
fn a_valid_ballot_passes() {
    let candidates = names(&["A", "B", "C"]);
    assert_eq!(validate_choices(&candidates, &names(&["A"])), Ok(()));
    assert_eq!(validate_choices(&candidates, &names(&["C", "A", "B"])), Ok(()));
    assert_eq!(poll(false).validate(&names(&["B", "A"])), Ok(()));
}

#[test]
fn an_empty_ballot_is_refused() {
    let e = validate_choices(&names(&["A", "B", "C"]), &names(&[])).unwrap_err();
    assert_eq!(e, VisibleError::EmptyChoices(3));
    assert_eq!(e.message(), "You must vote for between 1 and 3 candidates");
}

#[test]
fn a_ballot_with_too_many_names_is_refused() {
    let e = validate_choices(&names(&["A", "B"]), &names(&["A", "B", "A"])).unwrap_err();
    assert_eq!(e, VisibleError::TooManyChoices(2));
    assert_eq!(e.message(), "You must vote for between 1 and 2 candidates");
}

#[test]
fn the_first_unknown_name_is_reported() {
    let candidates = names(&["A", "B", "C"]);
    let e = validate_choices(&candidates, &names(&["A", "x", "y"])).unwrap_err();
    assert_eq!(e, VisibleError::UnknownCandidate("x".to_string()));
    assert_eq!(e.message(), "The choice 'x' is not a valid choice.");
    assert_eq!(first_unknown(&candidates, &names(&["A", "x", "y"])), Some(1));
    assert_eq!(first_unknown(&candidates, &names(&["B", "A"])), None);
    assert_eq!(first_unknown(&candidates, &names(&[])), None);
}

#[test]
fn the_first_repeated_name_is_reported() {
    let candidates = names(&["A", "B", "C"]);
    let e = validate_choices(&candidates, &names(&["A", "B", "A"])).unwrap_err();
    assert_eq!(e, VisibleError::DuplicateCandidate("A".to_string()));
    assert_eq!(e.message(), "The choice 'A' appears more than once.");
    assert_eq!(first_repeat(&names(&["A", "B", "B", "A"])), Some(2));
    assert_eq!(first_repeat(&names(&["A", "B", "C"])), None);
}

#[test]
fn the_rules_are_tried_in_order() {
    let candidates = names(&["A", "B", "C"]);
    // too many names counts before unknown names
    assert_eq!(
        validate_choices(&candidates, &names(&["x", "x", "x", "x"])),
        Err(VisibleError::TooManyChoices(3))
    );
    // an unknown name counts before a repeated one, wherever they stand
    assert_eq!(
        validate_choices(&candidates, &names(&["A", "A", "x"])),
        Err(VisibleError::UnknownCandidate("x".to_string()))
    );
}

#[test]
fn one_ballot_per_address_where_asked() {
    let here = VoterIp::v4(127, 0, 0, 1);
    let there = VoterIp::v4(127, 0, 0, 2);
    let mut guarded = poll(true);
    assert_eq!(guarded.check_unique(here), Ok(()));
    guarded.votes.push(RankedChoiceVote { ranked_choices: names(&["A"]), voter_ip: here });
    assert_eq!(guarded.check_unique(here), Err(VisibleError::DuplicateVote));
    assert_eq!(guarded.check_unique(there), Ok(()));

    let mut free = poll(false);
    free.votes.push(RankedChoiceVote { ranked_choices: names(&["A"]), voter_ip: here });
    assert_eq!(free.check_unique(here), Ok(()));
}

#[test]
fn addresses_as_numbers() {
    assert_eq!(VoterIp::v4(127, 0, 0, 1), VoterIp::V4(0x7f00_0001));
    assert_eq!(VoterIp::v4(255, 254, 253, 252), VoterIp::V4(0xfffe_fdfc));
    assert_ne!(VoterIp::V4(1), VoterIp::V6(1));
}
