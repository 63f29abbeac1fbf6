use bettervote::creation::CreateAPIRequestData;
use bettervote::response::{PollInfo, Response};
use bettervote::voting::VoteAPIRequestData;
use bettervote::ballot::{RankedChoiceVote, VoterIp};
use bettervote::error::{ErrorKind, InternalError};
use bettervote::poll::Poll;
use bettervote::session::{
    create_begin, create_step, poll_info_begin, poll_info_step, standing, vote_begin, vote_step,
    CreateSession, InfoSession, Next, Outcome, Query, Standing, VoteSession,
};
use bettervote::tally::fill::RankedCandidate;

const NOW: u64 = 1_700_000_000;
const APOLOGY: &str =
    "Sorry, an internal server error occured. The server's administrators have been notified.";

fn names(list: &[&str]) -> Vec<String> {
    list.iter().map(|s| s.to_string()).collect()
}

fn request(id: Option<&str>) -> CreateAPIRequestData {
    CreateAPIRequestData {
        name: "Session".to_string(),
        candidates: names(&["A", "B", "C"]),
        duration: 60,
        num_winners: 1,
        id: id.map(|s| s.to_string()),
        protection: Some("ip".to_string()),
    }
}

fn poll(id: &str) -> Poll {
    Poll::new(Some(id.to_string()), "Session".to_string(), names(&["A", "B", "C"]), 60, 1, true, NOW)
        .unwrap()
}

fn here() -> VoterIp {
    VoterIp::v4(192, 168, 0, 1)
}

fn storage_down() -> ErrorKind {
    ErrorKind::Internal(InternalError::Database("connection refused".to_string()))
}

fn failure<T>(text: &str) -> Next<T> {
    Next::Answer(Response::Failure(text.to_string()))
}

#[test]
fn creating_with_an_identifier_looks_it_up_first() {
    let (session, next) = create_begin(request(Some("wanted")), NOW);
    assert_eq!(next, Next::Ask(Query::GetPoll("wanted".to_string())));
    assert_eq!(session, CreateSession::Lookup { request: request(Some("wanted")), now: NOW });

    let (session, next) = create_step(session, Outcome::Poll(Ok(None)));
    assert_eq!(next, Next::Ask(Query::AddPoll(poll("wanted"))));
    assert_eq!(session, CreateSession::Store { id: "wanted".to_string() });

    let (session, next) = create_step(session, Outcome::Written(Ok(())));
    assert_eq!(next, Next::Answer(Response::Success("wanted".to_string())));
    assert_eq!(session, CreateSession::Finished);
}

#[test]
fn creating_without_an_identifier_stores_at_once() {
    let (session, next) = create_begin(request(None), NOW);
    let id = match session {
        CreateSession::Store { ref id } => id.clone(),
        other => panic!("{:?}", other),
    };
    assert_eq!(id.chars().count(), 16);
    assert_eq!(next, Next::Ask(Query::AddPoll(poll(&id))));
    let (_, next) = create_step(session, Outcome::Written(Ok(())));
    assert_eq!(next, Next::Answer(Response::Success(id)));
}

#[test]
fn creating_a_poll_with_a_fault_asks_nothing() {
    let bad = CreateAPIRequestData { duration: 0, ..request(Some("wanted")) };
    let (session, next) = create_begin(bad, NOW);
    assert_eq!(next, failure("The duration must be a positive, nonzero number."));
    assert_eq!(session, CreateSession::Finished);
}

#[test]
fn creating_with_a_taken_identifier_is_refused() {
    let (session, _) = create_begin(request(Some("wanted")), NOW);
    let (session, next) = create_step(session, Outcome::Poll(Ok(Some(poll("wanted")))));
    assert_eq!(next, failure("A poll already exists with the ID 'wanted'."));
    assert_eq!(session, CreateSession::Finished);
}

#[test]
fn a_taken_identifier_counts_before_a_bad_protection() {
    let bad = CreateAPIRequestData { protection: Some("both".to_string()), ..request(Some("wanted")) };
    let (session, _) = create_begin(bad, NOW);
    let (_, next) = create_step(session, Outcome::Poll(Ok(Some(poll("wanted")))));
    assert_eq!(next, failure("A poll already exists with the ID 'wanted'."));

    let bad = CreateAPIRequestData { protection: Some("both".to_string()), ..request(Some("wanted")) };
    let (session, _) = create_begin(bad, NOW);
    let (_, next) = create_step(session, Outcome::Poll(Ok(None)));
    assert_eq!(next, failure("The protection must be either 'ip' or 'none'."));
}

#[test]
fn a_poll_that_would_end_after_the_last_second_is_an_internal_error() {
    let (session, next) = create_begin(request(None), u64::MAX - 59);
    assert_eq!(next, failure(APOLOGY));
    assert_eq!(session, CreateSession::Finished);
    let (session, _) = create_begin(request(None), u64::MAX - 60);
    assert!(matches!(session, CreateSession::Store { .. }));
}

#[test]
fn errors_of_the_storage_end_a_creation_with_an_apology() {
    let (session, _) = create_begin(request(Some("wanted")), NOW);
    let (session, next) = create_step(session, Outcome::Poll(Err(storage_down())));
    assert_eq!(next, failure(APOLOGY));
    assert_eq!(session, CreateSession::Finished);

    let (session, _) = create_begin(request(Some("wanted")), NOW);
    let (session, _) = create_step(session, Outcome::Poll(Ok(None)));
    let (session, next) = create_step(session, Outcome::Written(Err(storage_down())));
    assert_eq!(next, failure(APOLOGY));
    assert_eq!(session, CreateSession::Finished);
}

#[test]
fn an_outcome_that_answers_no_query_ends_the_session() {
    let (session, _) = create_begin(request(Some("wanted")), NOW);
    let (session, next) = create_step(session, Outcome::Written(Ok(())));
    assert_eq!(next, failure(APOLOGY));
    assert_eq!(session, CreateSession::Finished);
    let (_, next) = create_step(CreateSession::Finished, Outcome::Written(Ok(())));
    assert_eq!(next, failure(APOLOGY));
    let (_, next) = create_step(
        CreateSession::Store { id: "wanted".to_string() },
        Outcome::Poll(Ok(None)),
    );
    assert_eq!(next, failure(APOLOGY));

    let (session, next) = vote_step(VoteSession::Append, Outcome::Poll(Ok(None)));
    assert_eq!(next, failure(APOLOGY));
    assert_eq!(session, VoteSession::Finished);
    let (_, next) = vote_step(VoteSession::Finished, Outcome::Written(Ok(())));
    assert_eq!(next, failure(APOLOGY));

    let (session, next) = poll_info_step(InfoSession::Finished, Outcome::Poll(Ok(None)));
    assert_eq!(next, failure(APOLOGY));
    assert_eq!(session, InfoSession::Finished);
}

#[test]
fn voting_loads_the_poll_and_appends_the_ballot() {
    let ballot = VoteAPIRequestData { choices: names(&["B", "A"]) };
    let (session, next) = vote_begin("open".to_string(), ballot, Some(here()), NOW + 59);
    assert_eq!(next, Next::Ask(Query::GetPoll("open".to_string())));

    let (session, next) = vote_step(session, Outcome::Poll(Ok(Some(poll("open")))));
    let vote = RankedChoiceVote { ranked_choices: names(&["B", "A"]), voter_ip: here() };
    assert_eq!(next, Next::Ask(Query::AddVote("open".to_string(), vote)));
    assert_eq!(session, VoteSession::Append);

    let (session, next) = vote_step(session, Outcome::Written(Ok(())));
    assert_eq!(next, Next::Answer(Response::Success(())));
    assert_eq!(session, VoteSession::Finished);
}

#[test]
fn voting_without_an_address_asks_nothing() {
    let ballot = VoteAPIRequestData { choices: names(&["B", "A"]) };
    let (session, next) = vote_begin("open".to_string(), ballot, None, NOW);
    assert_eq!(next, failure("No IP address could be determined from the request."));
    assert_eq!(session, VoteSession::Finished);
}

#[test]
fn voting_in_a_poll_that_is_due_closes_it() {
    let mut due = poll("due");
    due.votes.push(RankedChoiceVote { ranked_choices: names(&["C"]), voter_ip: here() });
    let ballot = VoteAPIRequestData { choices: names(&["B", "A"]) };
    let (session, _) = vote_begin("due".to_string(), ballot, Some(here()), NOW + 60);
    let (session, next) = vote_step(session, Outcome::Poll(Ok(Some(due))));
    let winners = vec![RankedCandidate { candidate: "C".to_string(), rank: 0 }];
    assert_eq!(next, Next::Ask(Query::SetWinners("due".to_string(), winners)));
    assert_eq!(session, VoteSession::Close);
    let (session, next) = vote_step(session, Outcome::Written(Ok(())));
    assert_eq!(next, failure("This poll has ended and no longer accepts votes."));
    assert_eq!(session, VoteSession::Finished);
}

#[test]
fn voting_in_a_closed_poll_is_refused() {
    let mut closed = poll("closed");
    closed.finish().unwrap();
    let ballot = VoteAPIRequestData { choices: names(&["B", "A"]) };
    let (session, _) = vote_begin("closed".to_string(), ballot, Some(here()), NOW);
    let (session, next) = vote_step(session, Outcome::Poll(Ok(Some(closed))));
    assert_eq!(next, failure("This poll has ended and no longer accepts votes."));
    assert_eq!(session, VoteSession::Finished);
}

#[test]
fn the_address_is_checked_before_the_choices() {
    let mut voted = poll("voted");
    voted.votes.push(RankedChoiceVote { ranked_choices: names(&["C"]), voter_ip: here() });
    let ballot = VoteAPIRequestData { choices: names(&[]) };
    let (session, _) = vote_begin("voted".to_string(), ballot, Some(here()), NOW);
    let (_, next) = vote_step(session, Outcome::Poll(Ok(Some(voted.clone()))));
    assert_eq!(next, failure("You have already voted in this poll."));

    let ballot = VoteAPIRequestData { choices: names(&[]) };
    let (session, _) = vote_begin("voted".to_string(), ballot, Some(VoterIp::V6(1)), NOW);
    let (_, next) = vote_step(session, Outcome::Poll(Ok(Some(voted))));
    assert_eq!(next, failure("You must vote for between 1 and 3 candidates"));
}

#[test]
fn voting_fails_where_the_storage_fails() {
    let ballot = || VoteAPIRequestData { choices: names(&["A"]) };
    let (session, _) = vote_begin("open".to_string(), ballot(), Some(here()), NOW);
    let (_, next) = vote_step(session, Outcome::Poll(Err(storage_down())));
    assert_eq!(next, failure(APOLOGY));

    let (session, _) = vote_begin("open".to_string(), ballot(), Some(here()), NOW);
    let (_, next) = vote_step(session, Outcome::Poll(Ok(None)));
    assert_eq!(next, failure("No poll was found with the ID 'open'."));

    let (session, _) = vote_begin("open".to_string(), ballot(), Some(here()), NOW);
    let (session, _) = vote_step(session, Outcome::Poll(Ok(Some(poll("open")))));
    let (_, next) = vote_step(session, Outcome::Written(Err(storage_down())));
    assert_eq!(next, failure(APOLOGY));

    let (_, next) = vote_step(VoteSession::Close, Outcome::Written(Err(storage_down())));
    assert_eq!(next, failure(APOLOGY));
}

#[test]
fn a_poll_with_ballots_that_cannot_be_tallied_is_an_internal_error() {
    let mut broken = poll("broken");
    broken.votes.push(RankedChoiceVote { ranked_choices: names(&["nobody"]), voter_ip: here() });
    let (session, _) = poll_info_begin("broken".to_string(), NOW + 60);
    let (session, next) = poll_info_step(session, Outcome::Poll(Ok(Some(broken))));
    assert_eq!(next, failure(APOLOGY));
    assert_eq!(session, InfoSession::Finished);
}

fn info(ended: bool, winners: Option<Vec<String>>, num_votes: usize) -> PollInfo {
    PollInfo {
        name: "Session".to_string(),
        candidates: names(&["A", "B", "C"]),
        creation_time: NOW,
        ending_time: NOW + 60,
        num_winners: 1,
        protection: Some("ip".to_string()),
        num_votes,
        ended,
        winners,
    }
}

#[test]
fn reading_an_open_poll_tells_about_it_as_it_is() {
    let (session, next) = poll_info_begin("open".to_string(), NOW + 59);
    assert_eq!(next, Next::Ask(Query::GetPoll("open".to_string())));
    assert_eq!(session, InfoSession::Load { pollid: "open".to_string(), now: NOW + 59 });
    let (session, next) = poll_info_step(session, Outcome::Poll(Ok(Some(poll("open")))));
    assert_eq!(next, Next::Answer(Response::Success(info(false, None, 0))));
    assert_eq!(session, InfoSession::Finished);
}

#[test]
fn reading_a_poll_that_is_due_closes_it_first() {
    let mut due = poll("due");
    due.votes.push(RankedChoiceVote { ranked_choices: names(&["B"]), voter_ip: here() });
    let (session, _) = poll_info_begin("due".to_string(), NOW + 60);
    let (session, next) = poll_info_step(session, Outcome::Poll(Ok(Some(due.clone()))));
    let winners = vec![RankedCandidate { candidate: "B".to_string(), rank: 0 }];
    assert_eq!(next, Next::Ask(Query::SetWinners("due".to_string(), winners.clone())));
    let closed = Poll { winners: Some(winners), ..due };
    assert_eq!(session, InfoSession::Close { poll: closed });

    let (session, next) = poll_info_step(session, Outcome::Written(Ok(())));
    assert_eq!(next, Next::Answer(Response::Success(info(true, Some(names(&["B"])), 1))));
    assert_eq!(session, InfoSession::Finished);
}

#[test]
fn reading_fails_where_the_storage_fails() {
    let (session, _) = poll_info_begin("gone".to_string(), NOW);
    let (_, next) = poll_info_step(session, Outcome::Poll(Ok(None)));
    assert_eq!(next, failure("No poll was found with the ID 'gone'."));

    let (session, _) = poll_info_begin("gone".to_string(), NOW);
    let (_, next) = poll_info_step(session, Outcome::Poll(Err(storage_down())));
    assert_eq!(next, failure(APOLOGY));

    let (_, next) =
        poll_info_step(InfoSession::Close { poll: poll("due") }, Outcome::Written(Err(storage_down())));
    assert_eq!(next, failure(APOLOGY));
}

#[test]
fn a_poll_stands_as_read_until_it_is_due() {
    assert!(matches!(standing(poll("p"), NOW + 59), Standing::AsRead(p) if p == poll("p")));
    assert!(matches!(standing(poll("p"), NOW + 60), Standing::Closed(p, w) if p.winners.as_ref() == Some(&w)));
    let mut broken = poll("p");
    broken.votes.push(RankedChoiceVote { ranked_choices: names(&["A", "A"]), voter_ip: here() });
    assert!(matches!(standing(broken.clone(), NOW + 60), Standing::Failed(ErrorKind::Internal(_))));
    assert!(matches!(standing(broken, NOW), Standing::AsRead(_)));
}
