//! Requests as conversations with the storage.
//!
//! The storage may be anything that can hold polls; reaching it may take
//! time.  So a request is answered step by step: the engine says what it
//! wants of the storage, the host does that and says how it went, and the
//! engine decides on the next step, until the request is answered.  Every
//! decision is made here; the host only carries queries and outcomes.

use crate::ballot::{BallotView, RankedChoiceVote, VoterIp};
use crate::creation::{
    check_request, draft_outcome, draft_poll, request_fault, CreateAPIRequestData,
    CreateRequestView,
};
use crate::error::{internal_error_text, no_such_poll_text, ErrorKind, VisibleError};
use crate::poll::{closed, is_due, rankings, schulze_ranking, tally_error, Poll, PollView};
use crate::response::{describe, handle_error, info_of, PollInfo, Response};
use crate::tally::fill::{ranked_view, Ranked, RankedCandidate};
use crate::text::texts;
use crate::voting::{acceptable, ballot_refusal, judge_ballot, VoteAPIRequestData};
use vstd::prelude::*;
use vstd::string::*;

verus! {

/// What the engine wants of the storage.
#[derive(Debug, PartialEq)]
pub enum Query {
    /// The poll with this identifier, if there is one.
    GetPoll(String),
    /// That this new poll be stored; it fails if its identifier is taken.
    AddPoll(Poll),
    /// That this ballot be appended to the ballots of the poll with this
    /// identifier.
    AddVote(String, RankedChoiceVote),
    /// That these winners be written for the poll with this identifier,
    /// unless it has winners already.
    SetWinners(String, Vec<RankedCandidate>),
}

/// A query as a mathematical value.
pub enum QueryView {
    GetPoll(Seq<char>),
    AddPoll(PollView),
    AddVote(Seq<char>, BallotView),
    SetWinners(Seq<char>, Ranked),
}

impl View for Query {
    type V = QueryView;

    open spec fn view(&self) -> QueryView {
        match self {
            Query::GetPoll(id) => QueryView::GetPoll(id@),
            Query::AddPoll(poll) => QueryView::AddPoll(poll@),
            Query::AddVote(id, vote) => QueryView::AddVote(id@, vote@),
            Query::SetWinners(id, winners) => QueryView::SetWinners(id@, ranked_view(winners@)),
        }
    }
}

/// How a query went.
#[derive(Debug, PartialEq)]
pub enum Outcome {
    /// What the storage said to `GetPoll`.
    Poll(Result<Option<Poll>, ErrorKind>),
    /// What the storage said to any other query.
    Written(Result<(), ErrorKind>),
}

/// What comes next in a conversation.
#[derive(Debug, PartialEq)]
pub enum Next<T> {
    /// The host is to put this query to the storage and to take the next
    /// step with the outcome.
    Ask(Query),
    /// The request is answered.
    Answer(Response<T>),
}

/// The next thing is this query.
pub open spec fn asks<T>(next: Next<T>, query: QueryView) -> bool {
    next matches Next::Ask(q) && q@ == query
}

/// The next thing is the answer that the request failed, with this text.
pub open spec fn fails<T>(next: Next<T>, text: Seq<char>) -> bool {
    next matches Next::Answer(Response::Failure(t)) && t@ == text
}

/// Where the creation of a poll stands.
#[derive(Debug, PartialEq)]
pub enum CreateSession {
    /// The storage is being asked whether the identifier wanted is taken.
    Lookup { request: CreateAPIRequestData, now: u64 },
    /// The storage is being asked to store the poll with this identifier.
    Store { id: String },
    /// The request is answered.
    Finished,
}

/// What follows once it is known whether the identifier wanted is taken:
/// the poll is drafted; a draft goes to the storage, an error is answered.
pub open spec fn drafted(
    request: CreateRequestView,
    taken: bool,
    now: u64,
    session: CreateSession,
    next: Next<String>,
) -> bool {
    exists|r: Result<Poll, ErrorKind>| #[trigger]
        draft_outcome(request, taken, now, r) && match r {
            Ok(poll) => {
                &&& asks(next, QueryView::AddPoll(poll@))
                &&& session matches CreateSession::Store { id }
                &&& id@ == poll@.id
            },
            Err(e) => fails(next, e.text()) && session is Finished,
        }
}

/// Drafts the poll and says what follows.
fn draft_step(request: CreateAPIRequestData, taken: bool, now: u64) -> (r: (
    CreateSession,
    Next<String>,
))
    ensures
        drafted(request@, taken, now, r.0, r.1),
{
    let ghost asked = request@;
    let draft = draft_poll(request, taken, now);
    match draft {
        Ok(poll) => {
            let id = poll.id.clone();
            (CreateSession::Store { id }, Next::Ask(Query::AddPoll(poll)))
        },
        Err(e) => (CreateSession::Finished, Next::Answer(handle_error(e))),
    }
}

/// Begins the creation of a poll at the second `now`.  A request with a
/// fault of its own is refused at once.  Where an identifier is wanted, the
/// storage is asked for the poll that has it; where none is, the poll is
/// drafted.
pub fn create_begin(request: CreateAPIRequestData, now: u64) -> (r: (CreateSession, Next<String>))
    ensures
        match request_fault(request@) {
            Some(e) => fails(r.1, e.text()) && r.0 is Finished,
            None => match request@.id {
                Some(id) => {
                    &&& asks(r.1, QueryView::GetPoll(id))
                    &&& r.0 matches CreateSession::Lookup { request: kept, now: then }
                    &&& kept@ == request@
                    &&& then == now
                },
                None => drafted(request@, false, now, r.0, r.1),
            },
        },
{
    match check_request(&request) {
        Err(e) => {
            return (CreateSession::Finished, Next::Answer(Response::Failure(e.message())));
        },
        Ok(_) => {},
    }
    match &request.id {
        Some(id) => {
            let query = Query::GetPoll(id.clone());
            (CreateSession::Lookup { request, now }, Next::Ask(query))
        },
        None => draft_step(request, false, now),
    }
}

/// Takes the creation of a poll one step further with what the storage
/// said.  An error of the storage is answered as such.  Once it is known
/// whether the identifier is taken, the poll is drafted; once the poll is
/// stored, its identifier is the answer.  An outcome that answers no query
/// of this session ends it with an internal error.
pub fn create_step(session: CreateSession, outcome: Outcome) -> (r: (CreateSession, Next<String>))
    ensures
        match (session, outcome) {
            (CreateSession::Lookup { request, now }, Outcome::Poll(Ok(found))) => drafted(
                request@,
                found is Some,
                now,
                r.0,
                r.1,
            ),
            (CreateSession::Lookup { request, now }, Outcome::Poll(Err(e))) => fails(r.1, e.text())
                && r.0 is Finished,
            (CreateSession::Store { id }, Outcome::Written(Ok(_))) => {
                &&& r.1 matches Next::Answer(Response::Success(stored))
                &&& stored@ == id@
                &&& r.0 is Finished
            },
            (CreateSession::Store { id }, Outcome::Written(Err(e))) => fails(r.1, e.text()) && r.0
                is Finished,
            _ => fails(r.1, internal_error_text()) && r.0 is Finished,
        },
{
    match (session, outcome) {
        (CreateSession::Lookup { request, now }, Outcome::Poll(Ok(found))) => draft_step(
            request,
            found.is_some(),
            now,
        ),
        (CreateSession::Lookup { request, now }, Outcome::Poll(Err(e))) => (
            CreateSession::Finished,
            Next::Answer(handle_error(e)),
        ),
        (CreateSession::Store { id }, Outcome::Written(Ok(_))) => (
            CreateSession::Finished,
            Next::Answer(Response::Success(id)),
        ),
        (CreateSession::Store { id }, Outcome::Written(Err(e))) => (
            CreateSession::Finished,
            Next::Answer(handle_error(e)),
        ),
        _ => (CreateSession::Finished, Next::Answer(unexpected())),
    }
}

/// The answer to an outcome that answers no query of the session.
fn unexpected<T>() -> (r: Response<T>)
    ensures
        r matches Response::Failure(text) && text@ == internal_error_text(),
{
    Response::Failure(
        String::from_str(
            "Sorry, an internal server error occured. The server's administrators have been notified.",
        ),
    )
}

/// A poll that was read, as it stands at the second `now`.
pub enum Standing {
    /// The poll is not due: it stands as it was read.
    AsRead(Poll),
    /// The poll was due and has been closed; its winners are to be written.
    Closed(Poll, Vec<RankedCandidate>),
    /// The poll is due, and its ballots cannot be tallied.
    Failed(ErrorKind),
}

/// How a poll that was read stands at the second `now`: a poll that is due
/// is closed.
pub fn standing(poll: Poll, now: u64) -> (s: Standing)
    ensures
        if !is_due(poll@, now) {
            s matches Standing::AsRead(same) && same@ == poll@
        } else {
            match tally_error(poll@.candidates, rankings(poll@.votes)) {
                Some(fault) => s matches Standing::Failed(e) && e.text() == internal_error_text(),
                None => {
                    &&& s matches Standing::Closed(after, winners)
                    &&& after@ == closed(poll@)
                    &&& ranked_view(winners@) == schulze_ranking(
                        poll@.candidates,
                        rankings(poll@.votes),
                        poll@.num_winners,
                    )
                },
            }
        },
{
    let mut poll = poll;
    match poll.close_if_due(now) {
        Ok(true) => {
            let winners = match &poll.winners {
                Some(winners) => {
                    let copied = winners.clone();
                    copied
                },
                None => Vec::new(),
            };
            Standing::Closed(poll, winners)
        },
        Ok(false) => Standing::AsRead(poll),
        Err(e) => Standing::Failed(e),
    }
}

/// Where the casting of a ballot stands.
#[derive(Debug, PartialEq)]
pub enum VoteSession {
    /// The storage is being asked for the poll.
    Load { pollid: String, choices: Vec<String>, voter: VoterIp, now: u64 },
    /// The poll was due and has been closed; the storage is being asked to
    /// write its winners.
    Close,
    /// The storage is being asked to append the ballot.
    Append,
    /// The request is answered.
    Finished,
}

/// Begins the casting of a ballot at the second `now`.  Without an address
/// the request is refused at once; else the storage is asked for the poll.
pub fn vote_begin(
    pollid: String,
    request: VoteAPIRequestData,
    remote_addr: Option<VoterIp>,
    now: u64,
) -> (r: (VoteSession, Next<()>))
    ensures
        match remote_addr {
            None => fails(r.1, VisibleError::NoVoterAddress.text()) && r.0 is Finished,
            Some(address) => {
                &&& asks(r.1, QueryView::GetPoll(pollid@))
                &&& r.0 matches VoteSession::Load { pollid: id, choices, voter, now: then }
                &&& id@ == pollid@
                &&& texts(choices@) == texts(request.choices@)
                &&& voter == address
                &&& then == now
            },
        },
{
    match remote_addr {
        None => (
            VoteSession::Finished,
            Next::Answer(Response::Failure(VisibleError::NoVoterAddress.message())),
        ),
        Some(voter) => {
            let query = Query::GetPoll(pollid.clone());
            (VoteSession::Load { pollid, choices: request.choices, voter, now }, Next::Ask(query))
        },
    }
}

/// What follows once the poll has been read: a poll that is due is closed,
/// and its winners go to the storage; in a poll that is not due, a ballot
/// that can be accepted goes to the storage, and any other is refused.
pub open spec fn ballot_judged(
    poll: PollView,
    pollid: Seq<char>,
    choices: Seq<Seq<char>>,
    voter: VoterIp,
    now: u64,
    session: VoteSession,
    next: Next<()>,
) -> bool {
    if is_due(poll, now) {
        match tally_error(poll.candidates, rankings(poll.votes)) {
            Some(fault) => fails(next, internal_error_text()) && session is Finished,
            None => {
                &&& asks(
                    next,
                    QueryView::SetWinners(
                        pollid,
                        schulze_ranking(poll.candidates, rankings(poll.votes), poll.num_winners),
                    ),
                )
                &&& session is Close
            },
        }
    } else if acceptable(poll, choices, voter, now) {
        &&& asks(next, QueryView::AddVote(pollid, BallotView { choices, voter }))
        &&& session is Append
    } else {
        &&& session is Finished
        &&& exists|e: VisibleError| #[trigger]
            ballot_refusal(poll, choices, voter, now, e) && fails(next, e.text())
    }
}

/// Takes the casting of a ballot one step further with what the storage
/// said.  An error of the storage is answered as such, and a poll that is
/// missing too.  Once the winners of a poll that was due are written, the
/// ballot is refused because the poll is closed; once the ballot is
/// appended, the request has succeeded.  An outcome that answers no query of
/// this session ends it with an internal error.
pub fn vote_step(session: VoteSession, outcome: Outcome) -> (r: (VoteSession, Next<()>))
    ensures
        match (session, outcome) {
            (
                VoteSession::Load { pollid, choices, voter, now },
                Outcome::Poll(Ok(Some(poll))),
            ) => ballot_judged(poll@, pollid@, texts(choices@), voter, now, r.0, r.1),
            (VoteSession::Load { pollid, choices, voter, now }, Outcome::Poll(Ok(None))) => fails(
                r.1,
                no_such_poll_text(pollid@),
            ) && r.0 is Finished,
            (VoteSession::Load { pollid, choices, voter, now }, Outcome::Poll(Err(e))) => fails(
                r.1,
                e.text(),
            ) && r.0 is Finished,
            (VoteSession::Close, Outcome::Written(Ok(_))) => fails(
                r.1,
                VisibleError::PollClosed.text(),
            ) && r.0 is Finished,
            (VoteSession::Close, Outcome::Written(Err(e))) => fails(r.1, e.text()) && r.0
                is Finished,
            (VoteSession::Append, Outcome::Written(Ok(_))) => r.1 == Next::Answer(
                Response::Success(()),
            ) && r.0 is Finished,
            (VoteSession::Append, Outcome::Written(Err(e))) => fails(r.1, e.text()) && r.0
                is Finished,
            _ => fails(r.1, internal_error_text()) && r.0 is Finished,
        },
{
    match (session, outcome) {
        (VoteSession::Load { pollid, choices, voter, now }, Outcome::Poll(Ok(Some(poll)))) => {
            match standing(poll, now) {
                Standing::Closed(_, winners) => (
                    VoteSession::Close,
                    Next::Ask(Query::SetWinners(pollid, winners)),
                ),
                Standing::Failed(e) => (VoteSession::Finished, Next::Answer(handle_error(e))),
                Standing::AsRead(poll) => match judge_ballot(&poll, choices, voter, now) {
                    Ok(vote) => (VoteSession::Append, Next::Ask(Query::AddVote(pollid, vote))),
                    Err(e) => {
                        (VoteSession::Finished, Next::Answer(Response::Failure(e.message())))
                    },
                },
            }
        },
        (VoteSession::Load { pollid, choices, voter, now }, Outcome::Poll(Ok(None))) => {
            let e = VisibleError::PollDoesNotExist(pollid);
            (VoteSession::Finished, Next::Answer(Response::Failure(e.message())))
        },
        (VoteSession::Load { pollid, choices, voter, now }, Outcome::Poll(Err(e))) => (
            VoteSession::Finished,
            Next::Answer(handle_error(e)),
        ),
        (VoteSession::Close, Outcome::Written(Ok(_))) => (
            VoteSession::Finished,
            Next::Answer(Response::Failure(VisibleError::PollClosed.message())),
        ),
        (VoteSession::Close, Outcome::Written(Err(e))) => (
            VoteSession::Finished,
            Next::Answer(handle_error(e)),
        ),
        (VoteSession::Append, Outcome::Written(Ok(_))) => (
            VoteSession::Finished,
            Next::Answer(Response::Success(())),
        ),
        (VoteSession::Append, Outcome::Written(Err(e))) => (
            VoteSession::Finished,
            Next::Answer(handle_error(e)),
        ),
        _ => (VoteSession::Finished, Next::Answer(unexpected())),
    }
}

/// Where the reading of a poll stands.
#[derive(Debug, PartialEq)]
pub enum InfoSession {
    /// The storage is being asked for the poll.
    Load { pollid: String, now: u64 },
    /// The poll was due and has been closed, as it is kept here; the storage
    /// is being asked to write its winners.
    Close { poll: Poll },
    /// The request is answered.
    Finished,
}

/// Begins the reading of a poll at the second `now`: the storage is asked
/// for the poll.
pub fn poll_info_begin(pollid: String, now: u64) -> (r: (InfoSession, Next<PollInfo>))
    ensures
        asks(r.1, QueryView::GetPoll(pollid@)),
        r.0 matches InfoSession::Load { pollid: id, now: then } && id@ == pollid@ && then == now,
{
    let query = Query::GetPoll(pollid.clone());
    (InfoSession::Load { pollid, now }, Next::Ask(query))
}

/// What follows once the poll has been read: a poll that is due is closed,
/// and its winners go to the storage; a poll that is not due is told about
/// as it was read.
pub open spec fn poll_told(
    poll: PollView,
    pollid: Seq<char>,
    now: u64,
    session: InfoSession,
    next: Next<PollInfo>,
) -> bool {
    if is_due(poll, now) {
        match tally_error(poll.candidates, rankings(poll.votes)) {
            Some(fault) => fails(next, internal_error_text()) && session is Finished,
            None => {
                &&& asks(
                    next,
                    QueryView::SetWinners(
                        pollid,
                        schulze_ranking(poll.candidates, rankings(poll.votes), poll.num_winners),
                    ),
                )
                &&& session matches InfoSession::Close { poll: kept }
                &&& kept@ == closed(poll)
            },
        }
    } else {
        &&& next matches Next::Answer(Response::Success(info))
        &&& info@ == info_of(poll)
        &&& session is Finished
    }
}

/// Takes the reading of a poll one step further with what the storage
/// said.  An error of the storage is answered as such, and a poll that is
/// missing too.  Once the winners of a poll that was due are written, the
/// poll is told about as closed.  An outcome that answers no query of this
/// session ends it with an internal error.
pub fn poll_info_step(session: InfoSession, outcome: Outcome) -> (r: (InfoSession, Next<PollInfo>))
    ensures
        match (session, outcome) {
            (InfoSession::Load { pollid, now }, Outcome::Poll(Ok(Some(poll)))) => poll_told(
                poll@,
                pollid@,
                now,
                r.0,
                r.1,
            ),
            (InfoSession::Load { pollid, now }, Outcome::Poll(Ok(None))) => fails(
                r.1,
                no_such_poll_text(pollid@),
            ) && r.0 is Finished,
            (InfoSession::Load { pollid, now }, Outcome::Poll(Err(e))) => fails(r.1, e.text())
                && r.0 is Finished,
            (InfoSession::Close { poll }, Outcome::Written(Ok(_))) => {
                &&& r.1 matches Next::Answer(Response::Success(info))
                &&& info@ == info_of(poll@)
                &&& r.0 is Finished
            },
            (InfoSession::Close { poll }, Outcome::Written(Err(e))) => fails(r.1, e.text()) && r.0
                is Finished,
            _ => fails(r.1, internal_error_text()) && r.0 is Finished,
        },
{
    match (session, outcome) {
        (InfoSession::Load { pollid, now }, Outcome::Poll(Ok(Some(poll)))) => {
            match standing(poll, now) {
                Standing::Closed(poll, winners) => (
                    InfoSession::Close { poll },
                    Next::Ask(Query::SetWinners(pollid, winners)),
                ),
                Standing::Failed(e) => (InfoSession::Finished, Next::Answer(handle_error(e))),
                Standing::AsRead(poll) => (
                    InfoSession::Finished,
                    Next::Answer(Response::Success(describe(&poll))),
                ),
            }
        },
        (InfoSession::Load { pollid, now }, Outcome::Poll(Ok(None))) => {
            let e = VisibleError::PollDoesNotExist(pollid);
            (InfoSession::Finished, Next::Answer(Response::Failure(e.message())))
        },
        (InfoSession::Load { pollid, now }, Outcome::Poll(Err(e))) => (
            InfoSession::Finished,
            Next::Answer(handle_error(e)),
        ),
        (InfoSession::Close { poll }, Outcome::Written(Ok(_))) => (
            InfoSession::Finished,
            Next::Answer(Response::Success(describe(&poll))),
        ),
        (InfoSession::Close { poll }, Outcome::Written(Err(e))) => (
            InfoSession::Finished,
            Next::Answer(handle_error(e)),
        ),
        _ => (InfoSession::Finished, Next::Answer(unexpected())),
    }
}

} // verus!
