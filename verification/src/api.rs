//! BetterVote API endpoints: creating a poll, casting a ballot and reading a
//! poll, as functions from a request and the storage to a response.

use crate::ballot::{BallotView, VoterIp};
use crate::creation::{protection_of, request_fault, soundly_created, CreateAPIRequestData};
use crate::database::{conflicts, with_vote, with_winners, Database};
use crate::error::{id_taken_text, internal_error_text, no_such_poll_text, ErrorKind, VisibleError};
use crate::poll::{
    ballots_sound, closed, is_due, new_poll, rankings, tally_error,
    PollView,
};
use crate::response::{info_of, PollInfo, Response};
use crate::session::{
    create_begin, create_step, poll_info_begin, poll_info_step, vote_begin, vote_step, Next,
    Outcome, Query, QueryView,
};
use crate::text::{padded_hex, texts};
use crate::voting::{
    acceptable, ballot_refusal, lemma_accepted_ballot_is_sound, VoteAPIRequestData,
};
use vstd::pervasive::unreached;
use vstd::prelude::*;
use vstd::string::*;

verus! {

/// How a request is made.
#[derive(Debug, Clone, Copy, PartialEq, Eq, Structural)]
pub enum Method {
    Get,
    Post,
}

/// What a request asks for.
#[derive(Debug, Clone, Copy, PartialEq, Eq, Structural)]
pub enum Endpoint {
    /// Casting a ballot in a poll.
    Vote,
    /// Creating a poll.
    Create,
    /// Reading a poll.
    PollInfo,
}

/// A route: requests made in this way to this path ask for this.  In a path,
/// `<pollid>` stands for the identifier of a poll.
#[derive(Debug, PartialEq, Eq)]
pub struct Route {
    pub method: Method,
    pub path: String,
    pub endpoint: Endpoint,
}

/// Returns all the routes that should be made available
pub fn routes() -> (r: Vec<Route>)
    ensures
        r@.len() == 3,
        r@[0].method == Method::Post && r@[0].path@ == "/poll/<pollid>/vote"@ && r@[0].endpoint
            == Endpoint::Vote,
        r@[1].method == Method::Post && r@[1].path@ == "/create"@ && r@[1].endpoint
            == Endpoint::Create,
        r@[2].method == Method::Get && r@[2].path@ == "/poll/<pollid>"@ && r@[2].endpoint
            == Endpoint::PollInfo,
{
    let mut r: Vec<Route> = Vec::new();
    r.push(
        Route {
            method: Method::Post,
            path: String::from_str("/poll/<pollid>/vote"),
            endpoint: Endpoint::Vote,
        },
    );
    r.push(
        Route { method: Method::Post, path: String::from_str("/create"), endpoint: Endpoint::Create },
    );
    r.push(
        Route {
            method: Method::Get,
            path: String::from_str("/poll/<pollid>"),
            endpoint: Endpoint::PollInfo,
        },
    );
    r
}

/// What it means that a query was put to a storage that held the polls
/// `before` and holds the polls `after`, with this outcome.  A query that
/// fails leaves the polls as they were, and a storage that is dependable
/// lets a query fail only where it cannot be done.
pub open spec fn performed(
    before: Map<Seq<char>, PollView>,
    dependable: bool,
    query: QueryView,
    outcome: Outcome,
    after: Map<Seq<char>, PollView>,
) -> bool {
    match query {
        QueryView::GetPoll(id) => {
            &&& after == before
            &&& outcome matches Outcome::Poll(r)
            &&& match r {
                Ok(Some(poll)) => before.contains_key(id) && poll@ == before[id],
                Ok(None) => !before.contains_key(id),
                Err(e) => e is Internal && !dependable,
            }
        },
        QueryView::AddPoll(poll) => {
            &&& outcome matches Outcome::Written(r)
            &&& dependable && !before.contains_key(poll.id) ==> r is Ok
            &&& match r {
                Ok(_) => !before.contains_key(poll.id) && after == before.insert(poll.id, poll),
                Err(e) => e is Internal && after == before,
            }
        },
        QueryView::AddVote(id, vote) => {
            &&& outcome matches Outcome::Written(r)
            &&& dependable && before.contains_key(id) && !conflicts(before[id], vote) ==> r is Ok
            &&& match r {
                Ok(_) => {
                    &&& before.contains_key(id)
                    &&& !conflicts(before[id], vote)
                    &&& after == before.insert(id, with_vote(before[id], vote))
                },
                Err(e) => {
                    &&& after == before
                    &&& e is Internal || {
                        &&& e == ErrorKind::PubliclyVisible(VisibleError::DuplicateVote)
                        &&& before.contains_key(id)
                        &&& conflicts(before[id], vote)
                    }
                },
            }
        },
        QueryView::SetWinners(id, winners) => {
            &&& outcome matches Outcome::Written(r)
            &&& dependable && before.contains_key(id) ==> r is Ok
            &&& match r {
                Ok(_) => before.contains_key(id) && after == before.insert(
                    id,
                    with_winners(before[id], winners),
                ),
                Err(e) => e is Internal && after == before,
            }
        },
    }
}

/// Puts a query to a storage.
pub fn perform<D: Database>(db: &mut D, query: Query) -> (outcome: Outcome)
    ensures
        performed(old(db).polls(), old(db).dependable(), query@, outcome, final(db).polls()),
        final(db).dependable() == old(db).dependable(),
{
    match query {
        Query::GetPoll(id) => Outcome::Poll(db.get_poll_by_id(&id)),
        Query::AddPoll(poll) => Outcome::Written(db.add_poll(&poll)),
        Query::AddVote(id, vote) => Outcome::Written(db.add_vote_to_poll(&id, &vote)),
        Query::SetWinners(id, winners) => Outcome::Written(db.set_poll_winners(&id, &winners)),
    }
}

/// The poll `after` is what can have become of the poll `before`: ballots
/// may have come at the end while it was open, and it may have been closed;
/// nothing else of it has changed, and a poll that was closed is as it was.
pub open spec fn poll_evolved(before: PollView, after: PollView) -> bool {
    &&& after.id == before.id
    &&& after.title == before.title
    &&& after.candidates == before.candidates
    &&& after.creation_time == before.creation_time
    &&& after.end_time == before.end_time
    &&& after.num_winners == before.num_winners
    &&& after.method == before.method
    &&& after.prohibit_double_vote_by_ip == before.prohibit_double_vote_by_ip
    &&& before.votes.len() <= after.votes.len()
    &&& after.votes.take(before.votes.len() as int) == before.votes
    &&& before.winners is Some ==> after == before
}

/// The polls `after` are what can have become of the polls `before`: no
/// poll is gone, and every poll is what can have become of it.
pub open spec fn evolved(before: Map<Seq<char>, PollView>, after: Map<Seq<char>, PollView>) -> bool {
    forall|id: Seq<char>| #[trigger]
        before.contains_key(id) ==> after.contains_key(id) && poll_evolved(before[id], after[id])
}

/// The ballots of all the polls are in order.
pub open spec fn all_sound(polls: Map<Seq<char>, PollView>) -> bool {
    forall|id: Seq<char>| polls.contains_key(id) ==> ballots_sound(#[trigger] polls[id])
}

/// Nothing need have become of the polls.
pub proof fn lemma_evolved_same(polls: Map<Seq<char>, PollView>)
    ensures
        evolved(polls, polls),
{
    assert forall|id: Seq<char>| #[trigger] polls.contains_key(id) implies poll_evolved(
        polls[id],
        polls[id],
    ) by {
        assert(polls[id].votes.take(polls[id].votes.len() as int) == polls[id].votes);
    }
}

/// An open poll with one more ballot is what can have become of it.
pub proof fn lemma_ballot_evolves(poll: PollView, vote: BallotView)
    requires
        poll.winners is None,
    ensures
        poll_evolved(poll, with_vote(poll, vote)),
{
    assert(with_vote(poll, vote).votes.take(poll.votes.len() as int) == poll.votes);
}

/// Creates a poll and stores it.
///
/// A request with a fault of its own is refused with the text of that
/// fault, and the storage is not touched.  Success means that the poll is
/// in the storage under an identifier that was free, as the request asked
/// for it.  Whatever the storage does, any other outcome is a failure whose
/// text is that of the taken identifier, of the bad protection, or the
/// apology for an internal error.
pub fn create<D: Database>(db: &mut D, request: CreateAPIRequestData, now: u64) -> (r: Response<
    String,
>)
    ensures
        request_fault(request@) matches Some(e) ==> {
            &&& r matches Response::Failure(text)
            &&& text@ == e.text()
            &&& final(db).polls() == old(db).polls()
        },
        r matches Response::Success(id) ==> {
            &&& request_fault(request@) is None
            &&& protection_of(request@.protection) is Some
            &&& !old(db).polls().contains_key(id@)
            &&& final(db).polls() == old(db).polls().insert(
                id@,
                new_poll(
                    id@,
                    request@.name,
                    request@.candidates,
                    request@.duration as u64,
                    request@.num_winners as usize,
                    protection_of(request@.protection)->0,
                    now,
                ),
            )
            &&& soundly_created(final(db).polls()[id@], request@.duration as int)
            &&& match request@.id {
                Some(given) => id@ == given,
                None => exists|seed: u64| id@ == padded_hex(seed),
            }
        },
        r matches Response::Failure(text) ==> final(db).polls() == old(db).polls(),
        r matches Response::Failure(text) ==> request_fault(request@) is None ==> {
            if request@.id is Some && old(db).polls().contains_key(request@.id->0) {
                text@ == internal_error_text() || text@ == id_taken_text(request@.id->0)
            } else if protection_of(request@.protection) is None {
                text@ == internal_error_text() || text@ == VisibleError::Protection.text()
            } else {
                text@ == internal_error_text()
            }
        },
        old(db).dependable() && request_fault(request@) is None && protection_of(
            request@.protection,
        ) is Some && now + request@.duration <= u64::MAX ==> match request@.id {
            Some(given) => r is Success <==> !old(db).polls().contains_key(given),
            None => r is Success || exists|seed: u64| #[trigger]
                old(db).polls().contains_key(padded_hex(seed)),
        },
        all_sound(old(db).polls()) ==> all_sound(final(db).polls()),
        evolved(old(db).polls(), final(db).polls()),
        final(db).dependable() == old(db).dependable(),
{
    let ghost before = db.polls();
    let (session, next) = create_begin(request, now);
    let r = match next {
        Next::Answer(r) => r,
        Next::Ask(query) => {
            let outcome = perform(db, query);
            let (session, next) = create_step(session, outcome);
            match next {
                Next::Answer(r) => r,
                Next::Ask(query) => {
                    let outcome = perform(db, query);
                    let (session, next) = create_step(session, outcome);
                    match next {
                        Next::Answer(r) => r,
                        Next::Ask(_) => unreached(),
                    }
                },
            }
        },
    };
    proof {
        lemma_evolved_same(before);
    }
    r
}

/// Casts a ballot in a poll.
///
/// Without an address the request is refused and the storage is not
/// touched.  Success means that the ballot could be accepted in the poll as
/// it was in the storage, and is now the last of its ballots.  Whatever the
/// storage does, any other outcome is a failure: its text is that of the
/// error that the ballot is refused with, or says that there is no such
/// poll, or is the apology for an internal error.
pub fn vote<D: Database>(
    db: &mut D,
    pollid: String,
    request: VoteAPIRequestData,
    remote_addr: Option<VoterIp>,
    now: u64,
) -> (r: Response<()>)
    ensures
        remote_addr is None ==> {
            &&& r matches Response::Failure(text)
            &&& text@ == VisibleError::NoVoterAddress.text()
            &&& final(db).polls() == old(db).polls()
        },
        r is Success ==> {
            &&& remote_addr matches Some(voter)
            &&& old(db).polls().contains_key(pollid@)
            &&& acceptable(old(db).polls()[pollid@], texts(request.choices@), voter, now)
            &&& final(db).polls() == old(db).polls().insert(
                pollid@,
                with_vote(
                    old(db).polls()[pollid@],
                    BallotView { choices: texts(request.choices@), voter },
                ),
            )
        },
        r matches Response::Failure(text) ==> {
            ||| final(db).polls() == old(db).polls()
            ||| {
                &&& old(db).polls().contains_key(pollid@)
                &&& is_due(old(db).polls()[pollid@], now)
                &&& final(db).polls() == old(db).polls().insert(
                    pollid@,
                    closed(old(db).polls()[pollid@]),
                )
            }
        },
        r matches Response::Failure(text) ==> remote_addr is Some ==> {
            if !old(db).polls().contains_key(pollid@) {
                text@ == internal_error_text() || text@ == no_such_poll_text(pollid@)
            } else {
                ||| text@ == internal_error_text()
                ||| exists|e: VisibleError|
                    {
                        &&& #[trigger] ballot_refusal(
                            old(db).polls()[pollid@],
                            texts(request.choices@),
                            remote_addr->0,
                            now,
                            e,
                        )
                        &&& !acceptable(
                            old(db).polls()[pollid@],
                            texts(request.choices@),
                            remote_addr->0,
                            now,
                        )
                        &&& text@ == e.text()
                    }
            }
        },
        old(db).dependable() ==> (r is Success <==> remote_addr is Some && old(
            db,
        ).polls().contains_key(pollid@) && acceptable(
            old(db).polls()[pollid@],
            texts(request.choices@),
            remote_addr->0,
            now,
        )),
        all_sound(old(db).polls()) ==> all_sound(final(db).polls()),
        evolved(old(db).polls(), final(db).polls()),
        final(db).dependable() == old(db).dependable(),
{
    let ghost before = db.polls();
    proof {
        if remote_addr is Some && before.contains_key(pollid@) {
            let poll = before[pollid@];
            let choices = texts(request.choices@);
            let voter = remote_addr->0;
            if is_due(poll, now) {
                assert(ballot_refusal(poll, choices, voter, now, VisibleError::PollClosed));
            }
            if poll.winners is None {
                lemma_ballot_evolves(poll, BallotView { choices, voter });
            }
            if all_sound(before) && acceptable(poll, choices, voter, now) {
                lemma_accepted_ballot_is_sound(poll, choices, voter, now);
            }
        }
    }
    let (session, next) = vote_begin(pollid, request, remote_addr, now);
    let r = match next {
        Next::Answer(r) => r,
        Next::Ask(query) => {
            let outcome = perform(db, query);
            let (session, next) = vote_step(session, outcome);
            match next {
                Next::Answer(r) => r,
                Next::Ask(query) => {
                    let outcome = perform(db, query);
                    let (session, next) = vote_step(session, outcome);
                    match next {
                        Next::Answer(r) => r,
                        Next::Ask(_) => unreached(),
                    }
                },
            }
        },
    };
    proof {
        lemma_evolved_same(before);
    }
    r
}

/// Reads a poll.
///
/// Success means that a poll has this identifier, and tells about it as it
/// stands at the second `now`: a poll that is due has been closed, and its
/// winners are in the storage.  A failure says that there is no such poll,
/// or is the apology for an internal error.
pub fn poll_info<D: Database>(db: &mut D, pollid: String, now: u64) -> (r: Response<PollInfo>)
    ensures
        r matches Response::Success(info) ==> {
            &&& old(db).polls().contains_key(pollid@)
            &&& if is_due(old(db).polls()[pollid@], now) {
                &&& info@ == info_of(closed(old(db).polls()[pollid@]))
                &&& final(db).polls() == old(db).polls().insert(
                    pollid@,
                    closed(old(db).polls()[pollid@]),
                )
            } else {
                &&& info@ == info_of(old(db).polls()[pollid@])
                &&& final(db).polls() == old(db).polls()
            }
        },
        r matches Response::Failure(text) ==> {
            &&& final(db).polls() == old(db).polls()
            &&& if !old(db).polls().contains_key(pollid@) {
                text@ == internal_error_text() || text@ == no_such_poll_text(pollid@)
            } else {
                text@ == internal_error_text()
            }
        },
        old(db).dependable() ==> (r is Success <==> old(db).polls().contains_key(pollid@) && (
        is_due(old(db).polls()[pollid@], now) ==> tally_error(
            old(db).polls()[pollid@].candidates,
            rankings(old(db).polls()[pollid@].votes),
        ) is None)),
        all_sound(old(db).polls()) ==> all_sound(final(db).polls()),
        evolved(old(db).polls(), final(db).polls()),
        final(db).dependable() == old(db).dependable(),
{
    let ghost before = db.polls();
    let (session, next) = poll_info_begin(pollid, now);
    let r = match next {
        Next::Answer(r) => r,
        Next::Ask(query) => {
            let outcome = perform(db, query);
            let (session, next) = poll_info_step(session, outcome);
            match next {
                Next::Answer(r) => r,
                Next::Ask(query) => {
                    let outcome = perform(db, query);
                    let (session, next) = poll_info_step(session, outcome);
                    match next {
                        Next::Answer(r) => r,
                        Next::Ask(_) => unreached(),
                    }
                },
            }
        },
    };
    proof {
        lemma_evolved_same(before);
    }
    r
}

} // verus!
