//! Casting a ballot: the request, and when a ballot is accepted in a poll.

use crate::ballot::{ballot_rejection, ballot_valid, BallotView, RankedChoiceVote, VoterIp};
use crate::database::with_vote;
use crate::error::VisibleError;
use crate::poll::{ballots_sound, has_voted, Poll, PollView};
use crate::text::texts;
use vstd::prelude::*;

verus! {

/// A request to cast a ballot.
#[derive(Debug, PartialEq, Eq)]
pub struct VoteAPIRequestData {
    pub choices: Vec<String>,
}

impl VoteAPIRequestData {
    /// The request made of the fields that were read.  The choices are
    /// required.
    pub fn from_fields(choices: Option<Vec<String>>) -> (r: Option<VoteAPIRequestData>)
        ensures
            match r {
                Some(request) => choices == Some(request.choices),
                None => choices is None,
            },
    {
        match choices {
            Some(choices) => Some(VoteAPIRequestData { choices }),
            None => None,
        }
    }
}

/// A ballot with these choices from this address can be accepted at the
/// second `now`: the poll is open and its end has not come, the address has
/// not voted where it may vote only once, and the choices are valid for the
/// candidates of the poll.
pub open spec fn acceptable(poll: PollView, choices: Seq<Seq<char>>, voter: VoterIp, now: u64) -> bool {
    &&& poll.winners is None
    &&& now < poll.end_time
    &&& !(poll.prohibit_double_vote_by_ip && has_voted(poll.votes, voter))
    &&& ballot_valid(poll.candidates, choices)
}

/// The error that a ballot which cannot be accepted is refused with.  In
/// this order: the poll is closed or its end has come; the address has
/// voted already; the choices are not valid.
pub open spec fn ballot_refusal(
    poll: PollView,
    choices: Seq<Seq<char>>,
    voter: VoterIp,
    now: u64,
    e: VisibleError,
) -> bool {
    if poll.winners is Some || now >= poll.end_time {
        e == VisibleError::PollClosed
    } else if poll.prohibit_double_vote_by_ip && has_voted(poll.votes, voter) {
        e == VisibleError::DuplicateVote
    } else {
        ballot_rejection(poll.candidates, choices, e)
    }
}

/// Decides on a ballot for a poll as it stands: the ballot to be appended,
/// or the error that it is refused with.
pub fn judge_ballot(poll: &Poll, choices: Vec<String>, voter_ip: VoterIp, now: u64) -> (r: Result<
    RankedChoiceVote,
    VisibleError,
>)
    ensures
        match r {
            Ok(vote) => {
                &&& acceptable(poll@, texts(choices@), voter_ip, now)
                &&& vote@ == BallotView { choices: texts(choices@), voter: voter_ip }
            },
            Err(e) => {
                &&& !acceptable(poll@, texts(choices@), voter_ip, now)
                &&& ballot_refusal(poll@, texts(choices@), voter_ip, now, e)
            },
        },
{
    if poll.is_closed() || now >= poll.end_time {
        return Err(VisibleError::PollClosed);
    }
    match poll.check_unique(voter_ip) {
        Err(e) => {
            return Err(e);
        },
        Ok(_) => {},
    }
    match poll.validate(&choices) {
        Err(e) => {
            return Err(e);
        },
        Ok(_) => {},
    }
    Ok(RankedChoiceVote { ranked_choices: choices, voter_ip })
}

/// A ballot that can be accepted leaves the ballots of its poll in order:
/// all of them valid for the candidates, and from different addresses where
/// the poll asks for that.
pub proof fn lemma_accepted_ballot_is_sound(
    poll: PollView,
    choices: Seq<Seq<char>>,
    voter: VoterIp,
    now: u64,
)
    requires
        ballots_sound(poll),
        acceptable(poll, choices, voter, now),
    ensures
        ballots_sound(with_vote(poll, BallotView { choices, voter })),
{
}

} // verus!
