//! Answers: what a request is answered with, and what is told about a poll.

use crate::error::ErrorKind;
use crate::poll::{Poll, PollView};
use crate::tally::fill::{select_winners, tier_fill};
use crate::text::{text_of, texts};
use vstd::prelude::*;
use vstd::string::*;

verus! {

/// The answer to a request: what was asked for, or the text of an error.
#[derive(Debug, PartialEq, Eq)]
pub enum Response<T> {
    Success(T),
    Failure(String),
}

impl<T> Response<T> {
    /// Whether the request succeeded.
    pub fn success(&self) -> (b: bool)
        ensures
            b == (self is Success),
    {
        match self {
            Response::Success(_) => true,
            Response::Failure(_) => false,
        }
    }

    /// The text of the error, empty where the request succeeded.
    pub fn error(&self) -> (s: String)
        ensures
            match self {
                Response::Success(_) => s@.len() == 0,
                Response::Failure(text) => s@ == text@,
            },
    {
        match self {
            Response::Success(_) => String::new(),
            Response::Failure(text) => text.clone(),
        }
    }
}

/// The answer to a request that failed with this error: the error's own text
/// where it is for the user, an apology where it is not.
pub fn handle_error<T>(e: ErrorKind) -> (r: Response<T>)
    ensures
        r matches Response::Failure(text) && text@ == e.text(),
{
    Response::Failure(e.message())
}

/// What is answered to a request that could not be read.
pub open spec fn bad_json_text() -> Seq<char> {
    "You must provide valid JSON with all required fields for this endpoint specified. Refer to the API documentation for more information."@
}

/// The answer to a request that could not be read.
pub fn bad_json() -> (r: Response<()>)
    ensures
        r matches Response::Failure(text) && text@ == bad_json_text(),
{
    Response::Failure(
        String::from_str(
            "You must provide valid JSON with all required fields for this endpoint specified. Refer to the API documentation for more information.",
        ),
    )
}

/// What is told about a poll.
#[derive(Debug, PartialEq, Eq)]
pub struct PollInfo {
    pub name: String,
    pub candidates: Vec<String>,
    pub creation_time: u64,
    pub ending_time: u64,
    pub num_winners: usize,
    /// `ip` where the poll takes one ballot from every address.
    pub protection: Option<String>,
    pub num_votes: usize,
    pub ended: bool,
    /// The winners by the tier-fill rule, once the poll has ended.
    pub winners: Option<Vec<String>>,
}

/// What is told about a poll, as a mathematical value.
pub struct PollInfoView {
    pub name: Seq<char>,
    pub candidates: Seq<Seq<char>>,
    pub creation_time: int,
    pub ending_time: int,
    pub num_winners: nat,
    pub protection: Option<Seq<char>>,
    pub num_votes: nat,
    pub ended: bool,
    pub winners: Option<Seq<Seq<char>>>,
}

impl View for PollInfo {
    type V = PollInfoView;

    open spec fn view(&self) -> PollInfoView {
        PollInfoView {
            name: self.name@,
            candidates: texts(self.candidates@),
            creation_time: self.creation_time as int,
            ending_time: self.ending_time as int,
            num_winners: self.num_winners as nat,
            protection: text_of(self.protection),
            num_votes: self.num_votes as nat,
            ended: self.ended,
            winners: match self.winners {
                Some(w) => Some(texts(w@)),
                None => None,
            },
        }
    }
}

/// What is told about this poll.  A poll has ended when it has winners; the
/// winners told are those that the tier-fill rule takes from them.
pub open spec fn info_of(poll: PollView) -> PollInfoView {
    PollInfoView {
        name: poll.title,
        candidates: poll.candidates,
        creation_time: poll.creation_time,
        ending_time: poll.end_time,
        num_winners: poll.num_winners,
        protection: if poll.prohibit_double_vote_by_ip {
            Some("ip"@)
        } else {
            None
        },
        num_votes: poll.votes.len(),
        ended: poll.winners is Some,
        winners: match poll.winners {
            Some(w) => Some(tier_fill(w, poll.num_winners)),
            None => None,
        },
    }
}

/// Tells about a poll.
pub fn describe(poll: &Poll) -> (info: PollInfo)
    ensures
        info@ == info_of(poll@),
{
    let candidates = poll.candidates.clone();
    let winners = match &poll.winners {
        Some(w) => Some(select_winners(w, poll.num_winners)),
        None => None,
    };
    PollInfo {
        name: poll.title.clone(),
        candidates,
        creation_time: poll.creation_time,
        ending_time: poll.end_time,
        num_winners: poll.num_winners,
        protection: if poll.prohibit_double_vote_by_ip {
            Some(String::from_str("ip"))
        } else {
            None
        },
        num_votes: poll.votes.len(),
        ended: poll.winners.is_some(),
        winners,
    }
}

} // verus!
