//! Error types.
//!
//! Errors are either shown to the user word for word or kept internal, in
//! which case the user only learns that something went wrong.

use crate::text::{decimal, frame, framed, push_decimal};
use vstd::prelude::*;
use vstd::string::*;

verus! {

/// Why a set of ballots could not be tallied.
#[derive(Debug, Clone, Copy, PartialEq, Eq, Structural)]
pub enum TallyError {
    /// A ballot names the same candidate twice.
    VoteHasDuplicateCandidates,
    /// A ballot names somebody who does not stand in the poll.
    UnknownCandidate,
}

/// Errors caused by the user's input.  Their text is shown to the user.
#[derive(Debug, Clone, PartialEq, Eq)]
pub enum VisibleError {
    /// No poll has the given identifier.
    PollDoesNotExist(String),
    /// The request came without an address to identify the voter by.
    NoVoterAddress,
    /// The poll has ended and takes no more ballots.
    PollClosed,
    /// This voter has already cast a ballot in a poll that allows only one.
    DuplicateVote,
    /// The ballot ranks nobody; the poll has that many candidates.
    EmptyChoices(usize),
    /// The ballot ranks more names than the poll has candidates; the poll has
    /// that many candidates.
    TooManyChoices(usize),
    /// The ballot names somebody who does not stand in the poll.
    UnknownCandidate(String),
    /// The ballot names the same candidate twice.
    DuplicateCandidate(String),
    /// Fewer than 2 or more than 1024 candidates.
    CandidateCount,
    /// A candidate's name has more than 1024 characters.
    CandidateTooLong,
    /// A candidate's name is empty or blank.
    CandidateEmpty,
    /// Two candidates have the same name.
    CandidateRepeated,
    /// The duration is not positive.
    Duration,
    /// The number of winners is not positive.
    NumWinnersNotPositive,
    /// The number of winners is not below the number of candidates.
    NumWinnersTooLarge,
    /// The identifier is empty or longer than 32 characters.
    IdLength,
    /// The identifier holds a character that is not allowed.
    IdCharacters,
    /// A poll with this identifier exists already.
    IdTaken(String),
    /// The protection is neither `ip` nor `none`.
    Protection,
}

/// Errors whose details are not for the user.
#[derive(Debug, Clone, PartialEq, Eq)]
pub enum InternalError {
    /// The storage failed; the text says how.
    Database(String),
    /// A stored poll names a voting method that is not known.
    UnknownVotingMethodDiscriminant(i32),
    /// A stored number of winners is negative.
    InvalidNumWinners(i64),
    /// A stored tier of a winner is negative.
    InvalidWinnerRank(i32),
    /// A number of winners is too large to be stored.
    NumWinnersTooLarge(usize),
    /// The tier of a winner is too large to be stored.
    WinnerRankTooLarge(usize),
    /// The ballots of a poll could not be tallied.
    Tally(TallyError),
    /// A stored time lies before 1970; the identifier of the poll is given.
    CouldNotConvertDBTimeToUNIX(String),
    /// The creation time of the poll with this identifier cannot be stored.
    InvalidCreationTime(String, u64),
    /// The end time of the poll with this identifier cannot be stored.
    InvalidEndTime(String, u64),
    /// A poll of this length, in seconds, would end after the last second
    /// that can be represented.
    InvalidDuration(u64),
}

/// An error: one that the user is told, or one that is kept internal.
#[derive(Debug, Clone, PartialEq, Eq)]
pub enum ErrorKind {
    PubliclyVisible(VisibleError),
    Internal(InternalError),
}

/// What the user is told when no poll has the identifier asked for.
pub open spec fn no_such_poll_text(id: Seq<char>) -> Seq<char> {
    framed("No poll was found with the ID '"@, id, "'."@)
}

/// What the user is told when the identifier asked for is taken.
pub open spec fn id_taken_text(id: Seq<char>) -> Seq<char> {
    framed("A poll already exists with the ID '"@, id, "'."@)
}

impl VisibleError {
    /// The text shown to the user.
    pub open spec fn text(self) -> Seq<char> {
        match self {
            VisibleError::PollDoesNotExist(id) => no_such_poll_text(id@),
            VisibleError::NoVoterAddress => "No IP address could be determined from the request."@,
            VisibleError::PollClosed => "This poll has ended and no longer accepts votes."@,
            VisibleError::DuplicateVote => "You have already voted in this poll."@,
            VisibleError::EmptyChoices(n) => framed(
                "You must vote for between 1 and "@,
                decimal(n as nat),
                " candidates"@,
            ),
            VisibleError::TooManyChoices(n) => framed(
                "You must vote for between 1 and "@,
                decimal(n as nat),
                " candidates"@,
            ),
            VisibleError::UnknownCandidate(name) => framed(
                "The choice '"@,
                name@,
                "' is not a valid choice."@,
            ),
            VisibleError::DuplicateCandidate(name) => framed(
                "The choice '"@,
                name@,
                "' appears more than once."@,
            ),
            VisibleError::CandidateCount => "The number of candidates must be between 2 and 1,024."@,
            VisibleError::CandidateTooLong => "A candidate's name must be less than 1,024 characters."@,
            VisibleError::CandidateEmpty => "A candidate's name must not be empty."@,
            VisibleError::CandidateRepeated => "A candidate's name must not appear more than once."@,
            VisibleError::Duration => "The duration must be a positive, nonzero number."@,
            VisibleError::NumWinnersNotPositive => "The number of winners must be a positive, nonzero number."@,
            VisibleError::NumWinnersTooLarge => "The number of winners must be less than to the number of candidates."@,
            VisibleError::IdLength => "The ID must be between 1 and 32 characters."@,
            VisibleError::IdCharacters => "The ID must only contain ASCII alphanumeric characters, '-', '.', and '-'."@,
            VisibleError::IdTaken(id) => id_taken_text(id@),
            VisibleError::Protection => "The protection must be either 'ip' or 'none'."@,
        }
    }

    /// The text shown to the user.
    pub fn message(&self) -> (s: String)
        ensures
            s@ == self.text(),
    {
        match self {
            VisibleError::PollDoesNotExist(id) => frame(
                "No poll was found with the ID '",
                id.as_str(),
                "'.",
            ),
            VisibleError::NoVoterAddress => String::from_str(
                "No IP address could be determined from the request.",
            ),
            VisibleError::PollClosed => String::from_str(
                "This poll has ended and no longer accepts votes.",
            ),
            VisibleError::DuplicateVote => String::from_str("You have already voted in this poll."),
            VisibleError::EmptyChoices(n) => between_one_and(*n),
            VisibleError::TooManyChoices(n) => between_one_and(*n),
            VisibleError::UnknownCandidate(name) => frame(
                "The choice '",
                name.as_str(),
                "' is not a valid choice.",
            ),
            VisibleError::DuplicateCandidate(name) => frame(
                "The choice '",
                name.as_str(),
                "' appears more than once.",
            ),
            VisibleError::CandidateCount => String::from_str(
                "The number of candidates must be between 2 and 1,024.",
            ),
            VisibleError::CandidateTooLong => String::from_str(
                "A candidate's name must be less than 1,024 characters.",
            ),
            VisibleError::CandidateEmpty => String::from_str("A candidate's name must not be empty."),
            VisibleError::CandidateRepeated => String::from_str(
                "A candidate's name must not appear more than once.",
            ),
            VisibleError::Duration => String::from_str(
                "The duration must be a positive, nonzero number.",
            ),
            VisibleError::NumWinnersNotPositive => String::from_str(
                "The number of winners must be a positive, nonzero number.",
            ),
            VisibleError::NumWinnersTooLarge => String::from_str(
                "The number of winners must be less than to the number of candidates.",
            ),
            VisibleError::IdLength => String::from_str("The ID must be between 1 and 32 characters."),
            VisibleError::IdCharacters => String::from_str(
                "The ID must only contain ASCII alphanumeric characters, '-', '.', and '-'.",
            ),
            VisibleError::IdTaken(id) => frame("A poll already exists with the ID '", id.as_str(), "'."),
            VisibleError::Protection => String::from_str(
                "The protection must be either 'ip' or 'none'.",
            ),
        }
    }
}

/// The message for a ballot with too few or too many names, in a poll of `n`
/// candidates.
fn between_one_and(n: usize) -> (s: String)
    ensures
        s@ == framed("You must vote for between 1 and "@, decimal(n as nat), " candidates"@),
{
    let mut s = String::from_str("You must vote for between 1 and ");
    push_decimal(&mut s, n);
    s.append(" candidates");
    s
}

/// What the user is told when an internal error occurred.
pub open spec fn internal_error_text() -> Seq<char> {
    "Sorry, an internal server error occured. The server's administrators have been notified."@
}

impl ErrorKind {
    /// The text that the user gets to see for this error: the error's own
    /// text if it is visible, a fixed apology otherwise.
    pub open spec fn text(self) -> Seq<char> {
        match self {
            ErrorKind::PubliclyVisible(e) => e.text(),
            ErrorKind::Internal(_) => internal_error_text(),
        }
    }

    /// The text that the user gets to see for this error.
    pub fn message(&self) -> (s: String)
        ensures
            s@ == self.text(),
    {
        match self {
            ErrorKind::PubliclyVisible(e) => e.message(),
            ErrorKind::Internal(_) => String::from_str(
                "Sorry, an internal server error occured. The server's administrators have been notified.",
            ),
        }
    }
}

impl From<TallyError> for InternalError {
    fn from(err: TallyError) -> (e: InternalError) {
        InternalError::Tally(err)
    }
}

impl vstd::std_specs::convert::FromSpecImpl<TallyError> for InternalError {
    open spec fn obeys_from_spec() -> bool {
        true
    }

    open spec fn from_spec(err: TallyError) -> InternalError {
        InternalError::Tally(err)
    }
}

impl From<InternalError> for ErrorKind {
    fn from(err: InternalError) -> (e: ErrorKind) {
        ErrorKind::Internal(err)
    }
}

impl vstd::std_specs::convert::FromSpecImpl<InternalError> for ErrorKind {
    open spec fn obeys_from_spec() -> bool {
        true
    }

    open spec fn from_spec(err: InternalError) -> ErrorKind {
        ErrorKind::Internal(err)
    }
}

impl From<TallyError> for ErrorKind {
    fn from(err: TallyError) -> (e: ErrorKind) {
        ErrorKind::Internal(InternalError::Tally(err))
    }
}

impl vstd::std_specs::convert::FromSpecImpl<TallyError> for ErrorKind {
    open spec fn obeys_from_spec() -> bool {
        true
    }

    open spec fn from_spec(err: TallyError) -> ErrorKind {
        ErrorKind::Internal(InternalError::Tally(err))
    }
}

} // verus!
