//! Creating a poll: the request, the rules that it must meet, and the poll
//! that is made of it.

use crate::ballot::first_repeat;
use crate::error::{ErrorKind, InternalError, VisibleError};
use crate::poll::{new_poll, Poll, PollView};
use crate::text::{
    all_id_chars, char_count, is_blank, padded_hex, text_all_id_chars, text_is_blank, text_of,
    texts,
};
use vstd::prelude::*;
use vstd::string::*;

verus! {

/// A request to create a poll.
#[derive(Debug, PartialEq, Eq)]
pub struct CreateAPIRequestData {
    pub name: String,
    pub candidates: Vec<String>,
    pub duration: i64,
    pub num_winners: i64,
    pub id: Option<String>,
    pub protection: Option<String>,
}

impl CreateAPIRequestData {
    /// The request made of the fields that were read.  The name, the
    /// candidates, the duration and the number of winners are required; the
    /// identifier and the protection may be missing.
    pub fn from_fields(
        name: Option<String>,
        candidates: Option<Vec<String>>,
        duration: Option<i64>,
        num_winners: Option<i64>,
        id: Option<String>,
        protection: Option<String>,
    ) -> (r: Option<CreateAPIRequestData>)
        ensures
            match r {
                Some(request) => {
                    &&& name == Some(request.name)
                    &&& candidates == Some(request.candidates)
                    &&& duration == Some(request.duration)
                    &&& num_winners == Some(request.num_winners)
                    &&& id == request.id
                    &&& protection == request.protection
                },
                None => name is None || candidates is None || duration is None || num_winners
                    is None,
            },
    {
        match (name, candidates, duration, num_winners) {
            (Some(name), Some(candidates), Some(duration), Some(num_winners)) => Some(
                CreateAPIRequestData { name, candidates, duration, num_winners, id, protection },
            ),
            _ => None,
        }
    }
}

/// A request to create a poll as a mathematical value.
pub struct CreateRequestView {
    pub name: Seq<char>,
    pub candidates: Seq<Seq<char>>,
    pub duration: i64,
    pub num_winners: i64,
    pub id: Option<Seq<char>>,
    pub protection: Option<Seq<char>>,
}

impl View for CreateAPIRequestData {
    type V = CreateRequestView;

    open spec fn view(&self) -> CreateRequestView {
        CreateRequestView {
            name: self.name@,
            candidates: texts(self.candidates@),
            duration: self.duration,
            num_winners: self.num_winners,
            id: text_of(self.id),
            protection: text_of(self.protection),
        }
    }
}

/// What is wrong with the name of a candidate: it is too long, or else it
/// is blank.
pub open spec fn candidate_fault(name: Seq<char>) -> Option<VisibleError> {
    if name.len() > 1024 {
        Some(VisibleError::CandidateTooLong)
    } else if is_blank(name) {
        Some(VisibleError::CandidateEmpty)
    } else {
        None
    }
}

/// What is wrong with the first candidate whose name has a fault.
pub open spec fn first_candidate_fault(names: Seq<Seq<char>>) -> Option<VisibleError>
    decreases names.len(),
{
    if names.len() == 0 {
        None
    } else {
        match first_candidate_fault(names.drop_last()) {
            Some(e) => Some(e),
            None => candidate_fault(names.last()),
        }
    }
}

/// What is wrong with an identifier asked for: its length, or else a
/// character in it.
pub open spec fn id_fault(id: Seq<char>) -> Option<VisibleError> {
    if !(1 <= id.len() <= 32) {
        Some(VisibleError::IdLength)
    } else if !all_id_chars(id) {
        Some(VisibleError::IdCharacters)
    } else {
        None
    }
}

/// What is wrong with a request to create a poll, as far as the request
/// alone shows it.  The rules are tried in this order, and the first that
/// fails gives the error: between 2 and 1024 candidates; no name of a
/// candidate longer than 1024 characters or blank; no name twice; a duration
/// of at least one second; at least one winner; fewer winners than
/// candidates; an identifier, where one is asked for, of 1 to 32 characters,
/// all of them allowed.
pub open spec fn request_fault(request: CreateRequestView) -> Option<VisibleError> {
    if !(2 <= request.candidates.len() <= 1024) {
        Some(VisibleError::CandidateCount)
    } else if first_candidate_fault(request.candidates) is Some {
        first_candidate_fault(request.candidates)
    } else if !request.candidates.no_duplicates() {
        Some(VisibleError::CandidateRepeated)
    } else if request.duration < 1 {
        Some(VisibleError::Duration)
    } else if request.num_winners <= 0 {
        Some(VisibleError::NumWinnersNotPositive)
    } else if request.num_winners >= request.candidates.len() {
        Some(VisibleError::NumWinnersTooLarge)
    } else {
        match request.id {
            Some(id) => id_fault(id),
            None => None,
        }
    }
}

/// Whether one ballot per address is asked for: `ip` asks for it, `none`
/// and no word at all do not, and any other word is an error.
pub open spec fn protection_of(word: Option<Seq<char>>) -> Option<bool> {
    match word {
        Some(w) => if w == "ip"@ {
            Some(true)
        } else if w == "none"@ {
            Some(false)
        } else {
            None
        },
        None => Some(false),
    }
}

/// A fault among the first candidates is the fault of all the candidates.
proof fn lemma_candidate_fault_prefix(names: Seq<Seq<char>>, upto: int)
    requires
        0 <= upto <= names.len(),
        first_candidate_fault(names.take(upto)) is Some,
    ensures
        first_candidate_fault(names) == first_candidate_fault(names.take(upto)),
    decreases names.len(),
{
    if upto == names.len() {
        assert(names.take(upto) == names);
    } else {
        assert(names.drop_last().take(upto) == names.take(upto));
        lemma_candidate_fault_prefix(names.drop_last(), upto);
    }
}

/// Checks the names of the candidates one by one.
fn check_candidates(candidates: &Vec<String>) -> (r: Result<(), VisibleError>)
    ensures
        match first_candidate_fault(texts(candidates@)) {
            Some(e) => r == Err::<(), VisibleError>(e),
            None => r is Ok,
        },
{
    let ghost names = texts(candidates@);
    let mut i: usize = 0;
    while i < candidates.len()
        invariant
            i <= candidates@.len(),
            names == texts(candidates@),
            first_candidate_fault(names.take(i as int)) is None,
        decreases candidates@.len() - i,
    {
        let ghost more = names.take(i + 1);
        proof {
            assert(more.drop_last() == names.take(i as int));
        }
        let fault = if char_count(candidates[i].as_str()) > 1024 {
            Some(VisibleError::CandidateTooLong)
        } else if text_is_blank(candidates[i].as_str()) {
            Some(VisibleError::CandidateEmpty)
        } else {
            None
        };
        match fault {
            Some(e) => {
                proof {
                    lemma_candidate_fault_prefix(names, i + 1);
                }
                return Err(e);
            },
            None => {},
        }
        i += 1;
    }
    assert(names.take(i as int) == names);
    Ok(())
}

/// Checks a request to create a poll as far as the request alone shows
/// whether it can be granted.
pub fn check_request(request: &CreateAPIRequestData) -> (r: Result<(), VisibleError>)
    ensures
        match request_fault(request@) {
            Some(e) => r == Err::<(), VisibleError>(e),
            None => r is Ok,
        },
{
    // Validate candidates
    if request.candidates.len() < 2 || request.candidates.len() > 1024 {
        return Err(VisibleError::CandidateCount);
    }
    match check_candidates(&request.candidates) {
        Err(e) => {
            return Err(e);
        },
        Ok(_) => {},
    }
    if first_repeat(&request.candidates).is_some() {
        return Err(VisibleError::CandidateRepeated);
    }
    // Validate duration
    if request.duration < 1 {
        return Err(VisibleError::Duration);
    }
    // Validate numWinners
    if request.num_winners <= 0 {
        return Err(VisibleError::NumWinnersNotPositive);
    }
    if request.num_winners >= request.candidates.len() as i64 {
        return Err(VisibleError::NumWinnersTooLarge);
    }
    // validate ID
    match &request.id {
        Some(id) => {
            let length = char_count(id.as_str());
            if length < 1 || length > 32 {
                return Err(VisibleError::IdLength);
            }
            if !text_all_id_chars(id.as_str()) {
                return Err(VisibleError::IdCharacters);
            }
            Ok(())
        },
        None => Ok(()),
    }
}

/// Reads the word that says whether one ballot per address is asked for.
pub fn read_protection(word: &Option<String>) -> (r: Result<bool, VisibleError>)
    ensures
        match protection_of(text_of(*word)) {
            Some(b) => r == Ok::<bool, VisibleError>(b),
            None => r == Err::<bool, VisibleError>(VisibleError::Protection),
        },
{
    match word {
        Some(w) => {
            if *w == String::from_str("ip") {
                Ok(true)
            } else if *w == String::from_str("none") {
                Ok(false)
            } else {
                Err(VisibleError::Protection)
            }
        },
        None => Ok(false),
    }
}

/// What becomes of a request to create a poll once it is known whether the
/// identifier asked for is taken.  In this order: a taken identifier is
/// refused; a bad word for the protection is refused; a negative duration is
/// refused; numbers that a poll cannot hold are internal errors; else the
/// poll is made, with the identifier asked for or one of its own.  The
/// rules that `check_request` checks are not checked again.
pub open spec fn draft_outcome(
    request: CreateRequestView,
    taken: bool,
    now: u64,
    r: Result<Poll, ErrorKind>,
) -> bool {
    if taken && request.id is Some {
        &&& r matches Err(ErrorKind::PubliclyVisible(VisibleError::IdTaken(id)))
        &&& id@ == request.id->0
    } else if protection_of(request.protection) is None {
        r matches Err(e) && e == ErrorKind::PubliclyVisible(VisibleError::Protection)
    } else if request.duration < 0 {
        r matches Err(e) && e == ErrorKind::PubliclyVisible(VisibleError::Duration)
    } else if request.num_winners < 0 || request.num_winners > usize::MAX {
        r matches Err(e) && e == ErrorKind::Internal(
            InternalError::InvalidNumWinners(request.num_winners),
        )
    } else if now + request.duration > u64::MAX {
        r matches Err(e) && e == ErrorKind::Internal(
            InternalError::InvalidDuration(request.duration as u64),
        )
    } else {
        &&& r matches Ok(poll)
        &&& poll@ == new_poll(
            poll@.id,
            request.name,
            request.candidates,
            request.duration as u64,
            request.num_winners as usize,
            protection_of(request.protection)->0,
            now,
        )
        &&& match request.id {
            Some(given) => poll@.id == given,
            None => exists|seed: u64| poll@.id == padded_hex(seed),
        }
    }
}

/// Makes the poll that a request asks for, once it is known whether the
/// identifier asked for is taken.
pub fn draft_poll(request: CreateAPIRequestData, taken: bool, now: u64) -> (r: Result<
    Poll,
    ErrorKind,
>)
    ensures
        draft_outcome(request@, taken, now, r),
{
    if taken {
        match &request.id {
            Some(id) => {
                return Err(ErrorKind::PubliclyVisible(VisibleError::IdTaken(id.clone())));
            },
            None => {},
        }
    }
    // Validate protection
    let protection = match read_protection(&request.protection) {
        Ok(protection) => protection,
        Err(e) => {
            return Err(ErrorKind::PubliclyVisible(e));
        },
    };
    if request.duration < 0 {
        return Err(ErrorKind::PubliclyVisible(VisibleError::Duration));
    }
    let duration = request.duration as u64;
    if request.num_winners < 0 || request.num_winners as u64 > usize::MAX as u64 {
        return Err(ErrorKind::Internal(InternalError::InvalidNumWinners(request.num_winners)));
    }
    let num_winners = request.num_winners as usize;
    Poll::new(request.id, request.name, request.candidates, duration, num_winners, protection, now)
}

/// A poll as `create` leaves it in the storage: between 2 and 1024
/// candidates with names that are neither blank nor too long, no name
/// twice, at least one winner and fewer winners than candidates, open from
/// the time of creation for a positive number of seconds, no ballots, no
/// winners.
pub open spec fn soundly_created(poll: PollView, duration: int) -> bool {
    &&& 2 <= poll.candidates.len() <= 1024
    &&& first_candidate_fault(poll.candidates) is None
    &&& poll.candidates.no_duplicates()
    &&& 1 <= poll.num_winners < poll.candidates.len()
    &&& duration > 0
    &&& poll.end_time == poll.creation_time + duration
    &&& poll.votes.len() == 0
    &&& poll.winners is None
}

} // verus!
