//! Polls as a store of rows keeps them, and the conversions between rows
//! and polls.  A row holds numbers as the store has them, which need not be
//! numbers that a poll can have.

use crate::ballot::RankedChoiceVote;
use crate::error::{ErrorKind, InternalError};
use crate::poll::{votes_view, Poll, PollView, VotingMethod};
use crate::tally::fill::{ranked_view, Ranked, RankedCandidate};
use crate::text::texts;
use vstd::prelude::*;

verus! {

/// The row of a poll.  Times are in seconds since the Epoch and may lie
/// before it.
#[derive(Debug, PartialEq)]
pub struct PollRecord {
    pub id: String,
    pub title: String,
    pub candidates: Vec<String>,
    pub created_at: i64,
    pub prohibit_double_vote_by_ip: bool,
    pub expires_at: i64,
    pub num_winners: i32,
    pub method: i32,
}

/// The row of a winner.
#[derive(Debug, PartialEq)]
pub struct WinnerRecord {
    pub candidate: String,
    pub rank: i32,
}

/// The number that a voting method is stored as.
pub open spec fn method_number(method: VotingMethod) -> i32 {
    match method {
        VotingMethod::Schulze => 0,
    }
}

/// The winners that rows stand for, where no row has a negative tier.
pub open spec fn rows_view(rows: Seq<WinnerRecord>) -> Ranked {
    Seq::new(rows.len(), |i: int| (rows[i].candidate@, rows[i].rank as int))
}

/// The row at place `i` is the first with a negative tier.
pub open spec fn first_bad_rank_at(rows: Seq<WinnerRecord>, i: int) -> bool {
    &&& 0 <= i < rows.len()
    &&& rows[i].rank < 0
    &&& forall|j: int| 0 <= j < i ==> (#[trigger] rows[j]).rank >= 0
}

/// No row has a negative tier.
pub open spec fn ranks_fit(rows: Seq<WinnerRecord>) -> bool {
    forall|j: int| 0 <= j < rows.len() ==> (#[trigger] rows[j]).rank >= 0
}

/// Whether rows can be read as a poll: the method is known and no number is
/// negative.
pub open spec fn readable(record: PollRecord, winners: Seq<WinnerRecord>) -> bool {
    &&& record.method == 0
    &&& ranks_fit(winners)
    &&& record.num_winners >= 0
    &&& record.created_at >= 0
    &&& record.expires_at >= 0
}

/// The error that rows which cannot be read as a poll are refused with.
/// The first of these that applies: an unknown method, a negative tier (the
/// first), a negative number of winners, a time of creation before the
/// Epoch, an end before the Epoch.
pub open spec fn read_refusal(record: PollRecord, winners: Seq<WinnerRecord>, e: ErrorKind) -> bool {
    if record.method != 0 {
        e == ErrorKind::Internal(InternalError::UnknownVotingMethodDiscriminant(record.method))
    } else if !ranks_fit(winners) {
        exists|i: int|
            first_bad_rank_at(winners, i) && e == ErrorKind::Internal(
                InternalError::InvalidWinnerRank(#[trigger] winners[i].rank),
            )
    } else if record.num_winners < 0 {
        e == ErrorKind::Internal(InternalError::InvalidNumWinners(record.num_winners as i64))
    } else {
        &&& record.created_at < 0 || record.expires_at < 0
        &&& e matches ErrorKind::Internal(InternalError::CouldNotConvertDBTimeToUNIX(id))
        &&& id@ == record.id@
    }
}

/// The poll that readable rows stand for.  A poll without rows of winners
/// has no winners yet.
pub open spec fn poll_of_rows(
    record: PollRecord,
    winners: Seq<WinnerRecord>,
    votes: Seq<RankedChoiceVote>,
) -> PollView {
    PollView {
        id: record.id@,
        title: record.title@,
        candidates: texts(record.candidates@),
        creation_time: record.created_at as int,
        end_time: record.expires_at as int,
        votes: votes_view(votes),
        num_winners: record.num_winners as nat,
        winners: if winners.len() == 0 {
            None
        } else {
            Some(rows_view(winners))
        },
        method: VotingMethod::Schulze,
        prohibit_double_vote_by_ip: record.prohibit_double_vote_by_ip,
    }
}

/// The winners that rows stand for.
fn winners_of_rows(rows: Vec<WinnerRecord>) -> (r: Result<Vec<RankedCandidate>, ErrorKind>)
    ensures
        match r {
            Ok(w) => ranks_fit(rows@) && ranked_view(w@) == rows_view(rows@),
            Err(e) => exists|i: int|
                first_bad_rank_at(rows@, i) && e == ErrorKind::Internal(
                    InternalError::InvalidWinnerRank(#[trigger] rows@[i].rank),
                ),
        },
{
    let mut w: Vec<RankedCandidate> = Vec::new();
    let mut i: usize = 0;
    while i < rows.len()
        invariant
            i <= rows@.len(),
            w@.len() == i,
            forall|j: int| 0 <= j < i ==> (#[trigger] rows@[j]).rank >= 0,
            forall|j: int|
                0 <= j < i ==> (#[trigger] w@[j]).candidate@ == rows@[j].candidate@ && w@[j].rank
                    == rows@[j].rank,
        decreases rows@.len() - i,
    {
        let rank = rows[i].rank;
        if rank < 0 {
            return Err(ErrorKind::Internal(InternalError::InvalidWinnerRank(rank)));
        }
        w.push(RankedCandidate { candidate: rows[i].candidate.clone(), rank: rank as usize });
        i += 1;
    }
    Ok(w)
}

/// Reads the rows of a poll, of its winners and its ballots as a poll.
pub fn poll_from_records(
    record: PollRecord,
    winners: Vec<WinnerRecord>,
    votes: Vec<RankedChoiceVote>,
) -> (r: Result<Poll, ErrorKind>)
    ensures
        match r {
            Ok(poll) => readable(record, winners@) && poll@ == poll_of_rows(record, winners@, votes@),
            Err(e) => !readable(record, winners@) && read_refusal(record, winners@, e),
        },
{
    let method = if record.method == 0 {
        VotingMethod::Schulze
    } else {
        return Err(ErrorKind::Internal(InternalError::UnknownVotingMethodDiscriminant(record.method)));
    };
    let ghost rows = winners@;
    let none_yet = winners.len() == 0;
    let ranked = match winners_of_rows(winners) {
        Ok(ranked) => ranked,
        Err(e) => {
            return Err(e);
        },
    };
    let winners = if none_yet {
        None
    } else {
        Some(ranked)
    };
    if record.num_winners < 0 {
        return Err(
            ErrorKind::Internal(InternalError::InvalidNumWinners(record.num_winners as i64)),
        );
    }
    let num_winners = record.num_winners as usize;
    if record.created_at < 0 || record.expires_at < 0 {
        return Err(ErrorKind::Internal(InternalError::CouldNotConvertDBTimeToUNIX(record.id)));
    }
    let poll = Poll {
        id: record.id,
        title: record.title,
        candidates: record.candidates,
        creation_time: record.created_at as u64,
        end_time: record.expires_at as u64,
        votes,
        num_winners,
        winners,
        method,
        prohibit_double_vote_by_ip: record.prohibit_double_vote_by_ip,
    };
    Ok(poll)
}

/// Whether a poll can be written as a row: its numbers fit those of a row.
pub open spec fn writable(poll: PollView) -> bool {
    &&& poll.creation_time <= i64::MAX
    &&& poll.end_time <= i64::MAX
    &&& poll.num_winners <= i32::MAX
}

/// The error that a poll which cannot be written as a row is refused with.
/// The first of these that applies: the time of creation does not fit, the
/// end does not fit, the number of winners does not fit.
pub open spec fn write_refusal(poll: Poll, e: ErrorKind) -> bool {
    if poll.creation_time > i64::MAX {
        &&& e matches ErrorKind::Internal(InternalError::InvalidCreationTime(id, time))
        &&& id@ == poll.id@
        &&& time == poll.creation_time
    } else if poll.end_time > i64::MAX {
        &&& e matches ErrorKind::Internal(InternalError::InvalidEndTime(id, time))
        &&& id@ == poll.id@
        &&& time == poll.end_time
    } else {
        &&& poll.num_winners > i32::MAX
        &&& e == ErrorKind::Internal(InternalError::NumWinnersTooLarge(poll.num_winners))
    }
}

/// The row of a poll.
pub fn poll_to_record(poll: &Poll) -> (r: Result<PollRecord, ErrorKind>)
    ensures
        match r {
            Ok(record) => {
                &&& writable(poll@)
                &&& record.id@ == poll.id@
                &&& record.title@ == poll.title@
                &&& texts(record.candidates@) == texts(poll.candidates@)
                &&& record.created_at == poll.creation_time
                &&& record.expires_at == poll.end_time
                &&& record.prohibit_double_vote_by_ip == poll.prohibit_double_vote_by_ip
                &&& record.num_winners == poll.num_winners
                &&& record.method == method_number(poll.method)
            },
            Err(e) => !writable(poll@) && write_refusal(*poll, e),
        },
{
    let method: i32 = match poll.method {
        VotingMethod::Schulze => 0,
    };
    if poll.creation_time > 0x7fff_ffff_ffff_ffff {
        return Err(
            ErrorKind::Internal(
                InternalError::InvalidCreationTime(poll.id.clone(), poll.creation_time),
            ),
        );
    }
    if poll.end_time > 0x7fff_ffff_ffff_ffff {
        return Err(
            ErrorKind::Internal(InternalError::InvalidEndTime(poll.id.clone(), poll.end_time)),
        );
    }
    if poll.num_winners > 0x7fff_ffff {
        return Err(ErrorKind::Internal(InternalError::NumWinnersTooLarge(poll.num_winners)));
    }
    let candidates = poll.candidates.clone();
    Ok(
        PollRecord {
            id: poll.id.clone(),
            title: poll.title.clone(),
            candidates,
            created_at: poll.creation_time as i64,
            prohibit_double_vote_by_ip: poll.prohibit_double_vote_by_ip,
            expires_at: poll.end_time as i64,
            num_winners: poll.num_winners as i32,
            method,
        },
    )
}

/// The tier at place `i` is the first that does not fit a row.
pub open spec fn first_large_rank_at(winners: Seq<RankedCandidate>, i: int) -> bool {
    &&& 0 <= i < winners.len()
    &&& winners[i].rank > i32::MAX
    &&& forall|j: int| 0 <= j < i ==> (#[trigger] winners[j]).rank <= i32::MAX
}

/// The rows of the winners of a poll.  Fails where a tier does not fit a
/// row, with the first such tier.
pub fn winners_to_records(winners: &Vec<RankedCandidate>) -> (r: Result<Vec<WinnerRecord>, ErrorKind>)
    ensures
        match r {
            Ok(rows) => ranks_fit(rows@) && rows_view(rows@) == ranked_view(winners@),
            Err(e) => exists|i: int|
                first_large_rank_at(winners@, i) && e == ErrorKind::Internal(
                    InternalError::WinnerRankTooLarge(#[trigger] winners@[i].rank),
                ),
        },
{
    let mut rows: Vec<WinnerRecord> = Vec::new();
    let mut i: usize = 0;
    while i < winners.len()
        invariant
            i <= winners@.len(),
            rows@.len() == i,
            forall|j: int| 0 <= j < i ==> (#[trigger] winners@[j]).rank <= i32::MAX,
            forall|j: int|
                0 <= j < i ==> (#[trigger] rows@[j]).candidate@ == winners@[j].candidate@
                    && rows@[j].rank == winners@[j].rank,
        decreases winners@.len() - i,
    {
        let rank = winners[i].rank;
        if rank > 0x7fff_ffff {
            return Err(ErrorKind::Internal(InternalError::WinnerRankTooLarge(rank)));
        }
        rows.push(WinnerRecord { candidate: winners[i].candidate.clone(), rank: rank as i32 });
        i += 1;
    }
    Ok(rows)
}

} // verus!
