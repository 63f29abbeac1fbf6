//! Polls: their data, how they are made, and how they are closed.

use crate::ballot::{
    all_known, ballot_rejection, ballot_valid, first_repeat, first_unknown, validate_choices,
    BallotView, RankedChoiceVote, VoterIp,
};
use crate::error::{ErrorKind, InternalError, TallyError, VisibleError};
use crate::tally::fill::{lemma_tier_fill_enough, ranked_view, tier_fill, RankedCandidate};
use crate::tally::order::{lemma_no_ballots_one_tier, lemma_ranking_names_enough};
use crate::tally::pairwise::{
    count_ballot, is_square, lemma_pairwise_count_bound, pairwise_count, pairwise_counts, table,
    zero_table, BallotText,
};
use crate::tally::paths::{compute_strongest_paths, strongest_paths};
use crate::tally::tiers::{extract_tiers, lemma_ranking_range, pairs, ranking};
use crate::text::{padded_hex, padded_hex_string, texts};
use vstd::prelude::*;

verus! {

/// The method by which the winners of a poll are found.
#[derive(Debug, PartialEq, Eq, Clone, Copy, Structural)]
pub enum VotingMethod {
    Schulze,
}

/// A poll.  It is open for as long as it has no winners, and closed from
/// the moment on at which its winners are found.
#[derive(Debug, PartialEq)]
pub struct Poll {
    pub id: String,
    pub title: String,
    pub candidates: Vec<String>,
    /// Seconds since the Epoch
    pub creation_time: u64,
    /// Seconds since the Epoch
    pub end_time: u64,
    pub votes: Vec<RankedChoiceVote>,
    pub num_winners: usize,
    pub winners: Option<Vec<RankedCandidate>>,
    pub method: VotingMethod,
    pub prohibit_double_vote_by_ip: bool,
}

/// A poll as a mathematical value.
pub struct PollView {
    pub id: Seq<char>,
    pub title: Seq<char>,
    pub candidates: Seq<Seq<char>>,
    pub creation_time: int,
    pub end_time: int,
    pub votes: Seq<BallotView>,
    pub num_winners: nat,
    pub winners: Option<Seq<(Seq<char>, int)>>,
    pub method: VotingMethod,
    pub prohibit_double_vote_by_ip: bool,
}

/// The ballots as mathematical values.
pub open spec fn votes_view(v: Seq<RankedChoiceVote>) -> Seq<BallotView> {
    Seq::new(v.len(), |i: int| v[i]@)
}

/// What the ballots rank, without the voters.
pub open spec fn rankings(v: Seq<BallotView>) -> Seq<BallotText> {
    Seq::new(v.len(), |i: int| v[i].choices)
}

impl View for Poll {
    type V = PollView;

    open spec fn view(&self) -> PollView {
        PollView {
            id: self.id@,
            title: self.title@,
            candidates: texts(self.candidates@),
            creation_time: self.creation_time as int,
            end_time: self.end_time as int,
            votes: votes_view(self.votes@),
            num_winners: self.num_winners as nat,
            winners: match self.winners {
                Some(w) => Some(ranked_view(w@)),
                None => None,
            },
            method: self.method,
            prohibit_double_vote_by_ip: self.prohibit_double_vote_by_ip,
        }
    }
}

impl Clone for Poll {
    fn clone(&self) -> (copy: Poll)
        ensures
            copy@ == self@,
    {
        let candidates = self.candidates.clone();
        let votes = self.votes.clone();
        let winners = match &self.winners {
            Some(w) => {
                let copied = w.clone();
                assert(ranked_view(copied@) =~= ranked_view(w@));
                Some(copied)
            },
            None => None,
        };
        proof {
            assert(votes_view(votes@) =~= votes_view(self.votes@));
        }
        Poll {
            id: self.id.clone(),
            title: self.title.clone(),
            candidates,
            creation_time: self.creation_time,
            end_time: self.end_time,
            votes,
            num_winners: self.num_winners,
            winners,
            method: self.method,
            prohibit_double_vote_by_ip: self.prohibit_double_vote_by_ip,
        }
    }
}

/// What is wrong with a ballot as far as the tally cares: a name that is no
/// candidate's, or else a name that comes twice.
pub open spec fn ballot_error(names: Seq<Seq<char>>, ballot: BallotText) -> Option<TallyError> {
    if !all_known(names, ballot) {
        Some(TallyError::UnknownCandidate)
    } else if !ballot.no_duplicates() {
        Some(TallyError::VoteHasDuplicateCandidates)
    } else {
        None
    }
}

/// The error of the first ballot that has one.
pub open spec fn tally_error(names: Seq<Seq<char>>, ballots: Seq<BallotText>) -> Option<TallyError>
    decreases ballots.len(),
{
    if ballots.len() == 0 {
        None
    } else {
        match tally_error(names, ballots.drop_last()) {
            Some(e) => Some(e),
            None => ballot_error(names, ballots.last()),
        }
    }
}

/// A ranking of candidates by number as a ranking of their names.
pub open spec fn named(names: Seq<Seq<char>>, ranked: Seq<(int, int)>) -> Seq<(Seq<char>, int)> {
    Seq::new(ranked.len(), |i: int| (names[ranked[i].0], ranked[i].1))
}

/// The Schulze ranking of the candidates `names` by `ballots`, for `wanted`
/// winners: pairwise counts, strongest paths, tiers.
pub open spec fn schulze_ranking(names: Seq<Seq<char>>, ballots: Seq<BallotText>, wanted: nat) -> Seq<
    (Seq<char>, int),
> {
    named(names, ranking(strongest_paths(pairwise_counts(names, ballots)), wanted))
}

/// An error among the first ballots is the error of all the ballots.
pub proof fn lemma_tally_error_prefix(names: Seq<Seq<char>>, ballots: Seq<BallotText>, t: int)
    requires
        0 <= t <= ballots.len(),
        tally_error(names, ballots.take(t)) is Some,
    ensures
        tally_error(names, ballots) == tally_error(names, ballots.take(t)),
    decreases ballots.len(),
{
    if t == ballots.len() {
        assert(ballots.take(t) == ballots);
    } else {
        assert(ballots.drop_last().take(t) == ballots.take(t));
        lemma_tally_error_prefix(names, ballots.drop_last(), t);
    }
}

/// The names of the candidates of a ranking by number.
fn name_ranking(candidates: &Vec<String>, ranked: &Vec<(usize, usize)>) -> (w: Vec<RankedCandidate>)
    requires
        forall|i: int| 0 <= i < ranked@.len() ==> (#[trigger] ranked@[i]).0 < candidates@.len(),
    ensures
        ranked_view(w@) == named(texts(candidates@), pairs(ranked@)),
{
    let mut w: Vec<RankedCandidate> = Vec::new();
    let mut i: usize = 0;
    while i < ranked.len()
        invariant
            i <= ranked@.len(),
            w@.len() == i,
            forall|j: int| 0 <= j < ranked@.len() ==> (#[trigger] ranked@[j]).0 < candidates@.len(),
            forall|j: int|
                0 <= j < i ==> (#[trigger] w@[j]).candidate@ == candidates@[ranked@[j].0 as int]@
                    && w@[j].rank == ranked@[j].1,
        decreases ranked@.len() - i,
    {
        let (x, tier) = ranked[i];
        w.push(RankedCandidate { candidate: candidates[x].clone(), rank: tier });
        i += 1;
    }
    w
}

/// What a tally of the poll gives: the Schulze ranking of the candidates by
/// the ballots cast, or, where a ballot names somebody who is no candidate
/// or names a candidate twice, the error of the first such ballot.
pub open spec fn tallied(poll: PollView, r: Result<Vec<RankedCandidate>, ErrorKind>) -> bool {
    match r {
        Ok(w) => {
            &&& tally_error(poll.candidates, rankings(poll.votes)) is None
            &&& ranked_view(w@) == schulze_ranking(
                poll.candidates,
                rankings(poll.votes),
                poll.num_winners,
            )
        },
        Err(e) => {
            &&& tally_error(poll.candidates, rankings(poll.votes)) matches Some(fault)
            &&& e == ErrorKind::Internal(InternalError::Tally(fault))
        },
    }
}

/// Tallying the same ballots for the same candidates again gives the same
/// tiers: two tallies agree on who is ranked, in which tier and in which
/// order, or fail with the same error.
pub proof fn lemma_tally_repeatable(
    first: PollView,
    second: PollView,
    first_result: Result<Vec<RankedCandidate>, ErrorKind>,
    second_result: Result<Vec<RankedCandidate>, ErrorKind>,
)
    requires
        first.candidates == second.candidates,
        rankings(first.votes) == rankings(second.votes),
        first.num_winners == second.num_winners,
        tallied(first, first_result),
        tallied(second, second_result),
    ensures
        match (first_result, second_result) {
            (Ok(a), Ok(b)) => ranked_view(a@) == ranked_view(b@),
            (Err(a), Err(b)) => a == b,
            _ => false,
        },
{
}

/// With no ballots the tally yields exactly one tier that holds all the
/// candidates, in their order.
pub proof fn lemma_no_ballots(names: Seq<Seq<char>>, wanted: nat)
    ensures
        schulze_ranking(names, Seq::<BallotText>::empty(), wanted) == Seq::new(
            names.len(),
            |i: int| (names[i], 0int),
        ),
{
    lemma_no_ballots_one_tier(names, wanted);
    assert(schulze_ranking(names, Seq::<BallotText>::empty(), wanted) =~= Seq::new(
        names.len(),
        |i: int| (names[i], 0int),
    ));
}

/// The tier-fill rule, applied to the ranking of a tally, never gives fewer
/// names than are wanted, unless fewer candidates stand: then it gives all
/// that the ranking holds, and the ranking holds them all.
pub proof fn lemma_winners_enough(names: Seq<Seq<char>>, ballots: Seq<BallotText>, wanted: nat)
    ensures
        tier_fill(schulze_ranking(names, ballots, wanted), wanted).len() >= wanted || tier_fill(
            schulze_ranking(names, ballots, wanted),
            wanted,
        ).len() == names.len(),
{
    let counts = pairwise_counts(names, ballots);
    let paths = strongest_paths(counts);
    let by_name = schulze_ranking(names, ballots, wanted);
    lemma_ranking_names_enough(counts, wanted);
    assert forall|i: int| 0 <= i < by_name.len() implies (#[trigger] by_name[i]).1 >= 0 by {
        lemma_ranking_range(paths, wanted, paths.len(), i);
    }
    lemma_tier_fill_enough(by_name, wanted);
}

impl Poll {
    /// Finds the winners: the Schulze ranking of the candidates by the
    /// ballots cast.  Fails if a ballot names somebody who is no candidate
    /// or names a candidate twice, with the error of the first such ballot.
    pub fn find_winners(&self) -> (r: Result<Vec<RankedCandidate>, ErrorKind>)
        ensures
            tallied(self@, r),
    {
        match self.method {
            VotingMethod::Schulze => {
                let n = self.candidates.len();
                let ghost names = texts(self.candidates@);
                let ghost ballots = rankings(self@.votes);
                let mut counts = zero_table(n);
                let mut t: usize = 0;
                while t < self.votes.len()
                    invariant
                        t <= self.votes@.len(),
                        n == self.candidates@.len(),
                        names == texts(self.candidates@),
                        ballots == rankings(self@.votes),
                        ballots.len() == self.votes@.len(),
                        is_square(table(counts@), n as nat),
                        tally_error(names, ballots.take(t as int)) is None,
                        forall|i: int, j: int|
                            0 <= i < n && 0 <= j < n ==> #[trigger] table(counts@)[i][j]
                                == pairwise_count(ballots.take(t as int), names[i], names[j]),
                    decreases self.votes@.len() - t,
                {
                    let ballot = &self.votes[t].ranked_choices;
                    let ghost seen = ballots.take(t as int);
                    let ghost more = ballots.take(t + 1);
                    proof {
                        assert(more.drop_last() == seen);
                    }
                    if first_unknown(&self.candidates, ballot).is_some() {
                        proof {
                            lemma_tally_error_prefix(names, ballots, t + 1);
                        }
                        return Err(
                            ErrorKind::Internal(InternalError::Tally(TallyError::UnknownCandidate)),
                        );
                    }
                    if first_repeat(ballot).is_some() {
                        proof {
                            lemma_tally_error_prefix(names, ballots, t + 1);
                        }
                        return Err(
                            ErrorKind::Internal(
                                InternalError::Tally(TallyError::VoteHasDuplicateCandidates),
                            ),
                        );
                    }
                    proof {
                        assert forall|i: int, j: int| 0 <= i < n && 0 <= j < n implies #[trigger] table(
                            counts@,
                        )[i][j] < u64::MAX by {
                            lemma_pairwise_count_bound(seen, names[i], names[j]);
                        }
                    }
                    count_ballot(&mut counts, &self.candidates, ballot);
                    t += 1;
                }
                proof {
                    assert(ballots.take(t as int) == ballots);
                    assert(table(counts@) =~~= pairwise_counts(names, ballots));
                }
                let paths = compute_strongest_paths(&counts);
                let ranked = extract_tiers(&paths, self.num_winners);
                Ok(name_ranking(&self.candidates, &ranked))
            },
        }
    }

    /// Closes the poll: the winners are found and kept.  Where they cannot
    /// be found the poll stays as it was.
    pub fn finish(&mut self) -> (r: Result<(), ErrorKind>)
        ensures
            match r {
                Ok(_) => {
                    &&& tally_error(old(self)@.candidates, rankings(old(self)@.votes)) is None
                    &&& final(self)@ == (PollView {
                        winners: Some(
                            schulze_ranking(
                                old(self)@.candidates,
                                rankings(old(self)@.votes),
                                old(self)@.num_winners,
                            ),
                        ),
                        ..old(self)@
                    })
                },
                Err(e) => {
                    &&& tally_error(old(self)@.candidates, rankings(old(self)@.votes)) matches Some(
                        fault,
                    )
                    &&& e == ErrorKind::Internal(InternalError::Tally(fault))
                    &&& *final(self) == *old(self)
                },
            },
    {
        match self.find_winners() {
            Ok(winners) => {
                self.winners = Some(winners);
                Ok(())
            },
            Err(e) => Err(e),
        }
    }
}


/// `rand::random::<u64>()`: a number drawn from the generator of the calling
/// thread.  Nothing is promised of the number.  The call panics where the
/// operating system gives the generator no seed.
#[verifier::external_body]
fn random_seed() -> (seed: u64) {
    rand::random::<u64>()
}

/// The identifier of a poll that was given none, from the number drawn for
/// it: the number in lower-case hexadecimal, right-aligned in sixteen places.
pub fn poll_id_from(seed: u64) -> (id: String)
    ensures
        id@ == padded_hex(seed),
{
    padded_hex_string(seed)
}

/// The poll that `with_id` makes of its arguments.
pub open spec fn new_poll(
    id: Seq<char>,
    title: Seq<char>,
    candidates: Seq<Seq<char>>,
    length: u64,
    num_winners: usize,
    prohibit_double_vote_by_ip: bool,
    now: u64,
) -> PollView {
    PollView {
        id,
        title,
        candidates,
        creation_time: now as int,
        end_time: now + length,
        votes: Seq::empty(),
        num_winners: num_winners as nat,
        winners: None,
        method: VotingMethod::Schulze,
        prohibit_double_vote_by_ip,
    }
}

impl Poll {
    /// A new poll with the identifier `id`, created at the second `now` and
    /// open for `length` seconds: no ballots yet and no winners.  Fails only
    /// if its end cannot be represented.
    pub fn with_id(
        id: String,
        title: String,
        candidates: Vec<String>,
        length: u64,
        num_winners: usize,
        prohibit_double_vote_by_ip: bool,
        now: u64,
    ) -> (r: Result<Poll, ErrorKind>)
        ensures
            match r {
                Ok(poll) => {
                    &&& now + length <= u64::MAX
                    &&& poll@ == new_poll(
                        id@,
                        title@,
                        texts(candidates@),
                        length,
                        num_winners,
                        prohibit_double_vote_by_ip,
                        now,
                    )
                },
                Err(e) => {
                    &&& now + length > u64::MAX
                    &&& e == ErrorKind::Internal(InternalError::InvalidDuration(length))
                },
            },
    {
        let end_time = match now.checked_add(length) {
            Some(end_time) => end_time,
            None => {
                return Err(ErrorKind::Internal(InternalError::InvalidDuration(length)));
            },
        };
        let poll = Poll {
            id,
            title,
            candidates,
            creation_time: now,
            end_time,
            votes: Vec::new(),
            num_winners,
            winners: None,
            method: VotingMethod::Schulze,
            prohibit_double_vote_by_ip,
        };
        assert(poll@.votes =~= Seq::empty());
        Ok(poll)
    }

    /// A new poll, created at the second `now` and open for `length`
    /// seconds.  It gets the identifier `id` where one is given, and one made
    /// of a random number where none is.
    pub fn new(
        id: Option<String>,
        title: String,
        candidates: Vec<String>,
        length: u64,
        num_winners: usize,
        prohibit_double_vote_by_ip: bool,
        now: u64,
    ) -> (r: Result<Poll, ErrorKind>)
        ensures
            match r {
                Ok(poll) => {
                    &&& now + length <= u64::MAX
                    &&& poll@ == new_poll(
                        poll@.id,
                        title@,
                        texts(candidates@),
                        length,
                        num_winners,
                        prohibit_double_vote_by_ip,
                        now,
                    )
                    &&& match id {
                        Some(given) => poll@.id == given@,
                        None => exists|seed: u64| poll@.id == padded_hex(seed),
                    }
                },
                Err(e) => {
                    &&& now + length > u64::MAX
                    &&& e == ErrorKind::Internal(InternalError::InvalidDuration(length))
                },
            },
    {
        let id = match id {
            Some(given) => given,
            None => poll_id_from(random_seed()),
        };
        Poll::with_id(id, title, candidates, length, num_winners, prohibit_double_vote_by_ip, now)
    }
}


/// Whether a ballot from this address is among the ballots.
pub open spec fn has_voted(votes: Seq<BallotView>, voter: VoterIp) -> bool {
    exists|i: int| 0 <= i < votes.len() && (#[trigger] votes[i]).voter == voter
}

/// The poll is due for closing: it has no winners yet, and its end has come.
pub open spec fn is_due(poll: PollView, now: u64) -> bool {
    poll.winners is None && now >= poll.end_time
}

/// The poll as it is once it has been closed.
pub open spec fn closed(poll: PollView) -> PollView {
    PollView {
        winners: Some(schulze_ranking(poll.candidates, rankings(poll.votes), poll.num_winners)),
        ..poll
    }
}

/// The ballots of the poll are in order: every one of them is valid for the
/// candidates of the poll, and where the poll takes one ballot from every
/// address, no two of them come from one address.
pub open spec fn ballots_sound(poll: PollView) -> bool {
    &&& forall|i: int|
        0 <= i < poll.votes.len() ==> ballot_valid(poll.candidates, (#[trigger] poll.votes[i]).choices)
    &&& poll.prohibit_double_vote_by_ip ==> forall|i: int, j: int|
        0 <= i < poll.votes.len() && 0 <= j < poll.votes.len() && i != j ==> (#[trigger] poll.votes[i]).voter
            != (#[trigger] poll.votes[j]).voter
}

/// The first ballots of a poll whose ballots are in order can be tallied.
proof fn lemma_sound_ballots_tally_upto(poll: PollView, upto: int)
    requires
        ballots_sound(poll),
        0 <= upto <= poll.votes.len(),
    ensures
        tally_error(poll.candidates, rankings(poll.votes).take(upto)) is None,
    decreases upto,
{
    let ballots = rankings(poll.votes).take(upto);
    if upto > 0 {
        lemma_sound_ballots_tally_upto(poll, upto - 1);
        assert(ballots.drop_last() == rankings(poll.votes).take(upto - 1));
    }
}

/// Ballots that are in order can be tallied: a poll that has taken only
/// ballots that were valid when they came can always be closed.
pub proof fn lemma_sound_ballots_tally(poll: PollView)
    requires
        ballots_sound(poll),
    ensures
        tally_error(poll.candidates, rankings(poll.votes)) is None,
{
    lemma_sound_ballots_tally_upto(poll, poll.votes.len() as int);
    assert(rankings(poll.votes).take(poll.votes.len() as int) == rankings(poll.votes));
}

impl Poll {
    /// Whether the poll has been closed: its winners have been found.
    pub fn is_closed(&self) -> (b: bool)
        ensures
            b == (self@.winners is Some),
    {
        self.winners.is_some()
    }

    /// Checks that this address may cast a ballot: in a poll that takes one
    /// ballot from every address, it has cast none yet.
    pub fn check_unique(&self, voter_ip: VoterIp) -> (r: Result<(), VisibleError>)
        ensures
            r is Ok <==> !(self@.prohibit_double_vote_by_ip && has_voted(self@.votes, voter_ip)),
            r matches Err(e) ==> e == VisibleError::DuplicateVote,
    {
        if !self.prohibit_double_vote_by_ip {
            return Ok(());
        }
        let mut i: usize = 0;
        while i < self.votes.len()
            invariant
                i <= self.votes@.len(),
                self.prohibit_double_vote_by_ip,
                forall|j: int| 0 <= j < i ==> (#[trigger] self@.votes[j]).voter != voter_ip,
            decreases self.votes@.len() - i,
        {
            if self.votes[i].voter_ip == voter_ip {
                assert(self@.votes[i as int].voter == voter_ip);
                return Err(VisibleError::DuplicateVote);
            }
            i += 1;
        }
        Ok(())
    }

    /// Checks a ranking against the candidates of the poll.
    pub fn validate(&self, choices: &Vec<String>) -> (r: Result<(), VisibleError>)
        ensures
            match r {
                Ok(_) => ballot_valid(self@.candidates, texts(choices@)),
                Err(e) => !ballot_valid(self@.candidates, texts(choices@)) && ballot_rejection(
                    self@.candidates,
                    texts(choices@),
                    e,
                ),
            },
    {
        validate_choices(&self.candidates, choices)
    }

    /// Closes the poll if it is due: open, with its end reached.  Says
    /// whether it was.  A poll that is not due, or whose ballots cannot be
    /// tallied, stays as it is.
    pub fn close_if_due(&mut self, now: u64) -> (r: Result<bool, ErrorKind>)
        ensures
            match r {
                Ok(was_due) => {
                    &&& was_due == is_due(old(self)@, now)
                    &&& final(self)@ == if was_due {
                        closed(old(self)@)
                    } else {
                        old(self)@
                    }
                    &&& was_due ==> tally_error(old(self)@.candidates, rankings(old(self)@.votes))
                        is None
                },
                Err(e) => {
                    &&& is_due(old(self)@, now)
                    &&& tally_error(old(self)@.candidates, rankings(old(self)@.votes)) matches Some(
                        fault,
                    )
                    &&& e == ErrorKind::Internal(InternalError::Tally(fault))
                    &&& *final(self) == *old(self)
                },
            },
    {
        if self.winners.is_none() && now >= self.end_time {
            match self.finish() {
                Ok(_) => Ok(true),
                Err(e) => Err(e),
            }
        } else {
            Ok(false)
        }
    }
}


} // verus!
