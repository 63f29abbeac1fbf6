//! The storage that the polls are kept in: what is asked of it, and a store
//! in memory that meets it.

use crate::ballot::{BallotView, RankedChoiceVote};
use crate::error::{ErrorKind, InternalError, VisibleError};
use crate::poll::{has_voted, votes_view, Poll, PollView};
use crate::tally::fill::{ranked_view, Ranked, RankedCandidate};
use vstd::prelude::*;

verus! {

/// The poll with one more ballot at the end.
pub open spec fn with_vote(poll: PollView, vote: BallotView) -> PollView {
    PollView { votes: poll.votes.push(vote), ..poll }
}

/// The poll with these winners, if it has none yet; the poll as it is, if it
/// has winners already: the winners written first stay.
pub open spec fn with_winners(poll: PollView, winners: Ranked) -> PollView {
    if poll.winners is None {
        PollView { winners: Some(winners), ..poll }
    } else {
        poll
    }
}

/// The ballot would be a second from its address in a poll that takes one
/// ballot from every address.
pub open spec fn conflicts(poll: PollView, vote: BallotView) -> bool {
    poll.prohibit_double_vote_by_ip && has_voted(poll.votes, vote.voter)
}

/// Generic database trait: a store of polls by identifier.
///
/// Every operation may fail, with an internal error, and then leaves the
/// polls as they were.  Where it succeeds, it has done to the polls what is
/// said here.  A store that is dependable fails only where that is said
/// here.
pub trait Database {
    /// The polls in the store, by identifier.
    spec fn polls(&self) -> Map<Seq<char>, PollView>;

    /// The store never fails for reasons of its own, such as a connection
    /// that is lost.
    spec fn dependable(&self) -> bool;

    /// The poll with this identifier, if there is one.  The store stays as
    /// it is.
    fn get_poll_by_id(&mut self, id: &String) -> (r: Result<Option<Poll>, ErrorKind>)
        ensures
            final(self).polls() == old(self).polls(),
            final(self).dependable() == old(self).dependable(),
            match r {
                Ok(Some(poll)) => old(self).polls().contains_key(id@) && poll@ == old(
                    self,
                ).polls()[id@],
                Ok(None) => !old(self).polls().contains_key(id@),
                Err(e) => e is Internal && !old(self).dependable(),
            },
    ;

    /// Stores a new poll.  Succeeds only if no poll had its identifier.
    fn add_poll(&mut self, poll: &Poll) -> (r: Result<(), ErrorKind>)
        ensures
            final(self).dependable() == old(self).dependable(),
            old(self).dependable() && !old(self).polls().contains_key(poll@.id) ==> r is Ok,
            match r {
                Ok(_) => {
                    &&& !old(self).polls().contains_key(poll@.id)
                    &&& final(self).polls() == old(self).polls().insert(poll@.id, poll@)
                },
                Err(e) => e is Internal && final(self).polls() == old(self).polls(),
            },
    ;

    /// Appends a ballot to the ballots of the poll with this identifier.
    /// Where the poll takes one ballot from every address, this never
    /// succeeds for an address that has a ballot in the poll already: the
    /// storage itself keeps a second ballot out, whoever asks.  It may then
    /// say that the address has voted already.
    fn add_vote_to_poll(&mut self, id: &String, vote: &RankedChoiceVote) -> (r: Result<
        (),
        ErrorKind,
    >)
        ensures
            final(self).dependable() == old(self).dependable(),
            old(self).dependable() && old(self).polls().contains_key(id@) && !conflicts(
                old(self).polls()[id@],
                vote@,
            ) ==> r is Ok,
            match r {
                Ok(_) => {
                    &&& old(self).polls().contains_key(id@)
                    &&& !conflicts(old(self).polls()[id@], vote@)
                    &&& final(self).polls() == old(self).polls().insert(
                        id@,
                        with_vote(old(self).polls()[id@], vote@),
                    )
                },
                Err(e) => {
                    &&& final(self).polls() == old(self).polls()
                    &&& e is Internal || {
                        &&& e == ErrorKind::PubliclyVisible(VisibleError::DuplicateVote)
                        &&& old(self).polls().contains_key(id@)
                        &&& conflicts(old(self).polls()[id@], vote@)
                    }
                },
            },
    ;

    /// Writes the winners of the poll with this identifier, unless the poll
    /// has winners already.
    fn set_poll_winners(&mut self, id: &String, winners: &Vec<RankedCandidate>) -> (r: Result<
        (),
        ErrorKind,
    >)
        ensures
            final(self).dependable() == old(self).dependable(),
            old(self).dependable() && old(self).polls().contains_key(id@) ==> r is Ok,
            match r {
                Ok(_) => {
                    &&& old(self).polls().contains_key(id@)
                    &&& final(self).polls() == old(self).polls().insert(
                        id@,
                        with_winners(old(self).polls()[id@], ranked_view(winners@)),
                    )
                },
                Err(e) => e is Internal && final(self).polls() == old(self).polls(),
            },
    ;
}

/// The place of the poll that answers for an identifier among the polls of a
/// store in memory: the last with this identifier.
pub open spec fn place_of(polls: Seq<Poll>, id: Seq<char>) -> Option<int>
    decreases polls.len(),
{
    if polls.len() == 0 {
        None
    } else if polls.last().id@ == id {
        Some(polls.len() - 1)
    } else {
        place_of(polls.drop_last(), id)
    }
}

/// The polls of a store in memory by identifier.
pub open spec fn polls_by_id(polls: Seq<Poll>) -> Map<Seq<char>, PollView> {
    Map::new(
        |id: Seq<char>| place_of(polls, id) is Some,
        |id: Seq<char>| polls[place_of(polls, id).unwrap()]@,
    )
}

/// The place found for an identifier holds a poll with that identifier.
pub proof fn lemma_place_of(polls: Seq<Poll>, id: Seq<char>)
    ensures
        place_of(polls, id) matches Some(at) ==> 0 <= at < polls.len() && polls[at].id@ == id,
    decreases polls.len(),
{
    if polls.len() > 0 && polls.last().id@ != id {
        lemma_place_of(polls.drop_last(), id);
    }
}

/// Polls with the same identifiers at the same places answer for the same
/// identifiers.
pub proof fn lemma_place_of_same_ids(a: Seq<Poll>, b: Seq<Poll>, id: Seq<char>)
    requires
        a.len() == b.len(),
        forall|i: int| 0 <= i < a.len() ==> (#[trigger] a[i]).id@ == b[i].id@,
    ensures
        place_of(a, id) == place_of(b, id),
    decreases a.len(),
{
    if a.len() > 0 {
        if a.last().id@ != id {
            lemma_place_of_same_ids(a.drop_last(), b.drop_last(), id);
        }
    }
}

/// A poll put at the end answers for its identifier from then on, and the
/// other identifiers are answered for as before.
pub proof fn lemma_polls_pushed(before: Seq<Poll>, poll: Poll)
    ensures
        polls_by_id(before.push(poll)) == polls_by_id(before).insert(poll.id@, poll@),
{
    let after = before.push(poll);
    assert(after.drop_last() == before);
    assert forall|key: Seq<char>| #[trigger] polls_by_id(after).contains_key(key) implies polls_by_id(
        after,
    )[key] == polls_by_id(before).insert(poll.id@, poll@)[key] by {
        lemma_place_of(before, key);
    }
}

/// A poll changed in its place, with its identifier kept, answers for its
/// identifier as changed, and the other identifiers are answered for as
/// before.
pub proof fn lemma_polls_updated(before: Seq<Poll>, after: Seq<Poll>, at: int, id: Seq<char>)
    requires
        after.len() == before.len(),
        place_of(before, id) == Some(at),
        0 <= at < before.len(),
        after[at].id@ == id,
        forall|i: int| 0 <= i < before.len() && i != at ==> #[trigger] after[i] == before[i],
    ensures
        polls_by_id(after) == polls_by_id(before).insert(id, after[at]@),
{
    lemma_place_of(before, id);
    assert forall|key: Seq<char>| #[trigger] place_of(after, key) == place_of(before, key) by {
        lemma_place_of_same_ids(after, before, key);
    }
    assert forall|key: Seq<char>| #[trigger] polls_by_id(after).contains_key(key) implies polls_by_id(
        after,
    )[key] == polls_by_id(before).insert(id, after[at]@)[key] by {
        lemma_place_of(before, key);
    }
}

/// A store of polls in memory.
pub struct MemoryDatabase {
    pub stored: Vec<Poll>,
}

impl MemoryDatabase {
    /// A store without polls.
    pub fn new() -> (db: MemoryDatabase)
        ensures
            db.polls() == Map::<Seq<char>, PollView>::empty(),
    {
        let db = MemoryDatabase { stored: Vec::new() };
        db
    }

    /// The place of the poll that answers for an identifier.
    fn find(&self, id: &String) -> (r: Option<usize>)
        ensures
            match r {
                Some(at) => place_of(self.stored@, id@) == Some(at as int) && at < self.stored@.len(),
                None => place_of(self.stored@, id@) is None,
            },
    {
        let mut i: usize = self.stored.len();
        assert(self.stored@.take(i as int) == self.stored@);
        while i > 0
            invariant
                i <= self.stored@.len(),
                place_of(self.stored@, id@) == place_of(self.stored@.take(i as int), id@),
            decreases i,
        {
            let ghost upto = self.stored@.take(i as int);
            assert(upto.drop_last() == self.stored@.take(i - 1));
            if self.stored[i - 1].id == *id {
                return Some(i - 1);
            }
            i -= 1;
        }
        None
    }
}

impl Database for MemoryDatabase {
    open spec fn polls(&self) -> Map<Seq<char>, PollView> {
        polls_by_id(self.stored@)
    }

    /// A store in memory is dependable.
    open spec fn dependable(&self) -> bool {
        true
    }

    fn get_poll_by_id(&mut self, id: &String) -> (r: Result<Option<Poll>, ErrorKind>) {
        match self.find(id) {
            Some(at) => Ok(Some(self.stored[at].clone())),
            None => Ok(None),
        }
    }

    fn add_poll(&mut self, poll: &Poll) -> (r: Result<(), ErrorKind>) {
        match self.find(&poll.id) {
            Some(_) => Err(
                ErrorKind::Internal(
                    InternalError::Database(String::from_str("a poll with this ID exists already")),
                ),
            ),
            None => {
                let ghost before = self.stored@;
                let copy = poll.clone();
                proof {
                    lemma_polls_pushed(before, copy);
                }
                self.stored.push(copy);
                Ok(())
            },
        }
    }

    /// A second ballot from an address, in a poll that takes one ballot from
    /// every address, is refused with the words that the address has voted
    /// already.
    fn add_vote_to_poll(&mut self, id: &String, vote: &RankedChoiceVote) -> (r: Result<
        (),
        ErrorKind,
    >)
        ensures
            r matches Err(e) ==> (e is Internal <==> !old(self).polls().contains_key(id@)),
    {
        match self.find(id) {
            Some(at) => {
                let ghost before = self.stored@;
                proof {
                    lemma_place_of(before, id@);
                }
                match self.stored[at].check_unique(vote.voter_ip) {
                    Err(e) => {
                        return Err(ErrorKind::PubliclyVisible(e));
                    },
                    Ok(_) => {},
                }
                let copy = vote.clone();
                self.stored[at].votes.push(copy);
                proof {
                    let after = self.stored@;
                    assert(votes_view(after[at as int].votes@) =~= votes_view(
                        before[at as int].votes@,
                    ).push(vote@));
                    lemma_polls_updated(before, after, at as int, id@);
                }
                Ok(())
            },
            None => Err(
                ErrorKind::Internal(
                    InternalError::Database(String::from_str("no poll with this ID exists")),
                ),
            ),
        }
    }

    fn set_poll_winners(&mut self, id: &String, winners: &Vec<RankedCandidate>) -> (r: Result<
        (),
        ErrorKind,
    >) {
        match self.find(id) {
            Some(at) => {
                let ghost before = self.stored@;
                proof {
                    lemma_place_of(before, id@);
                }
                if self.stored[at].winners.is_none() {
                    let copied = winners.clone();
                    assert(ranked_view(copied@) =~= ranked_view(winners@));
                    self.stored[at].winners = Some(copied);
                }
                proof {
                    let after = self.stored@;
                    assert(after[at as int]@ == with_winners(
                        before[at as int]@,
                        ranked_view(winners@),
                    ));
                    lemma_polls_updated(before, after, at as int, id@);
                }
                Ok(())
            },
            None => Err(
                ErrorKind::Internal(
                    InternalError::Database(String::from_str("no poll with this ID exists")),
                ),
            ),
        }
    }
}

} // verus!
