//! Ballots and the rules that a ballot must meet to be accepted.

use crate::error::VisibleError;
use crate::tally::pairwise::first_place;
use crate::text::texts;
use vstd::prelude::*;

verus! {

/// The Internet address that a ballot came from.  It identifies the voter
/// and means nothing else.
#[derive(Debug, Clone, Copy, PartialEq, Eq, Structural)]
pub enum VoterIp {
    /// An IPv4 address: its four bytes as one number, the first byte highest.
    V4(u32),
    /// An IPv6 address: its sixteen bytes as one number, the first byte
    /// highest.
    V6(u128),
}

impl VoterIp {
    /// The IPv4 address `a.b.c.d`.
    pub fn v4(a: u8, b: u8, c: u8, d: u8) -> (ip: VoterIp)
        ensures
            ip == VoterIp::V4(((a as u32) << 24) | ((b as u32) << 16) | ((c as u32) << 8) | (d as u32)),
    {
        VoterIp::V4(((a as u32) << 24) | ((b as u32) << 16) | ((c as u32) << 8) | (d as u32))
    }
}

/// A ballot: the names that a voter ranks, and where it came from.
#[derive(Debug, PartialEq)]
pub struct RankedChoiceVote {
    /// idx 0 is 1st choice, etc
    pub ranked_choices: Vec<String>,
    pub voter_ip: VoterIp,
}

/// A ballot as a mathematical value.
pub struct BallotView {
    pub choices: Seq<Seq<char>>,
    pub voter: VoterIp,
}

impl View for RankedChoiceVote {
    type V = BallotView;

    open spec fn view(&self) -> BallotView {
        BallotView { choices: texts(self.ranked_choices@), voter: self.voter_ip }
    }
}

impl Clone for RankedChoiceVote {
    fn clone(&self) -> (copy: RankedChoiceVote)
        ensures
            copy@ == self@,
    {
        let ranked_choices = self.ranked_choices.clone();
        RankedChoiceVote { ranked_choices, voter_ip: self.voter_ip }
    }
}

/// The choice at place `i` is the first that names nobody who stands.
pub open spec fn first_unknown_at(names: Seq<Seq<char>>, choices: Seq<Seq<char>>, i: int) -> bool {
    &&& 0 <= i < choices.len()
    &&& !names.contains(choices[i])
    &&& forall|j: int| 0 <= j < i ==> names.contains(#[trigger] choices[j])
}

/// The choice at place `i` is the first that repeats an earlier one.
pub open spec fn first_repeat_at(choices: Seq<Seq<char>>, i: int) -> bool {
    &&& 0 <= i < choices.len()
    &&& exists|j: int| 0 <= j < i && #[trigger] choices[j] == choices[i]
    &&& choices.take(i).no_duplicates()
}

/// Every choice names a candidate.
pub open spec fn all_known(names: Seq<Seq<char>>, choices: Seq<Seq<char>>) -> bool {
    forall|j: int| 0 <= j < choices.len() ==> names.contains(#[trigger] choices[j])
}

/// What a ballot must meet to be accepted in a poll with these candidates:
/// it ranks at least one name and no more names than there are candidates,
/// every name is a candidate's, and no name comes twice.
pub open spec fn ballot_valid(names: Seq<Seq<char>>, choices: Seq<Seq<char>>) -> bool {
    &&& 1 <= choices.len() <= names.len()
    &&& all_known(names, choices)
    &&& choices.no_duplicates()
}

/// The error that a ballot which is not valid is rejected with.  The rules
/// are tried in order: the number of names, then that every name is known,
/// then that none comes twice; the first rule that fails gives the error, and
/// within a rule the first name that breaks it.
pub open spec fn ballot_rejection(
    names: Seq<Seq<char>>,
    choices: Seq<Seq<char>>,
    e: VisibleError,
) -> bool {
    if choices.len() == 0 {
        e == VisibleError::EmptyChoices(names.len() as usize)
    } else if choices.len() > names.len() {
        e == VisibleError::TooManyChoices(names.len() as usize)
    } else if !all_known(names, choices) {
        &&& e matches VisibleError::UnknownCandidate(name)
        &&& exists|i: int| first_unknown_at(names, choices, i) && name@ == choices[i]
    } else {
        &&& !choices.no_duplicates()
        &&& e matches VisibleError::DuplicateCandidate(name)
        &&& exists|i: int| first_repeat_at(choices, i) && name@ == choices[i]
    }
}

/// The place of the first choice that names nobody who stands, if there is
/// one.
pub fn first_unknown(candidates: &Vec<String>, choices: &Vec<String>) -> (r: Option<usize>)
    ensures
        match r {
            Some(i) => first_unknown_at(texts(candidates@), texts(choices@), i as int),
            None => all_known(texts(candidates@), texts(choices@)),
        },
{
    let ghost names = texts(candidates@);
    let ghost marks = texts(choices@);
    let mut i: usize = 0;
    while i < choices.len()
        invariant
            i <= choices@.len(),
            names == texts(candidates@),
            marks == texts(choices@),
            forall|j: int| 0 <= j < i ==> names.contains(#[trigger] marks[j]),
        decreases choices@.len() - i,
    {
        let p = first_place(candidates, &choices[i]);
        if p >= candidates.len() {
            return Some(i);
        }
        assert(names[p as int] == marks[i as int]);
        i += 1;
    }
    None
}

/// The place of the first choice that repeats an earlier one, if there is
/// one.
pub fn first_repeat(choices: &Vec<String>) -> (r: Option<usize>)
    ensures
        match r {
            Some(i) => first_repeat_at(texts(choices@), i as int) && !texts(
                choices@,
            ).no_duplicates(),
            None => texts(choices@).no_duplicates(),
        },
{
    let ghost marks = texts(choices@);
    let mut i: usize = 0;
    while i < choices.len()
        invariant
            i <= choices@.len(),
            marks == texts(choices@),
            marks.take(i as int).no_duplicates(),
        decreases choices@.len() - i,
    {
        let p = first_place(choices, &choices[i]);
        if p < i {
            assert(marks[p as int] == marks[i as int] && p != i);
            return Some(i);
        }
        i += 1;
    }
    assert(marks.take(i as int) == marks);
    None
}

/// Checks a ballot against the candidates of a poll.
pub fn validate_choices(candidates: &Vec<String>, choices: &Vec<String>) -> (r: Result<
    (),
    VisibleError,
>)
    ensures
        match r {
            Ok(_) => ballot_valid(texts(candidates@), texts(choices@)),
            Err(e) => !ballot_valid(texts(candidates@), texts(choices@)) && ballot_rejection(
                texts(candidates@),
                texts(choices@),
                e,
            ),
        },
{
    if choices.len() == 0 {
        return Err(VisibleError::EmptyChoices(candidates.len()));
    }
    if choices.len() > candidates.len() {
        return Err(VisibleError::TooManyChoices(candidates.len()));
    }
    match first_unknown(candidates, choices) {
        Some(i) => {
            return Err(VisibleError::UnknownCandidate(choices[i].clone()));
        },
        None => {},
    }
    match first_repeat(choices) {
        Some(i) => Err(VisibleError::DuplicateCandidate(choices[i].clone())),
        None => Ok(()),
    }
}

} // verus!
