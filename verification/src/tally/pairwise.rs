//! Pairwise counts: for every ordered pair of candidates, the number of
//! ballots that prefer the first to the second.

use crate::text::texts;
use vstd::prelude::*;

verus! {

/// A ballot as the tally sees it: names in order of preference, best first.
pub type BallotText = Seq<Seq<char>>;

/// The ballot prefers `a` to `b`: `a` is ranked, and `b` is not ranked at or
/// before the place where `a` stands.  So a ranked candidate is preferred to
/// every candidate that the ballot leaves out, and between two candidates
/// that are both left out there is no preference either way.
pub open spec fn prefers(ballot: BallotText, a: Seq<char>, b: Seq<char>) -> bool {
    exists|i: int|
        0 <= i < ballot.len() && #[trigger] ballot[i] == a && forall|j: int|
            0 <= j <= i ==> #[trigger] ballot[j] != b
}

/// On a ballot that names nobody twice, `a` is preferred to `b` exactly if
/// `a` stands on the ballot and `b` stands behind `a` or not at all.
pub proof fn lemma_prefers_on_rankings(ballot: BallotText, a: Seq<char>, b: Seq<char>)
    requires
        ballot.no_duplicates(),
    ensures
        prefers(ballot, a, b) <==> exists|i: int|
            0 <= i < ballot.len() && #[trigger] ballot[i] == a && (!ballot.contains(b) || exists|
                j: int,
            |
                i < j < ballot.len() && #[trigger] ballot[j] == b),
{
    if prefers(ballot, a, b) {
        let i = choose|i: int|
            0 <= i < ballot.len() && #[trigger] ballot[i] == a && forall|j: int|
                0 <= j <= i ==> #[trigger] ballot[j] != b;
        if ballot.contains(b) {
            let j = choose|j: int| 0 <= j < ballot.len() && ballot[j] == b;
        }
    }
    if exists|i: int|
        0 <= i < ballot.len() && #[trigger] ballot[i] == a && (!ballot.contains(b) || exists|j: int|
            i < j < ballot.len() && #[trigger] ballot[j] == b) {
        let i = choose|i: int|
            0 <= i < ballot.len() && #[trigger] ballot[i] == a && (!ballot.contains(b) || exists|
                j: int,
            |
                i < j < ballot.len() && #[trigger] ballot[j] == b);
    }
}

/// The number of ballots that prefer `a` to `b`.
pub open spec fn pairwise_count(ballots: Seq<BallotText>, a: Seq<char>, b: Seq<char>) -> nat
    decreases ballots.len(),
{
    if ballots.len() == 0 {
        0
    } else {
        pairwise_count(ballots.drop_last(), a, b) + if prefers(ballots.last(), a, b) {
            1nat
        } else {
            0nat
        }
    }
}

/// A table of `n` rows of `n` numbers each.
pub open spec fn is_square(m: Seq<Seq<int>>, n: nat) -> bool {
    &&& m.len() == n
    &&& forall|i: int| 0 <= i < n ==> (#[trigger] m[i]).len() == n
}

/// The numbers of a table held in vectors.
pub open spec fn table(m: Seq<Vec<u64>>) -> Seq<Seq<int>> {
    Seq::new(m.len(), |i: int| Seq::new(m[i]@.len(), |j: int| m[i]@[j] as int))
}

/// The table of pairwise counts: row `i`, column `j` holds the number of
/// ballots that prefer candidate `i` to candidate `j`.
pub open spec fn pairwise_counts(candidates: Seq<Seq<char>>, ballots: Seq<BallotText>) -> Seq<
    Seq<int>,
> {
    Seq::new(
        candidates.len(),
        |i: int|
            Seq::new(
                candidates.len(),
                |j: int| pairwise_count(ballots, candidates[i], candidates[j]) as int,
            ),
    )
}

/// No more ballots can prefer one candidate to another than there are ballots.
pub proof fn lemma_pairwise_count_bound(ballots: Seq<BallotText>, a: Seq<char>, b: Seq<char>)
    ensures
        pairwise_count(ballots, a, b) <= ballots.len(),
    decreases ballots.len(),
{
    if ballots.len() > 0 {
        lemma_pairwise_count_bound(ballots.drop_last(), a, b);
    }
}

/// The count for a pair is the number of the ballots that prefer the first
/// to the second.
pub proof fn lemma_pairwise_count_counts(ballots: Seq<BallotText>, a: Seq<char>, b: Seq<char>)
    ensures
        pairwise_count(ballots, a, b) == ballots.filter(
            |ballot: BallotText| prefers(ballot, a, b),
        ).len(),
    decreases ballots.len(),
{
    reveal(Seq::filter);
    if ballots.len() > 0 {
        lemma_pairwise_count_counts(ballots.drop_last(), a, b);
    }
}

/// The first place at which `name` stands in `ballot`, or the length of the
/// ballot where it does not stand in it.
pub fn first_place(ballot: &Vec<String>, name: &String) -> (p: usize)
    ensures
        p <= ballot.len(),
        forall|j: int| 0 <= j < p ==> (#[trigger] ballot[j])@ != name@,
        p < ballot.len() ==> ballot[p as int]@ == name@,
{
    let mut p: usize = 0;
    while p < ballot.len()
        invariant
            p <= ballot.len(),
            forall|j: int| 0 <= j < p ==> (#[trigger] ballot[j])@ != name@,
        decreases ballot.len() - p,
    {
        if ballot[p] == *name {
            return p;
        }
        p += 1;
    }
    p
}

/// One if the ballot prefers `a` to `b`, zero otherwise.
pub open spec fn preference(ballot: BallotText, a: Seq<char>, b: Seq<char>) -> int {
    if prefers(ballot, a, b) {
        1
    } else {
        0
    }
}

/// A table of `n` rows and `n` columns that holds `0` everywhere.
pub fn zero_table(n: usize) -> (m: Vec<Vec<u64>>)
    ensures
        is_square(table(m@), n as nat),
        forall|i: int, j: int| 0 <= i < n && 0 <= j < n ==> #[trigger] table(m@)[i][j] == 0,
{
    let mut m: Vec<Vec<u64>> = Vec::new();
    let mut i: usize = 0;
    while i < n
        invariant
            i <= n,
            m@.len() == i,
            forall|r: int| 0 <= r < i ==> (#[trigger] m@[r])@.len() == n,
            forall|r: int, c: int| 0 <= r < i && 0 <= c < n ==> #[trigger] m@[r]@[c] == 0,
        decreases n - i,
    {
        let mut row: Vec<u64> = Vec::new();
        let mut j: usize = 0;
        while j < n
            invariant
                j <= n,
                row@.len() == j,
                forall|c: int| 0 <= c < j ==> row@[c] == 0,
            decreases n - j,
        {
            row.push(0);
            j += 1;
        }
        m.push(row);
        i += 1;
    }
    m
}

/// The first places of all candidates in one ballot.
fn places_in(candidates: &Vec<String>, ballot: &Vec<String>) -> (places: Vec<usize>)
    ensures
        places@.len() == candidates@.len(),
        forall|x: int| 0 <= x < candidates@.len() ==> #[trigger] places@[x] <= ballot@.len(),
        forall|x: int, y: int|
            0 <= x < candidates@.len() && 0 <= y < candidates@.len() ==> (prefers(
                texts(ballot@),
                candidates@[x]@,
                candidates@[y]@,
            ) <==> #[trigger] places@[x] < #[trigger] places@[y]),
{
    let n = candidates.len();
    let ghost marks = texts(ballot@);
    let mut places: Vec<usize> = Vec::new();
    let mut c: usize = 0;
    while c < n
        invariant
            c <= n,
            n == candidates@.len(),
            marks == texts(ballot@),
            places@.len() == c,
            forall|x: int|
                0 <= x < c ==> {
                    let p = #[trigger] places@[x];
                    &&& p <= ballot@.len()
                    &&& forall|j: int| 0 <= j < p ==> #[trigger] marks[j] != candidates@[x]@
                    &&& p < ballot@.len() ==> marks[p as int] == candidates@[x]@
                },
        decreases n - c,
    {
        let p = first_place(ballot, &candidates[c]);
        places.push(p);
        c += 1;
    }
    places
}

/// Adds one to every cell of the row of candidate `i` whose column candidate
/// stands at a later place than `i` does.
fn count_row(row: &mut Vec<u64>, places: &Vec<usize>, i: usize)
    requires
        i < places@.len(),
        old(row)@.len() == places@.len(),
        forall|y: int| 0 <= y < places@.len() ==> #[trigger] old(row)@[y] < u64::MAX,
    ensures
        final(row)@.len() == old(row)@.len(),
        forall|y: int|
            0 <= y < places@.len() ==> #[trigger] final(row)@[y] == old(row)@[y] + if places@[i as int]
                < places@[y] {
                1int
            } else {
                0int
            },
{
    let n = places.len();
    let mut j: usize = 0;
    while j < n
        invariant
            j <= n,
            i < n,
            n == places@.len(),
            row@.len() == n,
            forall|y: int| j <= y < n ==> #[trigger] row@[y] == old(row)@[y],
            forall|y: int| 0 <= y < n ==> #[trigger] old(row)@[y] < u64::MAX,
            forall|y: int|
                0 <= y < j ==> #[trigger] row@[y] == old(row)@[y] + if places@[i as int] < places@[y] {
                    1int
                } else {
                    0int
                },
        decreases n - j,
    {
        if places[i] < places[j] {
            let bumped: u64 = row[j] + 1;
            row[j] = bumped;
        }
        j += 1;
    }
}

/// Counts one more ballot: every cell of the table whose row candidate the
/// ballot prefers to its column candidate grows by one, the others stay.
pub fn count_ballot(counts: &mut Vec<Vec<u64>>, candidates: &Vec<String>, ballot: &Vec<String>)
    requires
        is_square(table(old(counts)@), candidates@.len()),
        forall|i: int, j: int|
            0 <= i < candidates@.len() && 0 <= j < candidates@.len() ==> #[trigger] table(
                old(counts)@,
            )[i][j] < u64::MAX,
    ensures
        is_square(table(final(counts)@), candidates@.len()),
        forall|i: int, j: int|
            0 <= i < candidates@.len() && 0 <= j < candidates@.len() ==> #[trigger] table(
                final(counts)@,
            )[i][j] == table(old(counts)@)[i][j] + preference(
                texts(ballot@),
                candidates@[i]@,
                candidates@[j]@,
            ),
{
    let n = candidates.len();
    let places = places_in(candidates, ballot);
    let ghost before = counts@;
    proof {
        assert forall|x: int| 0 <= x < n implies (#[trigger] before[x])@.len() == n by {
            assert(table(before)[x].len() == n);
        }
        assert forall|x: int, y: int| 0 <= x < n && 0 <= y < n implies #[trigger] before[x]@[y]
            < u64::MAX by {
            assert(table(before)[x][y] < u64::MAX);
        }
    }
    let mut i: usize = 0;
    while i < n
        invariant
            i <= n,
            n == candidates@.len(),
            places@.len() == n,
            before.len() == n,
            counts@.len() == n,
            forall|x: int| 0 <= x < n ==> #[trigger] places@[x] <= ballot@.len(),
            forall|x: int| 0 <= x < n ==> (#[trigger] before[x])@.len() == n,
            forall|x: int| 0 <= x < n ==> (#[trigger] counts@[x])@.len() == n,
            forall|x: int, y: int| 0 <= x < n && 0 <= y < n ==> #[trigger] before[x]@[y] < u64::MAX,
            forall|x: int| i <= x < n ==> #[trigger] counts@[x] == before[x],
            forall|x: int, y: int|
                0 <= x < i && 0 <= y < n ==> #[trigger] counts@[x]@[y] == before[x]@[y] + if places@[x]
                    < places@[y] {
                    1int
                } else {
                    0int
                },
        decreases n - i,
    {
        // a candidate whom the ballot leaves out is preferred to nobody
        if places[i] < ballot.len() {
            count_row(&mut counts[i], &places, i);
        }
        i += 1;
    }
}

} // verus!
