//! Strongest paths: the defeats between candidates and, for every ordered
//! pair, the strength of the strongest chain of defeats from the first to
//! the second.

use crate::tally::pairwise::{is_square, table};
use vstd::math::{max, min};
use vstd::prelude::*;

verus! {

/// The strength of the defeat of `j` by `i`: the number of ballots that
/// prefer `i` to `j` where more ballots do so than prefer `j` to `i`, and
/// zero where `i` does not defeat `j`.
pub open spec fn defeat_strength(counts: Seq<Seq<int>>, i: int, j: int) -> int {
    if counts[i][j] > counts[j][i] {
        counts[i][j]
    } else {
        0
    }
}

/// The strength of the strongest path from `i` to `j` that passes only
/// through candidates below `k` on its way.  The strength of a path is that
/// of its weakest defeat.
pub open spec fn widest(counts: Seq<Seq<int>>, k: nat, i: int, j: int) -> int
    decreases k,
{
    if k == 0 {
        defeat_strength(counts, i, j)
    } else {
        let via = (k - 1) as int;
        max(
            widest(counts, (k - 1) as nat, i, j),
            min(widest(counts, (k - 1) as nat, i, via), widest(counts, (k - 1) as nat, via, j)),
        )
    }
}

/// The strength of the strongest path from `i` to `j` through any candidates.
pub open spec fn strongest_path(counts: Seq<Seq<int>>, i: int, j: int) -> int {
    widest(counts, counts.len(), i, j)
}

/// The table of the strongest paths between all candidates.
pub open spec fn strongest_paths(counts: Seq<Seq<int>>) -> Seq<Seq<int>> {
    Seq::new(
        counts.len(),
        |i: int| Seq::new(counts.len(), |j: int| strongest_path(counts, i, j)),
    )
}

/// Strengths are taken from the counts: none is negative, and none is above
/// `bound` where no count is.
pub proof fn lemma_widest_bounds(counts: Seq<Seq<int>>, n: nat, bound: int, k: nat, i: int, j: int)
    requires
        is_square(counts, n),
        0 <= i < n,
        0 <= j < n,
        k <= n,
        forall|x: int, y: int| 0 <= x < n && 0 <= y < n ==> 0 <= #[trigger] counts[x][y] <= bound,
    ensures
        0 <= widest(counts, k, i, j) <= bound,
    decreases k,
{
    if k > 0 {
        let via = (k - 1) as int;
        lemma_widest_bounds(counts, n, bound, (k - 1) as nat, i, j);
        lemma_widest_bounds(counts, n, bound, (k - 1) as nat, i, via);
    }
}

/// One row of the table of defeats.
fn defeat_row(counts: &Vec<Vec<u64>>, i: usize) -> (row: Vec<u64>)
    requires
        is_square(table(counts@), counts@.len()),
        i < counts@.len(),
    ensures
        row@.len() == counts@.len(),
        forall|j: int|
            0 <= j < counts@.len() ==> #[trigger] row@[j] == defeat_strength(table(counts@), i as int, j),
{
    let n = counts.len();
    let ghost t = table(counts@);
    let mut row: Vec<u64> = Vec::new();
    let mut j: usize = 0;
    while j < n
        invariant
            j <= n,
            i < n,
            n == counts@.len(),
            t == table(counts@),
            is_square(t, n as nat),
            row@.len() == j,
            forall|y: int| 0 <= y < j ==> #[trigger] row@[y] == defeat_strength(t, i as int, y),
        decreases n - j,
    {
        assert(t[i as int].len() == n && t[j as int].len() == n);
        let ahead = counts[i][j];
        let behind = counts[j][i];
        row.push(if ahead > behind { ahead } else { 0 });
        j += 1;
    }
    row
}

/// Relaxes one row of the table through candidate `k`: a path from `i` to
/// `j` may from now on pass through `k`.
fn relax_row(row: &mut Vec<u64>, through: &Vec<u64>, k: usize)
    requires
        k < through@.len(),
        old(row)@.len() == through@.len(),
    ensures
        final(row)@.len() == old(row)@.len(),
        forall|j: int|
            0 <= j < through@.len() ==> #[trigger] final(row)@[j] == max(
                old(row)@[j] as int,
                min(old(row)@[k as int] as int, through@[j] as int),
            ),
{
    let n = through.len();
    let to_k = row[k];
    let mut j: usize = 0;
    while j < n
        invariant
            j <= n,
            k < n,
            n == through@.len(),
            row@.len() == n,
            to_k == old(row)@[k as int],
            forall|y: int| j <= y < n ==> #[trigger] row@[y] == old(row)@[y],
            forall|y: int|
                0 <= y < j ==> #[trigger] row@[y] == max(
                    old(row)@[y] as int,
                    min(to_k as int, through@[y] as int),
                ),
        decreases n - j,
    {
        let onward = through[j];
        let detour = if to_k <= onward { to_k } else { onward };
        if detour > row[j] {
            row[j] = detour;
        }
        j += 1;
    }
}

/// The table of the strongest paths, computed from the table of pairwise
/// counts: first the defeats, then one round of relaxation for every
/// candidate that a path may pass through.
pub fn compute_strongest_paths(counts: &Vec<Vec<u64>>) -> (paths: Vec<Vec<u64>>)
    requires
        is_square(table(counts@), counts@.len()),
    ensures
        table(paths@) == strongest_paths(table(counts@)),
        is_square(table(paths@), counts@.len()),
{
    let n = counts.len();
    let ghost t = table(counts@);
    let mut paths: Vec<Vec<u64>> = Vec::new();
    let mut i: usize = 0;
    while i < n
        invariant
            i <= n,
            n == counts@.len(),
            t == table(counts@),
            is_square(t, n as nat),
            paths@.len() == i,
            forall|r: int| 0 <= r < i ==> (#[trigger] paths@[r])@.len() == n,
            forall|r: int, c: int|
                0 <= r < i && 0 <= c < n ==> #[trigger] paths@[r]@[c] == widest(t, 0, r, c),
        decreases n - i,
    {
        let row = defeat_row(counts, i);
        paths.push(row);
        i += 1;
    }
    let mut k: usize = 0;
    while k < n
        invariant
            k <= n,
            n == counts@.len(),
            t == table(counts@),
            paths@.len() == n,
            forall|r: int| 0 <= r < n ==> (#[trigger] paths@[r])@.len() == n,
            forall|r: int, c: int|
                0 <= r < n && 0 <= c < n ==> #[trigger] paths@[r]@[c] == widest(t, k as nat, r, c),
        decreases n - k,
    {
        let through = paths[k].clone();
        let mut i: usize = 0;
        while i < n
            invariant
                i <= n,
                k < n,
                n == counts@.len(),
                t == table(counts@),
                paths@.len() == n,
                through@.len() == n,
                forall|c: int| 0 <= c < n ==> #[trigger] through@[c] == widest(t, k as nat, k as int, c),
                forall|r: int| 0 <= r < n ==> (#[trigger] paths@[r])@.len() == n,
                forall|r: int, c: int|
                    i <= r < n && 0 <= c < n ==> #[trigger] paths@[r]@[c] == widest(t, k as nat, r, c),
                forall|r: int, c: int|
                    0 <= r < i && 0 <= c < n ==> #[trigger] paths@[r]@[c] == widest(
                        t,
                        (k + 1) as nat,
                        r,
                        c,
                    ),
            decreases n - i,
        {
            relax_row(&mut paths[i], &through, k);
            i += 1;
        }
        k += 1;
    }
    proof {
        assert(table(paths@) =~~= strongest_paths(t));
    }
    paths
}


} // verus!
