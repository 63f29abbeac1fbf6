//! Why the table of strongest paths deserves its name: the strength it gives
//! for a pair of candidates is that of the strongest chain of defeats from
//! the first to the second, and chains of defeats can be joined.

use crate::tally::paths::{
    defeat_strength, strongest_path, widest,
};
use vstd::math::min;
use vstd::prelude::*;

verus! {

/// A walk among `n` candidates: at least two of them, one after the other.
/// A candidate may come more than once.
pub open spec fn is_walk(n: nat, w: Seq<int>) -> bool {
    &&& w.len() >= 2
    &&& forall|i: int| 0 <= i < w.len() ==> 0 <= #[trigger] w[i] < n
}

/// The strength of a walk: that of the weakest defeat between one candidate
/// on it and the next.
pub open spec fn walk_strength(counts: Seq<Seq<int>>, w: Seq<int>) -> int
    decreases w.len(),
{
    if w.len() <= 2 {
        defeat_strength(counts, w[0], w[1])
    } else {
        min(defeat_strength(counts, w[0], w[1]), walk_strength(counts, w.drop_first()))
    }
}

/// Every candidate on the way, the two ends apart, is below `k`.
pub open spec fn passes_below(w: Seq<int>, k: nat) -> bool {
    forall|i: int| 0 < i < w.len() - 1 ==> #[trigger] w[i] < k
}

/// A walk cut in two at one of the candidates on the way is as strong as
/// the weaker of the two parts.
pub proof fn lemma_walk_split(counts: Seq<Seq<int>>, w: Seq<int>, t: int)
    requires
        0 < t < w.len() - 1,
    ensures
        walk_strength(counts, w) == min(
            walk_strength(counts, w.take(t + 1)),
            walk_strength(counts, w.skip(t)),
        ),
    decreases t,
{
    let head = w.take(t + 1);
    let rest = w.drop_first();
    if t > 1 {
        lemma_walk_split(counts, rest, t - 1);
        assert(rest.skip(t - 1) == w.skip(t));
        assert(rest.take(t) == head.drop_first());
    }
}

/// No walk that passes only through candidates below `k` is stronger than
/// the table says for `k`.
pub proof fn lemma_walk_bound(counts: Seq<Seq<int>>, n: nat, k: nat, w: Seq<int>)
    requires
        is_walk(n, w),
        passes_below(w, k),
    ensures
        walk_strength(counts, w) <= widest(counts, k, w[0], w.last()),
    decreases k, w.len(),
{
    if k > 0 {
        let via = (k - 1) as int;
        if exists|t: int| 0 < t < w.len() - 1 && w[t] == via {
            // cut the walk where it passes through `via`
            let t = choose|t: int| 0 < t < w.len() - 1 && w[t] == via;
            lemma_walk_split(counts, w, t);
            lemma_walk_bound(counts, n, k, w.take(t + 1));
            lemma_walk_bound(counts, n, k, w.skip(t));
        } else {
            lemma_walk_bound(counts, n, (k - 1) as nat, w);
        }
    }
}

/// For every pair of candidates there is a walk from the first to the
/// second, through candidates below `k` only, that is as strong as the table
/// says for `k`.
pub proof fn lemma_widest_walk(counts: Seq<Seq<int>>, n: nat, k: nat, i: int, j: int) -> (w: Seq<
    int,
>)
    requires
        0 <= i < n,
        0 <= j < n,
        k <= n,
    ensures
        is_walk(n, w),
        w[0] == i,
        w.last() == j,
        passes_below(w, k),
        walk_strength(counts, w) == widest(counts, k, i, j),
    decreases k,
{
    if k == 0 {
        seq![i, j]
    } else {
        let via = (k - 1) as int;
        let direct = widest(counts, (k - 1) as nat, i, j);
        let detour = min(
            widest(counts, (k - 1) as nat, i, via),
            widest(counts, (k - 1) as nat, via, j),
        );
        if direct >= detour {
            lemma_widest_walk(counts, n, (k - 1) as nat, i, j)
        } else {
            let head = lemma_widest_walk(counts, n, (k - 1) as nat, i, via);
            let tail = lemma_widest_walk(counts, n, (k - 1) as nat, via, j);
            let w = head + tail.drop_first();
            let t = head.len() - 1;
            assert(w.take(t + 1) == head);
            assert(w.skip(t) == tail);
            lemma_walk_split(counts, w, t);
            w
        }
    }
}

/// No walk from one candidate to another is stronger than the strongest path
/// between them.
pub proof fn lemma_no_walk_is_stronger(counts: Seq<Seq<int>>, w: Seq<int>)
    requires
        is_walk(counts.len(), w),
    ensures
        walk_strength(counts, w) <= strongest_path(counts, w[0], w.last()),
{
    lemma_walk_bound(counts, counts.len(), counts.len(), w);
}

/// Between any two candidates there is a walk as strong as the strongest
/// path: the strength in the table is that of a chain of defeats that exists.
pub proof fn lemma_strongest_path_exists(counts: Seq<Seq<int>>, i: int, j: int) -> (w: Seq<int>)
    requires
        0 <= i < counts.len(),
        0 <= j < counts.len(),
    ensures
        is_walk(counts.len(), w),
        w[0] == i,
        w.last() == j,
        walk_strength(counts, w) == strongest_path(counts, i, j),
{
    lemma_widest_walk(counts, counts.len(), counts.len(), i, j)
}

/// Strongest paths can be joined: the strongest path from `i` to `j` is at
/// least as strong as the weaker of the strongest paths from `i` to `via`
/// and from `via` to `j`.
pub proof fn lemma_paths_join(counts: Seq<Seq<int>>, i: int, via: int, j: int)
    requires
        0 <= i < counts.len(),
        0 <= via < counts.len(),
        0 <= j < counts.len(),
    ensures
        strongest_path(counts, i, j) >= min(
            strongest_path(counts, i, via),
            strongest_path(counts, via, j),
        ),
{
    let head = lemma_strongest_path_exists(counts, i, via);
    let tail = lemma_strongest_path_exists(counts, via, j);
    let w = head + tail.drop_first();
    let t = head.len() - 1;
    assert(w.take(t + 1) == head);
    assert(w.skip(t) == tail);
    lemma_walk_split(counts, w, t);
    lemma_no_walk_is_stronger(counts, w);
}

/// Beating is passed on: if `a` beats `b` and `b` beats `c` by their
/// strongest paths, then `a` beats `c`.
pub proof fn lemma_beating_is_transitive(counts: Seq<Seq<int>>, a: int, b: int, c: int)
    requires
        0 <= a < counts.len(),
        0 <= b < counts.len(),
        0 <= c < counts.len(),
        strongest_path(counts, a, b) > strongest_path(counts, b, a),
        strongest_path(counts, b, c) > strongest_path(counts, c, b),
    ensures
        strongest_path(counts, a, c) > strongest_path(counts, c, a),
{
    lemma_paths_join(counts, a, b, c);
    lemma_paths_join(counts, b, c, a);
    lemma_paths_join(counts, c, a, b);
}

} // verus!
