//! What holds of the tiers because they are taken from a table of strongest
//! paths: no tier that is taken is empty, so that the ranking names enough
//! candidates; and with no ballots at all everybody is in the first tier.

use crate::tally::pairwise::{pairwise_counts, BallotText};
use crate::tally::paths::{lemma_widest_bounds, strongest_path, strongest_paths};
use crate::tally::tiers::{
    in_tier, lemma_pool_size_bound, lemma_pool_size_monotone, lemma_taken_stops,
    pool_at, pool_size, ranking, ranking_before, tier_members, tier_taken, undefeated,
};
use crate::tally::walks::lemma_beating_is_transitive;
use vstd::prelude::*;

verus! {

/// A pool that is not empty has a member.
pub proof fn lemma_pool_member(pool: Seq<bool>) -> (x: int)
    requires
        pool_size(pool) > 0,
    ensures
        0 <= x < pool.len(),
        pool[x],
    decreases pool.len(),
{
    if pool.last() {
        pool.len() - 1
    } else {
        lemma_pool_member(pool.drop_last())
    }
}

/// A pool that lies within another and lacks one of its members is smaller.
pub proof fn lemma_pool_size_smaller(inner: Seq<bool>, outer: Seq<bool>, gone: int)
    requires
        inner.len() == outer.len(),
        forall|x: int| 0 <= x < inner.len() && inner[x] ==> outer[x],
        0 <= gone < outer.len(),
        outer[gone],
        !inner[gone],
    ensures
        pool_size(inner) < pool_size(outer),
    decreases inner.len(),
{
    if gone == inner.len() - 1 {
        lemma_pool_size_monotone(inner.drop_last(), outer.drop_last());
    } else {
        lemma_pool_size_smaller(inner.drop_last(), outer.drop_last(), gone);
    }
}

/// Among the members of the pool below `upto` there is one that none of them
/// beats, where the table is one of strongest paths.
pub proof fn lemma_champion(counts: Seq<Seq<int>>, pool: Seq<bool>, upto: nat) -> (c: int)
    requires
        pool.len() == counts.len(),
        upto <= pool.len(),
        exists|x: int| 0 <= x < upto && pool[x],
    ensures
        0 <= c < upto,
        pool[c],
        forall|y: int|
            0 <= y < upto && #[trigger] pool[y] && y != c ==> strongest_path(counts, c, y)
                >= strongest_path(counts, y, c),
    decreases upto,
{
    let last = upto - 1;
    if exists|x: int| 0 <= x < last && pool[x] {
        let before = lemma_champion(counts, pool, last as nat);
        if pool[last] && strongest_path(counts, last, before) > strongest_path(
            counts,
            before,
            last,
        ) {
            assert forall|y: int| 0 <= y < upto && #[trigger] pool[y] && y != last implies strongest_path(
                counts,
                last,
                y,
            ) >= strongest_path(counts, y, last) by {
                if y != before && strongest_path(counts, y, last) > strongest_path(counts, last, y) {
                    lemma_beating_is_transitive(counts, y, last, before);
                }
            }
            last
        } else {
            before
        }
    } else {
        last
    }
}

/// A tier taken from a pool that is not empty is not empty, where the table
/// is one of strongest paths.
pub proof fn lemma_tier_not_empty(counts: Seq<Seq<int>>, t: nat) -> (x: int)
    requires
        pool_size(pool_at(strongest_paths(counts), t)) > 0,
    ensures
        0 <= x < counts.len(),
        in_tier(strongest_paths(counts), t, x),
{
    let paths = strongest_paths(counts);
    let pool = pool_at(paths, t);
    lemma_pool_member(pool);
    lemma_champion(counts, pool, pool.len())
}

/// Taking a tier from a pool that is not empty makes the pool smaller,
/// where the table is one of strongest paths.
pub proof fn lemma_pool_shrinks(counts: Seq<Seq<int>>, t: nat)
    requires
        pool_size(pool_at(strongest_paths(counts), t)) > 0,
    ensures
        pool_size(pool_at(strongest_paths(counts), t + 1)) < pool_size(
            pool_at(strongest_paths(counts), t),
        ),
{
    let paths = strongest_paths(counts);
    let x = lemma_tier_not_empty(counts, t);
    lemma_pool_size_smaller(pool_at(paths, t + 1), pool_at(paths, t), x);
}

/// A tier has as many members as the pool loses when the tier is taken.
pub proof fn lemma_tier_size(paths: Seq<Seq<int>>, t: nat, upto: nat)
    requires
        upto <= paths.len(),
    ensures
        tier_members(paths, t, upto).len() + pool_size(pool_at(paths, t + 1).take(upto as int))
            == pool_size(pool_at(paths, t).take(upto as int)),
    decreases upto,
{
    if upto > 0 {
        lemma_tier_size(paths, t, (upto - 1) as nat);
        assert(pool_at(paths, t).take(upto as int).drop_last() == pool_at(paths, t).take(upto - 1));
        assert(pool_at(paths, t + 1).take(upto as int).drop_last() == pool_at(paths, t + 1).take(
            upto - 1,
        ));
    }
}

/// While every tier is taken, the ranking holds everybody who has left the
/// pool.
pub proof fn lemma_ranking_len(paths: Seq<Seq<int>>, wanted: nat, t: nat)
    requires
        forall|s: nat| s < t ==> tier_taken(paths, wanted, s),
    ensures
        ranking_before(paths, wanted, t).len() + pool_size(pool_at(paths, t)) == paths.len(),
    decreases t,
{
    if t == 0 {
        lemma_full_pool(paths.len());
    } else {
        lemma_ranking_len(paths, wanted, (t - 1) as nat);
        lemma_tier_size(paths, (t - 1) as nat, paths.len());
        assert(pool_at(paths, t).take(paths.len() as int) == pool_at(paths, t));
        assert(pool_at(paths, (t - 1) as nat).take(paths.len() as int) == pool_at(
            paths,
            (t - 1) as nat,
        ));
    }
}

/// The pool that everybody is in has as many members as places.
pub proof fn lemma_full_pool(n: nat)
    ensures
        pool_size(Seq::new(n, |x: int| true)) == n,
    decreases n,
{
    if n > 0 {
        lemma_full_pool((n - 1) as nat);
        assert(Seq::new(n, |x: int| true).drop_last() == Seq::new((n - 1) as nat, |x: int| true));
    }
}

/// The first tier from `t` on that is not taken.  There is one among the
/// first `n` tiers, because every tier that is taken makes the pool smaller.
pub proof fn lemma_first_tier_not_taken(counts: Seq<Seq<int>>, wanted: nat, t: nat) -> (stop: nat)
    requires
        forall|s: nat| s < t ==> tier_taken(strongest_paths(counts), wanted, s),
        pool_size(pool_at(strongest_paths(counts), t)) + t <= counts.len(),
    ensures
        t <= stop <= counts.len(),
        forall|s: nat| s < stop ==> tier_taken(strongest_paths(counts), wanted, s),
        !tier_taken(strongest_paths(counts), wanted, stop),
    decreases counts.len() - t,
{
    let paths = strongest_paths(counts);
    if !tier_taken(paths, wanted, t) {
        t
    } else {
        lemma_pool_shrinks(counts, t);
        lemma_first_tier_not_taken(counts, wanted, t + 1)
    }
}

/// The ranking names at least as many candidates as are wanted, or all of
/// them where fewer stand; it never names more than stand.
pub proof fn lemma_ranking_names_enough(counts: Seq<Seq<int>>, wanted: nat)
    ensures
        ranking(strongest_paths(counts), wanted).len() >= wanted || ranking(
            strongest_paths(counts),
            wanted,
        ).len() == counts.len(),
        ranking(strongest_paths(counts), wanted).len() <= counts.len(),
{
    let paths = strongest_paths(counts);
    let n = counts.len();
    lemma_pool_size_bound(pool_at(paths, 0));
    let stop = lemma_first_tier_not_taken(counts, wanted, 0);
    lemma_ranking_len(paths, wanted, stop);
    lemma_taken_stops(paths, wanted, stop, n);
}

/// Where no strongest path is stronger than another, everybody below `upto`
/// is in the first tier.
proof fn lemma_first_tier_is_everybody(paths: Seq<Seq<int>>, upto: nat)
    requires
        upto <= paths.len(),
        forall|x: int| 0 <= x < paths.len() ==> undefeated(paths, pool_at(paths, 0), x),
    ensures
        tier_members(paths, 0, upto) == Seq::new(upto, |x: int| (x, 0int)),
    decreases upto,
{
    if upto > 0 {
        lemma_first_tier_is_everybody(paths, (upto - 1) as nat);
    }
}

/// With no ballots the ranking is one tier that everybody is in, in the
/// order of the candidates.
pub proof fn lemma_no_ballots_one_tier(candidates: Seq<Seq<char>>, wanted: nat)
    ensures
        ranking(
            strongest_paths(pairwise_counts(candidates, Seq::<BallotText>::empty())),
            wanted,
        ) == Seq::new(candidates.len(), |x: int| (x, 0int)),
{
    let n = candidates.len();
    let counts = pairwise_counts(candidates, Seq::<BallotText>::empty());
    let paths = strongest_paths(counts);
    assert forall|x: int, y: int| 0 <= x < n && 0 <= y < n implies #[trigger] paths[x][y] == 0 by {
        lemma_widest_bounds(counts, n, 0, n, x, y);
    }
    lemma_first_tier_is_everybody(paths, n);
    if n > 0 {
        assert(ranking_before(paths, wanted, 1) == ranking_before(paths, wanted, 0) + tier_members(
            paths,
            0,
            n,
        ));
        lemma_ranking_len(paths, wanted, 1);
        lemma_taken_stops(paths, wanted, 1, n);
    }
}


} // verus!
