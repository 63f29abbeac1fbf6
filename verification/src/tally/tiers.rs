//! Tiers of winners: the candidates that nobody left in the pool beats form
//! the next tier and leave the pool, until enough winners are found or
//! nobody is left.

use crate::tally::pairwise::{is_square, table};
use vstd::prelude::*;

verus! {

/// Nobody else in the pool beats `x`: against every other member `y`, the
/// strongest path from `x` to `y` is at least as strong as the one back.
pub open spec fn undefeated(paths: Seq<Seq<int>>, pool: Seq<bool>, x: int) -> bool {
    forall|y: int| 0 <= y < pool.len() && #[trigger] pool[y] && y != x ==> paths[x][y] >= paths[y][x]
}

/// The pool before tier `t` is taken from it.  At first everybody is in the
/// pool; those who stay after a tier has been taken are the members that
/// somebody in the pool beats.
pub open spec fn pool_at(paths: Seq<Seq<int>>, t: nat) -> Seq<bool>
    decreases t,
{
    if t == 0 {
        Seq::new(paths.len(), |x: int| true)
    } else {
        let before = pool_at(paths, (t - 1) as nat);
        Seq::new(paths.len(), |x: int| before[x] && !undefeated(paths, before, x))
    }
}

/// Candidate `x` belongs to tier `t`.
pub open spec fn in_tier(paths: Seq<Seq<int>>, t: nat, x: int) -> bool {
    pool_at(paths, t)[x] && undefeated(paths, pool_at(paths, t), x)
}

/// The number of members of a pool.
pub open spec fn pool_size(pool: Seq<bool>) -> nat
    decreases pool.len(),
{
    if pool.len() == 0 {
        0
    } else {
        pool_size(pool.drop_last()) + if pool.last() {
            1nat
        } else {
            0nat
        }
    }
}

/// Tier `t` is taken: somebody is still in the pool, and the tiers before it
/// hold fewer than `wanted` candidates.  The first tier is always taken.
pub open spec fn tier_taken(paths: Seq<Seq<int>>, wanted: nat, t: nat) -> bool {
    let left = pool_size(pool_at(paths, t));
    left > 0 && (t == 0 || paths.len() - left < wanted)
}

/// The members of tier `t` among the candidates below `upto`, in the order
/// of the candidates, each with the number of the tier.
pub open spec fn tier_members(paths: Seq<Seq<int>>, t: nat, upto: nat) -> Seq<(int, int)>
    decreases upto,
{
    if upto == 0 {
        Seq::empty()
    } else {
        let below = tier_members(paths, t, (upto - 1) as nat);
        if in_tier(paths, t, upto - 1) {
            below.push((upto - 1, t as int))
        } else {
            below
        }
    }
}

/// The tiers before `t` that are taken, one after the other.
pub open spec fn ranking_before(paths: Seq<Seq<int>>, wanted: nat, t: nat) -> Seq<(int, int)>
    decreases t,
{
    if t == 0 {
        Seq::empty()
    } else {
        let earlier = ranking_before(paths, wanted, (t - 1) as nat);
        if tier_taken(paths, wanted, (t - 1) as nat) {
            earlier + tier_members(paths, (t - 1) as nat, paths.len())
        } else {
            earlier
        }
    }
}

/// The ranking: pairs of a candidate and the number of its tier, tier after
/// tier from the strongest on, for as long as tiers are taken.  With `n`
/// candidates no more than `n` tiers can hold anybody.
pub open spec fn ranking(paths: Seq<Seq<int>>, wanted: nat) -> Seq<(int, int)> {
    ranking_before(paths, wanted, paths.len())
}

/// The pairs of a ranking held in a vector.
pub open spec fn pairs(ranked: Seq<(usize, usize)>) -> Seq<(int, int)> {
    Seq::new(ranked.len(), |i: int| (ranked[i].0 as int, ranked[i].1 as int))
}

/// A pool has no more members than places.
pub proof fn lemma_pool_size_bound(pool: Seq<bool>)
    ensures
        pool_size(pool) <= pool.len(),
    decreases pool.len(),
{
    if pool.len() > 0 {
        lemma_pool_size_bound(pool.drop_last());
    }
}

/// A pool that lies within another has no more members.
pub proof fn lemma_pool_size_monotone(inner: Seq<bool>, outer: Seq<bool>)
    requires
        inner.len() == outer.len(),
        forall|x: int| 0 <= x < inner.len() && inner[x] ==> outer[x],
    ensures
        pool_size(inner) <= pool_size(outer),
    decreases inner.len(),
{
    if inner.len() > 0 {
        lemma_pool_size_monotone(inner.drop_last(), outer.drop_last());
    }
}

/// Once a tier is not taken, no later tier is.
pub proof fn lemma_taken_stops(paths: Seq<Seq<int>>, wanted: nat, t: nat, later: nat)
    requires
        !tier_taken(paths, wanted, t),
        t <= later,
    ensures
        !tier_taken(paths, wanted, later),
        ranking_before(paths, wanted, later) == ranking_before(paths, wanted, t),
    decreases later - t,
{
    if t < later {
        lemma_taken_stops(paths, wanted, t, (later - 1) as nat);
        let before = pool_at(paths, (later - 1) as nat);
        let after = pool_at(paths, later);
        lemma_pool_size_monotone(after, before);
    }
}

/// The members of a tier are candidates, and carry the number of the tier.
pub proof fn lemma_tier_members_range(paths: Seq<Seq<int>>, t: nat, upto: nat, i: int)
    requires
        0 <= i < tier_members(paths, t, upto).len(),
    ensures
        0 <= tier_members(paths, t, upto)[i].0 < upto,
        tier_members(paths, t, upto)[i].1 == t,
    decreases upto,
{
    if upto > 0 {
        let below = tier_members(paths, t, (upto - 1) as nat);
        if i < below.len() {
            lemma_tier_members_range(paths, t, (upto - 1) as nat, i);
        }
    }
}

/// Every entry of a ranking is a candidate with the number of a tier.
pub proof fn lemma_ranking_range(paths: Seq<Seq<int>>, wanted: nat, t: nat, i: int)
    requires
        0 <= i < ranking_before(paths, wanted, t).len(),
    ensures
        0 <= ranking_before(paths, wanted, t)[i].0 < paths.len(),
        0 <= ranking_before(paths, wanted, t)[i].1 < t,
    decreases t,
{
    if t > 0 {
        let earlier = ranking_before(paths, wanted, (t - 1) as nat);
        if i < earlier.len() {
            lemma_ranking_range(paths, wanted, (t - 1) as nat, i);
        } else {
            lemma_tier_members_range(paths, (t - 1) as nat, paths.len(), i - earlier.len());
        }
    }
}

/// The list of a tier holds members of the tier only, lower candidates
/// first.
pub proof fn lemma_tier_members_listed(paths: Seq<Seq<int>>, t: nat, upto: nat)
    ensures
        forall|i: int|
            0 <= i < tier_members(paths, t, upto).len() ==> in_tier(
                paths,
                t,
                (#[trigger] tier_members(paths, t, upto)[i]).0,
            ),
        forall|i: int, j: int|
            0 <= i < j < tier_members(paths, t, upto).len() ==> (#[trigger] tier_members(
                paths,
                t,
                upto,
            )[i]).0 < (#[trigger] tier_members(paths, t, upto)[j]).0,
    decreases upto,
{
    if upto > 0 {
        lemma_tier_members_listed(paths, t, (upto - 1) as nat);
        let below = tier_members(paths, t, (upto - 1) as nat);
        assert forall|i: int| 0 <= i < below.len() implies (#[trigger] below[i]).0 < upto - 1 by {
            lemma_tier_members_range(paths, t, (upto - 1) as nat, i);
        }
    }
}

/// Every member of a tier is in its list.
pub proof fn lemma_tier_member_is_listed(paths: Seq<Seq<int>>, t: nat, upto: nat, x: int)
    requires
        0 <= x < upto,
        in_tier(paths, t, x),
    ensures
        tier_members(paths, t, upto).contains((x, t as int)),
    decreases upto,
{
    let listed = tier_members(paths, t, upto);
    if x == upto - 1 {
        assert(listed[listed.len() - 1] == (x, t as int));
    } else {
        lemma_tier_member_is_listed(paths, t, (upto - 1) as nat, x);
        let below = tier_members(paths, t, (upto - 1) as nat);
        let at = choose|at: int| 0 <= at < below.len() && below[at] == (x, t as int);
        assert(listed[at] == (x, t as int));
    }
}

/// Who has left the pool does not come back, and who is in a tier is in no
/// later pool.
pub proof fn lemma_tiers_apart(paths: Seq<Seq<int>>, s: nat, t: nat, x: int)
    requires
        s < t,
        0 <= x < paths.len(),
        !pool_at(paths, s)[x] || in_tier(paths, s, x),
    ensures
        !pool_at(paths, t)[x],
    decreases t - s,
{
    if s + 1 < t {
        lemma_tiers_apart(paths, s, (t - 1) as nat, x);
    }
}

/// What the ranking holds, and in which order: every entry is a member of
/// its tier, and the tier is one that is taken; the entries come tier by
/// tier, and within a tier lower candidates first.
pub proof fn lemma_ranking_entries(paths: Seq<Seq<int>>, wanted: nat, t: nat)
    ensures
        forall|i: int|
            0 <= i < ranking_before(paths, wanted, t).len() ==> {
                let e = #[trigger] ranking_before(paths, wanted, t)[i];
                &&& 0 <= e.0 < paths.len()
                &&& 0 <= e.1 < t
                &&& in_tier(paths, e.1 as nat, e.0)
                &&& tier_taken(paths, wanted, e.1 as nat)
            },
        forall|i: int, j: int|
            0 <= i < j < ranking_before(paths, wanted, t).len() ==> {
                let a = #[trigger] ranking_before(paths, wanted, t)[i];
                let b = #[trigger] ranking_before(paths, wanted, t)[j];
                a.1 < b.1 || (a.1 == b.1 && a.0 < b.0)
            },
    decreases t,
{
    if t > 0 {
        let last = (t - 1) as nat;
        lemma_ranking_entries(paths, wanted, last);
        lemma_tier_members_listed(paths, last, paths.len());
        let earlier = ranking_before(paths, wanted, last);
        let members = tier_members(paths, last, paths.len());
        assert forall|i: int| 0 <= i < members.len() implies 0 <= (#[trigger] members[i]).0
            < paths.len() && members[i].1 == last by {
            lemma_tier_members_range(paths, last, paths.len(), i);
        }
    }
}

/// Every member of a tier that is taken is in the ranking.
pub proof fn lemma_ranking_holds_tiers(paths: Seq<Seq<int>>, wanted: nat, t: nat, s: nat, x: int)
    requires
        s < t,
        0 <= x < paths.len(),
        tier_taken(paths, wanted, s),
        in_tier(paths, s, x),
    ensures
        ranking_before(paths, wanted, t).contains((x, s as int)),
    decreases t,
{
    let listed = ranking_before(paths, wanted, t);
    let earlier = ranking_before(paths, wanted, (t - 1) as nat);
    if s == t - 1 {
        lemma_tier_member_is_listed(paths, s, paths.len(), x);
        let members = tier_members(paths, s, paths.len());
        let at = choose|at: int| 0 <= at < members.len() && members[at] == (x, s as int);
        assert(listed[earlier.len() + at] == (x, s as int));
    } else {
        lemma_ranking_holds_tiers(paths, wanted, (t - 1) as nat, s, x);
        let at = choose|at: int| 0 <= at < earlier.len() && earlier[at] == (x, s as int);
        assert(listed[at] == (x, s as int));
    }
}

/// Nobody is in the ranking twice.
pub proof fn lemma_ranking_names_nobody_twice(paths: Seq<Seq<int>>, wanted: nat, i: int, j: int)
    requires
        0 <= i < j < ranking(paths, wanted).len(),
    ensures
        ranking(paths, wanted)[i].0 != ranking(paths, wanted)[j].0,
{
    lemma_ranking_entries(paths, wanted, paths.len());
    let a = ranking(paths, wanted)[i];
    let b = ranking(paths, wanted)[j];
    if a.1 < b.1 {
        lemma_tiers_apart(paths, a.1 as nat, b.1 as nat, a.0);
    }
}

/// Whether nobody else in the pool beats `x`.
fn is_undefeated(paths: &Vec<Vec<u64>>, pool: &Vec<bool>, x: usize) -> (b: bool)
    requires
        is_square(table(paths@), paths@.len()),
        pool@.len() == paths@.len(),
        x < paths@.len(),
    ensures
        b == undefeated(table(paths@), pool@, x as int),
{
    let n = paths.len();
    let ghost p = table(paths@);
    let mut y: usize = 0;
    while y < n
        invariant
            y <= n,
            x < n,
            n == paths@.len(),
            pool@.len() == n,
            p == table(paths@),
            is_square(p, n as nat),
            forall|z: int| 0 <= z < y && #[trigger] pool@[z] && z != x ==> p[x as int][z] >= p[z][x as int],
        decreases n - y,
    {
        assert(p[x as int].len() == n && p[y as int].len() == n);
        if pool[y] && y != x && paths[x][y] < paths[y][x] {
            return false;
        }
        y += 1;
    }
    true
}

/// The ranking of the candidates from the table of strongest paths: tier
/// after tier is taken from the pool until the tiers taken hold at least
/// `wanted` candidates or the pool is empty.  Every candidate of a tier that
/// is taken is listed, in the order of the candidates, with the number of the
/// tier.
pub fn extract_tiers(paths: &Vec<Vec<u64>>, wanted: usize) -> (ranked: Vec<(usize, usize)>)
    requires
        is_square(table(paths@), paths@.len()),
    ensures
        pairs(ranked@) == ranking(table(paths@), wanted as nat),
        forall|i: int|
            0 <= i < ranked@.len() ==> (#[trigger] ranked@[i]).0 < paths@.len() && ranked@[i].1
                < paths@.len(),
{
    let n = paths.len();
    let ghost p = table(paths@);
    let mut pool: Vec<bool> = Vec::new();
    let mut x: usize = 0;
    while x < n
        invariant
            x <= n,
            pool@.len() == x,
            forall|z: int| 0 <= z < x ==> #[trigger] pool@[z],
            pool_size(pool@) == x,
        decreases n - x,
    {
        let ghost pool_before = pool@;
        pool.push(true);
        assert(pool@.drop_last() == pool_before);
        x += 1;
    }
    let mut left: usize = n;
    let mut ranked: Vec<(usize, usize)> = Vec::new();
    let mut t: usize = 0;
    while t < n
        invariant
            t <= n,
            n == paths@.len(),
            p == table(paths@),
            is_square(p, n as nat),
            pool@ == pool_at(p, t as nat),
            pool@.len() == n,
            left == pool_size(pool@),
            left <= n,
            pairs(ranked@) == ranking_before(p, wanted as nat, t as nat),
            forall|i: int| 0 <= i < ranked@.len() ==> (#[trigger] ranked@[i]).0 < n && ranked@[i].1 < n,
        ensures
            pairs(ranked@) == ranking(p, wanted as nat),
            forall|i: int| 0 <= i < ranked@.len() ==> (#[trigger] ranked@[i]).0 < n && ranked@[i].1 < n,
        decreases n - t,
    {
        if left == 0 || (t > 0 && n - left >= wanted) {
            proof {
                lemma_taken_stops(p, wanted as nat, t as nat, n as nat);
            }
            break ;
        }
        let mut rest: Vec<bool> = Vec::new();
        let mut rest_size: usize = 0;
        let mut x: usize = 0;
        while x < n
            invariant
                x <= n,
                t < n,
                n == paths@.len(),
                p == table(paths@),
                is_square(p, n as nat),
                pool@ == pool_at(p, t as nat),
                pool@.len() == n,
                tier_taken(p, wanted as nat, t as nat),
                rest@.len() == x,
                forall|z: int| 0 <= z < x ==> #[trigger] rest@[z] == (pool@[z] && !undefeated(p, pool@, z)),
                rest_size == pool_size(rest@),
                rest_size <= x,
                forall|i: int| 0 <= i < ranked@.len() ==> (#[trigger] ranked@[i]).0 < n && ranked@[i].1 < n,
                pairs(ranked@) == ranking_before(p, wanted as nat, t as nat) + tier_members(
                    p,
                    t as nat,
                    x as nat,
                ),
            decreases n - x,
        {
            let free = is_undefeated(paths, &pool, x);
            let stays = pool[x] && !free;
            let ghost rest_before = rest@;
            let ghost ranked_before = ranked@;
            rest.push(stays);
            assert(rest@.drop_last() == rest_before);
            if stays {
                rest_size += 1;
            }
            if pool[x] && free {
                ranked.push((x, t));
                assert(pairs(ranked@) =~= pairs(ranked_before).push((x as int, t as int)));
            }
            x += 1;
        }
        pool = rest;
        left = rest_size;
        t += 1;
    }
    ranked
}


} // verus!
