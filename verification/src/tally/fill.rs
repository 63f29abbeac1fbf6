//! The tier-fill rule: from a ranking in tiers to the list of winners.
//! Whole tiers are taken, from the strongest on, until the number of winners
//! wanted is reached.

use crate::text::texts;
use vstd::prelude::*;

verus! {

/// A candidate with the number of the tier that the tally put it in.  Tier 0
/// is the strongest; candidates of one tier are tied.
#[derive(Debug, PartialEq, Eq)]
pub struct RankedCandidate {
    pub candidate: String,
    pub rank: usize,
}

impl Clone for RankedCandidate {
    fn clone(&self) -> (copy: RankedCandidate)
        ensures
            copy.candidate@ == self.candidate@,
            copy.rank == self.rank,
    {
        RankedCandidate { candidate: self.candidate.clone(), rank: self.rank }
    }
}

/// A ranking: names, each with the number of its tier.
pub type Ranked = Seq<(Seq<char>, int)>;

/// Ranked candidates as pairs of a name and the number of a tier.
pub open spec fn ranked_view(w: Seq<RankedCandidate>) -> Ranked {
    Seq::new(w.len(), |i: int| (w[i].candidate@, w[i].rank as int))
}

/// The number of entries in tiers before `tier` among the first `upto`
/// entries of the ranking.
pub open spec fn count_in(ranked: Ranked, tier: int, upto: nat) -> nat
    decreases upto,
{
    if upto == 0 {
        0
    } else {
        count_in(ranked, tier, (upto - 1) as nat) + if ranked[upto - 1].1 < tier {
            1nat
        } else {
            0nat
        }
    }
}

/// The number of entries of the ranking in tiers before `tier`.
pub open spec fn count_before(ranked: Ranked, tier: int) -> nat {
    count_in(ranked, tier, ranked.len())
}

/// Tier `tier` is begun: the tiers before it hold nobody, or fewer names than
/// are wanted.  Once a tier has been begun all its names are taken.
pub open spec fn tier_begun(ranked: Ranked, wanted: nat, tier: int) -> bool {
    count_before(ranked, tier) == 0 || count_before(ranked, tier) < wanted
}

/// The names of tier `tier` among the first `upto` entries of the ranking,
/// in the order of the ranking.
pub open spec fn tier_names(ranked: Ranked, tier: int, upto: nat) -> Seq<Seq<char>>
    decreases upto,
{
    if upto == 0 {
        Seq::empty()
    } else {
        let earlier = tier_names(ranked, tier, (upto - 1) as nat);
        if ranked[upto - 1].1 == tier {
            earlier.push(ranked[upto - 1].0)
        } else {
            earlier
        }
    }
}

/// The names of the tiers before `tier` that are begun, tier after tier.
pub open spec fn filled_before(ranked: Ranked, wanted: nat, tier: nat) -> Seq<Seq<char>>
    decreases tier,
{
    if tier == 0 {
        Seq::empty()
    } else {
        let earlier = filled_before(ranked, wanted, (tier - 1) as nat);
        if tier_begun(ranked, wanted, tier - 1) {
            earlier + tier_names(ranked, tier - 1, ranked.len())
        } else {
            earlier
        }
    }
}

/// A number above the tier of every entry among the first `upto`: one more
/// than the highest, and zero where there is no entry.
pub open spec fn tier_bound_in(ranked: Ranked, upto: nat) -> nat
    decreases upto,
{
    if upto == 0 {
        0
    } else {
        let earlier = tier_bound_in(ranked, (upto - 1) as nat);
        if ranked[upto - 1].1 + 1 > earlier {
            (ranked[upto - 1].1 + 1) as nat
        } else {
            earlier
        }
    }
}

/// A number above the tier of every entry of the ranking.
pub open spec fn tier_bound(ranked: Ranked) -> nat {
    tier_bound_in(ranked, ranked.len())
}

/// The winners by the tier-fill rule: the names of whole tiers, in ascending
/// order of the tiers and within a tier in the order of the ranking; a tier
/// is begun only while fewer than `wanted` names have been taken, but for the
/// first, which is always taken.
pub open spec fn tier_fill(ranked: Ranked, wanted: nat) -> Seq<Seq<char>> {
    filled_before(ranked, wanted, tier_bound(ranked))
}

/// Every tier of the ranking lies below the bound.
pub proof fn lemma_tier_bound(ranked: Ranked, upto: nat, i: int)
    requires
        0 <= i < upto,
    ensures
        ranked[i].1 < tier_bound_in(ranked, upto),
    decreases upto,
{
    if i < upto - 1 {
        lemma_tier_bound(ranked, (upto - 1) as nat, i);
    }
}

/// A tier that nobody is in has no names.
pub proof fn lemma_tier_names_none(ranked: Ranked, tier: int, upto: nat)
    requires
        upto <= ranked.len(),
        forall|i: int| 0 <= i < upto ==> (#[trigger] ranked[i]).1 != tier,
    ensures
        tier_names(ranked, tier, upto) == Seq::<Seq<char>>::empty(),
    decreases upto,
{
    if upto > 0 {
        lemma_tier_names_none(ranked, tier, (upto - 1) as nat);
    }
}

/// The entries before the next tier are those before this tier and those of
/// this tier.
pub proof fn lemma_count_step(ranked: Ranked, tier: int, upto: nat)
    ensures
        count_in(ranked, tier + 1, upto) == count_in(ranked, tier, upto) + tier_names(
            ranked,
            tier,
            upto,
        ).len(),
    decreases upto,
{
    if upto > 0 {
        lemma_count_step(ranked, tier, (upto - 1) as nat);
    }
}

/// Later tiers have no fewer entries before them.
pub proof fn lemma_count_monotone(ranked: Ranked, a: int, b: int, upto: nat)
    requires
        a <= b,
    ensures
        count_in(ranked, a, upto) <= count_in(ranked, b, upto),
    decreases upto,
{
    if upto > 0 {
        lemma_count_monotone(ranked, a, b, (upto - 1) as nat);
    }
}

/// Tiers that nobody is in add nothing.
pub proof fn lemma_gap(ranked: Ranked, wanted: nat, a: nat, b: nat)
    requires
        a <= b,
        forall|i: int| 0 <= i < ranked.len() ==> !(a <= (#[trigger] ranked[i]).1 < b),
    ensures
        filled_before(ranked, wanted, b) == filled_before(ranked, wanted, a),
        count_before(ranked, b as int) == count_before(ranked, a as int),
    decreases b - a,
{
    if a < b {
        lemma_gap(ranked, wanted, a, (b - 1) as nat);
        lemma_tier_names_none(ranked, b - 1, ranked.len());
        lemma_count_step(ranked, b - 1, ranked.len());
    }
}

/// Once a tier is not begun, no later tier is, and the list of winners is
/// complete.
pub proof fn lemma_fill_stops(ranked: Ranked, wanted: nat, t: nat, b: nat)
    requires
        t <= b,
        !tier_begun(ranked, wanted, t as int),
    ensures
        filled_before(ranked, wanted, b) == filled_before(ranked, wanted, t),
    decreases b - t,
{
    if t < b {
        lemma_fill_stops(ranked, wanted, t, (b - 1) as nat);
        lemma_count_monotone(ranked, t as int, b - 1, ranked.len());
    }
}

/// Entries that all lie before a tier are all counted before it.
pub proof fn lemma_count_all(ranked: Ranked, tier: int, upto: nat)
    requires
        forall|i: int| 0 <= i < upto ==> (#[trigger] ranked[i]).1 < tier,
    ensures
        count_in(ranked, tier, upto) == upto,
    decreases upto,
{
    if upto > 0 {
        lemma_count_all(ranked, tier, (upto - 1) as nat);
    }
}

/// No entry lies before tier 0 where no tier has a negative number.
pub proof fn lemma_count_none(ranked: Ranked, upto: nat)
    requires
        forall|i: int| 0 <= i < upto ==> (#[trigger] ranked[i]).1 >= 0,
    ensures
        count_in(ranked, 0, upto) == 0,
    decreases upto,
{
    if upto > 0 {
        lemma_count_none(ranked, (upto - 1) as nat);
    }
}

/// Up to any tier, the rule has taken every name before that tier, or as
/// many names as are wanted.
pub proof fn lemma_filled_enough(ranked: Ranked, wanted: nat, tier: nat)
    requires
        forall|i: int| 0 <= i < ranked.len() ==> (#[trigger] ranked[i]).1 >= 0,
    ensures
        filled_before(ranked, wanted, tier).len() == count_before(ranked, tier as int)
            || filled_before(ranked, wanted, tier).len() >= wanted,
    decreases tier,
{
    if tier == 0 {
        lemma_count_none(ranked, ranked.len());
    } else {
        lemma_filled_enough(ranked, wanted, (tier - 1) as nat);
        lemma_count_step(ranked, tier - 1, ranked.len());
    }
}

/// The tier-fill rule never gives fewer names than are wanted, unless the
/// ranking holds fewer: then it gives them all.
pub proof fn lemma_tier_fill_enough(ranked: Ranked, wanted: nat)
    requires
        forall|i: int| 0 <= i < ranked.len() ==> (#[trigger] ranked[i]).1 >= 0,
    ensures
        tier_fill(ranked, wanted).len() >= wanted || tier_fill(ranked, wanted).len() == ranked.len(),
{
    lemma_filled_enough(ranked, wanted, tier_bound(ranked));
    assert forall|i: int| 0 <= i < ranked.len() implies (#[trigger] ranked[i]).1 < tier_bound(
        ranked,
    ) by {
        lemma_tier_bound(ranked, ranked.len(), i);
    }
    lemma_count_all(ranked, tier_bound(ranked) as int, ranked.len());
}

/// The lowest tier from `from` on that somebody is in, if there is one.
fn least_tier_from(ranked: &Vec<RankedCandidate>, from: usize) -> (r: Option<usize>)
    ensures
        match r {
            Some(t) => {
                &&& from <= t
                &&& exists|i: int| 0 <= i < ranked@.len() && (#[trigger] ranked@[i]).rank == t
                &&& forall|i: int| 0 <= i < ranked@.len() ==> !(from <= (#[trigger] ranked@[i]).rank < t)
            },
            None => forall|i: int| 0 <= i < ranked@.len() ==> (#[trigger] ranked@[i]).rank < from,
        },
{
    let mut least: Option<usize> = None;
    let mut i: usize = 0;
    while i < ranked.len()
        invariant
            i <= ranked@.len(),
            match least {
                Some(t) => {
                    &&& from <= t
                    &&& exists|j: int| 0 <= j < i && (#[trigger] ranked@[j]).rank == t
                    &&& forall|j: int| 0 <= j < i ==> !(from <= (#[trigger] ranked@[j]).rank < t)
                },
                None => forall|j: int| 0 <= j < i ==> (#[trigger] ranked@[j]).rank < from,
            },
        decreases ranked@.len() - i,
    {
        let rank = ranked[i].rank;
        if rank >= from {
            let lower = match least {
                Some(t) => rank < t,
                None => true,
            };
            if lower {
                least = Some(rank);
            }
        }
        i += 1;
    }
    least
}

/// Appends the names of one tier, in the order of the ranking.
fn append_tier(winners: &mut Vec<String>, ranked: &Vec<RankedCandidate>, tier: usize)
    ensures
        texts(final(winners)@) == texts(old(winners)@) + tier_names(
            ranked_view(ranked@),
            tier as int,
            ranked@.len(),
        ),
{
    let ghost view = ranked_view(ranked@);
    let ghost before = texts(winners@);
    let mut i: usize = 0;
    while i < ranked.len()
        invariant
            i <= ranked@.len(),
            view == ranked_view(ranked@),
            texts(winners@) == before + tier_names(view, tier as int, i as nat),
        decreases ranked@.len() - i,
    {
        if ranked[i].rank == tier {
            let ghost so_far = texts(winners@);
            winners.push(ranked[i].candidate.clone());
            assert(so_far.push(view[i as int].0) =~= before + tier_names(
                view,
                tier as int,
                (i + 1) as nat,
            ));
        }
        i += 1;
    }
}

/// The winners by the tier-fill rule.
pub fn select_winners(ranked: &Vec<RankedCandidate>, num_winners: usize) -> (winners: Vec<String>)
    ensures
        texts(winners@) == tier_fill(ranked_view(ranked@), num_winners as nat),
{
    let ghost view = ranked_view(ranked@);
    let ghost wanted = num_winners as nat;
    let mut winners: Vec<String> = Vec::new();
    let mut cursor: usize = 0;
    proof {
        lemma_count_none(view, view.len());
    }
    loop
        invariant_except_break
            texts(winners@) == filled_before(view, wanted, cursor as nat),
            winners@.len() == count_before(view, cursor as int),
        invariant
            view == ranked_view(ranked@),
            wanted == num_winners as nat,
            cursor <= tier_bound(view),
        ensures
            texts(winners@) == tier_fill(view, wanted),
        decreases tier_bound(view) - cursor,
    {
        let next = match least_tier_from(ranked, cursor) {
            Some(t) => t,
            None => {
                proof {
                    lemma_gap(view, wanted, cursor as nat, tier_bound(view));
                }
                break ;
            },
        };
        proof {
            lemma_gap(view, wanted, cursor as nat, next as nat);
            let at = choose|i: int| 0 <= i < ranked@.len() && (#[trigger] ranked@[i]).rank == next;
            lemma_tier_bound(view, view.len(), at);
        }
        if winners.len() > 0 && winners.len() >= num_winners {
            proof {
                lemma_fill_stops(view, wanted, next as nat, tier_bound(view));
            }
            break ;
        }
        let ghost taken = texts(winners@);
        append_tier(&mut winners, ranked, next);
        proof {
            lemma_count_step(view, next as int, view.len());
            assert(texts(winners@).len() == taken.len() + tier_names(
                view,
                next as int,
                view.len(),
            ).len());
        }
        if next == usize::MAX {
            proof {
                lemma_gap(view, wanted, (next + 1) as nat, tier_bound(view));
            }
            break ;
        }
        cursor = next + 1;
    }
    winners
}

} // verus!
