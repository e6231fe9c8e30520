//! Ranked-entry data model and the comparator that orders the leaderboard.
use core::cmp::Ordering;
use vstd::prelude::*;

verus! {

/// Coarse competitive tier. `Unranked` denotes a placement/unranked state and
/// is never eligible for display.
#[derive(Clone, Copy, PartialEq, Eq, Structural, Debug)]
pub enum Tier {
    Unranked,
    Iron,
    Bronze,
    Silver,
    Gold,
    Platinum,
    Emerald,
    Diamond,
    Master,
    Grandmaster,
    Challenger,
}

/// Numeric strength of a tier: strictly higher for strictly better tiers.
pub open spec fn tier_rank(t: Tier) -> int {
    match t {
        Tier::Unranked => 0,
        Tier::Iron => 1,
        Tier::Bronze => 2,
        Tier::Silver => 3,
        Tier::Gold => 4,
        Tier::Platinum => 5,
        Tier::Emerald => 6,
        Tier::Diamond => 7,
        Tier::Master => 8,
        Tier::Grandmaster => 9,
        Tier::Challenger => 10,
    }
}

/// A tier counts as ranked exactly when it is not the unranked state.
pub open spec fn spec_is_ranked(t: Tier) -> bool {
    t != Tier::Unranked
}

impl Tier {
    /// Whether this tier denotes a real ranked standing.
    pub fn is_ranked(&self) -> (r: bool)
        ensures
            r == spec_is_ranked(*self),
    {
        *self != Tier::Unranked
    }

    /// Executable tier strength, equal to the specification-level rank.
    pub fn strength(&self) -> (r: u32)
        ensures
            r == tier_rank(*self),
    {
        match *self {
            Tier::Unranked => 0,
            Tier::Iron => 1,
            Tier::Bronze => 2,
            Tier::Silver => 3,
            Tier::Gold => 4,
            Tier::Platinum => 5,
            Tier::Emerald => 6,
            Tier::Diamond => 7,
            Tier::Master => 8,
            Tier::Grandmaster => 9,
            Tier::Challenger => 10,
        }
    }
}

/// Division within a tier. `I` is the strongest, `IV` the weakest.
#[derive(Clone, Copy, PartialEq, Eq, Structural, Debug)]
pub enum Division {
    I,
    II,
    III,
    IV,
}

/// Numeric strength of a division: strictly higher for strictly better
/// divisions (`I` strongest).
pub open spec fn division_rank(d: Division) -> int {
    match d {
        Division::I => 4,
        Division::II => 3,
        Division::III => 2,
        Division::IV => 1,
    }
}

impl Division {
    /// Executable division strength, equal to the specification-level rank.
    pub fn strength(&self) -> (r: u32)
        ensures
            r == division_rank(*self),
    {
        match *self {
            Division::I => 4,
            Division::II => 3,
            Division::III => 2,
            Division::IV => 1,
        }
    }
}

/// The matchmaking mode an entry was observed in. Only the target solo ranked
/// queue is eligible for the leaderboard.
#[derive(Clone, Copy, PartialEq, Eq, Structural, Debug)]
pub enum QueueKind {
    RankedSolo,
    Other,
}

/// One identity's standing snapshot for a single ranked queue, built fresh on
/// every refresh cycle and discarded at its end.
#[derive(Debug)]
pub struct RankedEntry {
    pub name: String,
    pub queue: QueueKind,
    pub tier: Option<Tier>,
    pub division: Option<Division>,
    pub points: i32,
    pub wins: u32,
    pub losses: u32,
    pub veteran: bool,
    pub hot_streak: bool,
}

impl Clone for RankedEntry {
    /// A clone is equal to the original, field for field.
    fn clone(&self) -> (r: Self)
        ensures
            r == *self,
    {
        RankedEntry {
            name: self.name.clone(),
            queue: self.queue,
            tier: self.tier,
            division: self.division,
            points: self.points,
            wins: self.wins,
            losses: self.losses,
            veteran: self.veteran,
            hot_streak: self.hot_streak,
        }
    }
}

/// An entry may be displayed only if it comes from the target queue and has a
/// present, ranked tier and a present division.
pub open spec fn displayable(e: RankedEntry) -> bool {
    &&& e.queue == QueueKind::RankedSolo
    &&& e.tier is Some
    &&& spec_is_ranked(e.tier->0)
    &&& e.division is Some
}

/// `displayable` as a first-class predicate, for use with sequence filtering.
pub open spec fn displayable_pred() -> spec_fn(RankedEntry) -> bool {
    |e: RankedEntry| displayable(e)
}

/// Strict "ranks strictly better than" order: higher tier first; within a
/// tier, higher division; within a division, more points. Only meaningful on
/// displayable entries, whose tier and division are present.
pub open spec fn beats(a: RankedEntry, b: RankedEntry) -> bool {
    let at = tier_rank(a.tier->0);
    let bt = tier_rank(b.tier->0);
    let ad = division_rank(a.division->0);
    let bd = division_rank(b.division->0);
    ||| at > bt
    ||| (at == bt && ad > bd)
    ||| (at == bt && ad == bd && a.points > b.points)
}

/// Two entries occupy exactly the same standing (tier, division and points all
/// equal); the comparator reports them as equal.
pub open spec fn same_standing(a: RankedEntry, b: RankedEntry) -> bool {
    &&& tier_rank(a.tier->0) == tier_rank(b.tier->0)
    &&& division_rank(a.division->0) == division_rank(b.division->0)
    &&& a.points == b.points
}

/// The comparator over displayable entries: `Less` means `a` is ranked ahead
/// of `b` (a sort by this comparator lists the best entry first).
pub fn compare(a: &RankedEntry, b: &RankedEntry) -> (r: Ordering)
    requires
        displayable(*a),
        displayable(*b),
    ensures
        (r == Ordering::Less) == beats(*a, *b),
        (r == Ordering::Greater) == beats(*b, *a),
        (r == Ordering::Equal) == same_standing(*a, *b),
{
    let at = a.tier.unwrap().strength();
    let bt = b.tier.unwrap().strength();
    if at > bt {
        Ordering::Less
    } else if at < bt {
        Ordering::Greater
    } else {
        let ad = a.division.unwrap().strength();
        let bd = b.division.unwrap().strength();
        if ad > bd {
            Ordering::Less
        } else if ad < bd {
            Ordering::Greater
        } else {
            if a.points > b.points {
                Ordering::Less
            } else if a.points < b.points {
                Ordering::Greater
            } else {
                Ordering::Equal
            }
        }
    }
}

/// The comparator's order is a strict weak ordering: `beats` is irreflexive,
/// asymmetric and transitive, and incomparability coincides with
/// `same_standing`, which is an equivalence relation.
pub proof fn lemma_order_strict_weak(a: RankedEntry, b: RankedEntry, c: RankedEntry)
    ensures
        !beats(a, a),
        beats(a, b) ==> !beats(b, a),
        beats(a, b) && beats(b, c) ==> beats(a, c),
        same_standing(a, b) == (!beats(a, b) && !beats(b, a)),
        same_standing(a, a),
        same_standing(a, b) ==> same_standing(b, a),
        same_standing(a, b) && same_standing(b, c) ==> same_standing(a, c),
{
}

/// A strictly higher tier wins outright, whatever the divisions and points.
pub proof fn lemma_higher_tier_dominates(a: RankedEntry, b: RankedEntry)
    requires
        tier_rank(a.tier->0) > tier_rank(b.tier->0),
    ensures
        beats(a, b),
        !beats(b, a),
{
}

/// A sequence is ordered best-first: no entry is strictly beaten by a later
/// one.
pub open spec fn sorted_best_first(s: Seq<RankedEntry>) -> bool {
    forall|i: int, j: int| 0 <= i < j < s.len() ==> !beats(#[trigger] s[j], #[trigger] s[i])
}

/// Whether `a` ranks strictly better than `b`; the executable form of `beats`.
pub fn ranks_strictly_better(a: &RankedEntry, b: &RankedEntry) -> (r: bool)
    requires
        displayable(*a),
        displayable(*b),
    ensures
        r == beats(*a, *b),
{
    let at = a.tier.unwrap().strength();
    let bt = b.tier.unwrap().strength();
    if at != bt {
        at > bt
    } else {
        let ad = a.division.unwrap().strength();
        let bd = b.division.unwrap().strength();
        if ad != bd {
            ad > bd
        } else {
            a.points > b.points
        }
    }
}

/// Stable insertion sort by the comparator's order: the result is a
/// permutation of the input, ordered best-first.
pub fn sort_entries(v: &mut Vec<RankedEntry>)
    requires
        forall|k: int| 0 <= k < old(v)@.len() ==> displayable(#[trigger] old(v)@[k]),
    ensures
        final(v)@.to_multiset() == old(v)@.to_multiset(),
        final(v)@.len() == old(v)@.len(),
        sorted_best_first(final(v)@),
        forall|k: int| 0 <= k < final(v)@.len() ==> displayable(#[trigger] final(v)@[k]),
{
    broadcast use vstd::seq_lib::to_multiset_insert;
    broadcast use vstd::seq_lib::to_multiset_remove;
    broadcast use vstd::multiset::group_multiset_axioms;

    let n = v.len();
    if n == 0 {
        return ;
    }
    let mut i: usize = 1;
    while i < n
        invariant
            n == v@.len(),
            1 <= i <= n,
            v@.to_multiset() == old(v)@.to_multiset(),
            forall|k: int| 0 <= k < v@.len() ==> displayable(#[trigger] v@[k]),
            forall|a: int, b: int| 0 <= a < b < i ==> !beats(v@[b], v@[a]),
        decreases n - i,
    {
        let ghost pre = v@;
        let e = v.remove(i);
        proof {
            pre.remove_ensures(i as int);
        }
        let ghost rest = v@;
        let mut p: usize = 0;
        while p < i
            invariant
                0 < i < pre.len(),
                v@ == rest,
                rest == pre.remove(i as int),
                rest.len() == pre.len() - 1,
                e == pre[i as int],
                displayable(e),
                forall|k: int| 0 <= k < rest.len() ==> displayable(#[trigger] rest[k]),
                0 <= p <= i,
                forall|a: int| 0 <= a < p ==> !beats(e, #[trigger] rest[a]),
            ensures
                0 <= p <= i,
                v@ == rest,
                forall|a: int| 0 <= a < p ==> !beats(e, #[trigger] rest[a]),
                p < i ==> beats(e, rest[p as int]),
            decreases i - p,
        {
            if ranks_strictly_better(&e, &v[p]) {
                break ;
            }
            p += 1;
        }
        proof {
            pre.remove(i as int).insert_ensures(p as int, e);
        }
        v.insert(p, e);
        proof {
            vstd::seq_lib::to_multiset_remove(pre, i as int);
            vstd::seq_lib::to_multiset_insert(rest, p as int, e);
            pre.to_multiset_ensures();
            assert(pre.contains(e)) by {
                assert(pre[i as int] == e);
            }
            assert(v@.to_multiset() =~= pre.to_multiset());
            let cur = v@;
            assert forall|a: int, b: int| 0 <= a < b < i + 1 && b < n implies !beats(
                cur[b],
                cur[a],
            ) by {
                if a < p && b < p {
                    assert(cur[a] == rest[a] && cur[b] == rest[b]);
                } else if a < p && b == p {
                    assert(cur[a] == rest[a] && cur[b] == e);
                } else if a < p && b > p {
                    assert(cur[a] == rest[a] && cur[b] == rest[b - 1]);
                } else if a == p && b > p {
                    // e was inserted before rest[p]; e strictly beats rest[p],
                    // and every later element is no better than rest[p].
                    assert(cur[a] == e && cur[b] == rest[b - 1]);
                    if p < i {
                        assert(beats(e, rest[p as int]));
                        assert(b - 1 > p ==> !beats(rest[b - 1], rest[p as int]));
                    }
                } else if a > p && b > p {
                    assert(cur[a] == rest[a - 1] && cur[b] == rest[b - 1]);
                }
            }
        }
        i += 1;
    }
}

/// Keep exactly the displayable entries, in their original order.
pub fn filter_eligible(v: &Vec<RankedEntry>) -> (r: Vec<RankedEntry>)
    ensures
        r@ == v@.filter(displayable_pred()),
{
    broadcast use Seq::lemma_filter_push;

    let mut r: Vec<RankedEntry> = Vec::new();
    let n = v.len();
    let mut i: usize = 0;
    while i < n
        invariant
            n == v@.len(),
            0 <= i <= n,
            r@ == v@.take(i as int).filter(displayable_pred()),
        decreases n - i,
    {
        let e = &v[i];
        let keep = match (e.queue, e.tier, e.division) {
            (QueueKind::RankedSolo, Some(t), Some(_)) => t.is_ranked(),
            _ => false,
        };
        if keep {
            r.push(v[i].clone());
        }
        proof {
            assert(v@.take(i as int + 1) == v@.take(i as int).push(v@[i as int]));
            v@.take(i as int).lemma_filter_push(v@[i as int], displayable_pred());
            assert(displayable_pred()(v@[i as int]) == keep);
        }
        i += 1;
    }
    proof {
        assert(v@.take(n as int) == v@);
    }
    r
}

} // verus!
