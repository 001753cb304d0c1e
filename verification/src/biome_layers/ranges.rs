//! The searches can be split: what a search finds over a range of seeds
//! is what it finds over the first part of the range, and after that what
//! it finds over the rest.

use vstd::prelude::*;
use vstd::seq_lib::{
    lemma_multiset_commutative, to_multiset_build, to_multiset_contains, to_multiset_len,
};
use crate::biome_layers::finder::{candidates_26, found_26, found_for, targets_26, TargetModel};
use crate::biome_layers::models::MapModel;
use crate::biome_layers::refine::{
    ascending, candidates_64, found_34, found_34_for, found_64, found_64_for, lemma_rising,
    rising, targets_34, unsorted_64, EdgeTargetModel, Sighting,
};
use crate::biome_layers::treasure::{
    river_points, treasure_below, treasure_borders, treasure_candidates, treasure_found,
    treasure_found_for,
};
use crate::mc_rng::twin_range;
use crate::seed_info::{MinecraftVersion, Point};

verus! {

/// The list that is made of what `f` gives for each of the first `n`
/// items of a list, one after the other.
pub open spec fn gathered(f: spec_fn(i64) -> Seq<i64>, s: Seq<i64>, n: nat) -> Seq<i64>
    decreases n,
{
    if n == 0 {
        Seq::empty()
    } else {
        gathered(f, s, (n - 1) as nat) + f(s[n - 1])
    }
}

/// What is gathered from the first items of a list depends on these items
/// only.
pub proof fn lemma_gathered_prefix(f: spec_fn(i64) -> Seq<i64>, s1: Seq<i64>, s2: Seq<i64>, n: nat)
    requires
        n <= s1.len(),
        n <= s2.len(),
        forall|k: int| 0 <= k < n ==> s1[k] == s2[k],
    ensures
        gathered(f, s1, n) == gathered(f, s2, n),
    decreases n,
{
    if n > 0 {
        lemma_gathered_prefix(f, s1, s2, (n - 1) as nat);
    }
}

/// What is gathered from two lists, one after the other, is what is
/// gathered from the first and after that what is gathered from the
/// second.
pub proof fn lemma_gathered_joined(f: spec_fn(i64) -> Seq<i64>, a: Seq<i64>, b: Seq<i64>, n: nat)
    requires
        n <= b.len(),
    ensures
        gathered(f, a + b, a.len() + n) == gathered(f, a, a.len()) + gathered(f, b, n),
    decreases n,
{
    if n == 0 {
        lemma_gathered_prefix(f, a + b, a, a.len());
        assert(gathered(f, a, a.len()) + Seq::<i64>::empty() =~= gathered(f, a, a.len()));
    } else {
        lemma_gathered_joined(f, a, b, (n - 1) as nat);
        assert((a + b)[a.len() + n - 1] == b[n - 1]);
        assert((gathered(f, a, a.len()) + gathered(f, b, (n - 1) as nat)) + f(b[n - 1])
            =~= gathered(f, a, a.len()) + (gathered(f, b, (n - 1) as nat) + f(b[n - 1])));
    }
}

/// The search on 26 bits gathers what it finds for each seed.
pub proof fn lemma_found_26_gathers(ts: Seq<TargetModel>, s: Seq<i64>, n: nat)
    ensures
        found_26(ts, s, n) == gathered(|x: i64| found_for(ts, x), s, n),
    decreases n,
{
    if n > 0 {
        lemma_found_26_gathers(ts, s, (n - 1) as nat);
    }
}

/// The search on 34 bits gathers what it finds for each seed of 26 bits.
pub proof fn lemma_found_34_gathers(ts: Seq<EdgeTargetModel>, s: Seq<i64>, n: nat)
    ensures
        found_34(ts, s, n) == gathered(|x: i64| found_34_for(ts, x, 256), s, n),
    decreases n,
{
    if n > 0 {
        lemma_found_34_gathers(ts, s, (n - 1) as nat);
    }
}

/// The search for whole seeds gathers what it finds for each seed of 34
/// bits.
pub proof fn lemma_found_64_gathers(
    version: MinecraftVersion,
    ts: Seq<EdgeTargetModel>,
    extras: Seq<Sighting>,
    s: Seq<i64>,
    n: nat,
)
    ensures
        found_64(version, ts, extras, s, n) == gathered(
            |x: i64| found_64_for(version, ts, extras, x, 0x4000),
            s,
            n,
        ),
    decreases n,
{
    if n > 0 {
        lemma_found_64_gathers(version, ts, extras, s, (n - 1) as nat);
    }
}

/// The search on 34 bits for a treasure map gathers what it finds for
/// each seed of 26 bits.
pub proof fn lemma_treasure_found_gathers(below: MapModel, borders: MapModel, s: Seq<i64>, n: nat)
    ensures
        treasure_found(below, borders, s, n) == gathered(
            |x: i64| treasure_found_for(below, borders, x, 256),
            s,
            n,
        ),
    decreases n,
{
    if n > 0 {
        lemma_treasure_found_gathers(below, borders, s, (n - 1) as nat);
    }
}

/// A range of seeds is its first part and after that the rest.
pub proof fn lemma_twin_range_joined(bits: u8, lo: u64, mid: u64, hi: u64)
    requires
        lo <= mid <= hi,
    ensures
        twin_range(bits, lo, hi) == twin_range(bits, lo, mid) + twin_range(bits, mid, hi),
{
    assert(twin_range(bits, lo, hi) =~= twin_range(bits, lo, mid) + twin_range(bits, mid, hi));
}

/// The search on 26 bits over a range finds what it finds over the first
/// part of the range, and after that what it finds over the rest.
pub proof fn lemma_candidates_26_joined(points: Seq<Point>, lo: u32, mid: u32, hi: u32)
    requires
        lo <= mid <= hi,
    ensures
        candidates_26(points, lo, hi) == candidates_26(points, lo, mid) + candidates_26(
            points,
            mid,
            hi,
        ),
{
    let ts = targets_26(points);
    let a = twin_range(25, lo as u64, mid as u64);
    let b = twin_range(25, mid as u64, hi as u64);
    lemma_twin_range_joined(25, lo as u64, mid as u64, hi as u64);
    let f = |x: i64| found_for(ts, x);
    lemma_found_26_gathers(ts, a + b, (a + b).len());
    lemma_found_26_gathers(ts, a, a.len());
    lemma_found_26_gathers(ts, b, b.len());
    lemma_gathered_joined(f, a, b, b.len());
}

/// The search for whole seeds over a range finds, before it sorts, what
/// it finds over the first part of the range and after that what it finds
/// over the rest. What it gives is the sorted list of these: it rises, and
/// holds the seeds of the two parts, each as often as they hold it.
pub proof fn lemma_unsorted_64_joined(
    points: Seq<Point>,
    extras: Seq<Sighting>,
    version: MinecraftVersion,
    lo: u32,
    mid: u32,
    hi: u32,
)
    requires
        lo <= mid <= hi,
    ensures
        unsorted_64(points, extras, version, lo, hi) == unsorted_64(
            points,
            extras,
            version,
            lo,
            mid,
        ) + unsorted_64(points, extras, version, mid, hi),
        candidates_64(points, extras, version, lo, hi) == ({
            let all = unsorted_64(points, extras, version, lo, mid) + unsorted_64(
                points,
                extras,
                version,
                mid,
                hi,
            );
            rising(all, all.len())
        }),
        ascending(candidates_64(points, extras, version, lo, hi)),
        candidates_64(points, extras, version, lo, hi).to_multiset() == candidates_64(
            points,
            extras,
            version,
            lo,
            mid,
        ).to_multiset().add(candidates_64(points, extras, version, mid, hi).to_multiset()),
{
    let ua = unsorted_64(points, extras, version, lo, mid);
    let ub = unsorted_64(points, extras, version, mid, hi);
    lemma_rising(ua, ua.len());
    lemma_rising(ub, ub.len());
    lemma_rising(ua + ub, (ua + ub).len());
    assert(ua.take(ua.len() as int) =~= ua);
    assert(ub.take(ub.len() as int) =~= ub);
    assert((ua + ub).take((ua + ub).len() as int) =~= ua + ub);
    lemma_multiset_commutative(ua, ub);
    let ts = targets_34(points);
    let a26 = candidates_26(points, lo, mid);
    let b26 = candidates_26(points, mid, hi);
    lemma_candidates_26_joined(points, lo, mid, hi);
    let g34 = |x: i64| found_34_for(ts, x, 256);
    lemma_found_34_gathers(ts, a26 + b26, (a26 + b26).len());
    lemma_found_34_gathers(ts, a26, a26.len());
    lemma_found_34_gathers(ts, b26, b26.len());
    lemma_gathered_joined(g34, a26, b26, b26.len());
    let a34 = found_34(ts, a26, a26.len());
    let b34 = found_34(ts, b26, b26.len());
    let g64 = |x: i64| found_64_for(version, ts, extras, x, 0x4000);
    lemma_found_64_gathers(version, ts, extras, a34 + b34, (a34 + b34).len());
    lemma_found_64_gathers(version, ts, extras, a34, a34.len());
    lemma_found_64_gathers(version, ts, extras, b34, b34.len());
    lemma_gathered_joined(g64, a34, b34, b34.len());
}

/// The search for a treasure map over a range finds what it finds over
/// the first part of the range, and after that what it finds over the
/// rest.
pub proof fn lemma_treasure_candidates_joined(m: MapModel, lo: u32, mid: u32, hi: u32)
    requires
        lo <= mid <= hi,
    ensures
        treasure_candidates(m, lo, hi) == treasure_candidates(m, lo, mid) + treasure_candidates(
            m,
            mid,
            hi,
        ),
{
    let points = river_points(m, 2);
    let below = treasure_below(m);
    let borders = treasure_borders(m);
    let a = candidates_26(points, lo, mid);
    let b = candidates_26(points, mid, hi);
    lemma_candidates_26_joined(points, lo, mid, hi);
    let f = |x: i64| treasure_found_for(below, borders, x, 256);
    lemma_treasure_found_gathers(below, borders, a + b, (a + b).len());
    lemma_treasure_found_gathers(below, borders, a, a.len());
    lemma_treasure_found_gathers(below, borders, b, b.len());
    lemma_gathered_joined(f, a, b, b.len());
}

/// Two lists that rise and hold the same numbers, each as often, are one
/// list.
pub proof fn lemma_ascending_unique(a: Seq<i64>, b: Seq<i64>)
    requires
        ascending(a),
        ascending(b),
        a.to_multiset() == b.to_multiset(),
    ensures
        a == b,
    decreases a.len(),
{
    broadcast use vstd::multiset::group_multiset_axioms;

    to_multiset_len(a);
    to_multiset_len(b);
    if a.len() == 0 {
        assert(a =~= b);
    } else {
        let x = a.last();
        let y = b.last();
        to_multiset_contains(a, y);
        to_multiset_contains(b, y);
        to_multiset_contains(a, x);
        to_multiset_contains(b, x);
        assert(b.contains(y));
        assert(a.contains(x));
        let i = choose|i: int| 0 <= i < a.len() && a[i] == y;
        let j = choose|j: int| 0 <= j < b.len() && b[j] == x;
        assert(y <= x && x <= y);
        let a0 = a.drop_last();
        let b0 = b.drop_last();
        assert(a =~= a0.push(x));
        assert(b =~= b0.push(y));
        to_multiset_build(a0, x);
        to_multiset_build(b0, y);
        assert(a0.to_multiset() =~= a.to_multiset().remove(x));
        assert(b0.to_multiset() =~= b.to_multiset().remove(y));
        lemma_ascending_unique(a0, b0);
    }
}

/// What the search for whole seeds gives over a range does not depend on
/// how the range is split: it is the sorted list of what it gives over
/// the parts.
pub proof fn lemma_candidates_64_joined(
    points: Seq<Point>,
    extras: Seq<Sighting>,
    version: MinecraftVersion,
    lo: u32,
    mid: u32,
    hi: u32,
)
    requires
        lo <= mid <= hi,
    ensures
        candidates_64(points, extras, version, lo, hi) == ({
            let parts = candidates_64(points, extras, version, lo, mid) + candidates_64(
                points,
                extras,
                version,
                mid,
                hi,
            );
            rising(parts, parts.len())
        }),
{
    lemma_unsorted_64_joined(points, extras, version, lo, mid, hi);
    let a = candidates_64(points, extras, version, lo, mid);
    let b = candidates_64(points, extras, version, mid, hi);
    let parts = a + b;
    lemma_rising(parts, parts.len());
    assert(parts.take(parts.len() as int) =~= parts);
    lemma_multiset_commutative(a, b);
    lemma_ascending_unique(
        candidates_64(points, extras, version, lo, hi),
        rising(parts, parts.len()),
    );
}

} // verus!
