//! The search for world seeds from the places of rivers: the rivers are
//! cut into fragments, the fragments are brought down to the layers that
//! few bits of the seed decide, and the seeds are tried by their bits.

use std::collections::HashSet;
use vstd::prelude::*;
use vstd::std_specs::hash::*;
use crate::biome_layers::cached::{cell_key, cell_key_of, lemma_cell_key};
use crate::biome_info::biome_id;
use crate::biome_layers::grid::{cells_fit, lemma_cells_fit_sides};
use crate::biome_layers::inverse::{reverse_map_voronoi_zoom, reverse_voronoi_model};
use crate::biome_layers::layers::{area_ok, Layer};
use crate::biome_layers::models::{
    grid_model, layer_model, lemma_model_of_layer, lemma_same_model, tally, tally_cells, MapModel,
    Tally,
};
use crate::biome_layers::pipeline::{
    chain, chained, edge_steps, lemma_chained_alike, lemma_chained_depth, make_edge_steps, Step,
};
use crate::biome_layers::{coord_limit, rect_within, Area, BiomeMap};
use crate::mc_rng::{floor_div, similar_seed, twin_range, McRng};
use crate::seed_info::Point;

verus! {

broadcast use vstd::std_specs::hash::group_hash_axioms;

/// The number of rivers of a map.
pub fn count_rivers(m: &BiomeMap) -> (n: u64)
    requires
        m.wf(),
    ensures
        n == tally(Tally::First, m@, m@),
        n <= m.w() * m.h(),
{
    tally_cells(Tally::First, m, m)
}

/// The number of rivers of the second map that the first map has too. The
/// first map may have more rivers than the second one.
pub fn count_rivers_and(a: &BiomeMap, b: &BiomeMap) -> (n: u64)
    requires
        a.wf(),
        a.w() == b.w(),
        a.h() == b.h(),
    ensures
        n == tally(Tally::Both, a@, b@),
{
    tally_cells(Tally::Both, a, b)
}

/// The number of rivers that both maps have, less the number of rivers
/// that only one of them has; zero where that is below zero.
pub fn count_rivers_exact(a: &BiomeMap, b: &BiomeMap) -> (n: u64)
    requires
        a.wf(),
        a.w() == b.w(),
        a.h() == b.h(),
    ensures
        n == if tally(Tally::Both, a@, b@) >= tally(Tally::One, a@, b@) {
            tally(Tally::Both, a@, b@) - tally(Tally::One, a@, b@)
        } else {
            0
        },
{
    let both = tally_cells(Tally::Both, a, b);
    let one = tally_cells(Tally::One, a, b);
    if both >= one {
        both - one
    } else {
        0
    }
}

/// The points as pairs of mathematical integers.
pub open spec fn spots(c: Seq<Point>) -> Seq<(int, int)> {
    Seq::new(c.len(), |k: int| (c[k].0 as int, c[k].1 as int))
}

/// The map of an area that holds a river at every one of the points and
/// zero elsewhere.
pub open spec fn river_model(c: Seq<Point>, area: Area) -> MapModel {
    grid_model(
        area.x as int,
        area.z as int,
        area.w as nat,
        area.h as nat,
        |i: int, j: int|
            if spots(c).contains((area.x + i, area.z + j)) {
                7i32
            } else {
                0i32
            },
    )
}

/// The map of an area that holds a river at every one of the points and
/// zero elsewhere.
pub fn map_with_river_at(c: &[Point], area: Area) -> (m: BiomeMap)
    requires
        cells_fit(area.w as int, area.h as int),
        forall|k: int| 0 <= k < c.len() ==> area.has((#[trigger] c[k]).0 as int, c[k].1 as int),
    ensures
        m.wf(),
        m.region() == area,
        m@ == river_model(c@, area),
{
    let mut m = BiomeMap::new(area);
    proof {
        lemma_cells_fit_sides(area.w as int, area.h as int);
    }
    let mut n: usize = 0;
    while n < c.len()
        invariant
            n <= c.len(),
            m.wf(),
            m.x == area.x,
            m.z == area.z,
            m.w() == area.w,
            m.h() == area.h,
            cells_fit(area.w as int, area.h as int),
            forall|k: int| 0 <= k < c.len() ==> area.has((#[trigger] c[k]).0 as int, c[k].1 as int),
            forall|i: int, j: int|
                0 <= i < area.w && 0 <= j < area.h ==> #[trigger] m.cell_at(i, j) == if spots(
                    c@.take(n as int),
                ).contains((area.x + i, area.z + j)) {
                    7i32
                } else {
                    0i32
                },
        decreases c.len() - n,
    {
        let (x, z) = c[n];
        proof {
            lemma_cells_fit_sides(area.w as int, area.h as int);
            assert(area.has(c[n as int].0 as int, c[n as int].1 as int));
        }
        let i = (x as i128 - area.x as i128) as usize;
        let j = (z as i128 - area.z as i128) as usize;
        let ghost before = spots(c@.take(n as int));
        let ghost after = spots(c@.take(n + 1));
        m.put(i, j, biome_id::river);
        proof {
            assert(after =~= before.push((x as int, z as int)));
            assert forall|a: int, b: int| 0 <= a < area.w && 0 <= b < area.h implies #[trigger] m.cell_at(
                a,
                b,
            ) == if after.contains((area.x + a, area.z + b)) {
                7i32
            } else {
                0i32
            } by {
                let p = (area.x + a, area.z + b);
                if a == i && b == j {
                    assert(after[n as int] == p);
                } else {
                    if after.contains(p) {
                        let k = choose|k: int| 0 <= k < after.len() && after[k] == p;
                        assert(k < n);
                        assert(before[k] == p);
                    }
                    if before.contains(p) {
                        let k = choose|k: int| 0 <= k < before.len() && before[k] == p;
                        assert(after[k] == p);
                    }
                }
            }
        }
        n += 1;
    }
    proof {
        assert(c@.take(c.len() as int) =~= c@);
        lemma_same_model(m@, river_model(c@, area));
    }
    m
}

/// The fragment that a point belongs to: the square of 64 by 64 cells
/// that holds it, by its coordinates divided by 64 and rounded down.
pub open spec fn fragment_of(p: Point) -> (i64, i64) {
    (floor_div(p.0, 64) as i64, floor_div(p.1, 64) as i64)
}

/// The fragments that the first `n` points belong to, each once, in the
/// order in which the points come to them.
pub open spec fn fragments_upto(points: Seq<Point>, n: nat) -> Seq<(i64, i64)>
    decreases n,
{
    if n == 0 {
        Seq::empty()
    } else {
        let before = fragments_upto(points, (n - 1) as nat);
        let k = fragment_of(points[n - 1]);
        if before.contains(k) {
            before
        } else {
            before.push(k)
        }
    }
}

/// Those of the first `n` points that belong to a fragment, in their
/// order.
pub open spec fn members_upto(points: Seq<Point>, key: (i64, i64), n: nat) -> Seq<Point>
    decreases n,
{
    if n == 0 {
        Seq::empty()
    } else {
        let before = members_upto(points, key, (n - 1) as nat);
        if fragment_of(points[n - 1]) == key {
            before.push(points[n - 1])
        } else {
            before
        }
    }
}

/// The map of a fragment: the smallest map that holds the points of the
/// fragment, with a river at each of them.
pub open spec fn fragment_model(points: Seq<Point>, key: (i64, i64)) -> MapModel {
    let ms = members_upto(points, key, points.len());
    river_model(ms, Area::bounding(ms))
}

/// Whether the points lie within the limit of the coordinates.
pub open spec fn points_ok(points: Seq<Point>) -> bool {
    forall|k: int|
        0 <= k < points.len() ==> -coord_limit() < (#[trigger] points[k]).0 < coord_limit()
            && -coord_limit() < points[k].1 < coord_limit()
}

/// Whether one of the first `n` points belongs to the fragment.
pub open spec fn reached(points: Seq<Point>, key: (i64, i64), n: int) -> bool {
    exists|q: int| 0 <= q < n && #[trigger] fragment_of(points[q]) == key
}

fn key_of(p: Point) -> (k: (i64, i64))
    ensures
        k == fragment_of(p),
{
    (McRng::math_floor_div(p.0, 64), McRng::math_floor_div(p.1, 64))
}

/// The points of a fragment lie less than 64 cells apart.
pub proof fn lemma_fragment_span(x1: i64, x2: i64)
    requires
        floor_div(x1, 64) == floor_div(x2, 64),
    ensures
        -64 < x1 - x2 < 64,
{
}

/// Segregate a list of river coordinates into small maps: one for every
/// square of 64 by 64 cells that holds a point, in the order in which the
/// points come to the squares.
pub fn split_rivers_into_fragments(points: &[Point]) -> (r: Vec<BiomeMap>)
    requires
        points_ok(points@),
    ensures
        r.len() == fragments_upto(points@, points.len() as nat).len(),
        forall|k: int|
            0 <= k < r.len() ==> (#[trigger] r[k]).wf() && r[k].within(coord_limit()) && r[k].w()
                <= 64 && r[k].h() <= 64 && r[k]@ == fragment_model(
                points@,
                fragments_upto(points@, points.len() as nat)[k],
            ),
{
    // Split the points into fragments of 64 by 64 cells: the squares that
    // were seen are kept in a set, and in the order in which they came.
    let mut seen: HashSet<u128> = HashSet::new();
    let mut keys: Vec<(i64, i64)> = Vec::new();
    let mut n: usize = 0;
    while n < points.len()
        invariant
            n <= points.len(),
            keys@ == fragments_upto(points@, n as nat),
            forall|x: i64, z: i64| #[trigger]
                seen@.contains(cell_key(x, z)) <==> keys@.contains((x, z)),
            forall|k: int| 0 <= k < keys.len() ==> reached(points@, #[trigger] keys[k], n as int),
        decreases points.len() - n,
    {
        let key = key_of(points[n]);
        let ghost old_keys = keys@;
        let ghost old_seen = seen@;
        if seen.insert(cell_key_of(key.0, key.1)) {
            keys.push(key);
            proof {
                assert(!old_keys.contains(key));
                assert forall|x: i64, z: i64| #[trigger]
                    seen@.contains(cell_key(x, z)) <==> keys@.contains((x, z)) by {
                    if cell_key(x, z) == cell_key(key.0, key.1) {
                        lemma_cell_key(x, z, key.0, key.1);
                        assert(keys@[old_keys.len() as int] == key);
                    } else {
                        assert(old_seen.contains(cell_key(x, z)) <==> old_keys.contains((x, z)));
                        if old_keys.contains((x, z)) {
                            let q = choose|q: int| 0 <= q < old_keys.len() && old_keys[q] == (x, z);
                            assert(keys@[q] == (x, z));
                        }
                        if keys@.contains((x, z)) {
                            let q = choose|q: int| 0 <= q < keys@.len() && keys@[q] == (x, z);
                            assert(q < old_keys.len());
                            assert(old_keys[q] == (x, z));
                        }
                    }
                }
                assert forall|k: int| 0 <= k < keys.len() implies reached(
                    points@,
                    #[trigger] keys[k],
                    n + 1,
                ) by {
                    if k < old_keys.len() {
                        let q = choose|q: int|
                            0 <= q < n && #[trigger] fragment_of(points[q]) == old_keys[k];
                        assert(fragment_of(points[q]) == keys[k]);
                    } else {
                        assert(fragment_of(points[n as int]) == keys[k]);
                    }
                }
            }
        } else {
            proof {
                assert(old_seen.contains(cell_key(key.0, key.1)));
                assert(old_keys.contains(key));
                assert(seen@ =~= old_seen);
                assert forall|k: int| 0 <= k < keys.len() implies reached(
                    points@,
                    #[trigger] keys[k],
                    n + 1,
                ) by {
                    let q = choose|q: int|
                        0 <= q < n && #[trigger] fragment_of(points[q]) == keys[k];
                    assert(fragment_of(points[q]) == keys[k]);
                }
            }
        }
        n += 1;
    }
    // Make a map of every fragment.
    let mut r: Vec<BiomeMap> = Vec::new();
    let mut f: usize = 0;
    while f < keys.len()
        invariant
            f <= keys.len(),
            r.len() == f,
            points_ok(points@),
            keys@ == fragments_upto(points@, points.len() as nat),
            forall|k: int|
                0 <= k < keys.len() ==> reached(points@, #[trigger] keys[k], points.len() as int),
            forall|k: int|
                0 <= k < f ==> (#[trigger] r[k]).wf() && r[k].within(coord_limit()) && r[k].w()
                    <= 64 && r[k].h() <= 64 && r[k]@ == fragment_model(points@, keys[k]),
        decreases keys.len() - f,
    {
        let key = keys[f];
        let mut ms: Vec<Point> = Vec::new();
        let mut n: usize = 0;
        while n < points.len()
            invariant
                n <= points.len(),
                points_ok(points@),
                ms@ == members_upto(points@, key, n as nat),
                forall|k: int| 0 <= k < ms.len() ==> fragment_of(#[trigger] ms[k]) == key,
                forall|k: int|
                    0 <= k < ms.len() ==> -coord_limit() < (#[trigger] ms[k]).0 < coord_limit()
                        && -coord_limit() < ms[k].1 < coord_limit(),
                reached(points@, key, n as int) ==> ms.len() > 0,
            decreases points.len() - n,
        {
            let p = points[n];
            let k = key_of(p);
            if k.0 == key.0 && k.1 == key.1 {
                ms.push(p);
            }
            n += 1;
        }
        let a = Area::from_coords(ms.as_slice());
        proof {
            assert(reached(points@, keys[f as int], points.len() as int));
            assert(ms.len() > 0);
            let k1 = choose|k: int| 0 <= k < ms.len() && (#[trigger] ms[k]).0 == a.x;
            let k2 = choose|k: int| 0 <= k < ms.len() && (#[trigger] ms[k]).0 == a.x + a.w - 1;
            let k3 = choose|k: int| 0 <= k < ms.len() && (#[trigger] ms[k]).1 == a.z;
            let k4 = choose|k: int| 0 <= k < ms.len() && (#[trigger] ms[k]).1 == a.z + a.h - 1;
            assert(fragment_of(ms[k1]) == key && fragment_of(ms[k2]) == key);
            assert(fragment_of(ms[k3]) == key && fragment_of(ms[k4]) == key);
            lemma_fragment_span(ms[k2].0, ms[k1].0);
            lemma_fragment_span(ms[k4].1, ms[k3].1);
            assert(a.w <= 64 && a.h <= 64);
            assert((a.w + 1) * (a.h + 1) <= 65 * 65) by (nonlinear_arith)
                requires
                    a.w <= 64,
                    a.h <= 64,
            ;
        }
        let m = map_with_river_at(ms.as_slice(), a);
        r.push(m);
        f += 1;
    }
    r
}

/// A fragment brought down below the last zoom, with the number of its
/// rivers.
pub struct Target {
    pub map: BiomeMap,
    pub rivers: u64,
}

/// What a target holds.
pub struct TargetModel {
    pub map: MapModel,
    pub rivers: nat,
}

impl View for Target {
    type V = TargetModel;

    open spec fn view(&self) -> TargetModel {
        TargetModel { map: self.map@, rivers: self.rivers as nat }
    }
}

/// What the targets of a list hold.
pub open spec fn target_models(v: Seq<Target>) -> Seq<TargetModel> {
    Seq::new(v.len(), |k: int| v[k]@)
}

/// The numbers of rivers of the targets of a list.
pub open spec fn rivers_of(s: Seq<TargetModel>) -> Seq<nat> {
    Seq::new(s.len(), |k: int| s[k].rivers)
}

/// The first index from `i` on at which a number of the list is less than
/// `rivers`; the length of the list where none is.
pub open spec fn place_from(s: Seq<nat>, rivers: nat, i: nat) -> nat
    decreases s.len() - i,
{
    if i >= s.len() || s[i as int] < rivers {
        i
    } else {
        place_from(s, rivers, i + 1)
    }
}

/// The list with a target more, behind the targets that have no fewer
/// rivers.
pub open spec fn placed(s: Seq<TargetModel>, t: TargetModel) -> Seq<TargetModel> {
    s.insert(place_from(rivers_of(s), t.rivers, 0) as int, t)
}

/// The targets of the first `n` fragments, those with most rivers first:
/// the fragments that can be brought down below the last zoom.
pub open spec fn derived_upto(frags: Seq<MapModel>, n: nat) -> Seq<TargetModel>
    decreases n,
{
    if n == 0 {
        Seq::empty()
    } else {
        let before = derived_upto(frags, (n - 1) as nat);
        match reverse_voronoi_model(frags[n - 1]) {
            Some(x) => placed(before, TargetModel { map: x, rivers: tally(Tally::First, x, x) }),
            None => before,
        }
    }
}

/// The number of targets that are kept, from their numbers of rivers: the
/// first index from `i` on that is `limit` or at which the number is less
/// than `least`.
pub open spec fn kept_from(s: Seq<nat>, limit: nat, least: nat, i: nat) -> nat
    decreases s.len() - i,
{
    if i >= s.len() || i >= limit || s[i as int] < least {
        i
    } else {
        kept_from(s, limit, least, i + 1)
    }
}

/// The maps of the fragments of the points, in the order of the
/// fragments.
pub open spec fn fragment_models(points: Seq<Point>) -> Seq<MapModel> {
    let keys = fragments_upto(points, points.len());
    Seq::new(keys.len(), |k: int| fragment_model(points, keys[k]))
}

/// The targets of the search on 26 bits: of the fragments of the points
/// brought down below the last zoom, the ten with most rivers, as far as
/// they have ten rivers.
pub open spec fn targets_26(points: Seq<Point>) -> Seq<TargetModel> {
    let frags = fragment_models(points);
    let all = derived_upto(frags, frags.len());
    all.take(kept_from(rivers_of(all), 10, 10, 0) as int)
}

/// Whether a target is one that the search can work on: its map is small
/// and within the limit of the coordinates, and its number of rivers is
/// that of its map.
pub open spec fn target_ok(t: &Target) -> bool {
    &&& t.map.wf()
    &&& t.map.w() <= 64
    &&& t.map.h() <= 64
    &&& t.map.within(coord_limit() - 8192)
    &&& t.rivers == tally(Tally::First, t.map@, t.map@)
    &&& t.rivers <= 4096
}

/// The index at which a target with the given number of rivers is put.
fn place_of(v: &Vec<Target>, rivers: u64) -> (i: usize)
    ensures
        i == place_from(rivers_of(target_models(v@)), rivers as nat, 0),
        i <= v.len(),
{
    let mut i: usize = 0;
    while i < v.len() && v[i].rivers >= rivers
        invariant
            i <= v.len(),
            place_from(rivers_of(target_models(v@)), rivers as nat, 0) == place_from(
                rivers_of(target_models(v@)),
                rivers as nat,
                i as nat,
            ),
        decreases v.len() - i,
    {
        i += 1;
    }
    i
}

/// The fragments brought down below the last zoom, those with most rivers
/// first.
pub fn derive_targets(frags: Vec<BiomeMap>) -> (v: Vec<Target>)
    requires
        forall|k: int|
            0 <= k < frags.len() ==> (#[trigger] frags[k]).wf() && frags[k].within(coord_limit())
                && frags[k].w() <= 64 && frags[k].h() <= 64,
    ensures
        target_models(v@) == derived_upto(
            Seq::new(frags.len() as nat, |k: int| frags[k]@),
            frags.len() as nat,
        ),
        forall|k: int| 0 <= k < v.len() ==> target_ok(#[trigger] &v[k]),
{
    let ghost models = Seq::new(frags.len() as nat, |k: int| frags[k]@);
    let mut v: Vec<Target> = Vec::new();
    let mut n: usize = 0;
    proof {
        assert(target_models(v@) =~= derived_upto(models, 0));
    }
    while n < frags.len()
        invariant
            n <= frags.len(),
            models == Seq::new(frags.len() as nat, |k: int| frags[k]@),
            forall|k: int|
                0 <= k < frags.len() ==> (#[trigger] frags[k]).wf() && frags[k].within(
                    coord_limit(),
                ) && frags[k].w() <= 64 && frags[k].h() <= 64,
            target_models(v@) == derived_upto(models, n as nat),
            forall|k: int| 0 <= k < v.len() ==> target_ok(#[trigger] &v[k]),
        decreases frags.len() - n,
    {
        assert(models[n as int] == frags[n as int]@);
        match reverse_map_voronoi_zoom(&frags[n]) {
            Ok(x) => {
                let rivers = count_rivers(&x);
                assert(rivers <= 4096) by (nonlinear_arith)
                    requires
                        rivers <= x.w() * x.h(),
                        x.w() <= 64,
                        x.h() <= 64,
                ;
                let i = place_of(&v, rivers);
                let ghost before = v@;
                let t = Target { map: x, rivers };
                v.insert(i, t);
                proof {
                    assert(target_models(v@) =~= placed(target_models(before), t@));
                    assert forall|k: int| 0 <= k < v.len() implies target_ok(#[trigger] &v[k]) by {
                        if k < i {
                            assert(v[k] == before[k]);
                        } else if k > i {
                            assert(v[k] == before[k - 1]);
                        }
                    }
                }
            },
            Err(_) => {},
        }
        n += 1;
    }
    v
}

/// The number of targets that are kept.
fn kept(v: &Vec<Target>, limit: usize, least: u64) -> (n: usize)
    ensures
        n == kept_from(rivers_of(target_models(v@)), limit as nat, least as nat, 0),
        n <= v.len(),
        n <= limit,
{
    let mut i: usize = 0;
    while i < v.len() && i < limit && v[i].rivers >= least
        invariant
            i <= v.len(),
            i <= limit,
            kept_from(rivers_of(target_models(v@)), limit as nat, least as nat, 0) == kept_from(
                rivers_of(target_models(v@)),
                limit as nat,
                least as nat,
                i as nat,
            ),
        decreases v.len() - i,
    {
        i += 1;
    }
    i
}

/// The targets of the search on 26 bits.
pub fn make_targets_26(points: &[Point]) -> (v: Vec<Target>)
    requires
        points_ok(points@),
    ensures
        target_models(v@) == targets_26(points@),
        forall|k: int| 0 <= k < v.len() ==> target_ok(#[trigger] &v[k]),
{
    let frags = split_rivers_into_fragments(points);
    proof {
        assert(Seq::new(frags.len() as nat, |k: int| frags[k]@) =~= fragment_models(points@));
    }
    let mut v = derive_targets(frags);
    let n = kept(&v, 10, 10);
    let ghost all = v@;
    v.truncate(n);
    proof {
        assert(target_models(v@) =~= target_models(all).take(n as int));
    }
    v
}

/// The generator of the maps that the search on 26 bits compares with its
/// targets: six zooms over a checkerboard, the edges of the result, and
/// these edges smoothed. Its maps depend on 26 bits of the world seed.
pub open spec fn candidate_layer(seed: i64) -> Layer {
    chained(edge_steps(), 8, seed, Layer::Checkers)
}

/// The seed that adds up with a seed to the constant has the same maps
/// in the search on 26 bits, and so passes with the same targets: the
/// search tries one of the two only.
pub proof fn lemma_candidates_of_twins(ts: Seq<TargetModel>, seed: i64)
    ensures
        candidate_layer(similar_seed(seed)) == candidate_layer(seed),
        passes_26(ts, similar_seed(seed)) == passes_26(ts, seed),
{
    lemma_chained_alike(edge_steps(), 8, seed, Layer::Checkers);
    lemma_missed_of_twins(ts, seed, ts.len());
}

/// The seed that adds up with a seed to the constant misses the same
/// targets.
pub proof fn lemma_missed_of_twins(ts: Seq<TargetModel>, seed: i64, n: nat)
    ensures
        missed_upto(ts, similar_seed(seed), n) == missed_upto(ts, seed, n),
    decreases n,
{
    lemma_chained_alike(edge_steps(), 8, seed, Layer::Checkers);
    if n > 0 {
        lemma_missed_of_twins(ts, seed, (n - 1) as nat);
    }
}

/// The generator of the maps that the search on 26 bits compares with its
/// targets.
pub fn candidate_river_map_generator(world_seed: i64) -> (l: Layer)
    ensures
        l == candidate_layer(world_seed),
        l.depth() == 9,
{
    let steps = make_edge_steps();
    proof {
        lemma_chained_depth(edge_steps(), 8, world_seed, Layer::Checkers);
    }
    chain(&steps, 8, world_seed, Layer::Checkers)
}

/// The map of an area that the search on 26 bits compares with a target.
pub fn candidate_river_map(a: Area, world_seed: i64) -> (m: BiomeMap)
    requires
        area_ok(a, 9),
    ensures
        m.wf(),
        m.region() == a,
        m@ == layer_model(candidate_layer(world_seed), a),
{
    let l = candidate_river_map_generator(world_seed);
    let m = l.get_map(a);
    proof {
        lemma_model_of_layer(l, &m, a);
    }
    m
}

/// The map that holds in every cell the bits that one of two maps has
/// there.
pub open spec fn either_model(a: MapModel, b: MapModel) -> MapModel {
    grid_model(a.x, a.z, a.w, a.h, |i: int, j: int| a.at(i, j) | b.at(i, j))
}

/// The map of an area for two seeds at once, the given one and the one
/// that differs from it in bit 25: in every cell the bits that one of
/// their two maps has there.
pub fn candidate_river_map_bit_25_undefined(a: Area, world_seed: i64) -> (m: BiomeMap)
    requires
        area_ok(a, 9),
    ensures
        m.wf(),
        m.region() == a,
        m@ == either_model(
            layer_model(candidate_layer(world_seed), a),
            layer_model(candidate_layer(world_seed ^ 0x200_0000), a),
        ),
{
    let mut m = candidate_river_map(a, world_seed);
    let other = candidate_river_map(a, world_seed ^ 0x200_0000);
    let ghost first = m@;
    let (w, h) = m.dim();
    let mut i: usize = 0;
    while i < w
        invariant
            i <= w,
            w == m.w(),
            h == m.h(),
            m.wf(),
            m.x == a.x,
            m.z == a.z,
            m.w() == a.w,
            m.h() == a.h,
            other.w() == w,
            other.h() == h,
            forall|p: int, q: int|
                0 <= p < w && 0 <= q < h ==> #[trigger] m.cell_at(p, q) == if p < i {
                    first.at(p, q) | other.cell_at(p, q)
                } else {
                    first.at(p, q)
                },
        decreases w - i,
    {
        let mut j: usize = 0;
        while j < h
            invariant
                i < w,
                j <= h,
                w == m.w(),
                h == m.h(),
                m.wf(),
                m.x == a.x,
                m.z == a.z,
                m.w() == a.w,
                m.h() == a.h,
                other.w() == w,
                other.h() == h,
                forall|p: int, q: int|
                    0 <= p < w && 0 <= q < h ==> #[trigger] m.cell_at(p, q) == if p < i || (p == i
                        && q < j) {
                        first.at(p, q) | other.cell_at(p, q)
                    } else {
                        first.at(p, q)
                    },
            decreases h - j,
        {
            let v = m.at(i, j) | other.at(i, j);
            m.put(i, j, v);
            j += 1;
        }
        i += 1;
    }
    proof {
        lemma_same_model(
            m@,
            either_model(first, layer_model(candidate_layer(world_seed ^ 0x200_0000), a)),
        );
    }
    m
}

/// The number of rivers of a target that the map of a seed has too.
pub open spec fn score_26(t: TargetModel, seed: i64) -> nat {
    tally(Tally::Both, layer_model(candidate_layer(seed), t.map.area()), t.map)
}

/// Whether the map of a seed misses a target: it has fewer than 90 in 100
/// of its rivers.
pub open spec fn misses_26(t: TargetModel, seed: i64) -> bool {
    score_26(t, seed) < t.rivers * 90 / 100
}

/// The number of the first `n` targets that the map of a seed misses.
pub open spec fn missed_upto(ts: Seq<TargetModel>, seed: i64, n: nat) -> nat
    decreases n,
{
    if n == 0 {
        0
    } else {
        missed_upto(ts, seed, (n - 1) as nat) + if misses_26(ts[n - 1], seed) {
            1nat
        } else {
            0nat
        }
    }
}

/// The number of missed targets that discards a seed: two, and one where
/// there is one target only.
pub open spec fn miss_limit(len: nat) -> nat {
    if len == 1 {
        1
    } else {
        2
    }
}

/// Whether a seed passes the search on 26 bits.
pub open spec fn passes_26(ts: Seq<TargetModel>, seed: i64) -> bool {
    missed_upto(ts, seed, ts.len()) < miss_limit(ts.len())
}

/// No fewer targets are missed among more of them.
pub proof fn lemma_missed_rises(ts: Seq<TargetModel>, seed: i64, n: nat, m: nat)
    requires
        n <= m,
    ensures
        missed_upto(ts, seed, n) <= missed_upto(ts, seed, m),
    decreases m,
{
    if n < m {
        lemma_missed_rises(ts, seed, n, (m - 1) as nat);
    }
}

/// Whether a seed passes the search on 26 bits.
pub fn fits_26(targets: &Vec<Target>, seed: i64) -> (r: bool)
    requires
        forall|k: int| 0 <= k < targets.len() ==> target_ok(#[trigger] &targets[k]),
    ensures
        r == passes_26(target_models(targets@), seed),
{
    let limit: usize = if targets.len() == 1 {
        1
    } else {
        2
    };
    let ghost ts = target_models(targets@);
    let mut bad: usize = 0;
    let mut k: usize = 0;
    while k < targets.len()
        invariant
            k <= targets.len(),
            ts == target_models(targets@),
            limit == miss_limit(ts.len()),
            bad == missed_upto(ts, seed, k as nat),
            bad < limit,
            forall|k: int| 0 <= k < targets.len() ==> target_ok(#[trigger] &targets[k]),
        decreases targets.len() - k,
    {
        let t = &targets[k];
        assert(target_ok(t));
        assert(ts[k as int] == t@);
        let area = t.map.area();
        proof {
            assert((area.w + 577) * (area.h + 577) <= 641 * 641) by (nonlinear_arith)
                requires
                    area.w <= 64,
                    area.h <= 64,
            ;
        }
        let candidate = candidate_river_map(area, seed);
        // The map of the seed will have more rivers than the target, but
        // for a few cells.
        let score = count_rivers_and(&candidate, &t.map);
        if score < t.rivers * 90 / 100 {
            bad += 1;
            if bad >= limit {
                proof {
                    lemma_missed_rises(ts, seed, (k + 1) as nat, ts.len());
                }
                return false;
            }
        }
        k += 1;
    }
    true
}

/// A seed of 26 bits and the seed that gives the same maps, on 26 bits.
pub open spec fn twin_pair(seed: i64) -> Seq<i64> {
    seq![seed, similar_seed(seed) & 0x3FF_FFFF]
}

/// What the search on 26 bits finds for one seed of 25 bits: the seed and
/// its twin where it passes, then the seed with bit 25 set and its twin
/// where that one passes.
pub open spec fn found_for(ts: Seq<TargetModel>, seed: i64) -> Seq<i64> {
    (if passes_26(ts, seed) {
        twin_pair(seed)
    } else {
        Seq::empty()
    }) + (if passes_26(ts, seed ^ 0x200_0000) {
        twin_pair(seed ^ 0x200_0000)
    } else {
        Seq::empty()
    })
}

/// What the search on 26 bits finds for the first `n` of the seeds.
pub open spec fn found_26(ts: Seq<TargetModel>, seeds: Seq<i64>, n: nat) -> Seq<i64>
    decreases n,
{
    if n == 0 {
        Seq::empty()
    } else {
        found_26(ts, seeds, (n - 1) as nat) + found_for(ts, seeds[n - 1])
    }
}

/// The seeds of 26 bits that can have made the rivers at the points, among
/// the seeds that the range names: each seed of the range stands for four.
pub open spec fn candidates_26(points: Seq<Point>, lo: u32, hi: u32) -> Seq<i64> {
    let seeds = twin_range(25, lo as u64, hi as u64);
    found_26(targets_26(points), seeds, seeds.len())
}

/// The search on 26 bits for given targets and seeds.
pub fn search_26(targets: &Vec<Target>, seeds: &Vec<i64>) -> (r: Vec<i64>)
    requires
        forall|k: int| 0 <= k < targets.len() ==> target_ok(#[trigger] &targets[k]),
    ensures
        r@ == found_26(target_models(targets@), seeds@, seeds.len() as nat),
{
    let ghost ts = target_models(targets@);
    let mut r: Vec<i64> = Vec::new();
    let mut n: usize = 0;
    while n < seeds.len()
        invariant
            n <= seeds.len(),
            ts == target_models(targets@),
            r@ == found_26(ts, seeds@, n as nat),
            forall|k: int| 0 <= k < targets.len() ==> target_ok(#[trigger] &targets[k]),
        decreases seeds.len() - n,
    {
        let world_seed = seeds[n];
        let ghost before = r@;
        // Check with bit 25 set to 0
        if fits_26(targets, world_seed) {
            r.push(world_seed);
            r.push(McRng::similar_biome_seed(world_seed) & 0x3FF_FFFF);
        }
        let ghost middle = r@;
        // Check with bit 25 set to 1
        let other = world_seed ^ 0x200_0000;
        if fits_26(targets, other) {
            r.push(other);
            r.push(McRng::similar_biome_seed(other) & 0x3FF_FFFF);
        }
        proof {
            assert(r@ =~= before + found_for(ts, world_seed));
        }
        n += 1;
    }
    r
}

/// The seeds of 26 bits that can have made the rivers at the points, among
/// the seeds that the range names. The range is one of indices into the
/// list of the 2^24 seeds of 25 bits that are smaller than their twins.
pub fn river_seed_finder_26_range(
    river_coords_voronoi: &[Point],
    range_lo: u32,
    range_hi: u32,
) -> (r: Vec<i64>)
    requires
        points_ok(river_coords_voronoi@),
    ensures
        r@ == candidates_26(river_coords_voronoi@, range_lo, range_hi),
{
    let seeds = McRng::similar_biome_seeds_in_range(25, range_lo as u64, range_hi as u64);
    let targets = make_targets_26(river_coords_voronoi);
    search_26(&targets, &seeds)
}

/// Whether a point is one of those that the last zoom copies from the
/// layer below it: both coordinates are 2 more than a multiple of 4.
pub open spec fn copied_by_last_zoom(p: Point) -> bool {
    p.0 as int % 4 == 2 && p.1 as int % 4 == 2
}

/// Those of the first `n` points that the last zoom copies, or those that
/// it does not, in their order.
pub open spec fn points_upto(c: Seq<Point>, copied: bool, n: nat) -> Seq<Point>
    decreases n,
{
    if n == 0 {
        Seq::empty()
    } else {
        let before = points_upto(c, copied, (n - 1) as nat);
        if copied_by_last_zoom(c[n - 1]) == copied {
            before.push(c[n - 1])
        } else {
            before
        }
    }
}

/// Those of the first `n` points that lie in an area, in their order.
pub open spec fn points_inside(c: Seq<Point>, a: Area, n: nat) -> Seq<Point>
    decreases n,
{
    if n == 0 {
        Seq::empty()
    } else {
        let before = points_inside(c, a, (n - 1) as nat);
        if a.has(c[n - 1].0 as int, c[n - 1].1 as int) {
            before.push(c[n - 1])
        } else {
            before
        }
    }
}

/// Tell the points that serve below the last zoom from those that serve
/// at full resolution. The first list holds the points that the last zoom
/// copies. The second list holds the other points, and after them those
/// of the first list that lie in the smallest area around the others.
pub fn segregate_coords_prevoronoi_hd(coords: Vec<Point>) -> (r: (Vec<Point>, Vec<Point>))
    requires
        forall|k: int|
            0 <= k < coords.len() ==> i64::MIN < (#[trigger] coords[k]).0 && i64::MIN < coords[k].1,
    ensures
        r.0@ == points_upto(coords@, true, coords.len() as nat),
        r.1@ == ({
            let others = points_upto(coords@, false, coords.len() as nat);
            others + points_inside(r.0@, Area::bounding(others), r.0.len() as nat)
        }),
{
    let mut prevoronoi_coords: Vec<Point> = Vec::new();
    let mut hd_coords: Vec<Point> = Vec::new();
    let mut n: usize = 0;
    while n < coords.len()
        invariant
            n <= coords.len(),
            prevoronoi_coords@ == points_upto(coords@, true, n as nat),
            hd_coords@ == points_upto(coords@, false, n as nat),
            forall|k: int|
                0 <= k < hd_coords.len() ==> i64::MIN < (#[trigger] hd_coords[k]).0 && i64::MIN
                    < hd_coords[k].1,
            forall|k: int|
                0 <= k < coords.len() ==> i64::MIN < (#[trigger] coords[k]).0 && i64::MIN
                    < coords[k].1,
        decreases coords.len() - n,
    {
        let (x, z) = coords[n];
        if McRng::math_floor_mod(x, 4) == 2 && McRng::math_floor_mod(z, 4) == 2 {
            prevoronoi_coords.push((x, z));
        } else {
            hd_coords.push((x, z));
        }
        n += 1;
    }
    // Take the area of the other points, and add the copied points that
    // lie in it.
    let area = Area::from_coords(hd_coords.as_slice());
    let ghost others = hd_coords@;
    let mut k: usize = 0;
    while k < prevoronoi_coords.len()
        invariant
            k <= prevoronoi_coords.len(),
            hd_coords@ == others + points_inside(prevoronoi_coords@, area, k as nat),
        decreases prevoronoi_coords.len() - k,
    {
        let (x, z) = prevoronoi_coords[k];
        if area.contains(x, z) {
            hd_coords.push((x, z));
        }
        proof {
            assert(hd_coords@ =~= others + points_inside(prevoronoi_coords@, area, (k + 1) as nat));
        }
        k += 1;
    }
    (prevoronoi_coords, hd_coords)
}

/// The area of the layer below a zoom that the zoom reads for an area.
pub open spec fn area_below(a: Area) -> Area {
    Area {
        x: (a.x as int / 2) as i64,
        z: (a.z as int / 2) as i64,
        w: (a.w / 2 + 2) as u64,
        h: (a.h / 2 + 2) as u64,
    }
}

/// The area of 3 by 3 cells around a point, and the areas that the zooms
/// below read for it, `level` zooms down.
pub open spec fn area_near(p: Point, level: nat) -> Area
    decreases level,
{
    if level == 0 {
        Area { x: (p.0 - 1) as i64, z: (p.1 - 1) as i64, w: 3, h: 3 }
    } else {
        area_below(area_near(p, (level - 1) as nat))
    }
}

/// Whether all the cells of a map hold one value.
pub open spec fn uniform(m: MapModel) -> bool {
    forall|i: int, j: int| 0 <= i < m.w && 0 <= j < m.h ==> #[trigger] m.at(i, j) == m.at(0, 0)
}

/// Whether all the cells of a map hold one value.
pub fn all_equal(m: &BiomeMap) -> (r: bool)
    requires
        m.wf(),
        m.w() >= 1,
        m.h() >= 1,
    ensures
        r == uniform(m@),
{
    let (w, h) = m.dim();
    let first = m.at(0, 0);
    assert(m@.at(0, 0) == first);
    let mut i: usize = 0;
    while i < w
        invariant
            i <= w,
            w == m.w(),
            h == m.h(),
            h >= 1,
            m.wf(),
            first == m@.at(0, 0),
            forall|p: int, q: int| 0 <= p < i && 0 <= q < h ==> #[trigger] m@.at(p, q) == first,
        decreases w - i,
    {
        let mut j: usize = 0;
        while j < h
            invariant
                i < w,
                j <= h,
                w == m.w(),
                h == m.h(),
                m.wf(),
                first == m@.at(0, 0),
                forall|p: int, q: int| 0 <= p < i && 0 <= q < h ==> #[trigger] m@.at(p, q) == first,
                forall|q: int| 0 <= q < j ==> #[trigger] m@.at(i as int, q) == first,
            decreases h - j,
        {
            if m.at(i, j) != first {
                assert(m@.at(i as int, j as int) == m.cell_at(i as int, j as int));
                return false;
            }
            assert(m@.at(i as int, j as int) == m.cell_at(i as int, j as int));
            j += 1;
        }
        i += 1;
    }
    true
}

/// The number of the first of the five zooms before the rivers whose map
/// near a point holds one value only, and so no edge: 0 where none does.
/// The point is one of the layer of the rivers.
pub open spec fn first_flat(p: Point, seed: i64) -> u8 {
    if uniform(layer_model(chained(edge_steps(), 2, seed, Layer::Checkers), area_near(p, 4))) {
        1
    } else if uniform(
        layer_model(chained(edge_steps(), 3, seed, Layer::Checkers), area_near(p, 3)),
    ) {
        2
    } else if uniform(
        layer_model(chained(edge_steps(), 4, seed, Layer::Checkers), area_near(p, 2)),
    ) {
        3
    } else if uniform(
        layer_model(chained(edge_steps(), 5, seed, Layer::Checkers), area_near(p, 1)),
    ) {
        4
    } else if uniform(
        layer_model(chained(edge_steps(), 6, seed, Layer::Checkers), area_near(p, 0)),
    ) {
        5
    } else {
        0
    }
}

/// The number of checks that discard a seed for a point: 0 where the seed,
/// or the seed with bit 25 set, can make a river near the point.
pub open spec fn river_checks(p: Point, seed: i64) -> u8 {
    if seed & 0x200_0000 == 0 && first_flat(p, seed | 0x200_0000) == 0 {
        0
    } else {
        first_flat(p, seed)
    }
}

/// Whether a point lies where the search can ask for maps around it.
pub open spec fn point_ok(p: Point) -> bool {
    -(coord_limit() - 8192) < p.0 < coord_limit() - 8192 && -(coord_limit() - 8192) < p.1
        < coord_limit() - 8192
}

/// Whether the map of the first `n` zooms over an area holds one value
/// only.
fn flat_at(steps: &Vec<Step>, n: usize, seed: i64, area: Area) -> (r: bool)
    requires
        steps@ == edge_steps(),
        n <= 6,
        3 <= area.w <= 8,
        3 <= area.h <= 8,
        rect_within(
            area.x as int,
            area.z as int,
            area.w as int,
            area.h as int,
            coord_limit() - 8000,
        ),
    ensures
        r == uniform(layer_model(chained(edge_steps(), n as nat, seed, Layer::Checkers), area)),
{
    let l = chain(steps, n, seed, Layer::Checkers);
    proof {
        lemma_chained_depth(edge_steps(), n as nat, seed, Layer::Checkers);
        assert((area.w + 64 * l.depth() + 1) * (area.h + 64 * l.depth() + 1) <= 500 * 500)
            by (nonlinear_arith)
            requires
                area.w <= 8,
                area.h <= 8,
                l.depth() <= 7,
        ;
    }
    let m = l.get_map(area);
    proof {
        lemma_model_of_layer(l, &m, area);
    }
    all_equal(&m)
}

/// The area of the layer below a zoom that the zoom reads for an area.
fn prev_area(area: Area) -> (r: Area)
    requires
        area.w <= 8,
        area.h <= 8,
    ensures
        r == area_below(area),
{
    Area {
        x: McRng::math_floor_div(area.x, 2),
        z: McRng::math_floor_div(area.z, 2),
        w: area.w / 2 + 2,
        h: area.h / 2 + 2,
    }
}

/// The number of the first zoom whose map near a point holds one value
/// only.
fn first_flat_zoom(pre_voronoi_point: Point, world_seed: i64) -> (r: u8)
    requires
        point_ok(pre_voronoi_point),
    ensures
        r == first_flat(pre_voronoi_point, world_seed),
{
    // An area of 3 by 3 cells costs about as much as one cell.
    let a39 = Area { x: pre_voronoi_point.0 - 1, z: pre_voronoi_point.1 - 1, w: 3, h: 3 };
    let a38 = prev_area(a39);
    let a37 = prev_area(a38);
    let a36 = prev_area(a37);
    let a35 = prev_area(a36);
    proof {
        reveal_with_fuel(area_near, 5);
        assert(a39 == area_near(pre_voronoi_point, 0));
        assert(a38 == area_near(pre_voronoi_point, 1));
        assert(a37 == area_near(pre_voronoi_point, 2));
        assert(a36 == area_near(pre_voronoi_point, 3));
        assert(a35 == area_near(pre_voronoi_point, 4));
    }
    let steps = make_edge_steps();
    // A map whose cells are all equal has no edge, and so no river.
    if flat_at(&steps, 2, world_seed, a35) {
        return 1;
    }
    if flat_at(&steps, 3, world_seed, a36) {
        return 2;
    }
    if flat_at(&steps, 4, world_seed, a37) {
        return 3;
    }
    if flat_at(&steps, 5, world_seed, a38) {
        return 4;
    }
    if flat_at(&steps, 6, world_seed, a39) {
        return 5;
    }
    0
}

/// The number of checks that were needed to discard a seed, or 0 where the
/// seed can make a river near the point.
pub fn can_generate_river_near_steps(pre_voronoi_point: Point, world_seed: i64) -> (r: u8)
    requires
        point_ok(pre_voronoi_point),
    ensures
        r == river_checks(pre_voronoi_point, world_seed),
{
    if world_seed & 0x200_0000 == 0 {
        let a = first_flat_zoom(pre_voronoi_point, world_seed | 0x200_0000);
        if a == 0 {
            return 0;
        }
    }
    first_flat_zoom(pre_voronoi_point, world_seed)
}

/// A fast check of whether a river can be near a point of the layer of
/// the rivers, for a seed of 26 bits or the seed with bit 25 set. A river
/// that it says can be there need not be there; one that it says cannot
/// be there is there in rare cases only.
pub fn can_generate_river_near(pre_voronoi_point: Point, world_seed: i64) -> (r: bool)
    requires
        point_ok(pre_voronoi_point),
    ensures
        r == (river_checks(pre_voronoi_point, world_seed) == 0),
{
    can_generate_river_near_steps(pre_voronoi_point, world_seed) == 0
}

} // verus!
