//! The later stages of the search for world seeds: from the seeds of 26
//! bits to seeds of 34 bits, by the jitter of the last zoom, and from these
//! to whole seeds, by the generator of the game's random numbers and the
//! whole generation.

use vstd::prelude::*;
use vstd::seq_lib::{to_multiset_build, to_multiset_insert};
use crate::biome_layers::finder::{
    candidates_26, count_rivers, count_rivers_and, fragment_models, kept_from, place_from,
    points_ok, river_seed_finder_26_range, split_rivers_into_fragments,
};
use crate::biome_layers::grid::cells_fit;
use crate::biome_layers::inverse::{reverse_map_voronoi_zoom, reverse_voronoi_model};
use crate::biome_layers::layers::area_ok;
use crate::biome_layers::models::{
    edge_model, half_voronoi_model, layer_model, lemma_model_of_layer, lemma_same_model,
    slice_model, stencil_of, tally, voronoi_model, voronoi_value_of, MapModel, Tally,
};
use crate::biome_layers::named::{HelperMapRiverAll, MapHalfVoronoiZoom, MapVoronoiZoom};
use crate::biome_layers::pipeline::{depth_limit, generate_up_to_layer, world_layer};
use crate::biome_layers::transforms::{slice_to_area, stencil_at};
use crate::biome_layers::voronoi::{half_voronoi_value, voronoi_value, Jitter};
use crate::biome_layers::{coord_limit, Area, BiomeMap};
use crate::java_rng::recover::extend_upto;
use crate::java_rng::JavaRng;
use crate::mc_rng::McRng;
use crate::seed_info::{MinecraftVersion, Point};

verus! {

/// The edges of a map.
pub fn edges_of(pmap: &BiomeMap) -> (m: BiomeMap)
    requires
        pmap.wf(),
        pmap.w() >= 2,
        pmap.h() >= 2,
        pmap.within(coord_limit()),
    ensures
        m.wf(),
        m.x == pmap.x + 1,
        m.z == pmap.z + 1,
        m.w() == pmap.w() - 2,
        m.h() == pmap.h() - 2,
        m@ == edge_model(pmap@),
{
    let m = HelperMapRiverAll::new(1, 0).get_map_from_pmap(pmap);
    proof {
        assert forall|i: int, j: int| 0 <= i < m.w() && 0 <= j < m.h() implies m@.at(i, j)
            == edge_model(pmap@).at(i, j) by {
            assert(m@.at(i, j) == m.cell_at(i, j));
            assert(stencil_at(pmap, i, j) == stencil_of(pmap@, i, j));
        }
        lemma_same_model(m@, edge_model(pmap@));
    }
    m
}

/// The map that the last zoom makes of a map, for a world seed.
pub fn voronoi_of(world_seed: i64, pmap: &BiomeMap) -> (m: BiomeMap)
    requires
        pmap.wf(),
        pmap.w() >= 1,
        pmap.h() >= 1,
        pmap.within(coord_limit()),
        cells_fit(4 * (pmap.w() as int), 4 * (pmap.h() as int)),
    ensures
        m.wf(),
        m.x == 4 * pmap.x + 2,
        m.z == 4 * pmap.z + 2,
        m.w() == 4 * (pmap.w() - 1),
        m.h() == 4 * (pmap.h() - 1),
        m@ == voronoi_model(Jitter::Seeded(McRng::seeded(10, world_seed)), pmap@),
{
    let m = MapVoronoiZoom::new(10, world_seed).get_map_from_pmap(pmap);
    proof {
        let kind = Jitter::Seeded(McRng::seeded(10, world_seed));
        assert forall|i: int, j: int| 0 <= i < m.w() && 0 <= j < m.h() implies m@.at(i, j)
            == voronoi_model(kind, pmap@).at(i, j) by {
            assert(m@.at(i, j) == m.cell_at(i, j));
            let bi = i / 4;
            let bj = j / 4;
            assert(pmap@.at(bi, bj) == pmap.cell_at(bi, bj));
            assert(pmap@.at(bi + 1, bj) == pmap.cell_at(bi + 1, bj));
            assert(pmap@.at(bi, bj + 1) == pmap.cell_at(bi, bj + 1));
            assert(pmap@.at(bi + 1, bj + 1) == pmap.cell_at(bi + 1, bj + 1));
            assert(voronoi_value(kind, pmap, i, j) == voronoi_value_of(kind, pmap@, i, j));
        }
        lemma_same_model(m@, voronoi_model(kind, pmap@));
    }
    m
}

/// The value that the last zoom at half its scale puts into a cell of its
/// map is the value of the cell in the map that it makes of what the map
/// below holds.
pub proof fn lemma_half_value(r: McRng, pmap: &BiomeMap, i: int, j: int)
    requires
        0 <= i < 2 * (pmap.w() - 1),
        0 <= j < 2 * (pmap.h() - 1),
    ensures
        half_voronoi_value(r, pmap, i, j) == half_voronoi_model(r, pmap@).at(i, j),
{
    let bi = (2 * i) / 4;
    let bj = (2 * j) / 4;
    assert(pmap@.at(bi, bj) == pmap.cell_at(bi, bj));
    assert(pmap@.at(bi + 1, bj) == pmap.cell_at(bi + 1, bj));
    assert(pmap@.at(bi, bj + 1) == pmap.cell_at(bi, bj + 1));
    assert(pmap@.at(bi + 1, bj + 1) == pmap.cell_at(bi + 1, bj + 1));
    assert(half_voronoi_value(r, pmap, i, j) == voronoi_value_of(
        Jitter::Seeded(r),
        pmap@,
        2 * i,
        2 * j,
    ));
}

/// The map that the last zoom at half its scale makes of a map, for a
/// world seed.
pub fn half_voronoi_of(world_seed: i64, pmap: &BiomeMap) -> (m: BiomeMap)
    requires
        pmap.wf(),
        pmap.w() >= 1,
        pmap.h() >= 1,
        pmap.within(coord_limit()),
        cells_fit(4 * (pmap.w() as int), 4 * (pmap.h() as int)),
    ensures
        m.wf(),
        m.x == 2 * pmap.x + 1,
        m.z == 2 * pmap.z + 1,
        m.w() == 2 * (pmap.w() - 1),
        m.h() == 2 * (pmap.h() - 1),
        m@ == half_voronoi_model(McRng::seeded(10, world_seed), pmap@),
{
    let m = MapHalfVoronoiZoom::new(10, world_seed).get_map_from_pmap(pmap);
    proof {
        let r = McRng::seeded(10, world_seed);
        assert forall|i: int, j: int| 0 <= i < m.w() && 0 <= j < m.h() implies m@.at(i, j)
            == half_voronoi_model(r, pmap@).at(i, j) by {
            assert(m@.at(i, j) == m.cell_at(i, j));
            lemma_half_value(r, pmap, i, j);
        }
        lemma_same_model(m@, half_voronoi_model(r, pmap@));
    }
    m
}

/// A fragment as the search on 34 bits takes it: the map below the last
/// zoom, the edges of the fragment over the area that the last zoom makes
/// of that map, and the number of these edges.
pub struct EdgeTarget {
    pub map: BiomeMap,
    pub edges: BiomeMap,
    pub rivers: u64,
}

/// What a target of the search on 34 bits holds.
pub struct EdgeTargetModel {
    pub map: MapModel,
    pub edges: MapModel,
    pub rivers: nat,
}

impl View for EdgeTarget {
    type V = EdgeTargetModel;

    open spec fn view(&self) -> EdgeTargetModel {
        EdgeTargetModel { map: self.map@, edges: self.edges@, rivers: self.rivers as nat }
    }
}

/// What the targets of a list hold.
pub open spec fn edge_models(v: Seq<EdgeTarget>) -> Seq<EdgeTargetModel> {
    Seq::new(v.len(), |k: int| v[k]@)
}

/// The numbers of edges of the targets of a list.
pub open spec fn edges_in(s: Seq<EdgeTargetModel>) -> Seq<nat> {
    Seq::new(s.len(), |k: int| s[k].rivers)
}

/// The target that a fragment makes: none where the fragment cannot be
/// brought down below the last zoom, or where the last zoom makes no more
/// than 2 cells along an axis of what it is brought down to.
pub open spec fn edge_target_of(frag: MapModel) -> Option<EdgeTargetModel> {
    match reverse_voronoi_model(frag) {
        None => None,
        Some(d) => if 4 * (d.w - 1) <= 2 || 4 * (d.h - 1) <= 2 {
            None
        } else {
            let edges = edge_model(
                slice_model(
                    frag,
                    4 * d.x + 2,
                    4 * d.z + 2,
                    (4 * (d.w - 1)) as nat,
                    (4 * (d.h - 1)) as nat,
                ),
            );
            Some(EdgeTargetModel { map: d, edges, rivers: tally(Tally::First, edges, edges) })
        },
    }
}

/// Whether a target is one that the search can work on.
pub open spec fn edge_target_ok(t: &EdgeTarget) -> bool {
    &&& t.map.wf()
    &&& 2 <= t.map.w() <= 64
    &&& 2 <= t.map.h() <= 64
    &&& -coord_limit() <= 4 * t.map.x + 2
    &&& 4 * (t.map.x + t.map.w()) - 2 <= coord_limit()
    &&& -coord_limit() <= 4 * t.map.z + 2
    &&& 4 * (t.map.z + t.map.h()) - 2 <= coord_limit()
    &&& t.edges.wf()
    &&& t.edges.w() == 4 * (t.map.w() - 1) - 2
    &&& t.edges.h() == 4 * (t.map.h() - 1) - 2
    &&& t.rivers <= 65536
}

/// The target that a fragment makes.
pub fn edge_target(frag: &BiomeMap) -> (r: Option<EdgeTarget>)
    requires
        frag.wf(),
        frag.within(coord_limit()),
        frag.w() <= 64,
        frag.h() <= 64,
    ensures
        match r {
            Some(t) => edge_target_of(frag@) == Some(t@) && edge_target_ok(&t),
            None => edge_target_of(frag@) is None,
        },
{
    match reverse_map_voronoi_zoom(frag) {
        Ok(derived) => {
            assert((4 * derived.w() + 1) * (4 * derived.h() + 1) <= 257 * 257) by (nonlinear_arith)
                requires
                    derived.w() <= 64,
                    derived.h() <= 64,
            ;
            // Compare the resolution of the fragment with that of the
            // last zoom over what the fragment was brought down to.
            let back = voronoi_of(1234, &derived);
            let area = back.area();
            if area.w <= 2 || area.h <= 2 {
                return None;
            }
            let sliced = slice_to_area(frag.clone(), area);
            proof {
                assert forall|i: int, j: int| 0 <= i < sliced.w() && 0 <= j < sliced.h() implies sliced@.at(
                    i,
                    j,
                ) == slice_model(frag@, area.x as int, area.z as int, area.w as nat, area.h as nat).at(
                    i,
                    j,
                ) by {
                    assert(sliced@.at(i, j) == sliced.cell_at(i, j));
                    assert(frag@.at(area.x + i - frag.x, area.z + j - frag.z) == frag.cell_at(
                        area.x + i - frag.x,
                        area.z + j - frag.z,
                    ));
                }
                lemma_same_model(
                    sliced@,
                    slice_model(frag@, area.x as int, area.z as int, area.w as nat, area.h as nat),
                );
            }
            // Only the borders are compared: the edges of the rivers.
            let edges = edges_of(&sliced);
            let rivers = count_rivers(&edges);
            assert(rivers <= 65536) by (nonlinear_arith)
                requires
                    rivers <= edges.w() * edges.h(),
                    edges.w() <= 256,
                    edges.h() <= 256,
            ;
            Some(EdgeTarget { map: derived, edges, rivers })
        },
        Err(_) => None,
    }
}

/// The list with a target more, behind the targets that have no fewer
/// edges.
pub open spec fn edge_placed(s: Seq<EdgeTargetModel>, t: EdgeTargetModel) -> Seq<EdgeTargetModel> {
    s.insert(place_from(edges_in(s), t.rivers, 0) as int, t)
}

/// The targets that the first `n` fragments make, those with most edges
/// first.
pub open spec fn edge_targets_upto(frags: Seq<MapModel>, n: nat) -> Seq<EdgeTargetModel>
    decreases n,
{
    if n == 0 {
        Seq::empty()
    } else {
        let before = edge_targets_upto(frags, (n - 1) as nat);
        match edge_target_of(frags[n - 1]) {
            Some(t) => edge_placed(before, t),
            None => before,
        }
    }
}

/// The targets of the search on 34 bits: of the targets that the fragments
/// of the points make, the four with most edges, as far as they have 40
/// edges.
pub open spec fn targets_34(points: Seq<Point>) -> Seq<EdgeTargetModel> {
    let frags = fragment_models(points);
    let all = edge_targets_upto(frags, frags.len());
    all.take(kept_from(edges_in(all), 4, 40, 0) as int)
}

/// The index at which a target with the given number of edges is put.
fn edge_place_of(v: &Vec<EdgeTarget>, rivers: u64) -> (i: usize)
    ensures
        i == place_from(edges_in(edge_models(v@)), rivers as nat, 0),
        i <= v.len(),
{
    let mut i: usize = 0;
    while i < v.len() && v[i].rivers >= rivers
        invariant
            i <= v.len(),
            place_from(edges_in(edge_models(v@)), rivers as nat, 0) == place_from(
                edges_in(edge_models(v@)),
                rivers as nat,
                i as nat,
            ),
        decreases v.len() - i,
    {
        i += 1;
    }
    i
}

/// The number of targets that are kept.
fn edge_kept(v: &Vec<EdgeTarget>, limit: usize, least: u64) -> (n: usize)
    ensures
        n == kept_from(edges_in(edge_models(v@)), limit as nat, least as nat, 0),
        n <= v.len(),
{
    let mut i: usize = 0;
    while i < v.len() && i < limit && v[i].rivers >= least
        invariant
            i <= v.len(),
            kept_from(edges_in(edge_models(v@)), limit as nat, least as nat, 0) == kept_from(
                edges_in(edge_models(v@)),
                limit as nat,
                least as nat,
                i as nat,
            ),
        decreases v.len() - i,
    {
        i += 1;
    }
    i
}

/// The targets of the search on 34 bits.
pub fn make_targets_34(points: &[Point]) -> (v: Vec<EdgeTarget>)
    requires
        points_ok(points@),
    ensures
        edge_models(v@) == targets_34(points@),
        forall|k: int| 0 <= k < v.len() ==> edge_target_ok(#[trigger] &v[k]),
{
    let frags = split_rivers_into_fragments(points);
    let ghost models = fragment_models(points@);
    let mut v: Vec<EdgeTarget> = Vec::new();
    let mut n: usize = 0;
    proof {
        assert(edge_models(v@) =~= edge_targets_upto(models, 0));
    }
    while n < frags.len()
        invariant
            n <= frags.len(),
            models.len() == frags.len(),
            forall|k: int|
                0 <= k < frags.len() ==> (#[trigger] frags[k]).wf() && frags[k].within(
                    coord_limit(),
                ) && frags[k].w() <= 64 && frags[k].h() <= 64 && frags[k]@ == models[k],
            edge_models(v@) == edge_targets_upto(models, n as nat),
            forall|k: int| 0 <= k < v.len() ==> edge_target_ok(#[trigger] &v[k]),
        decreases frags.len() - n,
    {
        assert(models[n as int] == frags[n as int]@);
        match edge_target(&frags[n]) {
            Some(t) => {
                let i = edge_place_of(&v, t.rivers);
                let ghost before = v@;
                let ghost tm = t@;
                v.insert(i, t);
                proof {
                    assert(edge_models(v@) =~= edge_placed(edge_models(before), tm));
                    assert forall|k: int| 0 <= k < v.len() implies edge_target_ok(
                        #[trigger] &v[k],
                    ) by {
                        if k < i {
                            assert(v[k] == before[k]);
                        } else if k > i {
                            assert(v[k] == before[k - 1]);
                        }
                    }
                }
            },
            None => {},
        }
        n += 1;
    }
    let kept = edge_kept(&v, 4, 40);
    let ghost all = v@;
    v.truncate(kept);
    proof {
        assert(edge_models(v@) =~= edge_models(all).take(kept as int));
    }
    v
}

/// The number of edges of a target that the last zoom for a seed makes of
/// the map of the target.
pub open spec fn score_34(t: EdgeTargetModel, seed: i64) -> nat {
    tally(
        Tally::Both,
        edge_model(voronoi_model(Jitter::Seeded(McRng::seeded(10, seed)), t.map)),
        t.edges,
    )
}

/// Whether a seed fits one of the first `n` targets: the last zoom makes
/// 90 in 100 of its edges.
pub open spec fn fits_34_upto(ts: Seq<EdgeTargetModel>, seed: i64, n: nat) -> bool
    decreases n,
{
    n > 0 && (fits_34_upto(ts, seed, (n - 1) as nat) || score_34(ts[n - 1], seed) >= ts[n
        - 1].rivers * 90 / 100)
}

/// Whether a seed fits one of the targets.
pub fn fits_34(targets: &Vec<EdgeTarget>, seed: i64) -> (r: bool)
    requires
        forall|k: int| 0 <= k < targets.len() ==> edge_target_ok(#[trigger] &targets[k]),
    ensures
        r == fits_34_upto(edge_models(targets@), seed, targets.len() as nat),
{
    let ghost ts = edge_models(targets@);
    let mut k: usize = 0;
    while k < targets.len()
        invariant
            k <= targets.len(),
            ts == edge_models(targets@),
            !fits_34_upto(ts, seed, k as nat),
            forall|k: int| 0 <= k < targets.len() ==> edge_target_ok(#[trigger] &targets[k]),
        decreases targets.len() - k,
    {
        let t = &targets[k];
        assert(edge_target_ok(t));
        assert(ts[k as int] == t@);
        assert((4 * t.map.w() + 1) * (4 * t.map.h() + 1) <= 257 * 257) by (nonlinear_arith)
            requires
                t.map.w() <= 64,
                t.map.h() <= 64,
        ;
        let candidate = voronoi_of(seed, &t.map);
        let candidate_edges = edges_of(&candidate);
        let score = count_rivers_and(&candidate_edges, &t.edges);
        // One target that fits is enough.
        if score >= t.rivers * 90 / 100 {
            proof {
                lemma_fits_34_stays(ts, seed, (k + 1) as nat, ts.len());
            }
            return true;
        }
        k += 1;
    }
    false
}

/// A seed that fits one of the first targets fits one of more of them.
pub proof fn lemma_fits_34_stays(ts: Seq<EdgeTargetModel>, seed: i64, n: nat, m: nat)
    requires
        n <= m,
        fits_34_upto(ts, seed, n),
    ensures
        fits_34_upto(ts, seed, m),
    decreases m,
{
    if n < m {
        lemma_fits_34_stays(ts, seed, n, (m - 1) as nat);
    }
}

/// The seeds of 34 bits that fit, among those that continue a seed of 26
/// bits with one of the first `n` values of the next 8 bits.
pub open spec fn found_34_for(ts: Seq<EdgeTargetModel>, x: i64, n: nat) -> Seq<i64>
    decreases n,
{
    if n == 0 {
        Seq::empty()
    } else {
        let seed = x | (((n - 1) as i64) << 26);
        found_34_for(ts, x, (n - 1) as nat) + if fits_34_upto(ts, seed, ts.len()) {
            seq![seed]
        } else {
            Seq::empty()
        }
    }
}

/// The seeds of 34 bits that fit, among those that continue one of the
/// first `n` of the seeds of 26 bits.
pub open spec fn found_34(ts: Seq<EdgeTargetModel>, seeds: Seq<i64>, n: nat) -> Seq<i64>
    decreases n,
{
    if n == 0 {
        Seq::empty()
    } else {
        found_34(ts, seeds, (n - 1) as nat) + found_34_for(ts, seeds[n - 1], 256)
    }
}

/// The search on 34 bits, for given targets and seeds of 26 bits: the
/// jitter of the last zoom decides on the 8 bits that are new.
pub fn search_34(targets: &Vec<EdgeTarget>, seeds: &Vec<i64>) -> (r: Vec<i64>)
    requires
        forall|k: int| 0 <= k < targets.len() ==> edge_target_ok(#[trigger] &targets[k]),
    ensures
        r@ == found_34(edge_models(targets@), seeds@, seeds.len() as nat),
{
    let ghost ts = edge_models(targets@);
    let mut r: Vec<i64> = Vec::new();
    let mut n: usize = 0;
    while n < seeds.len()
        invariant
            n <= seeds.len(),
            ts == edge_models(targets@),
            r@ == found_34(ts, seeds@, n as nat),
            forall|k: int| 0 <= k < targets.len() ==> edge_target_ok(#[trigger] &targets[k]),
        decreases seeds.len() - n,
    {
        let x = seeds[n];
        let ghost before = r@;
        let mut seed: i64 = 0;
        while seed < 256
            invariant
                0 <= seed <= 256,
                n < seeds.len(),
                x == seeds[n as int],
                ts == edge_models(targets@),
                r@ == before + found_34_for(ts, x, seed as nat),
                forall|k: int| 0 <= k < targets.len() ==> edge_target_ok(#[trigger] &targets[k]),
            decreases 256 - seed,
        {
            let world_seed = x | (seed << 26);
            let ghost inner = r@;
            if fits_34(targets, world_seed) {
                r.push(world_seed);
            }
            proof {
                assert((((seed + 1) as nat) - 1) as i64 == seed);
                assert(r@ =~= before + found_34_for(ts, x, (seed + 1) as nat));
            }
            seed += 1;
        }
        n += 1;
    }
    r
}

/// Whether the rivers of a whole seed fit the first `n` targets: in each,
/// the layer below the last zoom has 90 in 100 of the rivers of the map
/// of the target.
pub open spec fn rivers_fit_upto(
    version: MinecraftVersion,
    ts: Seq<EdgeTargetModel>,
    seed: i64,
    n: nat,
) -> bool
    decreases n,
{
    n == 0 || (rivers_fit_upto(version, ts, seed, (n - 1) as nat) && {
        let t = ts[n - 1];
        tally(
            Tally::Both,
            layer_model(world_layer(version, seed, (version.layers() - 1) as u32), t.map.area()),
            t.map,
        ) >= tally(Tally::First, t.map, t.map) * 90 / 100
    })
}

/// A biome that was seen at a place: the biome, and the coordinates.
pub type Sighting = (i32, i64, i64);

/// The number of the first `n` sightings that a whole seed gives.
pub open spec fn sightings_hit(
    version: MinecraftVersion,
    extras: Seq<Sighting>,
    seed: i64,
    n: nat,
) -> nat
    decreases n,
{
    if n == 0 {
        0
    } else {
        let e = extras[n - 1];
        sightings_hit(version, extras, seed, (n - 1) as nat) + if world_layer(
            version,
            seed,
            version.layers(),
        ).cell(e.1 as int, e.2 as int) == e.0 {
            1nat
        } else {
            0nat
        }
    }
}

/// Whether a whole seed passes: its rivers fit every target, and it gives
/// 90 in 100 of the sightings.
pub open spec fn passes_64(
    version: MinecraftVersion,
    ts: Seq<EdgeTargetModel>,
    extras: Seq<Sighting>,
    seed: i64,
) -> bool {
    rivers_fit_upto(version, ts, seed, ts.len()) && sightings_hit(
        version,
        extras,
        seed,
        extras.len(),
    ) >= extras.len() * 90 / 100
}

/// Whether the sightings lie where the generation can be asked for them.
pub open spec fn sightings_ok(extras: Seq<Sighting>) -> bool {
    forall|k: int|
        0 <= k < extras.len() ==> -(coord_limit() - 8192) < (#[trigger] extras[k]).1 < coord_limit()
            - 8192 && -(coord_limit() - 8192) < extras[k].2 < coord_limit() - 8192
}

/// No more sightings are hit than there are.
pub proof fn lemma_sightings_bound(
    version: MinecraftVersion,
    extras: Seq<Sighting>,
    seed: i64,
    n: nat,
    m: nat,
)
    requires
        n <= m,
    ensures
        sightings_hit(version, extras, seed, n) <= n,
        sightings_hit(version, extras, seed, m) <= sightings_hit(version, extras, seed, n) + (m
            - n),
    decreases m,
{
    if n < m {
        lemma_sightings_bound(version, extras, seed, n, (m - 1) as nat);
    } else if n > 0 {
        lemma_sightings_bound(version, extras, seed, (n - 1) as nat, (n - 1) as nat);
    }
}

/// Whether a whole seed passes.
pub fn fits_64(
    version: MinecraftVersion,
    targets: &Vec<EdgeTarget>,
    extra_biomes: &[Sighting],
    world_seed: i64,
) -> (r: bool)
    requires
        forall|k: int| 0 <= k < targets.len() ==> edge_target_ok(#[trigger] &targets[k]),
        sightings_ok(extra_biomes@),
    ensures
        r == passes_64(version, edge_models(targets@), extra_biomes@, world_seed),
{
    let ghost ts = edge_models(targets@);
    let last_layer = version.num_layers();
    let mut k: usize = 0;
    while k < targets.len()
        invariant
            k <= targets.len(),
            ts == edge_models(targets@),
            last_layer == version.layers(),
            last_layer >= 1,
            rivers_fit_upto(version, ts, world_seed, k as nat),
            forall|k: int| 0 <= k < targets.len() ==> edge_target_ok(#[trigger] &targets[k]),
        decreases targets.len() - k,
    {
        let t = &targets[k];
        assert(edge_target_ok(t));
        assert(ts[k as int] == t@);
        let target_score = count_rivers(&t.map);
        let area = t.map.area();
        proof {
            assert((area.w + 4097) * (area.h + 4097) <= 4161 * 4161) by (nonlinear_arith)
                requires
                    area.w <= 64,
                    area.h <= 64,
            ;
            assert(target_score <= 4096) by (nonlinear_arith)
                requires
                    target_score <= t.map.w() * t.map.h(),
                    t.map.w() <= 64,
                    t.map.h() <= 64,
            ;
        }
        // Compare the rivers among all the biomes.
        let below = generate_up_to_layer(version, area, world_seed, last_layer - 1);
        proof {
            lemma_model_of_layer(
                world_layer(version, world_seed, (last_layer - 1) as u32),
                &below,
                area,
            );
        }
        let score = count_rivers_and(&below, &t.map);
        if score < target_score * 90 / 100 {
            proof {
                lemma_rivers_fit_back(version, ts, world_seed, (k + 1) as nat, ts.len());
            }
            return false;
        }
        k += 1;
    }
    // When most rivers match, try the sightings.
    let len = extra_biomes.len();
    let target: usize = ((len as u128) * 90 / 100) as usize;
    let max_misses: usize = len - target;
    let mut hits: usize = 0;
    let mut misses: usize = 0;
    let mut n: usize = 0;
    while n < len
        invariant
            n <= len,
            len == extra_biomes.len(),
            last_layer == version.layers(),
            target == len * 90 / 100,
            max_misses == len - target,
            hits == sightings_hit(version, extra_biomes@, world_seed, n as nat),
            hits + misses == n,
            misses <= max_misses,
            sightings_ok(extra_biomes@),
        decreases len - n,
    {
        let (biome, x, z) = extra_biomes[n];
        let area = Area { x, z, w: 1, h: 1 };
        proof {
            assert(extra_biomes@[n as int] == (biome, x, z));
        }
        assert(cells_fit(4097int, 4097int));
        assert(area_ok(area, depth_limit()));
        let m = generate_up_to_layer(version, area, world_seed, last_layer);
        proof {
            assert(m.cell_at(0, 0) == world_layer(version, world_seed, last_layer).cell(
                area.x + 0,
                area.z + 0,
            ));
        }
        if m.at(0, 0) == biome {
            hits += 1;
        } else {
            misses += 1;
            if misses > max_misses {
                proof {
                    lemma_sightings_bound(
                        version,
                        extra_biomes@,
                        world_seed,
                        (n + 1) as nat,
                        len as nat,
                    );
                }
                return false;
            }
        }
        n += 1;
    }
    hits >= target
}

/// A seed whose rivers miss one of the first targets does not fit more
/// of them.
pub proof fn lemma_rivers_fit_back(
    version: MinecraftVersion,
    ts: Seq<EdgeTargetModel>,
    seed: i64,
    n: nat,
    m: nat,
)
    requires
        n <= m,
        !rivers_fit_upto(version, ts, seed, n),
    ensures
        !rivers_fit_upto(version, ts, seed, m),
    decreases m,
{
    if n < m {
        lemma_rivers_fit_back(version, ts, seed, n, (m - 1) as nat);
    }
}

/// Of the first `n` of the numbers, read as whole seeds, those that pass.
pub open spec fn kept_64(
    version: MinecraftVersion,
    ts: Seq<EdgeTargetModel>,
    extras: Seq<Sighting>,
    seeds: Seq<u64>,
    n: nat,
) -> Seq<i64>
    decreases n,
{
    if n == 0 {
        Seq::empty()
    } else {
        let seed = seeds[n - 1] as i64;
        kept_64(version, ts, extras, seeds, (n - 1) as nat) + if passes_64(
            version,
            ts,
            extras,
            seed,
        ) {
            seq![seed]
        } else {
            Seq::empty()
        }
    }
}

/// The whole seeds that pass, among those that the generator of the game
/// can give out and that continue a seed of 34 bits with one of the first
/// `n` values of the next 14 bits.
pub open spec fn found_64_for(
    version: MinecraftVersion,
    ts: Seq<EdgeTargetModel>,
    extras: Seq<Sighting>,
    x: i64,
    n: nat,
) -> Seq<i64>
    decreases n,
{
    if n == 0 {
        Seq::empty()
    } else {
        let low = (x | (((n - 1) as i64) << 34)) as u64;
        let whole = extend_upto(low & 0xFFFF_FFFF_FFFF, 0x10000);
        found_64_for(version, ts, extras, x, (n - 1) as nat) + kept_64(
            version,
            ts,
            extras,
            whole,
            whole.len(),
        )
    }
}

/// The whole seeds that pass, among those that continue one of the first
/// `n` of the seeds of 34 bits.
pub open spec fn found_64(
    version: MinecraftVersion,
    ts: Seq<EdgeTargetModel>,
    extras: Seq<Sighting>,
    seeds: Seq<i64>,
    n: nat,
) -> Seq<i64>
    decreases n,
{
    if n == 0 {
        Seq::empty()
    } else {
        found_64(version, ts, extras, seeds, (n - 1) as nat) + found_64_for(
            version,
            ts,
            extras,
            seeds[n - 1],
            0x4000,
        )
    }
}

/// The search for whole seeds, for given targets and seeds of 34 bits:
/// the next 14 bits are tried, the last 16 are those that the generator of
/// the game can give out, and the whole generation decides.
pub fn search_64(
    version: MinecraftVersion,
    targets: &Vec<EdgeTarget>,
    extra_biomes: &[Sighting],
    seeds: &Vec<i64>,
) -> (r: Vec<i64>)
    requires
        forall|k: int| 0 <= k < targets.len() ==> edge_target_ok(#[trigger] &targets[k]),
        sightings_ok(extra_biomes@),
    ensures
        r@ == found_64(
            version,
            edge_models(targets@),
            extra_biomes@,
            seeds@,
            seeds.len() as nat,
        ),
{
    let ghost ts = edge_models(targets@);
    let ghost extras = extra_biomes@;
    let mut r: Vec<i64> = Vec::new();
    let mut n: usize = 0;
    while n < seeds.len()
        invariant
            n <= seeds.len(),
            ts == edge_models(targets@),
            extras == extra_biomes@,
            r@ == found_64(version, ts, extras, seeds@, n as nat),
            forall|k: int| 0 <= k < targets.len() ==> edge_target_ok(#[trigger] &targets[k]),
            sightings_ok(extra_biomes@),
        decreases seeds.len() - n,
    {
        let x = seeds[n];
        let ghost before = r@;
        let mut seed: i64 = 0;
        while seed < 0x4000
            invariant
                0 <= seed <= 0x4000,
                n < seeds.len(),
                x == seeds[n as int],
                ts == edge_models(targets@),
                extras == extra_biomes@,
                r@ == before + found_64_for(version, ts, extras, x, seed as nat),
                forall|k: int| 0 <= k < targets.len() ==> edge_target_ok(#[trigger] &targets[k]),
                sightings_ok(extra_biomes@),
            decreases 0x4000 - seed,
        {
            let low = #[verifier::truncate]
            ((x | (seed << 34)) as u64);
            let whole = JavaRng::extend_long_48(low);
            let ghost inner = r@;
            let mut k: usize = 0;
            while k < whole.len()
                invariant
                    k <= whole.len(),
                    ts == edge_models(targets@),
                    extras == extra_biomes@,
                    r@ == inner + kept_64(version, ts, extras, whole@, k as nat),
                    forall|k: int|
                        0 <= k < targets.len() ==> edge_target_ok(#[trigger] &targets[k]),
                    sightings_ok(extra_biomes@),
                decreases whole.len() - k,
            {
                let world_seed = #[verifier::truncate]
                (whole[k] as i64);
                if fits_64(version, targets, extra_biomes, world_seed) {
                    r.push(world_seed);
                }
                proof {
                    assert(r@ =~= inner + kept_64(version, ts, extras, whole@, (k + 1) as nat));
                }
                k += 1;
            }
            proof {
                assert((((seed + 1) as nat) - 1) as i64 == seed);
                assert(r@ =~= before + found_64_for(version, ts, extras, x, (seed + 1) as nat));
            }
            seed += 1;
        }
        n += 1;
    }
    r
}

/// The place of a number in a rising list: the first index from `i` on at
/// which the list holds a greater number.
pub open spec fn rising_place(s: Seq<i64>, v: i64, i: nat) -> nat
    decreases s.len() - i,
{
    if i >= s.len() || s[i as int] > v {
        i
    } else {
        rising_place(s, v, i + 1)
    }
}

/// The first `n` of the numbers in rising order.
pub open spec fn rising(s: Seq<i64>, n: nat) -> Seq<i64>
    decreases n,
{
    if n == 0 {
        Seq::empty()
    } else {
        let before = rising(s, (n - 1) as nat);
        before.insert(rising_place(before, s[n - 1], 0) as int, s[n - 1])
    }
}

/// Whether no number of a list is less than one before it.
pub open spec fn ascending(s: Seq<i64>) -> bool {
    forall|i: int, j: int| 0 <= i <= j < s.len() ==> s[i] <= s[j]
}

/// The place of a number in an ascending list lies behind the numbers
/// that are not greater and before the numbers that are.
pub proof fn lemma_rising_place(s: Seq<i64>, v: i64, i: nat)
    requires
        ascending(s),
        i <= s.len(),
        forall|k: int| 0 <= k < i ==> s[k] <= v,
    ensures
        i <= rising_place(s, v, i) <= s.len(),
        forall|k: int| 0 <= k < rising_place(s, v, i) ==> s[k] <= v,
        forall|k: int| rising_place(s, v, i) <= k < s.len() ==> s[k] > v,
    decreases s.len() - i,
{
    if i < s.len() && s[i as int] <= v {
        lemma_rising_place(s, v, i + 1);
    }
}

/// The first `n` numbers of a list in rising order are these numbers,
/// each as often as the list has it, and none of them is less than one
/// before it.
pub proof fn lemma_rising(s: Seq<i64>, n: nat)
    requires
        n <= s.len(),
    ensures
        rising(s, n).len() == n,
        ascending(rising(s, n)),
        rising(s, n).to_multiset() == s.take(n as int).to_multiset(),
    decreases n,
{
    if n == 0 {
        assert(s.take(0) =~= rising(s, 0));
    } else {
        let before = rising(s, (n - 1) as nat);
        let v = s[n - 1];
        lemma_rising(s, (n - 1) as nat);
        lemma_rising_place(before, v, 0);
        let p = rising_place(before, v, 0) as int;
        let after = before.insert(p, v);
        assert forall|i: int, j: int| 0 <= i <= j < after.len() implies after[i] <= after[j] by {
            if i < p {
                assert(after[i] == before[i]);
            } else if i > p {
                assert(after[i] == before[i - 1]);
            }
            if j < p {
                assert(after[j] == before[j]);
            } else if j > p {
                assert(after[j] == before[j - 1]);
            }
        }
        to_multiset_insert(before, p, v);
        assert(s.take(n as int) =~= s.take(n - 1).push(v));
        to_multiset_build(s.take(n - 1), v);
    }
}

/// The numbers in rising order: the same numbers, each as often, and none
/// less than one before it.
pub fn sort_rising(s: &Vec<i64>) -> (r: Vec<i64>)
    ensures
        r@ == rising(s@, s.len() as nat),
        ascending(r@),
        r@.to_multiset() == s@.to_multiset(),
{
    proof {
        lemma_rising(s@, s.len() as nat);
        assert(s@.take(s.len() as int) =~= s@);
    }
    let mut r: Vec<i64> = Vec::new();
    let mut n: usize = 0;
    while n < s.len()
        invariant
            n <= s.len(),
            r@ == rising(s@, n as nat),
        decreases s.len() - n,
    {
        let v = s[n];
        let mut i: usize = 0;
        while i < r.len() && r[i] <= v
            invariant
                i <= r.len(),
                rising_place(r@, v, 0) == rising_place(r@, v, i as nat),
            decreases r.len() - i,
        {
            i += 1;
        }
        r.insert(i, v);
        n += 1;
    }
    r
}

/// The whole seeds that can have made the rivers at the points and 90 in
/// 100 of the sightings, among the seeds that the range names, in the
/// order in which the search comes to them.
pub open spec fn unsorted_64(
    points: Seq<Point>,
    extras: Seq<Sighting>,
    version: MinecraftVersion,
    lo: u32,
    hi: u32,
) -> Seq<i64> {
    let ts = targets_34(points);
    let c26 = candidates_26(points, lo, hi);
    let c34 = found_34(ts, c26, c26.len());
    found_64(version, ts, extras, c34, c34.len())
}

/// The whole seeds that can have made the rivers at the points and 90 in
/// 100 of the sightings, among the seeds that the range names, in rising
/// order.
pub open spec fn candidates_64(
    points: Seq<Point>,
    extras: Seq<Sighting>,
    version: MinecraftVersion,
    lo: u32,
    hi: u32,
) -> Seq<i64> {
    let c64 = unsorted_64(points, extras, version, lo, hi);
    rising(c64, c64.len())
}

/// The whole seeds that can have made the rivers at the points and the
/// sightings, among the seeds that the range names. The range is one of
/// indices into the list of the 2^24 seeds of 25 bits that are smaller
/// than their twins: each stands for four seeds of 26 bits.
pub fn river_seed_finder_range(
    river_coords_voronoi: &[Point],
    extra_biomes: &[Sighting],
    version: MinecraftVersion,
    range_lo: u32,
    range_hi: u32,
) -> (r: Vec<i64>)
    requires
        points_ok(river_coords_voronoi@),
        sightings_ok(extra_biomes@),
    ensures
        r@ == candidates_64(river_coords_voronoi@, extra_biomes@, version, range_lo, range_hi),
        ascending(r@),
        r@.to_multiset() == unsorted_64(
            river_coords_voronoi@,
            extra_biomes@,
            version,
            range_lo,
            range_hi,
        ).to_multiset(),
{
    // For the search on 34 bits only the edges of the rivers are compared.
    let targets = make_targets_34(river_coords_voronoi);
    let candidates_26 = river_seed_finder_26_range(river_coords_voronoi, range_lo, range_hi);
    // The last zoom decides on the next 8 bits.
    let candidates_34 = search_34(&targets, &candidates_26);
    // Rivers depend on all 64 bits, but the seed is a number that the
    // generator of the game gave out: 48 bits decide on the others.
    let candidates_64 = search_64(version, &targets, extra_biomes, &candidates_34);
    sort_rising(&candidates_64)
}

/// The whole seeds that can have made the rivers at the points and the
/// sightings.
pub fn river_seed_finder(
    river_coords_voronoi: &[Point],
    extra_biomes: &[Sighting],
    version: MinecraftVersion,
) -> (r: Vec<i64>)
    requires
        points_ok(river_coords_voronoi@),
        sightings_ok(extra_biomes@),
    ensures
        r@ == candidates_64(river_coords_voronoi@, extra_biomes@, version, 0, 0x100_0000),
        ascending(r@),
        r@.to_multiset() == unsorted_64(
            river_coords_voronoi@,
            extra_biomes@,
            version,
            0,
            0x100_0000,
        ).to_multiset(),
{
    river_seed_finder_range(river_coords_voronoi, extra_biomes, version, 0, 0x100_0000)
}

} // verus!
