//! Which bits of the world seed the maps of the searches depend on. The
//! layers that zoom, find edges and smooth draw among two or four values
//! only, and such a draw takes the bits 24 and 25 of a state whose low 26
//! bits depend on the low 26 bits of the seed. The last zoom draws among
//! 1024 values, from the bits 24 to 33.

use vstd::prelude::*;
use crate::biome_layers::cells::{zoom_block_values, ZoomMode};
use crate::biome_layers::finder::{
    candidate_layer, lemma_missed_of_twins, missed_upto, passes_26, twin_pair, TargetModel,
};
use crate::biome_layers::layers::{around, lemma_cell_unfold, Layer};
use crate::biome_layers::models::{
    half_voronoi_model, layer_model, lemma_same_model, voronoi_model, voronoi_value_of, MapModel,
};
use crate::biome_layers::refine::{fits_34_upto, EdgeTargetModel};
use crate::biome_layers::treasure::fits_treasure;
use crate::biome_layers::voronoi::{voronoi_points, Jitter};
use crate::biome_layers::pipeline::{chained, edge_steps, stepped};
use crate::biome_layers::transforms::StencilKind;
use crate::biome_layers::Area;
use crate::mc_rng::twins::{
    lemma_cell_low_26, lemma_cell_low_34, lemma_drawn_low_26, lemma_drawn_low_34,
    lemma_mix_low_26, lemma_mix_low_34, lemma_world_low_26, lemma_world_low_34, same_low_26,
    same_low_34,
};
use crate::mc_rng::{cell_seed, mix, mixed_base_seed, mixed_world_seed, similar_seed, McRng};

verus! {

/// Whether two layers hold the same value in every cell.
pub open spec fn cells_alike(a: Layer, b: Layer) -> bool {
    forall|x: int, z: int| #[trigger] a.cell(x, z) == b.cell(x, z)
}

/// A zoom makes the same four values of a block for two stored world
/// seeds with the same low 26 bits.
pub proof fn lemma_zoom_block_low_26(
    mode: ZoomMode,
    w1: i64,
    w2: i64,
    cx: i64,
    cz: i64,
    a: i32,
    a1: i32,
    b: i32,
    b1: i32,
)
    requires
        same_low_26(w1, w2),
    ensures
        zoom_block_values(mode, w1, cx, cz, a, a1, b, b1) == zoom_block_values(
            mode,
            w2,
            cx,
            cz,
            a,
            a1,
            b,
            b1,
        ),
{
    let c0 = cell_seed(w1, cx, cz);
    let d0 = cell_seed(w2, cx, cz);
    lemma_cell_low_26(w1, w2, cx, cz);
    lemma_mix_low_26(c0, d0, w1, w2);
    lemma_mix_low_26(mix(c0, w1), mix(d0, w2), w1, w2);
    lemma_drawn_low_26(c0, d0);
    lemma_drawn_low_26(mix(c0, w1), mix(d0, w2));
    lemma_drawn_low_26(mix(mix(c0, w1), w1), mix(mix(d0, w2), w2));
}

/// A zoom over layers with the same cells, for two world seeds with the
/// same low 26 bits, has the same cells.
pub proof fn lemma_zoom_low_26(mode: ZoomMode, base: i64, s1: i64, s2: i64, p1: Layer, p2: Layer)
    requires
        same_low_26(s1, s2),
        cells_alike(p1, p2),
    ensures
        cells_alike(
            Layer::Zoom(mode, McRng::seeded(base, s1), Box::new(p1)),
            Layer::Zoom(mode, McRng::seeded(base, s2), Box::new(p2)),
        ),
{
    let l1 = Layer::Zoom(mode, McRng::seeded(base, s1), Box::new(p1));
    let l2 = Layer::Zoom(mode, McRng::seeded(base, s2), Box::new(p2));
    McRng::lemma_seeded(base, s1);
    McRng::lemma_seeded(base, s2);
    let w1 = mixed_world_seed(mixed_base_seed(base), s1);
    let w2 = mixed_world_seed(mixed_base_seed(base), s2);
    lemma_world_low_26(mixed_base_seed(base), s1, s2);
    assert forall|x: int, z: int| #[trigger] l1.cell(x, z) == l2.cell(x, z) by {
        lemma_cell_unfold(&l1, x, z);
        lemma_cell_unfold(&l2, x, z);
        assert(p1.cell(x / 2, z / 2) == p2.cell(x / 2, z / 2));
        assert(p1.cell(x / 2 + 1, z / 2) == p2.cell(x / 2 + 1, z / 2));
        assert(p1.cell(x / 2, z / 2 + 1) == p2.cell(x / 2, z / 2 + 1));
        assert(p1.cell(x / 2 + 1, z / 2 + 1) == p2.cell(x / 2 + 1, z / 2 + 1));
        lemma_zoom_block_low_26(
            mode,
            w1,
            w2,
            ((x / 2) * 2) as i64,
            ((z / 2) * 2) as i64,
            p1.cell(x / 2, z / 2),
            p1.cell(x / 2 + 1, z / 2),
            p1.cell(x / 2, z / 2 + 1),
            p1.cell(x / 2 + 1, z / 2 + 1),
        );
    }
}

/// Two layers with the same cells have the same cells around every cell.
pub proof fn lemma_around_alike(p1: Layer, p2: Layer, x: int, z: int)
    requires
        cells_alike(p1, p2),
    ensures
        around(&p1, x, z) == around(&p2, x, z),
{
    assert(p1.cell(x - 1, z - 1) == p2.cell(x - 1, z - 1));
    assert(p1.cell(x, z - 1) == p2.cell(x, z - 1));
    assert(p1.cell(x + 1, z - 1) == p2.cell(x + 1, z - 1));
    assert(p1.cell(x - 1, z) == p2.cell(x - 1, z));
    assert(p1.cell(x, z) == p2.cell(x, z));
    assert(p1.cell(x + 1, z) == p2.cell(x + 1, z));
    assert(p1.cell(x - 1, z + 1) == p2.cell(x - 1, z + 1));
    assert(p1.cell(x, z + 1) == p2.cell(x, z + 1));
    assert(p1.cell(x + 1, z + 1) == p2.cell(x + 1, z + 1));
}

/// The layer of the edges and the layer that smooths, over layers with
/// the same cells, for two world seeds with the same low 26 bits, have the
/// same cells.
pub proof fn lemma_edges_low_26(
    kind: StencilKind,
    base: i64,
    s1: i64,
    s2: i64,
    p1: Layer,
    p2: Layer,
)
    requires
        kind == StencilKind::RiverAll || kind == StencilKind::Smooth,
        same_low_26(s1, s2),
        cells_alike(p1, p2),
    ensures
        cells_alike(
            Layer::Stencil(kind, McRng::seeded(base, s1), Box::new(p1)),
            Layer::Stencil(kind, McRng::seeded(base, s2), Box::new(p2)),
        ),
{
    let l1 = Layer::Stencil(kind, McRng::seeded(base, s1), Box::new(p1));
    let l2 = Layer::Stencil(kind, McRng::seeded(base, s2), Box::new(p2));
    McRng::lemma_seeded(base, s1);
    McRng::lemma_seeded(base, s2);
    let w1 = mixed_world_seed(mixed_base_seed(base), s1);
    let w2 = mixed_world_seed(mixed_base_seed(base), s2);
    lemma_world_low_26(mixed_base_seed(base), s1, s2);
    assert forall|x: int, z: int| #[trigger] l1.cell(x, z) == l2.cell(x, z) by {
        lemma_cell_unfold(&l1, x, z);
        lemma_cell_unfold(&l2, x, z);
        lemma_around_alike(p1, p2, x, z);
        lemma_cell_low_26(w1, w2, x as i64, z as i64);
        lemma_drawn_low_26(cell_seed(w1, x as i64, z as i64), cell_seed(w2, x as i64, z as i64));
    }
}

/// The maps that the search on 26 bits compares with its targets depend
/// on the low 26 bits of the world seed only.
pub proof fn lemma_candidate_low_26(s1: i64, s2: i64)
    requires
        same_low_26(s1, s2),
    ensures
        cells_alike(candidate_layer(s1), candidate_layer(s2)),
        forall|a: Area|
            layer_model(candidate_layer(s1), a) == layer_model(candidate_layer(s2), a),
{
    let steps = edge_steps();
    let a0 = Layer::Checkers;
    let a1 = chained(steps, 1, s1, a0);
    let b1 = chained(steps, 1, s2, a0);
    let a2 = chained(steps, 2, s1, a0);
    let b2 = chained(steps, 2, s2, a0);
    let a3 = chained(steps, 3, s1, a0);
    let b3 = chained(steps, 3, s2, a0);
    let a4 = chained(steps, 4, s1, a0);
    let b4 = chained(steps, 4, s2, a0);
    let a5 = chained(steps, 5, s1, a0);
    let b5 = chained(steps, 5, s2, a0);
    let a6 = chained(steps, 6, s1, a0);
    let b6 = chained(steps, 6, s2, a0);
    let a7 = chained(steps, 7, s1, a0);
    let b7 = chained(steps, 7, s2, a0);
    let a8 = chained(steps, 8, s1, a0);
    let b8 = chained(steps, 8, s2, a0);
    assert(chained(steps, 0, s1, a0) == a0 && chained(steps, 0, s2, a0) == a0);
    assert(a1 == stepped(steps[0], s1, a0) && b1 == stepped(steps[0], s2, a0));
    assert(a2 == stepped(steps[1], s1, a1) && b2 == stepped(steps[1], s2, b1));
    assert(a3 == stepped(steps[2], s1, a2) && b3 == stepped(steps[2], s2, b2));
    assert(a4 == stepped(steps[3], s1, a3) && b4 == stepped(steps[3], s2, b3));
    assert(a5 == stepped(steps[4], s1, a4) && b5 == stepped(steps[4], s2, b4));
    assert(a6 == stepped(steps[5], s1, a5) && b6 == stepped(steps[5], s2, b5));
    assert(a7 == stepped(steps[6], s1, a6) && b7 == stepped(steps[6], s2, b6));
    assert(a8 == stepped(steps[7], s1, a7) && b8 == stepped(steps[7], s2, b7));
    lemma_zoom_low_26(ZoomMode::Normal, 1000, s1, s2, a0, a0);
    lemma_zoom_low_26(ZoomMode::Normal, 1001, s1, s2, a1, b1);
    lemma_zoom_low_26(ZoomMode::Normal, 1000, s1, s2, a2, b2);
    lemma_zoom_low_26(ZoomMode::Normal, 1001, s1, s2, a3, b3);
    lemma_zoom_low_26(ZoomMode::Normal, 1002, s1, s2, a4, b4);
    lemma_zoom_low_26(ZoomMode::Normal, 1003, s1, s2, a5, b5);
    lemma_edges_low_26(StencilKind::RiverAll, 1, s1, s2, a6, b6);
    lemma_edges_low_26(StencilKind::Smooth, 1000, s1, s2, a7, b7);
    assert(cells_alike(a8, b8));
    assert forall|a: Area|
        layer_model(candidate_layer(s1), a) == layer_model(candidate_layer(s2), a) by {
        let m1 = layer_model(a8, a);
        let m2 = layer_model(b8, a);
        assert forall|i: int, j: int| 0 <= i < m1.w && 0 <= j < m1.h implies m1.at(i, j) == m2.at(
            i,
            j,
        ) by {
            assert(a8.cell(a.x + i, a.z + j) == b8.cell(a.x + i, a.z + j));
        }
        lemma_same_model(m1, m2);
    }
}

/// Two seeds with the same low 26 bits miss the same targets.
pub proof fn lemma_missed_low_26(ts: Seq<TargetModel>, s1: i64, s2: i64, n: nat)
    requires
        same_low_26(s1, s2),
    ensures
        missed_upto(ts, s1, n) == missed_upto(ts, s2, n),
    decreases n,
{
    lemma_candidate_low_26(s1, s2);
    if n > 0 {
        lemma_missed_low_26(ts, s1, s2, (n - 1) as nat);
    }
}

/// The search on 26 bits has one answer for all the seeds that share
/// their low 26 bits, and for the twin that it lists with a seed: the low
/// 26 bits of the seed that adds up with it to the constant.
pub proof fn lemma_passes_low_26(ts: Seq<TargetModel>, s1: i64, s2: i64)
    requires
        same_low_26(s1, s2),
    ensures
        passes_26(ts, s1) == passes_26(ts, s2),
        passes_26(ts, twin_pair(s1)[1]) == passes_26(ts, s1),
{
    lemma_missed_low_26(ts, s1, s2, ts.len());
    let t = similar_seed(s1);
    let low = t & 0x3FF_FFFF;
    assert(low & 0x3FF_FFFF == t & 0x3FF_FFFF) by (bit_vector)
        requires
            low == t & 0x3FF_FFFF,
    ;
    lemma_missed_low_26(ts, low, t, ts.len());
    lemma_missed_of_twins(ts, s1, ts.len());
}

/// The last zoom places the same four points in a block for two stored
/// world seeds with the same low 34 bits: each coordinate of a point is a
/// draw among 1024.
pub proof fn lemma_voronoi_points_low_34(w1: i64, w2: i64, cx: i64, cz: i64)
    requires
        same_low_34(w1, w2),
    ensures
        voronoi_points(w1, cx, cz) == voronoi_points(w2, cx, cz),
{
    let x4 = (cx + 4) as i64;
    let z4 = (cz + 4) as i64;
    lemma_cell_low_34(w1, w2, cx, cz);
    lemma_cell_low_34(w1, w2, x4, cz);
    lemma_cell_low_34(w1, w2, cx, z4);
    lemma_cell_low_34(w1, w2, x4, z4);
    lemma_mix_low_34(cell_seed(w1, cx, cz), cell_seed(w2, cx, cz), w1, w2);
    lemma_mix_low_34(cell_seed(w1, x4, cz), cell_seed(w2, x4, cz), w1, w2);
    lemma_mix_low_34(cell_seed(w1, cx, z4), cell_seed(w2, cx, z4), w1, w2);
    lemma_mix_low_34(cell_seed(w1, x4, z4), cell_seed(w2, x4, z4), w1, w2);
    lemma_drawn_low_34(cell_seed(w1, cx, cz), cell_seed(w2, cx, cz));
    lemma_drawn_low_34(cell_seed(w1, x4, cz), cell_seed(w2, x4, cz));
    lemma_drawn_low_34(cell_seed(w1, cx, z4), cell_seed(w2, cx, z4));
    lemma_drawn_low_34(cell_seed(w1, x4, z4), cell_seed(w2, x4, z4));
    lemma_drawn_low_34(mix(cell_seed(w1, cx, cz), w1), mix(cell_seed(w2, cx, cz), w2));
    lemma_drawn_low_34(mix(cell_seed(w1, x4, cz), w1), mix(cell_seed(w2, x4, cz), w2));
    lemma_drawn_low_34(mix(cell_seed(w1, cx, z4), w1), mix(cell_seed(w2, cx, z4), w2));
    lemma_drawn_low_34(mix(cell_seed(w1, x4, z4), w1), mix(cell_seed(w2, x4, z4), w2));
}

/// The last zoom, and the last zoom at half its scale, make the same map
/// of a map for two world seeds with the same low 34 bits.
pub proof fn lemma_voronoi_low_34(s1: i64, s2: i64, p: MapModel)
    requires
        same_low_34(s1, s2),
    ensures
        voronoi_model(Jitter::Seeded(McRng::seeded(10, s1)), p) == voronoi_model(
            Jitter::Seeded(McRng::seeded(10, s2)),
            p,
        ),
        half_voronoi_model(McRng::seeded(10, s1), p) == half_voronoi_model(
            McRng::seeded(10, s2),
            p,
        ),
{
    let k1 = Jitter::Seeded(McRng::seeded(10, s1));
    let k2 = Jitter::Seeded(McRng::seeded(10, s2));
    McRng::lemma_seeded(10, s1);
    McRng::lemma_seeded(10, s2);
    let w1 = mixed_world_seed(mixed_base_seed(10), s1);
    let w2 = mixed_world_seed(mixed_base_seed(10), s2);
    lemma_world_low_34(mixed_base_seed(10), s1, s2);
    assert forall|i: int, j: int| voronoi_value_of(k1, p, i, j) == voronoi_value_of(k2, p, i, j) by {
        lemma_voronoi_points_low_34(
            w1,
            w2,
            ((p.x + i / 4) * 4) as i64,
            ((p.z + j / 4) * 4) as i64,
        );
    }
    let m1 = voronoi_model(k1, p);
    let m2 = voronoi_model(k2, p);
    assert forall|i: int, j: int| 0 <= i < m1.w && 0 <= j < m1.h implies m1.at(i, j) == m2.at(
        i,
        j,
    ) by {
        assert(voronoi_value_of(k1, p, i, j) == voronoi_value_of(k2, p, i, j));
    }
    lemma_same_model(m1, m2);
    let h1 = half_voronoi_model(McRng::seeded(10, s1), p);
    let h2 = half_voronoi_model(McRng::seeded(10, s2), p);
    assert forall|i: int, j: int| 0 <= i < h1.w && 0 <= j < h1.h implies h1.at(i, j) == h2.at(
        i,
        j,
    ) by {
        assert(voronoi_value_of(k1, p, 2 * i, 2 * j) == voronoi_value_of(k2, p, 2 * i, 2 * j));
    }
    lemma_same_model(h1, h2);
}

/// The search on 34 bits has one answer for all the seeds that share
/// their low 34 bits.
pub proof fn lemma_fits_low_34(ts: Seq<EdgeTargetModel>, s1: i64, s2: i64, n: nat)
    requires
        same_low_34(s1, s2),
    ensures
        fits_34_upto(ts, s1, n) == fits_34_upto(ts, s2, n),
    decreases n,
{
    if n > 0 {
        lemma_fits_low_34(ts, s1, s2, (n - 1) as nat);
        lemma_voronoi_low_34(s1, s2, ts[n - 1].map);
    }
}

/// The search on 34 bits for a treasure map has one answer for all the
/// seeds that share their low 34 bits.
pub proof fn lemma_fits_treasure_low_34(below: MapModel, borders: MapModel, s1: i64, s2: i64)
    requires
        same_low_34(s1, s2),
    ensures
        fits_treasure(below, borders, s1) == fits_treasure(below, borders, s2),
{
    lemma_voronoi_low_34(s1, s2, below);
}

} // verus!
