//! The loops that make the map of a layer from the map, or the two maps, of
//! the layers below it.

use vstd::prelude::*;
use crate::biome_layers::cells::{
    add_bamboo_cell, add_bamboo_value, add_island_cell, add_island_value,
    add_mushroom_island_cell, add_mushroom_island_value, add_snow_cell, add_snow_value,
    biome_cell, biome_edge_cell, biome_edge_value, biome_value, cool_warm_cell, cool_warm_value,
    deep_ocean_cell, deep_ocean_value, heat_ice_cell, heat_ice_value, hills_cell, hills_value,
    is_oceanic, island_cell, island_value, ocean_mix_value, oceanic, pretty_biome_map_hills,
    pretty_hills, rare_biome_cell, rare_biome_value, reduce_id, reduced,
    remove_too_much_ocean_cell, remove_too_much_ocean_value, river_all_cell, river_all_value,
    river_cell, river_init_cell, river_init_value, river_mix_cell, river_mix_value, river_value,
    shore_cell, shore_value, smooth_cell, smooth_value, special_cell, special_value, zoom_block,
    zoom_block_values, Stencil, ZoomMode,
};
use crate::biome_layers::grid::{cells_fit, lemma_cells_fit_sides, lemma_cells_fit_smaller};
use crate::biome_layers::{coord_limit, Area, BiomeMap};
use crate::mc_rng::McRng;

verus! {

/// The layers that make a cell from the cell below it and its eight
/// neighbours.
#[derive(Copy, Clone, Debug, PartialEq, Eq, Structural)]
pub enum StencilKind {
    AddIsland,
    RemoveTooMuchOcean,
    AddSnow,
    CoolWarm,
    HeatIce,
    AddMushroomIsland,
    DeepOcean,
    BiomeEdge,
    RareBiome,
    Shore,
    Smooth,
    River,
    RiverAll,
}

/// The layers that make a cell from the one cell below it.
#[derive(Copy, Clone, Debug, PartialEq, Eq, Structural)]
pub enum PointKind {
    Special,
    Biome,
    RiverInit,
    AddBamboo,
    ReduceId,
    PrettyHills,
}

/// The value that a layer of the kind puts at `(x, z)`, from the cells
/// around `(x, z)` in the layer below.
pub open spec fn stencil_value(kind: StencilKind, ws: i64, x: i64, z: i64, s: Stencil) -> i32 {
    match kind {
        StencilKind::AddIsland => add_island_value(ws, x, z, s),
        StencilKind::RemoveTooMuchOcean => remove_too_much_ocean_value(ws, x, z, s),
        StencilKind::AddSnow => add_snow_value(ws, x, z, s),
        StencilKind::CoolWarm => cool_warm_value(s),
        StencilKind::HeatIce => heat_ice_value(s),
        StencilKind::AddMushroomIsland => add_mushroom_island_value(ws, x, z, s),
        StencilKind::DeepOcean => deep_ocean_value(s),
        StencilKind::BiomeEdge => biome_edge_value(s),
        StencilKind::RareBiome => rare_biome_value(ws, x, z, s),
        StencilKind::Shore => shore_value(s),
        StencilKind::Smooth => smooth_value(ws, x, z, s),
        StencilKind::River => river_value(s),
        StencilKind::RiverAll => river_all_value(s),
    }
}

/// The value that a layer of the kind puts at `(x, z)`, from the value `v`
/// at `(x, z)` in the layer below.
pub open spec fn point_value(kind: PointKind, ws: i64, x: i64, z: i64, v: i32) -> i32 {
    match kind {
        PointKind::Special => special_value(ws, x, z, v),
        PointKind::Biome => biome_value(ws, x, z, v),
        PointKind::RiverInit => river_init_value(ws, x, z, v),
        PointKind::AddBamboo => add_bamboo_value(ws, x, z, v),
        PointKind::ReduceId => reduced(v),
        PointKind::PrettyHills => pretty_hills(v),
    }
}

pub fn stencil_cell(kind: StencilKind, r: &mut McRng, x: i64, z: i64, s: &Stencil) -> (v: i32)
    ensures
        v == stencil_value(kind, old(r).world(), x, z, *s),
        final(r).world() == old(r).world(),
{
    match kind {
        StencilKind::AddIsland => add_island_cell(r, x, z, s),
        StencilKind::RemoveTooMuchOcean => remove_too_much_ocean_cell(r, x, z, s),
        StencilKind::AddSnow => add_snow_cell(r, x, z, s),
        StencilKind::CoolWarm => cool_warm_cell(s),
        StencilKind::HeatIce => heat_ice_cell(s),
        StencilKind::AddMushroomIsland => add_mushroom_island_cell(r, x, z, s),
        StencilKind::DeepOcean => deep_ocean_cell(s),
        StencilKind::BiomeEdge => biome_edge_cell(s),
        StencilKind::RareBiome => rare_biome_cell(r, x, z, s),
        StencilKind::Shore => shore_cell(s),
        StencilKind::Smooth => smooth_cell(r, x, z, s),
        StencilKind::River => river_cell(s),
        StencilKind::RiverAll => river_all_cell(s),
    }
}

pub fn point_cell(kind: PointKind, r: &mut McRng, x: i64, z: i64, v: i32) -> (out: i32)
    ensures
        out == point_value(kind, old(r).world(), x, z, v),
        final(r).world() == old(r).world(),
{
    match kind {
        PointKind::Special => special_cell(r, x, z, v),
        PointKind::Biome => biome_cell(r, x, z, v),
        PointKind::RiverInit => river_init_cell(r, x, z, v),
        PointKind::AddBamboo => add_bamboo_cell(r, x, z, v),
        PointKind::ReduceId => reduce_id(v),
        PointKind::PrettyHills => pretty_biome_map_hills(v),
    }
}

/// The nine cells of a map whose indices begin at `(i, j)`.
pub open spec fn stencil_at(p: &BiomeMap, i: int, j: int) -> Stencil {
    Stencil {
        v00: p.cell_at(i, j),
        v10: p.cell_at(i + 1, j),
        v20: p.cell_at(i + 2, j),
        v01: p.cell_at(i, j + 1),
        v11: p.cell_at(i + 1, j + 1),
        v21: p.cell_at(i + 2, j + 1),
        v02: p.cell_at(i, j + 2),
        v12: p.cell_at(i + 1, j + 2),
        v22: p.cell_at(i + 2, j + 2),
    }
}

pub fn read_stencil(p: &BiomeMap, i: usize, j: usize) -> (s: Stencil)
    requires
        p.wf(),
        i + 2 < p.w(),
        j + 2 < p.h(),
    ensures
        s == stencil_at(p, i as int, j as int),
{
    proof {
        lemma_cells_fit_sides(p.w() as int, p.h() as int);
    }
    Stencil {
        v00: p.at(i, j),
        v10: p.at(i + 1, j),
        v20: p.at(i + 2, j),
        v01: p.at(i, j + 1),
        v11: p.at(i + 1, j + 1),
        v21: p.at(i + 2, j + 1),
        v02: p.at(i, j + 2),
        v12: p.at(i + 1, j + 2),
        v22: p.at(i + 2, j + 2),
    }
}

/// Whether every cell of `m` before `(i, j)`, columns first, holds the
/// value that `f` gives for its index.
pub open spec fn filled_to(m: &BiomeMap, i: int, j: int, f: spec_fn(int, int) -> i32) -> bool {
    forall|a: int, b: int|
        0 <= b < m.h() && ((0 <= a < i) || (a == i && b < j)) ==> #[trigger] m.cell_at(a, b) == f(
            a,
            b,
        )
}

/// The map of a layer that looks at the nine cells around each cell: one
/// cell smaller on every side than the map below.
pub fn apply_stencil(kind: StencilKind, r: McRng, pmap: &BiomeMap) -> (m: BiomeMap)
    requires
        pmap.wf(),
        pmap.w() >= 2,
        pmap.h() >= 2,
        pmap.within(coord_limit()),
    ensures
        m.wf(),
        m.x == pmap.x + 1,
        m.z == pmap.z + 1,
        m.w() == pmap.w() - 2,
        m.h() == pmap.h() - 2,
        forall|i: int, j: int|
            0 <= i < m.w() && 0 <= j < m.h() ==> #[trigger] m.cell_at(i, j) == stencil_value(
                kind,
                r.world(),
                (m.x + i) as i64,
                (m.z + j) as i64,
                stencil_at(pmap, i, j),
            ),
{
    let (p_w, p_h) = pmap.dim();
    let area = Area { x: pmap.x + 1, z: pmap.z + 1, w: p_w as u64 - 2, h: p_h as u64 - 2 };
    proof {
        lemma_cells_fit_smaller(
            area.w as int,
            area.h as int,
            pmap.w() as int,
            pmap.h() as int,
        );
    }
    let mut m = BiomeMap::new(area);
    let mut r = r;
    let ghost ws = r.world();
    let ghost f = |a: int, b: int|
        stencil_value(kind, ws, (area.x + a) as i64, (area.z + b) as i64, stencil_at(pmap, a, b));
    let w = area.w as usize;
    let h = area.h as usize;
    let mut i: usize = 0;
    while i < w
        invariant
            i <= w,
            w == m.w(),
            h == m.h(),
            w + 2 == pmap.w(),
            h + 2 == pmap.h(),
            m.x == area.x,
            m.z == area.z,
            m.x == pmap.x + 1,
            m.z == pmap.z + 1,
            m.wf(),
            pmap.wf(),
            pmap.within(coord_limit()),
            r.world() == ws,
            f == (|a: int, b: int|
                stencil_value(
                    kind,
                    ws,
                    (area.x + a) as i64,
                    (area.z + b) as i64,
                    stencil_at(pmap, a, b),
                )),
            filled_to(&m, i as int, 0, f),
        decreases w - i,
    {
        let mut j: usize = 0;
        while j < h
            invariant
                i < w,
                j <= h,
                w == m.w(),
                h == m.h(),
                w + 2 == pmap.w(),
                h + 2 == pmap.h(),
                m.x == area.x,
                m.z == area.z,
                m.x == pmap.x + 1,
                m.z == pmap.z + 1,
                m.wf(),
                pmap.wf(),
                pmap.within(coord_limit()),
                r.world() == ws,
                f == (|a: int, b: int|
                    stencil_value(
                        kind,
                        ws,
                        (area.x + a) as i64,
                        (area.z + b) as i64,
                        stencil_at(pmap, a, b),
                    )),
                filled_to(&m, i as int, j as int, f),
            decreases h - j,
        {
            let s = read_stencil(pmap, i, j);
            let v = stencil_cell(kind, &mut r, area.x + i as i64, area.z + j as i64, &s);
            m.put(i, j, v);
            j += 1;
        }
        i += 1;
    }
    m
}

/// The map of a layer that makes every cell from the one cell below it: of
/// the same area as the map below.
pub fn apply_pointwise(kind: PointKind, r: McRng, pmap: &BiomeMap) -> (m: BiomeMap)
    requires
        pmap.wf(),
        pmap.within(coord_limit()),
    ensures
        m.wf(),
        m.x == pmap.x,
        m.z == pmap.z,
        m.w() == pmap.w(),
        m.h() == pmap.h(),
        forall|i: int, j: int|
            0 <= i < m.w() && 0 <= j < m.h() ==> #[trigger] m.cell_at(i, j) == point_value(
                kind,
                r.world(),
                (m.x + i) as i64,
                (m.z + j) as i64,
                pmap.cell_at(i, j),
            ),
{
    let area = pmap.area();
    proof {
        lemma_cells_fit_sides(pmap.w() as int, pmap.h() as int);
    }
    let mut m = BiomeMap::new(area);
    let mut r = r;
    let ghost ws = r.world();
    let ghost f = |a: int, b: int|
        point_value(kind, ws, (area.x + a) as i64, (area.z + b) as i64, pmap.cell_at(a, b));
    let w = area.w as usize;
    let h = area.h as usize;
    let mut i: usize = 0;
    while i < w
        invariant
            i <= w,
            w == m.w(),
            h == m.h(),
            w == pmap.w(),
            h == pmap.h(),
            m.x == area.x,
            m.z == area.z,
            m.x == pmap.x,
            m.z == pmap.z,
            m.wf(),
            pmap.within(coord_limit()),
            r.world() == ws,
            f == (|a: int, b: int|
                point_value(
                    kind,
                    ws,
                    (area.x + a) as i64,
                    (area.z + b) as i64,
                    pmap.cell_at(a, b),
                )),
            filled_to(&m, i as int, 0, f),
        decreases w - i,
    {
        let mut j: usize = 0;
        while j < h
            invariant
                i < w,
                j <= h,
                w == m.w(),
                h == m.h(),
                w == pmap.w(),
                h == pmap.h(),
                m.x == area.x,
                m.z == area.z,
                m.x == pmap.x,
                m.z == pmap.z,
                m.wf(),
                pmap.within(coord_limit()),
                r.world() == ws,
                f == (|a: int, b: int|
                    point_value(
                        kind,
                        ws,
                        (area.x + a) as i64,
                        (area.z + b) as i64,
                        pmap.cell_at(a, b),
                    )),
                filled_to(&m, i as int, j as int, f),
            decreases h - j,
        {
            let v = point_cell(kind, &mut r, area.x + i as i64, area.z + j as i64, pmap.at(i, j));
            m.put(i, j, v);
            j += 1;
        }
        i += 1;
    }
    m
}

/// The map of the island layer over an area.
pub fn island_map(r: McRng, area: Area) -> (m: BiomeMap)
    requires
        cells_fit(area.w as int, area.h as int),
        -coord_limit() <= area.x,
        area.x + area.w <= coord_limit(),
        -coord_limit() <= area.z,
        area.z + area.h <= coord_limit(),
    ensures
        m.wf(),
        m.x == area.x,
        m.z == area.z,
        m.w() == area.w,
        m.h() == area.h,
        forall|i: int, j: int|
            0 <= i < m.w() && 0 <= j < m.h() ==> #[trigger] m.cell_at(i, j) == island_value(
                r.world(),
                (m.x + i) as i64,
                (m.z + j) as i64,
            ),
{
    proof {
        lemma_cells_fit_sides(area.w as int, area.h as int);
    }
    let mut m = BiomeMap::new(area);
    let mut r = r;
    let ghost ws = r.world();
    let ghost f = |a: int, b: int| island_value(ws, (area.x + a) as i64, (area.z + b) as i64);
    let w = area.w as usize;
    let h = area.h as usize;
    let mut i: usize = 0;
    while i < w
        invariant
            i <= w,
            w == m.w(),
            h == m.h(),
            w == area.w,
            h == area.h,
            m.x == area.x,
            m.z == area.z,
            m.wf(),
            -coord_limit() <= area.x,
            area.x + area.w <= coord_limit(),
            -coord_limit() <= area.z,
            area.z + area.h <= coord_limit(),
            r.world() == ws,
            f == (|a: int, b: int| island_value(ws, (area.x + a) as i64, (area.z + b) as i64)),
            filled_to(&m, i as int, 0, f),
        decreases w - i,
    {
        let mut j: usize = 0;
        while j < h
            invariant
                i < w,
                j <= h,
                w == m.w(),
                h == m.h(),
                w == area.w,
                h == area.h,
                m.x == area.x,
                m.z == area.z,
                m.wf(),
                -coord_limit() <= area.x,
                area.x + area.w <= coord_limit(),
                -coord_limit() <= area.z,
                area.z + area.h <= coord_limit(),
                r.world() == ws,
                f == (|a: int, b: int| island_value(ws, (area.x + a) as i64, (area.z + b) as i64)),
                filled_to(&m, i as int, j as int, f),
            decreases h - j,
        {
            let v = island_cell(&mut r, area.x + i as i64, area.z + j as i64);
            m.put(i, j, v);
            j += 1;
        }
        i += 1;
    }
    m
}

/// The four values of the block that a zoom makes from the cell with the
/// index `(bi, bj)` of the map below and its three neighbours towards
/// larger coordinates.
pub open spec fn zoom_block_at(mode: ZoomMode, ws: i64, p: &BiomeMap, bi: int, bj: int) -> (
    i32,
    i32,
    i32,
    i32,
) {
    zoom_block_values(
        mode,
        ws,
        ((p.x + bi) * 2) as i64,
        ((p.z + bj) * 2) as i64,
        p.cell_at(bi, bj),
        p.cell_at(bi + 1, bj),
        p.cell_at(bi, bj + 1),
        p.cell_at(bi + 1, bj + 1),
    )
}

/// Puts the four values of a block into the cells of the block with the
/// index `(x, z)`.
fn put_block(m: &mut BiomeMap, x: usize, z: usize, v: (i32, i32, i32, i32))
    requires
        2 * x + 1 < old(m).w(),
        2 * z + 1 < old(m).h(),
        old(m).wf(),
    ensures
        final(m).x == old(m).x,
        final(m).z == old(m).z,
        final(m).w() == old(m).w(),
        final(m).h() == old(m).h(),
        final(m).cell_at(2 * x, 2 * z) == v.0,
        final(m).cell_at(2 * x, 2 * z + 1) == v.1,
        final(m).cell_at(2 * x + 1, 2 * z) == v.2,
        final(m).cell_at(2 * x + 1, 2 * z + 1) == v.3,
        forall|a: int, b: int|
            0 <= a && 0 <= b && !(a / 2 == x && b / 2 == z) ==> final(m).cell_at(a, b) == old(
                m,
            ).cell_at(a, b),
{
    proof {
        lemma_cells_fit_sides(m.w() as int, m.h() as int);
    }
    m.put(2 * x, 2 * z, v.0);
    m.put(2 * x, 2 * z + 1, v.1);
    m.put(2 * x + 1, 2 * z, v.2);
    m.put(2 * x + 1, 2 * z + 1, v.3);
}

/// The value that a zoom puts into the cell with the index `(i, j)`: the
/// share of the cell in the block made from the cell `(i / 2, j / 2)` of
/// the map below and its three neighbours towards larger coordinates.
pub open spec fn zoom_value(mode: ZoomMode, ws: i64, p: &BiomeMap, i: int, j: int) -> i32 {
    let v = zoom_block_at(mode, ws, p, i / 2, j / 2);
    if i % 2 == 0 {
        if j % 2 == 0 {
            v.0
        } else {
            v.1
        }
    } else {
        if j % 2 == 0 {
            v.2
        } else {
            v.3
        }
    }
}

/// Whether every cell of `m` in a block before the block `(bi, bj)`,
/// columns of blocks first, holds the value that `f` gives for its index.
pub open spec fn blocks_filled_to(m: &BiomeMap, bi: int, bj: int, f: spec_fn(int, int) -> i32) -> bool {
    forall|a: int, b: int|
        0 <= a < m.w() && 0 <= b < m.h() && ((a / 2 < bi) || (a / 2 == bi && b / 2 < bj))
            ==> #[trigger] m.cell_at(a, b) == f(a, b)
}

/// The map of a zoom: twice as fine as the map below, without the blocks
/// of its last column and row.
pub fn apply_zoom(mode: ZoomMode, r: McRng, pmap: &BiomeMap) -> (m: BiomeMap)
    requires
        pmap.wf(),
        pmap.w() >= 1,
        pmap.h() >= 1,
        pmap.within(coord_limit()),
        cells_fit(2 * (pmap.w() as int), 2 * (pmap.h() as int)),
    ensures
        m.wf(),
        m.x == 2 * pmap.x,
        m.z == 2 * pmap.z,
        m.w() == 2 * (pmap.w() - 1),
        m.h() == 2 * (pmap.h() - 1),
        forall|i: int, j: int|
            0 <= i < m.w() && 0 <= j < m.h() ==> #[trigger] m.cell_at(i, j) == zoom_value(
                mode,
                r.world(),
                pmap,
                i,
                j,
            ),
{
    let (p_w, p_h) = pmap.dim();
    proof {
        lemma_cells_fit_sides(2 * (pmap.w() as int), 2 * (pmap.h() as int));
        lemma_cells_fit_smaller(
            2 * (pmap.w() - 1),
            2 * (pmap.h() - 1),
            2 * (pmap.w() as int),
            2 * (pmap.h() as int),
        );
    }
    let area = Area {
        x: pmap.x * 2,
        z: pmap.z * 2,
        w: ((p_w - 1) * 2) as u64,
        h: ((p_h - 1) * 2) as u64,
    };
    let mut m = BiomeMap::new(area);
    let mut r = r;
    let ghost ws = r.world();
    let ghost f = |a: int, b: int| zoom_value(mode, ws, pmap, a, b);
    let bw = p_w - 1;
    let bh = p_h - 1;
    let mut x: usize = 0;
    while x < bw
        invariant
            x <= bw,
            bw + 1 == pmap.w(),
            bh + 1 == pmap.h(),
            m.w() == 2 * bw,
            m.h() == 2 * bh,
            m.x == 2 * pmap.x,
            m.z == 2 * pmap.z,
            m.wf(),
            pmap.wf(),
            pmap.within(coord_limit()),
            r.world() == ws,
            f == (|a: int, b: int| zoom_value(mode, ws, pmap, a, b)),
            blocks_filled_to(&m, x as int, 0, f),
        decreases bw - x,
    {
        let mut z: usize = 0;
        while z < bh
            invariant
                x < bw,
                z <= bh,
                bw + 1 == pmap.w(),
                bh + 1 == pmap.h(),
                m.w() == 2 * bw,
                m.h() == 2 * bh,
                m.x == 2 * pmap.x,
                m.z == 2 * pmap.z,
                m.wf(),
                pmap.wf(),
                pmap.within(coord_limit()),
                r.world() == ws,
                f == (|a: int, b: int| zoom_value(mode, ws, pmap, a, b)),
                blocks_filled_to(&m, x as int, z as int, f),
            decreases bh - z,
        {
            proof {
                lemma_cells_fit_sides(pmap.w() as int, pmap.h() as int);
            }
            let a = pmap.at(x, z);
            let a1 = pmap.at(x + 1, z);
            let b = pmap.at(x, z + 1);
            let b1 = pmap.at(x + 1, z + 1);
            let chunk_x = (x as i64 + pmap.x) * 2;
            let chunk_z = (z as i64 + pmap.z) * 2;
            let v = zoom_block(mode, &mut r, chunk_x, chunk_z, a, a1, b, b1);
            let ghost before = m;
            put_block(&mut m, x, z, v);
            proof {
                assert(v == zoom_block_at(mode, ws, pmap, x as int, z as int));
                assert forall|a: int, b: int|
                    0 <= a < m.w() && 0 <= b < m.h() && ((a / 2 < x) || (a / 2 == x && b / 2 < z
                        + 1)) implies #[trigger] m.cell_at(a, b) == f(a, b) by {
                    if a / 2 == x && b / 2 == z {
                        assert(f(a, b) == zoom_value(mode, ws, pmap, a, b));
                    } else {
                        assert(before.cell_at(a, b) == f(a, b));
                    }
                }
            }
            z += 1;
        }
        x += 1;
    }
    m
}

/// The map of the hills layer, from the map of biomes and the map of river
/// seeds: one cell smaller on every side than the two.
pub fn apply_hills(r: McRng, pmap1: &BiomeMap, pmap2: &BiomeMap) -> (m: BiomeMap)
    requires
        pmap1.wf(),
        pmap2.wf(),
        pmap1.x == pmap2.x,
        pmap1.z == pmap2.z,
        pmap1.w() == pmap2.w(),
        pmap1.h() == pmap2.h(),
        pmap1.w() >= 2,
        pmap1.h() >= 2,
        pmap1.within(coord_limit()),
    ensures
        m.wf(),
        m.x == pmap1.x + 1,
        m.z == pmap1.z + 1,
        m.w() == pmap1.w() - 2,
        m.h() == pmap1.h() - 2,
        forall|i: int, j: int|
            0 <= i < m.w() && 0 <= j < m.h() ==> #[trigger] m.cell_at(i, j) == hills_value(
                r.world(),
                (m.x + i) as i64,
                (m.z + j) as i64,
                stencil_at(pmap1, i, j),
                pmap2.cell_at(i + 1, j + 1),
            ),
{
    let (p_w, p_h) = pmap1.dim();
    let area = Area { x: pmap1.x + 1, z: pmap1.z + 1, w: p_w as u64 - 2, h: p_h as u64 - 2 };
    proof {
        lemma_cells_fit_smaller(
            area.w as int,
            area.h as int,
            pmap1.w() as int,
            pmap1.h() as int,
        );
        lemma_cells_fit_sides(pmap1.w() as int, pmap1.h() as int);
    }
    let mut m = BiomeMap::new(area);
    let mut r = r;
    let ghost ws = r.world();
    let ghost f = |a: int, b: int|
        hills_value(
            ws,
            (area.x + a) as i64,
            (area.z + b) as i64,
            stencil_at(pmap1, a, b),
            pmap2.cell_at(a + 1, b + 1),
        );
    let w = area.w as usize;
    let h = area.h as usize;
    let mut i: usize = 0;
    while i < w
        invariant
            i <= w,
            w == m.w(),
            h == m.h(),
            w + 2 == pmap1.w(),
            h + 2 == pmap1.h(),
            w + 2 == pmap2.w(),
            h + 2 == pmap2.h(),
            m.x == area.x,
            m.z == area.z,
            m.x == pmap1.x + 1,
            m.z == pmap1.z + 1,
            m.wf(),
            pmap1.wf(),
            pmap1.within(coord_limit()),
            r.world() == ws,
            f == (|a: int, b: int|
                hills_value(
                    ws,
                    (area.x + a) as i64,
                    (area.z + b) as i64,
                    stencil_at(pmap1, a, b),
                    pmap2.cell_at(a + 1, b + 1),
                )),
            filled_to(&m, i as int, 0, f),
        decreases w - i,
    {
        let mut j: usize = 0;
        while j < h
            invariant
                i < w,
                j <= h,
                w == m.w(),
                h == m.h(),
                w + 2 == pmap1.w(),
                h + 2 == pmap1.h(),
                w + 2 == pmap2.w(),
                h + 2 == pmap2.h(),
                m.x == area.x,
                m.z == area.z,
                m.x == pmap1.x + 1,
                m.z == pmap1.z + 1,
                m.wf(),
                pmap1.wf(),
                pmap1.within(coord_limit()),
                r.world() == ws,
                f == (|a: int, b: int|
                    hills_value(
                        ws,
                        (area.x + a) as i64,
                        (area.z + b) as i64,
                        stencil_at(pmap1, a, b),
                        pmap2.cell_at(a + 1, b + 1),
                    )),
                filled_to(&m, i as int, j as int, f),
            decreases h - j,
        {
            let s = read_stencil(pmap1, i, j);
            let b11 = pmap2.at(i + 1, j + 1);
            let v = hills_cell(&mut r, area.x + i as i64, area.z + j as i64, &s, b11);
            m.put(i, j, v);
            j += 1;
        }
        i += 1;
    }
    m
}

/// The map of the river mix, from the map of biomes and the map of rivers:
/// of the same area as the two.
pub fn apply_river_mix(pmap1: &BiomeMap, pmap2: &BiomeMap) -> (m: BiomeMap)
    requires
        pmap1.wf(),
        pmap1.x == pmap2.x,
        pmap1.z == pmap2.z,
        pmap1.w() == pmap2.w(),
        pmap1.h() == pmap2.h(),
    ensures
        m.wf(),
        m.x == pmap1.x,
        m.z == pmap1.z,
        m.w() == pmap1.w(),
        m.h() == pmap1.h(),
        forall|i: int, j: int|
            0 <= i < m.w() && 0 <= j < m.h() ==> #[trigger] m.cell_at(i, j) == river_mix_value(
                pmap1.cell_at(i, j),
                pmap2.cell_at(i, j),
            ),
{
    let area = pmap1.area();
    proof {
        lemma_cells_fit_sides(pmap1.w() as int, pmap1.h() as int);
    }
    let mut m = BiomeMap::new(area);
    let ghost f = |a: int, b: int| river_mix_value(pmap1.cell_at(a, b), pmap2.cell_at(a, b));
    let w = area.w as usize;
    let h = area.h as usize;
    let mut i: usize = 0;
    while i < w
        invariant
            i <= w,
            w == m.w(),
            h == m.h(),
            w == pmap1.w(),
            h == pmap1.h(),
            w == pmap2.w(),
            h == pmap2.h(),
            m.x == pmap1.x,
            m.z == pmap1.z,
            m.wf(),
            f == (|a: int, b: int| river_mix_value(pmap1.cell_at(a, b), pmap2.cell_at(a, b))),
            filled_to(&m, i as int, 0, f),
        decreases w - i,
    {
        let mut j: usize = 0;
        while j < h
            invariant
                i < w,
                j <= h,
                w == m.w(),
                h == m.h(),
                w == pmap1.w(),
                h == pmap1.h(),
                w == pmap2.w(),
                h == pmap2.h(),
                m.x == pmap1.x,
                m.z == pmap1.z,
                m.wf(),
                f == (|a: int, b: int| river_mix_value(pmap1.cell_at(a, b), pmap2.cell_at(a, b))),
                filled_to(&m, i as int, j as int, f),
            decreases h - j,
        {
            let v = river_mix_cell(pmap1.at(i, j), pmap2.at(i, j));
            m.put(i, j, v);
            j += 1;
        }
        i += 1;
    }
    m
}

/// Whether one of five values is no ocean.
pub open spec fn land_among(a0: i32, a1: i32, a2: i32, a3: i32, a4: i32) -> bool {
    !oceanic(a0) || !oceanic(a1) || !oceanic(a2) || !oceanic(a3) || !oceanic(a4)
}

/// Whether the row `j` of the map holds land at one of the five columns
/// from `i`, four cells apart.
#[verifier::opaque]
pub open spec fn land_in_row(p: &BiomeMap, i: int, j: int) -> bool {
    land_among(
        p.cell_at(i, j),
        p.cell_at(i + 4, j),
        p.cell_at(i + 8, j),
        p.cell_at(i + 12, j),
        p.cell_at(i + 16, j),
    )
}

/// Whether the map holds land at one of the 25 cells from `(i, j)`, four
/// cells apart along each axis.
pub open spec fn land_near(p: &BiomeMap, i: int, j: int) -> bool {
    land_in_row(p, i, j) || land_in_row(p, i, j + 4) || land_in_row(p, i, j + 8) || land_in_row(
        p,
        i,
        j + 12,
    ) || land_in_row(p, i, j + 16)
}

/// Whether the map holds land at one of the 25 cells from `(i, j)`, four
/// cells apart along each axis.
pub fn has_land_near(p: &BiomeMap, i: usize, j: usize) -> (r: bool)
    requires
        p.wf(),
        i + 16 < p.w(),
        j + 16 < p.h(),
    ensures
        r == land_near(p, i as int, j as int),
{
    proof {
        lemma_cells_fit_sides(p.w() as int, p.h() as int);
    }
    let mut b: usize = 0;
    let mut found = false;
    while b < 5
        invariant
            b <= 5,
            p.wf(),
            i + 16 < p.w(),
            j + 16 < p.h(),
            found == ((b > 0 && land_in_row(p, i as int, j as int)) || (b > 1 && land_in_row(
                p,
                i as int,
                j + 4,
            )) || (b > 2 && land_in_row(p, i as int, j + 8)) || (b > 3 && land_in_row(
                p,
                i as int,
                j + 12,
            )) || (b > 4 && land_in_row(p, i as int, j + 16))),
        decreases 5 - b,
    {
        proof {
            lemma_cells_fit_sides(p.w() as int, p.h() as int);
            reveal(land_in_row);
        }
        let jj = j + 4 * b;
        let row = !is_oceanic(p.at(i, jj)) || !is_oceanic(p.at(i + 4, jj)) || !is_oceanic(
            p.at(i + 8, jj),
        ) || !is_oceanic(p.at(i + 12, jj)) || !is_oceanic(p.at(i + 16, jj));
        found = found || row;
        b += 1;
    }
    found
}

/// The value of the ocean mix at the cell with the index `(i, j)` of the
/// map of ocean temperatures.
pub open spec fn ocean_mix_at(pmap1: &BiomeMap, pmap2: &BiomeMap, i: int, j: int) -> i32 {
    ocean_mix_value(pmap1.cell_at(i + 8, j + 8), pmap2.cell_at(i, j), land_near(pmap1, i, j))
}

/// The map of the ocean mix, from the map of biomes, which reaches 8 cells
/// further on every side, and the map of ocean temperatures: of the area
/// of the second.
pub fn apply_ocean_mix(pmap1: &BiomeMap, pmap2: &BiomeMap) -> (m: BiomeMap)
    requires
        pmap1.wf(),
        pmap2.wf(),
        pmap1.x == pmap2.x - 8,
        pmap1.z == pmap2.z - 8,
        pmap1.w() == pmap2.w() + 17,
        pmap1.h() == pmap2.h() + 17,
    ensures
        m.wf(),
        m.x == pmap2.x,
        m.z == pmap2.z,
        m.w() == pmap2.w(),
        m.h() == pmap2.h(),
        forall|i: int, j: int|
            0 <= i < m.w() && 0 <= j < m.h() ==> #[trigger] m.cell_at(i, j) == ocean_mix_at(
                pmap1,
                pmap2,
                i,
                j,
            ),
{
    let area = pmap2.area();
    proof {
        lemma_cells_fit_sides(pmap2.w() as int, pmap2.h() as int);
        lemma_cells_fit_sides(pmap1.w() as int, pmap1.h() as int);
    }
    let mut m = BiomeMap::new(area);
    let ghost f = |a: int, b: int| ocean_mix_at(pmap1, pmap2, a, b);
    let w = area.w as usize;
    let h = area.h as usize;
    let mut i: usize = 0;
    while i < w
        invariant
            i <= w,
            w == m.w(),
            h == m.h(),
            w == pmap2.w(),
            h == pmap2.h(),
            w + 17 == pmap1.w(),
            h + 17 == pmap1.h(),
            m.x == pmap2.x,
            m.z == pmap2.z,
            m.wf(),
            pmap1.wf(),
            f == (|a: int, b: int| ocean_mix_at(pmap1, pmap2, a, b)),
            filled_to(&m, i as int, 0, f),
        decreases w - i,
    {
        let mut j: usize = 0;
        while j < h
            invariant
                i < w,
                j <= h,
                w == m.w(),
                h == m.h(),
                w == pmap2.w(),
                h == pmap2.h(),
                w + 17 == pmap1.w(),
                h + 17 == pmap1.h(),
                m.x == pmap2.x,
                m.z == pmap2.z,
                m.wf(),
                pmap1.wf(),
                f == (|a: int, b: int| ocean_mix_at(pmap1, pmap2, a, b)),
                filled_to(&m, i as int, j as int, f),
            decreases h - j,
        {
            proof {
                lemma_cells_fit_sides(pmap1.w() as int, pmap1.h() as int);
            }
            let land_id = pmap1.at(i + 8, j + 8);
            let ocean_id = pmap2.at(i, j);
            let v = if !is_oceanic(land_id) {
                land_id
            } else if (ocean_id == 44 || ocean_id == 10) && has_land_near(pmap1, i, j) {
                // Warm and frozen oceans do not touch land.
                if ocean_id == 44 {
                    45
                } else {
                    46
                }
            } else if land_id == 24 {
                if ocean_id == 45 {
                    48
                } else if ocean_id == 0 {
                    24
                } else if ocean_id == 46 {
                    49
                } else if ocean_id == 10 {
                    50
                } else {
                    ocean_id
                }
            } else {
                ocean_id
            };
            m.put(i, j, v);
            j += 1;
        }
        i += 1;
    }
    m
}

/// The part of a map that lies in the area `a`.
pub fn slice_to_area(m: BiomeMap, a: Area) -> (s: BiomeMap)
    requires
        m.wf(),
        m.x <= a.x,
        a.x + a.w <= m.x + m.w(),
        m.z <= a.z,
        a.z + a.h <= m.z + m.h(),
    ensures
        s.wf(),
        s.x == a.x,
        s.z == a.z,
        s.w() == a.w,
        s.h() == a.h,
        forall|i: int, j: int|
            0 <= i < s.w() && 0 <= j < s.h() ==> #[trigger] s.cell_at(i, j) == m.cell(
                a.x + i,
                a.z + j,
            ),
{
    let mut m = m;
    proof {
        lemma_cells_fit_sides(m.w() as int, m.h() as int);
        lemma_cells_fit_smaller(a.w as int, a.h as int, m.w() as int, m.h() as int);
    }
    let x_diff = (a.x as i128 - m.x as i128) as usize;
    let z_diff = (a.z as i128 - m.z as i128) as usize;
    m.x = a.x;
    m.z = a.z;
    m.a.crop(x_diff, x_diff + a.w as usize, z_diff, z_diff + a.h as usize);
    m
}

} // verus!
