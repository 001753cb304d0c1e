//! The layers run backwards: from a map of a layer, a map of the layer
//! below it, as far as it can be told.

use vstd::prelude::*;
use crate::biome_layers::voronoi::Jitter;
use crate::biome_info::biome_id;
use crate::biome_info::UNKNOWN_BIOME_ID;
use crate::biome_layers::cells::ZoomMode;
use crate::biome_layers::grid::{lemma_cells_fit_sides, lemma_cells_fit_smaller};
use crate::biome_layers::transforms::zoom_value;
use crate::biome_layers::models::{
    grid_model, lemma_same_model, voronoi_model, voronoi_value_of, MapModel,
};
use crate::biome_layers::{coord_limit, Area, BiomeMap, SparseMap};
use crate::mc_rng::McRng;

verus! {

/// What a cell of the river mix tells of the biome below it: nothing
/// where a river or the shore of a mushroom island covers it.
pub open spec fn biome_below(v: i32) -> Option<i32> {
    if v == 11 {
        Some(12i32)
    } else if v == 15 || v == 7 {
        None
    } else {
        Some(v)
    }
}

/// What a cell of the river mix tells of the river layer below it: a river
/// where it shows one, nothing elsewhere.
pub open spec fn river_below(v: i32) -> Option<i32> {
    if v == 11 || v == 7 {
        Some(7i32)
    } else {
        None
    }
}

/// The two maps that a map of the river mix came from, as far as they can
/// be told: the biomes and the rivers.
pub fn decompose_map_river_mix(map: &BiomeMap) -> (r: (SparseMap, SparseMap))
    requires
        map.wf(),
    ensures
        r.0.region() == map.region(),
        r.1.region() == map.region(),
        r.0.w() == map.w() && r.0.h() == map.h(),
        r.1.w() == map.w() && r.1.h() == map.h(),
        forall|i: int, j: int|
            0 <= i < map.w() && 0 <= j < map.h() ==> r.0.cell_at(i, j) == biome_below(
                map.cell_at(i, j),
            ) && r.1.cell_at(i, j) == river_below(map.cell_at(i, j)),
{
    let area = map.area();
    let (w, h) = map.dim();
    proof {
        lemma_cells_fit_sides(map.w() as int, map.h() as int);
    }
    let mut parent1 = SparseMap::new(area);
    let mut parent2 = SparseMap::new(area);
    let mut i: usize = 0;
    while i < w
        invariant
            i <= w,
            w == map.w(),
            h == map.h(),
            parent1.region() == map.region(),
            parent2.region() == map.region(),
            parent1.w() == w && parent1.h() == h,
            parent2.w() == w && parent2.h() == h,
            forall|a: int, b: int|
                0 <= b < h && 0 <= a < w ==> #[trigger] parent1.cell_at(a, b) == if a < i {
                    biome_below(map.cell_at(a, b))
                } else {
                    None
                },
            forall|a: int, b: int|
                0 <= b < h && 0 <= a < w ==> #[trigger] parent2.cell_at(a, b) == if a < i {
                    river_below(map.cell_at(a, b))
                } else {
                    None
                },
        decreases w - i,
    {
        let mut j: usize = 0;
        while j < h
            invariant
                i < w,
                j <= h,
                w == map.w(),
                h == map.h(),
                parent1.region() == map.region(),
                parent2.region() == map.region(),
                parent1.w() == w && parent1.h() == h,
                parent2.w() == w && parent2.h() == h,
                forall|a: int, b: int|
                    0 <= b < h && 0 <= a < w ==> #[trigger] parent1.cell_at(a, b) == if a < i || (a
                        == i && b < j) {
                        biome_below(map.cell_at(a, b))
                    } else {
                        None
                    },
                forall|a: int, b: int|
                    0 <= b < h && 0 <= a < w ==> #[trigger] parent2.cell_at(a, b) == if a < i || (a
                        == i && b < j) {
                        river_below(map.cell_at(a, b))
                    } else {
                        None
                    },
            decreases h - j,
        {
            let b = map.at(i, j);
            if b == biome_id::frozenRiver {
                parent1.put(i, j, Some(biome_id::icePlains));
                parent2.put(i, j, Some(biome_id::river));
            } else if b == biome_id::mushroomIslandShore {
                // It may have been a river, or a shore.
            } else if b == biome_id::river {
                parent2.put(i, j, Some(biome_id::river));
            } else {
                parent1.put(i, j, Some(b));
            }
            j += 1;
        }
        i += 1;
    }
    (parent1, parent2)
}

/// The map below a map of the river layer: where there is no river, the
/// cell and its four neighbours were equal, so the map without its border
/// stands for it.
pub fn reverse_map_river(m: &BiomeMap) -> (p: BiomeMap)
    requires
        m.wf(),
        m.w() >= 2,
        m.h() >= 2,
        m.x < i64::MAX,
        m.z < i64::MAX,
    ensures
        p.wf(),
        p.x == m.x + 1,
        p.z == m.z + 1,
        p.w() == m.w() - 2,
        p.h() == m.h() - 2,
        forall|i: int, j: int|
            0 <= i < p.w() && 0 <= j < p.h() ==> #[trigger] p.cell_at(i, j) == m.cell_at(
                i + 1,
                j + 1,
            ),
{
    let (w, h) = m.dim();
    proof {
        lemma_cells_fit_sides(m.w() as int, m.h() as int);
        lemma_cells_fit_smaller(m.w() - 2, m.h() - 2, m.w() as int, m.h() as int);
    }
    let (p_w, p_h) = (w - 2, h - 2);
    let mut pmap = BiomeMap::new(Area { x: m.x + 1, z: m.z + 1, w: p_w as u64, h: p_h as u64 });
    let mut x: usize = 0;
    while x < p_w
        invariant
            x <= p_w,
            p_w + 2 == m.w(),
            p_h + 2 == m.h(),
            pmap.w() == p_w,
            pmap.h() == p_h,
            pmap.x == m.x + 1,
            pmap.z == m.z + 1,
            pmap.wf(),
            m.wf(),
            forall|a: int, b: int|
                0 <= b < p_h && 0 <= a < x ==> #[trigger] pmap.cell_at(a, b) == m.cell_at(
                    a + 1,
                    b + 1,
                ),
        decreases p_w - x,
    {
        let mut z: usize = 0;
        while z < p_h
            invariant
                x < p_w,
                z <= p_h,
                p_w + 2 == m.w(),
                p_h + 2 == m.h(),
                pmap.w() == p_w,
                pmap.h() == p_h,
                pmap.x == m.x + 1,
                pmap.z == m.z + 1,
                pmap.wf(),
                m.wf(),
                forall|a: int, b: int|
                    0 <= b < p_h && ((0 <= a < x) || (a == x && b < z)) ==> #[trigger] pmap.cell_at(
                        a,
                        b,
                    ) == m.cell_at(a + 1, b + 1),
            decreases p_h - z,
        {
            pmap.put(x, z, m.at(x + 1, z + 1));
            z += 1;
        }
        x += 1;
    }
    pmap
}

/// The map of biomes below a map of the river mix. The biomes that the
/// rivers cover are not known: they are shown as 255.
pub fn reverse_map_river_mix(m: &BiomeMap) -> (p: BiomeMap)
    requires
        m.wf(),
    ensures
        p.wf(),
        p.region() == m.region(),
        forall|i: int, j: int|
            0 <= i < m.w() && 0 <= j < m.h() ==> #[trigger] p.cell_at(i, j) == match biome_below(
                m.cell_at(i, j),
            ) {
                Some(v) => v,
                None => 255,
            },
{
    let (p1, _p2) = decompose_map_river_mix(m);
    proof {
        lemma_cells_fit_sides(m.w() as int, m.h() as int);
    }
    p1.unwrap_or(UNKNOWN_BIOME_ID)
}

/// Every other cell of a map along both axes, from the cell with the index
/// `(fx, fz)`, as a map with the given coordinates of its first cell and
/// half the lengths of the map, rounded down.
pub fn thin_out(m: &BiomeMap, fx: usize, fz: usize, x: i64, z: i64) -> (p: BiomeMap)
    requires
        m.wf(),
        fx <= 1,
        fz <= 1,
    ensures
        p.wf(),
        p.x == x,
        p.z == z,
        p.w() == m.w() / 2,
        p.h() == m.h() / 2,
        forall|i: int, j: int|
            0 <= i < p.w() && 0 <= j < p.h() ==> #[trigger] p.cell_at(i, j) == m.cell_at(
                fx + 2 * i,
                fz + 2 * j,
            ),
{
    let (w, h) = m.dim();
    proof {
        lemma_cells_fit_sides(m.w() as int, m.h() as int);
        lemma_cells_fit_smaller(
            m.w() as int / 2,
            m.h() as int / 2,
            m.w() as int,
            m.h() as int,
        );
    }
    let (p_w, p_h) = (w / 2, h / 2);
    let mut pmap = BiomeMap::new(Area { x, z, w: p_w as u64, h: p_h as u64 });
    let mut i: usize = 0;
    while i < p_w
        invariant
            i <= p_w,
            p_w == m.w() / 2,
            p_h == m.h() / 2,
            fx <= 1,
            fz <= 1,
            pmap.w() == p_w,
            pmap.h() == p_h,
            pmap.x == x,
            pmap.z == z,
            pmap.wf(),
            m.wf(),
            forall|a: int, b: int|
                0 <= b < p_h && 0 <= a < i ==> #[trigger] pmap.cell_at(a, b) == m.cell_at(
                    fx + 2 * a,
                    fz + 2 * b,
                ),
        decreases p_w - i,
    {
        let mut j: usize = 0;
        while j < p_h
            invariant
                i < p_w,
                j <= p_h,
                p_w == m.w() / 2,
                p_h == m.h() / 2,
                fx <= 1,
                fz <= 1,
                pmap.w() == p_w,
                pmap.h() == p_h,
                pmap.x == x,
                pmap.z == z,
                pmap.wf(),
                m.wf(),
                forall|a: int, b: int|
                    0 <= b < p_h && ((0 <= a < i) || (a == i && b < j)) ==> #[trigger] pmap.cell_at(
                        a,
                        b,
                    ) == m.cell_at(fx + 2 * a, fz + 2 * b),
            decreases p_h - j,
        {
            proof {
                lemma_cells_fit_sides(m.w() as int, m.h() as int);
            }
            pmap.put(i, j, m.at(fx + 2 * i, fz + 2 * j));
            j += 1;
        }
        i += 1;
    }
    pmap
}

/// The map below a map of a zoom: the cells at even coordinates, which a
/// zoom copies.
pub fn reverse_map_zoom(m: &BiomeMap) -> (p: BiomeMap)
    requires
        m.wf(),
    ensures
        p.wf(),
        p.x == m.x as int / 2,
        p.z == m.z as int / 2,
        p.w() == m.w() / 2,
        p.h() == m.h() / 2,
        forall|i: int, j: int|
            0 <= i < p.w() && 0 <= j < p.h() ==> #[trigger] p.cell_at(i, j) == m.cell_at(
                m.x as int % 2 + 2 * i,
                m.z as int % 2 + 2 * j,
            ),
{
    let fx = McRng::math_floor_mod(m.x, 2) as usize;
    let fz = McRng::math_floor_mod(m.z, 2) as usize;
    thin_out(m, fx, fz, McRng::math_floor_div(m.x, 2), McRng::math_floor_div(m.z, 2))
}

/// The map below a map of the half zoom: like `reverse_map_zoom`, but the
/// cells at odd coordinates are kept.
pub fn reverse_map_half_voronoi(m: &BiomeMap) -> (p: BiomeMap)
    requires
        m.wf(),
    ensures
        p.wf(),
        p.x == m.x as int / 2,
        p.z == m.z as int / 2,
        p.w() == m.w() / 2,
        p.h() == m.h() / 2,
        forall|i: int, j: int|
            0 <= i < p.w() && 0 <= j < p.h() ==> #[trigger] p.cell_at(i, j) == m.cell_at(
                1 - m.x as int % 2 + 2 * i,
                1 - m.z as int % 2 + 2 * j,
            ),
{
    let fx = (1 - McRng::math_floor_mod(m.x, 2)) as usize;
    let fz = (1 - McRng::math_floor_mod(m.z, 2)) as usize;
    thin_out(m, fx, fz, McRng::math_floor_div(m.x, 2), McRng::math_floor_div(m.z, 2))
}

/// The map below a map of the smooth layer, which came from a zoom: every
/// cell takes the value at the even coordinates of its block, which is
/// right for at least 9 cells in 16.
pub fn reverse_map_smooth(m: &BiomeMap) -> (p: BiomeMap)
    requires
        m.wf(),
        m.w() >= 2,
        m.h() >= 2,
        m.x < i64::MAX,
        m.z < i64::MAX,
    ensures
        p.wf(),
        p.x == m.x + 1,
        p.z == m.z + 1,
        p.w() == m.w() - 2,
        p.h() == m.h() - 2,
        forall|i: int, j: int|
            0 <= i < p.w() && 0 <= j < p.h() ==> #[trigger] p.cell_at(i, j) == m.cell_at(
                m.x as int % 2 + i - i % 2,
                m.z as int % 2 + j - j % 2,
            ),
{
    let (w, h) = m.dim();
    proof {
        lemma_cells_fit_sides(m.w() as int, m.h() as int);
        lemma_cells_fit_smaller(m.w() - 2, m.h() - 2, m.w() as int, m.h() as int);
    }
    let (p_w, p_h) = (w - 2, h - 2);
    let mut pmap = BiomeMap::new(Area { x: m.x + 1, z: m.z + 1, w: p_w as u64, h: p_h as u64 });
    let fx = McRng::math_floor_mod(m.x, 2) as usize;
    let fz = McRng::math_floor_mod(m.z, 2) as usize;
    let mut x: usize = 0;
    while x < p_w
        invariant
            x <= p_w,
            p_w + 2 == m.w(),
            p_h + 2 == m.h(),
            fx == m.x as int % 2,
            fz == m.z as int % 2,
            pmap.w() == p_w,
            pmap.h() == p_h,
            pmap.x == m.x + 1,
            pmap.z == m.z + 1,
            pmap.wf(),
            m.wf(),
            forall|a: int, b: int|
                0 <= b < p_h && 0 <= a < x ==> #[trigger] pmap.cell_at(a, b) == m.cell_at(
                    fx + a - a % 2,
                    fz + b - b % 2,
                ),
        decreases p_w - x,
    {
        let mut z: usize = 0;
        while z < p_h
            invariant
                x < p_w,
                z <= p_h,
                p_w + 2 == m.w(),
                p_h + 2 == m.h(),
                fx == m.x as int % 2,
                fz == m.z as int % 2,
                pmap.w() == p_w,
                pmap.h() == p_h,
                pmap.x == m.x + 1,
                pmap.z == m.z + 1,
                pmap.wf(),
                m.wf(),
                forall|a: int, b: int|
                    0 <= b < p_h && ((0 <= a < x) || (a == x && b < z)) ==> #[trigger] pmap.cell_at(
                        a,
                        b,
                    ) == m.cell_at(fx + a - a % 2, fz + b - b % 2),
            decreases p_h - z,
        {
            // Every cell takes the value of the first cell of its block of
            // two by two.
            pmap.put(x, z, m.at(fx + (x - x % 2), fz + (z - z % 2)));
            z += 1;
        }
        x += 1;
    }
    pmap
}

/// The first coordinate from `x` on that is 2 more than a multiple of 4.
pub open spec fn aligned_from(x: int) -> int {
    4 * ((x - 2 + 3) / 4) + 2
}

/// The map below a map of the last zoom, as far as it can be told: none
/// for a map of fewer than 4 cells along an axis.
pub open spec fn reverse_voronoi_model(m: MapModel) -> Option<MapModel> {
    if m.w < 4 || m.h < 4 {
        None
    } else {
        let nx = aligned_from(m.x);
        let nz = aligned_from(m.z);
        Some(
            grid_model(
                (nx - 2) / 4,
                (nz - 2) / 4,
                ((m.x + m.w - nx + 3) / 4) as nat,
                ((m.z + m.h - nz + 3) / 4) as nat,
                |i: int, j: int| m.at(nx - m.x + 4 * i, nz - m.z + 4 * j),
            ),
        )
    }
}

/// The map below a map of the last zoom: the cells whose coordinates are 2
/// more than a multiple of 4, which are right for more than 999 cells in
/// 1000. A map of fewer than 4 cells along an axis gives none.
pub fn reverse_map_voronoi_zoom(m: &BiomeMap) -> (r: Result<BiomeMap, ()>)
    requires
        m.wf(),
        m.within(coord_limit()),
    ensures
        r is Err <==> m.w() < 4 || m.h() < 4,
        match r {
            Ok(p) => reverse_voronoi_model(m@) == Some(p@),
            Err(_) => reverse_voronoi_model(m@) is None,
        },
        match r {
            Ok(p) => {
                &&& p.wf()
                &&& p.x == (aligned_from(m.x as int) - 2) / 4
                &&& p.z == (aligned_from(m.z as int) - 2) / 4
                &&& p.w() == (m.x + m.w() - aligned_from(m.x as int) + 3) / 4
                &&& p.h() == (m.z + m.h() - aligned_from(m.z as int) + 3) / 4
                &&& forall|i: int, j: int|
                    0 <= i < p.w() && 0 <= j < p.h() ==> #[trigger] p.cell_at(i, j) == m.cell(
                        aligned_from(m.x as int) + 4 * i,
                        aligned_from(m.z as int) + 4 * j,
                    )
            },
            Err(_) => true,
        },
{
    let area = m.area();
    if area.w < 4 || area.h < 4 {
        return Err(());
    }
    proof {
        lemma_cells_fit_sides(m.w() as int, m.h() as int);
    }
    // Adjust the map so that its first cell lies at 2 more than a multiple
    // of 4.
    let nx = 4 * McRng::math_floor_div(area.x - 2 + 3, 4) + 2;
    let nz = 4 * McRng::math_floor_div(area.z - 2 + 3, 4) + 2;
    let adj_x = (nx - area.x) as usize;
    let adj_z = (nz - area.z) as usize;
    let w = area.w - adj_x as u64;
    let h = area.h - adj_z as u64;
    let p_x = (nx - 2) / 4;
    let p_z = (nz - 2) / 4;
    let p_w = ((w + 3) / 4) as usize;
    let p_h = ((h + 3) / 4) as usize;
    proof {
        lemma_cells_fit_smaller(p_w as int, p_h as int, m.w() as int, m.h() as int);
    }
    let mut pmap = BiomeMap::new(Area { x: p_x, z: p_z, w: p_w as u64, h: p_h as u64 });
    let mut x: usize = 0;
    while x < p_w
        invariant
            x <= p_w,
            adj_x + 4 * (p_w - 1) < m.w(),
            adj_z + 4 * (p_h - 1) < m.h(),
            p_w >= 1,
            p_h >= 1,
            pmap.w() == p_w,
            pmap.h() == p_h,
            pmap.x == p_x,
            pmap.z == p_z,
            pmap.wf(),
            m.wf(),
            forall|a: int, b: int|
                0 <= b < p_h && 0 <= a < x ==> #[trigger] pmap.cell_at(a, b) == m.cell_at(
                    adj_x + 4 * a,
                    adj_z + 4 * b,
                ),
        decreases p_w - x,
    {
        let mut z: usize = 0;
        while z < p_h
            invariant
                x < p_w,
                z <= p_h,
                adj_x + 4 * (p_w - 1) < m.w(),
                adj_z + 4 * (p_h - 1) < m.h(),
                pmap.w() == p_w,
                pmap.h() == p_h,
                pmap.x == p_x,
                pmap.z == p_z,
                pmap.wf(),
                m.wf(),
                forall|a: int, b: int|
                    0 <= b < p_h && ((0 <= a < x) || (a == x && b < z)) ==> #[trigger] pmap.cell_at(
                        a,
                        b,
                    ) == m.cell_at(adj_x + 4 * a, adj_z + 4 * b),
            decreases p_h - z,
        {
            proof {
                lemma_cells_fit_sides(m.w() as int, m.h() as int);
            }
            pmap.put(x, z, m.at(adj_x + 4 * x, adj_z + 4 * z));
            z += 1;
        }
        x += 1;
    }
    proof {
        let model = reverse_voronoi_model(m@)->0;
        assert forall|i: int, j: int| 0 <= i < pmap.w() && 0 <= j < pmap.h() implies pmap@.at(i, j)
            == model.at(i, j) by {
            assert(pmap.cell_at(i, j) == m.cell_at(adj_x + 4 * i, adj_z + 4 * j));
        }
        lemma_same_model(pmap@, model);
    }
    Ok(pmap)
}

/// What `reverse_map_zoom` makes of the map of a zoom is the map that the
/// zoom was made from, without its last column and row: a zoom copies the
/// cells at even coordinates.
pub proof fn lemma_reverse_zoom_of_zoom(
    mode: ZoomMode,
    ws: i64,
    pmap: BiomeMap,
    zoomed: BiomeMap,
    back: BiomeMap,
)
    requires
        pmap.w() >= 1,
        pmap.h() >= 1,
        zoomed.x == 2 * pmap.x,
        zoomed.z == 2 * pmap.z,
        zoomed.w() == 2 * (pmap.w() - 1),
        zoomed.h() == 2 * (pmap.h() - 1),
        forall|i: int, j: int|
            0 <= i < zoomed.w() && 0 <= j < zoomed.h() ==> #[trigger] zoomed.cell_at(i, j)
                == zoom_value(mode, ws, &pmap, i, j),
        back.x == zoomed.x as int / 2,
        back.z == zoomed.z as int / 2,
        back.w() == zoomed.w() / 2,
        back.h() == zoomed.h() / 2,
        forall|i: int, j: int|
            0 <= i < back.w() && 0 <= j < back.h() ==> #[trigger] back.cell_at(i, j)
                == zoomed.cell_at(zoomed.x as int % 2 + 2 * i, zoomed.z as int % 2 + 2 * j),
    ensures
        back.x == pmap.x,
        back.z == pmap.z,
        back.w() == pmap.w() - 1,
        back.h() == pmap.h() - 1,
        forall|i: int, j: int|
            0 <= i < back.w() && 0 <= j < back.h() ==> #[trigger] back.cell_at(i, j)
                == pmap.cell_at(i, j),
{
    assert forall|i: int, j: int| 0 <= i < back.w() && 0 <= j < back.h() implies #[trigger] back.cell_at(
        i,
        j,
    ) == pmap.cell_at(i, j) by {
        assert(back.cell_at(i, j) == zoomed.cell_at(2 * i, 2 * j));
        assert(zoomed.cell_at(2 * i, 2 * j) == zoom_value(mode, ws, &pmap, 2 * i, 2 * j));
        assert((2 * i) / 2 == i && (2 * j) / 2 == j && (2 * i) % 2 == 0 && (2 * j) % 2 == 0);
    }
}

/// What `reverse_map_voronoi_zoom` makes of the map of the last zoom is, in
/// every cell, the value that the zoom put at the corner of the block of
/// the cell; where the four cells that the block is made from hold one
/// value, that is the value of the cell that the zoom was made from. The
/// map that comes back is the one that the zoom was made from, without its
/// last column and row.
pub proof fn lemma_reverse_voronoi_of_voronoi(kind: Jitter, p: MapModel, i: int, j: int)
    requires
        p.w >= 2,
        p.h >= 2,
        0 <= i < p.w - 1,
        0 <= j < p.h - 1,
    ensures
        reverse_voronoi_model(voronoi_model(kind, p)) is Some,
        ({
            let back = reverse_voronoi_model(voronoi_model(kind, p))->Some_0;
            &&& back.x == p.x
            &&& back.z == p.z
            &&& back.w == p.w - 1
            &&& back.h == p.h - 1
            &&& back.at(i, j) == voronoi_value_of(kind, p, 4 * i, 4 * j)
            &&& p.at(i, j) == p.at(i + 1, j) && p.at(i, j) == p.at(i, j + 1) && p.at(i, j) == p.at(
                i + 1,
                j + 1,
            ) ==> back.at(i, j) == p.at(i, j)
        }),
{
    let m = voronoi_model(kind, p);
    assert(aligned_from(m.x) == m.x);
    assert(aligned_from(m.z) == m.z);
    assert(m.at(4 * i, 4 * j) == voronoi_value_of(kind, p, 4 * i, 4 * j));
    assert((4 * i) / 4 == i && (4 * j) / 4 == j);
}

} // verus!
