//! Layers that need no world: maps from a function of the coordinates, and
//! the layers that serve to try the others.

use vstd::prelude::*;
use crate::biome_layers::grid::{cells_fit, lemma_cells_fit_sides};
use crate::biome_layers::layers::{area_ok, floor_quarter, lemma_area_ok_below};
use crate::biome_layers::named::MapVoronoiZoom;
use crate::biome_layers::transforms::slice_to_area;
use crate::biome_layers::voronoi::{voronoi_value, Jitter};
use crate::biome_layers::{Area, BiomeMap};
use crate::mc_rng::McRng;

verus! {

/// Whether the coordinates of the cells of an area are 64-bit numbers.
pub open spec fn area_in_range(a: Area) -> bool {
    a.x + a.w <= i64::MAX + 1 && a.z + a.h <= i64::MAX + 1
}

/// Generates a map given a function which takes (x, z) coordinates.
pub struct MapFn<F: Fn(i64, i64) -> i32>(pub F);

impl<F: Fn(i64, i64) -> i32> MapFn<F> {
    /// The map of an area: every cell holds what the function gives for
    /// its coordinates.
    pub fn get_map(&self, area: Area) -> (m: BiomeMap)
        requires
            cells_fit(area.w as int, area.h as int),
            area_in_range(area),
            forall|x: i64, z: i64| area.has(x as int, z as int) ==> call_requires(self.0, (x, z)),
        ensures
            m.wf(),
            m.region() == area,
            forall|i: int, j: int|
                0 <= i < area.w && 0 <= j < area.h ==> call_ensures(
                    self.0,
                    ((area.x + i) as i64, (area.z + j) as i64),
                    #[trigger] m.cell_at(i, j),
                ),
    {
        let mut m = BiomeMap::new(area);
        proof {
            lemma_cells_fit_sides(area.w as int, area.h as int);
        }
        let w = area.w as usize;
        let h = area.h as usize;
        let mut x: usize = 0;
        while x < w
            invariant
                x <= w,
                w == area.w,
                h == area.h,
                area_in_range(area),
                m.wf(),
                m.region() == area,
                forall|x: i64, z: i64|
                    area.has(x as int, z as int) ==> call_requires(self.0, (x, z)),
                forall|i: int, j: int|
                    0 <= i < x && 0 <= j < h ==> call_ensures(
                        self.0,
                        ((area.x + i) as i64, (area.z + j) as i64),
                        #[trigger] m.cell_at(i, j),
                    ),
            decreases w - x,
        {
            let mut z: usize = 0;
            while z < h
                invariant
                    x < w,
                    z <= h,
                    w == area.w,
                    h == area.h,
                    area_in_range(area),
                    m.wf(),
                    m.region() == area,
                    forall|x: i64, z: i64|
                        area.has(x as int, z as int) ==> call_requires(self.0, (x, z)),
                    forall|i: int, j: int|
                        0 <= i < w && 0 <= j < h && (i < x || (i == x && j < z)) ==> call_ensures(
                            self.0,
                            ((area.x + i) as i64, (area.z + j) as i64),
                            #[trigger] m.cell_at(i, j),
                        ),
                decreases h - z,
            {
                let cx = (area.x as i128 + x as i128) as i64;
                let cz = (area.z as i128 + z as i128) as i64;
                assert(area.has(cx as int, cz as int));
                let v = (self.0)(cx, cz);
                m.put(x, z, v);
                z += 1;
            }
            x += 1;
        }
        m
    }

    /// The map of the area of another map.
    pub fn get_map_from_pmap(&self, pmap: &BiomeMap) -> (m: BiomeMap)
        requires
            pmap.wf(),
            area_in_range(pmap.region()),
            forall|x: i64, z: i64|
                pmap.region().has(x as int, z as int) ==> call_requires(self.0, (x, z)),
        ensures
            m.wf(),
            m.region() == pmap.region(),
            forall|i: int, j: int|
                0 <= i < pmap.w() && 0 <= j < pmap.h() ==> call_ensures(
                    self.0,
                    ((pmap.x + i) as i64, (pmap.z + j) as i64),
                    #[trigger] m.cell_at(i, j),
                ),
    {
        proof {
            lemma_cells_fit_sides(pmap.w() as int, pmap.h() as int);
        }
        let area = pmap.area();
        self.get_map(area)
    }
}

/// A map which applies a function to a map, depending on the coordinates:
/// the function takes the coordinates of a cell and the value of the
/// cell.
pub struct MapParentFn<F: Fn(i64, i64, i32) -> i32>(pub F);

impl<F: Fn(i64, i64, i32) -> i32> MapParentFn<F> {
    /// The map of the same area in which every cell holds what the
    /// function gives for its coordinates and its value.
    pub fn get_map_from_pmap(&self, pmap: &BiomeMap) -> (m: BiomeMap)
        requires
            pmap.wf(),
            area_in_range(pmap.region()),
            forall|x: i64, z: i64, v: i32|
                pmap.region().has(x as int, z as int) ==> call_requires(self.0, (x, z, v)),
        ensures
            m.wf(),
            m.region() == pmap.region(),
            forall|i: int, j: int|
                0 <= i < pmap.w() && 0 <= j < pmap.h() ==> call_ensures(
                    self.0,
                    ((pmap.x + i) as i64, (pmap.z + j) as i64, pmap.cell_at(i, j)),
                    #[trigger] m.cell_at(i, j),
                ),
    {
        proof {
            lemma_cells_fit_sides(pmap.w() as int, pmap.h() as int);
        }
        let area = pmap.area();
        let mut m = BiomeMap::new(area);
        let w = area.w as usize;
        let h = area.h as usize;
        let mut x: usize = 0;
        while x < w
            invariant
                x <= w,
                w == area.w,
                h == area.h,
                area == pmap.region(),
                area_in_range(area),
                pmap.wf(),
                m.wf(),
                m.region() == area,
                forall|x: i64, z: i64, v: i32|
                    area.has(x as int, z as int) ==> call_requires(self.0, (x, z, v)),
                forall|i: int, j: int|
                    0 <= i < x && 0 <= j < h ==> call_ensures(
                        self.0,
                        ((area.x + i) as i64, (area.z + j) as i64, pmap.cell_at(i, j)),
                        #[trigger] m.cell_at(i, j),
                    ),
            decreases w - x,
        {
            let mut z: usize = 0;
            while z < h
                invariant
                    x < w,
                    z <= h,
                    w == area.w,
                    h == area.h,
                    area == pmap.region(),
                    area_in_range(area),
                    pmap.wf(),
                    m.wf(),
                    m.region() == area,
                    forall|x: i64, z: i64, v: i32|
                        area.has(x as int, z as int) ==> call_requires(self.0, (x, z, v)),
                    forall|i: int, j: int|
                        0 <= i < w && 0 <= j < h && (i < x || (i == x && j < z)) ==> call_ensures(
                            self.0,
                            ((area.x + i) as i64, (area.z + j) as i64, pmap.cell_at(i, j)),
                            #[trigger] m.cell_at(i, j),
                        ),
                decreases h - z,
            {
                let cx = (area.x as i128 + x as i128) as i64;
                let cz = (area.z as i128 + z as i128) as i64;
                assert(area.has(cx as int, cz as int));
                let v = (self.0)(cx, cz, pmap.at(x, z));
                m.put(x, z, v);
                z += 1;
            }
            x += 1;
        }
        m
    }
}

/// A map which applies a function to two maps of one area, cell by cell.
pub struct MapMap2<F: Fn(i32, i32) -> i32> {
    pub f: F,
}

impl<F: Fn(i32, i32) -> i32> MapMap2<F> {
    /// The map of the same area in which every cell holds what the
    /// function gives for the values of the cell in the two maps.
    pub fn get_map_from_pmap12(&self, pmap1: BiomeMap, pmap2: &BiomeMap) -> (m: BiomeMap)
        requires
            pmap1.wf(),
            pmap1.w() == pmap2.w(),
            pmap1.h() == pmap2.h(),
            forall|a: i32, b: i32| call_requires(self.f, (a, b)),
        ensures
            m.wf(),
            m.region() == pmap1.region(),
            forall|i: int, j: int|
                0 <= i < m.w() && 0 <= j < m.h() ==> call_ensures(
                    self.f,
                    (pmap1.cell_at(i, j), pmap2.cell_at(i, j)),
                    #[trigger] m.cell_at(i, j),
                ),
    {
        let mut m = pmap1;
        let (w, h) = m.dim();
        let mut x: usize = 0;
        while x < w
            invariant
                x <= w,
                w == m.w(),
                h == m.h(),
                w == pmap2.w(),
                h == pmap2.h(),
                m.wf(),
                m.region() == pmap1.region(),
                forall|a: i32, b: i32| call_requires(self.f, (a, b)),
                forall|i: int, j: int|
                    0 <= i < w && 0 <= j < h ==> if i < x {
                        call_ensures(
                            self.f,
                            (pmap1.cell_at(i, j), pmap2.cell_at(i, j)),
                            #[trigger] m.cell_at(i, j),
                        )
                    } else {
                        m.cell_at(i, j) == pmap1.cell_at(i, j)
                    },
            decreases w - x,
        {
            let mut z: usize = 0;
            while z < h
                invariant
                    x < w,
                    z <= h,
                    w == m.w(),
                    h == m.h(),
                    w == pmap2.w(),
                    h == pmap2.h(),
                    m.wf(),
                    m.region() == pmap1.region(),
                    forall|a: i32, b: i32| call_requires(self.f, (a, b)),
                    forall|i: int, j: int|
                        0 <= i < w && 0 <= j < h ==> if i < x || (i == x && j < z) {
                            call_ensures(
                                self.f,
                                (pmap1.cell_at(i, j), pmap2.cell_at(i, j)),
                                #[trigger] m.cell_at(i, j),
                            )
                        } else {
                            m.cell_at(i, j) == pmap1.cell_at(i, j)
                        },
                decreases h - z,
            {
                let v = (self.f)(m.at(x, z), pmap2.at(x, z));
                m.put(x, z, v);
                z += 1;
            }
            x += 1;
        }
        m
    }
}

/// The value that the test layer puts into the cell `(x, z)` of a map of
/// an area: `x` times the length of the area along z, and `z`, as a 32-bit
/// number.
pub open spec fn xhz_value(area: Area, x: i64, z: i64) -> i32 {
    ((x.wrapping_mul(area.h as i64) + z) as i64) as i32
}

/// A test layer whose cells tell their coordinates apart, in a way that
/// depends on the area that was asked for.
pub struct TestMapXhz;

impl TestMapXhz {
    /// The map of an area.
    pub fn get_map(&self, area: Area) -> (m: BiomeMap)
        requires
            cells_fit(area.w as int, area.h as int),
            area_in_range(area),
            forall|x: i64, z: i64|
                area.has(x as int, z as int) ==> i64::MIN <= x.wrapping_mul(area.h as i64) + z
                    <= i64::MAX,
        ensures
            m.wf(),
            m.region() == area,
            forall|i: int, j: int|
                0 <= i < area.w && 0 <= j < area.h ==> #[trigger] m.cell_at(i, j) == xhz_value(
                    area,
                    (area.x + i) as i64,
                    (area.z + j) as i64,
                ),
    {
        proof {
            lemma_cells_fit_sides(area.w as int, area.h as int);
        }
        let h = area.h as i64;
        let f = |x: i64, z: i64| -> (v: i32)
            requires
                i64::MIN <= x.wrapping_mul(h) + z <= i64::MAX,
            ensures
                v == ((x.wrapping_mul(h) + z) as i64) as i32,
            {
                #[verifier::truncate]
                ((x.wrapping_mul(h) + z) as i32)
            };
        MapFn(f).get_map(area)
    }

    /// The map of the area of another map.
    pub fn get_map_from_pmap(&self, pmap: &BiomeMap) -> (m: BiomeMap)
        requires
            pmap.wf(),
            area_in_range(pmap.region()),
            forall|x: i64, z: i64|
                pmap.region().has(x as int, z as int) ==> i64::MIN <= x.wrapping_mul(
                    pmap.h() as i64,
                ) + z <= i64::MAX,
        ensures
            m.wf(),
            m.region() == pmap.region(),
            forall|i: int, j: int|
                0 <= i < pmap.w() && 0 <= j < pmap.h() ==> #[trigger] m.cell_at(i, j) == xhz_value(
                    pmap.region(),
                    (pmap.x + i) as i64,
                    (pmap.z + j) as i64,
                ),
    {
        proof {
            lemma_cells_fit_sides(pmap.w() as int, pmap.h() as int);
        }
        let area = pmap.area();
        self.get_map(area)
    }
}

/// A layer that must not be used: it stands where a layer is needed that
/// no map is ever asked of, and so it has no map to give.
pub struct PanicMap;

/// The area of the layer below that the last zoom reads for an area.
pub open spec fn voronoi_parent_area(a: Area) -> Area {
    Area {
        x: ((a.x - 2) / 4) as i64,
        z: ((a.z - 2) / 4) as i64,
        w: (a.w / 4 + 3) as u64,
        h: (a.h / 4 + 3) as u64,
    }
}

impl MapVoronoiZoom {
    /// The map of the layer for an area, over whatever gives the maps of
    /// the layer below: the map of the area that the zoom reads is asked
    /// for once, the zoom is made of it, and the area is cut out.
    pub fn get_map_over<F: Fn(Area) -> BiomeMap>(&self, parent: F, area: Area) -> (m: BiomeMap)
        requires
            area_ok(area, 1),
            call_requires(parent, (voronoi_parent_area(area),)),
            forall|p: BiomeMap| #[trigger]
                call_ensures(parent, (voronoi_parent_area(area),), p) ==> p.wf() && p.region()
                    == voronoi_parent_area(area),
        ensures
            m.wf(),
            m.region() == area,
            exists|p: BiomeMap| #[trigger]
                call_ensures(parent, (voronoi_parent_area(area),), p) && forall|i: int, j: int|
                    0 <= i < area.w && 0 <= j < area.h ==> #[trigger] m.cell_at(i, j)
                        == voronoi_value(
                        Jitter::Seeded(McRng::seeded(self.base_seed, self.world_seed)),
                        &p,
                        area.x + i - (4 * p.x + 2),
                        area.z + j - (4 * p.z + 2),
                    ),
    {
        proof {
            lemma_cells_fit_sides(area.w + 64, area.h + 64);
        }
        let parea = Area {
            x: floor_quarter(area.x - 2),
            z: floor_quarter(area.z - 2),
            w: area.w / 4 + 3,
            h: area.h / 4 + 3,
        };
        proof {
            lemma_area_ok_below(area, parea, 0);
        }
        let pmap = parent(parea);
        proof {
            lemma_cells_fit_sides(pmap.w() as int, pmap.h() as int);
            assert(pmap.region() == parea);
            assert(pmap.x == parea.x && pmap.z == parea.z && pmap.w() == parea.w && pmap.h()
                == parea.h);
        }
        let map = self.get_map_from_pmap(&pmap);
        let m = slice_to_area(map, area);
        proof {
            assert forall|i: int, j: int| 0 <= i < area.w && 0 <= j < area.h implies #[trigger] m.cell_at(
                i,
                j,
            ) == voronoi_value(
                Jitter::Seeded(McRng::seeded(self.base_seed, self.world_seed)),
                &pmap,
                area.x + i - (4 * pmap.x + 2),
                area.z + j - (4 * pmap.z + 2),
            ) by {
                let a = area.x + i - map.x;
                let b = area.z + j - map.z;
                assert(m.cell_at(i, j) == map.cell_at(a, b));
            }
        }
        m
    }
}

} // verus!
