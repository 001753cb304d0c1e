//! Areas, maps, and the layers that turn a coarse map into a finer one.

use vstd::prelude::*;
use crate::biome_layers::models::{grid_model, MapModel};
use crate::seed_info::Point;
use crate::biome_layers::grid::{
    cells_fit, grid_cells, grid_height, grid_width, lemma_cells_fit_sides, sparse_cells,
    sparse_height, sparse_width, Grid, SparseGrid,
};

pub mod cached;
pub mod cells;
pub mod finder;
pub mod grid;
pub mod image;
pub mod inverse;
pub mod layers;
pub mod limits;
pub mod low_bits;
pub mod models;
pub mod named;
pub mod pipeline;
pub mod ranges;
pub mod refine;
pub mod simple;
pub mod transforms;
pub mod treasure;
pub mod voronoi;
pub mod voronoi115;

pub use crate::biome_layers::cached::CachedMap;
pub use crate::biome_layers::finder::{
    can_generate_river_near, can_generate_river_near_steps, candidate_river_map,
    candidate_river_map_bit_25_undefined, candidate_river_map_generator, count_rivers,
    count_rivers_and, count_rivers_exact, map_with_river_at, river_seed_finder_26_range,
    segregate_coords_prevoronoi_hd, split_rivers_into_fragments,
};
pub use crate::biome_layers::image::{
    biome_to_color, color_variant, color_variant_channel, draw_map, draw_map_image,
    draw_treasure_map_image, generate_image, generate_image_treasure_map,
    generate_image_treasure_map_at, generate_image_up_to_layer, treasure_map_colors,
    treasure_map_to_color,
};
pub use crate::biome_layers::inverse::{
    decompose_map_river_mix, reverse_map_half_voronoi, reverse_map_river, reverse_map_river_mix,
    reverse_map_smooth, reverse_map_voronoi_zoom, reverse_map_zoom,
};
pub use crate::biome_layers::layers::Layer;
pub use crate::biome_layers::named::{
    HelperMapRiverAll, HelperMapZoomAllEdges, MapAddBamboo, MapAddIsland, MapAddMushroomIsland,
    MapAddSnow, MapBiome, MapBiomeEdge, MapCoolWarm, MapDeepOcean, MapFunction,
    MapHalfVoronoiZoom, MapHeatIce, MapHills, MapIsland, MapMap, MapOceanMix, MapOceanTemp,
    MapRareBiome, MapRemoveTooMuchOcean, MapRiver, MapRiverInit, MapRiverMix, MapShore, MapSkip,
    MapSmooth, MapSpecial, MapVoronoiZoom, MapVoronoiZoom115, MapZoom, TestMapCheckers,
    TestMapZero,
};
pub use crate::biome_layers::pipeline::{
    generate, generate_up_to_layer, generate_up_to_layer_1_13, generate_up_to_layer_1_14,
    generate_up_to_layer_1_15, generate_up_to_layer_1_7, generate_up_to_layer_1_7_extra,
    generate_up_to_layer_1_7_extra_2, generator_up_to_layer_1_13, generator_up_to_layer_1_14,
    generator_up_to_layer_1_15, generator_up_to_layer_1_7,
};
pub use crate::biome_layers::refine::{river_seed_finder, river_seed_finder_range};
pub use crate::biome_layers::simple::{MapFn, MapMap2, MapParentFn, PanicMap, TestMapXhz};
pub use crate::biome_layers::treasure::{
    generate_fragment_treasure_map, treasure_map_at, treasure_map_river_seed_finder, MapTreasure,
};
pub use crate::biome_layers::voronoi115::sha256_long_to_long;

verus! {

/// A rectangle on the integer grid: the cells `(x + i, z + j)` with `i`
/// below `w` and `j` below `h`.
#[derive(Copy, Clone, Debug, Default, PartialEq, Eq, Structural)]
pub struct Area {
    pub x: i64,
    pub z: i64,
    pub w: u64,
    pub h: u64,
}

impl Area {
    /// Whether the cell `(x, z)` lies in the area.
    pub open spec fn has(&self, x: int, z: int) -> bool {
        self.x <= x < self.x + self.w && self.z <= z < self.z + self.h
    }

    /// Returns true if (x, z) is inside this area.
    pub fn contains(&self, x: i64, z: i64) -> (r: bool)
        ensures
            r == self.has(x as int, z as int),
    {
        x >= self.x && (x as i128) < self.x as i128 + self.w as i128 && z >= self.z && (z as i128)
            < self.z as i128 + self.h as i128
    }

    /// The least and the greatest coordinates among the first `n` points,
    /// at least one: the least x, the least z, the greatest x, the
    /// greatest z.
    pub open spec fn extremes(c: Seq<Point>, n: nat) -> (i64, i64, i64, i64)
        decreases n,
    {
        if n <= 1 {
            (c[0].0, c[0].1, c[0].0, c[0].1)
        } else {
            let e = Self::extremes(c, (n - 1) as nat);
            let p = c[n - 1];
            (
                if p.0 < e.0 {
                    p.0
                } else {
                    e.0
                },
                if p.1 < e.1 {
                    p.1
                } else {
                    e.1
                },
                if p.0 > e.2 {
                    p.0
                } else {
                    e.2
                },
                if p.1 > e.3 {
                    p.1
                } else {
                    e.3
                },
            )
        }
    }

    /// The smallest area that contains all the points; the area without
    /// cells at the origin where there are none.
    pub open spec fn bounding(c: Seq<Point>) -> Area {
        if c.len() == 0 {
            Area { x: 0, z: 0, w: 0, h: 0 }
        } else {
            let e = Self::extremes(c, c.len());
            Area { x: e.0, z: e.1, w: (e.2 - e.0 + 1) as u64, h: (e.3 - e.1 + 1) as u64 }
        }
    }

    /// Whether the lengths of the smallest area around the points are
    /// 64-bit numbers: no two points lie as far apart along an axis as the
    /// least and the greatest 64-bit number.
    pub open spec fn span_fits(c: Seq<Point>) -> bool {
        forall|k: int, l: int|
            0 <= k < c.len() && 0 <= l < c.len() ==> (#[trigger] c[k]).0 - (#[trigger] c[l]).0
                < u64::MAX && c[k].1 - c[l].1 < u64::MAX
    }

    /// Creates the smallest area that contains all the coordinates; the
    /// area without cells at the origin where there are none.
    pub fn from_coords(c: &[Point]) -> (a: Area)
        requires
            Self::span_fits(c@),
        ensures
            a == Self::bounding(c@),
            c.len() == 0 ==> a == (Area { x: 0, z: 0, w: 0, h: 0 }),
            c.len() > 0 ==> {
                &&& a.w > 0 && a.h > 0
                &&& forall|k: int| 0 <= k < c.len() ==> a.has((#[trigger] c[k]).0 as int, c[k].1 as int)
                &&& exists|k: int| 0 <= k < c.len() && (#[trigger] c[k]).0 == a.x
                &&& exists|k: int| 0 <= k < c.len() && (#[trigger] c[k]).1 == a.z
                &&& exists|k: int| 0 <= k < c.len() && (#[trigger] c[k]).0 == a.x + a.w - 1
                &&& exists|k: int| 0 <= k < c.len() && (#[trigger] c[k]).1 == a.z + a.h - 1
            },
    {
        if c.len() == 0 {
            // On empty coords, return empty area
            return Area { x: 0, z: 0, w: 0, h: 0 };
        }
        let c0 = c[0];
        let (mut x_min, mut z_min) = c0;
        let (mut x_max, mut z_max) = c0;
        let mut k: usize = 1;
        while k < c.len()
            invariant
                1 <= k <= c.len(),
                x_min <= x_max,
                z_min <= z_max,
                (x_min, z_min, x_max, z_max) == Self::extremes(c@, k as nat),
                Self::span_fits(c@),
                forall|n: int|
                    0 <= n < k ==> x_min <= (#[trigger] c[n]).0 <= x_max && z_min <= c[n].1 <= z_max,
                exists|n: int| 0 <= n < k && (#[trigger] c[n]).0 == x_min,
                exists|n: int| 0 <= n < k && (#[trigger] c[n]).1 == z_min,
                exists|n: int| 0 <= n < k && (#[trigger] c[n]).0 == x_max,
                exists|n: int| 0 <= n < k && (#[trigger] c[n]).1 == z_max,
            decreases c.len() - k,
        {
            let (x, z) = c[k];
            if x < x_min {
                x_min = x;
            }
            if z < z_min {
                z_min = z;
            }
            if x > x_max {
                x_max = x;
            }
            if z > z_max {
                z_max = z;
            }
            k += 1;
        }
        proof {
            let k1 = choose|n: int| 0 <= n < c.len() && (#[trigger] c[n]).0 == x_min;
            let k2 = choose|n: int| 0 <= n < c.len() && (#[trigger] c[n]).0 == x_max;
            let k3 = choose|n: int| 0 <= n < c.len() && (#[trigger] c[n]).1 == z_min;
            let k4 = choose|n: int| 0 <= n < c.len() && (#[trigger] c[n]).1 == z_max;
            assert(c@[k2].0 - c@[k1].0 < u64::MAX);
            assert(c@[k4].1 - c@[k3].1 < u64::MAX);
        }
        Area {
            x: x_min,
            z: z_min,
            w: (x_max as i128 - x_min as i128 + 1) as u64,
            h: (z_max as i128 - z_min as i128 + 1) as u64,
        }
    }
}

/// The largest distance from the origin, along either axis, at which the
/// layers work: within it no coordinate that a layer computes leaves the
/// 64-bit range.
pub open spec fn coord_limit() -> int {
    0x1000_0000_0000_0000
}

/// Whether a rectangle lies within the given distance from the origin along
/// both axes.
pub open spec fn rect_within(x: int, z: int, w: int, h: int, r: int) -> bool {
    -r <= x && x + w <= r && -r <= z && z + h <= r
}

/// A map: a two-dimensional array of cell values and the coordinates of its
/// first cell.
#[derive(Debug, PartialEq, Eq, Hash)]
pub struct BiomeMap {
    pub x: i64,
    pub z: i64,
    pub a: Grid,
}

impl Clone for BiomeMap {
    fn clone(&self) -> (m: BiomeMap)
        ensures
            m.same_as(self),
    {
        BiomeMap { x: self.x, z: self.z, a: self.a.clone() }
    }
}

impl View for BiomeMap {
    type V = MapModel;

    /// What the map holds: the coordinates of its first cell, its lengths
    /// and its cells by index.
    open spec fn view(&self) -> MapModel {
        grid_model(
            self.x as int,
            self.z as int,
            self.w(),
            self.h(),
            |i: int, j: int| self.cell_at(i, j),
        )
    }
}

impl BiomeMap {
    /// The number of cells along x.
    pub open spec fn w(&self) -> nat {
        grid_width(self.a)
    }

    /// The number of cells along z.
    pub open spec fn h(&self) -> nat {
        grid_height(self.a)
    }

    /// The value of the cell with the index `(i, j)`.
    pub open spec fn cell_at(&self, i: int, j: int) -> i32 {
        grid_cells(self.a)[(i, j)]
    }

    /// The value of the cell at the coordinates `(x, z)`.
    pub open spec fn cell(&self, x: int, z: int) -> i32 {
        self.cell_at(x - self.x, z - self.z)
    }

    /// The area that the map covers.
    pub open spec fn region(&self) -> Area {
        Area { x: self.x, z: self.z, w: self.w() as u64, h: self.h() as u64 }
    }

    /// Whether the map is one that can have been made: its array is of a
    /// size that fits.
    pub open spec fn wf(&self) -> bool {
        cells_fit(self.w() as int, self.h() as int)
    }

    /// Whether the map lies within the given distance from the origin.
    pub open spec fn within(&self, r: int) -> bool {
        rect_within(self.x as int, self.z as int, self.w() as int, self.h() as int, r)
    }

    /// Whether two maps cover the same area with the same values.
    pub open spec fn same_as(&self, other: &BiomeMap) -> bool {
        &&& self.x == other.x
        &&& self.z == other.z
        &&& self.w() == other.w()
        &&& self.h() == other.h()
        &&& forall|i: int, j: int|
            0 <= i < self.w() && 0 <= j < self.h() ==> self.cell_at(i, j) == other.cell_at(i, j)
    }

    /// A map of the area that holds zero everywhere.
    pub fn new(a: Area) -> (m: BiomeMap)
        requires
            cells_fit(a.w as int, a.h as int),
        ensures
            m.wf(),
            m.region() == a,
            m.x == a.x,
            m.z == a.z,
            m.w() == a.w,
            m.h() == a.h,
            forall|i: int, j: int| 0 <= i < a.w && 0 <= j < a.h ==> m.cell_at(i, j) == 0,
    {
        proof {
            lemma_cells_fit_sides(a.w as int, a.h as int);
        }
        BiomeMap { x: a.x, z: a.z, a: Grid::zeros(a.w as usize, a.h as usize) }
    }

    /// The area that the map covers.
    pub fn area(&self) -> (a: Area)
        ensures
            a == self.region(),
    {
        let (w, h) = self.a.dim();
        Area { x: self.x, z: self.z, w: w as u64, h: h as u64 }
    }

    /// The value at the coordinates `(real_x, real_z)`.
    pub fn get(&self, real_x: i64, real_z: i64) -> (v: i32)
        requires
            self.region().has(real_x as int, real_z as int),
        ensures
            v == self.cell(real_x as int, real_z as int),
    {
        let (w, h) = self.a.dim();
        let i = (real_x as i128 - self.x as i128) as usize;
        let j = (real_z as i128 - self.z as i128) as usize;
        self.a.get(i, j)
    }

    /// Replaces the value at the coordinates `(real_x, real_z)`.
    pub fn set(&mut self, real_x: i64, real_z: i64, v: i32)
        requires
            old(self).region().has(real_x as int, real_z as int),
        ensures
            final(self).region() == old(self).region(),
            final(self).wf() == old(self).wf(),
            final(self).cell(real_x as int, real_z as int) == v,
            forall|x: int, z: int|
                (x != real_x || z != real_z) ==> final(self).cell(x, z) == old(self).cell(x, z),
    {
        let (w, h) = self.a.dim();
        let i = (real_x as i128 - self.x as i128) as usize;
        let j = (real_z as i128 - self.z as i128) as usize;
        self.a.set(i, j, v);
    }

    /// The value of the cell with the index `(i, j)`.
    pub fn at(&self, i: usize, j: usize) -> (v: i32)
        requires
            i < self.w(),
            j < self.h(),
        ensures
            v == self.cell_at(i as int, j as int),
    {
        self.a.get(i, j)
    }

    /// Replaces the value of the cell with the index `(i, j)`.
    pub fn put(&mut self, i: usize, j: usize, v: i32)
        requires
            i < old(self).w(),
            j < old(self).h(),
        ensures
            final(self).x == old(self).x,
            final(self).z == old(self).z,
            final(self).w() == old(self).w(),
            final(self).h() == old(self).h(),
            final(self).cell_at(i as int, j as int) == v,
            forall|a: int, b: int|
                (a != i || b != j) ==> final(self).cell_at(a, b) == old(self).cell_at(a, b),
    {
        self.a.set(i, j, v);
    }

    /// The lengths of the map along x and z.
    pub fn dim(&self) -> (d: (usize, usize))
        ensures
            d.0 == self.w(),
            d.1 == self.h(),
    {
        self.a.dim()
    }
}

/// A map whose cells hold a value or none.
#[derive(Debug, PartialEq, Eq)]
pub struct SparseMap {
    pub x: i64,
    pub z: i64,
    pub a: SparseGrid,
}

impl SparseMap {
    /// The number of cells along x.
    pub open spec fn w(&self) -> nat {
        sparse_width(self.a)
    }

    /// The number of cells along z.
    pub open spec fn h(&self) -> nat {
        sparse_height(self.a)
    }

    /// What the cell with the index `(i, j)` holds.
    pub open spec fn cell_at(&self, i: int, j: int) -> Option<i32> {
        sparse_cells(self.a)[(i, j)]
    }

    /// The area that the map covers.
    pub open spec fn region(&self) -> Area {
        Area { x: self.x, z: self.z, w: self.w() as u64, h: self.h() as u64 }
    }

    /// A map of the area that holds no value anywhere.
    pub fn new(a: Area) -> (m: SparseMap)
        requires
            cells_fit(a.w as int, a.h as int),
        ensures
            m.region() == a,
            m.x == a.x,
            m.z == a.z,
            m.w() == a.w,
            m.h() == a.h,
            forall|i: int, j: int|
                0 <= i < a.w && 0 <= j < a.h ==> m.cell_at(i, j) == None::<i32>,
    {
        proof {
            lemma_cells_fit_sides(a.w as int, a.h as int);
        }
        SparseMap { x: a.x, z: a.z, a: SparseGrid::empty(a.w as usize, a.h as usize) }
    }

    /// The area that the map covers.
    pub fn area(&self) -> (a: Area)
        ensures
            a == self.region(),
    {
        let (w, h) = self.a.dim();
        Area { x: self.x, z: self.z, w: w as u64, h: h as u64 }
    }

    /// What the cell with the index `(i, j)` holds.
    pub fn at(&self, i: usize, j: usize) -> (v: Option<i32>)
        requires
            i < self.w(),
            j < self.h(),
        ensures
            v == self.cell_at(i as int, j as int),
    {
        self.a.get(i, j)
    }

    /// Replaces what the cell with the index `(i, j)` holds.
    pub fn put(&mut self, i: usize, j: usize, v: Option<i32>)
        requires
            i < old(self).w(),
            j < old(self).h(),
        ensures
            final(self).x == old(self).x,
            final(self).z == old(self).z,
            final(self).w() == old(self).w(),
            final(self).h() == old(self).h(),
            final(self).cell_at(i as int, j as int) == v,
            forall|a: int, b: int|
                (a != i || b != j) ==> final(self).cell_at(a, b) == old(self).cell_at(a, b),
    {
        self.a.set(i, j, v);
    }

    /// The map with `unknown_biome_id` in every cell that holds no value.
    pub fn unwrap_or(self, unknown_biome_id: i32) -> (m: BiomeMap)
        requires
            cells_fit(self.w() as int, self.h() as int),
        ensures
            m.wf(),
            m.region() == self.region(),
            forall|i: int, j: int|
                0 <= i < self.w() && 0 <= j < self.h() ==> m.cell_at(i, j) == match self.cell_at(
                    i,
                    j,
                ) {
                    Some(v) => v,
                    None => unknown_biome_id,
                },
    {
        let area = self.area();
        let (w, h) = self.a.dim();
        let mut m = BiomeMap::new(area);
        let mut i: usize = 0;
        while i < w
            invariant
                i <= w,
                w == self.w(),
                h == self.h(),
                m.wf(),
                m.region() == self.region(),
                forall|a: int, b: int|
                    0 <= a < i && 0 <= b < h ==> m.cell_at(a, b) == match self.cell_at(a, b) {
                        Some(v) => v,
                        None => unknown_biome_id,
                    },
            decreases w - i,
        {
            let mut j: usize = 0;
            while j < h
                invariant
                    i < w,
                    j <= h,
                    w == self.w(),
                    h == self.h(),
                    m.wf(),
                    m.region() == self.region(),
                    forall|a: int, b: int|
                        (0 <= a < i && 0 <= b < h) || (a == i && 0 <= b < j) ==> m.cell_at(a, b)
                            == match self.cell_at(a, b) {
                            Some(v) => v,
                            None => unknown_biome_id,
                        },
                decreases h - j,
            {
                let v = match self.at(i, j) {
                    Some(v) => v,
                    None => unknown_biome_id,
                };
                m.put(i, j, v);
                j += 1;
            }
            i += 1;
        }
        m
    }

    /// The sparse map that holds every value of a map.
    pub fn from_map(m: &BiomeMap) -> (s: SparseMap)
        requires
            m.wf(),
        ensures
            s.region() == m.region(),
            forall|i: int, j: int|
                0 <= i < m.w() && 0 <= j < m.h() ==> s.cell_at(i, j) == Some(m.cell_at(i, j)),
    {
        let area = m.area();
        let (w, h) = m.dim();
        let mut s = SparseMap::new(area);
        let mut i: usize = 0;
        while i < w
            invariant
                i <= w,
                w == m.w(),
                h == m.h(),
                s.region() == m.region(),
                forall|a: int, b: int|
                    0 <= a < i && 0 <= b < h ==> s.cell_at(a, b) == Some(m.cell_at(a, b)),
            decreases w - i,
        {
            let mut j: usize = 0;
            while j < h
                invariant
                    i < w,
                    j <= h,
                    w == m.w(),
                    h == m.h(),
                    s.region() == m.region(),
                    forall|a: int, b: int|
                        (0 <= a < i && 0 <= b < h) || (a == i && 0 <= b < j) ==> s.cell_at(a, b)
                            == Some(m.cell_at(a, b)),
                decreases h - j,
            {
                s.put(i, j, Some(m.at(i, j)));
                j += 1;
            }
            i += 1;
        }
        s
    }
}

} // verus!

