//! The layers, and the graph that they form: every layer is a function
//! from coordinates to values, made from the functions of the layers below
//! it, and a map of a layer holds the values of that function over an area.

use vstd::prelude::*;
use crate::biome_layers::cells::{
    hills_value, island_value, ocean_mix_value, river_mix_value, zoom_block_values, Stencil,
    ZoomMode,
};
use crate::biome_layers::grid::{cells_fit, lemma_cells_fit_sides, lemma_cells_fit_smaller};
use crate::biome_layers::transforms::{
    apply_hills, apply_ocean_mix, apply_pointwise, apply_river_mix, apply_stencil, apply_zoom,
    island_map, land_among, land_in_row, land_near, point_value, slice_to_area, stencil_at, stencil_value,
    zoom_value, PointKind, StencilKind,
};
use crate::biome_layers::voronoi::{apply_voronoi, voronoi_block_value, voronoi_value, Jitter};
use crate::noise_generator::{noise_of, ocean_class, NoiseGeneratorPerlin};
use crate::biome_layers::{coord_limit, rect_within, Area, BiomeMap};
use crate::mc_rng::McRng;

verus! {

/// A layer with the layers below it.
pub enum Layer {
    /// Zero everywhere.
    Zero,
    /// The numbers 0 to 15 in squares of four by four cells.
    Checkers,
    /// Land in one cell of ten.
    Island(McRng),
    /// A layer that makes a cell from the cell below it and its eight
    /// neighbours.
    Stencil(StencilKind, McRng, Box<Layer>),
    /// A layer that makes a cell from the one cell below it.
    Point(PointKind, McRng, Box<Layer>),
    /// A layer twice as fine as the one below it.
    Zoom(ZoomMode, McRng, Box<Layer>),
    /// The hills layer, over the biomes and the river seeds.
    Hills(McRng, Box<Layer>, Box<Layer>),
    /// The river mix, over the biomes and the rivers.
    RiverMix(Box<Layer>, Box<Layer>),
    /// The ocean mix, over the biomes and the ocean temperatures.
    OceanMix(Box<Layer>, Box<Layer>),
    /// The last zoom, four times as fine as the layer below it.
    Voronoi(Jitter, Box<Layer>),
    /// The temperatures of the oceans, for a world seed.
    OceanTemp(i64),
}

/// The value of a zoom at `(x, z)`, from the four values of the layer
/// below around `(x / 2, z / 2)`.
pub open spec fn zoom_pick(
    mode: ZoomMode,
    ws: i64,
    x: int,
    z: int,
    a: i32,
    a1: i32,
    b: i32,
    b1: i32,
) -> i32 {
    let v = zoom_block_values(mode, ws, ((x / 2) * 2) as i64, ((z / 2) * 2) as i64, a, a1, b, b1);
    if x % 2 == 0 {
        if z % 2 == 0 {
            v.0
        } else {
            v.1
        }
    } else {
        if z % 2 == 0 {
            v.2
        } else {
            v.3
        }
    }
}

/// The value of the last zoom at `(x, z)`, from the four values of the
/// layer below around `((x - 2) / 4, (z - 2) / 4)`.
pub open spec fn voronoi_pick_at(
    kind: Jitter,
    x: int,
    z: int,
    v00: i32,
    v10: i32,
    v01: i32,
    v11: i32,
) -> i32 {
    voronoi_block_value(
        kind,
        (((x - 2) / 4) * 4) as i64,
        (((z - 2) / 4) * 4) as i64,
        ((x - 2) % 4) as i64,
        ((z - 2) % 4) as i64,
        v00,
        v10,
        v01,
        v11,
    )
}

/// An area that can be asked of a layer can be asked of a layer with
/// fewer layers below it.
pub proof fn lemma_area_ok_less(a: Area, d: nat, d2: nat)
    requires
        area_ok(a, d),
        d2 <= d,
    ensures
        area_ok(a, d2),
{
    lemma_cells_fit_smaller(a.w + 64 * d2, a.h + 64 * d2, a.w + 64 * d, a.h + 64 * d);
}

/// Whether an area can be asked of a layer with `d` layers on its longest
/// way down: with 64 cells to spare for each of them, it lies within the
/// limit of the coordinates and its map fits.
pub open spec fn area_ok(a: Area, d: nat) -> bool {
    &&& 64 * d <= coord_limit()
    &&& rect_within(a.x as int, a.z as int, a.w as int, a.h as int, coord_limit() - 64 * d)
    &&& cells_fit(a.w + 64 * d, a.h + 64 * d)
}

/// An area that is little larger, and little further out, than one that
/// can be asked of a layer can be asked of the layers below it.
pub proof fn lemma_area_ok_below(a: Area, p: Area, d: nat)
    requires
        area_ok(a, d + 1),
        p.w <= a.w + 17,
        p.h <= a.h + 17,
        rect_within(p.x as int, p.z as int, p.w as int, p.h as int, coord_limit() - 64 * d),
    ensures
        area_ok(p, d),
        cells_fit(p.w + 20, p.h + 20),
        cells_fit(4 * (p.w as int), 4 * (p.h as int)) || p.w > a.w / 4 + 3 || p.h > a.h / 4 + 3,
        cells_fit(2 * (p.w as int), 2 * (p.h as int)) || p.w > a.w / 2 + 2 || p.h > a.h / 2 + 2,
{
    lemma_cells_fit_smaller(p.w + 64 * d, p.h + 64 * d, a.w + 64 * (d + 1), a.h + 64 * (d + 1));
    lemma_cells_fit_smaller(p.w + 20, p.h + 20, a.w + 64 * (d + 1), a.h + 64 * (d + 1));
    if p.w <= a.w / 4 + 3 && p.h <= a.h / 4 + 3 {
        lemma_cells_fit_smaller(
            4 * (p.w as int),
            4 * (p.h as int),
            a.w + 64 * (d + 1),
            a.h + 64 * (d + 1),
        );
    }
    if p.w <= a.w / 2 + 2 && p.h <= a.h / 2 + 2 {
        lemma_cells_fit_smaller(
            2 * (p.w as int),
            2 * (p.h as int),
            a.w + 64 * (d + 1),
            a.h + 64 * (d + 1),
        );
    }
}

/// `x / 2`, rounded down.
pub fn floor_half(x: i64) -> (r: i64)
    ensures
        r == (x as int) / 2,
{
    McRng::math_floor_div(x, 2)
}

/// `x / 4`, rounded down.
pub fn floor_quarter(x: i64) -> (r: i64)
    ensures
        r == (x as int) / 4,
{
    McRng::math_floor_div(x, 4)
}

impl Layer {
    /// The number of layers on the longest way down from this one, itself
    /// included.
    pub open spec fn depth(&self) -> nat
        decreases self,
    {
        match self {
            Layer::Zero => 1,
            Layer::Checkers => 1,
            Layer::Island(_) => 1,
            Layer::Stencil(_, _, p) => p.depth() + 1,
            Layer::Point(_, _, p) => p.depth() + 1,
            Layer::Zoom(_, _, p) => p.depth() + 1,
            Layer::Hills(_, p1, p2) => if p1.depth() >= p2.depth() {
                p1.depth() + 1
            } else {
                p2.depth() + 1
            },
            Layer::RiverMix(p1, p2) => if p1.depth() >= p2.depth() {
                p1.depth() + 1
            } else {
                p2.depth() + 1
            },
            Layer::OceanMix(p1, p2) => if p1.depth() >= p2.depth() {
                p1.depth() + 1
            } else {
                p2.depth() + 1
            },
            Layer::Voronoi(_, p) => p.depth() + 1,
            Layer::OceanTemp(_) => 1,
        }
    }

    /// The value of the layer at the coordinates `(x, z)`.
    #[verifier::opaque]
    pub open spec fn cell(&self, x: int, z: int) -> i32
        decreases self,
    {
        match self {
            Layer::Zero => 0,
            Layer::Checkers => ((z % 4) * 4 + x % 4) as i32,
            Layer::Island(r) => island_value(r.world(), x as i64, z as i64),
            Layer::Stencil(kind, r, p) => stencil_value(
                *kind,
                r.world(),
                x as i64,
                z as i64,
                Stencil {
                    v00: p.cell(x - 1, z - 1),
                    v10: p.cell(x, z - 1),
                    v20: p.cell(x + 1, z - 1),
                    v01: p.cell(x - 1, z),
                    v11: p.cell(x, z),
                    v21: p.cell(x + 1, z),
                    v02: p.cell(x - 1, z + 1),
                    v12: p.cell(x, z + 1),
                    v22: p.cell(x + 1, z + 1),
                },
            ),
            Layer::Point(kind, r, p) => point_value(
                *kind,
                r.world(),
                x as i64,
                z as i64,
                p.cell(x, z),
            ),
            Layer::Zoom(mode, r, p) => zoom_pick(
                *mode,
                r.world(),
                x,
                z,
                p.cell(x / 2, z / 2),
                p.cell(x / 2 + 1, z / 2),
                p.cell(x / 2, z / 2 + 1),
                p.cell(x / 2 + 1, z / 2 + 1),
            ),
            Layer::Hills(r, p1, p2) => hills_value(
                r.world(),
                x as i64,
                z as i64,
                Stencil {
                    v00: p1.cell(x - 1, z - 1),
                    v10: p1.cell(x, z - 1),
                    v20: p1.cell(x + 1, z - 1),
                    v01: p1.cell(x - 1, z),
                    v11: p1.cell(x, z),
                    v21: p1.cell(x + 1, z),
                    v02: p1.cell(x - 1, z + 1),
                    v12: p1.cell(x, z + 1),
                    v22: p1.cell(x + 1, z + 1),
                },
                p2.cell(x, z),
            ),
            Layer::RiverMix(p1, p2) => river_mix_value(p1.cell(x, z), p2.cell(x, z)),
            Layer::OceanMix(p1, p2) => ocean_mix_value(
                p1.cell(x, z),
                p2.cell(x, z),
                land_among(
                    p1.cell(x - 8, z - 8),
                    p1.cell(x - 4, z - 8),
                    p1.cell(x, z - 8),
                    p1.cell(x + 4, z - 8),
                    p1.cell(x + 8, z - 8),
                ) || land_among(
                    p1.cell(x - 8, z - 4),
                    p1.cell(x - 4, z - 4),
                    p1.cell(x, z - 4),
                    p1.cell(x + 4, z - 4),
                    p1.cell(x + 8, z - 4),
                ) || land_among(
                    p1.cell(x - 8, z),
                    p1.cell(x - 4, z),
                    p1.cell(x, z),
                    p1.cell(x + 4, z),
                    p1.cell(x + 8, z),
                ) || land_among(
                    p1.cell(x - 8, z + 4),
                    p1.cell(x - 4, z + 4),
                    p1.cell(x, z + 4),
                    p1.cell(x + 4, z + 4),
                    p1.cell(x + 8, z + 4),
                ) || land_among(
                    p1.cell(x - 8, z + 8),
                    p1.cell(x - 4, z + 8),
                    p1.cell(x, z + 8),
                    p1.cell(x + 4, z + 8),
                    p1.cell(x + 8, z + 8),
                ),
            ),
            Layer::Voronoi(kind, p) => voronoi_pick_at(
                *kind,
                x,
                z,
                p.cell((x - 2) / 4, (z - 2) / 4),
                p.cell((x - 2) / 4 + 1, (z - 2) / 4),
                p.cell((x - 2) / 4, (z - 2) / 4 + 1),
                p.cell((x - 2) / 4 + 1, (z - 2) / 4 + 1),
            ),
            Layer::OceanTemp(seed) => ocean_class(noise_of(*seed), x as i64, z as i64),
        }
    }

    /// Whether a map holds the values of the layer over an area.
    pub open spec fn shown_by(&self, m: &BiomeMap, area: Area) -> bool {
        &&& m.wf()
        &&& m.x == area.x
        &&& m.z == area.z
        &&& m.w() == area.w
        &&& m.h() == area.h
        &&& forall|i: int, j: int|
            0 <= i < area.w && 0 <= j < area.h ==> #[trigger] m.cell_at(i, j) == self.cell(
                area.x + i,
                area.z + j,
            )
    }

    /// Whether a map holds, over an area, the values that `f` gives for
    /// the coordinates.
    pub open spec fn holds(m: &BiomeMap, area: Area, f: spec_fn(int, int) -> i32) -> bool {
        &&& m.wf()
        &&& m.x == area.x
        &&& m.z == area.z
        &&& m.w() == area.w
        &&& m.h() == area.h
        &&& forall|i: int, j: int|
            0 <= i < area.w && 0 <= j < area.h ==> #[trigger] m.cell_at(i, j) == f(
                area.x + i,
                area.z + j,
            )
    }

    /// The map of the layer over an area: it covers the area exactly, and
    /// the value of every cell is a function of its coordinates alone.
    pub fn get_map(&self, area: Area) -> (m: BiomeMap)
        requires
            area_ok(area, self.depth()),
        ensures
            self.shown_by(&m, area),
        decreases self.depth(), 0int,
    {
        match self {
            Layer::Zero => {
                proof {
                    lemma_cells_fit_smaller(
                        area.w as int,
                        area.h as int,
                        area.w + 64,
                        area.h + 64,
                    );
                    reveal_with_fuel(Layer::cell, 1);
                }
                BiomeMap::new(area)
            },
            Layer::Checkers => {
                let m = checkers_map(area);
                proof {
                    reveal_with_fuel(Layer::cell, 1);
                }
                m
            },
            Layer::Island(r) => {
                proof {
                    lemma_cells_fit_smaller(
                        area.w as int,
                        area.h as int,
                        area.w + 64,
                        area.h + 64,
                    );
                }
                let m = island_map(*r, area);
                proof {
                    reveal_with_fuel(Layer::cell, 1);
                }
                m
            },
            Layer::Stencil(kind, r, p) => {
                let m = stencil_layer_map(*kind, *r, p, area);
                proof {
                    assert forall|i: int, j: int|
                        0 <= i < area.w && 0 <= j < area.h implies #[trigger] m.cell_at(i, j)
                        == self.cell(area.x + i, area.z + j) by {
                        lemma_cell_unfold(self, area.x + i, area.z + j);
                    }
                }
                m
            },
            Layer::Point(kind, r, p) => {
                let m = point_layer_map(*kind, *r, p, area);
                proof {
                    assert forall|i: int, j: int|
                        0 <= i < area.w && 0 <= j < area.h implies #[trigger] m.cell_at(i, j)
                        == self.cell(area.x + i, area.z + j) by {
                        lemma_cell_unfold(self, area.x + i, area.z + j);
                    }
                }
                m
            },
            Layer::Zoom(mode, r, p) => {
                let m = zoom_layer_map(*mode, *r, p, area);
                proof {
                    assert forall|i: int, j: int|
                        0 <= i < area.w && 0 <= j < area.h implies #[trigger] m.cell_at(i, j)
                        == self.cell(area.x + i, area.z + j) by {
                        lemma_cell_unfold(self, area.x + i, area.z + j);
                    }
                }
                m
            },
            Layer::Hills(r, p1, p2) => {
                proof {
                    lemma_area_ok_less(area, self.depth(), p1.depth() + 1);
                    lemma_area_ok_less(area, self.depth(), p2.depth() + 1);
                }
                let m = hills_layer_map(*r, p1, p2, area);
                proof {
                    assert forall|i: int, j: int|
                        0 <= i < area.w && 0 <= j < area.h implies #[trigger] m.cell_at(i, j)
                        == self.cell(area.x + i, area.z + j) by {
                        lemma_cell_unfold(self, area.x + i, area.z + j);
                    }
                }
                m
            },
            Layer::RiverMix(p1, p2) => {
                proof {
                    lemma_area_ok_less(area, self.depth(), p1.depth() + 1);
                    lemma_area_ok_less(area, self.depth(), p2.depth() + 1);
                }
                let m = river_mix_layer_map(p1, p2, area);
                proof {
                    assert forall|i: int, j: int|
                        0 <= i < area.w && 0 <= j < area.h implies #[trigger] m.cell_at(i, j)
                        == self.cell(area.x + i, area.z + j) by {
                        lemma_cell_unfold(self, area.x + i, area.z + j);
                    }
                }
                m
            },
            Layer::OceanMix(p1, p2) => {
                proof {
                    lemma_area_ok_less(area, self.depth(), p1.depth() + 1);
                    lemma_area_ok_less(area, self.depth(), p2.depth() + 1);
                }
                let m = ocean_mix_layer_map(p1, p2, area);
                proof {
                    assert forall|i: int, j: int|
                        0 <= i < area.w && 0 <= j < area.h implies #[trigger] m.cell_at(i, j)
                        == self.cell(area.x + i, area.z + j) by {
                        lemma_cell_unfold(self, area.x + i, area.z + j);
                    }
                }
                m
            },
            Layer::Voronoi(kind, p) => {
                let m = voronoi_layer_map(*kind, p, area);
                proof {
                    assert forall|i: int, j: int|
                        0 <= i < area.w && 0 <= j < area.h implies #[trigger] m.cell_at(i, j)
                        == self.cell(area.x + i, area.z + j) by {
                        lemma_cell_unfold(self, area.x + i, area.z + j);
                    }
                }
                m
            },
            Layer::OceanTemp(seed) => {
                let g = NoiseGeneratorPerlin::new(*seed);
                let m = ocean_temp_map(&g, area);
                proof {
                    reveal_with_fuel(Layer::cell, 1);
                }
                m
            },
        }
    }
}

/// The value of a layer at a cell, written out once.
pub proof fn lemma_cell_unfold(l: &Layer, x: int, z: int)
    ensures
        l.cell(x, z) == match l {
            Layer::Zero => 0,
            Layer::Checkers => ((z % 4) * 4 + x % 4) as i32,
            Layer::Island(r) => island_value(r.world(), x as i64, z as i64),
            Layer::Stencil(kind, r, p) => stencil_value(
                *kind,
                r.world(),
                x as i64,
                z as i64,
                around(p, x, z),
            ),
            Layer::Point(kind, r, p) => point_value(
                *kind,
                r.world(),
                x as i64,
                z as i64,
                p.cell(x, z),
            ),
            Layer::Zoom(mode, r, p) => zoom_pick(
                *mode,
                r.world(),
                x,
                z,
                p.cell(x / 2, z / 2),
                p.cell(x / 2 + 1, z / 2),
                p.cell(x / 2, z / 2 + 1),
                p.cell(x / 2 + 1, z / 2 + 1),
            ),
            Layer::Hills(r, p1, p2) => hills_value(
                r.world(),
                x as i64,
                z as i64,
                around(p1, x, z),
                p2.cell(x, z),
            ),
            Layer::RiverMix(p1, p2) => river_mix_value(p1.cell(x, z), p2.cell(x, z)),
            Layer::OceanMix(p1, p2) => ocean_mix_value(
                p1.cell(x, z),
                p2.cell(x, z),
                land_around(p1, x, z),
            ),
            Layer::Voronoi(kind, p) => voronoi_pick_at(
                *kind,
                x,
                z,
                p.cell((x - 2) / 4, (z - 2) / 4),
                p.cell((x - 2) / 4 + 1, (z - 2) / 4),
                p.cell((x - 2) / 4, (z - 2) / 4 + 1),
                p.cell((x - 2) / 4 + 1, (z - 2) / 4 + 1),
            ),
            Layer::OceanTemp(seed) => ocean_class(noise_of(*seed), x as i64, z as i64),
        },
{
    reveal_with_fuel(Layer::cell, 1);
}

/// The nine values of a layer around `(x, z)`.
pub open spec fn around(p: &Layer, x: int, z: int) -> Stencil {
    Stencil {
        v00: p.cell(x - 1, z - 1),
        v10: p.cell(x, z - 1),
        v20: p.cell(x + 1, z - 1),
        v01: p.cell(x - 1, z),
        v11: p.cell(x, z),
        v21: p.cell(x + 1, z),
        v02: p.cell(x - 1, z + 1),
        v12: p.cell(x, z + 1),
        v22: p.cell(x + 1, z + 1),
    }
}

/// Whether a layer holds land in one of five cells of the row `z`, four
/// cells apart from `x`.
pub open spec fn land_along(p: &Layer, x: int, z: int) -> bool {
    land_among(p.cell(x, z), p.cell(x + 4, z), p.cell(x + 8, z), p.cell(x + 12, z), p.cell(x + 16, z))
}

/// Whether a layer holds land in one of the 25 cells around `(x, z)`, four
/// cells apart along each axis.
pub open spec fn land_around(p: &Layer, x: int, z: int) -> bool {
    land_along(p, x - 8, z - 8) || land_along(p, x - 8, z - 4) || land_along(p, x - 8, z)
        || land_along(p, x - 8, z + 4) || land_along(p, x - 8, z + 8)
}

/// The map of the checkers layer over an area.
pub fn checkers_map(area: Area) -> (m: BiomeMap)
    requires
        area_ok(area, 1),
    ensures
        Layer::holds(&m, area, |x: int, z: int| ((z % 4) * 4 + x % 4) as i32),
{
    proof {
        lemma_cells_fit_smaller(area.w as int, area.h as int, area.w + 64, area.h + 64);
        lemma_cells_fit_sides(area.w as int, area.h as int);
    }
    let mut m = BiomeMap::new(area);
    let w = area.w as usize;
    let h = area.h as usize;
    let mut i: usize = 0;
    while i < w
        invariant
            i <= w,
            w == m.w(),
            h == m.h(),
            w == area.w,
            h == area.h,
            m.x == area.x,
            m.z == area.z,
            m.wf(),
            area_ok(area, 1),
            forall|a: int, b: int|
                0 <= b < h && 0 <= a < i ==> #[trigger] m.cell_at(a, b) == ((area.z + b) % 4) * 4 + (
                area.x + a) % 4,
        decreases w - i,
    {
        let mut j: usize = 0;
        while j < h
            invariant
                i < w,
                j <= h,
                w == m.w(),
                h == m.h(),
                w == area.w,
                h == area.h,
                m.x == area.x,
                m.z == area.z,
                m.wf(),
                area_ok(area, 1),
                forall|a: int, b: int|
                    0 <= b < h && ((0 <= a < i) || (a == i && b < j)) ==> #[trigger] m.cell_at(a, b)
                        == ((area.z + b) % 4) * 4 + (area.x + a) % 4,
            decreases h - j,
        {
            let rx = McRng::math_floor_mod(area.x + i as i64, 4);
            let rz = McRng::math_floor_mod(area.z + j as i64, 4);
            m.put(i, j, (rz * 4 + rx) as i32);
            j += 1;
        }
        i += 1;
    }
    m
}

/// What a map of a layer holds around a cell is what the layer holds
/// there.
pub proof fn lemma_around(p: &Layer, pmap: &BiomeMap, parea: Area, i: int, j: int)
    requires
        p.shown_by(pmap, parea),
        0 <= i,
        0 <= j,
        i + 2 < parea.w,
        j + 2 < parea.h,
    ensures
        stencil_at(pmap, i, j) == around(p, parea.x + i + 1, parea.z + j + 1),
{
    let x = parea.x + i + 1;
    let z = parea.z + j + 1;
    assert(pmap.cell_at(i, j) == p.cell(parea.x + i, parea.z + j));
    assert(pmap.cell_at(i + 1, j) == p.cell(parea.x + (i + 1), parea.z + j));
    assert(pmap.cell_at(i + 2, j) == p.cell(parea.x + (i + 2), parea.z + j));
    assert(pmap.cell_at(i, j + 1) == p.cell(parea.x + i, parea.z + (j + 1)));
    assert(pmap.cell_at(i + 1, j + 1) == p.cell(parea.x + (i + 1), parea.z + (j + 1)));
    assert(pmap.cell_at(i + 2, j + 1) == p.cell(parea.x + (i + 2), parea.z + (j + 1)));
    assert(pmap.cell_at(i, j + 2) == p.cell(parea.x + i, parea.z + (j + 2)));
    assert(pmap.cell_at(i + 1, j + 2) == p.cell(parea.x + (i + 1), parea.z + (j + 2)));
    assert(pmap.cell_at(i + 2, j + 2) == p.cell(parea.x + (i + 2), parea.z + (j + 2)));
    assert(p.cell(parea.x + i, parea.z + j) == p.cell(x - 1, z - 1));
    assert(p.cell(parea.x + (i + 1), parea.z + j) == p.cell(x, z - 1));
    assert(p.cell(parea.x + (i + 2), parea.z + j) == p.cell(x + 1, z - 1));
    assert(p.cell(parea.x + i, parea.z + (j + 1)) == p.cell(x - 1, z));
    assert(p.cell(parea.x + (i + 1), parea.z + (j + 1)) == p.cell(x, z));
    assert(p.cell(parea.x + (i + 2), parea.z + (j + 1)) == p.cell(x + 1, z));
    assert(p.cell(parea.x + i, parea.z + (j + 2)) == p.cell(x - 1, z + 1));
    assert(p.cell(parea.x + (i + 1), parea.z + (j + 2)) == p.cell(x, z + 1));
    assert(p.cell(parea.x + (i + 2), parea.z + (j + 2)) == p.cell(x + 1, z + 1));
}

/// The map, over an area, of a layer that looks at the nine cells around
/// each cell of the layer below it.
pub fn stencil_layer_map(kind: StencilKind, r: McRng, p: &Layer, area: Area) -> (m: BiomeMap)
    requires
        area_ok(area, p.depth() + 1),
    ensures
        Layer::holds(
            &m,
            area,
            |x: int, z: int| stencil_value(kind, r.world(), x as i64, z as i64, around(p, x, z)),
        ),
    decreases p.depth(), 1int,
{
    proof {
        lemma_cells_fit_sides(area.w + 64 * (p.depth() + 1), area.h + 64 * (p.depth() + 1));
    }
    let parea = Area { x: area.x - 1, z: area.z - 1, w: area.w + 2, h: area.h + 2 };
    proof {
        lemma_area_ok_below(area, parea, p.depth());
    }
    let pmap = p.get_map(parea);
    let m = apply_stencil(kind, r, &pmap);
    proof {
        assert forall|i: int, j: int| 0 <= i < area.w && 0 <= j < area.h implies #[trigger] m.cell_at(
            i,
            j,
        ) == stencil_value(
            kind,
            r.world(),
            (area.x + i) as i64,
            (area.z + j) as i64,
            around(p, area.x + i, area.z + j),
        ) by {
            lemma_around(p, &pmap, parea, i, j);
        }
    }
    m
}

/// The map, over an area, of a layer that makes every cell from the one
/// cell of the layer below it.
pub fn point_layer_map(kind: PointKind, r: McRng, p: &Layer, area: Area) -> (m: BiomeMap)
    requires
        area_ok(area, p.depth() + 1),
    ensures
        Layer::holds(
            &m,
            area,
            |x: int, z: int| point_value(kind, r.world(), x as i64, z as i64, p.cell(x, z)),
        ),
    decreases p.depth(), 1int,
{
    proof {
        lemma_area_ok_below(area, area, p.depth());
    }
    let pmap = p.get_map(area);
    apply_pointwise(kind, r, &pmap)
}

/// The value that a zoom puts into a cell of its map is the value of the
/// zoom over the layer at the coordinates of the cell.
pub proof fn lemma_zoom_value(
    mode: ZoomMode,
    ws: i64,
    pmap: &BiomeMap,
    p: &Layer,
    parea: Area,
    a: int,
    b: int,
)
    requires
        p.shown_by(pmap, parea),
        0 <= a,
        0 <= b,
        a / 2 + 1 < parea.w,
        b / 2 + 1 < parea.h,
    ensures
        ({
            let x = 2 * parea.x + a;
            let z = 2 * parea.z + b;
            zoom_value(mode, ws, pmap, a, b) == zoom_pick(
                mode,
                ws,
                x,
                z,
                p.cell(x / 2, z / 2),
                p.cell(x / 2 + 1, z / 2),
                p.cell(x / 2, z / 2 + 1),
                p.cell(x / 2 + 1, z / 2 + 1),
            )
        }),
{
    let x = 2 * parea.x + a;
    let z = 2 * parea.z + b;
    let bi = a / 2;
    let bj = b / 2;
    assert(x / 2 == parea.x + bi && x % 2 == a % 2);
    assert(z / 2 == parea.z + bj && z % 2 == b % 2);
    assert(pmap.cell_at(bi, bj) == p.cell(parea.x + bi, parea.z + bj));
    assert(pmap.cell_at(bi + 1, bj) == p.cell(parea.x + (bi + 1), parea.z + bj));
    assert(pmap.cell_at(bi, bj + 1) == p.cell(parea.x + bi, parea.z + (bj + 1)));
    assert(pmap.cell_at(bi + 1, bj + 1) == p.cell(parea.x + (bi + 1), parea.z + (bj + 1)));
    assert(p.cell(parea.x + bi, parea.z + bj) == p.cell(x / 2, z / 2));
    assert(p.cell(parea.x + (bi + 1), parea.z + bj) == p.cell(x / 2 + 1, z / 2));
    assert(p.cell(parea.x + bi, parea.z + (bj + 1)) == p.cell(x / 2, z / 2 + 1));
    assert(p.cell(parea.x + (bi + 1), parea.z + (bj + 1)) == p.cell(x / 2 + 1, z / 2 + 1));
    assert(((pmap.x + bi) * 2) as i64 == ((x / 2) * 2) as i64);
    assert(((pmap.z + bj) * 2) as i64 == ((z / 2) * 2) as i64);
}

/// The map, over an area, of a zoom.
pub fn zoom_layer_map(mode: ZoomMode, r: McRng, p: &Layer, area: Area) -> (m: BiomeMap)
    requires
        area_ok(area, p.depth() + 1),
    ensures
        Layer::holds(
            &m,
            area,
            |x: int, z: int|
                zoom_pick(
                    mode,
                    r.world(),
                    x,
                    z,
                    p.cell(x / 2, z / 2),
                    p.cell(x / 2 + 1, z / 2),
                    p.cell(x / 2, z / 2 + 1),
                    p.cell(x / 2 + 1, z / 2 + 1),
                ),
        ),
    decreases p.depth(), 1int,
{
    proof {
        lemma_cells_fit_sides(area.w + 64 * (p.depth() + 1), area.h + 64 * (p.depth() + 1));
    }
    let parea = Area {
        x: floor_half(area.x),
        z: floor_half(area.z),
        w: area.w / 2 + 2,
        h: area.h / 2 + 2,
    };
    proof {
        lemma_area_ok_below(area, parea, p.depth());
    }
    let pmap = p.get_map(parea);
    let map = apply_zoom(mode, r, &pmap);
    let m = slice_to_area(map, area);
    proof {
        assert forall|i: int, j: int| 0 <= i < area.w && 0 <= j < area.h implies #[trigger] m.cell_at(
            i,
            j,
        ) == zoom_pick(
            mode,
            r.world(),
            area.x + i,
            area.z + j,
            p.cell((area.x + i) / 2, (area.z + j) / 2),
            p.cell((area.x + i) / 2 + 1, (area.z + j) / 2),
            p.cell((area.x + i) / 2, (area.z + j) / 2 + 1),
            p.cell((area.x + i) / 2 + 1, (area.z + j) / 2 + 1),
        ) by {
            let a = area.x + i - map.x;
            let b = area.z + j - map.z;
            assert(m.cell_at(i, j) == map.cell_at(a, b));
            assert(map.cell_at(a, b) == zoom_value(mode, r.world(), &pmap, a, b));
            lemma_zoom_value(mode, r.world(), &pmap, p, parea, a, b);
            assert(2 * parea.x + a == area.x + i && 2 * parea.z + b == area.z + j);
        }
    }
    m
}

/// The map, over an area, of the hills layer.
pub fn hills_layer_map(r: McRng, p1: &Layer, p2: &Layer, area: Area) -> (m: BiomeMap)
    requires
        area_ok(area, p1.depth() + 1),
        area_ok(area, p2.depth() + 1),
    ensures
        Layer::holds(
            &m,
            area,
            |x: int, z: int|
                hills_value(r.world(), x as i64, z as i64, around(p1, x, z), p2.cell(x, z)),
        ),
    decreases (if p1.depth() >= p2.depth() { p1.depth() } else { p2.depth() }), 1int,
{
    proof {
        lemma_cells_fit_sides(area.w + 64 * (p1.depth() + 1), area.h + 64 * (p1.depth() + 1));
    }
    let parea = Area { x: area.x - 1, z: area.z - 1, w: area.w + 2, h: area.h + 2 };
    proof {
        lemma_area_ok_below(area, parea, p1.depth());
        lemma_area_ok_below(area, parea, p2.depth());
    }
    let pmap1 = p1.get_map(parea);
    let pmap2 = p2.get_map(parea);
    let m = apply_hills(r, &pmap1, &pmap2);
    proof {
        assert forall|i: int, j: int| 0 <= i < area.w && 0 <= j < area.h implies #[trigger] m.cell_at(
            i,
            j,
        ) == hills_value(
            r.world(),
            (area.x + i) as i64,
            (area.z + j) as i64,
            around(p1, area.x + i, area.z + j),
            p2.cell(area.x + i, area.z + j),
        ) by {
            lemma_around(p1, &pmap1, parea, i, j);
            assert(pmap2.cell_at(i + 1, j + 1) == p2.cell(parea.x + (i + 1), parea.z + (j + 1)));
        }
    }
    m
}

/// The map, over an area, of the river mix.
pub fn river_mix_layer_map(p1: &Layer, p2: &Layer, area: Area) -> (m: BiomeMap)
    requires
        area_ok(area, p1.depth() + 1),
        area_ok(area, p2.depth() + 1),
    ensures
        Layer::holds(
            &m,
            area,
            |x: int, z: int| river_mix_value(p1.cell(x, z), p2.cell(x, z)),
        ),
    decreases (if p1.depth() >= p2.depth() { p1.depth() } else { p2.depth() }), 1int,
{
    proof {
        lemma_area_ok_below(area, area, p1.depth());
        lemma_area_ok_below(area, area, p2.depth());
    }
    let pmap1 = p1.get_map(area);
    let pmap2 = p2.get_map(area);
    apply_river_mix(&pmap1, &pmap2)
}

/// A row of a map of a layer holds land, four cells apart, where the layer
/// does.
pub proof fn lemma_land_in_row(p: &Layer, pmap: &BiomeMap, parea: Area, i: int, j: int)
    requires
        p.shown_by(pmap, parea),
        0 <= i,
        0 <= j < parea.h,
        i + 16 < parea.w,
    ensures
        land_in_row(pmap, i, j) == land_along(p, parea.x + i, parea.z + j),
{
    reveal(land_in_row);
    assert(pmap.cell_at(i, j) == p.cell(parea.x + i, parea.z + j));
    assert(pmap.cell_at(i + 4, j) == p.cell(parea.x + (i + 4), parea.z + j));
    assert(pmap.cell_at(i + 8, j) == p.cell(parea.x + (i + 8), parea.z + j));
    assert(pmap.cell_at(i + 12, j) == p.cell(parea.x + (i + 12), parea.z + j));
    assert(pmap.cell_at(i + 16, j) == p.cell(parea.x + (i + 16), parea.z + j));
    assert(p.cell(parea.x + (i + 4), parea.z + j) == p.cell(parea.x + i + 4, parea.z + j));
    assert(p.cell(parea.x + (i + 8), parea.z + j) == p.cell(parea.x + i + 8, parea.z + j));
    assert(p.cell(parea.x + (i + 12), parea.z + j) == p.cell(parea.x + i + 12, parea.z + j));
    assert(p.cell(parea.x + (i + 16), parea.z + j) == p.cell(parea.x + i + 16, parea.z + j));
}

/// A map of a layer holds land, four cells apart along both axes, where
/// the layer does.
pub proof fn lemma_land_near(p: &Layer, pmap: &BiomeMap, parea: Area, i: int, j: int)
    requires
        p.shown_by(pmap, parea),
        0 <= i,
        0 <= j,
        i + 16 < parea.w,
        j + 16 < parea.h,
    ensures
        land_near(pmap, i, j) == land_around(p, parea.x + i + 8, parea.z + j + 8),
{
    let x = parea.x + i;
    let z = parea.z + j;
    lemma_land_in_row(p, pmap, parea, i, j);
    lemma_land_in_row(p, pmap, parea, i, j + 4);
    lemma_land_in_row(p, pmap, parea, i, j + 8);
    lemma_land_in_row(p, pmap, parea, i, j + 12);
    lemma_land_in_row(p, pmap, parea, i, j + 16);
    assert(land_in_row(pmap, i, j) == land_along(p, x + 8 - 8, z + 8 - 8));
    assert(land_in_row(pmap, i, j + 4) == land_along(p, x + 8 - 8, z + 8 - 4)) by {
        assert(parea.z + (j + 4) == z + 8 - 4);
    }
    assert(land_in_row(pmap, i, j + 8) == land_along(p, x + 8 - 8, z + 8)) by {
        assert(parea.z + (j + 8) == z + 8);
    }
    assert(land_in_row(pmap, i, j + 12) == land_along(p, x + 8 - 8, z + 8 + 4)) by {
        assert(parea.z + (j + 12) == z + 8 + 4);
    }
    assert(land_in_row(pmap, i, j + 16) == land_along(p, x + 8 - 8, z + 8 + 8)) by {
        assert(parea.z + (j + 16) == z + 8 + 8);
    }
}

/// The map, over an area, of the ocean mix.
pub fn ocean_mix_layer_map(p1: &Layer, p2: &Layer, area: Area) -> (m: BiomeMap)
    requires
        area_ok(area, p1.depth() + 1),
        area_ok(area, p2.depth() + 1),
    ensures
        Layer::holds(
            &m,
            area,
            |x: int, z: int| ocean_mix_value(p1.cell(x, z), p2.cell(x, z), land_around(p1, x, z)),
        ),
    decreases (if p1.depth() >= p2.depth() { p1.depth() } else { p2.depth() }), 1int,
{
    proof {
        lemma_cells_fit_sides(area.w + 64 * (p1.depth() + 1), area.h + 64 * (p1.depth() + 1));
    }
    let land_area = Area { x: area.x - 8, z: area.z - 8, w: area.w + 17, h: area.h + 17 };
    proof {
        lemma_area_ok_below(area, land_area, p1.depth());
        lemma_area_ok_below(area, area, p2.depth());
    }
    let pmap1 = p1.get_map(land_area);
    let pmap2 = p2.get_map(area);
    let m = apply_ocean_mix(&pmap1, &pmap2);
    proof {
        assert forall|i: int, j: int| 0 <= i < area.w && 0 <= j < area.h implies #[trigger] m.cell_at(
            i,
            j,
        ) == ocean_mix_value(
            p1.cell(area.x + i, area.z + j),
            p2.cell(area.x + i, area.z + j),
            land_around(p1, area.x + i, area.z + j),
        ) by {
            lemma_land_near(p1, &pmap1, land_area, i, j);
            assert(pmap1.cell_at(i + 8, j + 8) == p1.cell(
                land_area.x + (i + 8),
                land_area.z + (j + 8),
            ));
            assert(pmap2.cell_at(i, j) == p2.cell(area.x + i, area.z + j));
            assert(land_area.x + i + 8 == area.x + i && land_area.z + j + 8 == area.z + j);
        }
    }
    m
}

/// The value that the last zoom puts into a cell of its map is the value
/// of the zoom over the layer at the coordinates of the cell.
pub proof fn lemma_voronoi_value(kind: Jitter, pmap: &BiomeMap, p: &Layer, parea: Area, a: int, b: int)
    requires
        p.shown_by(pmap, parea),
        0 <= a,
        0 <= b,
        a / 4 + 1 < parea.w,
        b / 4 + 1 < parea.h,
    ensures
        ({
            let x = 4 * parea.x + 2 + a;
            let z = 4 * parea.z + 2 + b;
            voronoi_value(kind, pmap, a, b) == voronoi_pick_at(
                kind,
                x,
                z,
                p.cell((x - 2) / 4, (z - 2) / 4),
                p.cell((x - 2) / 4 + 1, (z - 2) / 4),
                p.cell((x - 2) / 4, (z - 2) / 4 + 1),
                p.cell((x - 2) / 4 + 1, (z - 2) / 4 + 1),
            )
        }),
{
    let x = 4 * parea.x + 2 + a;
    let z = 4 * parea.z + 2 + b;
    let bi = a / 4;
    let bj = b / 4;
    let px = (x - 2) / 4;
    let pz = (z - 2) / 4;
    assert(px == parea.x + bi && (x - 2) % 4 == a % 4);
    assert(pz == parea.z + bj && (z - 2) % 4 == b % 4);
    assert(pmap.cell_at(bi, bj) == p.cell(parea.x + bi, parea.z + bj));
    assert(pmap.cell_at(bi + 1, bj) == p.cell(parea.x + (bi + 1), parea.z + bj));
    assert(pmap.cell_at(bi, bj + 1) == p.cell(parea.x + bi, parea.z + (bj + 1)));
    assert(pmap.cell_at(bi + 1, bj + 1) == p.cell(parea.x + (bi + 1), parea.z + (bj + 1)));
    assert(p.cell(parea.x + bi, parea.z + bj) == p.cell(px, pz));
    assert(p.cell(parea.x + (bi + 1), parea.z + bj) == p.cell(px + 1, pz));
    assert(p.cell(parea.x + bi, parea.z + (bj + 1)) == p.cell(px, pz + 1));
    assert(p.cell(parea.x + (bi + 1), parea.z + (bj + 1)) == p.cell(px + 1, pz + 1));
    assert(((pmap.x + bi) * 4) as i64 == (px * 4) as i64);
    assert(((pmap.z + bj) * 4) as i64 == (pz * 4) as i64);
}

/// The map, over an area, of the last zoom.
pub fn voronoi_layer_map(kind: Jitter, p: &Layer, area: Area) -> (m: BiomeMap)
    requires
        area_ok(area, p.depth() + 1),
    ensures
        Layer::holds(
            &m,
            area,
            |x: int, z: int|
                voronoi_pick_at(
                    kind,
                    x,
                    z,
                    p.cell((x - 2) / 4, (z - 2) / 4),
                    p.cell((x - 2) / 4 + 1, (z - 2) / 4),
                    p.cell((x - 2) / 4, (z - 2) / 4 + 1),
                    p.cell((x - 2) / 4 + 1, (z - 2) / 4 + 1),
                ),
        ),
    decreases p.depth(), 1int,
{
    proof {
        lemma_cells_fit_sides(area.w + 64 * (p.depth() + 1), area.h + 64 * (p.depth() + 1));
    }
    let parea = Area {
        x: floor_quarter(area.x - 2),
        z: floor_quarter(area.z - 2),
        w: area.w / 4 + 3,
        h: area.h / 4 + 3,
    };
    proof {
        lemma_area_ok_below(area, parea, p.depth());
    }
    let pmap = p.get_map(parea);
    let map = apply_voronoi(kind, &pmap);
    let m = slice_to_area(map, area);
    proof {
        assert forall|i: int, j: int| 0 <= i < area.w && 0 <= j < area.h implies #[trigger] m.cell_at(
            i,
            j,
        ) == voronoi_pick_at(
            kind,
            area.x + i,
            area.z + j,
            p.cell((area.x + i - 2) / 4, (area.z + j - 2) / 4),
            p.cell((area.x + i - 2) / 4 + 1, (area.z + j - 2) / 4),
            p.cell((area.x + i - 2) / 4, (area.z + j - 2) / 4 + 1),
            p.cell((area.x + i - 2) / 4 + 1, (area.z + j - 2) / 4 + 1),
        ) by {
            let a = area.x + i - map.x;
            let b = area.z + j - map.z;
            assert(m.cell_at(i, j) == map.cell_at(a, b));
            assert(map.cell_at(a, b) == voronoi_value(kind, &pmap, a, b));
            lemma_voronoi_value(kind, &pmap, p, parea, a, b);
            assert(4 * parea.x + 2 + a == area.x + i && 4 * parea.z + 2 + b == area.z + j);
        }
    }
    m
}

/// The map of the ocean temperatures over an area.
pub fn ocean_temp_map(g: &NoiseGeneratorPerlin, area: Area) -> (m: BiomeMap)
    requires
        area_ok(area, 1),
    ensures
        Layer::holds(&m, area, |x: int, z: int| ocean_class(g@, x as i64, z as i64)),
{
    proof {
        lemma_cells_fit_smaller(area.w as int, area.h as int, area.w + 64, area.h + 64);
        lemma_cells_fit_sides(area.w as int, area.h as int);
    }
    let mut m = BiomeMap::new(area);
    let w = area.w as usize;
    let h = area.h as usize;
    let mut i: usize = 0;
    while i < w
        invariant
            i <= w,
            w == m.w(),
            h == m.h(),
            w == area.w,
            h == area.h,
            m.x == area.x,
            m.z == area.z,
            m.wf(),
            area_ok(area, 1),
            forall|a: int, b: int|
                0 <= b < h && 0 <= a < i ==> #[trigger] m.cell_at(a, b) == ocean_class(
                    g@,
                    (area.x + a) as i64,
                    (area.z + b) as i64,
                ),
        decreases w - i,
    {
        let mut j: usize = 0;
        while j < h
            invariant
                i < w,
                j <= h,
                w == m.w(),
                h == m.h(),
                w == area.w,
                h == area.h,
                m.x == area.x,
                m.z == area.z,
                m.wf(),
                area_ok(area, 1),
                forall|a: int, b: int|
                    0 <= b < h && ((0 <= a < i) || (a == i && b < j)) ==> #[trigger] m.cell_at(a, b)
                        == ocean_class(g@, (area.x + a) as i64, (area.z + b) as i64),
            decreases h - j,
        {
            let v = g.ocean_at(area.x + i as i64, area.z + j as i64);
            m.put(i, j, v);
            j += 1;
        }
        i += 1;
    }
    m
}

} // verus!
