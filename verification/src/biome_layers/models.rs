//! Maps as values of specifications: what a map holds, apart from the
//! array that holds it.

use vstd::prelude::*;
use crate::biome_layers::cells::{river_all_value, Stencil};
use crate::biome_layers::grid::lemma_cells_fit_sides;
use crate::biome_layers::layers::Layer;
use crate::biome_layers::voronoi::{voronoi_block_value, Jitter};
use crate::biome_layers::{Area, BiomeMap};
use crate::mc_rng::McRng;

verus! {

/// What a map holds: the coordinates of its first cell, its lengths, and
/// the values of its cells by index.
pub struct MapModel {
    pub x: int,
    pub z: int,
    pub w: nat,
    pub h: nat,
    pub cells: Map<(int, int), i32>,
}

impl MapModel {
    /// The value of the cell with the index `(i, j)`.
    pub open spec fn at(self, i: int, j: int) -> i32 {
        self.cells[(i, j)]
    }

    /// The area that the map covers.
    pub open spec fn area(self) -> Area {
        Area { x: self.x as i64, z: self.z as i64, w: self.w as u64, h: self.h as u64 }
    }
}

/// The map with the given first cell and lengths whose cell with the
/// index `(i, j)` holds `f(i, j)`.
pub open spec fn grid_model(x: int, z: int, w: nat, h: nat, f: spec_fn(int, int) -> i32) -> MapModel {
    MapModel {
        x,
        z,
        w,
        h,
        cells: Map::new(
            |p: (int, int)| 0 <= p.0 < w && 0 <= p.1 < h,
            |p: (int, int)| f(p.0, p.1),
        ),
    }
}

/// The map of a layer over an area.
pub open spec fn layer_model(l: Layer, a: Area) -> MapModel {
    grid_model(
        a.x as int,
        a.z as int,
        a.w as nat,
        a.h as nat,
        |i: int, j: int| l.cell(a.x + i, a.z + j),
    )
}

/// Two maps of the same lengths at the same place whose cells agree are
/// one map.
pub proof fn lemma_same_model(a: MapModel, b: MapModel)
    requires
        a.x == b.x,
        a.z == b.z,
        a.w == b.w,
        a.h == b.h,
        a.cells.dom() =~= b.cells.dom(),
        forall|i: int, j: int| 0 <= i < a.w && 0 <= j < a.h ==> a.at(i, j) == b.at(i, j),
        forall|p: (int, int)| a.cells.dom().contains(p) <==> 0 <= p.0 < a.w && 0 <= p.1 < a.h,
    ensures
        a == b,
{
    assert forall|p: (int, int)| a.cells.dom().contains(p) implies a.cells[p] == b.cells[p] by {
        assert(a.at(p.0, p.1) == b.at(p.0, p.1));
    }
    assert(a.cells =~= b.cells);
}

/// A map whose cells hold what `f` gives is the map that `f` makes.
pub proof fn lemma_model_of(m: &BiomeMap, f: spec_fn(int, int) -> i32)
    requires
        forall|i: int, j: int| 0 <= i < m.w() && 0 <= j < m.h() ==> m.cell_at(i, j) == f(i, j),
    ensures
        m@ == grid_model(m.x as int, m.z as int, m.w(), m.h(), f),
{
    lemma_same_model(m@, grid_model(m.x as int, m.z as int, m.w(), m.h(), f));
}

/// A map that shows a layer over an area is the map of the layer over the
/// area.
pub proof fn lemma_model_of_layer(l: Layer, m: &BiomeMap, a: Area)
    requires
        l.shown_by(m, a),
    ensures
        m@ == layer_model(l, a),
{
    lemma_cells_fit_sides(m.w() as int, m.h() as int);
    lemma_model_of(m, |i: int, j: int| l.cell(a.x + i, a.z + j));
}

/// The nine cells of a map whose indices begin at `(i, j)`.
pub open spec fn stencil_of(p: MapModel, i: int, j: int) -> Stencil {
    Stencil {
        v00: p.at(i, j),
        v10: p.at(i + 1, j),
        v20: p.at(i + 2, j),
        v01: p.at(i, j + 1),
        v11: p.at(i + 1, j + 1),
        v21: p.at(i + 2, j + 1),
        v02: p.at(i, j + 2),
        v12: p.at(i + 1, j + 2),
        v22: p.at(i + 2, j + 2),
    }
}

/// The edges of a map: a river wherever a cell differs from one of the
/// four cells beside it, and -1 elsewhere. The map of the edges is one
/// cell smaller on every side.
pub open spec fn edge_model(p: MapModel) -> MapModel {
    grid_model(
        p.x + 1,
        p.z + 1,
        (p.w - 2) as nat,
        (p.h - 2) as nat,
        |i: int, j: int| river_all_value(stencil_of(p, i, j)),
    )
}

/// The value that the last zoom puts into the cell with the index
/// `(i, j)` of its map, from the map of the layer below.
pub open spec fn voronoi_value_of(kind: Jitter, p: MapModel, i: int, j: int) -> i32 {
    let bi = i / 4;
    let bj = j / 4;
    voronoi_block_value(
        kind,
        ((p.x + bi) * 4) as i64,
        ((p.z + bj) * 4) as i64,
        (i % 4) as i64,
        (j % 4) as i64,
        p.at(bi, bj),
        p.at(bi + 1, bj),
        p.at(bi, bj + 1),
        p.at(bi + 1, bj + 1),
    )
}

/// The map that the last zoom makes of a map: four times as fine, without
/// the blocks of the last column and row.
pub open spec fn voronoi_model(kind: Jitter, p: MapModel) -> MapModel {
    grid_model(
        4 * p.x + 2,
        4 * p.z + 2,
        (4 * (p.w - 1)) as nat,
        (4 * (p.h - 1)) as nat,
        |i: int, j: int| voronoi_value_of(kind, p, i, j),
    )
}

/// The part of a map that covers the rectangle with the first cell
/// `(x, z)` and the lengths `w` and `h`.
pub open spec fn slice_model(m: MapModel, x: int, z: int, w: nat, h: nat) -> MapModel {
    grid_model(x, z, w, h, |i: int, j: int| m.at(x + i - m.x, z + j - m.z))
}

/// The map that the last zoom at half its scale makes of a map: every
/// other cell of the map of the last zoom.
pub open spec fn half_voronoi_model(r: McRng, p: MapModel) -> MapModel {
    grid_model(
        2 * p.x + 1,
        2 * p.z + 1,
        (2 * (p.w - 1)) as nat,
        (2 * (p.h - 1)) as nat,
        |i: int, j: int| voronoi_value_of(Jitter::Seeded(r), p, 2 * i, 2 * j),
    )
}

/// The map below a map of the last zoom at half its scale: the cells at
/// odd coordinates.
pub open spec fn reverse_half_voronoi_model(m: MapModel) -> MapModel {
    grid_model(
        m.x / 2,
        m.z / 2,
        m.w / 2,
        m.h / 2,
        |i: int, j: int| m.at(1 - m.x % 2 + 2 * i, 1 - m.z % 2 + 2 * j),
    )
}

/// What is counted when two maps are laid over each other.
#[derive(Copy, Clone, Debug, PartialEq, Eq, Structural)]
pub enum Tally {
    /// The rivers of the first map.
    First,
    /// The rivers of the second map that the first map has too.
    Both,
    /// The rivers that only one of the two maps has.
    One,
}

/// Whether a pair of values, of the same cell in two maps, is counted.
pub open spec fn hit(kind: Tally, va: i32, vb: i32) -> bool {
    match kind {
        Tally::First => va == 7,
        Tally::Both => vb == 7 && va == vb,
        Tally::One => (va == 7 || vb == 7) && !(va == 7 && va == vb),
    }
}

/// The number of cells that are counted among the first `j` cells of the
/// column `i` of two maps.
pub open spec fn tally_column(kind: Tally, a: MapModel, b: MapModel, i: int, j: nat) -> nat
    decreases j,
{
    if j == 0 {
        0
    } else {
        tally_column(kind, a, b, i, (j - 1) as nat) + if hit(kind, a.at(i, j - 1), b.at(i, j - 1)) {
            1nat
        } else {
            0nat
        }
    }
}

/// The number of cells that are counted in the first `i` columns of two
/// maps of the same lengths.
pub open spec fn tally_columns(kind: Tally, a: MapModel, b: MapModel, i: nat) -> nat
    decreases i,
{
    if i == 0 {
        0
    } else {
        tally_columns(kind, a, b, (i - 1) as nat) + tally_column(kind, a, b, i - 1, a.h)
    }
}

/// The number of cells that are counted in two maps of the same lengths.
pub open spec fn tally(kind: Tally, a: MapModel, b: MapModel) -> nat {
    tally_columns(kind, a, b, a.w)
}

/// No more cells are counted in a column than it has.
pub proof fn lemma_tally_column_bound(kind: Tally, a: MapModel, b: MapModel, i: int, j: nat)
    ensures
        tally_column(kind, a, b, i, j) <= j,
    decreases j,
{
    if j > 0 {
        lemma_tally_column_bound(kind, a, b, i, (j - 1) as nat);
    }
}

/// No more cells are counted in columns than they have.
pub proof fn lemma_tally_bound(kind: Tally, a: MapModel, b: MapModel, i: nat)
    ensures
        tally_columns(kind, a, b, i) <= i * a.h,
    decreases i,
{
    if i > 0 {
        lemma_tally_bound(kind, a, b, (i - 1) as nat);
        lemma_tally_column_bound(kind, a, b, i - 1, a.h);
        assert((i - 1) * a.h + a.h == i * a.h) by (nonlinear_arith);
    }
}

/// The number of cells that are counted in two maps of the same lengths.
pub fn tally_cells(kind: Tally, a: &BiomeMap, b: &BiomeMap) -> (n: u64)
    requires
        a.wf(),
        a.w() == b.w(),
        a.h() == b.h(),
    ensures
        n == tally(kind, a@, b@),
        n <= a.w() * a.h(),
{
    let (w, h) = a.dim();
    proof {
        lemma_cells_fit_sides(a.w() as int, a.h() as int);
        assert(w * h <= (w + 1) * (h + 1)) by (nonlinear_arith);
    }
    let mut n: u64 = 0;
    let mut i: usize = 0;
    while i < w
        invariant
            i <= w,
            w == a.w(),
            h == a.h(),
            w == b.w(),
            h == b.h(),
            w * h * 8 <= isize::MAX,
            n == tally_columns(kind, a@, b@, i as nat),
        decreases w - i,
    {
        let mut j: usize = 0;
        while j < h
            invariant
                i < w,
                j <= h,
                w == a.w(),
                h == a.h(),
                w == b.w(),
                h == b.h(),
                w * h * 8 <= isize::MAX,
                n == tally_columns(kind, a@, b@, i as nat) + tally_column(
                    kind,
                    a@,
                    b@,
                    i as int,
                    j as nat,
                ),
            decreases h - j,
        {
            proof {
                lemma_tally_bound(kind, a@, b@, i as nat);
                lemma_tally_column_bound(kind, a@, b@, i as int, j as nat);
                assert(i * h + j < w * h) by (nonlinear_arith)
                    requires
                        i < w,
                        j < h,
                ;
            }
            let va = a.at(i, j);
            let vb = b.at(i, j);
            let counted = match kind {
                Tally::First => va == 7,
                Tally::Both => vb == 7 && va == vb,
                Tally::One => (va == 7 || vb == 7) && !(va == 7 && va == vb),
            };
            if counted {
                n += 1;
            }
            j += 1;
        }
        i += 1;
    }
    proof {
        lemma_tally_bound(kind, a@, b@, w as nat);
    }
    n
}

} // verus!
