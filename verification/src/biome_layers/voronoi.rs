//! The last zoom: four times as fine, with the borders between the cells
//! of the layer below moved by points that are placed at random in every
//! cell.

use vstd::prelude::*;
use crate::biome_layers::grid::{cells_fit, lemma_cells_fit_sides, lemma_cells_fit_smaller};
use crate::biome_layers::{coord_limit, Area, BiomeMap};
use crate::double::{
    dadd, ddiv, dfrom, dless, dmul, double_difference, double_less, double_of_int,
    double_product, double_quotient, double_sum, dsub, FOUR, HALF, THREE_POINT_SIX, TWO_TO_10,
};
use crate::biome_layers::voronoi115::{hashed_block, hashed_block_value};
use crate::mc_rng::{cell_seed, drawn, mix, McRng};

verus! {

/// How the last zoom places the points of the cells.
#[derive(Copy, Clone, Debug, PartialEq)]
pub enum Jitter {
    /// In the plane, by the generator of the layer.
    Seeded(McRng),
    /// In space, by a hash of the world seed.
    Hashed(i64),
}

/// The four points of a block, as pairs of doubles: `a` in the cell of the
/// layer below at the corner of the block, `b` in the next cell along x,
/// `c` in the next cell along z, `d` in the cell across. Coordinates are
/// in cells of the finer map, from the corner of the block.
#[derive(Copy, Clone, Debug, PartialEq, Eq)]
pub struct VoronoiPoints {
    pub a1: u64,
    pub a2: u64,
    pub b1: u64,
    pub b2: u64,
    pub c1: u64,
    pub c2: u64,
    pub d1: u64,
    pub d2: u64,
}

/// The offset of a point from the corner of its cell: a draw from 0 up to
/// 1024, brought to the range from -1.8 up to 1.8.
pub open spec fn jitter(c: i64) -> u64 {
    double_product(
        double_difference(double_quotient(double_of_int(drawn(c, 1024) as i64), TWO_TO_10), HALF),
        THREE_POINT_SIX,
    )
}

/// The four points of the block whose corner cell has the coordinates
/// `(cx, cz)`, in cells of the finer map.
pub open spec fn voronoi_points(ws: i64, cx: i64, cz: i64) -> VoronoiPoints {
    let ca = cell_seed(ws, cx, cz);
    let cb = cell_seed(ws, (cx + 4) as i64, cz);
    let cc = cell_seed(ws, cx, (cz + 4) as i64);
    let cd = cell_seed(ws, (cx + 4) as i64, (cz + 4) as i64);
    VoronoiPoints {
        a1: jitter(ca),
        a2: jitter(mix(ca, ws)),
        b1: double_sum(jitter(cb), FOUR),
        b2: jitter(mix(cb, ws)),
        c1: jitter(cc),
        c2: double_sum(jitter(mix(cc, ws)), FOUR),
        d1: double_sum(jitter(cd), FOUR),
        d2: double_sum(jitter(mix(cd, ws)), FOUR),
    }
}

/// The square of the distance from the cell `(i, j)` of a block to a
/// point.
pub open spec fn distance_squared(i: i64, j: i64, p1: u64, p2: u64) -> u64 {
    let dz = double_difference(double_of_int(j), p2);
    let dx = double_difference(double_of_int(i), p1);
    double_sum(double_product(dz, dz), double_product(dx, dx))
}

/// Which of four distances is less than the three others: 0 to 2 for the
/// first three, 3 for the last one and where none is.
pub open spec fn nearest(da: u64, db: u64, dc: u64, dd: u64) -> int {
    if double_less(da, db) && double_less(da, dc) && double_less(da, dd) {
        0
    } else if double_less(db, da) && double_less(db, dc) && double_less(db, dd) {
        1
    } else if double_less(dc, da) && double_less(dc, db) && double_less(dc, dd) {
        2
    } else {
        3
    }
}

/// The value of the cell `(i, j)` of a block: that of the cell of the
/// layer below whose point is nearest.
pub open spec fn voronoi_pick(
    p: VoronoiPoints,
    i: i64,
    j: i64,
    v00: i32,
    v10: i32,
    v01: i32,
    v11: i32,
) -> i32 {
    let n = nearest(
        distance_squared(i, j, p.a1, p.a2),
        distance_squared(i, j, p.b1, p.b2),
        distance_squared(i, j, p.c1, p.c2),
        distance_squared(i, j, p.d1, p.d2),
    );
    if n == 0 {
        v00
    } else if n == 1 {
        v10
    } else if n == 2 {
        v01
    } else {
        v11
    }
}

/// The value of the cell `(i, j)` of the block whose corner cell has the
/// coordinates `(cx, cz)`.
pub open spec fn voronoi_block_value(
    kind: Jitter,
    cx: i64,
    cz: i64,
    i: i64,
    j: i64,
    v00: i32,
    v10: i32,
    v01: i32,
    v11: i32,
) -> i32 {
    match kind {
        Jitter::Seeded(r) => seeded_block_value(r.world(), cx, cz, i, j, v00, v10, v01, v11),
        Jitter::Hashed(h) => hashed_block_value(h, cx, cz, i, j, v00, v10, v01, v11),
    }
}

/// The value of the cell `(i, j)` of the block whose corner cell has the
/// coordinates `(cx, cz)`, with points in the plane.
pub open spec fn seeded_block_value(
    ws: i64,
    cx: i64,
    cz: i64,
    i: i64,
    j: i64,
    v00: i32,
    v10: i32,
    v01: i32,
    v11: i32,
) -> i32 {
    if v00 == v01 && v00 == v10 && v00 == v11 {
        v00
    } else {
        voronoi_pick(voronoi_points(ws, cx, cz), i, j, v00, v10, v01, v11)
    }
}

fn draw_jitter(r: &mut McRng) -> (d: u64)
    ensures
        d == jitter(old(r).chunk()),
        final(r).world() == old(r).world(),
        final(r).chunk() == mix(old(r).chunk(), old(r).world()),
{
    let n = r.next_int_n(1024);
    dmul(dsub(ddiv(dfrom(n as i64), TWO_TO_10), HALF), THREE_POINT_SIX)
}

/// The four points of the block whose corner cell has the coordinates
/// `(cx, cz)`.
pub fn place_points(r: &mut McRng, cx: i64, cz: i64) -> (p: VoronoiPoints)
    requires
        cx + 4 <= i64::MAX,
        cz + 4 <= i64::MAX,
    ensures
        p == voronoi_points(old(r).world(), cx, cz),
        final(r).world() == old(r).world(),
{
    // Each of the four points lies in a square of side 3.6 around the
    // corner of its cell.
    r.set_chunk_seed(cx, cz);
    let a1 = draw_jitter(r);
    let a2 = draw_jitter(r);
    r.set_chunk_seed(cx + 4, cz);
    let b1 = dadd(draw_jitter(r), FOUR);
    let b2 = draw_jitter(r);
    r.set_chunk_seed(cx, cz + 4);
    let c1 = draw_jitter(r);
    let c2 = dadd(draw_jitter(r), FOUR);
    r.set_chunk_seed(cx + 4, cz + 4);
    let d1 = dadd(draw_jitter(r), FOUR);
    let d2 = dadd(draw_jitter(r), FOUR);
    VoronoiPoints { a1, a2, b1, b2, c1, c2, d1, d2 }
}

fn distance_to(i: i64, j: i64, p1: u64, p2: u64) -> (d: u64)
    ensures
        d == distance_squared(i, j, p1, p2),
{
    let dz = dsub(dfrom(j), p2);
    let dx = dsub(dfrom(i), p1);
    dadd(dmul(dz, dz), dmul(dx, dx))
}

/// The value of the cell `(i, j)` of a block whose four points are placed.
pub fn pick_nearest(p: &VoronoiPoints, i: i64, j: i64, v00: i32, v10: i32, v01: i32, v11: i32) -> (v:
    i32)
    ensures
        v == voronoi_pick(*p, i, j, v00, v10, v01, v11),
{
    // The distance from (i, j) to each point.
    let da = distance_to(i, j, p.a1, p.a2);
    let db = distance_to(i, j, p.b1, p.b2);
    let dc = distance_to(i, j, p.c1, p.c2);
    let dd = distance_to(i, j, p.d1, p.d2);
    // The value of the nearest point.
    if dless(da, db) && dless(da, dc) && dless(da, dd) {
        v00
    } else if dless(db, da) && dless(db, dc) && dless(db, dd) {
        v10
    } else if dless(dc, da) && dless(dc, db) && dless(dc, dd) {
        v01
    } else {
        v11
    }
}

/// The value that the zoom puts into the cell with the index `(i, j)`.
pub open spec fn voronoi_value(kind: Jitter, p: &BiomeMap, i: int, j: int) -> i32 {
    let bi = i / 4;
    let bj = j / 4;
    voronoi_block_value(
        kind,
        ((p.x + bi) * 4) as i64,
        ((p.z + bj) * 4) as i64,
        (i % 4) as i64,
        (j % 4) as i64,
        p.cell_at(bi, bj),
        p.cell_at(bi + 1, bj),
        p.cell_at(bi, bj + 1),
        p.cell_at(bi + 1, bj + 1),
    )
}

/// The value that the zoom puts into a cell, by the index of its block and
/// its place in the block.
pub proof fn lemma_voronoi_value_in_block(kind: Jitter, p: &BiomeMap, x: int, z: int, a: int, b: int)
    requires
        0 <= x,
        0 <= z,
        a / 4 == x,
        b / 4 == z,
        0 <= a,
        0 <= b,
    ensures
        voronoi_value(kind, p, a, b) == voronoi_block_value(
            kind,
            ((p.x + x) * 4) as i64,
            ((p.z + z) * 4) as i64,
            (a % 4) as i64,
            (b % 4) as i64,
            p.cell_at(x, z),
            p.cell_at(x + 1, z),
            p.cell_at(x, z + 1),
            p.cell_at(x + 1, z + 1),
        ),
{
}

/// The sixteen values of a block, rows along x first.
pub fn seeded_block(
    r: &mut McRng,
    cx: i64,
    cz: i64,
    v00: i32,
    v10: i32,
    v01: i32,
    v11: i32,
) -> (vals: Vec<i32>)
    requires
        cx + 4 <= i64::MAX,
        cz + 4 <= i64::MAX,
    ensures
        vals.len() == 16,
        forall|k: int|
            0 <= k < 16 ==> #[trigger] vals[k] == seeded_block_value(
                old(r).world(),
                cx,
                cz,
                (k % 4) as i64,
                (k / 4) as i64,
                v00,
                v10,
                v01,
                v11,
            ),
        final(r).world() == old(r).world(),
{
    let ghost ws = r.world();
    let same = v00 == v01 && v00 == v10 && v00 == v11;
    // Where the four values are one, no point needs to be placed.
    let pts = if same {
        VoronoiPoints { a1: 0, a2: 0, b1: 0, b2: 0, c1: 0, c2: 0, d1: 0, d2: 0 }
    } else {
        place_points(r, cx, cz)
    };
    let mut vals: Vec<i32> = Vec::new();
    let mut k: usize = 0;
    while k < 16
        invariant
            k <= 16,
            vals.len() == k,
            same == (v00 == v01 && v00 == v10 && v00 == v11),
            !same ==> pts == voronoi_points(ws, cx, cz),
            forall|n: int|
                0 <= n < k ==> #[trigger] vals[n] == seeded_block_value(
                    ws,
                    cx,
                    cz,
                    (n % 4) as i64,
                    (n / 4) as i64,
                    v00,
                    v10,
                    v01,
                    v11,
                ),
        decreases 16 - k,
    {
        let i = k % 4;
        let j = k / 4;
        let v = if same {
            v00
        } else {
            pick_nearest(&pts, i as i64, j as i64, v00, v10, v01, v11)
        };
        vals.push(v);
        k += 1;
    }
    vals
}

/// The sixteen values of a block, rows along x first.
pub fn voronoi_block(
    kind: Jitter,
    cx: i64,
    cz: i64,
    v00: i32,
    v10: i32,
    v01: i32,
    v11: i32,
) -> (vals: Vec<i32>)
    requires
        cx + 4 <= i64::MAX,
        cz + 4 <= i64::MAX,
        cx % 4 == 0,
        cz % 4 == 0,
    ensures
        vals.len() == 16,
        forall|k: int|
            0 <= k < 16 ==> #[trigger] vals[k] == voronoi_block_value(
                kind,
                cx,
                cz,
                (k % 4) as i64,
                (k / 4) as i64,
                v00,
                v10,
                v01,
                v11,
            ),
{
    match kind {
        Jitter::Seeded(r) => {
            let mut r = r;
            seeded_block(&mut r, cx, cz, v00, v10, v01, v11)
        },
        Jitter::Hashed(h) => hashed_block(h, cx, cz, v00, v10, v01, v11),
    }
}

/// Puts sixteen values, rows along x first, into the cells of the block
/// with the index `(x, z)`.
pub fn put_quad(m: &mut BiomeMap, x: usize, z: usize, vals: &Vec<i32>)
    requires
        vals.len() == 16,
        4 * x + 3 < old(m).w(),
        4 * z + 3 < old(m).h(),
        old(m).wf(),
    ensures
        final(m).x == old(m).x,
        final(m).z == old(m).z,
        final(m).w() == old(m).w(),
        final(m).h() == old(m).h(),
        forall|a: int, b: int|
            0 <= a && 0 <= b ==> #[trigger] final(m).cell_at(a, b) == if a / 4 == x && b / 4 == z {
                vals[(b % 4) * 4 + a % 4]
            } else {
                old(m).cell_at(a, b)
            },
{
    let ghost before = *m;
    let mut k: usize = 0;
    while k < 16
        invariant
            k <= 16,
            vals.len() == 16,
            4 * x + 3 < m.w(),
            4 * z + 3 < m.h(),
            m.x == before.x,
            m.z == before.z,
            m.w() == before.w(),
            m.h() == before.h(),
            m.wf(),
            forall|a: int, b: int|
                0 <= a && 0 <= b ==> #[trigger] m.cell_at(a, b) == if a / 4 == x && b / 4 == z && (b
                    % 4) * 4 + a % 4 < k {
                    vals[(b % 4) * 4 + a % 4]
                } else {
                    before.cell_at(a, b)
                },
        decreases 16 - k,
    {
        proof {
            lemma_cells_fit_sides(m.w() as int, m.h() as int);
        }
        let i = k % 4;
        let j = k / 4;
        m.put(4 * x + i, 4 * z + j, vals[k]);
        k += 1;
    }
}

/// Whether every cell of `m` in a block before the block `(bi, bj)`,
/// columns of blocks first, holds the value that `f` gives for its index.
pub open spec fn quads_filled_to(m: &BiomeMap, bi: int, bj: int, f: spec_fn(int, int) -> i32) -> bool {
    forall|a: int, b: int|
        0 <= a < m.w() && 0 <= b < m.h() && ((a / 4 < bi) || (a / 4 == bi && b / 4 < bj))
            ==> #[trigger] m.cell_at(a, b) == f(a, b)
}

/// The map of the zoom: four times as fine as the map below, without the
/// blocks of its last column and row, and two cells further along both
/// axes.
pub fn apply_voronoi(kind: Jitter, pmap: &BiomeMap) -> (m: BiomeMap)
    requires
        pmap.wf(),
        pmap.w() >= 1,
        pmap.h() >= 1,
        pmap.within(coord_limit()),
        cells_fit(4 * (pmap.w() as int), 4 * (pmap.h() as int)),
    ensures
        m.wf(),
        m.x == 4 * pmap.x + 2,
        m.z == 4 * pmap.z + 2,
        m.w() == 4 * (pmap.w() - 1),
        m.h() == 4 * (pmap.h() - 1),
        forall|i: int, j: int|
            0 <= i < m.w() && 0 <= j < m.h() ==> #[trigger] m.cell_at(i, j) == voronoi_value(
                kind,
                pmap,
                i,
                j,
            ),
{
    let (p_w, p_h) = pmap.dim();
    proof {
        lemma_cells_fit_sides(4 * (pmap.w() as int), 4 * (pmap.h() as int));
        lemma_cells_fit_smaller(
            4 * (pmap.w() - 1),
            4 * (pmap.h() - 1),
            4 * (pmap.w() as int),
            4 * (pmap.h() as int),
        );
    }
    let area = Area {
        x: pmap.x * 4 + 2,
        z: pmap.z * 4 + 2,
        w: ((p_w - 1) * 4) as u64,
        h: ((p_h - 1) * 4) as u64,
    };
    let mut m = BiomeMap::new(area);
    let ghost f = |a: int, b: int| voronoi_value(kind, pmap, a, b);
    let bw = p_w - 1;
    let bh = p_h - 1;
    let mut x: usize = 0;
    while x < bw
        invariant
            x <= bw,
            bw + 1 == pmap.w(),
            bh + 1 == pmap.h(),
            m.w() == 4 * bw,
            m.h() == 4 * bh,
            m.x == 4 * pmap.x + 2,
            m.z == 4 * pmap.z + 2,
            m.wf(),
            pmap.wf(),
            pmap.within(coord_limit()),
            f == (|a: int, b: int| voronoi_value(kind, pmap, a, b)),
            quads_filled_to(&m, x as int, 0, f),
        decreases bw - x,
    {
        let mut z: usize = 0;
        while z < bh
            invariant
                x < bw,
                z <= bh,
                bw + 1 == pmap.w(),
                bh + 1 == pmap.h(),
                m.w() == 4 * bw,
                m.h() == 4 * bh,
                m.x == 4 * pmap.x + 2,
                m.z == 4 * pmap.z + 2,
                m.wf(),
                pmap.wf(),
                pmap.within(coord_limit()),
                    f == (|a: int, b: int| voronoi_value(kind, pmap, a, b)),
                quads_filled_to(&m, x as int, z as int, f),
            decreases bh - z,
        {
            proof {
                lemma_cells_fit_sides(pmap.w() as int, pmap.h() as int);
                lemma_cells_fit_sides(m.w() as int, m.h() as int);
            }
            let v00 = pmap.at(x, z);
            let v10 = pmap.at(x + 1, z);
            let v01 = pmap.at(x, z + 1);
            let v11 = pmap.at(x + 1, z + 1);
            let cx = (x as i64 + pmap.x) * 4;
            let cz = (z as i64 + pmap.z) * 4;
            let vals = voronoi_block(kind, cx, cz, v00, v10, v01, v11);
            let ghost before = m;
            put_quad(&mut m, x, z, &vals);
            proof {
                assert forall|a: int, b: int|
                    0 <= a < m.w() && 0 <= b < m.h() && ((a / 4 < x) || (a / 4 == x && b / 4 < z
                        + 1)) implies #[trigger] m.cell_at(a, b) == f(a, b) by {
                    if a / 4 == x && b / 4 == z {
                        let k = (b % 4) * 4 + a % 4;
                        assert(k % 4 == a % 4 && k / 4 == b % 4);
                        assert(m.cell_at(a, b) == vals[k]);
                        lemma_voronoi_value_in_block(kind, pmap, x as int, z as int, a, b);
                    } else {
                        assert(before.cell_at(a, b) == f(a, b));
                    }
                }
            }
            z += 1;
        }
        x += 1;
    }
    m
}

/// The value that the half zoom puts into the cell with the index
/// `(i, j)`: every other cell of the full zoom along both axes.
pub open spec fn half_voronoi_value(r: McRng, p: &BiomeMap, i: int, j: int) -> i32 {
    voronoi_value(Jitter::Seeded(r), p, 2 * i, 2 * j)
}

/// Every other cell of a map along both axes, from its first cell, as a
/// map with the given coordinates of its first cell.
pub fn every_other(vmap: &BiomeMap, x: i64, z: i64) -> (m: BiomeMap)
    requires
        vmap.wf(),
    ensures
        m.wf(),
        m.x == x,
        m.z == z,
        m.w() == vmap.w() / 2,
        m.h() == vmap.h() / 2,
        forall|i: int, j: int|
            0 <= i < m.w() && 0 <= j < m.h() ==> #[trigger] m.cell_at(i, j) == vmap.cell_at(
                2 * i,
                2 * j,
            ),
{
    let (vw, vh) = vmap.dim();
    proof {
        lemma_cells_fit_sides(vmap.w() as int, vmap.h() as int);
        lemma_cells_fit_smaller(
            vmap.w() as int / 2,
            vmap.h() as int / 2,
            vmap.w() as int,
            vmap.h() as int,
        );
    }
    let marea = Area { x, z, w: (vw / 2) as u64, h: (vh / 2) as u64 };
    let mut m = BiomeMap::new(marea);
    let w = vw / 2;
    let h = vh / 2;
    let mut i: usize = 0;
    while i < w
        invariant
            i <= w,
            w == m.w(),
            h == m.h(),
            2 * w <= vmap.w(),
            2 * h <= vmap.h(),
            m.x == x,
            m.z == z,
            m.wf(),
            vmap.wf(),
            forall|a: int, b: int|
                0 <= b < h && 0 <= a < i ==> #[trigger] m.cell_at(a, b) == vmap.cell_at(
                    2 * a,
                    2 * b,
                ),
        decreases w - i,
    {
        let mut j: usize = 0;
        while j < h
            invariant
                i < w,
                j <= h,
                w == m.w(),
                h == m.h(),
                2 * w <= vmap.w(),
                2 * h <= vmap.h(),
                m.x == x,
                m.z == z,
                m.wf(),
                vmap.wf(),
                forall|a: int, b: int|
                    0 <= b < h && ((0 <= a < i) || (a == i && b < j)) ==> #[trigger] m.cell_at(a, b)
                        == vmap.cell_at(2 * a, 2 * b),
            decreases h - j,
        {
            proof {
                lemma_cells_fit_sides(vmap.w() as int, vmap.h() as int);
            }
            m.put(i, j, vmap.at(i * 2, j * 2));
            j += 1;
        }
        i += 1;
    }
    m
}

/// The map of the half zoom: every other cell of the full zoom, twice as
/// fine as the map below.
pub fn apply_half_voronoi(r: McRng, pmap: &BiomeMap) -> (m: BiomeMap)
    requires
        pmap.wf(),
        pmap.w() >= 1,
        pmap.h() >= 1,
        pmap.within(coord_limit()),
        cells_fit(4 * (pmap.w() as int), 4 * (pmap.h() as int)),
    ensures
        m.wf(),
        m.x == 2 * pmap.x + 1,
        m.z == 2 * pmap.z + 1,
        m.w() == 2 * (pmap.w() - 1),
        m.h() == 2 * (pmap.h() - 1),
        forall|i: int, j: int|
            0 <= i < m.w() && 0 <= j < m.h() ==> #[trigger] m.cell_at(i, j) == half_voronoi_value(
                r,
                pmap,
                i,
                j,
            ),
{
    // Apply the full zoom and keep every other cell.
    let vmap = apply_voronoi(Jitter::Seeded(r), pmap);
    let m = every_other(&vmap, pmap.x * 2 + 1, pmap.z * 2 + 1);
    proof {
        assert forall|i: int, j: int| 0 <= i < m.w() && 0 <= j < m.h() implies #[trigger] m.cell_at(
            i,
            j,
        ) == half_voronoi_value(r, pmap, i, j) by {
            assert(m.cell_at(i, j) == vmap.cell_at(2 * i, 2 * j));
        }
    }
    m
}

} // verus!
