//! The limits within which the library works, as tests that a caller can
//! make before it asks for a map or a search.

use vstd::prelude::*;
use crate::biome_layers::finder::{point_ok, points_ok};
use crate::biome_layers::grid::cells_fit;
use crate::biome_layers::image::fragment_ok;
use crate::biome_layers::layers::area_ok;
use crate::biome_layers::pipeline::depth_limit;
use crate::biome_layers::refine::{sightings_ok, Sighting};
use crate::biome_layers::treasure::{
    river_points_of, scaled_cell, treasure_area_ok, treasure_map_ok,
};
use crate::biome_layers::{coord_limit, rect_within, Area, BiomeMap};
use crate::seed_info::Point;

verus! {

/// Whether a map of `w` by `h` cells fits.
pub fn cells_can_fit(w: u64, h: u64) -> (r: bool)
    ensures
        r == cells_fit(w as int, h as int),
{
    if w >= 0x1000_0000_0000_0000 || h >= 0x1000_0000_0000_0000 {
        assert((w + 1) * (h + 1) * 8 > isize::MAX) by (nonlinear_arith)
            requires
                w >= 0x1000_0000_0000_0000 || h >= 0x1000_0000_0000_0000,
                w >= 0,
                h >= 0,
        ;
        return false;
    }
    assert((w + 1) * (h + 1) <= 0x1000_0000_0000_0000 * 0x1000_0000_0000_0000) by (nonlinear_arith)
        requires
            w < 0x1000_0000_0000_0000,
            h < 0x1000_0000_0000_0000,
    ;
    (w as u128 + 1) * (h as u128 + 1) * 8 <= isize::MAX as u128
}

/// Whether a rectangle lies within the distance `r` from the origin.
pub fn lies_within(x: i64, z: i64, w: u64, h: u64, r: i64) -> (b: bool)
    ensures
        b == rect_within(x as int, z as int, w as int, h as int, r as int),
{
    -(r as i128) <= x as i128 && x as i128 + w as i128 <= r as i128 && -(r as i128) <= z as i128
        && z as i128 + h as i128 <= r as i128
}

/// Whether an area can be asked of a layer with `d` layers on its longest
/// way down.
pub fn area_fits(a: Area, d: u16) -> (r: bool)
    ensures
        r == area_ok(a, d as nat),
{
    let spare: u64 = 64 * (d as u64);
    if a.w > u64::MAX - spare || a.h > u64::MAX - spare {
        assert((a.w + spare + 1) * (a.h + spare + 1) * 8 > isize::MAX) by (nonlinear_arith)
            requires
                a.w + spare > u64::MAX || a.h + spare > u64::MAX,
                a.w >= 0,
                a.h >= 0,
                spare >= 0,
        ;
        return false;
    }
    lies_within(a.x, a.z, a.w, a.h, 0x1000_0000_0000_0000 - spare as i64) && cells_can_fit(
        a.w + spare,
        a.h + spare,
    )
}

/// Whether the world can be generated over an area.
pub fn can_generate(a: Area) -> (r: bool)
    ensures
        r == area_ok(a, depth_limit()),
{
    area_fits(a, 64)
}

/// Whether a treasure map of an area can be asked for.
pub fn treasure_area_fits(a: Area) -> (r: bool)
    ensures
        r == treasure_area_ok(a),
{
    if a.w >= 0x1000_0000_0000_0000 || a.h >= 0x1000_0000_0000_0000 {
        assert((2 * a.w + 8192 + 1) * (2 * a.h + 8192 + 1) * 8 > isize::MAX) by (nonlinear_arith)
            requires
                a.w >= 0x1000_0000_0000_0000 || a.h >= 0x1000_0000_0000_0000,
                a.w >= 0,
                a.h >= 0,
        ;
        return false;
    }
    lies_within(a.x, a.z, a.w, a.h, 0x1000_0000_0000_0000 - 8192) && cells_can_fit(
        2 * a.w + 8192,
        2 * a.h + 8192,
    )
}

/// Whether the treasure map of a fragment can be asked for.
pub fn fragment_fits(fx: i64, fz: i64) -> (r: bool)
    ensures
        r == fragment_ok(fx, fz),
{
    let limit: i128 = 0x1000_0000_0000_0000 - 8192;
    -limit <= fx as i128 * 256 - 64 && fx as i128 * 256 + 192 <= limit && -limit <= fz as i128
        * 256 - 64 && fz as i128 * 256 + 192 <= limit
}

/// Whether a point lies where the search can ask for maps around it.
pub fn point_fits(p: Point) -> (r: bool)
    ensures
        r == point_ok(p),
{
    let limit: i64 = 0x1000_0000_0000_0000 - 8192;
    -limit < p.0 && p.0 < limit && -limit < p.1 && p.1 < limit
}

/// Whether the points lie within the limit of the coordinates.
pub fn points_fit(points: &[Point]) -> (r: bool)
    ensures
        r == points_ok(points@),
{
    let limit: i64 = 0x1000_0000_0000_0000;
    let mut k: usize = 0;
    while k < points.len()
        invariant
            k <= points.len(),
            limit == coord_limit(),
            forall|n: int|
                0 <= n < k ==> -coord_limit() < (#[trigger] points[n]).0 < coord_limit()
                    && -coord_limit() < points[n].1 < coord_limit(),
        decreases points.len() - k,
    {
        let p = points[k];
        if !(-limit < p.0 && p.0 < limit && -limit < p.1 && p.1 < limit) {
            return false;
        }
        k += 1;
    }
    true
}

/// Whether the sightings lie where the generation can be asked for them.
pub fn sightings_fit(extras: &[Sighting]) -> (r: bool)
    ensures
        r == sightings_ok(extras@),
{
    let limit: i64 = 0x1000_0000_0000_0000 - 8192;
    let mut k: usize = 0;
    while k < extras.len()
        invariant
            k <= extras.len(),
            limit == coord_limit() - 8192,
            forall|n: int|
                0 <= n < k ==> -(coord_limit() - 8192) < (#[trigger] extras[n]).1 < coord_limit()
                    - 8192 && -(coord_limit() - 8192) < extras[n].2 < coord_limit() - 8192,
        decreases extras.len() - k,
    {
        let e = extras[k];
        if !(-limit < e.1 && e.1 < limit && -limit < e.2 && e.2 < limit) {
            return false;
        }
        k += 1;
    }
    true
}

/// Whether a treasure map is one that the search can work on.
pub fn treasure_map_fits(m: &BiomeMap) -> (r: bool)
    ensures
        r == treasure_map_ok(m),
{
    let (w, h) = m.dim();
    if !cells_can_fit(w as u64, h as u64) {
        return false;
    }
    if !lies_within(m.x, m.z, w as u64, h as u64, 0x1000_0000_0000_0000 / 2 - 1) {
        return false;
    }
    if w as u64 >= 0x1000_0000_0000_0000 || h as u64 >= 0x1000_0000_0000_0000 {
        return false;
    }
    if !cells_can_fit(2 * (w as u64), 2 * (h as u64)) {
        return false;
    }
    let points = river_points_of(m, 1);
    proof {
        assert forall|k: int| 0 <= k < points.len() implies i64::MIN < (#[trigger] points[k]).0
            && i64::MIN < points[k].1 by {
            assert(scaled_cell(m, 1, points[k]));
        }
    }
    let a = Area::from_coords(points.as_slice());
    a.w >= 4 && a.h >= 4
}

/// Whether the lengths of the smallest area around the points are 64-bit
/// numbers.
pub fn span_can_fit(c: &[Point]) -> (r: bool)
    ensures
        r == Area::span_fits(c@),
{
    if c.len() == 0 {
        return true;
    }
    let c0 = c[0];
    let (mut x_min, mut z_min) = c0;
    let (mut x_max, mut z_max) = c0;
    let ghost mut kx_min = 0int;
    let ghost mut kx_max = 0int;
    let ghost mut kz_min = 0int;
    let ghost mut kz_max = 0int;
    let mut k: usize = 1;
    while k < c.len()
        invariant
            1 <= k <= c.len(),
            0 <= kx_min < k && c[kx_min].0 == x_min,
            0 <= kx_max < k && c[kx_max].0 == x_max,
            0 <= kz_min < k && c[kz_min].1 == z_min,
            0 <= kz_max < k && c[kz_max].1 == z_max,
            forall|n: int|
                0 <= n < k ==> x_min <= (#[trigger] c[n]).0 <= x_max && z_min <= c[n].1 <= z_max,
        decreases c.len() - k,
    {
        let (x, z) = c[k];
        if x < x_min {
            x_min = x;
            proof {
                kx_min = k as int;
            }
        }
        if z < z_min {
            z_min = z;
            proof {
                kz_min = k as int;
            }
        }
        if x > x_max {
            x_max = x;
            proof {
                kx_max = k as int;
            }
        }
        if z > z_max {
            z_max = z;
            proof {
                kz_max = k as int;
            }
        }
        k += 1;
    }
    let r = (x_max as i128 - x_min as i128) < u64::MAX as i128 && (z_max as i128 - z_min as i128)
        < u64::MAX as i128;
    proof {
        if r {
            assert forall|a: int, b: int| 0 <= a < c.len() && 0 <= b < c.len() implies (
            #[trigger] c@[a]).0 - (#[trigger] c@[b]).0 < u64::MAX && c@[a].1 - c@[b].1
                < u64::MAX by {
                assert(x_min <= c[a].0 <= x_max && x_min <= c[b].0 <= x_max);
                assert(z_min <= c[a].1 <= z_max && z_min <= c[b].1 <= z_max);
            }
        } else {
            if Area::span_fits(c@) {
                assert(c@[kx_max].0 - c@[kx_min].0 < u64::MAX);
                assert(c@[kz_max].1 - c@[kz_min].1 < u64::MAX);
            }
        }
    }
    r
}

} // verus!
