//! The last zoom as of version 1.15: the points of the cells are placed in
//! space, by a hash of the world seed, and the nearest of eight decides.

use vstd::prelude::*;
use sha2::Digest;
use sha2::Sha256;
use crate::double::{
    dadd, ddiv, dfrom, dless, dmul, double_difference, double_less, double_of_int,
    double_product, double_quotient, double_sum, dsub, FOUR, HALF, NINE_TENTHS, ONE, TWO_TO_10,
    ZERO,
};
use crate::mc_rng::{floor_mod, mix, McRng};

verus! {

/// The SHA-256 hash of a list of bytes: a list of 32 bytes.
pub uninterp spec fn sha256_bytes(data: Seq<u8>) -> Seq<u8>;

/// `Sha256::digest` on eight bytes: the 32 bytes of their hash. The
/// contract only names the result.
#[verifier::external_body]
pub(crate) fn sha256(data: [u8; 8]) -> (r: [u8; 32])
    ensures
        r@ == sha256_bytes(data@),
{
    Sha256::digest(data).into()
}

/// The eight bytes of a 64-bit number, low byte first.
pub open spec fn le_bytes(x: i64) -> Seq<u8> {
    let u = x as u64;
    seq![
        (u & 0xff) as u8,
        ((u >> 8) & 0xff) as u8,
        ((u >> 16) & 0xff) as u8,
        ((u >> 24) & 0xff) as u8,
        ((u >> 32) & 0xff) as u8,
        ((u >> 40) & 0xff) as u8,
        ((u >> 48) & 0xff) as u8,
        ((u >> 56) & 0xff) as u8,
    ]
}

/// The 64-bit number that eight bytes make, low byte first.
pub open spec fn le_i64(b: Seq<u8>) -> i64 {
    ((b[0] as u64) | ((b[1] as u64) << 8) | ((b[2] as u64) << 16) | ((b[3] as u64) << 24) | ((
    b[4] as u64) << 32) | ((b[5] as u64) << 40) | ((b[6] as u64) << 48) | ((b[7] as u64)
        << 56)) as i64
}

/// The first eight bytes of the SHA-256 hash of the eight bytes of `x`,
/// low byte first, read as a number, low byte first.
pub open spec fn sha256_first_long(x: i64) -> i64 {
    le_i64(sha256_bytes(le_bytes(x)).subrange(0, 8))
}

/// The hash of a world seed that the last zoom works with as of version
/// 1.15: the eight bytes of the seed, low byte first, are hashed, and the
/// first eight bytes of the hash are read as a number, low byte first.
pub fn sha256_long_to_long(x: i64) -> (r: i64)
    ensures
        r == sha256_first_long(x),
{
    let u = #[verifier::truncate]
    (x as u64);
    let data: [u8; 8] = [
        (u & 0xff) as u8,
        ((u >> 8) & 0xff) as u8,
        ((u >> 16) & 0xff) as u8,
        ((u >> 24) & 0xff) as u8,
        ((u >> 32) & 0xff) as u8,
        ((u >> 40) & 0xff) as u8,
        ((u >> 48) & 0xff) as u8,
        ((u >> 56) & 0xff) as u8,
    ];
    assert(data@ =~= le_bytes(x));
    let h = sha256(data);
    let ghost first = h@.subrange(0, 8);
    let r = (h[0] as u64) | ((h[1] as u64) << 8) | ((h[2] as u64) << 16) | ((h[3] as u64) << 24)
        | ((h[4] as u64) << 32) | ((h[5] as u64) << 40) | ((h[6] as u64) << 48) | ((h[7] as u64)
        << 56);
    assert(first[0] == h[0] && first[1] == h[1] && first[2] == h[2] && first[3] == h[3]
        && first[4] == h[4] && first[5] == h[5] && first[6] == h[6] && first[7] == h[7]);
    #[verifier::truncate]
    (r as i64)
}

/// A point in space, as three patterns of doubles.
#[derive(Copy, Clone, Debug, PartialEq, Eq)]
pub struct Point3 {
    pub x: u64,
    pub y: u64,
    pub z: u64,
}

/// An offset from -0.45 up to 0.45, from bits 24 to 33 of a state: the
/// state from bit 24 upwards gives, by its remainder modulo 1024, a number
/// from 0 up to 1024; a 1024th of it, less a half, times nine tenths keeps
/// the point of a cell within 0.45 of the middle of the cell.
pub open spec fn offset_of(seed: i64) -> u64 {
    double_product(
        double_difference(
            double_quotient(double_of_int(floor_mod(seed >> 24, 1024) as i64), TWO_TO_10),
            HALF,
        ),
        NINE_TENTHS,
    )
}

fn rand_offset(seed: i64) -> (d: u64)
    ensures
        d == offset_of(seed),
{
    let n = McRng::math_floor_mod(seed >> 24, 1024);
    dmul(dsub(ddiv(dfrom(n), TWO_TO_10), HALF), NINE_TENTHS)
}

/// The state from which the offsets of the point of the cell `(x, y, z)`
/// are taken: the coordinates mixed into the hashed seed, twice each.
pub open spec fn point_state(seed: i64, x: i32, y: i32, z: i32) -> i64 {
    mix(mix(mix(mix(mix(mix(seed, x as i64), y as i64), z as i64), x as i64), y as i64), z as i64)
}

/// The offsets of the point of the cell `(x, y, z)` from the middle of the
/// cell.
pub open spec fn offsets_3d(seed: i64, x: i32, y: i32, z: i32) -> Point3 {
    let r0 = point_state(seed, x, y, z);
    let r1 = mix(r0, seed);
    let r2 = mix(r1, seed);
    Point3 { x: offset_of(r0), y: offset_of(r1), z: offset_of(r2) }
}

pub fn rand_offset_3d(seed: i64, x: i32, y: i32, z: i32) -> (p: Point3)
    ensures
        p == offsets_3d(seed, x, y, z),
{
    let mut r = McRng::next_state(seed, x as i64);
    r = McRng::next_state(r, y as i64);
    r = McRng::next_state(r, z as i64);
    r = McRng::next_state(r, x as i64);
    r = McRng::next_state(r, y as i64);
    r = McRng::next_state(r, z as i64);
    let dx = rand_offset(r);
    r = McRng::next_state(r, seed);
    let dy = rand_offset(r);
    r = McRng::next_state(r, seed);
    let dz = rand_offset(r);
    Point3 { x: dx, y: dy, z: dz }
}

/// The offset of corner `i` of the cube of cells that begins at
/// `(px, py, pz)`, less the way from the first corner to it: bit 2 of `i`
/// is the step along x, bit 1 along y, bit 0 along z.
pub open spec fn corner_offset(seed: i64, px: i32, py: i32, pz: i32, i: int) -> Point3 {
    let fx = i / 4 % 2 == 0;
    let fy = i / 2 % 2 == 0;
    let fz = i % 2 == 0;
    let o = offsets_3d(
        seed,
        if fx {
            px
        } else {
            px.wrapping_add(1)
        },
        if fy {
            py
        } else {
            py.wrapping_add(1)
        },
        if fz {
            pz
        } else {
            pz.wrapping_add(1)
        },
    );
    Point3 {
        x: double_difference(
            o.x,
            if fx {
                ZERO
            } else {
                ONE
            },
        ),
        y: double_difference(
            o.y,
            if fy {
                ZERO
            } else {
                ONE
            },
        ),
        z: double_difference(
            o.z,
            if fz {
                ZERO
            } else {
                ONE
            },
        ),
    }
}

/// The eight corner offsets of a cube of cells.
pub fn voronoi_1_15_pos_offset(seed: i64, px: i32, py: i32, pz: i32) -> (v: Vec<Point3>)
    ensures
        v.len() == 8,
        forall|i: int| 0 <= i < 8 ==> #[trigger] v[i] == corner_offset(seed, px, py, pz, i),
{
    let mut v: Vec<Point3> = Vec::new();
    let mut i: usize = 0;
    while i < 8
        invariant
            i <= 8,
            v.len() == i,
            forall|k: int| 0 <= k < i ==> #[trigger] v[k] == corner_offset(seed, px, py, pz, k),
        decreases 8 - i,
    {
        let flagx = i / 4 % 2 == 0;
        let flagy = i / 2 % 2 == 0;
        let flagz = i % 2 == 0;
        let x1 = if flagx {
            px
        } else {
            px.wrapping_add(1)
        };
        let y1 = if flagy {
            py
        } else {
            py.wrapping_add(1)
        };
        let z1 = if flagz {
            pz
        } else {
            pz.wrapping_add(1)
        };
        let o = rand_offset_3d(seed, x1, y1, z1);
        v.push(
            Point3 {
                x: dsub(
                    o.x,
                    if flagx {
                        ZERO
                    } else {
                        ONE
                    },
                ),
                y: dsub(
                    o.y,
                    if flagy {
                        ZERO
                    } else {
                        ONE
                    },
                ),
                z: dsub(
                    o.z,
                    if flagz {
                        ZERO
                    } else {
                        ONE
                    },
                ),
            },
        );
        i += 1;
    }
    v
}

/// `z * z + y * y + x * x`, in this order.
pub open spec fn squared_3d(x: u64, y: u64, z: u64) -> u64 {
    double_sum(double_sum(double_product(z, z), double_product(y, y)), double_product(x, x))
}

fn mod_squared_3d(x: u64, y: u64, z: u64) -> (r: u64)
    ensures
        r == squared_3d(x, y, z),
{
    dadd(dadd(dmul(z, z), dmul(y, y)), dmul(x, x))
}

/// The square of the distance from the place `(x, y, z)` in a cell, in
/// quarters of the cell, to a corner offset.
pub open spec fn corner_distance(o: Point3, x: i32, y: i32, z: i32) -> u64 {
    squared_3d(
        double_sum(o.x, double_quotient(double_of_int((x & 3) as i64), FOUR)),
        double_sum(o.y, double_quotient(double_of_int((y & 3) as i64), FOUR)),
        double_sum(o.z, double_quotient(double_of_int((z & 3) as i64), FOUR)),
    )
}

/// The index of the first of the least among the first `n` of the
/// distances from a place to the corner offsets.
pub open spec fn least_corner(o: Seq<Point3>, x: i32, y: i32, z: i32, n: nat) -> int
    decreases n,
{
    if n <= 1 {
        0
    } else {
        let m = least_corner(o, x, y, z, (n - 1) as nat);
        if double_less(corner_distance(o[n - 1], x, y, z), corner_distance(o[m], x, y, z)) {
            n - 1
        } else {
            m
        }
    }
}

/// Whether a pattern is that of no number.
pub open spec fn nan_pattern(a: u64) -> bool {
    a & 0x7FFF_FFFF_FFFF_FFFF > 0x7FF0_0000_0000_0000
}

/// The index of the first of the least among the first `n` of the
/// doubles with the given patterns.
pub open spec fn least_index(s: Seq<u64>, n: nat) -> int
    decreases n,
{
    if n <= 1 {
        0
    } else {
        let m = least_index(s, (n - 1) as nat);
        if double_less(s[n - 1], s[m]) {
            n - 1
        } else {
            m
        }
    }
}

/// The index of the least of the doubles with the given patterns, none of
/// which is the pattern of no number; the lowest such index where several
/// are the least; none for an empty list.
pub fn index_of_min_element(x: &[u64]) -> (r: Option<usize>)
    requires
        forall|k: int| 0 <= k < x.len() ==> !nan_pattern(#[trigger] x[k]),
    ensures
        r is None <==> x.len() == 0,
        match r {
            Some(i) => i < x.len() && i == least_index(x@, x.len() as nat),
            None => true,
        },
{
    if x.len() == 0 {
        return None;
    }
    let mut min_index: usize = 0;
    let mut i: usize = 1;
    while i < x.len()
        invariant
            1 <= i <= x.len(),
            min_index < i,
            min_index == least_index(x@, i as nat),
        decreases x.len() - i,
    {
        if dless(x[i], x[min_index]) {
            min_index = i;
        }
        i += 1;
    }
    Some(min_index)
}

/// The biome of the corner whose point is nearest to the place
/// `(x, y, z)` of a cell, in quarters of the cell.
pub fn map_voronoi_1_15(x: i32, y: i32, z: i32, pos_offset: &Vec<Point3>, biome_at: &Vec<i32>) -> (v:
    i32)
    requires
        pos_offset.len() == 8,
        biome_at.len() == 8,
    ensures
        v == biome_at[least_corner(pos_offset@, x, y, z, 8)],
        0 <= least_corner(pos_offset@, x, y, z, 8) < 8,
{
    assert(0 <= x & 3 < 4 && 0 <= y & 3 < 4 && 0 <= z & 3 < 4) by (bit_vector);
    let dx = ddiv(dfrom((x & 3) as i64), FOUR);
    let dy = ddiv(dfrom((y & 3) as i64), FOUR);
    let dz = ddiv(dfrom((z & 3) as i64), FOUR);
    let mut min_index: usize = 0;
    let o0 = pos_offset[0];
    let mut min_dist = mod_squared_3d(dadd(o0.x, dx), dadd(o0.y, dy), dadd(o0.z, dz));
    let mut i: usize = 1;
    while i < 8
        invariant
            1 <= i <= 8,
            pos_offset.len() == 8,
            dx == double_quotient(double_of_int((x & 3) as i64), FOUR),
            dy == double_quotient(double_of_int((y & 3) as i64), FOUR),
            dz == double_quotient(double_of_int((z & 3) as i64), FOUR),
            min_index == least_corner(pos_offset@, x, y, z, i as nat),
            min_index < i,
            min_dist == corner_distance(pos_offset[min_index as int], x, y, z),
        decreases 8 - i,
    {
        let o = pos_offset[i];
        let dist = mod_squared_3d(dadd(o.x, dx), dadd(o.y, dy), dadd(o.z, dz));
        // On a tie the corner with the lower index stays.
        if dless(dist, min_dist) {
            min_index = i;
            min_dist = dist;
        }
        i += 1;
    }
    biome_at[min_index]
}

/// The value of the cell `(i, j)` of the block whose corner cell has the
/// coordinates `(cx, cz)`, in cells of the finer map.
pub open spec fn hashed_block_value(
    seed: i64,
    cx: i64,
    cz: i64,
    i: i64,
    j: i64,
    v00: i32,
    v10: i32,
    v01: i32,
    v11: i32,
) -> i32 {
    if v00 == v01 && v00 == v10 && v00 == v11 {
        v00
    } else {
        let o = Seq::new(
            8,
            |k: int| corner_offset(seed, (cx / 4) as i32, -1i32, (cz / 4) as i32, k),
        );
        let n = least_corner(o, i as i32, -2i32, j as i32, 8);
        if n == 0 || n == 2 {
            v00
        } else if n == 1 || n == 3 {
            v01
        } else if n == 4 || n == 6 {
            v10
        } else {
            v11
        }
    }
}

/// The sixteen values of a block, rows along x first.
pub fn hashed_block(seed: i64, cx: i64, cz: i64, v00: i32, v10: i32, v01: i32, v11: i32) -> (vals:
    Vec<i32>)
    requires
        cx % 4 == 0,
        cz % 4 == 0,
    ensures
        vals.len() == 16,
        forall|k: int|
            0 <= k < 16 ==> #[trigger] vals[k] == hashed_block_value(
                seed,
                cx,
                cz,
                (k % 4) as i64,
                (k / 4) as i64,
                v00,
                v10,
                v01,
                v11,
            ),
{
    let same = v00 == v01 && v00 == v10 && v00 == v11;
    let px = #[verifier::truncate]
    ((cx / 4) as i32);
    let pz = #[verifier::truncate]
    ((cz / 4) as i32);
    // The cells lie at height 0: in the second quarter of the cells one
    // below.
    let pos_offset = if same {
        Vec::new()
    } else {
        voronoi_1_15_pos_offset(seed, px, -1, pz)
    };
    let mut biome_at: Vec<i32> = Vec::new();
    biome_at.push(v00);
    biome_at.push(v01);
    biome_at.push(v00);
    biome_at.push(v01);
    biome_at.push(v10);
    biome_at.push(v11);
    biome_at.push(v10);
    biome_at.push(v11);
    let ghost o = Seq::new(8, |k: int| corner_offset(seed, (cx / 4) as i32, -1i32, (cz / 4) as i32, k));
    proof {
        if !same {
            assert(pos_offset@ =~= o);
        }
    }
    let mut vals: Vec<i32> = Vec::new();
    let mut k: usize = 0;
    while k < 16
        invariant
            k <= 16,
            vals.len() == k,
            same == (v00 == v01 && v00 == v10 && v00 == v11),
            !same ==> pos_offset@ == o,
            o == Seq::new(8, |k: int| corner_offset(seed, (cx / 4) as i32, -1i32, (cz / 4) as i32, k)),
            biome_at@ == seq![v00, v01, v00, v01, v10, v11, v10, v11],
            forall|n: int|
                0 <= n < k ==> #[trigger] vals[n] == hashed_block_value(
                    seed,
                    cx,
                    cz,
                    (n % 4) as i64,
                    (n / 4) as i64,
                    v00,
                    v10,
                    v01,
                    v11,
                ),
        decreases 16 - k,
    {
        let i = (k % 4) as i32;
        let j = (k / 4) as i32;
        let v = if same {
            v00
        } else {
            map_voronoi_1_15(i, -2, j, &pos_offset, &biome_at)
        };
        vals.push(v);
        k += 1;
    }
    vals
}

} // verus!
