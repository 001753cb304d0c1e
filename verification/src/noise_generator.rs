//! The gradient noise that decides the temperature of the oceans.

use vstd::prelude::*;
use crate::biome_info::biome_id;
use crate::double::{
    dadd, ddiv, dfrom, dless, dmul, double_difference, double_less, double_of_int,
    double_product, double_quotient, double_sum, double_truncated, dsub, dtrunc, EIGHT, FIFTEEN,
    FIFTH, MINUS_FIFTH, MINUS_ONE, MINUS_TWO_FIFTHS, ONE, SIX, TEN, TWO_FIFTHS, TWO_TO_8, ZERO,
};
use crate::java_rng::{bounded_int, double_from, lcg_step, scramble, JavaRng};

verus! {

/// What the noise is made from: three offsets, as patterns of doubles, and
/// a table of 512 numbers below 256.
pub struct NoiseTable {
    pub a: u64,
    pub b: u64,
    pub c: u64,
    pub d: Seq<i32>,
}

/// The table before it is shuffled: the numbers 0 to 255, then zeros.
pub open spec fn fresh_table() -> Seq<i32> {
    Seq::new(512, |k: int| if k < 256 { k as i32 } else { 0i32 })
}

/// The table and the state of the generator after the first `i` steps of
/// the shuffle that begins in the state `s`: step `k` swaps the entry `k`
/// with one of the entries from `k` on, by one draw, and copies the new
/// entry `k` to the second half.
pub open spec fn shuffled(s: int, i: nat) -> (Seq<i32>, int)
    decreases i,
{
    if i == 0 {
        (fresh_table(), s)
    } else {
        let k = (i - 1) as int;
        let before = shuffled(s, (i - 1) as nat);
        let t = before.0;
        let draw = bounded_int(before.1, (256 - k) as i32);
        let n3 = draw.0 + k;
        (t.update(k, t[n3]).update(n3, t[k]).update(k + 256, t[n3]), draw.1)
    }
}

/// The noise for a world seed.
#[verifier::opaque]
pub open spec fn noise_of(seed: i64) -> NoiseTable {
    let s0 = scramble(seed as u64) as int;
    let s1 = lcg_step(lcg_step(s0));
    let s2 = lcg_step(lcg_step(s1));
    let s3 = lcg_step(lcg_step(s2));
    NoiseTable {
        a: double_product(double_from(s0), TWO_TO_8),
        b: double_product(double_from(s1), TWO_TO_8),
        c: double_product(double_from(s2), TWO_TO_8),
        d: shuffled(s3, 256).0,
    }
}

/// Whether a table has 512 entries below 256.
pub open spec fn table_ok(d: Seq<i32>) -> bool {
    d.len() == 512 && forall|k: int| 0 <= k < 512 ==> 0 <= #[trigger] d[k] < 256
}

/// The x part of the vector to the middle of edge `idx` of a cube.
pub open spec fn edge_x(idx: int) -> u64 {
    if idx == 0 || idx == 2 || idx == 4 || idx == 6 || idx == 12 {
        ONE
    } else if idx == 1 || idx == 3 || idx == 5 || idx == 7 || idx == 14 {
        MINUS_ONE
    } else {
        ZERO
    }
}

/// The y part of the vector to the middle of edge `idx` of a cube.
pub open spec fn edge_y(idx: int) -> u64 {
    if idx == 0 || idx == 1 || idx == 8 || idx == 10 || idx == 12 || idx == 14 {
        ONE
    } else if idx == 2 || idx == 3 || idx == 9 || idx == 11 || idx == 13 || idx == 15 {
        MINUS_ONE
    } else {
        ZERO
    }
}

/// The z part of the vector to the middle of edge `idx` of a cube.
pub open spec fn edge_z(idx: int) -> u64 {
    if idx == 4 || idx == 5 || idx == 8 || idx == 9 || idx == 13 {
        ONE
    } else if idx == 6 || idx == 7 || idx == 10 || idx == 11 || idx == 15 {
        MINUS_ONE
    } else {
        ZERO
    }
}

fn edge_x_of(idx: i32) -> (r: u64)
    ensures
        r == edge_x(idx as int),
{
    if idx == 0 || idx == 2 || idx == 4 || idx == 6 || idx == 12 {
        ONE
    } else if idx == 1 || idx == 3 || idx == 5 || idx == 7 || idx == 14 {
        MINUS_ONE
    } else {
        ZERO
    }
}

fn edge_y_of(idx: i32) -> (r: u64)
    ensures
        r == edge_y(idx as int),
{
    if idx == 0 || idx == 1 || idx == 8 || idx == 10 || idx == 12 || idx == 14 {
        ONE
    } else if idx == 2 || idx == 3 || idx == 9 || idx == 11 || idx == 13 || idx == 15 {
        MINUS_ONE
    } else {
        ZERO
    }
}

fn edge_z_of(idx: i32) -> (r: u64)
    ensures
        r == edge_z(idx as int),
{
    if idx == 4 || idx == 5 || idx == 8 || idx == 9 || idx == 13 {
        ONE
    } else if idx == 6 || idx == 7 || idx == 10 || idx == 11 || idx == 15 {
        MINUS_ONE
    } else {
        ZERO
    }
}

/// The product of a vector from the corner of a cube with the vector to
/// the middle of the edge that the low four bits of `hash` choose.
pub open spec fn gradient(hash: i32, d1: u64, d2: u64, d3: u64) -> u64 {
    let idx = (hash & 0xf) as int;
    double_sum(
        double_sum(double_product(edge_x(idx), d1), double_product(edge_y(idx), d2)),
        double_product(edge_z(idx), d3),
    )
}

fn indexed_lerp(hash: i32, d1: u64, d2: u64, d3: u64) -> (r: u64)
    ensures
        r == gradient(hash, d1, d2, d3),
{
    let idx = hash & 0xf;
    dadd(dadd(dmul(edge_x_of(idx), d1), dmul(edge_y_of(idx), d2)), dmul(edge_z_of(idx), d3))
}

/// `from + part * (to - from)`.
pub open spec fn lerped(part: u64, from: u64, to: u64) -> u64 {
    double_sum(from, double_product(part, double_difference(to, from)))
}

fn lerp(part: u64, from: u64, to: u64) -> (r: u64)
    ensures
        r == lerped(part, from, to),
{
    dadd(from, dmul(part, dsub(to, from)))
}

/// The number of the cell of the noise that a coordinate lies in: the
/// coordinate cut down to an integer, less one below zero.
pub open spec fn noise_cell(d: u64) -> i64 {
    if double_less(d, ZERO) {
        double_truncated(d).wrapping_sub(1)
    } else {
        double_truncated(d)
    }
}

fn floor_cell(d: u64) -> (r: i64)
    ensures
        r == noise_cell(d),
{
    let i = dtrunc(d);
    if dless(d, ZERO) {
        i.wrapping_sub(1)
    } else {
        i
    }
}

/// The weight of the far corner for a coordinate `d` within a cell:
/// `d^3 * (d * (d * 6 - 15) + 10)`.
pub open spec fn faded(d: u64) -> u64 {
    double_product(
        double_product(double_product(d, d), d),
        double_sum(double_product(d, double_difference(double_product(d, SIX), FIFTEEN)), TEN),
    )
}

fn fade(d: u64) -> (r: u64)
    ensures
        r == faded(d),
{
    dmul(dmul(dmul(d, d), d), dadd(dmul(d, dsub(dmul(d, SIX), FIFTEEN)), TEN))
}

/// The low 8 bits of the number of a cell.
pub open spec fn low_byte(i: i64) -> int {
    (i & 0xff) as int
}

/// The noise at a point, as the pattern of a double.
pub open spec fn ocean_temp(n: NoiseTable, x: u64, y: u64, z: u64) -> u64 {
    let e1 = double_sum(x, n.a);
    let e2 = double_sum(y, n.b);
    let e3 = double_sum(z, n.c);
    let c1 = noise_cell(e1);
    let c2 = noise_cell(e2);
    let c3 = noise_cell(e3);
    let d1 = double_difference(e1, double_of_int(c1));
    let d2 = double_difference(e2, double_of_int(c2));
    let d3 = double_difference(e3, double_of_int(c3));
    let t1 = faded(d1);
    let t2 = faded(d2);
    let t3 = faded(d3);
    let i1 = low_byte(c1);
    let i2 = low_byte(c2);
    let i3 = low_byte(c3);
    let a1 = n.d[i1] + i2;
    let a2 = n.d[a1] + i3;
    let a3 = n.d[a1 + 1] + i3;
    let b1 = n.d[i1 + 1] + i2;
    let b2 = n.d[b1] + i3;
    let b3 = n.d[b1 + 1] + i3;
    let m1 = double_difference(d1, ONE);
    let m2 = double_difference(d2, ONE);
    let m3 = double_difference(d3, ONE);
    let l1 = gradient(n.d[a2], d1, d2, d3);
    let l2 = gradient(n.d[b2], m1, d2, d3);
    let l3 = gradient(n.d[a3], d1, m2, d3);
    let l4 = gradient(n.d[b3], m1, m2, d3);
    let l5 = gradient(n.d[a2 + 1], d1, d2, m3);
    let l6 = gradient(n.d[b2 + 1], m1, d2, m3);
    let l7 = gradient(n.d[a3 + 1], d1, m2, m3);
    let l8 = gradient(n.d[b3 + 1], m1, m2, m3);
    let k1 = lerped(t1, l1, l2);
    let k3 = lerped(t1, l3, l4);
    let k5 = lerped(t1, l5, l6);
    let k7 = lerped(t1, l7, l8);
    let j1 = lerped(t2, k1, k3);
    let j5 = lerped(t2, k5, k7);
    lerped(t3, j1, j5)
}

/// The temperature of the ocean at the cell `(x, z)`, as the id of an
/// ocean: the noise at an eighth of the coordinates, in five classes.
#[verifier::opaque]
pub open spec fn ocean_class(n: NoiseTable, x: i64, z: i64) -> i32 {
    let tmp = ocean_temp(
        n,
        double_quotient(double_of_int(x), EIGHT),
        double_quotient(double_of_int(z), EIGHT),
        ZERO,
    );
    if double_less(TWO_FIFTHS, tmp) {
        44
    } else if double_less(FIFTH, tmp) {
        45
    } else if double_less(tmp, MINUS_TWO_FIFTHS) {
        10
    } else if double_less(tmp, MINUS_FIFTH) {
        46
    } else {
        0
    }
}

/// The noise generator of the ocean temperatures.
pub struct NoiseGeneratorPerlin {
    a: u64,
    b: u64,
    c: u64,
    d: Vec<i32>,
}

impl View for NoiseGeneratorPerlin {
    type V = NoiseTable;

    closed spec fn view(&self) -> NoiseTable {
        NoiseTable { a: self.a, b: self.b, c: self.c, d: self.d@ }
    }
}

/// A step of the shuffle keeps the table a table.
pub proof fn lemma_shuffle_step(t: Seq<i32>, k: int, n3: int)
    requires
        table_ok(t),
        0 <= k < 256,
        k <= n3 < 256,
    ensures
        table_ok(t.update(k, t[n3]).update(n3, t[k]).update(k + 256, t[n3])),
{
    let t3 = t.update(k, t[n3]).update(n3, t[k]).update(k + 256, t[n3]);
    assert forall|j: int| 0 <= j < 512 implies 0 <= #[trigger] t3[j] < 256 by {
        assert(0 <= t[j] < 256);
        assert(0 <= t[n3] < 256);
        assert(0 <= t[k] < 256);
    }
}

impl NoiseGeneratorPerlin {
    /// The table has 512 entries below 256.
    #[verifier::type_invariant]
    spec fn table_inv(self) -> bool {
        table_ok(self.d@)
    }

    /// The generator for a world seed.
    pub fn new(seed: i64) -> (g: NoiseGeneratorPerlin)
        ensures
            g@ == noise_of(seed),
    {
        let mut r = JavaRng::with_seed(
            #[verifier::truncate]
            (seed as u64),
        );
        let ghost s0 = r@;
        let a = dmul(r.next_double(), TWO_TO_8);
        let b = dmul(r.next_double(), TWO_TO_8);
        let c = dmul(r.next_double(), TWO_TO_8);
        let ghost s3 = r@;
        let mut d: Vec<i32> = Vec::new();
        let mut i: usize = 0;
        while i < 512
            invariant
                i <= 512,
                d.len() == i,
                forall|k: int| 0 <= k < i ==> d[k] == fresh_table()[k],
            decreases 512 - i,
        {
            d.push(
                if i < 256 {
                    i as i32
                } else {
                    0
                },
            );
            i += 1;
        }
        assert(d@ =~= fresh_table());
        proof {
            reveal(noise_of);
        }
        let mut i: usize = 0;
        while i < 256
            invariant
                i <= 256,
                d.len() == 512,
                table_ok(d@),
                (d@, r@) == shuffled(s3, i as nat),
            decreases 256 - i,
        {
            let n3 = (r.next_int_n(256 - i as i32) + i as i32) as usize;
            proof {
                lemma_shuffle_step(d@, i as int, n3 as int);
            }
            let n4 = d[i];
            let v = d[n3];
            d.set(i, v);
            d.set(n3, n4);
            d.set(i + 256, v);
            i += 1;
        }
        NoiseGeneratorPerlin { a, b, c, d }
    }

    /// The noise at a point.
    pub fn get_ocean_temp(&self, x: u64, y: u64, z: u64) -> (r: u64)
        ensures
            r == ocean_temp(self@, x, y, z),
    {
        proof {
            use_type_invariant(self);
        }
        let e1 = dadd(x, self.a);
        let e2 = dadd(y, self.b);
        let e3 = dadd(z, self.c);
        let c1 = floor_cell(e1);
        let c2 = floor_cell(e2);
        let c3 = floor_cell(e3);
        let d1 = dsub(e1, dfrom(c1));
        let d2 = dsub(e2, dfrom(c2));
        let d3 = dsub(e3, dfrom(c3));
        let t1 = fade(d1);
        let t2 = fade(d2);
        let t3 = fade(d3);
        assert(0 <= c1 & 0xff < 256 && 0 <= c2 & 0xff < 256 && 0 <= c3 & 0xff < 256)
            by (bit_vector);
        let i1 = (c1 & 0xff) as usize;
        let i2 = (c2 & 0xff) as i32;
        let i3 = (c3 & 0xff) as i32;
        let a1 = (self.d[i1] + i2) as usize;
        let a2 = (self.d[a1] + i3) as usize;
        let a3 = (self.d[a1 + 1] + i3) as usize;
        let b1 = (self.d[i1 + 1] + i2) as usize;
        let b2 = (self.d[b1] + i3) as usize;
        let b3 = (self.d[b1 + 1] + i3) as usize;
        let m1 = dsub(d1, ONE);
        let m2 = dsub(d2, ONE);
        let m3 = dsub(d3, ONE);
        let l1 = indexed_lerp(self.d[a2], d1, d2, d3);
        let l2 = indexed_lerp(self.d[b2], m1, d2, d3);
        let l3 = indexed_lerp(self.d[a3], d1, m2, d3);
        let l4 = indexed_lerp(self.d[b3], m1, m2, d3);
        let l5 = indexed_lerp(self.d[a2 + 1], d1, d2, m3);
        let l6 = indexed_lerp(self.d[b2 + 1], m1, d2, m3);
        let l7 = indexed_lerp(self.d[a3 + 1], d1, m2, m3);
        let l8 = indexed_lerp(self.d[b3 + 1], m1, m2, m3);
        let k1 = lerp(t1, l1, l2);
        let k3 = lerp(t1, l3, l4);
        let k5 = lerp(t1, l5, l6);
        let k7 = lerp(t1, l7, l8);
        let j1 = lerp(t2, k1, k3);
        let j5 = lerp(t2, k5, k7);
        lerp(t3, j1, j5)
    }

    /// The temperature of the ocean at the cell `(x, z)`, as the id of an
    /// ocean.
    pub fn ocean_at(&self, x: i64, z: i64) -> (v: i32)
        ensures
            v == ocean_class(self@, x, z),
    {
        proof {
            reveal(ocean_class);
        }
        let tmp = self.get_ocean_temp(ddiv(dfrom(x), EIGHT), ddiv(dfrom(z), EIGHT), ZERO);
        if dless(TWO_FIFTHS, tmp) {
            biome_id::warmOcean
        } else if dless(FIFTH, tmp) {
            biome_id::lukewarmOcean
        } else if dless(tmp, MINUS_TWO_FIFTHS) {
            biome_id::frozenOcean
        } else if dless(tmp, MINUS_FIFTH) {
            biome_id::coldOcean
        } else {
            biome_id::ocean
        }
    }

    /// A generator with the same offsets and the same table.
    pub fn duplicate(&self) -> (g: NoiseGeneratorPerlin)
        ensures
            g@ == self@,
    {
        proof {
            use_type_invariant(self);
        }
        let mut d: Vec<i32> = Vec::new();
        let mut i: usize = 0;
        while i < 512
            invariant
                i <= 512,
                self.d.len() == 512,
                d.len() == i,
                forall|k: int| 0 <= k < i ==> d[k] == self.d[k],
            decreases 512 - i,
        {
            d.push(self.d[i]);
            i += 1;
        }
        assert(d@ =~= self.d@);
        NoiseGeneratorPerlin { a: self.a, b: self.b, c: self.c, d }
    }
}

} // verus!
