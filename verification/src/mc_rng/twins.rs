//! Why two world seeds that add up to a constant make the same maps: the
//! mixing function takes them for the same seed.

use vstd::prelude::*;
use vstd::arithmetic::div_mod::{
    lemma_fundamental_div_mod, lemma_fundamental_div_mod_converse, lemma_mod_multiples_vanish,
};
use crate::mc_rng::{
    cell_seed, chosen2, chosen4, drawn, is_smaller_twin, mix, mixed_world_seed, mode_or_chosen,
    similar_seed, smaller_twins,
};

verus! {

/// The wrapped product of two 64-bit numbers differs from their product
/// by a multiple of 2^64.
pub proof fn lemma_wrapped_mul(x: i64, y: i64) -> (k: int)
    ensures
        x.wrapping_mul(y) == x * y - k * 0x1_0000_0000_0000_0000,
{
    let p = x * y;
    lemma_fundamental_div_mod(p, 0x1_0000_0000_0000_0000);
    let q = p / 0x1_0000_0000_0000_0000;
    let r = p % 0x1_0000_0000_0000_0000;
    if r > i64::MAX {
        q + 1
    } else {
        q
    }
}

/// The wrapped sum of two 64-bit numbers differs from their sum by a
/// multiple of 2^64.
pub proof fn lemma_wrapped_add(x: i64, y: i64) -> (k: int)
    ensures
        x.wrapping_add(y) == x + y - k * 0x1_0000_0000_0000_0000,
{
    if x + y > i64::MAX {
        1
    } else if x + y < i64::MIN {
        -1
    } else {
        0
    }
}

/// The mixing function gives the polynomial that it is named after, up to
/// a multiple of 2^64.
pub proof fn lemma_mix_polynomial(s: i64, v: i64) -> (k: int)
    ensures
        mix(s, v) == s * s * 6364136223846793005 + s * 1442695040888963407 + v - k
            * 0x1_0000_0000_0000_0000,
{
    let a1 = lemma_wrapped_mul(s, 6364136223846793005);
    let m = s.wrapping_mul(6364136223846793005);
    let a2 = lemma_wrapped_add(m, 1442695040888963407);
    let i = m.wrapping_add(1442695040888963407);
    let a3 = lemma_wrapped_mul(s, i);
    let o = s.wrapping_mul(i);
    let a4 = lemma_wrapped_add(o, v);
    let k = s * (a1 + a2) + a3 + a4;
    assert(s * i == s * s * 6364136223846793005 + s * 1442695040888963407 - s * (a1 + a2)
        * 0x1_0000_0000_0000_0000) by (nonlinear_arith)
        requires
            i == s * 6364136223846793005 - a1 * 0x1_0000_0000_0000_0000 + 1442695040888963407 - a2
                * 0x1_0000_0000_0000_0000,
    ;
    assert((s * (a1 + a2) + a3 + a4) * 0x1_0000_0000_0000_0000 == s * (a1 + a2)
        * 0x1_0000_0000_0000_0000 + a3 * 0x1_0000_0000_0000_0000 + a4 * 0x1_0000_0000_0000_0000)
        by (nonlinear_arith);
    k
}

/// The mixing function takes a world seed and the seed that adds up with
/// it to the constant for the same seed.
pub proof fn lemma_similar_seed_mixes_alike(s: i64, v: i64)
    ensures
        mix(similar_seed(s), v) == mix(s, v),
{
    let t = similar_seed(s);
    let e: int = if -7379792620528906219 - s > i64::MAX {
        1
    } else if -7379792620528906219 - s < i64::MIN {
        -1
    } else {
        0
    };
    assert(t == -7379792620528906219 - s - e * 0x1_0000_0000_0000_0000);
    let k1 = lemma_mix_polynomial(s, v);
    let k2 = lemma_mix_polynomial(t, v);
    let w = 0x1_0000_0000_0000_0000int;
    // The polynomial at the two seeds differs by a multiple of 2^64,
    // for 6364136223846793005 times the constant and 1442695040888963407
    // add up to one.
    let z = (t - s) * (-2546032262014280993 - 6364136223846793005 * e);
    assert(t * t * 6364136223846793005 + t * 1442695040888963407 - (s * s * 6364136223846793005
        + s * 1442695040888963407) == z * w) by (nonlinear_arith)
        requires
            t + s == -7379792620528906219 - e * w,
            w == 0x1_0000_0000_0000_0000,
            z == (t - s) * (-2546032262014280993 - 6364136223846793005 * e),
    ;
    let d = z - k2 + k1;
    assert(mix(t, v) - mix(s, v) == d * w) by (nonlinear_arith)
        requires
            mix(t, v) == t * t * 6364136223846793005 + t * 1442695040888963407 + v - k2 * w,
            mix(s, v) == s * s * 6364136223846793005 + s * 1442695040888963407 + v - k1 * w,
            t * t * 6364136223846793005 + t * 1442695040888963407 - (s * s * 6364136223846793005
                + s * 1442695040888963407) == z * w,
            d == z - k2 + k1,
    ;
    assert(d == 0) by (nonlinear_arith)
        requires
            -w < d * w < w,
            w == 0x1_0000_0000_0000_0000,
    ;
}

/// Every layer stores the same world seed for a world seed and for the
/// seed that adds up with it to the constant: the two worlds have the
/// same maps wherever the world seed enters through the mixing function
/// alone.
pub proof fn lemma_similar_seed_same_world(stored_base: i64, s: i64)
    ensures
        mixed_world_seed(stored_base, similar_seed(s)) == mixed_world_seed(stored_base, s),
        forall|x: i64, z: i64|
            cell_seed(mixed_world_seed(stored_base, similar_seed(s)), x, z) == cell_seed(
                mixed_world_seed(stored_base, s),
                x,
                z,
            ),
{
    lemma_similar_seed_mixes_alike(s, stored_base);
}

/// The seed that adds up with the similar seed to the constant is the
/// seed itself.
pub proof fn lemma_similar_seed_twice(s: i64)
    ensures
        similar_seed(similar_seed(s)) == s,
{
}

/// Whether two 64-bit numbers have the same low 26 bits.
pub open spec fn same_low_26(a: i64, b: i64) -> bool {
    a & 0x3FF_FFFF == b & 0x3FF_FFFF
}

/// The low 26 bits of a number are its remainder modulo 2^26.
pub proof fn lemma_low_26_is_remainder(a: i64)
    ensures
        (a & 0x3FF_FFFF) == (a as int) % 0x400_0000,
{
    assert((a & 0x3FF_FFFF) == a % 0x400_0000) by (bit_vector);
}

/// The low 34 bits of a number are its remainder modulo 2^34.
pub proof fn lemma_low_34_is_remainder(a: i64)
    ensures
        (a & 0x3_FFFF_FFFF) == (a as int) % 0x4_0000_0000,
{
    assert((a & 0x3_FFFF_FFFF) == a % 0x4_0000_0000) by (bit_vector);
}

/// Whether two 64-bit numbers have the same low 34 bits.
pub open spec fn same_low_34(a: i64, b: i64) -> bool {
    a & 0x3_FFFF_FFFF == b & 0x3_FFFF_FFFF
}

/// The polynomial of the mixing function at two seeds that differ by a
/// multiple of `m` differs by a multiple of `m`.
pub proof fn lemma_polynomial_apart(s1: int, s2: int, p: int, m: int) -> (r: int)
    requires
        s1 - s2 == p * m,
    ensures
        s1 * s1 * 6364136223846793005 + s1 * 1442695040888963407 - (s2 * s2
            * 6364136223846793005 + s2 * 1442695040888963407) == r * m,
{
    let d = s1 - s2;
    let u = 6364136223846793005 * (s1 + s2) + 1442695040888963407;
    assert(s1 * s1 - s2 * s2 == d * (s1 + s2)) by (nonlinear_arith)
        requires
            d == s1 - s2,
    ;
    assert(d * u == d * (s1 + s2) * 6364136223846793005 + d * 1442695040888963407)
        by (nonlinear_arith)
        requires
            u == 6364136223846793005 * (s1 + s2) + 1442695040888963407,
    ;
    assert(s1 * s1 * 6364136223846793005 - s2 * s2 * 6364136223846793005 == (s1 * s1 - s2 * s2)
        * 6364136223846793005) by (nonlinear_arith);
    assert(d * u == (p * u) * m) by (nonlinear_arith)
        requires
            d == p * m,
    ;
    p * u
}

/// The low 26 bits of what the mixing function gives depend on the low
/// 26 bits of what it takes only.
pub proof fn lemma_mix_low_26(s1: i64, s2: i64, v1: i64, v2: i64)
    requires
        same_low_26(s1, s2),
        same_low_26(v1, v2),
    ensures
        same_low_26(mix(s1, v1), mix(s2, v2)),
{
    lemma_low_26_is_remainder(s1);
    lemma_low_26_is_remainder(s2);
    lemma_low_26_is_remainder(v1);
    lemma_low_26_is_remainder(v2);
    lemma_low_26_is_remainder(mix(s1, v1));
    lemma_low_26_is_remainder(mix(s2, v2));
    lemma_fundamental_div_mod(s1 as int, 0x400_0000);
    lemma_fundamental_div_mod(s2 as int, 0x400_0000);
    lemma_fundamental_div_mod(v1 as int, 0x400_0000);
    lemma_fundamental_div_mod(v2 as int, 0x400_0000);
    let p = (s1 as int) / 0x400_0000 - (s2 as int) / 0x400_0000;
    let q = (v1 as int) / 0x400_0000 - (v2 as int) / 0x400_0000;
    let r = lemma_polynomial_apart(s1 as int, s2 as int, p, 0x400_0000);
    let k1 = lemma_mix_polynomial(s1, v1);
    let k2 = lemma_mix_polynomial(s2, v2);
    let t = r + q - (k1 - k2) * 0x40_0000_0000;
    assert(mix(s1, v1) == 0x400_0000 * t + mix(s2, v2));
    lemma_mod_multiples_vanish(t, mix(s2, v2) as int, 0x400_0000);
}

/// The low 34 bits of what the mixing function gives depend on the low
/// 34 bits of what it takes only.
pub proof fn lemma_mix_low_34(s1: i64, s2: i64, v1: i64, v2: i64)
    requires
        same_low_34(s1, s2),
        same_low_34(v1, v2),
    ensures
        same_low_34(mix(s1, v1), mix(s2, v2)),
{
    lemma_low_34_is_remainder(s1);
    lemma_low_34_is_remainder(s2);
    lemma_low_34_is_remainder(v1);
    lemma_low_34_is_remainder(v2);
    lemma_low_34_is_remainder(mix(s1, v1));
    lemma_low_34_is_remainder(mix(s2, v2));
    lemma_fundamental_div_mod(s1 as int, 0x4_0000_0000);
    lemma_fundamental_div_mod(s2 as int, 0x4_0000_0000);
    lemma_fundamental_div_mod(v1 as int, 0x4_0000_0000);
    lemma_fundamental_div_mod(v2 as int, 0x4_0000_0000);
    let p = (s1 as int) / 0x4_0000_0000 - (s2 as int) / 0x4_0000_0000;
    let q = (v1 as int) / 0x4_0000_0000 - (v2 as int) / 0x4_0000_0000;
    let r = lemma_polynomial_apart(s1 as int, s2 as int, p, 0x4_0000_0000);
    let k1 = lemma_mix_polynomial(s1, v1);
    let k2 = lemma_mix_polynomial(s2, v2);
    let t = r + q - (k1 - k2) * 0x4000_0000;
    assert(mix(s1, v1) == 0x4_0000_0000 * t + mix(s2, v2));
    lemma_mod_multiples_vanish(t, mix(s2, v2) as int, 0x4_0000_0000);
}

/// The low 34 bits of the world seed that a layer stores depend on the
/// low 34 bits of the world seed only.
pub proof fn lemma_world_low_34(stored_base: i64, s1: i64, s2: i64)
    requires
        same_low_34(s1, s2),
    ensures
        same_low_34(mixed_world_seed(stored_base, s1), mixed_world_seed(stored_base, s2)),
{
    lemma_mix_low_34(s1, s2, stored_base, stored_base);
    lemma_mix_low_34(mix(s1, stored_base), mix(s2, stored_base), stored_base, stored_base);
    lemma_mix_low_34(
        mix(mix(s1, stored_base), stored_base),
        mix(mix(s2, stored_base), stored_base),
        stored_base,
        stored_base,
    );
}

/// The low 34 bits of the state that a cell starts from depend on the low
/// 34 bits of the stored world seed only.
pub proof fn lemma_cell_low_34(w1: i64, w2: i64, x: i64, z: i64)
    requires
        same_low_34(w1, w2),
    ensures
        same_low_34(cell_seed(w1, x, z), cell_seed(w2, x, z)),
{
    lemma_mix_low_34(w1, w2, x, x);
    lemma_mix_low_34(mix(w1, x), mix(w2, x), z, z);
    lemma_mix_low_34(mix(mix(w1, x), z), mix(mix(w2, x), z), x, x);
    lemma_mix_low_34(mix(mix(mix(w1, x), z), x), mix(mix(mix(w2, x), z), x), z, z);
}

/// A draw among 1024 depends on the low 34 bits of the state only: it
/// takes the bits 24 to 33.
pub proof fn lemma_drawn_low_34(c1: i64, c2: i64)
    requires
        same_low_34(c1, c2),
    ensures
        drawn(c1, 1024) == drawn(c2, 1024),
{
    let y1 = c1 >> 24;
    let y2 = c2 >> 24;
    assert(y1 % 1024 == y2 % 1024) by (bit_vector)
        requires
            y1 == c1 >> 24,
            y2 == c2 >> 24,
            c1 & 0x3_FFFF_FFFF == c2 & 0x3_FFFF_FFFF,
    ;
}

/// The low 26 bits of the world seed that a layer stores depend on the
/// low 26 bits of the world seed only.
pub proof fn lemma_world_low_26(stored_base: i64, s1: i64, s2: i64)
    requires
        same_low_26(s1, s2),
    ensures
        same_low_26(mixed_world_seed(stored_base, s1), mixed_world_seed(stored_base, s2)),
{
    lemma_mix_low_26(s1, s2, stored_base, stored_base);
    lemma_mix_low_26(mix(s1, stored_base), mix(s2, stored_base), stored_base, stored_base);
    lemma_mix_low_26(
        mix(mix(s1, stored_base), stored_base),
        mix(mix(s2, stored_base), stored_base),
        stored_base,
        stored_base,
    );
}

/// The low 26 bits of the state that a cell starts from depend on the low
/// 26 bits of the stored world seed only.
pub proof fn lemma_cell_low_26(w1: i64, w2: i64, x: i64, z: i64)
    requires
        same_low_26(w1, w2),
    ensures
        same_low_26(cell_seed(w1, x, z), cell_seed(w2, x, z)),
{
    lemma_mix_low_26(w1, w2, x, x);
    lemma_mix_low_26(mix(w1, x), mix(w2, x), z, z);
    lemma_mix_low_26(mix(mix(w1, x), z), mix(mix(w2, x), z), x, x);
    lemma_mix_low_26(mix(mix(mix(w1, x), z), x), mix(mix(mix(w2, x), z), x), z, z);
}

/// A draw among two or among four depends on the low 26 bits of the state
/// only: it takes the bits 24 and 25.
pub proof fn lemma_drawn_low_26(c1: i64, c2: i64)
    requires
        same_low_26(c1, c2),
    ensures
        drawn(c1, 2) == drawn(c2, 2),
        drawn(c1, 4) == drawn(c2, 4),
        forall|a: i32, b: i32| chosen2(c1, a, b) == chosen2(c2, a, b),
        forall|a: i32, b: i32, c: i32, d: i32| chosen4(c1, a, b, c, d) == chosen4(c2, a, b, c, d),
        forall|a: i32, b: i32, c: i32, d: i32|
            mode_or_chosen(c1, a, b, c, d) == mode_or_chosen(c2, a, b, c, d),
{
    let y1 = c1 >> 24;
    let y2 = c2 >> 24;
    assert(y1 % 4 == y2 % 4 && y1 % 2 == y2 % 2) by (bit_vector)
        requires
            y1 == c1 >> 24,
            y2 == c2 >> 24,
            c1 & 0x3FF_FFFF == c2 & 0x3FF_FFFF,
    ;
}

/// Which seeds of 25 bits are smaller than their twins: those up to
/// 0xA9A80A, whose twins lie above them up to the low 25 bits of the
/// constant, and those from 0x1535016 up to 0x1A9A80A, whose twins lie
/// above them up to the greatest seed of 25 bits.
pub proof fn lemma_smaller_twin_25(x: i64)
    requires
        0 <= x < 0x200_0000,
    ensures
        is_smaller_twin(x, 25) <==> (x <= 0xA9A80A || 0x1535016 <= x <= 0x1A9A80A),
        (1u64 << 25u8) == 0x200_0000,
{
    let t = similar_seed(x);
    assert(t == -7379792620528906219 - x);
    assert(((1u64 << 25u8) - 1) as i64 == 0x1FF_FFFFi64 && (1u64 << 25u8) == 0x200_0000 && (t
        & 0x1FF_FFFF) == t % 0x200_0000) by (bit_vector);
    let m = 0x200_0000int;
    let c = 0x1535015int;
    assert(-7379792620528906219int == m * (-219934958832) + c);
    if x <= c {
        lemma_fundamental_div_mod_converse(t as int, m, -219934958832, c - x);
    } else {
        lemma_fundamental_div_mod_converse(t as int, m, -219934958833, c - x + m);
    }
}

/// The number of seeds of 25 bits below `upto` that are smaller than
/// their twins.
pub open spec fn twins_below(upto: int) -> int {
    (if upto <= 0xA9A80B {
        upto
    } else {
        0xA9A80B
    }) + (if upto <= 0x1535016 {
        0
    } else if upto <= 0x1A9A80B {
        upto - 0x1535016
    } else {
        0x5657F5
    })
}

/// The list of the seeds of 25 bits that are smaller than their twins
/// rises, so that no seed comes twice, and has as many entries below
/// `upto` as `twins_below` says.
pub proof fn lemma_smaller_twins_25(upto: nat)
    requires
        upto <= 0x200_0000,
    ensures
        smaller_twins(25, upto).len() == twins_below(upto as int),
        forall|k: int|
            0 <= k < smaller_twins(25, upto).len() ==> 0 <= #[trigger] smaller_twins(25, upto)[k]
                < upto,
        forall|i: int, j: int|
            0 <= i < j < smaller_twins(25, upto).len() ==> smaller_twins(25, upto)[i]
                < smaller_twins(25, upto)[j],
    decreases upto,
{
    if upto > 0 {
        lemma_smaller_twins_25((upto - 1) as nat);
        lemma_smaller_twin_25((upto - 1) as i64);
    }
}

/// Of the 2^25 seeds of 25 bits, 2^24 are smaller than their twins: the
/// list of them holds one seed of every pair, each once.
pub proof fn lemma_twins_25_count()
    ensures
        smaller_twins(25, (1u64 << 25u8) as nat).len() == 0x100_0000,
        smaller_twins(25, (1u64 << 25u8) as nat).no_duplicates(),
{
    lemma_smaller_twin_25(0);
    lemma_smaller_twins_25(0x200_0000);
}

} // verus!
