//! What the outputs of the generator tell about its state: the statements
//! behind the functions that recover a state from one or two outputs.

use vstd::prelude::*;
use vstd::arithmetic::div_mod::*;
use super::{
    high_int, lcg_back, lcg_step, lemma_mod_equal, long_of, low_int, modulus, top_bits,
};
use super::theory::{lemma_step_inverse, lemma_step_in_range};

verus! {

/// Bits 16 to 31 of a state.
pub open spec fn bits_16_32(s: int) -> int {
    (s / 0x10000) % 0x10000
}

/// Bits 16 to 47 of a state: what `next(32)` hands out, read without sign.
pub open spec fn bits_16_48(s: int) -> int {
    (s / 0x10000) % 0x1_0000_0000
}

/// The 32-bit word that tells whether bits 16 to 31 of the state before
/// `state` are `target`: the low 32 bits of the step from `target` joined
/// with the low 16 bits of the state before, xor-ed with the low 32 bits of
/// `state`.
pub open spec fn verify_word(state: int, target: u16) -> u32 {
    let p: u32 = ((target as u32) << 16) | ((lcg_back(state) % 0x10000) as u32);
    p.wrapping_mul(0xDEECE66D).wrapping_add(0xB) ^ ((state % 0x1_0000_0000) as u32)
}

/// The word that tells in which of its low `n` bits, at most 48, `state`
/// differs from the step from `target` joined with the low 16 bits of the
/// state before.
pub open spec fn verify_bits(state: int, target: u64, mask: u64) -> u64 {
    let p: u64 = (target << 16) | ((lcg_back(state) % 0x10000) as u64);
    (p.wrapping_mul(0x5DEECE66D).wrapping_add(0xB) ^ (state as u64)) & mask
}

/// A 32-bit wrapping step is the step modulo 2^32.
pub proof fn lemma_step32(p: u32)
    ensures
        p.wrapping_mul(0xDEECE66D).wrapping_add(0xB) as int % 0x1_0000_0000 == (p * 0x5DEECE66D
            + 0xB) % 0x1_0000_0000,
{
    let w: int = 0x1_0000_0000;
    let t = p.wrapping_mul(0xDEECE66D);
    assert(t as int == (p * 0xDEECE66D) % w);
    assert(p * 0xDEECE66D == p * 0x5DEECE66D + (-5 * p) * w);
    lemma_mod_equal(p * 0xDEECE66D, p * 0x5DEECE66D, -5 * p, w);
    lemma_mod_twice(p * 0xDEECE66D, w);
    let r = t.wrapping_add(0xB);
    if t + 0xB > u32::MAX {
        lemma_mod_equal(r as int, t + 0xB, -1, w);
    }
    lemma_add_mod_noop(t as int, 0xB, w);
    lemma_add_mod_noop(p * 0x5DEECE66D, 0xB, w);
}

/// The low 32 bits of the step from `target` joined with the low 16 bits
/// of `prev` are the low 32 bits of the step from `prev` exactly if bits 16
/// to 31 of `prev` are `target`.
pub proof fn lemma_verify_step(prev: int, target: int, p2: int)
    requires
        0 <= prev < modulus(),
        0 <= target < 0x10000,
        0 <= p2 < 0x1_0000_0000,
        p2 == ((target * 0x10000 + prev % 0x10000) * 0x5DEECE66D + 0xB) % 0x1_0000_0000,
    ensures
        (p2 == lcg_step(prev) % 0x1_0000_0000) <==> (bits_16_32(prev) == target),
{
    let w: int = 0x1_0000_0000;
    let a: int = 0x5DEECE66D;
    let inv: int = 0xdfe05bcb1365;
    let low = prev % 0x10000;
    let q = prev / 0x10000;
    let mid = q % 0x10000;
    let hi = q / 0x10000;
    lemma_fundamental_div_mod(prev, 0x10000);
    lemma_fundamental_div_mod(q, 0x10000);
    assert(prev == w * hi + 0x10000 * mid + low);
    let p = target * 0x10000 + low;
    let dlt = target - mid;
    let x = prev * a + 0xB;
    let y = (dlt * a) * 0x10000;
    assert(lcg_step(prev) % w == x % w) by {
        lemma_mod_mod(x, w, 0x10000);
    }
    assert(p * a + 0xB == (x + y) + (-(hi * a)) * w);
    lemma_mod_equal(p * a + 0xB, x + y, -(hi * a), w);
    if dlt == 0 {
        assert(y == 0);
    } else {
        if p2 == lcg_step(prev) % w {
            assert((x + y) % w == x % w);
            lemma_sub_mod_noop(x + y, x, w);
            assert(y % w == 0);
            lemma_fundamental_div_mod(y, w);
            let k = y / w;
            assert(dlt * a == 0x10000 * k);
            lemma_mod_equal(dlt * a, 0, k, 0x10000);
            assert((dlt * a) % 0x10000 == 0);
            lemma_mul_mod_noop_left(dlt * a, inv, 0x10000);
            assert(a * inv == 1 + 22050866921 * 0x1_0000_0000_0000);
            assert((dlt * a) * inv == dlt + (dlt * 22050866921 * 0x1_0000_0000) * 0x10000)
                by (nonlinear_arith)
                requires
                    a * inv == 1 + 22050866921 * 0x1_0000_0000_0000,
            ;
            lemma_mod_equal((dlt * a) * inv, dlt, dlt * 22050866921 * 0x1_0000_0000, 0x10000);
            assert(dlt % 0x10000 == 0);
            assert(false);
        }
    }
}

/// Whether the 16 bits `l` join two consecutive 32-bit outputs: the state
/// made of `i0` above `l` is followed by a state whose bits 16 to 47 are
/// `i1`.
pub open spec fn joins(i0: u32, l: u16, i1: u32) -> bool {
    bits_16_48(lcg_step(i0 * 0x10000 + l)) == i1
}

/// What is left of the second output when the share of the first one is
/// taken away: `i1 - i0 * A` modulo 2^32.
pub open spec fn join_rest(i0: u32, i1: u32) -> int {
    (i1 - i0 * 0x5DEECE66D) % 0x1_0000_0000
}

/// The `i`-th guess at the 16 bits that join two outputs.
pub open spec fn join_candidate(i0: u32, i1: u32, i: int) -> u16 {
    (((join_rest(i0, i1) + i * 0x1_0000_0000) / 0x5DEEC) % 0x10000) as u16
}

/// Dividing a remainder modulo 2^48 by 2^16 gives the quotient modulo 2^32.
pub proof fn lemma_bits_16_48(x: int)
    requires
        0 <= x,
    ensures
        bits_16_48(x % modulus()) == (x / 0x10000) % 0x1_0000_0000,
{
    lemma_breakdown(x, 0x10000, 0x1_0000_0000);
    let r = x % modulus();
    let b = x % 0x10000;
    let c = (x / 0x10000) % 0x1_0000_0000;
    assert(r == 0x10000 * c + b);
    lemma_fundamental_div_mod_converse(r, 0x10000, c, b);
    lemma_small_mod(c as nat, 0x1_0000_0000);
}

/// The test that `low_16_for_next_int` makes on a guess is the test whether
/// the guess joins the two outputs.
pub proof fn lemma_joins(i0: u32, l: u16, i1: u32, y: int)
    requires
        y == ((l * 0x5DEECE66D + 0xB) / 0x10000) % 0x1_0000_0000,
    ensures
        (y == join_rest(i0, i1)) <==> joins(i0, l, i1),
{
    let w: int = 0x1_0000_0000;
    let a: int = 0x5DEECE66D;
    let t = l * a + 0xB;
    let s = i0 * 0x10000 + l;
    let x = s * a + 0xB;
    lemma_bits_16_48(x);
    assert(x == t + (i0 * a) * 0x10000);
    lemma_hoist_over_denominator(t, i0 * a, 0x10000);
    assert(x / 0x10000 == t / 0x10000 + i0 * a);
    let u = t / 0x10000;
    // joins <==> (u + i0 * a) % w == i1
    lemma_add_mod_noop(u, i0 * a, w);
    lemma_sub_mod_noop(i1 as int, i0 * a, w);
    lemma_small_mod(i1 as nat, w as nat);
    if y == join_rest(i0, i1) {
        // u % w == (i1 - i0 * a) % w, so (u + i0 * a) % w == i1 % w
        lemma_add_mod_noop(i1 - i0 * a, i0 * a, w);
    }
    if joins(i0, l, i1) {
        // (u + i0 * a) % w == i1, so u % w == (i1 - i0 * a) % w
        lemma_sub_mod_noop(u + i0 * a, i0 * a, w);
        lemma_mod_twice(u, w);
    }
}

/// The part of the state that the low 48 bits of a 64-bit output fix: its
/// bits 16 to 47, taken from the low 32 bits of the output.
pub open spec fn extend_base(l48: u64) -> int {
    ((low_int(l48 as i64) as u32) as int) * 0x10000
}

/// Bits 16 to 31 of the state before, as the low 48 bits of a 64-bit
/// output give them.
pub open spec fn extend_target(l48: u64) -> int {
    (high_int(l48 as i64) as u16) as int
}

/// Whether the state made of `extend_base` and the low 16 bits `k0` comes
/// after a state that agrees with the output.
pub open spec fn extend_passes(l48: u64, k0: int) -> bool {
    bits_16_32(lcg_back(extend_base(l48) + k0)) == extend_target(l48)
}

/// The 64-bit output that ends in the state made of `extend_base` and the
/// low 16 bits `k0`.
pub open spec fn extend_long(l48: u64, k0: int) -> u64 {
    long_of(
        top_bits(lcg_back(extend_base(l48) + k0), 32),
        top_bits(extend_base(l48) + k0, 32),
    ) as u64
}

/// The 64-bit outputs found among the first `k` values of the low 16 bits,
/// in rising order of those bits.
pub open spec fn extend_upto(l48: u64, k: nat) -> Seq<u64>
    decreases k,
{
    if k == 0 {
        Seq::empty()
    } else {
        let before = extend_upto(l48, (k - 1) as nat);
        if extend_passes(l48, k - 1) {
            before.push(extend_long(l48, k - 1))
        } else {
            before
        }
    }
}

/// A value of the low 16 bits that passes puts its output in the list.
pub proof fn lemma_extend_member(l48: u64, k: nat, n: nat)
    requires
        k < n,
        extend_passes(l48, k as int),
    ensures
        extend_upto(l48, n).contains(extend_long(l48, k as int)),
    decreases n,
{
    let before = extend_upto(l48, (n - 1) as nat);
    if k == n - 1 {
        let s = before.push(extend_long(l48, k as int));
        assert(s[before.len() as int] == extend_long(l48, k as int));
    } else {
        lemma_extend_member(l48, k, (n - 1) as nat);
        let i = choose|i: int| 0 <= i < before.len() && before[i] == extend_long(l48, k as int);
        if extend_passes(l48, n - 1) {
            let s = before.push(extend_long(l48, n - 1));
            assert(s[i] == extend_long(l48, k as int));
        }
    }
}

/// What the low 48 bits of a 64-bit output keep of the two states behind
/// it: bits 16 to 47 of the second and bits 16 to 31 of the first.
pub proof fn lemma_extend_parts(s1: int, s2: int)
    requires
        0 <= s1 < modulus(),
        0 <= s2 < modulus(),
    ensures
        ({
            let full = long_of(top_bits(s1, 32), top_bits(s2, 32)) as u64;
            let l48 = full & 0xFFFF_FFFF_FFFF;
            &&& extend_base(l48) == (s2 / 0x10000) * 0x10000
            &&& extend_target(l48) == bits_16_32(s1)
        }),
{
    let x1 = s1 as u64;
    let x2 = s2 as u64;
    let i0 = top_bits(s1, 32);
    let i1 = top_bits(s2, 32);
    let h = (i0 * 0x1_0000_0000) as i64;
    let w = i1 as i64;
    let l = long_of(i0, i1);
    let full = l as u64;
    let l48 = full & 0xFFFF_FFFF_FFFF;
    let b = ((l48 as i64) as i32) as u32;
    let t = ((((l48 as i64) >> 32) + (((l48 as i64) >> 31) & 1)) as i32) as u16;
    assert(b == x2 / 0x10000 && t == (x1 / 0x10000) % 0x10000) by (bit_vector)
        requires
            x1 < 0x1_0000_0000_0000,
            x2 < 0x1_0000_0000_0000,
            i0 == (x1 >> 16) as i32,
            i1 == (x2 >> 16) as i32,
            h == i0 * 0x1_0000_0000,
            w == i1,
            l == h + w || l == h + w - 0x1_0000_0000_0000_0000 || l == h + w
                + 0x1_0000_0000_0000_0000,
            full == l as u64,
            l48 == full & 0xFFFF_FFFF_FFFF,
            b == ((l48 as i64) as i32) as u32,
            t == ((((l48 as i64) >> 32) + (((l48 as i64) >> 31) & 1)) as i32) as u16,
    ;
}

/// The two 32-bit halves that a 64-bit number is split into join to that
/// number again.
pub proof fn lemma_long_from_ints(l: i64)
    ensures
        long_of(high_int(l), low_int(l)) == l,
{
    let i0 = high_int(l);
    let i1 = low_int(l);
    let h = (i0 * 0x1_0000_0000) as i64;
    let w = i1 as i64;
    let r = long_of(i0, i1);
    assert(r == l) by (bit_vector)
        requires
            i0 == ((l >> 32) + ((l >> 31) & 1)) as i32,
            i1 == l as i32,
            h == i0 * 0x1_0000_0000,
            w == i1,
            r == h + w || r == h + w - 0x1_0000_0000_0000_0000 || r == h + w
                + 0x1_0000_0000_0000_0000,
    ;
}

/// Among the 64-bit outputs that `extend_long_48` finds for the low 48 bits
/// of an output of the generator is that output itself.
pub proof fn lemma_extend_contains(r: int)
    requires
        0 <= r < modulus(),
    ensures
        ({
            let s1 = lcg_step(r);
            let s2 = lcg_step(s1);
            let full = long_of(top_bits(s1, 32), top_bits(s2, 32)) as u64;
            extend_upto(full & 0xFFFF_FFFF_FFFF, 0x10000).contains(full)
        }),
{
    let s1 = lcg_step(r);
    let s2 = lcg_step(s1);
    let full = long_of(top_bits(s1, 32), top_bits(s2, 32)) as u64;
    let l48 = full & 0xFFFF_FFFF_FFFF;
    let k0 = s2 % 0x10000;
    lemma_extend_parts(s1, s2);
    lemma_fundamental_div_mod(s2, 0x10000);
    assert(extend_base(l48) + k0 == s2);
    lemma_step_inverse(s1);
    lemma_step_in_range(r);
    assert(lcg_back(s2) == s1);
    assert(extend_passes(l48, k0));
    assert(extend_long(l48, k0) == full);
    lemma_extend_member(l48, k0 as nat, 0x10000);
}

/// The two parts that the search works with fix the low 48 bits of an
/// output: two numbers of 48 bits with the same parts are one number.
pub proof fn lemma_parts_fix_low_48(a: u64, b: u64)
    requires
        a < 0x1_0000_0000_0000,
        b < 0x1_0000_0000_0000,
        extend_base(a) == extend_base(b),
        extend_target(a) == extend_target(b),
    ensures
        a == b,
{
    let a1 = ((a as i64) as i32) as u32;
    let b1 = ((b as i64) as i32) as u32;
    let a2 = ((((a as i64) >> 32) + (((a as i64) >> 31) & 1)) as i32) as u16;
    let b2 = ((((b as i64) >> 32) + (((b as i64) >> 31) & 1)) as i32) as u16;
    assert(a1 == b1);
    assert(a2 == b2);
    assert(a == b) by (bit_vector)
        requires
            a < 0x1_0000_0000_0000,
            b < 0x1_0000_0000_0000,
            a1 == b1,
            a2 == b2,
            a1 == ((a as i64) as i32) as u32,
            b1 == ((b as i64) as i32) as u32,
            a2 == ((((a as i64) >> 32) + (((a as i64) >> 31) & 1)) as i32) as u16,
            b2 == ((((b as i64) >> 32) + (((b as i64) >> 31) & 1)) as i32) as u16,
    ;
}

/// An output that the search finds has the low 48 bits that were given.
pub proof fn lemma_extend_low_48(l48: u64, k0: int)
    requires
        l48 < 0x1_0000_0000_0000,
        0 <= k0 < 0x10000,
        extend_passes(l48, k0),
    ensures
        extend_long(l48, k0) & 0xFFFF_FFFF_FFFF == l48,
{
    let s2 = extend_base(l48) + k0;
    let s1 = lcg_back(s2);
    lemma_step_in_range(s2);
    lemma_mod_bound((s2 - 0xB) * 0xdfe05bcb1365, modulus());
    assert(0 <= s1 < modulus());
    assert(0 <= s2 < modulus());
    let full = extend_long(l48, k0);
    let low = full & 0xFFFF_FFFF_FFFF;
    assert(low < 0x1_0000_0000_0000) by (bit_vector)
        requires
            low == full & 0xFFFF_FFFF_FFFF,
    ;
    lemma_extend_parts(s1, s2);
    assert(extend_base(low) == (s2 / 0x10000) * 0x10000);
    assert(extend_base(l48) % 0x10000 == 0) by {
        lemma_mod_multiples_basic(((low_int(l48 as i64) as u32) as int), 0x10000);
    }
    lemma_fundamental_div_mod(s2, 0x10000);
    lemma_fundamental_div_mod_converse(s2, 0x10000, (low_int(l48 as i64) as u32) as int, k0);
    lemma_parts_fix_low_48(low, l48);
}

/// Every output in the list that `extend_long_48` gives has the low 48
/// bits that were given.
pub proof fn lemma_extend_upto_low_48(l48: u64, k: nat, i: int)
    requires
        l48 < 0x1_0000_0000_0000,
        k <= 0x10000,
        0 <= i < extend_upto(l48, k).len(),
    ensures
        extend_upto(l48, k)[i] & 0xFFFF_FFFF_FFFF == l48,
    decreases k,
{
    if k > 0 {
        let before = extend_upto(l48, (k - 1) as nat);
        if i < before.len() {
            lemma_extend_upto_low_48(l48, (k - 1) as nat, i);
        } else {
            lemma_extend_low_48(l48, k - 1);
        }
    }
}

/// The low 16 bits of a state join what the state hands out with what
/// the next state hands out, and they are one of the six guesses of
/// `low_16_for_next_int`: the function finds 16 bits for every pair of
/// outputs that two states in a row have handed out.
pub proof fn lemma_low_16_is_a_guess(s: int) -> (i: int)
    requires
        0 <= s < modulus(),
    ensures
        ({
            let i0 = bits_16_48(s) as u32;
            let i1 = bits_16_48(lcg_step(s)) as u32;
            let l = (s % 0x10000) as u16;
            &&& joins(i0, l, i1)
            &&& 0 <= i < 6
            &&& join_candidate(i0, i1, i) == l
        }),
{
    let q = s / 0x10000;
    let l = s % 0x10000;
    lemma_fundamental_div_mod(s, 0x10000);
    lemma_small_mod(q as nat, 0x1_0000_0000);
    let i0 = bits_16_48(s) as u32;
    assert(i0 == q);
    assert(i0 * 0x10000 + l == s);
    let s2 = lcg_step(s);
    lemma_step_in_range(s);
    lemma_mod_bound(s * 0x5DEECE66D + 0xB, modulus());
    lemma_fundamental_div_mod(s2, 0x10000);
    lemma_mod_bound(s2 / 0x10000, 0x1_0000_0000);
    let i1 = bits_16_48(s2) as u32;
    assert(joins(i0, l as u16, i1));
    let t = l * 0x5DEECE66D + 0xB;
    let big = t / 0x10000;
    let y = big % 0x1_0000_0000;
    lemma_joins(i0, l as u16, i1, y);
    assert(y == join_rest(i0, i1));
    // The quotient is the 16 bits times the high part of the multiplier,
    // and less than that high part more.
    let low = l * 0xE66D + 0xB;
    let e = low / 0x10000;
    lemma_fundamental_div_mod(low, 0x10000);
    assert(t == 0x10000 * (l * 0x5DEEC + e) + low % 0x10000);
    lemma_fundamental_div_mod_converse(t, 0x10000, l * 0x5DEEC + e, low % 0x10000);
    assert(big == l * 0x5DEEC + e);
    assert(0 <= e < 0x5DEEC);
    lemma_fundamental_div_mod_converse(big, 0x5DEEC, l, e);
    lemma_fundamental_div_mod(big, 0x1_0000_0000);
    let i = big / 0x1_0000_0000;
    assert(big == join_rest(i0, i1) + i * 0x1_0000_0000);
    lemma_small_mod(l as nat, 0x10000);
    i
}

/// Bits 16 to 31 of the state before a state, from the low 32 bits of
/// the product that gives the state before.
pub proof fn lemma_back_bits(s: int)
    ensures
        bits_16_32(lcg_back(s)) == (((s - 0xB) * 0xdfe05bcb1365) % 0x1_0000_0000) / 0x10000,
        0 <= ((s - 0xB) * 0xdfe05bcb1365) % 0x1_0000_0000 < 0x1_0000_0000,
{
    let x = (s - 0xB) * 0xdfe05bcb1365;
    let b = lcg_back(s);
    lemma_mod_bound(x, modulus());
    lemma_mod_bound(x, 0x1_0000_0000);
    lemma_mod_mod(x, 0x1_0000_0000, 0x10000);
    let w = b % 0x1_0000_0000;
    assert(w == x % 0x1_0000_0000);
    lemma_breakdown(b, 0x10000, 0x10000);
    lemma_mod_bound(b, 0x10000);
    lemma_fundamental_div_mod_converse(w, 0x10000, (b / 0x10000) % 0x10000, b % 0x10000);
}

/// Of the products of the inverse multiplier with the numbers from 1 up
/// to 2^16, one only lies within 2^16 of a multiple of 2^32: that with
/// 39761.
pub proof fn lemma_one_near_multiple(d: u64)
    requires
        1 <= d < 0x10000,
        d != 39761,
    ensures
        0x10000 <= (d * 0xdfe05bcb1365) % 0x1_0000_0000 <= 0xFFFF_0000,
{
    assert(0x10000 <= (d * 0xdfe05bcb1365) % 0x1_0000_0000 && (d * 0xdfe05bcb1365)
        % 0x1_0000_0000 <= 0xFFFF_0000) by (bit_vector)
        requires
            1 <= d < 0x10000,
            d != 39761,
    ;
}

/// Two values of the low 16 bits that pass lie 39761 apart.
pub proof fn lemma_passes_apart(l48: u64, k0: int, k1: int)
    requires
        0 <= k0 < k1 < 0x10000,
        extend_passes(l48, k0),
        extend_passes(l48, k1),
    ensures
        k1 - k0 == 39761,
{
    let base = extend_base(l48);
    let x0 = (base + k0 - 0xB) * 0xdfe05bcb1365;
    let x1 = (base + k1 - 0xB) * 0xdfe05bcb1365;
    let w0 = x0 % 0x1_0000_0000;
    let w1 = x1 % 0x1_0000_0000;
    lemma_back_bits(base + k0);
    lemma_back_bits(base + k1);
    let t = extend_target(l48);
    lemma_fundamental_div_mod(w0, 0x10000);
    lemma_fundamental_div_mod(w1, 0x10000);
    lemma_mod_bound(w0, 0x10000);
    lemma_mod_bound(w1, 0x10000);
    assert(-0x10000 < w1 - w0 < 0x10000);
    let d = k1 - k0;
    assert(x1 - x0 == d * 0xdfe05bcb1365) by (nonlinear_arith)
        requires
            x0 == (base + k0 - 0xB) * 0xdfe05bcb1365,
            x1 == (base + k1 - 0xB) * 0xdfe05bcb1365,
            d == k1 - k0,
    ;
    lemma_sub_mod_noop(x1, x0, 0x1_0000_0000);
    let p = (d * 0xdfe05bcb1365) % 0x1_0000_0000;
    assert(p == (w1 - w0) % 0x1_0000_0000);
    if w1 - w0 >= 0 {
        lemma_small_mod((w1 - w0) as nat, 0x1_0000_0000);
    } else {
        lemma_fundamental_div_mod_converse(w1 - w0, 0x1_0000_0000, -1, w1 - w0 + 0x1_0000_0000);
    }
    if d != 39761 {
        lemma_one_near_multiple(d as u64);
    }
}

/// Where the list of the outputs found below `k` has more than `n`
/// entries, a value of the low 16 bits passes before which `n` were found.
pub proof fn lemma_passing_at(l48: u64, k: nat, n: nat) -> (p: int)
    requires
        extend_upto(l48, k).len() > n,
    ensures
        0 <= p < k,
        extend_passes(l48, p),
        extend_upto(l48, p as nat).len() == n,
    decreases k,
{
    if k == 0 {
        0
    } else if extend_passes(l48, k - 1) && extend_upto(l48, (k - 1) as nat).len() == n {
        k - 1
    } else {
        lemma_passing_at(l48, (k - 1) as nat, n)
    }
}

/// The low 48 bits of an output belong to no more than two outputs: the
/// list that `extend_long_48` gives has no more than two entries.
pub proof fn lemma_extend_at_most_two(l48: u64)
    ensures
        extend_upto(l48, 0x10000).len() <= 2,
{
    if extend_upto(l48, 0x10000).len() > 2 {
        let a = lemma_passing_at(l48, 0x10000, 0);
        let b = lemma_passing_at(l48, 0x10000, 1);
        let c = lemma_passing_at(l48, 0x10000, 2);
        lemma_upto_rises(l48, a as nat, b as nat);
        lemma_upto_rises(l48, b as nat, a as nat);
        lemma_upto_rises(l48, b as nat, c as nat);
        lemma_upto_rises(l48, c as nat, b as nat);
        assert(a < b < c);
        lemma_passes_apart(l48, a, b);
        lemma_passes_apart(l48, b, c);
        lemma_passes_apart(l48, a, c);
    }
}

/// The list of the outputs found grows with the number of values tried.
pub proof fn lemma_upto_rises(l48: u64, k: nat, n: nat)
    ensures
        k <= n ==> extend_upto(l48, k).len() <= extend_upto(l48, n).len(),
    decreases n,
{
    if k < n {
        lemma_upto_rises(l48, k, (n - 1) as nat);
    }
}

} // verus!
