//! The 48-bit linear congruential generator, with the operations that run it
//! backwards, jump over many steps, and recover its state from its outputs.

use vstd::prelude::*;
use vstd::arithmetic::power2::*;
use vstd::arithmetic::div_mod::*;
use vstd::bits::*;
use crate::double::{
    ddiv, dfrom, double_of_int, double_quotient, sdiv, sfrom, single_of_int, single_quotient,
    SINGLE_TWO_TO_24, TWO_TO_53,
};
use vstd::arithmetic::power::*;
use crate::java_rng::recover::{
    bits_16_32, extend_base, extend_target, extend_upto, join_candidate,
    lemma_extend_at_most_two, lemma_extend_upto_low_48,
    join_rest, joins, lemma_joins, lemma_long_from_ints, lemma_step32, lemma_verify_step,
    verify_bits, verify_word,
};
use crate::java_rng::theory::{
    divides, lemma_divides_combination, lemma_mod_inv_step, lemma_odd_divisor_of_pow2,
    lemma_pow2_divides_wrap, lemma_step_inverse, lemma_step_in_range,
    lemma_steps_decrease, steps_to_zero,
    distance_known, geo, lemma_distance_done, lemma_distance_gap, lemma_distance_least,
    lemma_distance_round, lemma_distance_start, lemma_iter_adds, lemma_jump_by_pair, lemma_pair_doubles, p2,
    back_increment, eqm, lemma_eqm_add, lemma_eqm_mul, lemma_eqm_wrapping, lemma_iter_back_is_affine,
    lemma_iter_back_reduced, lemma_iter_is_affine, lemma_jump_formula, lemma_pow_wrapped_mod4,
    lemma_pow_wrapping_step,
    wrap64,
};

pub mod lcg_const;
pub mod lcg_const_extra;
pub mod theory;
pub mod recover;

verus! {

/// 2^48, the number of states of the generator.
pub open spec fn modulus() -> int {
    0x1_0000_0000_0000
}

/// The state that follows `s`: `(s * A + C) mod 2^48`.
pub open spec fn lcg_step(s: int) -> int {
    (s * 0x5DEECE66D + 0xB) % modulus()
}

/// The state that precedes `s`: `(s - C) * A^-1 mod 2^48`.
pub open spec fn lcg_back(s: int) -> int {
    ((s - 0xB) * 0xdfe05bcb1365) % modulus()
}

/// The state reached from `s` by `n` steps forward.
pub open spec fn lcg_iter(s: int, n: nat) -> int
    decreases n,
{
    if n == 0 {
        s % modulus()
    } else {
        lcg_step(lcg_iter(s, (n - 1) as nat))
    }
}

/// The state reached from `s` by `n` steps backward.
pub open spec fn lcg_iter_back(s: int, n: nat) -> int
    decreases n,
{
    if n == 0 {
        s % modulus()
    } else {
        lcg_back(lcg_iter_back(s, (n - 1) as nat))
    }
}

/// The top `bits` bits of a 48-bit state, as the generator hands them out:
/// truncated to 32 bits and read as a signed number.
pub open spec fn top_bits(state: int, bits: u8) -> i32 {
    ((state as u64) >> ((48 - bits) as u64)) as i32
}

/// A seed as the generator stores it: xor-ed with `A`, low 48 bits.
pub open spec fn scramble(s: u64) -> u64 {
    (s ^ 0x5DEECE66D) & 0xFFFF_FFFF_FFFF
}

/// The 31 bits that one draw takes from a state: its top 31 bits.
pub open spec fn draw31(s: int) -> int {
    s / 0x20000
}

/// Whether a draw of 31 bits is kept when a number below `n` is asked for:
/// draws from the last, incomplete run of `n` values below 2^31 are dropped.
pub open spec fn accepted(bits: int, n: int) -> bool {
    bits - bits % n + n <= 0x8000_0000
}

/// The `k`-th draw from `s` is the first one that is kept.
pub open spec fn first_accepted(s: int, n: int, k: nat) -> bool {
    &&& k >= 1
    &&& accepted(draw31(lcg_iter(s, k)), n)
    &&& forall|j: nat| 1 <= j < k ==> !accepted(draw31(#[trigger] lcg_iter(s, j)), n)
}

/// The index of the first draw from `s` that is kept.
pub open spec fn first_kept(s: int, n: int) -> nat {
    choose|k: nat| first_accepted(s, n, k)
}

/// There is one first draw that is kept.
pub proof fn lemma_first_kept(s: int, n: int, k: nat)
    requires
        first_accepted(s, n, k),
    ensures
        first_kept(s, n) == k,
{
    let c = first_kept(s, n);
    assert(first_accepted(s, n, c));
    if c < k {
        assert(!accepted(draw31(lcg_iter(s, c)), n));
    }
    if k < c {
        assert(!accepted(draw31(lcg_iter(s, k)), n));
    }
}

/// The number from 0 up to `n` that `next_int_n` hands out from the state
/// `s`, and the state that it leaves.
pub open spec fn bounded_int(s: int, n: i32) -> (i32, int) {
    if single_bit(n) {
        (((n * draw31(lcg_step(s))) / 0x8000_0000) as i32, lcg_step(s))
    } else {
        let t = lcg_iter(s, first_kept(s, n as int));
        ((draw31(t) % (n as int)) as i32, t)
    }
}

/// The pattern of the double from 0 up to 1 that `next_double` hands out
/// from the state `s`: 26 bits of the next state above 27 bits of the one
/// after it, divided by 2^53.
pub open spec fn double_from(s: int) -> u64 {
    let s1 = lcg_step(s);
    let s2 = lcg_step(s1);
    double_quotient(
        double_of_int(((s1 / 0x40_0000) * 0x800_0000 + s2 / 0x20_0000) as i64),
        TWO_TO_53,
    )
}

/// The pattern of the number in single precision from 0 up to 1 that
/// `next_float` hands out from the state `s`: 24 bits of the next state,
/// divided by 2^24.
pub open spec fn single_from(s: int) -> u32 {
    single_quotient(single_of_int(top_bits(lcg_step(s), 24) as i64), SINGLE_TWO_TO_24)
}

/// Whether `n`, greater than zero, is a power of two.
pub open spec fn single_bit(n: i32) -> bool {
    n & ((0 - n) as i32) == n
}

/// Ten is no power of two.
pub proof fn lemma_ten_has_two_bits()
    ensures
        !single_bit(10),
{
    assert(!single_bit(10)) by (bit_vector);
}

/// The low 32 bits of the multiplier.
pub proof fn lemma_multiplier_low_32()
    ensures
        0x5DEECE66Du64 & 0xFFFF_FFFFu64 == 0xDEECE66D,
{
    assert(0x5DEECE66Du64 & 0xFFFF_FFFFu64 == 0xDEECE66D) by (bit_vector);
}

/// A shift by two bits is a division by four.
pub proof fn lemma_quarter(x: u64)
    ensures
        x >> 2 == x / 4,
{
    assert(x >> 2 == x / 4) by (bit_vector);
}

/// The top bits of a state, as `next` hands them out, are the state divided
/// by a power of two, for up to 31 bits.
pub proof fn lemma_top_bits(s: int, bits: u8)
    requires
        0 <= s < modulus(),
        bits == 26 || bits == 27,
    ensures
        bits == 26 ==> top_bits(s, bits) == s / 0x40_0000 && 0 <= s / 0x40_0000 < 0x400_0000,
        bits == 27 ==> top_bits(s, bits) == s / 0x20_0000 && 0 <= s / 0x20_0000 < 0x800_0000,
{
    let x = s as u64;
    assert((x >> 22) == x / 0x40_0000 && (x >> 22) < 0x400_0000 && (x >> 21) == x / 0x20_0000 && (x
        >> 21) < 0x800_0000) by (bit_vector)
        requires
            x < 0x1_0000_0000_0000,
    ;
}

/// The top 31 bits of a state, as `next` hands them out, are a number from 0
/// up to 2^31.
pub proof fn lemma_draw31(s: int)
    requires
        0 <= s < modulus(),
    ensures
        top_bits(s, 31) == draw31(s),
        0 <= draw31(s) < 0x8000_0000,
{
    let x = s as u64;
    assert((x >> 17) == x / 0x20000 && (x >> 17) < 0x8000_0000) by (bit_vector)
        requires
            x < 0x1_0000_0000_0000,
    ;
}

/// The test for modulo bias, made in wrapping 32-bit arithmetic, is the
/// test whether the draw is kept.
pub proof fn lemma_accept_test(bits: i32, n: i32)
    requires
        0 <= bits,
        n > 0,
    ensures
        0 <= (bits as int) % (n as int) < n,
        (bits.wrapping_sub(((bits as int) % (n as int)) as i32).wrapping_add((n - 1) as i32) >= 0)
            <==> accepted(bits as int, n as int),
{
    lemma_mod_pos_bound(bits as int, n as int);
    lemma_mod_decreases(bits as nat, n as nat);
}

/// A draw below the last multiple of 10 under 2^31 is a draw that is kept.
pub proof fn lemma_accept_test_10(bits: i32)
    requires
        0 <= bits,
    ensures
        bits < 2147483640 <==> accepted(bits as int, 10),
{
}

/// A draw of zero is kept.
pub proof fn lemma_accepts_zero(n: int)
    requires
        0 < n <= 0x7FFF_FFFF,
    ensures
        accepted(draw31(0), n),
{
    lemma_small_mod(0, n as nat);
}

/// Return a mask which keeps the lower `n` bits.
pub fn mask(n: u8) -> (m: u64)
    requires
        n < 64,
    ensures
        m == pow2(n as nat) - 1,
{
    proof {
        lemma_u64_pow2_no_overflow(n as nat);
        lemma_u64_shl_is_mul(1, n as u64);
    }
    (1u64 << n) - 1
}

pub proof fn lemma_mask48(s: u64)
    ensures
        s & 0xFFFF_FFFF_FFFF == s % 0x1_0000_0000_0000,
        (s & 0xFFFF_FFFF_FFFF) as int == (s as int) % modulus(),
{
    assert(s & 0xFFFF_FFFF_FFFF == s % 0x1_0000_0000_0000) by (bit_vector);
}


/// The 64-bit number made of two consecutive 32-bit outputs: the first one
/// shifted up by 32 bits plus the second one, sign-extended, wrapping.
pub open spec fn long_of(i0: i32, i1: i32) -> i64 {
    ((i0 * 0x1_0000_0000) as i64).wrapping_add(i1 as i64)
}

/// The second of the two 32-bit outputs that make up `l`: its low 32 bits.
pub open spec fn low_int(l: i64) -> i32 {
    l as i32
}

/// The first of the two 32-bit outputs that make up `l`: its high 32 bits,
/// corrected for the borrow that a negative second output took from them.
pub open spec fn high_int(l: i64) -> i32 {
    ((l >> 32) + ((l >> 31) & 1)) as i32
}

/// Adding a multiple of the modulus does not change the remainder.
pub proof fn lemma_mod_shift(x: int, k: int, m: int)
    requires
        m > 0,
    ensures
        (x + k * m) % m == x % m,
        (x - k * m) % m == x % m,
{
    lemma_mod_multiples_vanish(k, x, m);
    lemma_mod_multiples_vanish(-k, x, m);
    assert(m * k == k * m) by (nonlinear_arith);
    assert(m * (-k) == -(k * m)) by (nonlinear_arith);
}

/// Two numbers that differ by a multiple of the modulus have one remainder.
pub proof fn lemma_mod_equal(x: int, y: int, k: int, m: int)
    requires
        m > 0,
        x == y + k * m,
    ensures
        x % m == y % m,
{
    lemma_mod_shift(y, k, m);
}

/// A 64-bit wrapping product, reduced to 48 bits, is the product reduced.
pub proof fn lemma_wrapping_mul_low48(x: u64, c: u64)
    ensures
        x.wrapping_mul(c) as int % modulus() == (x * c) % modulus(),
{
    let w: int = 0x1_0000_0000_0000_0000;
    let p: int = x * c;
    lemma_fundamental_div_mod(p, w);
    let q = p / w;
    assert(x.wrapping_mul(c) as int == p % w);
    assert(w * q == (q * 0x10000) * modulus()) by (nonlinear_arith)
        requires
            w == 0x10000 * modulus(),
    ;
    lemma_mod_equal(p % w, p, -(q * 0x10000), modulus());
}

/// Reducing a factor first does not change a product's remainder.
pub proof fn lemma_mul_low48(x: int, c: int)
    ensures
        (x * c) % modulus() == ((x % modulus()) * c) % modulus(),
{
    lemma_mul_mod_noop_left(x, c, modulus());
}

pub proof fn lemma_next_state(s: u64)
    ensures
        s.wrapping_mul(0x5DEECE66D).wrapping_add(0xB) as int % modulus() == lcg_step(s as int),
        lcg_step(s as int) == lcg_step(s as int % modulus()),
{
    let m = modulus();
    let p = s.wrapping_mul(0x5DEECE66D);
    let r = p.wrapping_add(0xB);
    lemma_wrapping_mul_low48(s, 0x5DEECE66D);
    assert(r as int == p + 0xB || r as int == p + 0xB - 0x10000 * m);
    if r as int == p + 0xB {
    } else {
        lemma_mod_equal(r as int, p + 0xB, -0x10000, m);
    }
    lemma_add_mod_noop(p as int, 0xB, m);
    lemma_add_mod_noop(s * 0x5DEECE66D, 0xB, m);
    lemma_mul_low48(s as int, 0x5DEECE66D);
    lemma_add_mod_noop((s as int % m) * 0x5DEECE66D, 0xB, m);
}

pub proof fn lemma_previous_state(s: u64)
    ensures
        s.wrapping_sub(0xB).wrapping_mul(0xdfe05bcb1365) as int % modulus() == lcg_back(s as int),
        lcg_back(s as int) == lcg_back(s as int % modulus()),
{
    let m = modulus();
    let d = s.wrapping_sub(0xB);
    lemma_wrapping_mul_low48(d, 0xdfe05bcb1365);
    assert(d as int == s - 0xB || d as int == s - 0xB + 0x10000 * m);
    lemma_mul_low48(d as int, 0xdfe05bcb1365);
    lemma_mul_low48(s - 0xB, 0xdfe05bcb1365);
    if d as int == s - 0xB {
    } else {
        lemma_mod_equal(d as int, s - 0xB, 0x10000, m);
    }
    lemma_mul_low48((s as int % m) - 0xB, 0xdfe05bcb1365);
    lemma_sub_mod_noop(s as int, 0xB, m);
    lemma_sub_mod_noop(s as int % m, 0xB, m);
    lemma_mod_twice(s as int, m);
}

/// Splitting a 64-bit number into its two 32-bit outputs undoes joining them.
pub proof fn lemma_ints_from_long(i0: i32, i1: i32)
    ensures
        high_int(long_of(i0, i1)) == i0,
        low_int(long_of(i0, i1)) == i1,
{
    let l = long_of(i0, i1);
    let h = (i0 * 0x1_0000_0000) as i64;
    let w = (i1 as i64);
    assert(l as i32 == i1 && ((l >> 32) + ((l >> 31) & 1)) as i32 == i0) by (bit_vector)
        requires
            h == i0 * 0x1_0000_0000,
            w == i1,
            l == h + w || l == h + w - 0x1_0000_0000_0000_0000 || l == h + w
                + 0x1_0000_0000_0000_0000,
    ;
}

#[derive(Copy, Clone, Debug)]
pub struct JavaRng {
    // Only the low 48 bits are state; the upper bits are masked where needed.
    seed: u64,
}

impl View for JavaRng {
    type V = int;

    /// The 48-bit state.
    closed spec fn view(&self) -> int {
        (self.seed as int) % modulus()
    }
}

impl JavaRng {
    /// The state is a number of 48 bits.
    pub proof fn lemma_state_range(&self)
        ensures
            0 <= self@ < 0x1_0000_0000_0000,
    {
    }

    pub fn with_seed(s: u64) -> (r: JavaRng)
        ensures
            r@ == scramble(s),
    {
        let mut r = JavaRng { seed: 0 };
        r.set_seed(s);
        r
    }

    pub fn with_raw_seed(s: u64) -> (r: JavaRng)
        ensures
            r@ == s % 0x1_0000_0000_0000,
    {
        let mut r = JavaRng { seed: 0 };
        r.set_raw_seed(s);
        r
    }

    pub fn set_seed(&mut self, s: u64)
        ensures
            final(self)@ == scramble(s),
    {
        self.seed = s ^ lcg_const::A;
        proof {
            lemma_mask48(self.seed);
        }
    }

    pub fn set_raw_seed(&mut self, s: u64)
        ensures
            final(self)@ == s % 0x1_0000_0000_0000,
    {
        self.seed = s;
    }

    pub fn get_seed(&self) -> (s: u64)
        ensures
            s == scramble(self@ as u64),
            s < 0x1_0000_0000_0000,
    {
        let m = mask(48);
        proof {
            lemma2_to64_rest();
            let x = self.seed;
            assert((x ^ 0x5DEECE66D) & 0xFFFF_FFFF_FFFF == ((x % 0x1_0000_0000_0000) ^ 0x5DEECE66D)
                & 0xFFFF_FFFF_FFFF && (x ^ 0x5DEECE66D) & 0xFFFF_FFFF_FFFF < 0x1_0000_0000_0000)
                by (bit_vector);
        }
        (self.seed ^ lcg_const::A) & m
    }

    pub fn get_raw_seed(&self) -> (s: u64)
        ensures
            s == self@,
            s < 0x1_0000_0000_0000,
    {
        let m = mask(48);
        proof {
            lemma2_to64_rest();
            lemma_mask48(self.seed);
        }
        self.seed & m
    }

    pub fn next(&mut self, bits: u8) -> (r: i32)
        requires
            bits <= 48,
        ensures
            final(self)@ == lcg_step(old(self)@),
            r == top_bits(final(self)@, bits),
    {
        proof {
            lemma_next_state(self.seed);
        }
        self.seed = Self::next_state(self.seed);
        self.last_next(bits)
    }

    /// `s * A + C`, on 64 bits.
    pub fn next_state(s: u64) -> (r: u64)
        ensures
            r == s.wrapping_mul(0x5DEECE66D).wrapping_add(0xB),
            r % 0x1_0000_0000_0000 == lcg_step(s as int),
    {
        proof {
            lemma_next_state(s);
        }
        s.wrapping_mul(lcg_const::A).wrapping_add(lcg_const::C)
    }

    /// Returns the same as the last call to `next`.
    pub fn last_next(&self, bits: u8) -> (r: i32)
        requires
            bits <= 48,
        ensures
            r == top_bits(self@, bits),
    {
        let m = mask(48);
        proof {
            lemma2_to64_rest();
            lemma_mask48(self.seed);
        }
        #[verifier::truncate]
        (((self.seed & m) >> (48 - bits)) as i32)
    }

    /// Equivalent to `n` calls to `next`.
    pub fn next_n_calls(&mut self, n: u64)
        ensures
            final(self)@ == lcg_iter(old(self)@, n as nat),
    {
        match n {
            0 => {
                proof {
                    lemma_mod_twice(self.seed as int, modulus());
                }
                return ;
            },
            1 => {
                proof {
                    lemma_mod_twice(self.seed as int, modulus());
                    assert(lcg_iter(self@, 1) == lcg_step(lcg_iter(self@, 0)));
                }
                self.next(0);
                return ;
            },
            _ => {},
        }
        let c = lcg_const::C;
        let a = lcg_const::A;
        // Modular multiplicative inverse of (a - 1) / 4
        let a_1_inv = lcg_const_extra::INV_A_1;
        let an = pow_wrapping(a, n);
        let ghost s0 = self.seed;
        proof {
            lemma_eqm_wrapping((an.wrapping_sub(1) >> 2), a_1_inv);
            lemma_quarter(an.wrapping_sub(1));
            lemma_pow_wrapped_mod4(0x5DEECE66D, n as nat);
            lemma_jump_formula(
                0x5DEECE66D,
                0xB,
                6303725979,
                18698324575379,
                s0 as int,
                n as nat,
                an as int,
                (an.wrapping_sub(1) >> 2).wrapping_mul(a_1_inv) as int,
            );
        }
        // a % 4 == 1, so (a^n - 1) % 4 == 0
        let aes = (an.wrapping_sub(1) >> 2).wrapping_mul(a_1_inv);
        let caa = c.wrapping_mul(aes);
        self.seed = self.seed.wrapping_mul(an).wrapping_add(caa);
        proof {
            let t = s0.wrapping_mul(an);
            lemma_eqm_wrapping(c, aes);
            lemma_eqm_wrapping(s0, an);
            lemma_eqm_wrapping(t, caa);
            lemma_eqm_add(t as int, s0 * an, caa as int, 0xBint * aes);
            lemma_iter_is_affine(s0 as int, n as nat);
            lemma_iter_back_reduced(s0 as int, n as nat);
        }
    }

    pub fn next_int(&mut self) -> (r: i32)
        ensures
            final(self)@ == lcg_step(old(self)@),
            r == top_bits(final(self)@, 32),
    {
        self.next(32)
    }

    /// A number from 0 up to `n`: for a power of two the top bits of one
    /// draw, otherwise the remainder of the first draw that is kept.
    pub fn next_int_n(&mut self, n: i32) -> (r: i32)
        requires
            n > 0,
        ensures
            0 <= r < n,
            (r, final(self)@) == bounded_int(old(self)@, n),
            single_bit(n) ==> final(self)@ == lcg_step(old(self)@) && r == (n * draw31(
                final(self)@,
            )) / 0x8000_0000,
            !single_bit(n) ==> exists|k: nat|
                first_accepted(old(self)@, n as int, k) && final(self)@ == #[trigger] lcg_iter(
                    old(self)@,
                    k,
                ) && r == draw31(final(self)@) % (n as int),
    {
        if n == 10 {
            proof {
                lemma_ten_has_two_bits();
            }
            return self.next_int_n_10();
        }
        // If n is a power of 2
        if (n & -n) == n {
            let bits = self.next(31);
            proof {
                lemma_draw31(self@);
            }
            assert(0 <= n * bits <= 0x7FFF_FFFF * 0x7FFF_FFFF && n * bits < n * 0x8000_0000)
                by (nonlinear_arith)
                requires
                    0 < n <= 0x7FFF_FFFF,
                    0 <= bits < 0x8000_0000,
            ;
            let prod: i64 = (n as i64) * (bits as i64);
            assert(prod >> 31 == prod / 0x8000_0000) by (bit_vector)
                requires
                    0 <= prod,
            ;
            return #[verifier::truncate]
            ((prod >> 31) as i32);
        }
        let ghost s0 = self@;
        let ghost mut k: nat = 0;
        let mut bits: i32 = 0;
        let mut val: i32 = 0;
        proof {
            lemma_small_mod(s0 as nat, modulus() as nat);
        }
        loop
            invariant_except_break
                self@ == lcg_iter(s0, k),
                forall|j: nat| 1 <= j <= k ==> !accepted(draw31(#[trigger] lcg_iter(s0, j)), n as int),
            invariant
                n > 0,
                0 <= s0 < modulus(),
            ensures
                first_accepted(s0, n as int, k),
                self@ == lcg_iter(s0, k),
                val == draw31(self@) % (n as int),
                0 <= val < n,
            decreases steps_to_zero(self@),
        {
            let ghost prev = self@;
            bits = self.next(31);
            proof {
                k = k + 1;
                lemma_draw31(self@);
            }
            val = bits % n;
            proof {
                lemma_accept_test(bits, n);
                lemma_accepts_zero(n as int);
            }
            // Check for modulo bias
            if bits.wrapping_sub(val).wrapping_add(n - 1) >= 0 {
                break ;
            }
            proof {
                lemma_steps_decrease(prev);
            }
        }
        proof {
            lemma_first_kept(s0, n as int, k);
        }
        val
    }

    /// A number from 0 up to 10: the remainder of the first draw below the
    /// last multiple of 10 under 2^31.
    pub fn next_int_n_10(&mut self) -> (r: i32)
        ensures
            0 <= r < 10,
            (r, final(self)@) == bounded_int(old(self)@, 10),
            exists|k: nat|
                first_accepted(old(self)@, 10, k) && final(self)@ == #[trigger] lcg_iter(
                    old(self)@,
                    k,
                ) && r == draw31(final(self)@) % 10,
    {
        let ghost s0 = self@;
        let ghost mut k: nat = 0;
        let mut bits: i32 = 0;
        proof {
            lemma_small_mod(s0 as nat, modulus() as nat);
        }
        loop
            invariant_except_break
                self@ == lcg_iter(s0, k),
                forall|j: nat| 1 <= j <= k ==> !accepted(draw31(#[trigger] lcg_iter(s0, j)), 10),
            invariant
                0 <= s0 < modulus(),
            ensures
                first_accepted(s0, 10, k),
                self@ == lcg_iter(s0, k),
                bits == draw31(self@),
                0 <= bits,
            decreases steps_to_zero(self@),
        {
            let ghost prev = self@;
            bits = self.next(31);
            proof {
                k = k + 1;
                lemma_draw31(self@);
            }
            // The last multiple of 10 below 2^31.
            let limit: u32 = (1u32 << 31) / 10 * 10;
            assert(limit == 2147483640) by (bit_vector)
                requires
                    limit == (1u32 << 31) / 10 * 10,
            ;
            proof {
                lemma_accept_test_10(bits);
            }
            if bits < limit as i32 {
                break ;
            }
            proof {
                lemma_steps_decrease(prev);
            }
        }
        proof {
            lemma_first_kept(s0, 10, k);
            lemma_ten_has_two_bits();
        }
        bits % 10
    }

    pub fn next_long(&mut self) -> (r: i64)
        ensures
            final(self)@ == lcg_step(lcg_step(old(self)@)),
            r == long_of(
                top_bits(lcg_step(old(self)@), 32),
                top_bits(lcg_step(lcg_step(old(self)@)), 32),
            ),
    {
        let i0 = self.next_int();
        let i1 = self.next_int();
        Self::long_from_i0_i1(i0, i1)
    }

    /// The pattern of a number in single precision from 0 up to 1, made of
    /// 24 bits of one step.
    pub fn next_float(&mut self) -> (r: u32)
        ensures
            final(self)@ == lcg_step(old(self)@),
            r == single_from(old(self)@),
    {
        sdiv(sfrom(self.next(24) as i64), SINGLE_TWO_TO_24)
    }

    /// The pattern of a double from 0 up to 1, made of 53 bits of two
    /// steps.
    pub fn next_double(&mut self) -> (r: u64)
        ensures
            final(self)@ == lcg_step(lcg_step(old(self)@)),
            r == double_from(old(self)@),
    {
        let h = self.next(26);
        proof {
            lemma_top_bits(self@, 26);
        }
        let l = self.next(27);
        proof {
            lemma_top_bits(self@, 27);
        }
        let hi = (h as i64) * 0x800_0000;
        let lo = l as i64;
        ddiv(dfrom(hi + lo), TWO_TO_53)
    }

    pub fn next_boolean(&mut self) -> (r: bool)
        ensures
            final(self)@ == lcg_step(old(self)@),
            r == (top_bits(final(self)@, 1) != 0),
    {
        self.next(1) != 0
    }

    /// The inverse of `next`.
    pub fn previous(&mut self)
        ensures
            final(self)@ == lcg_back(old(self)@),
    {
        self.seed = Self::previous_state(self.seed);
    }

    /// The previous internal state of the generator, on 48 bits.
    pub fn previous_state(s: u64) -> (r: u64)
        ensures
            r == lcg_back(s as int),
            r == lcg_back(s as int % modulus()),
            r < 0x1_0000_0000_0000,
    {
        let m = mask(48);
        let d = s.wrapping_sub(lcg_const::C).wrapping_mul(lcg_const_extra::INV_A);
        proof {
            lemma2_to64_rest();
            lemma_mask48(d);
            lemma_previous_state(s);
        }
        d & m
    }

    /// Equivalent to two calls to `previous`.
    pub fn previous_2(&mut self)
        ensures
            final(self)@ == lcg_back(lcg_back(old(self)@)),
    {
        proof {
            lemma_previous_state(self.seed);
            lemma_previous_state(
                self.seed.wrapping_sub(0xB).wrapping_mul(0xdfe05bcb1365),
            );
        }
        self.seed = self.seed.wrapping_sub(lcg_const::C).wrapping_mul(
            lcg_const_extra::INV_A,
        ).wrapping_sub(lcg_const::C).wrapping_mul(lcg_const_extra::INV_A);
    }

    /// Equivalent to `n` calls to `previous`.
    pub fn previous_n_calls(&mut self, n: u64)
        ensures
            final(self)@ == lcg_iter_back(old(self)@, n as nat),
    {
        match n {
            0 => {
                proof {
                    lemma_mod_twice(self.seed as int, modulus());
                }
                return ;
            },
            1 => {
                proof {
                    lemma_mod_twice(self.seed as int, modulus());
                    assert(lcg_iter_back(self@, 1) == lcg_back(lcg_iter_back(self@, 0)));
                }
                return self.previous();
            },
            2 => {
                proof {
                    lemma_mod_twice(self.seed as int, modulus());
                    assert(lcg_iter_back(self@, 1) == lcg_back(lcg_iter_back(self@, 0)));
                    assert(lcg_iter_back(self@, 2) == lcg_back(lcg_iter_back(self@, 1)));
                }
                return self.previous_2();
            },
            _ => {},
        }
        let c = lcg_const::C;
        let d: u64 = lcg_const_extra::INV_A;
        // Modular multiplicative inverse of (d - 1) / 4
        let d_1_inv = lcg_const_extra::INV__INV_A__1;
        let dn = pow_wrapping(d, n);
        let ghost s0 = self.seed;
        proof {
            lemma_eqm_wrapping((dn.wrapping_sub(1) >> 2), d_1_inv);
            lemma_quarter(dn.wrapping_sub(1));
            lemma_pow_wrapped_mod4(0xdfe05bcb1365, n as nat);
            lemma_jump_formula(
                0xdfe05bcb1365,
                back_increment(),
                61538676425945,
                192407907957609,
                s0 as int,
                n as nat,
                dn as int,
                (dn.wrapping_sub(1) >> 2).wrapping_mul(d_1_inv) as int,
            );
        }
        let des = (dn.wrapping_sub(1) >> 2).wrapping_mul(d_1_inv);
        let cdd = c.wrapping_mul(d).wrapping_mul(des);
        self.seed = self.seed.wrapping_mul(dn).wrapping_sub(cdd);
        proof {
            let t = s0.wrapping_mul(dn);
            let cd = c.wrapping_mul(d);
            lemma_eqm_wrapping(c, d);
            lemma_eqm_wrapping(cd, des);
            assert(eqm(des as int, des as int));
            lemma_eqm_mul(cd as int, 0xBint * 0xdfe05bcb1365int, des as int, des as int);
            lemma_eqm_wrapping(s0, dn);
            lemma_eqm_wrapping(t, cdd);
            lemma_eqm_add(t as int, s0 * dn, cdd as int, (0xBint * 0xdfe05bcb1365int) * des);
            assert(s0 * dn - (0xBint * 0xdfe05bcb1365int) * des == s0 * dn + back_increment() * des)
                by (nonlinear_arith)
                requires
                    back_increment() == -(0xBint * 0xdfe05bcb1365int),
            ;
            lemma_iter_back_is_affine(s0 as int, n as nat);
            lemma_iter_back_reduced(s0 as int, n as nat);
        }
    }

    /// The low 16 bits of the state that hands out `i0` and is followed by
    /// the one that hands out `i1`: the first of six guesses that joins the
    /// two outputs, if one does.
    pub fn low_16_for_next_int(i0: u32, i1: u32) -> (r: Option<u16>)
        ensures
            match r {
                Some(l) => {
                    &&& joins(i0, l, i1)
                    &&& exists|i: int|
                        {
                            &&& 0 <= i < 6
                            &&& l == #[trigger] join_candidate(i0, i1, i)
                            &&& forall|j: int|
                                0 <= j < i ==> !joins(i0, #[trigger] join_candidate(i0, i1, j), i1)
                        }
                },
                None => forall|i: int|
                    0 <= i < 6 ==> !joins(i0, #[trigger] join_candidate(i0, i1, i), i1),
            },
    {
        let m32 = mask(32);
        let a32 = #[verifier::truncate]
        ((lcg_const::A & m32) as u32);
        // x = i1 - i0 * A
        let x: u32 = i1.wrapping_sub(i0.wrapping_mul(a32));
        proof {
            lemma2_to64();
            lemma_multiplier_low_32();
            let w: int = 0x1_0000_0000;
            let t = i0.wrapping_mul(0xDEECE66D);
            assert(i0 * 0xDEECE66D == i0 * 0x5DEECE66D + (-5 * i0) * w);
            lemma_mod_equal(i0 * 0xDEECE66D, i0 * 0x5DEECE66D, -5 * i0, w);
            if i1 - t < 0 {
                lemma_mod_equal(x as int, i1 - t, 1, w);
            }
            lemma_small_mod(x as nat, w as nat);
            lemma_sub_mod_noop_right(i1 as int, i0 * 0xDEECE66D, w);
            lemma_sub_mod_noop_right(i1 as int, i0 * 0x5DEECE66D, w);
            assert(x == join_rest(i0, i1));
        }
        let mut i: u64 = 0;
        while i < 6
            invariant
                i <= 6,
                x == join_rest(i0, i1),
                forall|j: int| 0 <= j < i ==> !joins(i0, #[trigger] join_candidate(i0, i1, j), i1),
            decreases 6 - i,
        {
            let num = (x as u64) | (i << 32);
            let den = lcg_const::A >> 16;
            assert(num == x + i * 0x1_0000_0000) by (bit_vector)
                requires
                    num == (x as u64) | (i << 32),
                    i < 6,
            ;
            assert(0x5DEECE66Du64 >> 16 == 0x5DEEC) by (bit_vector);
            let low16 = #[verifier::truncate]
            ((num / den) as u16);
            let st = Self::next_state(low16 as u64);
            let y = #[verifier::truncate]
            ((st >> 16) as u32);
            proof {
                let qq = num / den;
                assert(low16 == qq % 0x10000) by (bit_vector)
                    requires
                        low16 == qq as u16,
                ;
                assert(low16 == join_candidate(i0, i1, i as int));
                assert(y == (st / 0x10000) % 0x1_0000_0000) by (bit_vector)
                    requires
                        y == (st >> 16) as u32,
                ;
                let t: int = low16 * 0x5DEECE66D + 0xB;
                assert((low16 as u64).wrapping_mul(0x5DEECE66D) as int == (low16 as u64
                    * 0x5DEECE66D) % 0x1_0000_0000_0000_0000);
                assert(st == t);
                lemma_joins(i0, low16, i1, y as int);
            }
            if y == x {
                return Some(low16);
            }
            i += 1;
        }
        None
    }

    /// A generator whose next `next_long` returns `l`, if the six guesses of
    /// `low_16_for_next_int` find one.
    pub fn create_from_long(l: u64) -> (r: Option<JavaRng>)
        ensures
            match r {
                Some(g) => long_of(
                    top_bits(lcg_step(g@), 32),
                    top_bits(lcg_step(lcg_step(g@)), 32),
                ) == l as i64,
                None => forall|i: int|
                    0 <= i < 6 ==> !joins(
                        high_int(l as i64) as u32,
                        #[trigger] join_candidate(
                            high_int(l as i64) as u32,
                            low_int(l as i64) as u32,
                            i,
                        ),
                        low_int(l as i64) as u32,
                    ),
            },
    {
        let sl = #[verifier::truncate]
        (l as i64);
        let (i0, i1) = Self::ints_from_long(sl);
        let (i0, i1) = (
            #[verifier::truncate]
            (i0 as u32),
            #[verifier::truncate]
            (i1 as u32),
        );
        let front = (i0 as u64) << 16;
        if let Some(back) = Self::low_16_for_next_int(i0, i1) {
            let mut r = JavaRng::with_raw_seed(front | (back as u64));
            proof {
                let s1 = front | (back as u64);
                assert(s1 == i0 * 0x10000 + back && s1 < 0x1_0000_0000_0000) by (bit_vector)
                    requires
                        front == (i0 as u64) << 16,
                        s1 == front | (back as u64),
                ;
                lemma_step_inverse(s1 as int);
                lemma_small_mod(s1 as nat, modulus() as nat);
                let s2 = lcg_step(s1 as int);
                lemma_step_in_range(s1 as int);
                let x1 = s1;
                let x2 = s2 as u64;
                let t1 = top_bits(s1 as int, 32);
                let t2 = top_bits(s2, 32);
                let h0 = high_int(sl);
                let h1 = low_int(sl);
                assert(t1 == h0 && t2 == h1) by (bit_vector)
                    requires
                        x1 == i0 * 0x10000 + back,
                        x2 < 0x1_0000_0000_0000,
                        (x2 / 0x10000) % 0x1_0000_0000 == i1,
                        i0 == h0 as u32,
                        i1 == h1 as u32,
                        t1 == (x1 >> 16) as i32,
                        t2 == (x2 >> 16) as i32,
                ;
                lemma_long_from_ints(sl);
            }
            r.previous();
            Some(r)
        } else {
            None
        }
    }

    /// The 64-bit outputs of `next_long` whose low 48 bits are those of `l`.
    pub fn extend_long_48(l: u64) -> (v: Vec<u64>)
        ensures
            v@ == extend_upto(l & 0xFFFF_FFFF_FFFF, 0x10000),
            v.len() <= 2,
            forall|i: int|
                0 <= i < v.len() ==> (#[trigger] v[i]) & 0xFFFF_FFFF_FFFF == l & 0xFFFF_FFFF_FFFF,
    {
        let m48 = mask(48);
        proof {
            lemma2_to64_rest();
        }
        let full = l;
        let l = full & m48;
        assert(l < 0x1_0000_0000_0000) by (bit_vector)
            requires
                l == full & 0xFFFF_FFFF_FFFF,
        ;
        proof {
            lemma_extend_at_most_two(l);
            assert forall|i: int| 0 <= i < extend_upto(l, 0x10000).len() implies (
            #[trigger] extend_upto(l, 0x10000)[i]) & 0xFFFF_FFFF_FFFF == l by {
                lemma_extend_upto_low_48(l, 0x10000, i);
            }
        }
        let (i0, i1) = JavaRng::ints_from_long(l as i64);
        let i0 = #[verifier::truncate]
        (i0 as u16);
        let i1u = #[verifier::truncate]
        (i1 as u32);
        let seed = ((i1u as u64) << 16) & m48;
        assert(seed == i1u * 0x10000) by (bit_vector)
            requires
                seed == ((i1u as u64) << 16) & 0xFFFF_FFFF_FFFF,
        ;
        let mut v: Vec<u64> = Vec::new();
        let mut k0: u64 = 0;
        // for every 16 bit number
        while k0 < 0x10000
            invariant
                k0 <= 0x10000,
                l < 0x1_0000_0000_0000,
                seed == extend_base(l),
                i0 == extend_target(l),
                seed == i1u * 0x10000,
                v@ == extend_upto(l, k0 as nat),
            decreases 0x10000 - k0,
        {
            let s = seed | k0;
            assert(s == seed + k0 && s < 0x1_0000_0000_0000) by (bit_vector)
                requires
                    seed == i1u * 0x10000,
                    k0 < 0x10000,
                    s == seed | k0,
            ;
            let mut r = JavaRng::with_raw_seed(s);
            proof {
                lemma_small_mod(s as nat, modulus() as nat);
            }
            if r.previous_verify_16(i0) == 0 {
                r.previous();
                r.previous();
                proof {
                    lemma_step_inverse(lcg_back(s as int));
                    lemma_step_inverse(s as int);
                    lemma_step_in_range(s as int);
                    lemma_step_in_range(lcg_back(s as int));
                }
                let full = r.next_long();
                v.push(
                    #[verifier::truncate]
                    (full as u64),
                );
            }
            k0 += 1;
        }
        v
    }

    /// How many calls to `next` are needed to transform `self` into `other`.
    pub fn num_steps_to(&self, other: &Self) -> (d: u64)
        ensures
            d < 0x1_0000_0000_0000,
            lcg_iter(self@, d as nat) == other@,
            forall|e: nat| lcg_iter(self@, e) == other@ ==> d <= e,
    {
        distance_between_rngs(self, other)
    }

    /// How many calls to `next` are needed to transform `self` into `other`,
    /// or `None` if that number is not zero and is `l` or more.
    pub fn num_steps_to_other_under_l(&self, other: &Self, l: u64) -> (r: Option<u64>)
        ensures
            match r {
                Some(d) => {
                    &&& d < 0x1_0000_0000_0000
                    &&& lcg_iter(self@, d as nat) == other@
                    &&& forall|e: nat| lcg_iter(self@, e) == other@ ==> d <= e
                    &&& (d < l || d == 0)
                },
                None => forall|e: nat| lcg_iter(self@, e) == other@ ==> e >= l && e > 0,
            },
    {
        distance_between_rngs_less_than(self, other, l)
    }

    /// A word that is zero exactly if bits 16 to 31 of the state before
    /// this one are `target`.
    pub fn previous_verify_16(&self, target: u16) -> (r: u32)
        ensures
            r == verify_word(self@, target),
            r == 0 <==> bits_16_32(lcg_back(self@)) == target,
    {
        let m32 = mask(32);
        let prev = Self::previous_state(self.seed);
        let p1 = #[verifier::truncate]
        (prev as u16);
        let p = ((target as u32) << 16) | (p1 as u32);
        let a32 = #[verifier::truncate]
        ((lcg_const::A & m32) as u32);
        let p2 = p.wrapping_mul(a32).wrapping_add(lcg_const::C as u32);
        let cur = #[verifier::truncate]
        (self.seed as u32);
        proof {
            lemma2_to64();
            let sd = self.seed;
            lemma_multiplier_low_32();
            assert(p1 == prev % 0x10000) by (bit_vector)
                requires
                    p1 == prev as u16,
            ;
            assert(cur == (sd % 0x1_0000_0000_0000) % 0x1_0000_0000) by (bit_vector)
                requires
                    cur == sd as u32,
            ;
            assert(p == target * 0x10000 + p1) by (bit_vector)
                requires
                    p == ((target as u32) << 16) | (p1 as u32),
            ;
            assert((p2 ^ cur) == 0 <==> p2 == cur) by (bit_vector);
            lemma_step32(p);
            lemma_small_mod(p2 as nat, 0x1_0000_0000);
            lemma_verify_step(prev as int, target as int, p2 as int);
            lemma_step_inverse(self@);
            lemma_small_mod(self@ as nat, modulus() as nat);
        }
        p2 ^ cur
    }

    /// A word that is zero exactly if the low `n` bits, at most 48, of the
    /// step from `target` joined with the low 16 bits of the state before
    /// are those of this state.
    pub fn previous_verify_n(&self, target: u64, n: u8) -> (r: u64)
        ensures
            r == verify_bits(
                self@,
                target,
                (pow2(
                    if n > 48 {
                        48
                    } else {
                        n as nat
                    },
                ) - 1) as u64,
            ),
    {
        let mut n = n;
        if n > 48 {
            n = 48;
        }
        let prev = Self::previous_state(self.seed);
        let p1 = #[verifier::truncate]
        (prev as u16);
        let p = (target << 16) | (p1 as u64);
        let p2 = Self::next_state(p);
        let m = mask(n);
        proof {
            let sd = self.seed;
            let st = self@ as u64;
            lemma_mask48(sd);
            lemma_u64_pow2_no_overflow(n as nat);
            lemma_u64_shl_is_mul(1, n as u64);
            assert(p1 == prev % 0x10000) by (bit_vector)
                requires
                    p1 == prev as u16,
            ;
            assert((p2 ^ sd) & m == (p2 ^ st) & m) by (bit_vector)
                requires
                    st == sd & 0xFFFF_FFFF_FFFF,
                    m == (1u64 << n) - 1,
                    n <= 48,
            ;
        }
        (p2 ^ self.seed) & m
    }

    pub fn i1_from_long(l: i64) -> (r: i32)
        ensures
            r == low_int(l),
    {
        #[verifier::truncate]
        (l as i32)
    }

    pub fn i0_from_long(l: i64) -> (r: i32)
        ensures
            r == high_int(l),
    {
        assert(-0x8000_0000 <= (l >> 32) < 0x8000_0000 && 0 <= ((l >> 31) & 1) <= 1)
            by (bit_vector);
        #[verifier::truncate]
        (((l >> 32) + ((l >> 31) & 1)) as i32)
    }

    pub fn ints_from_long(l: i64) -> (r: (i32, i32))
        ensures
            r == (high_int(l), low_int(l)),
    {
        (Self::i0_from_long(l), Self::i1_from_long(l))
    }

    pub fn long_from_i0_i1(i0: i32, i1: i32) -> (r: i64)
        ensures
            r == long_of(i0, i1),
    {
        ((i0 as i64) * 0x1_0000_0000).wrapping_add(i1 as i64)
    }
}

/// `base^exp` modulo 2^64.
pub fn pow_wrapping(base: u64, exp: u64) -> (r: u64)
    ensures
        r == pow(base as int, exp as nat) % wrap64(),
{
    let ghost b0 = base;
    let ghost e0 = exp;
    let mut base = base;
    let mut exp = exp;
    let mut acc: u64 = 1;
    while exp > 1
        invariant
            (acc * pow(base as int, exp as nat)) % wrap64() == pow(b0 as int, e0 as nat)
                % wrap64(),
        decreases exp,
    {
        proof {
            lemma_pow_wrapping_step(acc as int, base as int, exp as nat);
            assert((exp & 1) == exp % 2) by (bit_vector);
        }
        if (exp & 1) == 1 {
            acc = acc.wrapping_mul(base);
        }
        exp /= 2;
        base = base.wrapping_mul(base);
    }
    // The final bit of the exponent needs no further squaring of the base.
    if exp == 1 {
        proof {
            lemma_pow1(base as int);
        }
        acc = acc.wrapping_mul(base);
    } else {
        proof {
            lemma_pow0(base as int);
            lemma_small_mod(acc as nat, wrap64() as nat);
        }
    }
    acc
}

/// Whether two words that agree below bit `i` differ in bit `i`, read off
/// their remainders modulo `2^(i+1)`.
pub proof fn lemma_bit_differs(z: u64, t: u64, p: u64, i: nat)
    requires
        i < 48,
        p == pow2(i),
        (z as int) % p2(i) == (t as int) % p2(i),
    ensures
        ((z ^ t) & p != 0) <==> ((z as int) % (2 * p2(i)) != (t as int) % (2 * p2(i))),
{
    lemma_u64_low_bits_mask_is_mod(z, i);
    lemma_u64_low_bits_mask_is_mod(t, i);
    lemma_u64_low_bits_mask_is_mod(z, i + 1);
    lemma_u64_low_bits_mask_is_mod(t, i + 1);
    lemma_pow2_unfold(i + 1);
    lemma_pow2_pos(i);
    lemma_pow2_strictly_increases(i, 48);
    lemma_pow2_strictly_increases(i + 1, 49);
    lemma2_to64_rest();
    lemma_u64_shl_is_mul(1, i as u64);
    let m1 = (p - 1) as u64;
    let m2 = (2 * p - 1) as u64;
    let sh = i as u64;
    assert(low_bits_mask(i) == m1);
    assert(low_bits_mask(i + 1) == m2);
    assert(z & m1 == t & m1);
    assert(((z ^ t) & p != 0) <==> (z & m2 != t & m2)) by (bit_vector)
        requires
            z & m1 == t & m1,
            m1 == p - 1,
            m2 == 2 * p - 1,
            p == 1u64 << sh,
            sh < 48,
    ;
}

/// The number of calls to `next` that transform `ss` into `se`.
pub fn distance_between_rngs(ss: &JavaRng, se: &JavaRng) -> (d: u64)
    ensures
        d < 0x1_0000_0000_0000,
        lcg_iter(ss@, d as nat) == se@,
        forall|e: nat| lcg_iter(ss@, e) == se@ ==> d <= e,
{
    let target = se.get_raw_seed();
    let m48 = mask(48);
    let mut a: u64 = lcg_const::A;
    let mut c: u64 = lcg_const::C;
    let mut p: u64 = 1;
    let mut z: u64 = ss.get_raw_seed();
    let mut d: u64 = 0;
    let ghost mut i: nat = 0;
    proof {
        lemma2_to64();
        lemma2_to64_rest();
        lemma_distance_start(ss@, target as int);
        lemma_pow1(0x5DEECE66D);
        assert(geo(0x5DEECE66D, 0) == 0);
        assert(geo(0x5DEECE66D, 1) == 1);
        lemma_small_mod(z as nat, modulus() as nat);
    }
    while z != target
        invariant
            i <= 48,
            p == pow2(i),
            m48 == 0xFFFF_FFFF_FFFF,
            z < 0x1_0000_0000_0000,
            target < 0x1_0000_0000_0000,
            target == se@,
            z == lcg_iter(ss@, d as nat),
            distance_known(ss@, target as int, d as nat, i),
            eqm(a as int, pow(0x5DEECE66D, pow2(i))),
            eqm(c as int, 0xB * geo(0x5DEECE66D, pow2(i))),
        decreases 48 - i,
    {
        proof {
            if i == 48 {
                lemma_distance_done(ss@, target as int, d as nat);
            }
            lemma2_to64_rest();
            lemma_pow2_unfold(i + 1);
            lemma_pow2_strictly_increases(i, 48);
            lemma_bit_differs(z, target, p, i);
            lemma_distance_round(ss@, target as int, d as nat, i);
            lemma_jump_by_pair(a, c, z, pow2(i));
            lemma_pair_doubles(a, c, pow2(i));
            lemma_iter_adds(ss@, d as nat, pow2(i));
            lemma_mask48(a.wrapping_mul(z).wrapping_add(c));
        }
        if ((z ^ target) & p) != 0 {
            z = a.wrapping_mul(z).wrapping_add(c) & m48;
            d += p;
        }
        c = c.wrapping_mul(a.wrapping_add(1));
        a = a.wrapping_mul(a);
        p = 2 * p;
        proof {
            i = i + 1;
        }
    }
    proof {
        lemma2_to64_rest();
        lemma_distance_least(ss@, target as int, d as nat, i);
        if i < 48 {
            lemma_pow2_strictly_increases(i, 48);
        }
    }
    d
}

/// The number of calls to `next` that transform `ss` into `se`, or `None` if
/// that number is not zero and is `limit` or more.
pub fn distance_between_rngs_less_than(ss: &JavaRng, se: &JavaRng, limit: u64) -> (r: Option<u64>)
    ensures
        match r {
            Some(d) => {
                &&& d < 0x1_0000_0000_0000
                &&& lcg_iter(ss@, d as nat) == se@
                &&& forall|e: nat| lcg_iter(ss@, e) == se@ ==> d <= e
                &&& (d < limit || d == 0)
            },
            None => forall|e: nat| lcg_iter(ss@, e) == se@ ==> e >= limit && e > 0,
        },
{
    let target = se.get_raw_seed();
    let m48 = mask(48);
    let mut a: u64 = lcg_const::A;
    let mut c: u64 = lcg_const::C;
    let mut p: u64 = 1;
    let mut z: u64 = ss.get_raw_seed();
    let mut d: u64 = 0;
    let ghost mut i: nat = 0;
    proof {
        lemma2_to64();
        lemma2_to64_rest();
        lemma_distance_start(ss@, target as int);
        lemma_pow1(0x5DEECE66D);
        assert(geo(0x5DEECE66D, 0) == 0);
        assert(geo(0x5DEECE66D, 1) == 1);
        lemma_small_mod(z as nat, modulus() as nat);
    }
    while z != target
        invariant
            i <= 48,
            p == pow2(i),
            m48 == 0xFFFF_FFFF_FFFF,
            z < 0x1_0000_0000_0000,
            target < 0x1_0000_0000_0000,
            target == se@,
            z == lcg_iter(ss@, d as nat),
            distance_known(ss@, target as int, d as nat, i),
            eqm(a as int, pow(0x5DEECE66D, pow2(i))),
            eqm(c as int, 0xB * geo(0x5DEECE66D, pow2(i))),
            d < limit || d == 0,
        decreases 48 - i,
    {
        proof {
            if i == 48 {
                lemma_distance_done(ss@, target as int, d as nat);
            }
            lemma2_to64_rest();
            lemma_pow2_unfold(i + 1);
            lemma_pow2_strictly_increases(i, 48);
            lemma_bit_differs(z, target, p, i);
            lemma_distance_round(ss@, target as int, d as nat, i);
            lemma_jump_by_pair(a, c, z, pow2(i));
            lemma_pair_doubles(a, c, pow2(i));
            lemma_iter_adds(ss@, d as nat, pow2(i));
            lemma_mask48(a.wrapping_mul(z).wrapping_add(c));
            lemma_distance_gap(ss@, target as int, d as nat, i);
        }
        if d + p >= limit {
            return None;
        }
        if ((z ^ target) & p) != 0 {
            d += p;
            if d >= limit {
                proof {
                    lemma_distance_least(ss@, target as int, d as nat, i + 1);
                }
                return None;
            }
            z = a.wrapping_mul(z).wrapping_add(c) & m48;
        }
        c = c.wrapping_mul(a.wrapping_add(1));
        a = a.wrapping_mul(a);
        p = 2 * p;
        proof {
            i = i + 1;
        }
    }
    proof {
        lemma2_to64_rest();
        lemma_distance_least(ss@, target as int, d as nat, i);
        if i < 48 {
            lemma_pow2_strictly_increases(i, 48);
        }
    }
    Some(d)
}

/// The inverse of `a` modulo `module` by the extended Euclidean algorithm on
/// 64-bit words: for an odd `a` and a power of two `module`, the number
/// below `module` whose product with `a` is 1 modulo `module`.
pub fn mod_inv(a: u64, module: u64) -> (r: u64)
    requires
        module != 0,
    ensures
        r < module,
        forall|k: nat|
            k < 64 && module == #[trigger] pow2(k) && a % 2 == 1 ==> (r * a) % (module as int)
                == 1int % (module as int),
{
    let mut mn: (u64, u64) = (module, a);
    let mut xy: (u64, u64) = (0u64, 1);
    proof {
        assert(0 * a == 0);
        lemma_mod_self_0(module as int);
        lemma_small_mod(0, module as nat);
    }
    while mn.1 != 0
        invariant
            mn.0 > 0,
            module > 0,
            forall|d: int|
                d > 0 && #[trigger] divides(d, mn.0 as int) && divides(d, mn.1 as int) ==> divides(
                    d,
                    module as int,
                ) && divides(d, a as int),
            divides(module as int, wrap64()) ==> (xy.0 * a) % (module as int) == mn.0 % module && (
            xy.1 * a) % (module as int) == mn.1 % module,
        decreases mn.1,
    {
        let ghost old_mn = mn;
        let ghost old_xy = xy;
        proof {
            if divides(module as int, wrap64()) {
                lemma_mod_inv_step(a, module, xy.0, xy.1, mn.0, mn.1);
            }
            assert forall|d: int|
                d > 0 && #[trigger] divides(d, mn.1 as int) && divides(
                    d,
                    (mn.0 % mn.1) as int,
                ) implies divides(d, mn.0 as int) by {
                lemma_fundamental_div_mod(mn.0 as int, mn.1 as int);
                lemma_divides_combination(d, mn.1 as int, (mn.0 / mn.1) as int, (mn.0 % mn.1) as int);
            }
            lemma_mod_decreases(mn.0 as nat, mn.1 as nat);
            lemma_mod_pos_bound(mn.0 as int, mn.1 as int);
        }
        xy = (xy.1, xy.0.wrapping_sub((mn.0 / mn.1).wrapping_mul(xy.1)));
        mn = (mn.1, mn.0 % mn.1);
    }
    proof {
        let g = mn.0 as int;
        lemma_mod_self_0(g);
        assert(divides(g, mn.0 as int) && divides(g, mn.1 as int));
        assert forall|k: nat|
            k < 64 && module == #[trigger] pow2(k) && a % 2 == 1 implies ((xy.0 % module) * a) % (
        module as int) == 1int % (module as int) by {
            lemma_pow2_divides_wrap(k);
            if g % 2 == 0 {
                let c = (a as int) / g;
                lemma_fundamental_div_mod(a as int, g);
                lemma_mul_mod_noop_general(g, c, 2);
            }
            lemma_odd_divisor_of_pow2(g, k);
            lemma_mul_mod_noop_left(xy.0 as int, a as int, module as int);
        }
    }
    xy.0 % module
}

} // verus!
