//! The arithmetic behind the generator: closed forms for many steps at once,
//! the inverse step, and the fact that the generator visits every state.

use vstd::prelude::*;
use vstd::arithmetic::power::*;
use vstd::arithmetic::power2::*;
use vstd::arithmetic::div_mod::*;
use vstd::arithmetic::mul::*;
use super::{modulus, lcg_step, lcg_back, lcg_iter, lcg_iter_back, lemma_mod_equal};

verus! {

/// `1 + a + a^2 + ... + a^(n-1)`.
pub open spec fn geo(a: int, n: nat) -> int
    decreases n,
{
    if n == 0 {
        0
    } else {
        geo(a, (n - 1) as nat) * a + 1
    }
}

/// `n` applications of `x -> x * a + c` to `s`, without reduction.
pub open spec fn affine_iter(a: int, c: int, s: int, n: nat) -> int
    decreases n,
{
    if n == 0 {
        s
    } else {
        affine_iter(a, c, s, (n - 1) as nat) * a + c
    }
}

pub proof fn lemma_pow_succ(a: int, n: nat)
    ensures
        pow(a, n + 1) == pow(a, n) * a,
{
    lemma_pow_adds(a, n, 1);
    lemma_pow1(a);
}

/// `(a - 1) * (1 + a + ... + a^(n-1)) == a^n - 1`.
pub proof fn lemma_geo_closed(a: int, n: nat)
    ensures
        (a - 1) * geo(a, n) == pow(a, n) - 1,
    decreases n,
{
    if n == 0 {
        lemma_pow0(a);
    } else {
        let g = geo(a, (n - 1) as nat);
        let p = pow(a, (n - 1) as nat);
        lemma_geo_closed(a, (n - 1) as nat);
        lemma_pow_succ(a, (n - 1) as nat);
        assert((a - 1) * (g * a + 1) == ((a - 1) * g) * a + a - 1) by (nonlinear_arith);
        assert((p - 1) * a + a - 1 == p * a - 1) by (nonlinear_arith);
    }
}

pub proof fn lemma_geo_adds(a: int, m: nat, n: nat)
    ensures
        geo(a, m + n) == geo(a, m) * pow(a, n) + geo(a, n),
    decreases n,
{
    if n == 0 {
        lemma_pow0(a);
    } else {
        let k = (n - 1) as nat;
        lemma_geo_adds(a, m, k);
        lemma_pow_succ(a, k);
        let gm = geo(a, m);
        let gk = geo(a, k);
        let pk = pow(a, k);
        assert(geo(a, m + n) == geo(a, m + k) * a + 1);
        assert((gm * pk + gk) * a + 1 == gm * (pk * a) + (gk * a + 1)) by (nonlinear_arith);
    }
}

/// The closed form of many steps: `s * a^n + c * (1 + a + ... + a^(n-1))`.
pub proof fn lemma_affine_closed(a: int, c: int, s: int, n: nat)
    ensures
        affine_iter(a, c, s, n) == s * pow(a, n) + c * geo(a, n),
    decreases n,
{
    if n == 0 {
        lemma_pow0(a);
    } else {
        let k = (n - 1) as nat;
        lemma_affine_closed(a, c, s, k);
        lemma_pow_succ(a, k);
        let pk = pow(a, k);
        let gk = geo(a, k);
        assert((s * pk + c * gk) * a + c == s * (pk * a) + c * (gk * a + 1))
            by (nonlinear_arith);
    }
}

/// One reduced step of `x -> x * a + c` is the step of the reduced value.
pub proof fn lemma_affine_step_mod(a: int, c: int, x: int)
    ensures
        (x * a + c) % modulus() == ((x % modulus()) * a + c) % modulus(),
{
    let m = modulus();
    lemma_mul_mod_noop_left(x, a, m);
    lemma_add_mod_noop(x * a, c, m);
    lemma_add_mod_noop((x % m) * a, c, m);
}

/// `n` steps forward are `n` unreduced steps, reduced once.
pub proof fn lemma_iter_is_affine(s: int, n: nat)
    ensures
        lcg_iter(s, n) == affine_iter(0x5DEECE66D, 0xB, s, n) % modulus(),
    decreases n,
{
    if n > 0 {
        lemma_iter_is_affine(s, (n - 1) as nat);
        lemma_affine_step_mod(0x5DEECE66D, 0xB, affine_iter(0x5DEECE66D, 0xB, s, (n - 1) as nat));
    }
}

/// The increment of the backward step written as `x -> x * D + c`.
pub open spec fn back_increment() -> int {
    -(0xBint * 0xdfe05bcb1365int)
}

/// `n` steps backward are `n` unreduced steps of the inverse map, reduced once.
pub proof fn lemma_iter_back_is_affine(s: int, n: nat)
    ensures
        lcg_iter_back(s, n) == affine_iter(0xdfe05bcb1365, back_increment(), s, n) % modulus(),
    decreases n,
{
    if n > 0 {
        let prev = affine_iter(0xdfe05bcb1365, back_increment(), s, (n - 1) as nat);
        lemma_iter_back_is_affine(s, (n - 1) as nat);
        lemma_affine_step_mod(0xdfe05bcb1365, back_increment(), prev);
        let r = prev % modulus();
        assert((r - 0xB) * 0xdfe05bcb1365 == r * 0xdfe05bcb1365 + back_increment());
    }
}

/// A remainder is in range.
pub proof fn lemma_iter_range(s: int, n: nat)
    ensures
        0 <= lcg_iter(s, n) < modulus(),
        0 <= lcg_iter_back(s, n) < modulus(),
    decreases n,
{
}

/// Stepping back undoes a step forward, and the other way round.
pub proof fn lemma_step_inverse(s: int)
    ensures
        lcg_back(lcg_step(s)) == s % modulus(),
        lcg_step(lcg_back(s)) == s % modulus(),
{
    let m = modulus();
    let a: int = 0x5DEECE66D;
    let d: int = 0xdfe05bcb1365;
    assert(a * d == 1 + 22050866921 * m);
    // back after step
    let f = s * a + 0xB;
    lemma_sub_mod_noop(f, 0xB, m);
    lemma_mod_twice(f, m);
    assert(((f % m) - 0xB) % m == (s * a) % m) by {
        lemma_sub_mod_noop(f % m, 0xB, m);
    }
    lemma_mul_mod_noop_left((f % m) - 0xB, d, m);
    lemma_mul_mod_noop_left(s * a, d, m);
    assert((s * a) * d == s + (s * 22050866921) * m) by (nonlinear_arith)
        requires
            a * d == 1 + 22050866921 * m,
    ;
    lemma_mod_equal((s * a) * d, s, s * 22050866921, m);
    // step after back
    let b = (s - 0xB) * d;
    lemma_affine_step_mod(a, 0xB, b);
    assert(b * a + 0xB == s + ((s - 0xB) * 22050866921) * m) by (nonlinear_arith)
        requires
            a * d == 1 + 22050866921 * m,
            b == (s - 0xB) * d,
    ;
    lemma_mod_equal(b * a + 0xB, s, (s - 0xB) * 22050866921, m);
}

/// A step depends only on the reduced state.
pub proof fn lemma_step_reduced(s: int)
    ensures
        lcg_step(s % modulus()) == lcg_step(s),
        lcg_back(s % modulus()) == lcg_back(s),
{
    let m = modulus();
    lemma_affine_step_mod(0x5DEECE66D, 0xB, s);
    lemma_sub_mod_noop(s, 0xB, m);
    lemma_sub_mod_noop(s % m, 0xB, m);
    lemma_mod_twice(s, m);
    lemma_mul_mod_noop_left(s - 0xB, 0xdfe05bcb1365, m);
    lemma_mul_mod_noop_left((s % m) - 0xB, 0xdfe05bcb1365, m);
}

/// A reduced state is its own remainder.
pub proof fn lemma_step_in_range(s: int)
    ensures
        lcg_step(s) % modulus() == lcg_step(s),
        lcg_back(s) % modulus() == lcg_back(s),
{
    lemma_mod_twice(s * 0x5DEECE66D + 0xB, modulus());
    lemma_mod_twice((s - 0xB) * 0xdfe05bcb1365, modulus());
}

/// Taking the first step apart: `n + 1` steps are one step, then `n` more.
pub proof fn lemma_iter_first(s: int, n: nat)
    ensures
        lcg_iter(s, n + 1) == lcg_iter(lcg_step(s), n),
    decreases n,
{
    if n == 0 {
        assert(lcg_iter(s, 1) == lcg_step(lcg_iter(s, 0)));
        assert(lcg_iter(s, 0) == s % modulus());
        assert(lcg_step(s % modulus()) == lcg_step(s)) by {
            lemma_step_reduced(s);
        }
        assert(lcg_iter(lcg_step(s), 0) == lcg_step(s)) by {
            lemma_step_in_range(s);
        }
    } else {
        lemma_iter_first(s, (n - 1) as nat);
        assert(lcg_iter(s, n + 1) == lcg_step(lcg_iter(s, n)));
        assert(lcg_iter(lcg_step(s), n) == lcg_step(lcg_iter(lcg_step(s), (n - 1) as nat)));
    }
}

/// Taking the first backward step apart.
pub proof fn lemma_iter_back_first(s: int, n: nat)
    ensures
        lcg_iter_back(s, n + 1) == lcg_iter_back(lcg_back(s), n),
    decreases n,
{
    if n == 0 {
        assert(lcg_iter_back(s, 1) == lcg_back(lcg_iter_back(s, 0)));
        assert(lcg_iter_back(s, 0) == s % modulus());
        assert(lcg_back(s % modulus()) == lcg_back(s)) by {
            lemma_step_reduced(s);
        }
        assert(lcg_iter_back(lcg_back(s), 0) == lcg_back(s)) by {
            lemma_step_in_range(s);
        }
    } else {
        lemma_iter_back_first(s, (n - 1) as nat);
        assert(lcg_iter_back(s, n + 1) == lcg_back(lcg_iter_back(s, n)));
        assert(lcg_iter_back(lcg_back(s), n) == lcg_back(
            lcg_iter_back(lcg_back(s), (n - 1) as nat),
        ));
    }
}

/// Steps add up.
pub proof fn lemma_iter_adds(s: int, m: nat, n: nat)
    ensures
        lcg_iter(s, m + n) == lcg_iter(lcg_iter(s, m), n),
    decreases n,
{
    if n == 0 {
        lemma_iter_range(s, m);
        lemma_small_mod(lcg_iter(s, m) as nat, modulus() as nat);
    } else {
        lemma_iter_adds(s, m, (n - 1) as nat);
    }
}

/// Going `n` steps back after `n` steps forward returns to the start, and
/// the other way round.
pub proof fn lemma_iter_inverse(s: int, n: nat)
    ensures
        lcg_iter_back(lcg_iter(s, n), n) == s % modulus(),
        lcg_iter(lcg_iter_back(s, n), n) == s % modulus(),
    decreases n,
{
    let m = modulus();
    if n == 0 {
        lemma_mod_twice(s, m);
    } else {
        let k = (n - 1) as nat;
        // back^(k+1)(step(iter(s, k))) == back^k(back(step(iter(s, k))))
        lemma_iter_back_first(lcg_iter(s, n), k);
        lemma_step_inverse(lcg_iter(s, k));
        lemma_iter_range(s, k);
        lemma_small_mod(lcg_iter(s, k) as nat, m as nat);
        lemma_iter_inverse(s, k);
        // step^(k+1)(back(iter_back(s, k))) == step^k(step(back(iter_back(s, k))))
        lemma_iter_first(lcg_iter_back(s, n), k);
        lemma_step_inverse(lcg_iter_back(s, k));
        lemma_small_mod(lcg_iter_back(s, k) as nat, m as nat);
    }
}

/// `2^i` as an integer.
pub open spec fn p2(i: nat) -> int {
    pow2(i) as int
}

/// Powers of a number that is 1 modulo 4 are 1 modulo 4.
pub proof fn lemma_pow_mod4(a: int, n: nat)
    requires
        a % 4 == 1,
    ensures
        pow(a, n) % 4 == 1,
    decreases n,
{
    if n == 0 {
        lemma_pow0(a);
    } else {
        lemma_pow_mod4(a, (n - 1) as nat);
        lemma_pow_succ(a, (n - 1) as nat);
        lemma_mul_mod_noop(pow(a, (n - 1) as nat), a, 4);
    }
}

/// With `4 * b == a - 1` and `inv` the inverse of `b`, the sum of the first
/// `n` powers of `a` is `((a^n - 1) / 4) * inv`, modulo 2^48.
pub proof fn lemma_geo_by_inverse(a: int, b: int, inv: int, n: nat)
    requires
        4 * b == a - 1,
        (b * inv) % modulus() == 1,
    ensures
        pow(a, n) - 1 == 4 * (b * geo(a, n)),
        ((b * geo(a, n)) * inv) % modulus() == geo(a, n) % modulus(),
{
    let m = modulus();
    let g = geo(a, n);
    lemma_geo_closed(a, n);
    assert((a - 1) * g == 4 * (b * g)) by (nonlinear_arith)
        requires
            4 * b == a - 1,
    ;
    assert((b * g) * inv == (b * inv) * g) by (nonlinear_arith);
    lemma_mul_mod_noop_left(b * inv, g, m);
}

/// For `a` that is 1 modulo 4, `2^i` steps of powers and sums:
/// `a^(2^i)` is 1 modulo `2^(i+2)`, and `1 + a + ... + a^(2^i - 1)` is
/// `2^i` modulo `2^(i+1)`.
pub proof fn lemma_doubling(a: int, i: nat)
    requires
        a % 4 == 1,
    ensures
        pow(a, pow2(i)) % (4 * p2(i)) == 1,
        geo(a, pow2(i)) % (2 * p2(i)) == p2(i),
    decreases i,
{
    lemma2_to64();
    if i == 0 {
        lemma_pow1(a);
        assert(geo(a, 1) == geo(a, 0) * a + 1);
        assert(pow2(0) == 1);
        assert(1int % 2 == 1);
    } else {
        let j = (i - 1) as nat;
        let n = pow2(j) as int;
        lemma_pow2_pos(j);
        lemma_pow2_unfold(i);
        lemma_doubling(a, j);
        let p = pow(a, pow2(j));
        let g = geo(a, pow2(j));
        lemma_pow_adds(a, pow2(j), pow2(j));
        lemma_geo_adds(a, pow2(j), pow2(j));
        assert(pow2(i) == pow2(j) + pow2(j));
        let u = p / (4 * n);
        let v = g / (2 * n);
        lemma_fundamental_div_mod(p, 4 * n);
        lemma_fundamental_div_mod(g, 2 * n);
        assert(p * p == 1 + (u + 2 * n * u * u) * (8 * n)) by (nonlinear_arith)
            requires
                p == (4 * n) * u + 1,
        ;
        lemma_mod_equal(p * p, 1, u + 2 * n * u * u, 8 * n);
        lemma_small_mod(1, (8 * n) as nat);
        assert(g * p + g == 2 * n + (v + n * u + 2 * n * u * v) * (4 * n)) by (nonlinear_arith)
            requires
                p == (4 * n) * u + 1,
                g == (2 * n) * v + n,
        ;
        lemma_mod_equal(g * p + g, 2 * n, v + n * u + 2 * n * u * v, 4 * n);
        lemma_small_mod((2 * n) as nat, (4 * n) as nat);
    }
}

/// `2^i` steps add `2^i` to the state, modulo `2^(i+1)`: they flip bit `i`
/// and leave the bits below it alone.
pub proof fn lemma_jump(z: int, i: nat)
    requires
        i < 48,
    ensures
        lcg_iter(z, pow2(i)) % (2 * p2(i)) == (z + p2(i)) % (2 * p2(i)),
{
    let a: int = 0x5DEECE66D;
    let n = pow2(i) as int;
    let m = modulus();
    lemma2_to64();
    lemma2_to64_rest();
    lemma_pow2_pos(i);
    lemma_pow2_pos((47 - i) as nat);
    lemma_pow2_adds(i + 1, (47 - i) as nat);
    lemma_pow2_unfold(i + 1);
    let k = pow2((47 - i) as nat) as int;
    assert(m == (2 * n) * k);
    let x = affine_iter(a, 0xB, z, pow2(i));
    lemma_iter_is_affine(z, pow2(i));
    lemma_affine_closed(a, 0xB, z, pow2(i));
    lemma_mod_mod(x, 2 * n, k);
    lemma_doubling(a, i);
    let p = pow(a, pow2(i));
    let g = geo(a, pow2(i));
    let u = p / (4 * n);
    let v = g / (2 * n);
    lemma_fundamental_div_mod(p, 4 * n);
    lemma_fundamental_div_mod(g, 2 * n);
    assert(z * p + 0xB * g == (z + n) + (2 * u * z + 11 * v + 5) * (2 * n)) by (nonlinear_arith)
        requires
            p == (4 * n) * u + 1,
            g == (2 * n) * v + n,
    ;
    lemma_mod_equal(x, z + n, 2 * u * z + 11 * v + 5, 2 * n);
}

/// Two numbers that agree modulo `n` but not modulo `2 * n` agree modulo
/// `2 * n` once `n` is added to one of them.
pub proof fn lemma_half_flip(z: int, t: int, n: int)
    requires
        n > 0,
        0 <= z,
        0 <= t,
        z % n == t % n,
        z % (2 * n) != t % (2 * n),
    ensures
        (z + n) % (2 * n) == t % (2 * n),
{
    lemma_breakdown(z, n, 2);
    lemma_breakdown(t, n, 2);
    lemma_breakdown(z + n, n, 2);
    lemma_div_plus_one(z, n);
    lemma_mod_add_multiples_vanish(z, n);
    let bz = (z / n) % 2;
    let bt = (t / n) % 2;
    assert(n * 2 == 2 * n);
    assert(bz != bt) by {
        if bz == bt {
            assert(n * bz + z % n == n * bt + t % n);
        }
    }
    assert((z / n + 1) % 2 == bt);
}

/// From every state every residue modulo `2^i` is reached in fewer than
/// `2^i` steps.
pub proof fn lemma_reach(s: int, t: int, i: nat) -> (d: nat)
    requires
        i <= 48,
        0 <= t,
    ensures
        d < pow2(i),
        lcg_iter(s, d) % p2(i) == t % p2(i),
    decreases i,
{
    lemma2_to64();
    if i == 0 {
        0
    } else {
        let j = (i - 1) as nat;
        let n = pow2(j);
        lemma_pow2_pos(j);
        lemma_pow2_unfold(i);
        let d0 = lemma_reach(s, t, j);
        let z = lcg_iter(s, d0);
        lemma_iter_range(s, d0);
        if z % (2 * n as int) == t % (2 * n as int) {
            d0
        } else {
            lemma_iter_adds(s, d0, n);
            lemma_jump(z, j);
            lemma_half_flip(z, t, n as int);
            d0 + n
        }
    }
}

/// The generator visits every state: from `s`, any state `t` is reached in
/// fewer than 2^48 steps.
pub proof fn lemma_full_period(s: int, t: int) -> (d: nat)
    requires
        0 <= t < modulus(),
    ensures
        d < modulus(),
        lcg_iter(s, d) == t,
{
    lemma2_to64_rest();
    let d = lemma_reach(s, t, 48);
    lemma_iter_range(s, d);
    lemma_small_mod(lcg_iter(s, d) as nat, modulus() as nat);
    lemma_small_mod(t as nat, modulus() as nat);
    d
}

/// After 2^48 steps, forward or backward, the generator is where it began.
pub proof fn lemma_period(s: int)
    ensures
        lcg_iter(s, 0x1_0000_0000_0000) == s % modulus(),
        lcg_iter_back(s, 0x1_0000_0000_0000) == s % modulus(),
{
    let a: int = 0x5DEECE66D;
    let m = modulus();
    let n: nat = 0x1_0000_0000_0000;
    lemma2_to64_rest();
    assert(pow2(48) == n);
    lemma_doubling(a, 48);
    let p = pow(a, n);
    let g = geo(a, n);
    lemma_mod_mod(p, m, 4);
    lemma_mod_mod(g, m, 2);
    assert(p % m == 1) by {
        lemma_small_mod(1, m as nat);
    }
    assert(g % m == 0) by {
        lemma_mod_self_0(m);
    }
    lemma_iter_is_affine(s, n);
    lemma_affine_closed(a, 0xB, s, n);
    lemma_mul_mod_noop_right(s, p, m);
    lemma_mul_mod_noop_right(0xB, g, m);
    lemma_add_mod_noop(s * p, 0xB * g, m);
    assert(lcg_iter(s, n) == s % m) by {
        lemma_mod_twice(s, m);
        lemma_small_mod((s % m) as nat, m as nat);
    }
    lemma_iter_inverse(s, n);
    lemma_iter_back_reduced(s, n);
}

/// Steps backward depend only on the reduced state.
pub proof fn lemma_iter_back_reduced(s: int, n: nat)
    ensures
        lcg_iter_back(s % modulus(), n) == lcg_iter_back(s, n),
        lcg_iter(s % modulus(), n) == lcg_iter(s, n),
    decreases n,
{
    if n == 0 {
        lemma_mod_twice(s, modulus());
    } else {
        lemma_iter_back_reduced(s, (n - 1) as nat);
    }
}

/// Congruence modulo 2^48.
pub open spec fn eqm(x: int, y: int) -> bool {
    x % modulus() == y % modulus()
}

pub proof fn lemma_eqm_mul(x: int, x2: int, y: int, y2: int)
    requires
        eqm(x, x2),
        eqm(y, y2),
    ensures
        eqm(x * y, x2 * y2),
{
    lemma_mul_mod_noop_general(x, y, modulus());
    lemma_mul_mod_noop_general(x2, y2, modulus());
}

pub proof fn lemma_eqm_add(x: int, x2: int, y: int, y2: int)
    requires
        eqm(x, x2),
        eqm(y, y2),
    ensures
        eqm(x + y, x2 + y2),
        eqm(x - y, x2 - y2),
{
    lemma_add_mod_noop(x, y, modulus());
    lemma_add_mod_noop(x2, y2, modulus());
    lemma_sub_mod_noop(x, y, modulus());
    lemma_sub_mod_noop(x2, y2, modulus());
}

/// A remainder modulo 2^64 is congruent to the number modulo 2^48.
pub proof fn lemma_eqm_wrap(x: int)
    ensures
        eqm(x % 0x1_0000_0000_0000_0000, x),
{
    lemma_mod_mod(x, modulus(), 0x10000);
}

/// 64-bit wrapping arithmetic is arithmetic modulo 2^48.
pub proof fn lemma_eqm_wrapping(x: u64, y: u64)
    ensures
        eqm(x.wrapping_mul(y) as int, x * y),
        eqm(x.wrapping_add(y) as int, x + y),
        eqm(x.wrapping_sub(y) as int, x - y),
{
    let m = modulus();
    lemma_eqm_wrap(x * y);
    assert(x.wrapping_mul(y) as int == (x * y) % 0x1_0000_0000_0000_0000);
    if x + y > u64::MAX {
        lemma_mod_equal(x.wrapping_add(y) as int, x + y, -0x10000, m);
    }
    if x - y < 0 {
        lemma_mod_equal(x.wrapping_sub(y) as int, x - y, 0x10000, m);
    }
}

/// `k` jumps of `2^i` steps add `k * 2^i` to the state, modulo `2^(i+1)`.
pub proof fn lemma_jump_many(z: int, i: nat, k: nat)
    requires
        i < 48,
    ensures
        lcg_iter(z, k * pow2(i)) % (2 * p2(i)) == (z + k * p2(i)) % (2 * p2(i)),
    decreases k,
{
    let n = p2(i);
    lemma_pow2_pos(i);
    lemma2_to64_rest();
    if k == 0 {
        lemma_pow2_adds(i + 1, (47 - i) as nat);
        lemma_pow2_unfold(i + 1);
        lemma_pow2_pos((47 - i) as nat);
        assert(modulus() == (2 * n) * p2((47 - i) as nat));
        lemma_mod_mod(z, 2 * n, p2((47 - i) as nat));
        assert(k * pow2(i) == 0);
        assert(z + k * p2(i) == z);
    } else {
        let j = (k - 1) as nat;
        lemma_jump_many(z, i, j);
        assert(k * pow2(i) == j * pow2(i) + pow2(i)) by (nonlinear_arith)
            requires
                k == j + 1,
        ;
        assert(z + k * n == (z + j * n) + n) by (nonlinear_arith)
            requires
                k == j + 1,
        ;
        lemma_iter_adds(z, j * pow2(i), pow2(i));
        let y = lcg_iter(z, j * pow2(i));
        lemma_jump(y, i);
        lemma_add_mod_noop(y, n, 2 * n);
        lemma_add_mod_noop(z + j * n, n, 2 * n);
    }
}

/// Adding `n` changes the remainder modulo `2 * n`.
pub proof fn lemma_half_differs(z: int, n: int)
    requires
        n > 0,
        0 <= z,
    ensures
        (z + n) % (2 * n) != z % (2 * n),
{
    lemma_breakdown(z, n, 2);
    lemma_breakdown(z + n, n, 2);
    lemma_div_plus_one(z, n);
    lemma_mod_add_multiples_vanish(z, n);
    assert(n * 2 == 2 * n);
    let bz = (z / n) % 2;
    let b2 = (z / n + 1) % 2;
    assert(bz != b2);
    assert(n * bz != n * b2) by (nonlinear_arith)
        requires
            bz != b2,
            n > 0,
    ;
}

/// What is known in round `i` of the search for the distance from `s` to
/// `t`: `d` steps lead to a state that agrees with `t` in its low `i` bits,
/// and every distance that leads to `t` agrees with `d` in its low `i` bits.
pub open spec fn distance_known(s: int, t: int, d: nat, i: nat) -> bool {
    &&& d < pow2(i)
    &&& lcg_iter(s, d) % p2(i) == t % p2(i)
    &&& forall|e: nat| lcg_iter(s, e) == t ==> (e as int) % p2(i) == d
}

/// Nothing is known before the first round.
pub proof fn lemma_distance_start(s: int, t: int)
    ensures
        distance_known(s, t, 0, 0),
{
    lemma2_to64();
}

/// Bit `i` of a distance `e` that leads from `s` to `t`, when its low `i`
/// bits are `d`: it is set exactly if `d` steps lead to a state that differs
/// from `t` in bit `i`.
pub proof fn lemma_distance_bit(s: int, t: int, d: nat, i: nat, e: nat)
    requires
        i < 48,
        0 <= t,
        d < pow2(i),
        lcg_iter(s, e) == t,
        (e as int) % p2(i) == d,
    ensures
        lcg_iter(s, d) % (2 * p2(i)) != t % (2 * p2(i)) ==> (e as int) % (2 * p2(i)) == d + p2(i),
        lcg_iter(s, d) % (2 * p2(i)) == t % (2 * p2(i)) ==> (e as int) % (2 * p2(i)) == d,
{
    let n = p2(i);
    let m2 = 2 * n;
    let z = lcg_iter(s, d);
    lemma_pow2_pos(i);
    lemma_iter_range(s, d);
    let k = ((e as int) / n) as nat;
    assert(e == d + k * pow2(i)) by {
        lemma_fundamental_div_mod(e as int, n);
        assert(n * (k as int) == k * pow2(i)) by (nonlinear_arith)
            requires
                n == pow2(i),
        ;
    }
    assert(t % m2 == (z + k * n) % m2) by {
        lemma_iter_adds(s, d, k * pow2(i));
        lemma_jump_many(z, i, k);
    }
    let h = (k / 2) as int;
    let b = (k % 2) as int;
    assert(k == 2 * h + b);
    assert((z + k * n) % m2 == (z + b * n) % m2) by {
        assert(z + k * n == (z + b * n) + h * m2) by (nonlinear_arith)
            requires
                k == 2 * h + b,
                m2 == 2 * n,
        ;
        lemma_mod_equal(z + k * n, z + b * n, h, m2);
    }
    assert((e as int) % m2 == (d + b * n) % m2) by {
        assert(e == (d + b * n) + h * m2) by (nonlinear_arith)
            requires
                e == d + k * n,
                k == 2 * h + b,
                m2 == 2 * n,
        ;
        lemma_mod_equal(e as int, d + b * n, h, m2);
    }
    if b == 0 {
        assert(b * n == 0);
        assert((d + b * n) % m2 == d) by {
            lemma_small_mod(d, m2 as nat);
        }
    } else {
        assert(b == 1);
        assert(b * n == n);
        assert((z + n) % m2 != z % m2) by {
            lemma_half_differs(z, n);
        }
        assert((d + b * n) % m2 == d + n) by {
            lemma_small_mod((d + n) as nat, m2 as nat);
        }
    }
}

/// One round of the search: bit `i` of the distance is set exactly if the
/// state reached so far differs from `t` in bit `i`.
pub proof fn lemma_distance_round(s: int, t: int, d: nat, i: nat)
    requires
        i < 48,
        0 <= t,
        distance_known(s, t, d, i),
    ensures
        lcg_iter(s, d) % (2 * p2(i)) != t % (2 * p2(i)) ==> distance_known(
            s,
            t,
            d + pow2(i),
            i + 1,
        ),
        lcg_iter(s, d) % (2 * p2(i)) == t % (2 * p2(i)) ==> distance_known(s, t, d, i + 1),
{
    let n = p2(i);
    let z = lcg_iter(s, d);
    lemma_pow2_pos(i);
    lemma_pow2_unfold(i + 1);
    assert(p2(i + 1) == 2 * n);
    lemma_iter_range(s, d);
    if z % (2 * n) != t % (2 * n) {
        assert(lcg_iter(s, d + pow2(i)) % (2 * n) == t % (2 * n)) by {
            lemma_iter_adds(s, d, pow2(i));
            lemma_jump(z, i);
            lemma_half_flip(z, t, n);
        }
        assert forall|e: nat| lcg_iter(s, e) == t implies (e as int) % p2(i + 1) == d + pow2(
            i,
        ) by {
            lemma_distance_bit(s, t, d, i, e);
        }
    } else {
        assert forall|e: nat| lcg_iter(s, e) == t implies (e as int) % p2(i + 1) == d by {
            lemma_distance_bit(s, t, d, i, e);
        }
    }
}

/// When the state reached equals `t`, the distance found is the least one.
pub proof fn lemma_distance_least(s: int, t: int, d: nat, i: nat)
    requires
        distance_known(s, t, d, i),
    ensures
        forall|e: nat| lcg_iter(s, e) == t ==> d <= e,
{
    lemma_pow2_pos(i);
    assert forall|e: nat| lcg_iter(s, e) == t implies d <= e by {
        lemma_mod_decreases(e, pow2(i));
    }
}

/// After all 48 rounds the state reached is `t`.
pub proof fn lemma_distance_done(s: int, t: int, d: nat)
    requires
        0 <= t < modulus(),
        distance_known(s, t, d, 48),
    ensures
        lcg_iter(s, d) == t,
{
    lemma2_to64_rest();
    lemma_iter_range(s, d);
    lemma_small_mod(lcg_iter(s, d) as nat, modulus() as nat);
    lemma_small_mod(t as nat, modulus() as nat);
}

/// 2^64, the range of the 64-bit words the generator is computed in.
pub open spec fn wrap64() -> int {
    0x1_0000_0000_0000_0000
}

/// One round of square-and-multiply, modulo 2^64.
pub proof fn lemma_pow_wrapping_step(acc: int, base: int, exp: nat)
    requires
        exp >= 1,
    ensures
        ({
            let acc2 = if exp % 2 == 1 {
                (acc * base) % wrap64()
            } else {
                acc
            };
            let base2 = (base * base) % wrap64();
            (acc2 * pow(base2, exp / 2)) % wrap64() == (acc * pow(base, exp)) % wrap64()
        }),
{
    let w = wrap64();
    let k = exp / 2;
    let sq = base * base;
    let base2 = sq % w;
    lemma_square_is_pow2(base);
    lemma_pow_multiplies(base, 2, k);
    assert(pow(sq, k) == pow(base, 2 * k));
    lemma_pow_mod_noop(sq, k, w);
    assert(pow(base2, k) % w == pow(sq, k) % w);
    if exp % 2 == 1 {
        assert(exp == 2 * k + 1);
        lemma_pow_succ(base, 2 * k);
        let acc2 = (acc * base) % w;
        lemma_mul_mod_noop_general(acc2, pow(base2, k), w);
        lemma_mod_twice(acc * base, w);
        lemma_mul_mod_noop_general(acc * base, pow(sq, k), w);
        assert((acc * base) * pow(sq, k) == acc * (pow(base, 2 * k) * base)) by (nonlinear_arith)
            requires
                pow(sq, k) == pow(base, 2 * k),
        ;
    } else {
        assert(exp == 2 * k);
        lemma_mul_mod_noop_right(acc, pow(base2, k), w);
        lemma_mul_mod_noop_right(acc, pow(sq, k), w);
    }
}

/// A wrapped power of a number that is 1 modulo 4 is 1 modulo 4.
pub proof fn lemma_pow_wrapped_mod4(a: int, n: nat)
    requires
        a % 4 == 1,
    ensures
        (pow(a, n) % wrap64()) % 4 == 1,
{
    lemma_pow_mod4(a, n);
    lemma_mod_mod(pow(a, n), 4, 0x4000_0000_0000_0000);
}

/// The closed form of `n` steps of `x -> x * a + c`, computed on 64-bit
/// words: with `an` the wrapped power `a^n` and `aes` congruent to
/// `((an - 1) / 4) * inv`, `s * an + c * aes` is the state after `n` steps.
pub proof fn lemma_jump_formula(a: int, c: int, b: int, inv: int, s: int, n: nat, an: int, aes: int)
    requires
        a % 4 == 1,
        4 * b == a - 1,
        (b * inv) % modulus() == 1,
        an == pow(a, n) % wrap64(),
        eqm(aes, ((an - 1) / 4) * inv),
    ensures
        an >= 1,
        eqm(s * an + c * aes, affine_iter(a, c, s, n)),
{
    let m = modulus();
    let w = wrap64();
    let p = pow(a, n);
    let g = geo(a, n);
    let q = p / w;
    let e = (an - 1) / 4;
    lemma_fundamental_div_mod(p, w);
    lemma_pow_mod4(a, n);
    lemma_pow_wrapped_mod4(a, n);
    lemma_geo_by_inverse(a, b, inv, n);
    assert(e == b * g - (q * 0x4000) * m);
    assert(eqm(e, b * g)) by {
        lemma_mod_equal(e, b * g, -(q * 0x4000), m);
    }
    assert(eqm(inv, inv));
    lemma_eqm_mul(e, b * g, inv, inv);
    assert(eqm(aes, g));
    lemma_eqm_wrap(p);
    assert(eqm(an, p));
    assert(eqm(s, s));
    assert(eqm(c, c));
    lemma_eqm_mul(s, s, an, p);
    lemma_eqm_mul(c, c, aes, g);
    lemma_eqm_add(s * an, s * p, c * aes, c * g);
    lemma_affine_closed(a, c, s, n);
}

/// With `a` congruent to `A^n` and `c` to `C * (1 + A + ... + A^(n-1))`,
/// `a * z + c` on 64-bit words is the state `n` steps after `z`.
pub proof fn lemma_jump_by_pair(a: u64, c: u64, z: u64, n: nat)
    requires
        eqm(a as int, pow(0x5DEECE66D, n)),
        eqm(c as int, 0xB * geo(0x5DEECE66D, n)),
    ensures
        (a.wrapping_mul(z).wrapping_add(c) as int) % modulus() == lcg_iter(z as int, n),
{
    let p = pow(0x5DEECE66D, n);
    let g = geo(0x5DEECE66D, n);
    let t = a.wrapping_mul(z);
    lemma_eqm_wrapping(a, z);
    lemma_eqm_wrapping(t, c);
    assert(eqm(z as int, z as int));
    lemma_eqm_mul(a as int, p, z as int, z as int);
    lemma_eqm_add(t as int, p * z, c as int, 0xB * g);
    lemma_affine_closed(0x5DEECE66D, 0xB, z as int, n);
    assert(p * z == z * p) by (nonlinear_arith);
    lemma_iter_is_affine(z as int, n);
}

/// Squaring `a` and multiplying `c` by `a + 1` doubles the number of steps
/// that the pair stands for.
pub proof fn lemma_pair_doubles(a: u64, c: u64, n: nat)
    requires
        eqm(a as int, pow(0x5DEECE66D, n)),
        eqm(c as int, 0xB * geo(0x5DEECE66D, n)),
    ensures
        eqm(a.wrapping_mul(a) as int, pow(0x5DEECE66D, n + n)),
        eqm(c.wrapping_mul(a.wrapping_add(1)) as int, 0xB * geo(0x5DEECE66D, n + n)),
{
    let p = pow(0x5DEECE66D, n);
    let g = geo(0x5DEECE66D, n);
    lemma_pow_adds(0x5DEECE66D, n, n);
    lemma_geo_adds(0x5DEECE66D, n, n);
    lemma_eqm_wrapping(a, a);
    lemma_eqm_mul(a as int, p, a as int, p);
    let a1 = a.wrapping_add(1);
    lemma_eqm_wrapping(a, 1);
    assert(eqm(1, 1));
    lemma_eqm_add(a as int, p, 1, 1);
    lemma_eqm_wrapping(c, a1);
    lemma_eqm_mul(c as int, 0xB * g, a1 as int, p + 1);
    assert((0xB * g) * (p + 1) == 0xB * (g * p + g)) by (nonlinear_arith);
}

/// A distance that leads to `t` and is not the one found so far is at
/// least `2^i` larger.
pub proof fn lemma_distance_gap(s: int, t: int, d: nat, i: nat)
    requires
        distance_known(s, t, d, i),
        lcg_iter(s, d) != t,
    ensures
        forall|e: nat| lcg_iter(s, e) == t ==> e >= d + pow2(i),
{
    lemma_pow2_pos(i);
    assert forall|e: nat| lcg_iter(s, e) == t implies e >= d + pow2(i) by {
        let n = p2(i);
        let k = (e as int) / n;
        lemma_fundamental_div_mod(e as int, n);
        assert(e != d);
        assert(k >= 1) by (nonlinear_arith)
            requires
                e == n * k + d,
                e != d,
                e >= 0,
                d < n,
                n > 0,
        ;
        assert(n * k >= n) by (nonlinear_arith)
            requires
                k >= 1,
                n > 0,
        ;
    }
}

/// `d` steps, at least one, lead from `s` to the state 0.
pub open spec fn hits_zero(s: int, d: nat) -> bool {
    d >= 1 && lcg_iter(s, d) == 0
}

/// The least number of steps, at least one, that lead from `s` to the
/// state 0.
pub open spec fn steps_to_zero(s: int) -> nat {
    choose|d: nat| hits_zero(s, d) && forall|e: nat| hits_zero(s, e) ==> d <= e
}

proof fn lemma_least_hit(s: int, d: nat) -> (l: nat)
    requires
        hits_zero(s, d),
    ensures
        hits_zero(s, l),
        forall|e: nat| hits_zero(s, e) ==> l <= e,
    decreases d,
{
    if exists|e: nat| e < d && hits_zero(s, e) {
        let e = choose|e: nat| e < d && hits_zero(s, e);
        lemma_least_hit(s, e)
    } else {
        d
    }
}

/// From every state the state 0 is reached, so `steps_to_zero` is what its
/// name says.
pub proof fn lemma_steps_to_zero(s: int)
    ensures
        hits_zero(s, steps_to_zero(s)),
        forall|e: nat| hits_zero(s, e) ==> steps_to_zero(s) <= e,
{
    let d0 = lemma_full_period(lcg_step(s), 0);
    lemma_iter_first(s, d0);
    let l = lemma_least_hit(s, d0 + 1);
    assert(hits_zero(s, l) && forall|e: nat| hits_zero(s, e) ==> l <= e);
}

/// A step that does not arrive at the state 0 comes closer to it.
pub proof fn lemma_steps_decrease(s: int)
    requires
        lcg_step(s) != 0,
    ensures
        steps_to_zero(lcg_step(s)) < steps_to_zero(s),
{
    let d = steps_to_zero(s);
    lemma_steps_to_zero(s);
    lemma_steps_to_zero(lcg_step(s));
    if d == 1 {
        assert(lcg_iter(s, 1) == lcg_step(lcg_iter(s, 0)));
        lemma_step_reduced(s);
    } else {
        lemma_iter_first(s, (d - 1) as nat);
        assert(hits_zero(lcg_step(s), (d - 1) as nat));
    }
}

/// `d` divides `x`.
pub open spec fn divides(d: int, x: int) -> bool {
    x % d == 0
}

/// A divisor of two numbers divides every sum of multiples of them.
pub proof fn lemma_divides_combination(d: int, x: int, q: int, y: int)
    requires
        d > 0,
        divides(d, x),
        divides(d, y),
    ensures
        divides(d, x * q + y),
{
    lemma_mul_mod_noop_left(x, q, d);
    lemma_add_mod_noop(x * q, y, d);
    assert(0 * q == 0);
    lemma_small_mod(0, d as nat);
}

/// The only odd divisor of a power of two is 1.
pub proof fn lemma_odd_divisor_of_pow2(g: int, n: nat)
    requires
        g > 0,
        g % 2 == 1,
        divides(g, p2(n)),
    ensures
        g == 1,
    decreases n,
{
    lemma2_to64();
    if n == 0 {
        if g > 1 {
            lemma_small_mod(1, g as nat);
        }
    } else {
        let c = p2(n) / g;
        lemma_fundamental_div_mod(p2(n), g);
        lemma_pow2_unfold(n);
        assert(p2(n) == 2 * p2((n - 1) as nat));
        assert(g * c == 2 * p2((n - 1) as nat));
        lemma_mul_mod_noop_general(g, c, 2);
        if c % 2 == 1 {
            assert((g * c) % 2 == 1);
        }
        let h = c / 2;
        assert(c == 2 * h);
        assert(g * c == 2 * (g * h)) by (nonlinear_arith)
            requires
                c == 2 * h,
        ;
        assert(p2((n - 1) as nat) == h * g) by (nonlinear_arith)
            requires
                2 * (g * h) == 2 * p2((n - 1) as nat),
        ;
        lemma_mod_multiples_basic(h, g);
        lemma_odd_divisor_of_pow2(g, (n - 1) as nat);
    }
}

/// A power of two below 2^64 divides 2^64.
pub proof fn lemma_pow2_divides_wrap(k: nat)
    requires
        k < 64,
    ensures
        divides(p2(k), wrap64()),
{
    lemma2_to64_rest();
    let j = (64 - k) as nat;
    lemma_pow2_adds(k, j);
    lemma_pow2_pos(k);
    assert(k + j == 64);
    assert(wrap64() == pow2(k) * pow2(j));
    assert(wrap64() == p2(j) * p2(k)) by (nonlinear_arith)
        requires
            wrap64() == pow2(k) * pow2(j),
            p2(j) == pow2(j),
            p2(k) == pow2(k),
    ;
    lemma_mod_multiples_basic(p2(j), p2(k));
}

/// One round of the extended Euclidean algorithm on 64-bit words: for a
/// modulus that divides 2^64, the new coefficient times `a` is congruent to
/// the new remainder.
pub proof fn lemma_mod_inv_step(a: u64, m: u64, x0: u64, x1: u64, r0: u64, r1: u64)
    requires
        m > 0,
        divides(m as int, wrap64()),
        r1 > 0,
        (x0 * a) % (m as int) == r0 % m,
        (x1 * a) % (m as int) == r1 % m,
    ensures
        (x0.wrapping_sub((r0 / r1).wrapping_mul(x1)) * a) % (m as int) == (r0 % r1) % m,
{
    let mi = m as int;
    let w = wrap64();
    let c = w / mi;
    lemma_fundamental_div_mod(w, mi);
    assert(w == mi * c);
    let q = r0 / r1;
    lemma_fundamental_div_mod(r0 as int, r1 as int);
    let t = q.wrapping_mul(x1);
    let k1 = (q * x1) / w;
    lemma_fundamental_div_mod(q * x1, w);
    assert(t as int == (q * x1) % w);
    let nx = x0.wrapping_sub(t);
    let e: int = if x0 - t < 0 {
        1
    } else {
        0
    };
    assert(nx as int == x0 - t + w * e);
    let y = (x0 - q * x1) * a;
    assert(nx * a == y + ((c * k1 + c * e) * a) * mi) by (nonlinear_arith)
        requires
            nx as int == x0 - t + w * e,
            t as int == q * x1 - w * k1,
            w == mi * c,
            y == (x0 - q * x1) * a,
    ;
    lemma_mod_equal(nx * a, y, (c * k1 + c * e) * a, mi);
    assert(y == x0 * a - q * (x1 * a)) by (nonlinear_arith)
        requires
            y == (x0 - q * x1) * a,
    ;
    lemma_mul_mod_noop_right(q as int, x1 * a, mi);
    lemma_mul_mod_noop_right(q as int, r1 as int, mi);
    lemma_sub_mod_noop(x0 * a, q * (x1 * a), mi);
    lemma_sub_mod_noop(r0 as int, q * r1, mi);
    assert(r0 - q * r1 == r0 % r1) by (nonlinear_arith)
        requires
            r0 as int == r1 * q + r0 % r1,
    ;
}

} // verus!
