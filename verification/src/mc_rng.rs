//! The generator that every layer seeds anew for each cell: three 64-bit
//! values and one mixing function.

use vstd::prelude::*;
use vstd::arithmetic::div_mod::*;

pub mod twins;

verus! {

/// `s * (s * 6364136223846793005 + 1442695040888963407) + v`, wrapping on
/// 64 bits.
pub open spec fn mix(s: i64, v: i64) -> i64 {
    s.wrapping_mul(
        s.wrapping_mul(6364136223846793005).wrapping_add(1442695040888963407),
    ).wrapping_add(v)
}

/// The base seed of a layer as the generator stores it: three rounds of
/// mixing the given one into itself.
pub open spec fn mixed_base_seed(base_seed: i64) -> i64 {
    mix(mix(mix(base_seed, base_seed), base_seed), base_seed)
}

/// The world seed as the generator of a layer stores it: three rounds of
/// mixing the stored base seed into the given world seed.
pub open spec fn mixed_world_seed(stored_base: i64, world_seed: i64) -> i64 {
    mix(mix(mix(world_seed, stored_base), stored_base), stored_base)
}

/// The state that a cell starts from: the stored world seed with the
/// coordinates mixed in, twice each.
pub open spec fn cell_seed(stored_world: i64, x: i64, z: i64) -> i64 {
    mix(mix(mix(mix(stored_world, x), z), x), z)
}

/// The number from 0 up to `n` that a state hands out: its bits from bit 24
/// upwards, modulo `n`.
pub open spec fn drawn(chunk_seed: i64, n: i32) -> i32 {
    (((chunk_seed >> 24) as int) % (n as int)) as i32
}

/// One of two values, by one draw.
pub open spec fn chosen2(chunk_seed: i64, a: i32, b: i32) -> i32 {
    if drawn(chunk_seed, 2) == 0 {
        a
    } else {
        b
    }
}

/// One of four values, by one draw.
pub open spec fn chosen4(chunk_seed: i64, a: i32, b: i32, c: i32, d: i32) -> i32 {
    let i = drawn(chunk_seed, 4);
    if i == 0 {
        a
    } else if i == 1 {
        b
    } else if i == 2 {
        c
    } else {
        d
    }
}

/// Whether the four values hold one that occurs more often than any other,
/// first or among the rest.
pub open spec fn has_mode(a1: i32, a2: i32, a3: i32, a4: i32) -> bool {
    ||| (a2 == a3 && a3 == a4)
    ||| (a1 == a2 && a1 == a3)
    ||| (a1 == a2 && a1 == a4)
    ||| (a1 == a3 && a1 == a4)
    ||| (a1 == a2 && a3 != a4)
    ||| (a1 == a3 && a2 != a4)
    ||| (a1 == a4 && a2 != a3)
    ||| (a2 == a3 && a1 != a4)
    ||| (a2 == a4 && a1 != a3)
    ||| (a3 == a4 && a1 != a2)
}

/// The value that occurs most often among four, where `has_mode` holds.
pub open spec fn mode_of(a1: i32, a2: i32, a3: i32, a4: i32) -> i32 {
    if a2 == a3 && a3 == a4 {
        a2
    } else if a1 == a2 && a1 == a3 {
        a1
    } else if a1 == a2 && a1 == a4 {
        a1
    } else if a1 == a3 && a1 == a4 {
        a1
    } else if a1 == a2 && a3 != a4 {
        a1
    } else if a1 == a3 && a2 != a4 {
        a1
    } else if a1 == a4 && a2 != a3 {
        a1
    } else if a2 == a3 && a1 != a4 {
        a2
    } else if a2 == a4 && a1 != a3 {
        a2
    } else {
        a3
    }
}

/// The most frequent of four values, or one of them by one draw where two
/// pairs tie or all four differ.
pub open spec fn mode_or_chosen(chunk_seed: i64, a1: i32, a2: i32, a3: i32, a4: i32) -> i32 {
    if has_mode(a1, a2, a3, a4) {
        mode_of(a1, a2, a3, a4)
    } else {
        chosen4(chunk_seed, a1, a2, a3, a4)
    }
}

/// The other world seed that every layer takes for the same one: the two
/// add up to a constant.
pub open spec fn similar_seed(seed: i64) -> i64 {
    (-7379792620528906219i64).wrapping_sub(seed)
}

/// Whether `x`, a seed of `bits` bits, is the smaller one of the two seeds
/// that every layer takes for the same one.
pub open spec fn is_smaller_twin(x: i64, bits: u8) -> bool {
    x < (similar_seed(x) & (((1u64 << bits) - 1) as i64))
}

/// The smaller twins below `upto`, in rising order.
pub open spec fn smaller_twins(bits: u8, upto: nat) -> Seq<i64>
    decreases upto,
{
    if upto == 0 {
        Seq::empty()
    } else {
        let before = smaller_twins(bits, (upto - 1) as nat);
        if is_smaller_twin((upto - 1) as i64, bits) {
            before.push((upto - 1) as i64)
        } else {
            before
        }
    }
}

/// From the rising list of the smaller twins of `bits` bits, the entries
/// from index `lo` up to index `hi`, as far as the list has them.
pub open spec fn twin_range(bits: u8, lo: u64, hi: u64) -> Seq<i64> {
    let all = smaller_twins(bits, (1u64 << bits) as nat);
    let from = if lo <= all.len() {
        lo as int
    } else {
        all.len() as int
    };
    let to = if hi <= all.len() {
        hi as int
    } else {
        all.len() as int
    };
    if from <= to {
        all.subrange(from, to)
    } else {
        Seq::empty()
    }
}

/// `x` modulo `y`, with the sign of `y`: the remainder of the division
/// rounded down.
pub open spec fn floor_mod(x: i64, y: i64) -> int {
    (x as int) % (y as int)
}

/// `x / y` rounded down.
pub open spec fn floor_div(x: i64, y: i64) -> int {
    (x as int) / (y as int)
}

#[derive(Copy, Clone, Debug, PartialEq)]
pub struct McRng {
    base_seed: i64,
    world_seed: i64,
    chunk_seed: i64,
}

impl Default for McRng {
    fn default() -> (r: McRng)
        ensures
            r.base() == 0,
            r.world() == 0,
            r.chunk() == 0,
    {
        McRng { base_seed: 0, world_seed: 0, chunk_seed: 0 }
    }
}

impl McRng {
    /// The stored base seed.
    pub closed spec fn base(&self) -> i64 {
        self.base_seed
    }

    /// The stored world seed.
    pub closed spec fn world(&self) -> i64 {
        self.world_seed
    }

    /// The state that the next draw is taken from.
    pub closed spec fn chunk(&self) -> i64 {
        self.chunk_seed
    }

    /// The generator of a layer with the given base seed, for the given
    /// world seed.
    pub closed spec fn seeded(base_seed: i64, world_seed: i64) -> McRng {
        McRng {
            base_seed: mixed_base_seed(base_seed),
            world_seed: mixed_world_seed(mixed_base_seed(base_seed), world_seed),
            chunk_seed: 0,
        }
    }

    /// The generator of a layer with the given base seed that was never
    /// given a world seed.
    pub closed spec fn seeded_without_world(base_seed: i64) -> McRng {
        McRng { base_seed: mixed_base_seed(base_seed), world_seed: 0, chunk_seed: 0 }
    }

    /// What the generator of a layer holds.
    pub proof fn lemma_seeded(base_seed: i64, world_seed: i64)
        ensures
            Self::seeded(base_seed, world_seed).base() == mixed_base_seed(base_seed),
            Self::seeded(base_seed, world_seed).world() == mixed_world_seed(
                mixed_base_seed(base_seed),
                world_seed,
            ),
            Self::seeded_without_world(base_seed).base() == mixed_base_seed(base_seed),
            Self::seeded_without_world(base_seed).world() == 0,
    {
    }

    /// A layer has the same generator for a world seed and for the seed
    /// that adds up with it to the constant.
    pub proof fn lemma_seeded_alike(base_seed: i64, world_seed: i64)
        ensures
            Self::seeded(base_seed, similar_seed(world_seed)) == Self::seeded(
                base_seed,
                world_seed,
            ),
    {
        twins::lemma_similar_seed_same_world(mixed_base_seed(base_seed), world_seed);
    }

    /// The generator of a layer with the given base seed, without a world
    /// seed.
    pub fn with_base_seed(base_seed: i64) -> (r: McRng)
        ensures
            r == Self::seeded_without_world(base_seed),
            r.base() == mixed_base_seed(base_seed),
            r.world() == 0,
    {
        let mut r = McRng { base_seed: 0, world_seed: 0, chunk_seed: 0 };
        r.set_base_seed(base_seed);
        r
    }

    pub fn new(base_seed: i64, world_seed: i64) -> (r: McRng)
        ensures
            r == Self::seeded(base_seed, world_seed),
            r.base() == mixed_base_seed(base_seed),
            r.world() == mixed_world_seed(mixed_base_seed(base_seed), world_seed),
            r.chunk() == 0,
    {
        let mut r = McRng { base_seed: 0, world_seed: 0, chunk_seed: 0 };
        r.set_base_seed(base_seed);
        r.set_world_seed(world_seed);
        r
    }

    pub fn set_base_seed(&mut self, base_seed: i64)
        ensures
            final(self).base() == mixed_base_seed(base_seed),
            final(self).world() == old(self).world(),
            final(self).chunk() == old(self).chunk(),
    {
        let mut b = base_seed;
        b = Self::next_state(b, base_seed);
        b = Self::next_state(b, base_seed);
        b = Self::next_state(b, base_seed);
        self.base_seed = b;
    }

    pub fn set_world_seed(&mut self, world_seed: i64)
        ensures
            final(self).base() == old(self).base(),
            final(self).world() == mixed_world_seed(old(self).base(), world_seed),
            final(self).chunk() == old(self).chunk(),
    {
        let mut w = world_seed;
        w = Self::next_state(w, self.base_seed);
        w = Self::next_state(w, self.base_seed);
        w = Self::next_state(w, self.base_seed);
        self.world_seed = w;
    }

    pub fn set_chunk_seed(&mut self, chunk_x: i64, chunk_z: i64)
        ensures
            final(self).base() == old(self).base(),
            final(self).world() == old(self).world(),
            final(self).chunk() == cell_seed(old(self).world(), chunk_x, chunk_z),
    {
        let mut c = self.world_seed;
        c = Self::next_state(c, chunk_x);
        c = Self::next_state(c, chunk_z);
        c = Self::next_state(c, chunk_x);
        c = Self::next_state(c, chunk_z);
        self.chunk_seed = c;
    }

    /// The mixing function.
    pub fn next_state(s: i64, w: i64) -> (r: i64)
        ensures
            r == mix(s, w),
    {
        s.wrapping_mul(
            s.wrapping_mul(6364136223846793005).wrapping_add(1442695040888963407),
        ).wrapping_add(w)
    }

    /// A number from 0 up to `n`, and one step of the state.
    pub fn next_int_n(&mut self, n: i32) -> (r: i32)
        requires
            n > 0,
        ensures
            r == drawn(old(self).chunk(), n),
            0 <= r < n,
            final(self).base() == old(self).base(),
            final(self).world() == old(self).world(),
            final(self).chunk() == mix(old(self).chunk(), old(self).world()),
    {
        let ret = Self::math_floor_mod(self.chunk_seed >> 24, n as i64);
        self.chunk_seed = Self::next_state(self.chunk_seed, self.world_seed);
        ret as i32
    }

    /// One of two values, by one draw.
    pub fn choose2(&mut self, a: i32, b: i32) -> (r: i32)
        ensures
            r == chosen2(old(self).chunk(), a, b),
            final(self).base() == old(self).base(),
            final(self).world() == old(self).world(),
            final(self).chunk() == mix(old(self).chunk(), old(self).world()),
    {
        if self.next_int_n(2) == 0 {
            a
        } else {
            b
        }
    }

    /// One of four values, by one draw.
    pub fn choose4(&mut self, a: i32, b: i32, c: i32, d: i32) -> (r: i32)
        ensures
            r == chosen4(old(self).chunk(), a, b, c, d),
            final(self).base() == old(self).base(),
            final(self).world() == old(self).world(),
            final(self).chunk() == mix(old(self).chunk(), old(self).world()),
    {
        let i = self.next_int_n(4);
        if i == 0 {
            a
        } else if i == 1 {
            b
        } else if i == 2 {
            c
        } else {
            d
        }
    }

    /// The most frequent of four values; where two pairs tie or all four
    /// differ, one of them by one draw.
    pub fn select_mode_or_random(&mut self, a1: i32, a2: i32, a3: i32, a4: i32) -> (r: i32)
        ensures
            r == mode_or_chosen(old(self).chunk(), a1, a2, a3, a4),
            final(self).base() == old(self).base(),
            final(self).world() == old(self).world(),
    {
        if a2 == a3 && a3 == a4 {
            a2
        } else if a1 == a2 && a1 == a3 {
            a1
        } else if a1 == a2 && a1 == a4 {
            a1
        } else if a1 == a3 && a1 == a4 {
            a1
        } else if a1 == a2 && a3 != a4 {
            a1
        } else if a1 == a3 && a2 != a4 {
            a1
        } else if a1 == a4 && a2 != a3 {
            a1
        } else if a2 == a3 && a1 != a4 {
            a2
        } else if a2 == a4 && a1 != a3 {
            a2
        } else if a3 == a4 && a1 != a2 {
            a3
        } else {
            self.choose4(a1, a2, a3, a4)
        }
    }

    /// The other world seed that gives every layer the same state.
    pub fn similar_biome_seed(seed: i64) -> (r: i64)
        ensures
            r == similar_seed(seed),
    {
        (-7379792620528906219i64).wrapping_sub(seed)
    }

    /// Whether `x` is smaller than its similar seed, both taken on `bits`
    /// bits.
    pub fn is_smaller_similar_seed(x: i64, bits: u8) -> (r: bool)
        requires
            bits < 64,
        ensures
            r == is_smaller_twin(x, bits),
    {
        assert((1u64 << bits) >= 1 && (1u64 << bits) - 1 <= 0x7FFF_FFFF_FFFF_FFFF) by (bit_vector)
            requires
                bits < 64,
        ;
        let m = ((1u64 << bits) - 1) as i64;
        x < (Self::similar_biome_seed(x) & m)
    }

    /// All seeds of `bits` bits that are smaller than their similar seed,
    /// in rising order: one seed of every pair.
    pub fn similar_biome_seed_iterator_bits(bits: u8) -> (v: Vec<i64>)
        requires
            bits < 63,
        ensures
            v@ == smaller_twins(bits, (1u64 << bits) as nat),
    {
        let end: u64 = 1u64 << bits;
        assert(end <= 0x4000_0000_0000_0000) by (bit_vector)
            requires
                end == 1u64 << bits,
                bits < 63,
        ;
        let mut v: Vec<i64> = Vec::new();
        let mut x: u64 = 0;
        while x < end
            invariant
                x <= end,
                end <= 0x4000_0000_0000_0000,
                bits < 63,
                v@ == smaller_twins(bits, x as nat),
            decreases end - x,
        {
            if Self::is_smaller_similar_seed(x as i64, bits) {
                v.push(x as i64);
            }
            x += 1;
        }
        v
    }

    /// From the rising list of seeds of `bits` bits that are smaller than
    /// their similar seed, the entries from index `lo` up to index `hi`, as
    /// far as the list has them.
    pub fn similar_biome_seeds_in_range(bits: u8, lo: u64, hi: u64) -> (v: Vec<i64>)
        requires
            bits < 63,
        ensures
            v@ == twin_range(bits, lo, hi),
    {
        let end: u64 = 1u64 << bits;
        assert(end <= 0x4000_0000_0000_0000) by (bit_vector)
            requires
                end == 1u64 << bits,
                bits < 63,
        ;
        let mut v: Vec<i64> = Vec::new();
        let mut x: u64 = 0;
        let mut count: u64 = 0;
        while x < end && count < hi
            invariant
                x <= end,
                end <= 0x4000_0000_0000_0000,
                bits < 63,
                count == smaller_twins(bits, x as nat).len(),
                count <= x,
                count <= hi,
                ({
                    let seen = smaller_twins(bits, x as nat);
                    let from = if lo <= seen.len() {
                        lo as int
                    } else {
                        seen.len() as int
                    };
                    v@ == seen.subrange(from, seen.len() as int)
                }),
            decreases end - x,
        {
            if Self::is_smaller_similar_seed(x as i64, bits) {
                if count >= lo {
                    v.push(x as i64);
                }
                count += 1;
            }
            x += 1;
        }
        proof {
            let all = smaller_twins(bits, end as nat);
            let seen = smaller_twins(bits, x as nat);
            lemma_smaller_twins_prefix(bits, x as nat, end as nat);
            if x < end {
                assert(count == hi);
                assert(seen == all.subrange(0, hi as int));
            } else {
                assert(seen == all);
            }
        }
        v
    }

    /// `x / y` rounded down, for a `y` above zero.
    pub fn math_floor_div(x: i64, y: i64) -> (r: i64)
        requires
            y > 0,
        ensures
            r == floor_div(x, y),
    {
        if x >= 0 {
            x / y
        } else {
            let m = -(x + 1);
            proof {
                lemma_fundamental_div_mod(m as int, y as int);
                lemma_mod_pos_bound(m as int, y as int);
                let q = (m as int) / (y as int);
                let r = (m as int) % (y as int);
                assert(x as int == (-(q + 1)) * y + (y - 1 - r)) by (nonlinear_arith)
                    requires
                        m as int == y * q + r,
                        x as int == -(m as int) - 1,
                ;
                lemma_fundamental_div_mod_converse(x as int, y as int, -(q + 1), y - 1 - r);
                lemma_div_pos_is_pos(m as int, y as int);
                lemma_div_is_ordered_by_denominator(m as int, 1, y as int);
                lemma_div_basics(m as int);
            }
            -(m / y) - 1
        }
    }

    /// `x` modulo `y`, from 0 up to `y`, for a `y` above zero.
    pub fn math_floor_mod(x: i64, y: i64) -> (r: i64)
        requires
            y > 0,
        ensures
            r == floor_mod(x, y),
            0 <= r < y,
    {
        if x >= 0 {
            proof {
                lemma_mod_pos_bound(x as int, y as int);
            }
            x % y
        } else {
            let m = -(x + 1);
            proof {
                lemma_fundamental_div_mod(m as int, y as int);
                lemma_mod_pos_bound(m as int, y as int);
                let q = (m as int) / (y as int);
                let r = (m as int) % (y as int);
                assert(x as int == (-(q + 1)) * y + (y - 1 - r)) by (nonlinear_arith)
                    requires
                        m as int == y * q + r,
                        x as int == -(m as int) - 1,
                ;
                lemma_fundamental_div_mod_converse(x as int, y as int, -(q + 1), y - 1 - r);
            }
            y - 1 - (m % y)
        }
    }
}

/// The list of smaller twins below a bound begins with the list below a
/// smaller bound.
pub proof fn lemma_smaller_twins_prefix(bits: u8, k: nat, n: nat)
    requires
        k <= n,
    ensures
        smaller_twins(bits, k).len() <= smaller_twins(bits, n).len(),
        smaller_twins(bits, k) == smaller_twins(bits, n).subrange(
            0,
            smaller_twins(bits, k).len() as int,
        ),
    decreases n,
{
    if k < n {
        lemma_smaller_twins_prefix(bits, k, (n - 1) as nat);
    }
}

} // verus!
