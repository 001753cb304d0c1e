//! Constants used to run the generator backwards and to jump ahead.

use vstd::prelude::*;

verus! {

/// Inverse of `A` modulo 2^48.
pub const INV_A: u64 = 0xdfe05bcb1365;

/// Inverse of `(A - 1) / 4` modulo 2^48.
pub const INV_A_1: u64 = 18698324575379;

/// Inverse of `(INV_A - 1) / 4` modulo 2^48.
pub const INV__INV_A__1: u64 = 192407907957609;

} // verus!
