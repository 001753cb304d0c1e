//! The constants of the linear congruential generator.

use vstd::prelude::*;

verus! {

/// Multiplier of the recurrence.
pub const A: u64 = 0x5DEECE66D;

/// Increment of the recurrence.
pub const C: u64 = 0xB;

} // verus!
