//! The versions of the game whose maps are reproduced, and the plain types
//! that observations are handed over in.

use vstd::prelude::*;

verus! {

/// A coordinate pair `(x, z)`.
pub type Point = (i64, i64);

#[derive(Copy, Clone, Debug, PartialEq, Eq, Structural)]
pub enum MinecraftVersion {
    Java1_7,
    Java1_13,
    Java1_14,
    Java1_15,
}

impl MinecraftVersion {
    /// The number of the last layer of the version.
    pub open spec fn layers(&self) -> u32 {
        match self {
            MinecraftVersion::Java1_7 => 43,
            MinecraftVersion::Java1_13 => 51,
            MinecraftVersion::Java1_14 => 51,
            MinecraftVersion::Java1_15 => 51,
        }
    }

    /// The number of the last layer of the version.
    pub fn num_layers(&self) -> (n: u32)
        ensures
            n == self.layers(),
    {
        match self {
            MinecraftVersion::Java1_7 => 43,
            MinecraftVersion::Java1_13 => 51,
            MinecraftVersion::Java1_14 => 51,
            MinecraftVersion::Java1_15 => 51,
        }
    }
}

} // verus!
