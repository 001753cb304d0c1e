//! The names of the biome ids, of the kinds of biome and of the climates.

#![allow(non_upper_case_globals)]

use vstd::prelude::*;

verus! {

pub const ocean: i32 = 0;

pub const plains: i32 = 1;

pub const desert: i32 = 2;

pub const extremeHills: i32 = 3;

pub const forest: i32 = 4;

pub const taiga: i32 = 5;

pub const swampland: i32 = 6;

pub const river: i32 = 7;

pub const hell: i32 = 8;

pub const sky: i32 = 9;

pub const frozenOcean: i32 = 10;

pub const frozenRiver: i32 = 11;

pub const icePlains: i32 = 12;

pub const iceMountains: i32 = 13;

pub const mushroomIsland: i32 = 14;

pub const mushroomIslandShore: i32 = 15;

pub const beach: i32 = 16;

pub const desertHills: i32 = 17;

pub const forestHills: i32 = 18;

pub const taigaHills: i32 = 19;

pub const extremeHillsEdge: i32 = 20;

pub const jungle: i32 = 21;

pub const jungleHills: i32 = 22;

pub const jungleEdge: i32 = 23;

pub const deepOcean: i32 = 24;

pub const stoneBeach: i32 = 25;

pub const coldBeach: i32 = 26;

pub const birchForest: i32 = 27;

pub const birchForestHills: i32 = 28;

pub const roofedForest: i32 = 29;

pub const coldTaiga: i32 = 30;

pub const coldTaigaHills: i32 = 31;

pub const megaTaiga: i32 = 32;

pub const megaTaigaHills: i32 = 33;

pub const extremeHillsPlus: i32 = 34;

pub const savanna: i32 = 35;

pub const savannaPlateau: i32 = 36;

pub const mesa: i32 = 37;

pub const mesaPlateau_F: i32 = 38;

pub const mesaPlateau: i32 = 39;

pub const skyIslandLow: i32 = 40;

pub const skyIslandMedium: i32 = 41;

pub const skyIslandHigh: i32 = 42;

pub const skyIslandBarren: i32 = 43;

pub const warmOcean: i32 = 44;

pub const lukewarmOcean: i32 = 45;

pub const coldOcean: i32 = 46;

pub const warmDeepOcean: i32 = 47;

pub const lukewarmDeepOcean: i32 = 48;

pub const coldDeepOcean: i32 = 49;

pub const frozenDeepOcean: i32 = 50;

pub const bambooJungle: i32 = 168;

pub const bambooJungleHills: i32 = 169;

// Kinds of biome.
pub const Ocean: i32 = 0;

pub const Plains: i32 = 1;

pub const Desert: i32 = 2;

pub const Hills: i32 = 3;

pub const Forest: i32 = 4;

pub const Taiga: i32 = 5;

pub const Swamp: i32 = 6;

pub const River: i32 = 7;

pub const Hell: i32 = 8;

pub const Sky: i32 = 9;

pub const Snow: i32 = 10;

pub const MushroomIsland: i32 = 11;

pub const Beach: i32 = 12;

pub const Jungle: i32 = 13;

pub const StoneBeach: i32 = 14;

pub const Savanna: i32 = 15;

pub const Mesa: i32 = 16;

// Climates.
pub const Oceanic: i32 = 0;

pub const Warm: i32 = 1;

pub const Lush: i32 = 2;

pub const Cold: i32 = 3;

pub const Freezing: i32 = 4;

} // verus!
