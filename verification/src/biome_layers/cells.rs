//! What every layer puts into one cell: the value as a function of the
//! coordinates of the cell, the seed of the layer and the values of the
//! cells of the layer below that it looks at.

#![allow(non_snake_case)]

use vstd::prelude::*;
use crate::biome_info::biome_id;
use crate::biome_info::{
    height, height_of, in_biome_table, in_table, kind, kind_of, temperature, temperature_of,
};
use crate::mc_rng::{cell_seed, chosen2, chosen4, drawn, mix, mode_or_chosen, McRng};

verus! {

/// The values of a cell of the layer below and of its eight neighbours:
/// `vXZ` is the value at `(x - 1 + X, z - 1 + Z)`.
#[derive(Copy, Clone, Debug, PartialEq, Eq)]
pub struct Stencil {
    pub v00: i32,
    pub v10: i32,
    pub v20: i32,
    pub v01: i32,
    pub v11: i32,
    pub v21: i32,
    pub v02: i32,
    pub v12: i32,
    pub v22: i32,
}

/// The remainder of the division that rounds towards zero, for a divisor
/// above zero.
pub open spec fn rem_toward_zero(a: int, b: int) -> int {
    if a >= 0 {
        a % b
    } else {
        -((-a) % b)
    }
}



/// Whether the id is one of a biome of the table.
pub open spec fn exists_biome(id: i32) -> bool {
    0 <= id <= 0xFF && in_table(id as int)
}

/// The kind of the biome that the low 8 bits of the id name.
pub open spec fn kind_of_biome(id: i32) -> i32 {
    kind_of((id & 0xFF) as int)
}

/// Whether the id is one of the ten oceans.
pub open spec fn oceanic(id: i32) -> bool {
    id == 0 || id == 24 || id == 10 || 44 <= id <= 50
}

/// Whether the id is one of the five deep oceans.
pub open spec fn deep_ocean(id: i32) -> bool {
    id == 24 || 47 <= id <= 50
}

/// Whether the biome is jungle, forest, taiga or ocean.
pub open spec fn jfto(id: i32) -> bool {
    exists_biome(id) && (kind_of_biome(id) == 13 || id == 4 || id == 5 || oceanic(id))
}

/// Whether the biome is one where snow falls: its temperature is below a
/// tenth.
pub open spec fn snowy(id: i32) -> bool {
    exists_biome(id) && temperature_of((id & 0xFF) as int) < 10
}

/// Whether the biome that the low 8 bits of the id name is land: its height
/// is not below zero.
pub open spec fn land(id: i32) -> bool {
    height_of((id & 0xFF) as int) >= 0
}

/// Whether two biomes count as one at an edge: they are the same, or both
/// a mesa plateau, or of one kind, unless one is a variant and the second
/// is one of the variants that the game does not compare by kind.
pub open spec fn alike(id1: i32, id2: i32) -> bool {
    if id1 == id2 {
        true
    } else if id1 == 38 || id1 == 39 {
        id2 == 38 || id2 == 39
    } else if !exists_biome(id1) || !exists_biome(id2) {
        false
    } else if (id1 >= 128 || id2 >= 128) && (id2 == 130 || id2 == 133 || id2 == 134 || id2 == 149
        || id2 == 151 || id2 == 155 || id2 == 156 || id2 == 157 || id2 == 158 || id2 == 163 || id2
        == 164) {
        false
    } else {
        kind_of_biome(id1) == kind_of_biome(id2)
    }
}

/// The low 8 bits of an id are an index into the table.
pub proof fn lemma_low_byte(id: i32)
    ensures
        0 <= id & 0xFF < 256,
        0 <= id < 256 ==> id & 0xFF == id,
{
    assert(0 <= id & 0xFF < 256) by (bit_vector);
    assert(0 <= id < 256 ==> id & 0xFF == id) by (bit_vector);
}

pub fn get_biome_type(id: i32) -> (r: i32)
    ensures
        r == kind_of_biome(id),
{
    proof {
        lemma_low_byte(id);
    }
    kind(id & 0xFF)
}

pub fn biome_exists(id: i32) -> (r: bool)
    ensures
        r == exists_biome(id),
{
    if 0 <= id && id <= 0xFF {
        in_biome_table(id)
    } else {
        false
    }
}

pub fn is_oceanic(id: i32) -> (r: bool)
    ensures
        r == oceanic(id),
{
    id == biome_id::ocean || id == biome_id::deepOcean || id == biome_id::warmOcean || id
        == biome_id::warmDeepOcean || id == biome_id::lukewarmOcean || id
        == biome_id::lukewarmDeepOcean || id == biome_id::coldOcean || id
        == biome_id::coldDeepOcean || id == biome_id::frozenOcean || id
        == biome_id::frozenDeepOcean
}

pub fn is_deep_ocean(id: i32) -> (r: bool)
    ensures
        r == deep_ocean(id),
{
    id == biome_id::deepOcean || id == biome_id::warmDeepOcean || id
        == biome_id::lukewarmDeepOcean || id == biome_id::coldDeepOcean || id
        == biome_id::frozenDeepOcean
}

pub fn is_biome_JFTO(id: i32) -> (r: bool)
    ensures
        r == jfto(id),
{
    biome_exists(id) && (get_biome_type(id) == biome_id::Jungle || id == biome_id::forest || id
        == biome_id::taiga || is_oceanic(id))
}

pub fn is_biome_snowy(id: i32) -> (r: bool)
    ensures
        r == snowy(id),
{
    proof {
        lemma_low_byte(id);
    }
    biome_exists(id) && temperature(id & 0xFF) < 10
}

/// Whether the biome is land. Used to draw treasure maps.
pub fn is_land_biome(id: i32) -> (r: bool)
    ensures
        r == land(id),
{
    proof {
        lemma_low_byte(id);
    }
    height(id & 0xFF) >= 0
}

pub fn equal_or_plateau(id1: i32, id2: i32) -> (r: bool)
    ensures
        r == alike(id1, id2),
{
    if id1 == id2 {
        return true;
    }
    if id1 == biome_id::mesaPlateau_F || id1 == biome_id::mesaPlateau {
        return id2 == biome_id::mesaPlateau_F || id2 == biome_id::mesaPlateau;
    }
    if !biome_exists(id1) || !biome_exists(id2) {
        return false;
    }
    // The game compares some variants by identity only.
    if id1 >= 128 || id2 >= 128 {
        if id2 == 130 || id2 == 133 || id2 == 134 || id2 == 149 || id2 == 151 || id2 == 155 || id2
            == 156 || id2 == 157 || id2 == 158 || id2 == 163 || id2 == 164 {
            return false;
        }
    }
    get_biome_type(id1) == get_biome_type(id2)
}

/// Helper function to classify an input into 0, 1, 2 and 3.
pub open spec fn reduced(id: i32) -> i32 {
    if id >= 2 {
        (2 + (id & 1)) as i32
    } else {
        id
    }
}

/// Helper function to classify an input into 0, 1, 2 and 3. Used by the
/// river layer.
pub fn reduce_id(id: i32) -> (r: i32)
    ensures
        r == reduced(id),
{
    if id >= 2 {
        assert(0 <= id & 1 <= 1) by (bit_vector);
        2 + (id & 1)
    } else {
        id
    }
}

/// The classes of the values that the hills layer reads from the river
/// seeds: 2 and 3 for the two that make hills, 255 for the others, 0 for 0.
pub open spec fn pretty_hills(id: i32) -> i32 {
    if id == 0 {
        0
    } else {
        let m = rem_toward_zero(id.wrapping_sub(2) as int, 29);
        if m == 0 {
            2
        } else if m == 1 {
            3
        } else {
            255
        }
    }
}

pub fn pretty_biome_map_hills(id: i32) -> (r: i32)
    ensures
        r == pretty_hills(id),
{
    if id == 0 {
        0
    } else {
        let m = id.wrapping_sub(2) % 29;
        if m == 0 {
            2
        } else if m == 1 {
            3
        } else {
            255
        }
    }
}

// ---------------------------------------------------------------------
// Island

/// The island layer: land in one cell of ten, and at the origin.
pub open spec fn island_value(ws: i64, x: i64, z: i64) -> i32 {
    if x == 0 && z == 0 {
        1
    } else if drawn(cell_seed(ws, x, z), 10) == 0 {
        1
    } else {
        0
    }
}

pub fn island_cell(r: &mut McRng, x: i64, z: i64) -> (v: i32)
    ensures
        v == island_value(old(r).world(), x, z),
        final(r).world() == old(r).world(),
{
    r.set_chunk_seed(x, z);
    let land = r.next_int_n(10) == 0;
    if (x == 0 && z == 0) || land {
        1
    } else {
        0
    }
}

// ---------------------------------------------------------------------
// Zoom

/// How a zoom fills the fourth cell of a block.
#[derive(Copy, Clone, Debug, PartialEq, Eq, Structural)]
pub enum ZoomMode {
    /// One of the four values, by one draw.
    Fuzzy,
    /// The most frequent of the four values, or one of them by one draw.
    Normal,
    /// The sum of the four values.
    AllEdges,
    /// The first value, as in the other three cells.
    Skip,
}

/// The four values that a zoom puts into a block of two by two cells, from
/// the four values `a`, `a1`, `b`, `b1` at `(x, z)`, `(x + 1, z)`,
/// `(x, z + 1)`, `(x + 1, z + 1)` of the layer below: `.0` at the corner of
/// the block, `.1` below it along z, `.2` beside it along x, `.3` across.
pub open spec fn zoom_block_values(
    mode: ZoomMode,
    ws: i64,
    chunk_x: i64,
    chunk_z: i64,
    a: i32,
    a1: i32,
    b: i32,
    b1: i32,
) -> (i32, i32, i32, i32) {
    if mode == ZoomMode::Skip || (a == a1 && a == b && a == b1) {
        (a, a, a, a)
    } else {
        let c0 = cell_seed(ws, chunk_x, chunk_z);
        let c1 = mix(c0, ws);
        let c2 = mix(c1, ws);
        (
            a,
            chosen2(c0, a, b),
            chosen2(c1, a, a1),
            match mode {
                ZoomMode::Fuzzy => chosen4(c2, a, a1, b, b1),
                ZoomMode::Normal => mode_or_chosen(c2, a, a1, b, b1),
                _ => a.wrapping_add(a1).wrapping_add(b).wrapping_add(b1),
            },
        )
    }
}

pub fn zoom_block(
    mode: ZoomMode,
    r: &mut McRng,
    chunk_x: i64,
    chunk_z: i64,
    a: i32,
    a1: i32,
    b: i32,
    b1: i32,
) -> (v: (i32, i32, i32, i32))
    ensures
        v == zoom_block_values(mode, old(r).world(), chunk_x, chunk_z, a, a1, b, b1),
        final(r).world() == old(r).world(),
{
    match mode {
        ZoomMode::Skip => {
            return (a, a, a, a);
        },
        _ => {},
    }
    // Where the four values are one, every choice gives that value.
    if a == a1 && a == b && a == b1 {
        return (a, a, a, a);
    }
    r.set_chunk_seed(chunk_x, chunk_z);
    let a_or_b = r.choose2(a, b);
    let a_or_a1 = r.choose2(a, a1);
    let last = match mode {
        ZoomMode::Fuzzy => r.choose4(a, a1, b, b1),
        ZoomMode::Normal => r.select_mode_or_random(a, a1, b, b1),
        _ => a.wrapping_add(a1).wrapping_add(b).wrapping_add(b1),
    };
    (a, a_or_b, a_or_a1, last)
}

// ---------------------------------------------------------------------
// AddIsland

/// One step of choosing among the neighbours that are land: the state, the
/// number of candidates so far plus one, and the value chosen so far.
pub open spec fn pick_step(ws: i64, st: (i64, i32, i32), cand: i32) -> (i64, i32, i32) {
    if cand != 0 && 0 < st.1 < 0x7FFF_FFFF {
        (
            mix(st.0, ws),
            (st.1 + 1) as i32,
            if drawn(st.0, st.1) == 0 {
                cand
            } else {
                st.2
            },
        )
    } else {
        st
    }
}

pub open spec fn add_island_value(ws: i64, x: i64, z: i64, s: Stencil) -> i32 {
    if s.v11 == 0 && (s.v00 != 0 || s.v20 != 0 || s.v02 != 0 || s.v22 != 0) {
        let st0 = (cell_seed(ws, x, z), 1i32, 1i32);
        let st1 = pick_step(ws, st0, s.v00);
        let st2 = pick_step(ws, st1, s.v20);
        let st3 = pick_step(ws, st2, s.v02);
        let st4 = pick_step(ws, st3, s.v22);
        if drawn(st4.0, 3) == 0 {
            st4.2
        } else if st4.2 == 4 {
            4
        } else {
            0
        }
    } else if s.v11 > 0 && (s.v00 == 0 || s.v20 == 0 || s.v02 == 0 || s.v22 == 0) {
        if drawn(cell_seed(ws, x, z), 5) == 0 {
            if s.v11 == 4 {
                4
            } else {
                0
            }
        } else {
            s.v11
        }
    } else {
        s.v11
    }
}

pub fn add_island_cell(r: &mut McRng, x: i64, z: i64, s: &Stencil) -> (v: i32)
    ensures
        v == add_island_value(old(r).world(), x, z, *s),
        final(r).world() == old(r).world(),
{
    let v00 = s.v00;
    let v20 = s.v20;
    let v02 = s.v02;
    let v22 = s.v22;
    let v11 = s.v11;
    if v11 == 0 && (v00 != 0 || v20 != 0 || v02 != 0 || v22 != 0) {
        r.set_chunk_seed(x, z);
        let mut v: i32 = 1;
        let mut inc: i32 = 1;
        if v00 != 0 {
            // next_int_n(1) is always 0
            if r.next_int_n(inc) == 0 {
                v = v00;
            }
            inc += 1;
        }
        if v20 != 0 {
            if r.next_int_n(inc) == 0 {
                v = v20;
            }
            inc += 1;
        }
        if v02 != 0 {
            if r.next_int_n(inc) == 0 {
                v = v02;
            }
            inc += 1;
        }
        if v22 != 0 {
            if r.next_int_n(inc) == 0 {
                v = v22;
            }
            inc += 1;
        }
        if r.next_int_n(3) == 0 {
            v
        } else if v == 4 {
            4
        } else {
            0
        }
    } else if v11 > 0 && (v00 == 0 || v20 == 0 || v02 == 0 || v22 == 0) {
        r.set_chunk_seed(x, z);
        if r.next_int_n(5) == 0 {
            if v11 == 4 {
                4
            } else {
                0
            }
        } else {
            v11
        }
    } else {
        v11
    }
}

// ---------------------------------------------------------------------
// RemoveTooMuchOcean

pub open spec fn remove_too_much_ocean_value(ws: i64, x: i64, z: i64, s: Stencil) -> i32 {
    if s.v10 == 0 && s.v21 == 0 && s.v01 == 0 && s.v12 == 0 && s.v11 == 0 && drawn(
        cell_seed(ws, x, z),
        2,
    ) == 0 {
        1
    } else {
        s.v11
    }
}

pub fn remove_too_much_ocean_cell(r: &mut McRng, x: i64, z: i64, s: &Stencil) -> (v: i32)
    ensures
        v == remove_too_much_ocean_value(old(r).world(), x, z, *s),
        final(r).world() == old(r).world(),
{
    let mut v = s.v11;
    if s.v10 == 0 && s.v21 == 0 && s.v01 == 0 && s.v12 == 0 && s.v11 == 0 {
        r.set_chunk_seed(x, z);
        if r.next_int_n(2) == 0 {
            v = 1;
        }
    }
    v
}

// ---------------------------------------------------------------------
// AddSnow

pub open spec fn add_snow_value(ws: i64, x: i64, z: i64, s: Stencil) -> i32 {
    if s.v11 == 0 {
        0
    } else {
        let d = drawn(cell_seed(ws, x, z), 6);
        if d == 0 {
            4
        } else if d <= 1 {
            3
        } else {
            1
        }
    }
}

pub fn add_snow_cell(r: &mut McRng, x: i64, z: i64, s: &Stencil) -> (v: i32)
    ensures
        v == add_snow_value(old(r).world(), x, z, *s),
        final(r).world() == old(r).world(),
{
    if s.v11 == 0 {
        s.v11
    } else {
        r.set_chunk_seed(x, z);
        let d = r.next_int_n(6);
        if d == 0 {
            4
        } else if d <= 1 {
            3
        } else {
            1
        }
    }
}

// ---------------------------------------------------------------------
// CoolWarm and HeatIce

pub open spec fn cool_warm_value(s: Stencil) -> i32 {
    if s.v11 == 1 && (s.v10 == 3 || s.v10 == 4 || s.v21 == 3 || s.v21 == 4 || s.v01 == 3 || s.v01
        == 4 || s.v12 == 3 || s.v12 == 4) {
        2
    } else {
        s.v11
    }
}

pub fn cool_warm_cell(s: &Stencil) -> (v: i32)
    ensures
        v == cool_warm_value(*s),
{
    if s.v11 == 1 && (s.v10 == 3 || s.v10 == 4 || s.v21 == 3 || s.v21 == 4 || s.v01 == 3 || s.v01
        == 4 || s.v12 == 3 || s.v12 == 4) {
        2
    } else {
        s.v11
    }
}

pub open spec fn heat_ice_value(s: Stencil) -> i32 {
    if s.v11 == 4 && (s.v10 == 1 || s.v10 == 2 || s.v21 == 1 || s.v21 == 2 || s.v01 == 1 || s.v01
        == 2 || s.v12 == 1 || s.v12 == 2) {
        3
    } else {
        s.v11
    }
}

pub fn heat_ice_cell(s: &Stencil) -> (v: i32)
    ensures
        v == heat_ice_value(*s),
{
    if s.v11 == 4 && (s.v10 == 1 || s.v10 == 2 || s.v21 == 1 || s.v21 == 2 || s.v01 == 1 || s.v01
        == 2 || s.v12 == 1 || s.v12 == 2) {
        3
    } else {
        s.v11
    }
}

// ---------------------------------------------------------------------
// Special

/// The special layer: one land cell in thirteen gets a mark, from 1 to 15,
/// in bits 8 to 11.
pub open spec fn special_value(ws: i64, x: i64, z: i64, v: i32) -> i32 {
    let c0 = cell_seed(ws, x, z);
    if v != 0 && drawn(c0, 13) == 0 {
        v | (((1 + drawn(mix(c0, ws), 15)) as i32) << 8 & 0xf00)
    } else {
        v
    }
}

pub fn special_cell(r: &mut McRng, x: i64, z: i64, v: i32) -> (out: i32)
    ensures
        out == special_value(old(r).world(), x, z, v),
        final(r).world() == old(r).world(),
{
    let mut v = v;
    if v != 0 {
        r.set_chunk_seed(x, z);
        if r.next_int_n(13) == 0 {
            v |= (1 + r.next_int_n(15)) << 8 & 0xf00;
        }
    }
    v
}

// ---------------------------------------------------------------------
// AddMushroomIsland

pub open spec fn add_mushroom_island_value(ws: i64, x: i64, z: i64, s: Stencil) -> i32 {
    if s.v11 == 0 && s.v00 == 0 && s.v20 == 0 && s.v02 == 0 && s.v22 == 0 && drawn(
        cell_seed(ws, x, z),
        100,
    ) == 0 {
        14
    } else {
        s.v11
    }
}

pub fn add_mushroom_island_cell(r: &mut McRng, x: i64, z: i64, s: &Stencil) -> (v: i32)
    ensures
        v == add_mushroom_island_value(old(r).world(), x, z, *s),
        final(r).world() == old(r).world(),
{
    let mut v11 = s.v11;
    if v11 == 0 && s.v00 == 0 && s.v20 == 0 && s.v02 == 0 && s.v22 == 0 {
        r.set_chunk_seed(x, z);
        if r.next_int_n(100) == 0 {
            v11 = biome_id::mushroomIsland;
        }
    }
    v11
}

// ---------------------------------------------------------------------
// DeepOcean

pub open spec fn deep_ocean_value(s: Stencil) -> i32 {
    if s.v11 == 0 && s.v10 == 0 && s.v21 == 0 && s.v01 == 0 && s.v12 == 0 {
        24
    } else {
        s.v11
    }
}

pub fn deep_ocean_cell(s: &Stencil) -> (v: i32)
    ensures
        v == deep_ocean_value(*s),
{
    if s.v11 == 0 && s.v10 == 0 && s.v21 == 0 && s.v01 == 0 && s.v12 == 0 {
        biome_id::deepOcean
    } else {
        s.v11
    }
}

// ---------------------------------------------------------------------
// Biome

/// The biome layer: a biome for every climate, by one draw. The mark of
/// the special layer turns the draw towards mesa, jungle and giant taiga.
pub open spec fn biome_value(ws: i64, x: i64, z: i64, v: i32) -> i32 {
    let has_high_bit = ((v & 0xf00) >> 8) != 0;
    let id = v & !0xf00;
    let c0 = cell_seed(ws, x, z);
    if kind_of_biome(id) == 0 || id == 14 {
        id
    } else if id == 1 {
        if has_high_bit {
            if drawn(c0, 3) == 0 {
                39
            } else {
                38
            }
        } else {
            let d = drawn(c0, 6);
            if d <= 2 {
                2
            } else if d <= 4 {
                35
            } else {
                1
            }
        }
    } else if id == 2 {
        if has_high_bit {
            21
        } else {
            let d = drawn(c0, 6);
            if d == 0 {
                4
            } else if d == 1 {
                29
            } else if d == 2 {
                3
            } else if d == 3 {
                1
            } else if d == 4 {
                27
            } else {
                6
            }
        }
    } else if id == 3 {
        if has_high_bit {
            32
        } else {
            let d = drawn(c0, 4);
            if d == 0 {
                4
            } else if d == 1 {
                3
            } else if d == 2 {
                5
            } else {
                1
            }
        }
    } else if id == 4 {
        if drawn(c0, 4) <= 2 {
            12
        } else {
            30
        }
    } else {
        14
    }
}

pub fn biome_cell(r: &mut McRng, x: i64, z: i64, v: i32) -> (out: i32)
    ensures
        out == biome_value(old(r).world(), x, z, v),
        final(r).world() == old(r).world(),
{
    let mut id = v;
    let has_high_bit = ((id & 0xf00) >> 8) != 0;
    id &= !0xf00;
    if get_biome_type(id) == biome_id::Ocean || id == biome_id::mushroomIsland {
        return id;
    }
    r.set_chunk_seed(x, z);
    if id == biome_id::Warm {
        if has_high_bit {
            if r.next_int_n(3) == 0 {
                biome_id::mesaPlateau
            } else {
                biome_id::mesaPlateau_F
            }
        } else {
            let d = r.next_int_n(6);
            if d <= 2 {
                biome_id::desert
            } else if d <= 4 {
                biome_id::savanna
            } else {
                biome_id::plains
            }
        }
    } else if id == biome_id::Lush {
        if has_high_bit {
            biome_id::jungle
        } else {
            let d = r.next_int_n(6);
            if d == 0 {
                biome_id::forest
            } else if d == 1 {
                biome_id::roofedForest
            } else if d == 2 {
                biome_id::extremeHills
            } else if d == 3 {
                biome_id::plains
            } else if d == 4 {
                biome_id::birchForest
            } else {
                biome_id::swampland
            }
        }
    } else if id == biome_id::Cold {
        if has_high_bit {
            biome_id::megaTaiga
        } else {
            let d = r.next_int_n(4);
            if d == 0 {
                biome_id::forest
            } else if d == 1 {
                biome_id::extremeHills
            } else if d == 2 {
                biome_id::taiga
            } else {
                biome_id::plains
            }
        }
    } else if id == biome_id::Freezing {
        if r.next_int_n(4) <= 2 {
            biome_id::icePlains
        } else {
            biome_id::coldTaiga
        }
    } else {
        biome_id::mushroomIsland
    }
}

// ---------------------------------------------------------------------
// AddBamboo

pub open spec fn add_bamboo_value(ws: i64, x: i64, z: i64, v: i32) -> i32 {
    if v == 21 && drawn(cell_seed(ws, x, z), 10) == 0 {
        168
    } else {
        v
    }
}

pub fn add_bamboo_cell(r: &mut McRng, x: i64, z: i64, v: i32) -> (out: i32)
    ensures
        out == add_bamboo_value(old(r).world(), x, z, v),
        final(r).world() == old(r).world(),
{
    if v == biome_id::jungle {
        r.set_chunk_seed(x, z);
        if r.next_int_n(10) == 0 {
            return biome_id::bambooJungle;
        }
    }
    v
}

// ---------------------------------------------------------------------
// RiverInit

pub open spec fn river_init_value(ws: i64, x: i64, z: i64, v: i32) -> i32 {
    if v > 0 {
        (drawn(cell_seed(ws, x, z), 299999) + 2) as i32
    } else {
        0
    }
}

pub fn river_init_cell(r: &mut McRng, x: i64, z: i64, v: i32) -> (out: i32)
    ensures
        out == river_init_value(old(r).world(), x, z, v),
        final(r).world() == old(r).world(),
{
    if v > 0 {
        r.set_chunk_seed(x, z);
        r.next_int_n(299999) + 2
    } else {
        0
    }
}

// ---------------------------------------------------------------------
// BiomeEdge

/// Whether the four neighbours beside a cell are all like `base_id`.
pub open spec fn all_alike(s: Stencil, base_id: i32) -> bool {
    alike(s.v10, base_id) && alike(s.v21, base_id) && alike(s.v01, base_id) && alike(
        s.v12,
        base_id,
    )
}

/// Where `id` is `base_id`, `out` becomes `id` if the four neighbours are
/// all like it and `edge_id` if not, and the result is true; elsewhere
/// `out` stays and the result is false.
pub fn replace_edge(
    out: &mut i32,
    v10: i32,
    v21: i32,
    v01: i32,
    v12: i32,
    id: i32,
    base_id: i32,
    edge_id: i32,
) -> (r: bool)
    ensures
        r == (id == base_id),
        !r ==> *final(out) == *old(out),
        r ==> *final(out) == if alike(v10, base_id) && alike(v21, base_id) && alike(v01, base_id)
            && alike(v12, base_id) {
            id
        } else {
            edge_id
        },
{
    if id != base_id {
        return false;
    }
    if equal_or_plateau(v10, base_id) && equal_or_plateau(v21, base_id) && equal_or_plateau(
        v01,
        base_id,
    ) && equal_or_plateau(v12, base_id) {
        *out = id;
    } else {
        *out = edge_id;
    }
    true
}

/// Whether one of the four neighbours beside a cell is `id`.
pub open spec fn beside(s: Stencil, id: i32) -> bool {
    s.v10 == id || s.v21 == id || s.v01 == id || s.v12 == id
}

pub open spec fn biome_edge_value(s: Stencil) -> i32 {
    let v11 = s.v11;
    if v11 == 38 || v11 == 39 {
        if all_alike(s, v11) {
            v11
        } else {
            37
        }
    } else if v11 == 32 {
        if all_alike(s, 32) {
            v11
        } else {
            5
        }
    } else if v11 == 2 {
        if !beside(s, 12) {
            v11
        } else {
            34
        }
    } else if v11 == 6 {
        if !beside(s, 2) && !beside(s, 30) && !beside(s, 12) {
            if !beside(s, 21) && !beside(s, 168) {
                v11
            } else {
                23
            }
        } else {
            1
        }
    } else {
        v11
    }
}

pub fn biome_edge_cell(s: &Stencil) -> (v: i32)
    ensures
        v == biome_edge_value(*s),
{
    let v10 = s.v10;
    let v21 = s.v21;
    let v01 = s.v01;
    let v12 = s.v12;
    let v11 = s.v11;
    let mut out: i32 = 0;
    if !replace_edge(
        &mut out,
        v10,
        v21,
        v01,
        v12,
        v11,
        biome_id::mesaPlateau_F,
        biome_id::mesa,
    ) && !replace_edge(&mut out, v10, v21, v01, v12, v11, biome_id::mesaPlateau, biome_id::mesa)
        && !replace_edge(&mut out, v10, v21, v01, v12, v11, biome_id::megaTaiga, biome_id::taiga) {
        out = if v11 == biome_id::desert {
            if v10 != biome_id::icePlains && v21 != biome_id::icePlains && v01
                != biome_id::icePlains && v12 != biome_id::icePlains {
                v11
            } else {
                biome_id::extremeHillsPlus
            }
        } else if v11 == biome_id::swampland {
            if v10 != biome_id::desert && v21 != biome_id::desert && v01 != biome_id::desert && v12
                != biome_id::desert && v10 != biome_id::coldTaiga && v21 != biome_id::coldTaiga
                && v01 != biome_id::coldTaiga && v12 != biome_id::coldTaiga && v10
                != biome_id::icePlains && v21 != biome_id::icePlains && v01 != biome_id::icePlains
                && v12 != biome_id::icePlains {
                if v10 != biome_id::jungle && v12 != biome_id::jungle && v21 != biome_id::jungle
                    && v01 != biome_id::jungle && v10 != biome_id::bambooJungle && v12
                    != biome_id::bambooJungle && v21 != biome_id::bambooJungle && v01
                    != biome_id::bambooJungle {
                    v11
                } else {
                    biome_id::jungleEdge
                }
            } else {
                biome_id::plains
            }
        } else {
            v11
        };
    }
    out
}

// ---------------------------------------------------------------------
// Hills

/// The hills variant of a biome, before its neighbours are looked at: the
/// state of the generator after the first draw decides where two draws are
/// needed.
pub open spec fn hill_id_of(ws: i64, c1: i64, a11: i32) -> i32 {
    if a11 == 2 {
        17
    } else if a11 == 4 {
        18
    } else if a11 == 27 {
        28
    } else if a11 == 29 {
        1
    } else if a11 == 5 {
        19
    } else if a11 == 32 {
        33
    } else if a11 == 30 {
        31
    } else if a11 == 1 {
        if drawn(c1, 3) == 0 {
            18
        } else {
            4
        }
    } else if a11 == 12 {
        13
    } else if a11 == 21 {
        22
    } else if a11 == 168 {
        169
    } else if a11 == 0 {
        24
    } else if a11 == 3 {
        34
    } else if a11 == 35 {
        36
    } else if alike(a11, 38) {
        37
    } else if deep_ocean(a11) && drawn(c1, 3) == 0 {
        if drawn(mix(c1, ws), 2) == 0 {
            1
        } else {
            4
        }
    } else {
        a11
    }
}

/// The hills layer, from the biome `s.v11` with its four neighbours and the
/// river seed `b11` of the cell.
pub open spec fn hills_value(ws: i64, x: i64, z: i64, s: Stencil, b11: i32) -> i32 {
    let a11 = s.v11;
    let c0 = cell_seed(ws, x, z);
    let m = rem_toward_zero(b11.wrapping_sub(2) as int, 29);
    let var12 = m == 0;
    if a11 != 0 && b11 >= 2 && m == 1 && a11 < 128 {
        if exists_biome((a11 + 128) as i32) {
            (a11 + 128) as i32
        } else {
            a11
        }
    } else if drawn(c0, 3) != 0 && !var12 {
        a11
    } else {
        let first = hill_id_of(ws, mix(c0, ws), a11);
        let hill_id = if var12 && first != a11 {
            if exists_biome(first.wrapping_add(128)) {
                first.wrapping_add(128)
            } else {
                a11
            }
        } else {
            first
        };
        if hill_id == a11 {
            a11
        } else {
            let equals = (if alike(s.v10, a11) {
                1int
            } else {
                0int
            }) + (if alike(s.v21, a11) {
                1int
            } else {
                0int
            }) + (if alike(s.v01, a11) {
                1int
            } else {
                0int
            }) + (if alike(s.v12, a11) {
                1int
            } else {
                0int
            });
            if equals >= 3 {
                hill_id
            } else {
                a11
            }
        }
    }
}

pub fn hills_cell(r: &mut McRng, x: i64, z: i64, s: &Stencil, b11: i32) -> (v: i32)
    ensures
        v == hills_value(old(r).world(), x, z, *s, b11),
        final(r).world() == old(r).world(),
{
    r.set_chunk_seed(x, z);
    let a11 = s.v11;
    let m = b11.wrapping_sub(2) % 29;
    let var12 = m == 0;
    if a11 != 0 && b11 >= 2 && m == 1 && a11 < 128 {
        if biome_exists(a11 + 128) {
            a11 + 128
        } else {
            a11
        }
    } else if r.next_int_n(3) != 0 && !var12 {
        a11
    } else {
        let mut hill_id = if a11 == biome_id::desert {
            biome_id::desertHills
        } else if a11 == biome_id::forest {
            biome_id::forestHills
        } else if a11 == biome_id::birchForest {
            biome_id::birchForestHills
        } else if a11 == biome_id::roofedForest {
            biome_id::plains
        } else if a11 == biome_id::taiga {
            biome_id::taigaHills
        } else if a11 == biome_id::megaTaiga {
            biome_id::megaTaigaHills
        } else if a11 == biome_id::coldTaiga {
            biome_id::coldTaigaHills
        } else if a11 == biome_id::plains {
            if r.next_int_n(3) == 0 {
                biome_id::forestHills
            } else {
                biome_id::forest
            }
        } else if a11 == biome_id::icePlains {
            biome_id::iceMountains
        } else if a11 == biome_id::jungle {
            biome_id::jungleHills
        } else if a11 == biome_id::bambooJungle {
            biome_id::bambooJungleHills
        } else if a11 == biome_id::ocean {
            biome_id::deepOcean
        } else if a11 == biome_id::extremeHills {
            biome_id::extremeHillsPlus
        } else if a11 == biome_id::savanna {
            biome_id::savannaPlateau
        } else if equal_or_plateau(a11, biome_id::mesaPlateau_F) {
            biome_id::mesa
        } else if is_deep_ocean(a11) && r.next_int_n(3) == 0 {
            if r.next_int_n(2) == 0 {
                biome_id::plains
            } else {
                biome_id::forest
            }
        } else {
            a11
        };
        if var12 && hill_id != a11 {
            hill_id = if biome_exists(hill_id.wrapping_add(128)) {
                hill_id.wrapping_add(128)
            } else {
                a11
            };
        }
        if hill_id == a11 {
            a11
        } else {
            let mut equals: i32 = 0;
            if equal_or_plateau(s.v10, a11) {
                equals += 1;
            }
            if equal_or_plateau(s.v21, a11) {
                equals += 1;
            }
            if equal_or_plateau(s.v01, a11) {
                equals += 1;
            }
            if equal_or_plateau(s.v12, a11) {
                equals += 1;
            }
            if equals >= 3 {
                hill_id
            } else {
                a11
            }
        }
    }
}

// ---------------------------------------------------------------------
// RareBiome

pub open spec fn rare_biome_value(ws: i64, x: i64, z: i64, s: Stencil) -> i32 {
    if drawn(cell_seed(ws, x, z), 57) == 0 && s.v11 == 1 {
        129
    } else {
        s.v11
    }
}

pub fn rare_biome_cell(r: &mut McRng, x: i64, z: i64, s: &Stencil) -> (v: i32)
    ensures
        v == rare_biome_value(old(r).world(), x, z, *s),
        final(r).world() == old(r).world(),
{
    r.set_chunk_seed(x, z);
    if r.next_int_n(57) == 0 && s.v11 == biome_id::plains {
        // Sunflower plains
        biome_id::plains + 128
    } else {
        s.v11
    }
}

// ---------------------------------------------------------------------
// Shore

/// Whether none of the four neighbours beside a cell is an ocean.
pub open spec fn no_ocean_beside(s: Stencil) -> bool {
    !oceanic(s.v10) && !oceanic(s.v21) && !oceanic(s.v01) && !oceanic(s.v12)
}

/// The value of a cell that is no ocean: itself away from the oceans,
/// `replace_id` beside one.
pub open spec fn replaced_at_ocean(s: Stencil, replace_id: i32) -> i32 {
    if oceanic(s.v11) {
        s.v11
    } else if no_ocean_beside(s) {
        s.v11
    } else {
        replace_id
    }
}

pub open spec fn shore_value(s: Stencil) -> i32 {
    let v11 = s.v11;
    let biome = if exists_biome(v11) {
        v11
    } else {
        0
    };
    if v11 == 14 {
        if s.v10 != 0 && s.v21 != 0 && s.v01 != 0 && s.v12 != 0 {
            v11
        } else {
            15
        }
    } else if kind_of_biome(biome) == 13 {
        if jfto(s.v10) && jfto(s.v21) && jfto(s.v01) && jfto(s.v12) {
            if no_ocean_beside(s) {
                v11
            } else {
                16
            }
        } else {
            23
        }
    } else if v11 != 3 && v11 != 34 && v11 != 20 {
        if snowy(biome) {
            replaced_at_ocean(s, 26)
        } else if v11 != 37 && v11 != 38 {
            if v11 != 0 && v11 != 24 && v11 != 7 && v11 != 6 {
                if no_ocean_beside(s) {
                    v11
                } else {
                    16
                }
            } else {
                v11
            }
        } else {
            if no_ocean_beside(s) {
                if kind_of_biome(s.v10) == 16 && kind_of_biome(s.v21) == 16 && kind_of_biome(s.v01)
                    == 16 && kind_of_biome(s.v12) == 16 {
                    v11
                } else {
                    2
                }
            } else {
                v11
            }
        }
    } else {
        replaced_at_ocean(s, 25)
    }
}

fn replace_ocean(out: &mut i32, v10: i32, v21: i32, v01: i32, v12: i32, id: i32, replace_id: i32) -> (r:
    bool)
    ensures
        r == !oceanic(id),
        !r ==> *final(out) == *old(out),
        r ==> *final(out) == if !oceanic(v10) && !oceanic(v21) && !oceanic(v01) && !oceanic(v12) {
            id
        } else {
            replace_id
        },
{
    if is_oceanic(id) {
        return false;
    }
    if !is_oceanic(v10) && !is_oceanic(v21) && !is_oceanic(v01) && !is_oceanic(v12) {
        *out = id;
    } else {
        *out = replace_id;
    }
    true
}

pub fn shore_cell(s: &Stencil) -> (v: i32)
    ensures
        v == shore_value(*s),
{
    let v11 = s.v11;
    let v10 = s.v10;
    let v21 = s.v21;
    let v01 = s.v01;
    let v12 = s.v12;
    let biome = if biome_exists(v11) {
        v11
    } else {
        0
    };
    if v11 == biome_id::mushroomIsland {
        if v10 != biome_id::ocean && v21 != biome_id::ocean && v01 != biome_id::ocean && v12
            != biome_id::ocean {
            v11
        } else {
            biome_id::mushroomIslandShore
        }
    } else if get_biome_type(biome) == biome_id::Jungle {
        if is_biome_JFTO(v10) && is_biome_JFTO(v21) && is_biome_JFTO(v01) && is_biome_JFTO(v12) {
            if !is_oceanic(v10) && !is_oceanic(v21) && !is_oceanic(v01) && !is_oceanic(v12) {
                v11
            } else {
                biome_id::beach
            }
        } else {
            biome_id::jungleEdge
        }
    } else if v11 != biome_id::extremeHills && v11 != biome_id::extremeHillsPlus && v11
        != biome_id::extremeHillsEdge {
        if is_biome_snowy(biome) {
            let mut x = v11;
            replace_ocean(&mut x, v10, v21, v01, v12, v11, biome_id::coldBeach);
            x
        } else if v11 != biome_id::mesa && v11 != biome_id::mesaPlateau_F {
            if v11 != biome_id::ocean && v11 != biome_id::deepOcean && v11 != biome_id::river && v11
                != biome_id::swampland {
                if !is_oceanic(v10) && !is_oceanic(v21) && !is_oceanic(v01) && !is_oceanic(v12) {
                    v11
                } else {
                    biome_id::beach
                }
            } else {
                v11
            }
        } else {
            if !is_oceanic(v10) && !is_oceanic(v21) && !is_oceanic(v01) && !is_oceanic(v12) {
                if get_biome_type(v10) == biome_id::Mesa && get_biome_type(v21) == biome_id::Mesa
                    && get_biome_type(v01) == biome_id::Mesa && get_biome_type(v12)
                    == biome_id::Mesa {
                    v11
                } else {
                    biome_id::desert
                }
            } else {
                v11
            }
        }
    } else {
        let mut x = v11;
        replace_ocean(&mut x, v10, v21, v01, v12, v11, biome_id::stoneBeach);
        x
    }
}

// ---------------------------------------------------------------------
// Smooth

/// The smooth layer: where the two neighbours along one axis agree, the
/// cell takes their value; where both pairs agree, one of the two by one
/// draw.
pub open spec fn smooth_value(ws: i64, x: i64, z: i64, s: Stencil) -> i32 {
    if s.v01 == s.v21 && s.v10 == s.v12 {
        if drawn(cell_seed(ws, x, z), 2) == 0 {
            s.v01
        } else {
            s.v10
        }
    } else if s.v10 == s.v12 {
        s.v10
    } else if s.v01 == s.v21 {
        s.v01
    } else {
        s.v11
    }
}

pub fn smooth_cell(r: &mut McRng, x: i64, z: i64, s: &Stencil) -> (v: i32)
    ensures
        v == smooth_value(old(r).world(), x, z, *s),
        final(r).world() == old(r).world(),
{
    let mut v11 = s.v11;
    if s.v01 == s.v21 && s.v10 == s.v12 {
        r.set_chunk_seed(x, z);
        if r.next_int_n(2) == 0 {
            v11 = s.v01;
        } else {
            v11 = s.v10;
        }
    } else {
        if s.v01 == s.v21 {
            v11 = s.v01;
        }
        if s.v10 == s.v12 {
            v11 = s.v10;
        }
    }
    v11
}

// ---------------------------------------------------------------------
// River

/// Whether the cell and the four neighbours beside it are all equal.
pub open spec fn flat(s: Stencil) -> bool {
    s.v11 == s.v01 && s.v11 == s.v10 && s.v11 == s.v21 && s.v11 == s.v12
}

/// The edge detector: a river wherever a cell differs from a neighbour
/// beside it, -1 elsewhere.
pub open spec fn river_all_value(s: Stencil) -> i32 {
    if flat(s) {
        -1i32
    } else {
        7
    }
}

/// The river layer: the edge detector on the classes of the values.
pub open spec fn river_value(s: Stencil) -> i32 {
    if reduced(s.v11) == reduced(s.v01) && reduced(s.v11) == reduced(s.v10) && reduced(s.v11)
        == reduced(s.v21) && reduced(s.v11) == reduced(s.v12) {
        -1i32
    } else {
        7
    }
}

pub fn river_all_cell(s: &Stencil) -> (v: i32)
    ensures
        v == river_all_value(*s),
{
    if s.v11 == s.v01 && s.v11 == s.v10 && s.v11 == s.v21 && s.v11 == s.v12 {
        -1
    } else {
        biome_id::river
    }
}

pub fn river_cell(s: &Stencil) -> (v: i32)
    ensures
        v == river_value(*s),
{
    let v11 = reduce_id(s.v11);
    let v10 = reduce_id(s.v10);
    let v21 = reduce_id(s.v21);
    let v01 = reduce_id(s.v01);
    let v12 = reduce_id(s.v12);
    if v11 == v01 && v11 == v10 && v11 == v21 && v11 == v12 {
        -1
    } else {
        biome_id::river
    }
}

// ---------------------------------------------------------------------
// RiverMix

/// The river mix: the rivers of the second map laid over the biomes of the
/// first, except over oceans.
pub open spec fn river_mix_value(buf: i32, out: i32) -> i32 {
    if oceanic(buf) {
        buf
    } else if out == 7 {
        if buf == 12 {
            11
        } else if buf == 14 || buf == 15 {
            15
        } else {
            out & 0xFF
        }
    } else {
        buf
    }
}

pub fn river_mix_cell(buf: i32, out: i32) -> (v: i32)
    ensures
        v == river_mix_value(buf, out),
{
    if is_oceanic(buf) {
        buf
    } else {
        if out == biome_id::river {
            if buf == biome_id::icePlains {
                biome_id::frozenRiver
            } else if buf == biome_id::mushroomIsland || buf == biome_id::mushroomIslandShore {
                biome_id::mushroomIslandShore
            } else {
                out & 0xFF
            }
        } else {
            buf
        }
    }
}

// ---------------------------------------------------------------------
// OceanMix

/// The ocean mix, once the land around the cell has been looked at:
/// `land_id` is the biome of the cell, `ocean_id` the temperature of its
/// ocean, `land_near` whether one of the 25 cells looked at is no ocean.
pub open spec fn ocean_mix_value(land_id: i32, ocean_id: i32, land_near: bool) -> i32 {
    if !oceanic(land_id) {
        land_id
    } else if ocean_id == 44 && land_near {
        45
    } else if ocean_id == 10 && land_near {
        46
    } else if land_id == 24 {
        if ocean_id == 45 {
            48
        } else if ocean_id == 0 {
            24
        } else if ocean_id == 46 {
            49
        } else if ocean_id == 10 {
            50
        } else {
            ocean_id
        }
    } else {
        ocean_id
    }
}

} // verus!
