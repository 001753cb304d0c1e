//! The table of biomes: what kind each id is, its climate, its temperature
//! and its height, and the colour it is drawn in.

use vstd::prelude::*;

pub mod biome_id;

verus! {

/// The id that stands for a biome that is not known.
pub const UNKNOWN_BIOME_ID: i32 = 255;

/// One row of the table of biomes. Temperatures are in hundredths, heights
/// in thousandths. A row whose `id` is -1 stands for no biome.
#[allow(non_snake_case)]
#[derive(Copy, Clone, Debug, PartialEq, Eq)]
pub struct Biome {
    pub id: i32,
    pub type_0: i32,
    pub height: i32,
    pub temp: i32,
    pub tempCat: i32,
}

/// Whether the table has a row for the id.
pub open spec fn in_table(id: int) -> bool {
    0 <= id <= 50
    || 129 <= id <= 134
    || id == 140
    || id == 149
    || id == 151
    || 155 <= id <= 158
    || 160 <= id <= 169
}

/// The kind of the biome with the id; 0 where the table has no row.
pub open spec fn kind_of(id: int) -> i32 {
    if id == 1 || id == 129 {
        1
    } else if id == 2 || id == 17 || id == 130 {
        2
    } else if id == 3 || id == 20 || id == 34 || id == 131 || id == 162 {
        3
    } else if id == 4 || id == 18 || id == 27 || id == 28 || id == 29 || id == 132 || id == 155 || id == 156 || id == 157 {
        4
    } else if id == 5 || id == 19 || id == 30 || id == 31 || id == 32 || id == 33 || id == 133 || id == 158 || id == 160 || id == 161 {
        5
    } else if id == 6 || id == 134 {
        6
    } else if id == 7 || id == 11 {
        7
    } else if id == 8 {
        8
    } else if id == 9 || id == 40 || id == 41 || id == 42 || id == 43 {
        9
    } else if id == 12 || id == 13 || id == 140 {
        10
    } else if id == 14 || id == 15 {
        11
    } else if id == 16 || id == 26 {
        12
    } else if id == 21 || id == 22 || id == 23 || id == 149 || id == 151 || id == 168 || id == 169 {
        13
    } else if id == 25 {
        14
    } else if id == 35 || id == 36 || id == 163 || id == 164 {
        15
    } else if id == 37 || id == 38 || id == 39 || id == 165 || id == 166 || id == 167 {
        16
    } else {
        0
    }
}

/// The climate of the biome with the id; 0 where the table has no row.
pub open spec fn climate_of(id: int) -> i32 {
    if id == 1 || id == 3 || id == 4 || id == 5 || id == 6 || id == 7 || id == 9 || id == 14 || id == 15 || id == 16 || id == 18 || id == 19 || id == 20 || id == 21 || id == 22 || id == 23 || id == 25 || id == 27 || id == 28 || id == 29 || id == 32 || id == 33 || id == 34 || id == 40 || id == 41 || id == 42 || id == 43 || id == 129 || id == 131 || id == 132 || id == 133 || id == 134 || id == 149 || id == 151 || id == 155 || id == 156 || id == 157 || id == 160 || id == 161 || id == 162 || id == 168 || id == 169 {
        2
    } else if id == 2 || id == 8 || id == 17 || id == 35 || id == 36 || id == 37 || id == 38 || id == 39 || id == 130 || id == 163 || id == 164 || id == 165 || id == 166 || id == 167 {
        1
    } else if id == 11 || id == 12 || id == 13 || id == 26 || id == 30 || id == 31 || id == 140 || id == 158 {
        3
    } else {
        0
    }
}

/// The temperature, in hundredths, of the biome with the id; 0 where the table has no row.
pub open spec fn temperature_of(id: int) -> i32 {
    if id == 0 || id == 7 || id == 9 || id == 24 || id == 40 || id == 41 || id == 42 || id == 43 || id == 44 || id == 45 || id == 46 || id == 47 || id == 48 || id == 49 || id == 50 {
        50i32
    } else if id == 1 || id == 6 || id == 16 || id == 129 || id == 134 {
        80i32
    } else if id == 2 || id == 8 || id == 17 || id == 37 || id == 38 || id == 39 || id == 130 || id == 165 || id == 166 || id == 167 {
        200i32
    } else if id == 3 || id == 20 || id == 25 || id == 34 || id == 131 || id == 162 {
        20i32
    } else if id == 4 || id == 18 || id == 29 || id == 132 || id == 157 {
        70i32
    } else if id == 5 || id == 19 || id == 133 {
        25i32
    } else if id == 14 || id == 15 {
        90i32
    } else if id == 21 || id == 22 || id == 23 || id == 149 || id == 151 || id == 168 || id == 169 {
        95i32
    } else if id == 26 {
        5i32
    } else if id == 27 || id == 28 || id == 155 || id == 156 {
        60i32
    } else if id == 30 || id == 31 || id == 158 {
        (-50i32)
    } else if id == 32 || id == 33 || id == 160 || id == 161 {
        30i32
    } else if id == 35 || id == 163 {
        120i32
    } else if id == 36 || id == 164 {
        100i32
    } else {
        0i32
    }
}

/// The height, in thousandths, of the biome with the id; 0 where the table has no row.
pub open spec fn height_of(id: int) -> i32 {
    if id == 0 || id == 10 || id == 44 || id == 45 || id == 46 {
        (-1000i32)
    } else if id == 1 || id == 4 || id == 8 || id == 9 || id == 21 || id == 23 || id == 25 || id == 27 || id == 29 || id == 37 || id == 40 || id == 41 || id == 42 || id == 43 || id == 168 {
        100i32
    } else if id == 2 || id == 12 || id == 35 {
        125i32
    } else if id == 3 || id == 20 || id == 34 {
        1000i32
    } else if id == 5 || id == 14 || id == 30 || id == 32 || id == 129 || id == 132 || id == 149 || id == 151 || id == 155 || id == 157 || id == 165 {
        200i32
    } else if id == 6 {
        (-200i32)
    } else if id == 7 || id == 11 {
        (-500i32)
    } else if id == 13 || id == 17 || id == 18 || id == 19 || id == 22 || id == 28 || id == 31 || id == 33 || id == 169 {
        450i32
    } else if id == 24 || id == 47 || id == 48 || id == 49 || id == 50 {
        (-1800i32)
    } else if id == 36 || id == 38 || id == 39 {
        1500i32
    } else if id == 130 || id == 140 || id == 163 {
        225i32
    } else if id == 131 || id == 162 {
        1100i32
    } else if id == 133 || id == 158 || id == 160 {
        300i32
    } else if id == 134 {
        (-100i32)
    } else if id == 156 || id == 161 {
        550i32
    } else if id == 164 || id == 166 || id == 167 {
        1600i32
    } else {
        0i32
    }
}

/// The colour, as red, green and blue, that the biome with the id is drawn
/// in, before a variant is made brighter; black where there is none.
pub open spec fn colour_of(id: int) -> (u8, u8, u8) {
    if id == 0 || id == 128 {
        (0u8, 0u8, 112u8)
    } else if id == 1 || id == 129 {
        (141u8, 179u8, 96u8)
    } else if id == 2 || id == 130 {
        (250u8, 148u8, 24u8)
    } else if id == 3 || id == 131 {
        (96u8, 96u8, 96u8)
    } else if id == 4 || id == 132 {
        (5u8, 102u8, 33u8)
    } else if id == 5 || id == 133 {
        (11u8, 102u8, 89u8)
    } else if id == 6 || id == 134 {
        (7u8, 249u8, 178u8)
    } else if id == 7 || id == 135 {
        (0u8, 0u8, 255u8)
    } else if id == 8 || id == 136 {
        (255u8, 0u8, 0u8)
    } else if id == 9 || id == 40 || id == 41 || id == 42 || id == 43 || id == 137 {
        (128u8, 128u8, 255u8)
    } else if id == 10 || id == 138 {
        (112u8, 112u8, 214u8)
    } else if id == 11 || id == 139 {
        (160u8, 160u8, 255u8)
    } else if id == 12 || id == 140 {
        (255u8, 255u8, 255u8)
    } else if id == 13 || id == 141 {
        (160u8, 160u8, 160u8)
    } else if id == 14 || id == 142 {
        (255u8, 0u8, 255u8)
    } else if id == 15 || id == 143 {
        (160u8, 0u8, 255u8)
    } else if id == 16 || id == 144 {
        (250u8, 222u8, 85u8)
    } else if id == 17 || id == 145 {
        (210u8, 95u8, 18u8)
    } else if id == 18 || id == 146 {
        (34u8, 85u8, 28u8)
    } else if id == 19 || id == 147 {
        (22u8, 57u8, 51u8)
    } else if id == 20 || id == 148 {
        (114u8, 120u8, 154u8)
    } else if id == 21 || id == 149 {
        (83u8, 123u8, 9u8)
    } else if id == 22 || id == 150 {
        (44u8, 66u8, 5u8)
    } else if id == 23 || id == 151 {
        (98u8, 139u8, 23u8)
    } else if id == 24 || id == 152 {
        (0u8, 0u8, 48u8)
    } else if id == 25 || id == 153 {
        (162u8, 162u8, 132u8)
    } else if id == 26 || id == 154 {
        (250u8, 240u8, 192u8)
    } else if id == 27 || id == 155 {
        (48u8, 116u8, 68u8)
    } else if id == 28 || id == 156 {
        (31u8, 95u8, 50u8)
    } else if id == 29 || id == 157 {
        (64u8, 81u8, 26u8)
    } else if id == 30 || id == 158 {
        (49u8, 85u8, 74u8)
    } else if id == 31 || id == 159 {
        (36u8, 63u8, 54u8)
    } else if id == 32 || id == 160 {
        (89u8, 102u8, 81u8)
    } else if id == 33 || id == 161 {
        (69u8, 79u8, 62u8)
    } else if id == 34 || id == 162 {
        (80u8, 112u8, 80u8)
    } else if id == 35 || id == 163 {
        (189u8, 178u8, 95u8)
    } else if id == 36 || id == 164 {
        (167u8, 157u8, 100u8)
    } else if id == 37 || id == 165 {
        (217u8, 69u8, 21u8)
    } else if id == 38 || id == 166 {
        (176u8, 151u8, 101u8)
    } else if id == 39 || id == 167 {
        (202u8, 140u8, 101u8)
    } else if id == 44 {
        (0u8, 0u8, 172u8)
    } else if id == 45 {
        (0u8, 0u8, 144u8)
    } else if id == 46 {
        (32u8, 32u8, 112u8)
    } else if id == 47 {
        (0u8, 0u8, 80u8)
    } else if id == 48 {
        (0u8, 0u8, 64u8)
    } else if id == 49 {
        (32u8, 32u8, 56u8)
    } else if id == 50 {
        (64u8, 64u8, 144u8)
    } else if id == 168 {
        (118u8, 142u8, 20u8)
    } else if id == 169 {
        (59u8, 71u8, 10u8)
    } else {
        (0u8, 0u8, 0u8)
    }
}

/// The row of the table for the id; a row that stands for no biome where
/// the table has none.
pub open spec fn row_of(id: int) -> Biome {
    Biome {
        id: if in_table(id) {
            id as i32
        } else {
            -1i32
        },
        type_0: kind_of(id),
        height: height_of(id),
        temp: temperature_of(id),
        tempCat: climate_of(id),
    }
}

/// Whether the table has a row for the id.
pub fn in_biome_table(id: i32) -> (r: bool)
    requires
        0 <= id < 256,
    ensures
        r == in_table(id as int),
{
    (0 <= id && id <= 50)
    || (129 <= id && id <= 134)
    || id == 140
    || id == 149
    || id == 151
    || (155 <= id && id <= 158)
    || (160 <= id && id <= 169)
}

/// The kind of the biome with the id.
pub fn kind(id: i32) -> (r: i32)
    requires
        0 <= id < 256,
    ensures
        r == kind_of(id as int),
{
    if id == 1 || id == 129 {
        1
    } else if id == 2 || id == 17 || id == 130 {
        2
    } else if id == 3 || id == 20 || id == 34 || id == 131 || id == 162 {
        3
    } else if id == 4 || id == 18 || id == 27 || id == 28 || id == 29 || id == 132 || id == 155 || id == 156 || id == 157 {
        4
    } else if id == 5 || id == 19 || id == 30 || id == 31 || id == 32 || id == 33 || id == 133 || id == 158 || id == 160 || id == 161 {
        5
    } else if id == 6 || id == 134 {
        6
    } else if id == 7 || id == 11 {
        7
    } else if id == 8 {
        8
    } else if id == 9 || id == 40 || id == 41 || id == 42 || id == 43 {
        9
    } else if id == 12 || id == 13 || id == 140 {
        10
    } else if id == 14 || id == 15 {
        11
    } else if id == 16 || id == 26 {
        12
    } else if id == 21 || id == 22 || id == 23 || id == 149 || id == 151 || id == 168 || id == 169 {
        13
    } else if id == 25 {
        14
    } else if id == 35 || id == 36 || id == 163 || id == 164 {
        15
    } else if id == 37 || id == 38 || id == 39 || id == 165 || id == 166 || id == 167 {
        16
    } else {
        0
    }
}

/// The climate of the biome with the id.
pub fn climate(id: i32) -> (r: i32)
    requires
        0 <= id < 256,
    ensures
        r == climate_of(id as int),
{
    if id == 1 || id == 3 || id == 4 || id == 5 || id == 6 || id == 7 || id == 9 || id == 14 || id == 15 || id == 16 || id == 18 || id == 19 || id == 20 || id == 21 || id == 22 || id == 23 || id == 25 || id == 27 || id == 28 || id == 29 || id == 32 || id == 33 || id == 34 || id == 40 || id == 41 || id == 42 || id == 43 || id == 129 || id == 131 || id == 132 || id == 133 || id == 134 || id == 149 || id == 151 || id == 155 || id == 156 || id == 157 || id == 160 || id == 161 || id == 162 || id == 168 || id == 169 {
        2
    } else if id == 2 || id == 8 || id == 17 || id == 35 || id == 36 || id == 37 || id == 38 || id == 39 || id == 130 || id == 163 || id == 164 || id == 165 || id == 166 || id == 167 {
        1
    } else if id == 11 || id == 12 || id == 13 || id == 26 || id == 30 || id == 31 || id == 140 || id == 158 {
        3
    } else {
        0
    }
}

/// The temperature of the biome with the id, in hundredths.
pub fn temperature(id: i32) -> (r: i32)
    requires
        0 <= id < 256,
    ensures
        r == temperature_of(id as int),
{
    if id == 0 || id == 7 || id == 9 || id == 24 || id == 40 || id == 41 || id == 42 || id == 43 || id == 44 || id == 45 || id == 46 || id == 47 || id == 48 || id == 49 || id == 50 {
        50
    } else if id == 1 || id == 6 || id == 16 || id == 129 || id == 134 {
        80
    } else if id == 2 || id == 8 || id == 17 || id == 37 || id == 38 || id == 39 || id == 130 || id == 165 || id == 166 || id == 167 {
        200
    } else if id == 3 || id == 20 || id == 25 || id == 34 || id == 131 || id == 162 {
        20
    } else if id == 4 || id == 18 || id == 29 || id == 132 || id == 157 {
        70
    } else if id == 5 || id == 19 || id == 133 {
        25
    } else if id == 14 || id == 15 {
        90
    } else if id == 21 || id == 22 || id == 23 || id == 149 || id == 151 || id == 168 || id == 169 {
        95
    } else if id == 26 {
        5
    } else if id == 27 || id == 28 || id == 155 || id == 156 {
        60
    } else if id == 30 || id == 31 || id == 158 {
        -50
    } else if id == 32 || id == 33 || id == 160 || id == 161 {
        30
    } else if id == 35 || id == 163 {
        120
    } else if id == 36 || id == 164 {
        100
    } else {
        0
    }
}

/// The height of the biome with the id, in thousandths.
pub fn height(id: i32) -> (r: i32)
    requires
        0 <= id < 256,
    ensures
        r == height_of(id as int),
{
    if id == 0 || id == 10 || id == 44 || id == 45 || id == 46 {
        -1000
    } else if id == 1 || id == 4 || id == 8 || id == 9 || id == 21 || id == 23 || id == 25 || id == 27 || id == 29 || id == 37 || id == 40 || id == 41 || id == 42 || id == 43 || id == 168 {
        100
    } else if id == 2 || id == 12 || id == 35 {
        125
    } else if id == 3 || id == 20 || id == 34 {
        1000
    } else if id == 5 || id == 14 || id == 30 || id == 32 || id == 129 || id == 132 || id == 149 || id == 151 || id == 155 || id == 157 || id == 165 {
        200
    } else if id == 6 {
        -200
    } else if id == 7 || id == 11 {
        -500
    } else if id == 13 || id == 17 || id == 18 || id == 19 || id == 22 || id == 28 || id == 31 || id == 33 || id == 169 {
        450
    } else if id == 24 || id == 47 || id == 48 || id == 49 || id == 50 {
        -1800
    } else if id == 36 || id == 38 || id == 39 {
        1500
    } else if id == 130 || id == 140 || id == 163 {
        225
    } else if id == 131 || id == 162 {
        1100
    } else if id == 133 || id == 158 || id == 160 {
        300
    } else if id == 134 {
        -100
    } else if id == 156 || id == 161 {
        550
    } else if id == 164 || id == 166 || id == 167 {
        1600
    } else {
        0
    }
}

/// The colour that the biome with the id is drawn in.
pub fn colour(id: i32) -> (r: (u8, u8, u8))
    requires
        0 <= id < 256,
    ensures
        r == colour_of(id as int),
{
    if id == 0 || id == 128 {
        (0, 0, 112)
    } else if id == 1 || id == 129 {
        (141, 179, 96)
    } else if id == 2 || id == 130 {
        (250, 148, 24)
    } else if id == 3 || id == 131 {
        (96, 96, 96)
    } else if id == 4 || id == 132 {
        (5, 102, 33)
    } else if id == 5 || id == 133 {
        (11, 102, 89)
    } else if id == 6 || id == 134 {
        (7, 249, 178)
    } else if id == 7 || id == 135 {
        (0, 0, 255)
    } else if id == 8 || id == 136 {
        (255, 0, 0)
    } else if id == 9 || id == 40 || id == 41 || id == 42 || id == 43 || id == 137 {
        (128, 128, 255)
    } else if id == 10 || id == 138 {
        (112, 112, 214)
    } else if id == 11 || id == 139 {
        (160, 160, 255)
    } else if id == 12 || id == 140 {
        (255, 255, 255)
    } else if id == 13 || id == 141 {
        (160, 160, 160)
    } else if id == 14 || id == 142 {
        (255, 0, 255)
    } else if id == 15 || id == 143 {
        (160, 0, 255)
    } else if id == 16 || id == 144 {
        (250, 222, 85)
    } else if id == 17 || id == 145 {
        (210, 95, 18)
    } else if id == 18 || id == 146 {
        (34, 85, 28)
    } else if id == 19 || id == 147 {
        (22, 57, 51)
    } else if id == 20 || id == 148 {
        (114, 120, 154)
    } else if id == 21 || id == 149 {
        (83, 123, 9)
    } else if id == 22 || id == 150 {
        (44, 66, 5)
    } else if id == 23 || id == 151 {
        (98, 139, 23)
    } else if id == 24 || id == 152 {
        (0, 0, 48)
    } else if id == 25 || id == 153 {
        (162, 162, 132)
    } else if id == 26 || id == 154 {
        (250, 240, 192)
    } else if id == 27 || id == 155 {
        (48, 116, 68)
    } else if id == 28 || id == 156 {
        (31, 95, 50)
    } else if id == 29 || id == 157 {
        (64, 81, 26)
    } else if id == 30 || id == 158 {
        (49, 85, 74)
    } else if id == 31 || id == 159 {
        (36, 63, 54)
    } else if id == 32 || id == 160 {
        (89, 102, 81)
    } else if id == 33 || id == 161 {
        (69, 79, 62)
    } else if id == 34 || id == 162 {
        (80, 112, 80)
    } else if id == 35 || id == 163 {
        (189, 178, 95)
    } else if id == 36 || id == 164 {
        (167, 157, 100)
    } else if id == 37 || id == 165 {
        (217, 69, 21)
    } else if id == 38 || id == 166 {
        (176, 151, 101)
    } else if id == 39 || id == 167 {
        (202, 140, 101)
    } else if id == 44 {
        (0, 0, 172)
    } else if id == 45 {
        (0, 0, 144)
    } else if id == 46 {
        (32, 32, 112)
    } else if id == 47 {
        (0, 0, 80)
    } else if id == 48 {
        (0, 0, 64)
    } else if id == 49 {
        (32, 32, 56)
    } else if id == 50 {
        (64, 64, 144)
    } else if id == 168 {
        (118, 142, 20)
    } else if id == 169 {
        (59, 71, 10)
    } else {
        (0, 0, 0)
    }
}

/// The row of the table for the low 8 bits of the id.
pub fn biome_info(id: i32) -> (r: Biome)
    ensures
        r == row_of((id & 0xFF) as int),
{
    let full = id;
    let id = full & 0xFF;
    assert(0 <= id < 256) by (bit_vector)
        requires
            id == full & 0xFF,
    ;
    Biome {
        id: if in_biome_table(id) {
            id
        } else {
            -1
        },
        type_0: kind(id),
        height: height(id),
        temp: temperature(id),
        tempCat: climate(id),
    }
}

} // verus!
