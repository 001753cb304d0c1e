//! Treasure maps as the game draws them before they are explored: land,
//! water and shore from the biomes of the world at half its scale, with
//! waves on open water.

use vstd::prelude::*;
use crate::biome_info::biome_id;
use crate::biome_layers::cells::{is_land_biome, land, Stencil};
use crate::biome_layers::finder::{
    candidates_26, count_rivers, count_rivers_exact, map_with_river_at, river_model,
    river_seed_finder_26_range,
};
use crate::biome_layers::inverse::reverse_map_half_voronoi;
use crate::biome_layers::grid::{cells_fit, lemma_cells_fit_sides, lemma_cells_fit_smaller};
use crate::biome_layers::models::{
    edge_model, grid_model, half_voronoi_model, layer_model, lemma_model_of_layer,
    lemma_same_model, reverse_half_voronoi_model, slice_model, stencil_of, tally, MapModel, Tally,
};
use crate::biome_layers::layers::{area_ok, lemma_area_ok_below, Layer};
use crate::biome_layers::named::MapHalfVoronoiZoom;
use crate::biome_layers::refine::{edges_of, half_voronoi_of, lemma_half_value};
use crate::biome_layers::pipeline::{generator_up_to_layer, lemma_pipeline_depth, pipeline};
use crate::biome_layers::transforms::{read_stencil, slice_to_area};
use crate::biome_layers::{coord_limit, rect_within, Area, BiomeMap};
use crate::mc_rng::McRng;
use crate::seed_info::{MinecraftVersion, Point};

verus! {

/// Seven times the sine of `k` radians in single precision, rounded
/// towards zero, for `k` from 0 up to 128: the height of the wave that the
/// game draws in the row `k`.
pub open spec fn wave(k: usize) -> i32 {
    match k {
        0 => 0i32,
        1 => 5i32,
        2 => 6i32,
        3 => 0i32,
        4 => (-5i32),
        5 => (-6i32),
        6 => (-1i32),
        7 => 4i32,
        8 => 6i32,
        9 => 2i32,
        10 => (-3i32),
        11 => (-6i32),
        12 => (-3i32),
        13 => 2i32,
        14 => 6i32,
        15 => 4i32,
        16 => (-2i32),
        17 => (-6i32),
        18 => (-5i32),
        19 => 1i32,
        20 => 6i32,
        21 => 5i32,
        22 => 0i32,
        23 => (-5i32),
        24 => (-6i32),
        25 => 0i32,
        26 => 5i32,
        27 => 6i32,
        28 => 1i32,
        29 => (-4i32),
        30 => (-6i32),
        31 => (-2i32),
        32 => 3i32,
        33 => 6i32,
        34 => 3i32,
        35 => (-2i32),
        36 => (-6i32),
        37 => (-4i32),
        38 => 2i32,
        39 => 6i32,
        40 => 5i32,
        41 => (-1i32),
        42 => (-6i32),
        43 => (-5i32),
        44 => 0i32,
        45 => 5i32,
        46 => 6i32,
        47 => 0i32,
        48 => (-5i32),
        49 => (-6i32),
        50 => (-1i32),
        51 => 4i32,
        52 => 6i32,
        53 => 2i32,
        54 => (-3i32),
        55 => (-6i32),
        56 => (-3i32),
        57 => 3i32,
        58 => 6i32,
        59 => 4i32,
        60 => (-2i32),
        61 => (-6i32),
        62 => (-5i32),
        63 => 1i32,
        64 => 6i32,
        65 => 5i32,
        66 => 0i32,
        67 => (-5i32),
        68 => (-6i32),
        69 => 0i32,
        70 => 5i32,
        71 => 6i32,
        72 => 1i32,
        73 => (-4i32),
        74 => (-6i32),
        75 => (-2i32),
        76 => 3i32,
        77 => 6i32,
        78 => 3i32,
        79 => (-3i32),
        80 => (-6i32),
        81 => (-4i32),
        82 => 2i32,
        83 => 6i32,
        84 => 5i32,
        85 => (-1i32),
        86 => (-6i32),
        87 => (-5i32),
        88 => 0i32,
        89 => 6i32,
        90 => 6i32,
        91 => 0i32,
        92 => (-5i32),
        93 => (-6i32),
        94 => (-1i32),
        95 => 4i32,
        96 => 6i32,
        97 => 2i32,
        98 => (-4i32),
        99 => (-6i32),
        100 => (-3i32),
        101 => 3i32,
        102 => 6i32,
        103 => 4i32,
        104 => (-2i32),
        105 => (-6i32),
        106 => (-5i32),
        107 => 1i32,
        108 => 6i32,
        109 => 5i32,
        110 => 0i32,
        111 => (-6i32),
        112 => (-6i32),
        113 => 0i32,
        114 => 5i32,
        115 => 6i32,
        116 => 1i32,
        117 => (-4i32),
        118 => (-6i32),
        119 => (-2i32),
        120 => 4i32,
        121 => 6i32,
        122 => 3i32,
        123 => (-3i32),
        124 => (-6i32),
        125 => (-4i32),
        126 => 2i32,
        127 => 6i32,
        _ => 0i32,
    }
}

/// The height of the wave in the row `k`.
pub fn wave_at(k: usize) -> (r: i32)
    requires
        k < 128,
    ensures
        r == wave(k),
        -6 <= r <= 6,
{
    match k {
        0 => 0i32,
        1 => 5i32,
        2 => 6i32,
        3 => 0i32,
        4 => (-5i32),
        5 => (-6i32),
        6 => (-1i32),
        7 => 4i32,
        8 => 6i32,
        9 => 2i32,
        10 => (-3i32),
        11 => (-6i32),
        12 => (-3i32),
        13 => 2i32,
        14 => 6i32,
        15 => 4i32,
        16 => (-2i32),
        17 => (-6i32),
        18 => (-5i32),
        19 => 1i32,
        20 => 6i32,
        21 => 5i32,
        22 => 0i32,
        23 => (-5i32),
        24 => (-6i32),
        25 => 0i32,
        26 => 5i32,
        27 => 6i32,
        28 => 1i32,
        29 => (-4i32),
        30 => (-6i32),
        31 => (-2i32),
        32 => 3i32,
        33 => 6i32,
        34 => 3i32,
        35 => (-2i32),
        36 => (-6i32),
        37 => (-4i32),
        38 => 2i32,
        39 => 6i32,
        40 => 5i32,
        41 => (-1i32),
        42 => (-6i32),
        43 => (-5i32),
        44 => 0i32,
        45 => 5i32,
        46 => 6i32,
        47 => 0i32,
        48 => (-5i32),
        49 => (-6i32),
        50 => (-1i32),
        51 => 4i32,
        52 => 6i32,
        53 => 2i32,
        54 => (-3i32),
        55 => (-6i32),
        56 => (-3i32),
        57 => 3i32,
        58 => 6i32,
        59 => 4i32,
        60 => (-2i32),
        61 => (-6i32),
        62 => (-5i32),
        63 => 1i32,
        64 => 6i32,
        65 => 5i32,
        66 => 0i32,
        67 => (-5i32),
        68 => (-6i32),
        69 => 0i32,
        70 => 5i32,
        71 => 6i32,
        72 => 1i32,
        73 => (-4i32),
        74 => (-6i32),
        75 => (-2i32),
        76 => 3i32,
        77 => 6i32,
        78 => 3i32,
        79 => (-3i32),
        80 => (-6i32),
        81 => (-4i32),
        82 => 2i32,
        83 => 6i32,
        84 => 5i32,
        85 => (-1i32),
        86 => (-6i32),
        87 => (-5i32),
        88 => 0i32,
        89 => 6i32,
        90 => 6i32,
        91 => 0i32,
        92 => (-5i32),
        93 => (-6i32),
        94 => (-1i32),
        95 => 4i32,
        96 => 6i32,
        97 => 2i32,
        98 => (-4i32),
        99 => (-6i32),
        100 => (-3i32),
        101 => 3i32,
        102 => 6i32,
        103 => 4i32,
        104 => (-2i32),
        105 => (-6i32),
        106 => (-5i32),
        107 => 1i32,
        108 => 6i32,
        109 => 5i32,
        110 => 0i32,
        111 => (-6i32),
        112 => (-6i32),
        113 => 0i32,
        114 => 5i32,
        115 => 6i32,
        116 => 1i32,
        117 => (-4i32),
        118 => (-6i32),
        119 => (-2i32),
        120 => 4i32,
        121 => 6i32,
        122 => 3i32,
        123 => (-3i32),
        124 => (-6i32),
        125 => (-4i32),
        126 => 2i32,
        127 => 6i32,
        _ => 0i32,
    }
}

/// The number of the eight cells around the middle of a stencil that are
/// land.
pub open spec fn land_around_count(s: Stencil) -> int {
    (if land(s.v00) {
        1int
    } else {
        0int
    }) + (if land(s.v10) {
        1int
    } else {
        0int
    }) + (if land(s.v20) {
        1int
    } else {
        0int
    }) + (if land(s.v01) {
        1int
    } else {
        0int
    }) + (if land(s.v21) {
        1int
    } else {
        0int
    }) + (if land(s.v02) {
        1int
    } else {
        0int
    }) + (if land(s.v12) {
        1int
    } else {
        0int
    }) + (if land(s.v22) {
        1int
    } else {
        0int
    })
}

/// The shade of open water in the cell with the index `(i, j)` of a
/// treasure map: the waves.
pub open spec fn wave_shade(i: int, j: int) -> i32 {
    let sum = i % 128 + wave((j % 128) as usize);
    let v = if sum < 0 {
        0
    } else {
        (sum / 8) % 5
    };
    if v == 3 {
        1
    } else if v == 4 {
        0
    } else {
        v as i32
    }
}

/// The colour of the cell with the index `(i, j)` of a treasure map, four
/// times the number of the colour and the shade, from the biome of the
/// cell and of the eight cells around it. Nothing is drawn on land and in
/// every other row of open water: there the colour is 0.
pub open spec fn treasure_value(s: Stencil, i: int, j: int) -> i32 {
    let water = 8 - land_around_count(s);
    if !land(s.v11) {
        if water > 7 && j % 2 == 0 {
            (60 + wave_shade(i, j)) as i32
        } else if water > 7 {
            0
        } else if water > 5 {
            61
        } else if water > 1 {
            60
        } else {
            63
        }
    } else if water > 0 {
        if water > 3 {
            105
        } else {
            107
        }
    } else {
        0
    }
}

/// The colour of a cell is a number from 0 up to 256.
pub proof fn lemma_treasure_value_range(s: Stencil, i: int, j: int)
    ensures
        0 <= treasure_value(s, i, j) < 256,
{
}

/// Whether every cell of a map holds a colour of the treasure maps: a
/// number from 0 up to 256.
pub open spec fn holds_colours(m: MapModel) -> bool {
    forall|i: int, j: int| 0 <= i < m.w && 0 <= j < m.h ==> 0 <= #[trigger] m.at(i, j) < 256
}

/// The colour of the cell with the index `(x, z)` of a treasure map.
pub fn treasure_cell(s: Stencil, x: usize, z: usize) -> (r: i32)
    ensures
        r == treasure_value(s, x as int, z as int),
        0 <= r < 256,
{
    let mut num_water_neighbors: i32 = 8;
    if is_land_biome(s.v00) {
        num_water_neighbors -= 1;
    }
    if is_land_biome(s.v10) {
        num_water_neighbors -= 1;
    }
    if is_land_biome(s.v20) {
        num_water_neighbors -= 1;
    }
    if is_land_biome(s.v01) {
        num_water_neighbors -= 1;
    }
    if is_land_biome(s.v21) {
        num_water_neighbors -= 1;
    }
    if is_land_biome(s.v02) {
        num_water_neighbors -= 1;
    }
    if is_land_biome(s.v12) {
        num_water_neighbors -= 1;
    }
    if is_land_biome(s.v22) {
        num_water_neighbors -= 1;
    }
    // Land colour: black, which is drawn as nothing.
    let color_land: i32 = 0;
    let color_water: i32 = 15;
    // The colour of the border between land and water.
    let color_shore: i32 = 26;
    let mut color: i32 = color_land;
    let mut color_variant: i32 = 3;
    if !is_land_biome(s.v11) {
        color = color_water;
        if num_water_neighbors > 7 && z % 2 == 0 {
            let sum: i32 = (x % 128) as i32 + wave_at(z % 128);
            color_variant = if sum < 0 {
                0
            } else {
                sum / 8 % 5
            };
            // Map the shade from (0, 1, 2, 3, 4) to (0, 1, 2, 1, 0).
            if color_variant == 3 {
                color_variant = 1;
            } else if color_variant == 4 {
                color_variant = 0;
            }
        } else if num_water_neighbors > 7 {
            color = color_land;
        } else if num_water_neighbors > 5 {
            color_variant = 1;
        } else if num_water_neighbors > 3 {
            color_variant = 0;
        } else if num_water_neighbors > 1 {
            color_variant = 0;
        }
    } else if num_water_neighbors > 0 {
        color = color_shore;
        if num_water_neighbors > 3 {
            color_variant = 1;
        } else {
            color_variant = 3;
        }
    }
    if color != color_land {
        color * 4 + color_variant
    } else {
        0
    }
}

/// The nine cells of a map at every other index, around the cell with the
/// index `(2 * i, 2 * j)`.
pub open spec fn stencil_by_two(p: MapModel, i: int, j: int) -> Stencil {
    Stencil {
        v00: p.at(2 * (i - 1), 2 * (j - 1)),
        v10: p.at(2 * i, 2 * (j - 1)),
        v20: p.at(2 * (i + 1), 2 * (j - 1)),
        v01: p.at(2 * (i - 1), 2 * j),
        v11: p.at(2 * i, 2 * j),
        v21: p.at(2 * (i + 1), 2 * j),
        v02: p.at(2 * (i - 1), 2 * (j + 1)),
        v12: p.at(2 * i, 2 * (j + 1)),
        v22: p.at(2 * (i + 1), 2 * (j + 1)),
    }
}

/// The treasure map of the fragment `(fx, fz)`, from a map of the biomes
/// of the fragment: 128 by 128 cells at half the scale, of which the
/// cells at the border hold 0.
pub open spec fn treasure_model(fx: int, fz: int, p: MapModel) -> MapModel {
    grid_model(
        fx * 128 - 32,
        fz * 128 - 32,
        128,
        128,
        |i: int, j: int|
            if 1 <= i < 127 && 1 <= j < 127 {
                treasure_value(stencil_by_two(p, i, j), i, j)
            } else {
                0i32
            },
    )
}

/// The treasure map of the fragment `(fragment_x, fragment_z)`, from a
/// map of the biomes of the fragment: the map of 256 by 256 cells whose
/// first cell is 64 cells before the cell `(256 * fragment_x,
/// 256 * fragment_z)` along both axes.
pub fn treasure_map_at(fragment_x: i64, fragment_z: i64, pmap: &BiomeMap) -> (m: BiomeMap)
    requires
        pmap.wf(),
        pmap.w() >= 255,
        pmap.h() >= 255,
        i64::MIN <= fragment_x * 256 - 64,
        fragment_x * 256 <= i64::MAX,
        i64::MIN <= fragment_z * 256 - 64,
        fragment_z * 256 <= i64::MAX,
    ensures
        m.wf(),
        m@ == treasure_model(fragment_x as int, fragment_z as int, pmap@),
        holds_colours(m@),
{
    let corner_x = (fragment_x * 256 - 64) / 2;
    let corner_z = (fragment_z * 256 - 64) / 2;
    let area = Area { x: corner_x, z: corner_z, w: 128, h: 128 };
    assert(cells_fit(128, 128));
    let mut m = BiomeMap::new(area);
    proof {
        lemma_cells_fit_sides(pmap.w() as int, pmap.h() as int);
    }
    let ghost p = pmap@;
    let mut x: usize = 1;
    while x < 127
        invariant
            1 <= x <= 127,
            pmap.wf(),
            pmap.w() >= 255,
            pmap.h() >= 255,
            p == pmap@,
            m.wf(),
            m.x == area.x,
            m.z == area.z,
            m.w() == 128,
            m.h() == 128,
            forall|i: int, j: int|
                0 <= i < 128 && 0 <= j < 128 ==> #[trigger] m.cell_at(i, j) == if 1 <= i < x && 1
                    <= j < 127 {
                    treasure_value(stencil_by_two(p, i, j), i, j)
                } else {
                    0i32
                },
        decreases 127 - x,
    {
        let mut z: usize = 1;
        while z < 127
            invariant
                1 <= x < 127,
                1 <= z <= 127,
                pmap.wf(),
                pmap.w() >= 255,
                pmap.h() >= 255,
                p == pmap@,
                m.wf(),
                m.x == area.x,
                m.z == area.z,
                m.w() == 128,
                m.h() == 128,
                forall|i: int, j: int|
                    0 <= i < 128 && 0 <= j < 128 ==> #[trigger] m.cell_at(i, j) == if 1 <= j < 127
                        && (1 <= i < x || (i == x && j < z)) {
                        treasure_value(stencil_by_two(p, i, j), i, j)
                    } else {
                        0i32
                    },
            decreases 127 - z,
        {
            let s = Stencil {
                v00: pmap.at((x - 1) * 2, (z - 1) * 2),
                v10: pmap.at(x * 2, (z - 1) * 2),
                v20: pmap.at((x + 1) * 2, (z - 1) * 2),
                v01: pmap.at((x - 1) * 2, z * 2),
                v11: pmap.at(x * 2, z * 2),
                v21: pmap.at((x + 1) * 2, z * 2),
                v02: pmap.at((x - 1) * 2, (z + 1) * 2),
                v12: pmap.at(x * 2, (z + 1) * 2),
                v22: pmap.at((x + 1) * 2, (z + 1) * 2),
            };
            assert(s == stencil_by_two(p, x as int, z as int));
            let v = treasure_cell(s, x, z);
            m.put(x, z, v);
            z += 1;
        }
        x += 1;
    }
    proof {
        lemma_same_model(m@, treasure_model(fragment_x as int, fragment_z as int, p));
        assert forall|i: int, j: int| 0 <= i < m@.w && 0 <= j < m@.h implies 0 <= #[trigger] m@.at(
            i,
            j,
        ) < 256 by {
            lemma_treasure_value_range(stencil_by_two(p, i, j), i, j);
        }
    }
    m
}

/// The map that the filter of the treasure maps makes of a map of biomes:
/// one cell smaller on every side.
pub open spec fn treasure_filter_model(p: MapModel) -> MapModel {
    grid_model(
        p.x + 1,
        p.z + 1,
        (p.w - 2) as nat,
        (p.h - 2) as nat,
        |i: int, j: int| treasure_value(stencil_of(p, i, j), i, j),
    )
}

/// The filter that draws a map of biomes as a treasure map that is not
/// explored yet. It is no layer of the generation: its maps hold colours,
/// not biomes.
pub struct MapTreasure;

impl MapTreasure {
    /// The treasure map of a map of biomes that reaches one cell further
    /// on every side.
    pub fn get_map_from_pmap(&self, pmap: &BiomeMap) -> (m: BiomeMap)
        requires
            pmap.wf(),
            pmap.w() >= 2,
            pmap.h() >= 2,
            pmap.x < i64::MAX,
            pmap.z < i64::MAX,
        ensures
            m.wf(),
            m.x == pmap.x + 1,
            m.z == pmap.z + 1,
            m.w() == pmap.w() - 2,
            m.h() == pmap.h() - 2,
            m@ == treasure_filter_model(pmap@),
            holds_colours(m@),
    {
        let (p_w, p_h) = pmap.dim();
        let area = Area { x: pmap.x + 1, z: pmap.z + 1, w: p_w as u64 - 2, h: p_h as u64 - 2 };
        proof {
            lemma_cells_fit_sides(pmap.w() as int, pmap.h() as int);
            lemma_cells_fit_smaller(
                area.w as int,
                area.h as int,
                pmap.w() as int,
                pmap.h() as int,
            );
        }
        let mut m = BiomeMap::new(area);
        let ghost p = pmap@;
        let w = p_w - 2;
        let h = p_h - 2;
        let mut x: usize = 0;
        while x < w
            invariant
                x <= w,
                w == pmap.w() - 2,
                h == pmap.h() - 2,
                pmap.wf(),
                p == pmap@,
                m.wf(),
                m.x == area.x,
                m.z == area.z,
                m.w() == w,
                m.h() == h,
                forall|i: int, j: int|
                    0 <= i < x && 0 <= j < h ==> #[trigger] m.cell_at(i, j) == treasure_value(
                        stencil_of(p, i, j),
                        i,
                        j,
                    ),
            decreases w - x,
        {
            let mut z: usize = 0;
            while z < h
                invariant
                    x < w,
                    z <= h,
                    w == pmap.w() - 2,
                    h == pmap.h() - 2,
                    pmap.wf(),
                    p == pmap@,
                    m.wf(),
                    m.x == area.x,
                    m.z == area.z,
                    m.w() == w,
                    m.h() == h,
                    forall|i: int, j: int|
                        0 <= i < w && 0 <= j < h && (i < x || (i == x && j < z))
                            ==> #[trigger] m.cell_at(i, j) == treasure_value(
                            stencil_of(p, i, j),
                            i,
                            j,
                        ),
                decreases h - z,
            {
                let s = read_stencil(pmap, x, z);
                assert(s == stencil_of(p, x as int, z as int));
                let v = treasure_cell(s, x, z);
                m.put(x, z, v);
                z += 1;
            }
            x += 1;
        }
        proof {
            lemma_same_model(m@, treasure_filter_model(p));
            assert forall|i: int, j: int| 0 <= i < m@.w && 0 <= j < m@.h implies 0
                <= #[trigger] m@.at(i, j) < 256 by {
                lemma_treasure_value_range(stencil_of(p, i, j), i, j);
            }
        }
        m
    }
}

/// Whether a treasure map of an area can be asked for: the area lies
/// within the limit of the coordinates, with room to spare, and the maps
/// that it is made from fit.
pub open spec fn treasure_area_ok(a: Area) -> bool {
    &&& rect_within(a.x as int, a.z as int, a.w as int, a.h as int, coord_limit() - 8192)
    &&& cells_fit(2 * a.w + 8192, 2 * a.h + 8192)
}

/// The area of the layer below that the last zoom at half its scale reads
/// for an area.
pub open spec fn half_zoom_area(a: Area) -> Area {
    Area {
        x: (a.x as int / 2) as i64,
        z: (a.z as int / 2) as i64,
        w: (a.w / 2 + 2) as u64,
        h: (a.h / 2 + 2) as u64,
    }
}

/// The map that the last zoom at half its scale gives for an area, over
/// a layer: a part of what it makes of the map of the layer below, as
/// large as the area, which lies one cell further along both axes than
/// the area.
pub open spec fn half_zoom_model(r: McRng, parent: Layer, a: Area) -> MapModel {
    let half = half_voronoi_model(r, layer_model(parent, half_zoom_area(a)));
    grid_model(
        a.x + 1,
        a.z + 1,
        a.w as nat,
        a.h as nat,
        |i: int, j: int| half.at(a.x as int % 2 + i, a.z as int % 2 + j),
    )
}

impl MapHalfVoronoiZoom {
    /// The map of the layer for an area, over the layer below. The map
    /// lies one cell further along both axes than the area that was
    /// asked for.
    pub fn get_map(&self, parent: &Layer, area: Area) -> (m: BiomeMap)
        requires
            rect_within(
                area.x as int,
                area.z as int,
                area.w as int,
                area.h as int,
                coord_limit() - 1,
            ),
            area_ok(half_zoom_area(area), parent.depth()),
            cells_fit(4 * (area.w / 2 + 2), 4 * (area.h / 2 + 2)),
        ensures
            m.wf(),
            m.x == area.x + 1,
            m.z == area.z + 1,
            m.w() == area.w,
            m.h() == area.h,
            m@ == half_zoom_model(McRng::seeded(self.base_seed, self.world_seed), *parent, area),
    {
        proof {
            lemma_cells_fit_sides(4 * (area.w / 2 + 2), 4 * (area.h / 2 + 2));
        }
        let parea = Area {
            x: McRng::math_floor_div(area.x, 2),
            z: McRng::math_floor_div(area.z, 2),
            w: area.w / 2 + 2,
            h: area.h / 2 + 2,
        };
        let pmap = parent.get_map(parea);
        proof {
            lemma_model_of_layer(*parent, &pmap, parea);
        }
        let hmap = self.get_map_from_pmap(&pmap);
        let ghost r = McRng::seeded(self.base_seed, self.world_seed);
        let ghost half = half_voronoi_model(r, pmap@);
        proof {
            assert forall|i: int, j: int|
                0 <= i < hmap.w() && 0 <= j < hmap.h() implies hmap.cell_at(i, j) == half.at(
                i,
                j,
            ) by {
                lemma_half_value(r, &pmap, i, j);
            }
        }
        let nx = McRng::math_floor_mod(area.x, 2);
        let nz = McRng::math_floor_mod(area.z, 2);
        let sarea = Area { x: hmap.x + nx, z: hmap.z + nz, w: area.w, h: area.h };
        let m = slice_to_area(hmap, sarea);
        proof {
            assert forall|i: int, j: int| 0 <= i < m.w() && 0 <= j < m.h() implies m@.at(i, j)
                == half_zoom_model(r, *parent, area).at(i, j) by {
                assert(m@.at(i, j) == m.cell_at(i, j));
                assert(half.at(nx + i, nz + j) == hmap.cell_at(nx + i, nz + j));
            }
            lemma_same_model(m@, half_zoom_model(r, *parent, area));
        }
        m
    }
}

/// The area that the filter of the treasure maps reads for an area: one
/// cell more on every side.
pub open spec fn around_area(a: Area) -> Area {
    Area { x: (a.x - 1) as i64, z: (a.z - 1) as i64, w: (a.w + 2) as u64, h: (a.h + 2) as u64 }
}

impl MapTreasure {
    /// The treasure map of an area, over a layer of biomes: the filter on
    /// the map of the layer over the area and one cell more on every
    /// side.
    pub fn get_map(&self, parent: &Layer, area: Area) -> (m: BiomeMap)
        requires
            area_ok(area, parent.depth() + 1),
        ensures
            m.wf(),
            m.region() == area,
            m@ == treasure_filter_model(layer_model(*parent, around_area(area))),
            holds_colours(m@),
    {
        proof {
            lemma_cells_fit_sides(
                area.w + 64 * (parent.depth() + 1),
                area.h + 64 * (parent.depth() + 1),
            );
        }
        let parea = Area { x: area.x - 1, z: area.z - 1, w: area.w + 2, h: area.h + 2 };
        proof {
            lemma_area_ok_below(area, parea, parent.depth());
        }
        let pmap = parent.get_map(parea);
        proof {
            lemma_model_of_layer(*parent, &pmap, parea);
        }
        self.get_map_from_pmap(&pmap)
    }
}

/// The treasure map that the filter makes for an area of the world at
/// half its scale: the last zoom at half its scale over the layer before
/// the last zoom, and the filter over that. The map lies one cell further
/// along both axes than the area that was asked for.
pub open spec fn fragment_treasure_model(version: MinecraftVersion, a: Area, seed: i64) -> MapModel {
    treasure_filter_model(
        half_zoom_model(McRng::seeded(10, seed), pipeline(version, seed, 50), around_area(a)),
    )
}

/// Generate terrain in the style of the treasure maps that are not
/// explored yet, for a version from 1.13 on.
pub fn generate_fragment_treasure_map(version: MinecraftVersion, area: Area, seed: i64) -> (m:
    BiomeMap)
    requires
        version != MinecraftVersion::Java1_7,
        treasure_area_ok(area),
    ensures
        m.wf(),
        m.x == area.x + 1,
        m.z == area.z + 1,
        m.w() == area.w,
        m.h() == area.h,
        m@ == fragment_treasure_model(version, area, seed),
        holds_colours(m@),
{
    proof {
        lemma_cells_fit_sides(2 * area.w + 8192, 2 * area.h + 8192);
    }
    // The layer before the last zoom.
    let parent = generator_up_to_layer(version, seed, 50);
    let mhv = MapHalfVoronoiZoom::new(10, seed);
    let harea = Area { x: area.x - 1, z: area.z - 1, w: area.w + 2, h: area.h + 2 };
    proof {
        let parea = half_zoom_area(harea);
        lemma_pipeline_depth(version, seed, 50);
        lemma_cells_fit_smaller(
            parea.w + 64 * parent.depth(),
            parea.h + 64 * parent.depth(),
            2 * area.w + 8192,
            2 * area.h + 8192,
        );
        lemma_cells_fit_smaller(
            4 * (parea.w as int),
            4 * (parea.h as int),
            2 * area.w + 8192,
            2 * area.h + 8192,
        );
    }
    let pmap = mhv.get_map(&parent, harea);
    MapTreasure.get_map_from_pmap(&pmap)
}

/// The places of the rivers among the first `j` cells of the column `i`
/// of a map, with coordinates at `scale` times the scale of the map.
pub open spec fn rivers_in_column(m: MapModel, scale: int, i: int, j: nat) -> Seq<Point>
    decreases j,
{
    if j == 0 {
        Seq::empty()
    } else {
        let before = rivers_in_column(m, scale, i, (j - 1) as nat);
        if m.at(i, j - 1) == 7 {
            before.push((((m.x + i) * scale) as i64, ((m.z + j - 1) * scale) as i64))
        } else {
            before
        }
    }
}

/// The places of the rivers in the first `i` columns of a map.
pub open spec fn rivers_in_columns(m: MapModel, scale: int, i: nat) -> Seq<Point>
    decreases i,
{
    if i == 0 {
        Seq::empty()
    } else {
        rivers_in_columns(m, scale, (i - 1) as nat) + rivers_in_column(m, scale, i - 1, m.h)
    }
}

/// The places of the rivers of a map, column by column, with coordinates
/// at `scale` times the scale of the map.
pub open spec fn river_points(m: MapModel, scale: int) -> Seq<Point> {
    rivers_in_columns(m, scale, m.w)
}

/// Whether a point is a cell of a map, at `scale` times its scale.
pub open spec fn scaled_cell(m: &BiomeMap, scale: int, p: Point) -> bool {
    m.x * scale <= p.0 <= (m.x + m.w() - 1) * scale && m.z * scale <= p.1 <= (m.z + m.h() - 1)
        * scale
}

/// The places of the rivers of a map.
pub fn river_points_of(m: &BiomeMap, scale: i64) -> (v: Vec<Point>)
    requires
        m.wf(),
        m.within(coord_limit() / 2 - 1),
        1 <= scale <= 2,
    ensures
        v@ == river_points(m@, scale as int),
        forall|k: int| 0 <= k < v.len() ==> scaled_cell(m, scale as int, #[trigger] v[k]),
{
    let (w, h) = m.dim();
    proof {
        lemma_cells_fit_sides(m.w() as int, m.h() as int);
    }
    let mut v: Vec<Point> = Vec::new();
    let mut x: usize = 0;
    while x < w
        invariant
            x <= w,
            w == m.w(),
            h == m.h(),
            m.wf(),
            m.within(coord_limit() / 2 - 1),
            1 <= scale <= 2,
            v@ == rivers_in_columns(m@, scale as int, x as nat),
            forall|k: int| 0 <= k < v.len() ==> scaled_cell(m, scale as int, #[trigger] v[k]),
        decreases w - x,
    {
        let ghost before = v@;
        let mut z: usize = 0;
        while z < h
            invariant
                x < w,
                z <= h,
                w == m.w(),
                h == m.h(),
                m.wf(),
                m.within(coord_limit() / 2 - 1),
                1 <= scale <= 2,
                v@ == before + rivers_in_column(m@, scale as int, x as int, z as nat),
                forall|k: int| 0 <= k < v.len() ==> scaled_cell(m, scale as int, #[trigger] v[k]),
            decreases h - z,
        {
            assert(m@.at(x as int, z as int) == m.cell_at(x as int, z as int));
            if m.at(x, z) == biome_id::river {
                let cx = m.x + x as i64;
                let cz = m.z + z as i64;
                assert(-coord_limit() < cx * scale < coord_limit() && -coord_limit() < cz * scale
                    < coord_limit()) by (nonlinear_arith)
                    requires
                        -(coord_limit() / 2 - 1) <= cx <= coord_limit() / 2 - 1,
                        -(coord_limit() / 2 - 1) <= cz <= coord_limit() / 2 - 1,
                        1 <= scale <= 2,
                ;
                assert(m.x * scale <= cx * scale <= (m.x + m.w() - 1) * scale && m.z * scale <= cz
                    * scale <= (m.z + m.h() - 1) * scale) by (nonlinear_arith)
                    requires
                        m.x <= cx <= m.x + m.w() - 1,
                        m.z <= cz <= m.z + m.h() - 1,
                        1 <= scale <= 2,
                ;
                let px = cx * scale;
                let pz = cz * scale;
                v.push((px, pz));
            }
            proof {
                assert(v@ =~= before + rivers_in_column(
                    m@,
                    scale as int,
                    x as int,
                    (z + 1) as nat,
                ));
            }
            z += 1;
        }
        proof {
            assert(v@ =~= rivers_in_columns(m@, scale as int, (x + 1) as nat));
        }
        x += 1;
    }
    v
}

/// The rivers of a treasure map as a map of their own: the smallest map
/// that holds them.
pub open spec fn treasure_rivers(m: MapModel) -> MapModel {
    let points = river_points(m, 1);
    river_model(points, Area::bounding(points))
}

/// The map below the last zoom that the rivers of a treasure map give.
pub open spec fn treasure_below(m: MapModel) -> MapModel {
    reverse_half_voronoi_model(treasure_rivers(m))
}

/// The edges of the rivers of a treasure map, over the area that the last
/// zoom at half its scale makes of the map below it.
pub open spec fn treasure_borders(m: MapModel) -> MapModel {
    let below = treasure_below(m);
    edge_model(
        slice_model(
            treasure_rivers(m),
            2 * below.x + 1,
            2 * below.z + 1,
            (2 * (below.w - 1)) as nat,
            (2 * (below.h - 1)) as nat,
        ),
    )
}

/// Whether a seed of 34 bits fits a treasure map: of the edges of the
/// rivers, the last zoom at half its scale makes 90 in 100, where an edge
/// that only one of the two maps has counts against it.
pub open spec fn fits_treasure(below: MapModel, borders: MapModel, seed: i64) -> bool {
    let made = edge_model(half_voronoi_model(McRng::seeded(10, seed), below));
    let both = tally(Tally::Both, made, borders);
    let one = tally(Tally::One, made, borders);
    let score = if both >= one {
        both - one
    } else {
        0
    };
    score >= tally(Tally::First, borders, borders) * 90 / 100
}

/// The seeds of 34 bits that fit a treasure map, among those that
/// continue a seed of 26 bits with one of the first `n` values of the next
/// 8 bits.
pub open spec fn treasure_found_for(below: MapModel, borders: MapModel, x: i64, n: nat) -> Seq<i64>
    decreases n,
{
    if n == 0 {
        Seq::empty()
    } else {
        let seed = x | (((n - 1) as i64) << 26);
        treasure_found_for(below, borders, x, (n - 1) as nat) + if fits_treasure(
            below,
            borders,
            seed,
        ) {
            seq![seed]
        } else {
            Seq::empty()
        }
    }
}

/// The seeds of 34 bits that fit a treasure map, among those that
/// continue one of the first `n` of the seeds of 26 bits.
pub open spec fn treasure_found(below: MapModel, borders: MapModel, seeds: Seq<i64>, n: nat) -> Seq<
    i64,
>
    decreases n,
{
    if n == 0 {
        Seq::empty()
    } else {
        treasure_found(below, borders, seeds, (n - 1) as nat) + treasure_found_for(
            below,
            borders,
            seeds[n - 1],
            256,
        )
    }
}

/// The seeds of 34 bits that can have made the rivers of a treasure map,
/// among the seeds that the range names.
pub open spec fn treasure_candidates(m: MapModel, lo: u32, hi: u32) -> Seq<i64> {
    let c26 = candidates_26(river_points(m, 2), lo, hi);
    treasure_found(treasure_below(m), treasure_borders(m), c26, c26.len())
}

/// Whether a treasure map is one that the search can work on: it lies
/// within half the limit of the coordinates, a map twice as fine fits,
/// and its rivers span 4 cells or more along both axes.
pub open spec fn treasure_map_ok(m: &BiomeMap) -> bool {
    &&& m.wf()
    &&& m.within(coord_limit() / 2 - 1)
    &&& cells_fit(2 * (m.w() as int), 2 * (m.h() as int))
    &&& Area::bounding(river_points(m@, 1)).w >= 4
    &&& Area::bounding(river_points(m@, 1)).h >= 4
}

/// The rivers of a treasure map as a map of their own.
pub fn treasure_river_map(treasure_map: &BiomeMap) -> (m: BiomeMap)
    requires
        treasure_map_ok(treasure_map),
    ensures
        m.wf(),
        m@ == treasure_rivers(treasure_map@),
        m.w() >= 4,
        m.h() >= 4,
        m.w() <= treasure_map.w(),
        m.h() <= treasure_map.h(),
        m.within(coord_limit() / 2 - 1),
{
    let river_coords_tm = river_points_of(treasure_map, 1);
    proof {
        assert forall|k: int| 0 <= k < river_coords_tm.len() implies i64::MIN < (
        #[trigger] river_coords_tm[k]).0 && i64::MIN < river_coords_tm[k].1 by {
            assert(scaled_cell(treasure_map, 1, river_coords_tm[k]));
        }
    }
    let area_tm = Area::from_coords(river_coords_tm.as_slice());
    proof {
        let c = river_coords_tm;
        let k1 = choose|k: int| 0 <= k < c.len() && (#[trigger] c[k]).0 == area_tm.x;
        let k2 = choose|k: int| 0 <= k < c.len() && (#[trigger] c[k]).0 == area_tm.x + area_tm.w - 1;
        let k3 = choose|k: int| 0 <= k < c.len() && (#[trigger] c[k]).1 == area_tm.z;
        let k4 = choose|k: int| 0 <= k < c.len() && (#[trigger] c[k]).1 == area_tm.z + area_tm.h - 1;
        assert(scaled_cell(treasure_map, 1, c[k1]));
        assert(scaled_cell(treasure_map, 1, c[k2]));
        assert(scaled_cell(treasure_map, 1, c[k3]));
        assert(scaled_cell(treasure_map, 1, c[k4]));
        lemma_cells_fit_smaller(
            area_tm.w as int,
            area_tm.h as int,
            2 * (treasure_map.w() as int),
            2 * (treasure_map.h() as int),
        );
    }
    map_with_river_at(river_coords_tm.as_slice(), area_tm)
}

/// The map below the last zoom that the rivers of a treasure map give,
/// and the edges of these rivers.
pub fn treasure_targets(treasure_map: &BiomeMap) -> (r: (BiomeMap, BiomeMap))
    requires
        treasure_map_ok(treasure_map),
    ensures
        r.0@ == treasure_below(treasure_map@),
        r.1@ == treasure_borders(treasure_map@),
        half_target_ok(&r.0, &r.1),
{
    let target_map_tm = treasure_river_map(treasure_map);
    // To go back from the last zoom at half its scale is about the same
    // as to go back from a zoom.
    let target_map_pm = reverse_map_half_voronoi(&target_map_tm);
    proof {
        assert forall|i: int, j: int|
            0 <= i < target_map_pm.w() && 0 <= j < target_map_pm.h() implies target_map_pm@.at(i, j)
            == reverse_half_voronoi_model(target_map_tm@).at(i, j) by {
            assert(target_map_pm@.at(i, j) == target_map_pm.cell_at(i, j));
            let a = 1 - target_map_tm.x as int % 2 + 2 * i;
            let b = 1 - target_map_tm.z as int % 2 + 2 * j;
            assert(target_map_tm@.at(a, b) == target_map_tm.cell_at(a, b));
        }
        lemma_same_model(target_map_pm@, reverse_half_voronoi_model(target_map_tm@));
        lemma_cells_fit_smaller(
            4 * (target_map_pm.w() as int),
            4 * (target_map_pm.h() as int),
            2 * (treasure_map.w() as int),
            2 * (treasure_map.h() as int),
        );
    }
    // Compare the resolution of the map with that of the last zoom over
    // what the map was brought down to.
    let back = half_voronoi_of(1234, &target_map_pm);
    let hv_area = back.area();
    let target_map_hv = slice_to_area(target_map_tm.clone(), hv_area);
    proof {
        let sm = slice_model(
            target_map_tm@,
            hv_area.x as int,
            hv_area.z as int,
            hv_area.w as nat,
            hv_area.h as nat,
        );
        assert forall|i: int, j: int|
            0 <= i < target_map_hv.w() && 0 <= j < target_map_hv.h() implies target_map_hv@.at(i, j)
            == sm.at(i, j) by {
            assert(target_map_hv@.at(i, j) == target_map_hv.cell_at(i, j));
            assert(target_map_tm@.at(
                hv_area.x + i - target_map_tm.x,
                hv_area.z + j - target_map_tm.z,
            ) == target_map_tm.cell_at(
                hv_area.x + i - target_map_tm.x,
                hv_area.z + j - target_map_tm.z,
            ));
        }
        lemma_same_model(target_map_hv@, sm);
    }
    // Only the borders are compared: the edges of the rivers.
    let target_map_hv_borders = edges_of(&target_map_hv);
    (target_map_pm, target_map_hv_borders)
}

/// Whether a map below the last zoom at half its scale and a map of edges
/// go together, and the search can work on them.
pub open spec fn half_target_ok(below: &BiomeMap, borders: &BiomeMap) -> bool {
    &&& below.wf()
    &&& below.w() >= 2
    &&& below.h() >= 2
    &&& below.within(coord_limit() / 4 + 1)
    &&& cells_fit(4 * (below.w() as int), 4 * (below.h() as int))
    &&& borders.wf()
    &&& borders.w() == 2 * (below.w() - 1) - 2
    &&& borders.h() == 2 * (below.h() - 1) - 2
}

/// Whether a seed of 34 bits fits a treasure map.
pub fn fits_treasure_map(below: &BiomeMap, borders: &BiomeMap, seed: i64) -> (r: bool)
    requires
        half_target_ok(below, borders),
    ensures
        r == fits_treasure(below@, borders@, seed),
{
    let target_score_hv = count_rivers(borders);
    let candidate = half_voronoi_of(seed, below);
    let candidate_borders = edges_of(&candidate);
    let score = count_rivers_exact(&candidate_borders, borders);
    score as u128 >= target_score_hv as u128 * 90 / 100
}

/// The search on 34 bits for a treasure map, for given seeds of 26 bits:
/// the jitter of the last zoom decides on the 8 bits that are new.
pub fn treasure_search(below: &BiomeMap, borders: &BiomeMap, seeds: &Vec<i64>) -> (r: Vec<i64>)
    requires
        half_target_ok(below, borders),
    ensures
        r@ == treasure_found(below@, borders@, seeds@, seeds.len() as nat),
{
    let ghost bm = below@;
    let ghost em = borders@;
    let mut r: Vec<i64> = Vec::new();
    let mut n: usize = 0;
    while n < seeds.len()
        invariant
            n <= seeds.len(),
            half_target_ok(below, borders),
            bm == below@,
            em == borders@,
            r@ == treasure_found(bm, em, seeds@, n as nat),
        decreases seeds.len() - n,
    {
        let x = seeds[n];
        let ghost before = r@;
        let mut seed: i64 = 0;
        while seed < 256
            invariant
                0 <= seed <= 256,
                n < seeds.len(),
                x == seeds[n as int],
                half_target_ok(below, borders),
                bm == below@,
                em == borders@,
                r@ == before + treasure_found_for(bm, em, x, seed as nat),
            decreases 256 - seed,
        {
            let world_seed = x | (seed << 26);
            if fits_treasure_map(below, borders, world_seed) {
                r.push(world_seed);
            }
            proof {
                assert((((seed + 1) as nat) - 1) as i64 == seed);
                assert(r@ =~= before + treasure_found_for(bm, em, x, (seed + 1) as nat));
            }
            seed += 1;
        }
        n += 1;
    }
    r
}

/// The seeds of 34 bits that can have made the rivers of a treasure map,
/// among the seeds that the range names. The map is at half the scale of
/// the world, and its rivers span 4 cells or more along both axes. The
/// range is one of indices into the list of the 2^24 seeds of 25 bits
/// that are smaller than their twins.
pub fn treasure_map_river_seed_finder(treasure_map: &BiomeMap, range_lo: u32, range_hi: u32) -> (r:
    Vec<i64>)
    requires
        treasure_map_ok(treasure_map),
    ensures
        r@ == treasure_candidates(treasure_map@, range_lo, range_hi),
{
    // The rivers at the scale of the world.
    let river_coords_hd = river_points_of(treasure_map, 2);
    proof {
        assert forall|k: int| 0 <= k < river_coords_hd.len() implies -coord_limit() < (
        #[trigger] river_coords_hd[k]).0 < coord_limit() && -coord_limit() < river_coords_hd[k].1
            < coord_limit() by {
            assert(scaled_cell(treasure_map, 2, river_coords_hd[k]));
        }
    }
    let candidates_26 = river_seed_finder_26_range(river_coords_hd.as_slice(), range_lo, range_hi);
    let (below, borders) = treasure_targets(treasure_map);
    treasure_search(&below, &borders, &candidates_26)
}

} // verus!
