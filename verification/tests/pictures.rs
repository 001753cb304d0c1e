use slime_seed_finder::biome_layers::cells::Stencil;
use slime_seed_finder::biome_layers::treasure::{
    river_points_of, treasure_cell, treasure_search, treasure_targets, wave_at,
};
use slime_seed_finder::biome_layers::{
    biome_to_color, color_variant, color_variant_channel, draw_map, draw_map_image,
    draw_treasure_map_image, generate, generate_fragment_treasure_map, generate_image,
    generate_image_treasure_map, generate_image_treasure_map_at, generate_image_up_to_layer,
    generator_up_to_layer_1_13,
    generate_up_to_layer, map_with_river_at, treasure_map_at, treasure_map_colors,
    treasure_map_river_seed_finder, treasure_map_to_color, Area, BiomeMap, MapFn,
    MapHalfVoronoiZoom, MapMap2, MapParentFn, MapTreasure, TestMapXhz,
};
use slime_seed_finder::seed_info::MinecraftVersion;

fn filled(area: Area, v: i32) -> BiomeMap {
    let mut m = BiomeMap::new(area);
    for i in 0..area.w as usize {
        for j in 0..area.h as usize {
            m.put(i, j, v);
        }
    }
    m
}

fn stencil(v: [i32; 9]) -> Stencil {
    Stencil {
        v00: v[0],
        v10: v[1],
        v20: v[2],
        v01: v[3],
        v11: v[4],
        v21: v[5],
        v02: v[6],
        v12: v[7],
        v22: v[8],
    }
}

// The shade of open water as the game computes it, with the sine in
// single precision.
fn wave_shade(x: usize, z: usize) -> i32 {
    let v = ((x % 128) as i32 + (((z % 128) as f32).sin() * 7.0) as i32) / 8 % 5;
    match v {
        3 => 1,
        4 => 0,
        v => v,
    }
}

#[test]
fn the_wave_is_seven_times_the_sine_rounded_towards_zero() {
    for k in 0..128usize {
        assert_eq!(wave_at(k), ((k as f32).sin() * 7.0) as i32, "{}", k);
    }
    assert_eq!(wave_at(0), 0);
    assert_eq!(wave_at(1), 5);
    assert_eq!(wave_at(2), 6);
    assert_eq!(wave_at(4), -5);
    assert_eq!(wave_at(11), -6);
}

#[test]
fn treasure_cell_draws_land_water_and_shore() {
    let ocean = 0;
    let plains = 1;
    // Land with land around it: nothing is drawn.
    assert_eq!(treasure_cell(stencil([plains; 9]), 5, 5), 0);
    // Open water: waves in the even rows, nothing in the odd ones.
    for x in 0..130 {
        for z in 0..130 {
            let v = treasure_cell(stencil([ocean; 9]), x, z);
            if z % 2 == 0 {
                assert_eq!(v, 15 * 4 + wave_shade(x, z), "{} {}", x, z);
            } else {
                assert_eq!(v, 0);
            }
        }
    }
    assert_eq!(treasure_cell(stencil([ocean; 9]), 16, 0), 62);
    assert_eq!(treasure_cell(stencil([ocean; 9]), 1, 4), 60);
    // Water with land near: the shade tells how much.
    let mut s = [ocean; 9];
    s[0] = plains;
    assert_eq!(treasure_cell(stencil(s), 3, 4), 61);
    s[1] = plains;
    assert_eq!(treasure_cell(stencil(s), 3, 4), 61);
    s[2] = plains;
    assert_eq!(treasure_cell(stencil(s), 3, 4), 60);
    s[3] = plains;
    s[5] = plains;
    s[6] = plains;
    assert_eq!(treasure_cell(stencil(s), 3, 4), 60);
    s[7] = plains;
    assert_eq!(treasure_cell(stencil(s), 3, 4), 63);
    s[8] = plains;
    assert_eq!(treasure_cell(stencil(s), 3, 3), 63);
    // Land with water near is shore.
    let mut s = [plains; 9];
    s[8] = ocean;
    assert_eq!(treasure_cell(stencil(s), 3, 4), 26 * 4 + 3);
    s[7] = ocean;
    s[6] = ocean;
    assert_eq!(treasure_cell(stencil(s), 3, 4), 26 * 4 + 3);
    s[5] = ocean;
    assert_eq!(treasure_cell(stencil(s), 3, 4), 26 * 4 + 1);
    // A river is water, a swamp is water too: their height is below zero.
    assert_eq!(treasure_cell(stencil([7; 9]), 0, 1), 0);
    assert_eq!(treasure_cell(stencil([6; 9]), 16, 2), 15 * 4 + wave_shade(16, 2));
}

#[test]
fn treasure_map_of_open_water() {
    let pmap = filled(Area { x: 192, z: -320, w: 256, h: 256 }, 24);
    let m = treasure_map_at(1, -1, &pmap);
    assert_eq!(m.area(), Area { x: 96, z: -160, w: 128, h: 128 });
    for x in 0..128 {
        for z in 0..128 {
            let border = x == 0 || z == 0 || x == 127 || z == 127;
            let expected = if border || z % 2 == 1 { 0 } else { 60 + wave_shade(x, z) };
            assert_eq!(m.at(x, z), expected, "{} {}", x, z);
        }
    }
}

#[test]
fn treasure_map_reads_every_other_cell() {
    let mut pmap = filled(Area { x: -64, z: -64, w: 256, h: 256 }, 0);
    // An island of one cell at the cell (10, 20) of the treasure map.
    pmap.put(20, 40, 1);
    // Land between the cells that are read changes nothing.
    pmap.put(21, 41, 1);
    pmap.put(101, 100, 1);
    let m = treasure_map_at(0, 0, &pmap);
    assert_eq!(m.area(), Area { x: -32, z: -32, w: 128, h: 128 });
    assert_eq!(m.at(10, 20), 26 * 4 + 1);
    for (x, z) in [(9, 19), (10, 19), (11, 19), (9, 20), (11, 20), (9, 21), (10, 21), (11, 21)] {
        assert_eq!(m.at(x, z), 61, "{} {}", x, z);
    }
    assert_eq!(m.at(12, 20), 60 + wave_shade(12, 20));
    assert_eq!(m.at(50, 50), 60 + wave_shade(50, 50));
    assert_eq!(m.at(50, 51), 0);
}

#[test]
fn the_filter_draws_the_map_one_cell_smaller_on_every_side() {
    let mut pmap = filled(Area { x: 5, z: 7, w: 6, h: 5 }, 0);
    pmap.put(2, 2, 1);
    let m = MapTreasure.get_map_from_pmap(&pmap);
    assert_eq!(m.area(), Area { x: 6, z: 8, w: 4, h: 3 });
    assert_eq!(m.at(1, 1), 26 * 4 + 1);
    assert_eq!(m.at(0, 0), 61);
    assert_eq!(m.at(2, 2), 61);
    assert_eq!(m.at(3, 0), 60 + wave_shade(3, 0));
    assert_eq!(m.at(3, 1), 0);
    assert_eq!(m.at(3, 2), 60 + wave_shade(3, 2));
}

#[test]
fn the_filter_over_a_layer() {
    let parent = generator_up_to_layer_1_13(1234, 51);
    let area = Area { x: -30, z: 100, w: 24, h: 10 };
    let m = MapTreasure.get_map(&parent, area);
    assert_eq!(m.area(), area);
    let pmap = parent.get_map(Area { x: -31, z: 99, w: 26, h: 12 });
    assert_eq!(m, MapTreasure.get_map_from_pmap(&pmap));
}

#[test]
fn fragment_treasure_map_is_the_filter_over_the_half_zoom() {
    let seed = 1234;
    let version = MinecraftVersion::Java1_13;
    for area in [Area { x: 10, z: -7, w: 20, h: 12 }, Area { x: -5, z: 4, w: 9, h: 8 }] {
        let m = generate_fragment_treasure_map(version, area, seed);
        assert_eq!(m.area(), Area { x: area.x + 1, z: area.z + 1, w: area.w, h: area.h });
        let harea = Area { x: area.x - 1, z: area.z - 1, w: area.w + 2, h: area.h + 2 };
        let parea = Area {
            x: harea.x.div_euclid(2),
            z: harea.z.div_euclid(2),
            w: harea.w / 2 + 2,
            h: harea.h / 2 + 2,
        };
        let pmap = generate_up_to_layer(version, parea, seed, 50);
        let half = MapHalfVoronoiZoom::new(10, seed).get_map_from_pmap(&pmap);
        let (nx, nz) = (harea.x.rem_euclid(2) as usize, harea.z.rem_euclid(2) as usize);
        let mut cut = BiomeMap::new(Area { x: area.x, z: area.z, w: harea.w, h: harea.h });
        for i in 0..harea.w as usize {
            for j in 0..harea.h as usize {
                cut.put(i, j, half.at(nx + i, nz + j));
            }
        }
        assert_eq!(m, MapTreasure.get_map_from_pmap(&cut));
        let parent = generator_up_to_layer_1_13(seed, 50);
        let shifted = MapHalfVoronoiZoom::new(10, seed).get_map(&parent, harea);
        assert_eq!(shifted, cut);
        let image = generate_image_treasure_map(version, area, seed);
        assert_eq!(image, draw_treasure_map_image(&m));
    }
}

#[test]
fn treasure_picture_of_a_fragment() {
    let seed = 1234;
    let version = MinecraftVersion::Java1_14;
    let image = generate_image_treasure_map_at(version, seed, 1, -2);
    assert_eq!(image.len(), 128 * 128 * 4);
    let pmap = generate(version, Area { x: 192, z: -576, w: 256, h: 256 }, seed);
    let m = treasure_map_at(1, -2, &pmap);
    assert_eq!(image, draw_treasure_map_image(&m));
    // The border holds colour 0, which is drawn as paper in its darkest
    // shade.
    assert_eq!(&image[0..4], &treasure_map_to_color(0)[..]);
}

#[test]
fn colours_of_the_treasure_maps() {
    assert_eq!(treasure_map_colors(0), 0x000000);
    assert_eq!(treasure_map_colors(1), 0x7FB238);
    assert_eq!(treasure_map_colors(15), 0xD87F33);
    assert_eq!(treasure_map_colors(26), 0x664C33);
    assert_eq!(treasure_map_colors(51), 0x251610);
    assert_eq!(treasure_map_colors(52), 0);
    assert_eq!(treasure_map_colors(63), 0);
    // Shades: 180, 220, 255 and 135 in 256ths, rounded down.
    assert_eq!(color_variant_channel(255, 0), 179);
    assert_eq!(color_variant_channel(255, 1), 219);
    assert_eq!(color_variant_channel(255, 2), 254);
    assert_eq!(color_variant_channel(255, 3), 134);
    assert_eq!(color_variant_channel(0, 2), 0);
    assert_eq!(color_variant_channel(100, 0), 70);
    assert_eq!(color_variant_channel(3, 0), 2);
    assert_eq!(color_variant_channel(216, 0), 151);
    assert_eq!(color_variant_channel(51, 0), 35);
    assert_eq!(color_variant(0xD8, 0x7F, 0x33, 1), (185, 109, 43));
    // Water in its shade 0: colour 15.
    assert_eq!(treasure_map_to_color(60), [151, 89, 35, 255]);
    assert_eq!(treasure_map_to_color(61), [185, 109, 43, 255]);
    assert_eq!(treasure_map_to_color(62), [215, 126, 50, 255]);
    assert_eq!(treasure_map_to_color(63), [113, 66, 26, 255]);
    // Shore: colour 26.
    assert_eq!(treasure_map_to_color(105), [87, 65, 43, 255]);
    // Colour 0 is drawn as paper.
    assert_eq!(treasure_map_to_color(0), [153, 139, 120, 255]);
    assert_eq!(treasure_map_to_color(3), [115, 104, 90, 255]);
    // Colours that the table does not have are black.
    assert_eq!(treasure_map_to_color(255), [0, 0, 0, 255]);
}

#[test]
fn colours_of_the_biomes() {
    assert_eq!(biome_to_color(0), [0, 0, 112, 255]);
    assert_eq!(biome_to_color(1), [141, 179, 96, 255]);
    assert_eq!(biome_to_color(7), [0, 0, 255, 255]);
    // The variants are drawn brighter by 40, up to 255.
    assert_eq!(biome_to_color(129), [181, 219, 136, 255]);
    assert_eq!(biome_to_color(130), [255, 188, 64, 255]);
    // Only the low 8 bits of an id count.
    assert_eq!(biome_to_color(256 + 1), biome_to_color(1));
    assert_eq!(biome_to_color(-255), biome_to_color(1));
    assert_eq!(biome_to_color(256 + 129), biome_to_color(129));
    // An id without a biome is black.
    assert_eq!(biome_to_color(200), [0, 0, 0, 255]);
}

#[test]
fn pictures_go_row_by_row() {
    let mut m = BiomeMap::new(Area { x: 3, z: 4, w: 3, h: 2 });
    let ids = [[1, 2], [7, 129], [0, 200]];
    for x in 0..3 {
        for z in 0..2 {
            m.put(x, z, ids[x][z]);
        }
    }
    let v = draw_map_image(&m);
    assert_eq!(v.len(), 3 * 2 * 4);
    for x in 0..3 {
        for z in 0..2 {
            let i = z * 3 + x;
            assert_eq!(&v[i * 4..i * 4 + 4], &biome_to_color(ids[x][z])[..]);
        }
    }
    let mut t = BiomeMap::new(Area { x: 0, z: 0, w: 2, h: 2 });
    t.put(0, 0, 60);
    t.put(1, 0, 61);
    t.put(0, 1, 105);
    let v = draw_treasure_map_image(&t);
    assert_eq!(v, vec![
        151, 89, 35, 255, 185, 109, 43, 255,
        87, 65, 43, 255, 153, 139, 120, 255,
    ]);
    assert_eq!(draw_map_image(&BiomeMap::new(Area { x: 0, z: 0, w: 0, h: 5 })), Vec::<u8>::new());
}

#[test]
fn pictures_of_the_world() {
    let version = MinecraftVersion::Java1_7;
    let area = Area { x: -20, z: 30, w: 16, h: 8 };
    let seed = 1234;
    let m = generate(version, area, seed);
    let v = generate_image(version, area, seed);
    assert_eq!(v, draw_map_image(&m));
    assert_eq!(v.len(), 16 * 8 * 4);
    assert_eq!(&v[(5 * 16 + 3) * 4..(5 * 16 + 3) * 4 + 4], &biome_to_color(m.at(3, 5))[..]);
    let m = generate_up_to_layer(version, area, seed, 20);
    assert_eq!(generate_image_up_to_layer(version, area, seed, 20), draw_map_image(&m));
    assert_eq!(generate_image_up_to_layer(version, area, seed, 43), v);
}

#[test]
fn maps_as_text() {
    let mut m = BiomeMap::new(Area { x: -30, z: 1207, w: 3, h: 2 });
    let ids = [[0, 1], [2, 3], [7, 9]];
    for x in 0..3 {
        for z in 0..2 {
            m.put(x, z, ids[x][z]);
        }
    }
    assert_eq!(draw_map(&m), "MAP: x: -30, z: 1207, 3x2\n_2R\n#3?\n");
    let m = BiomeMap::new(Area { x: i64::MIN, z: i64::MAX, w: 0, h: 0 });
    assert_eq!(draw_map(&m), "MAP: x: -9223372036854775808, z: 9223372036854775807, 0x0\n");
    let m = BiomeMap::new(Area { x: 0, z: 10, w: 12, h: 1 });
    assert_eq!(draw_map(&m), "MAP: x: 0, z: 10, 12x1\n____________\n");
}

#[test]
fn maps_from_functions() {
    let area = Area { x: -2, z: 3, w: 4, h: 3 };
    let m = MapFn(|x, z| (x * 10 + z) as i32).get_map(area);
    assert_eq!(m.area(), area);
    for x in -2..2 {
        for z in 3..6 {
            assert_eq!(m.get(x, z), (x * 10 + z) as i32);
        }
    }
    assert_eq!(MapFn(|x, z| (x * 10 + z) as i32).get_map_from_pmap(&m), m);
    let p = MapParentFn(|x, z, v| if (x + z) % 2 == 0 { v } else { -v }).get_map_from_pmap(&m);
    assert_eq!(p.area(), area);
    for x in -2..2 {
        for z in 3..6 {
            let v = (x * 10 + z) as i32;
            assert_eq!(p.get(x, z), if (x + z) % 2 == 0 { v } else { -v });
        }
    }
    let both = MapMap2 { f: |a, b| a | b }.get_map_from_pmap12(m.clone(), &p);
    assert_eq!(both.area(), area);
    for x in -2..2 {
        for z in 3..6 {
            assert_eq!(both.get(x, z), m.get(x, z) | p.get(x, z));
        }
    }
}

#[test]
fn the_test_layer_depends_on_the_area() {
    let area = Area { x: -1, z: 2, w: 3, h: 5 };
    let m = TestMapXhz.get_map(area);
    assert_eq!(m.area(), area);
    for x in -1..2 {
        for z in 2..7 {
            assert_eq!(m.get(x, z), (x * 5 + z) as i32);
        }
    }
    let other = TestMapXhz.get_map(Area { x: -1, z: 2, w: 3, h: 4 });
    assert_eq!(other.get(1, 3), 7);
    assert_eq!(m.get(1, 3), 8);
    assert_eq!(TestMapXhz.get_map_from_pmap(&m), m);
    // The value is cut to 32 bits.
    let far = TestMapXhz.get_map(Area { x: 1 << 31, z: 5, w: 1, h: 2 });
    assert_eq!(far.at(0, 0), 5);
}

#[test]
fn rivers_of_a_treasure_map_at_both_scales() {
    let area = Area { x: -3, z: 10, w: 4, h: 3 };
    let m = map_with_river_at(&[(0, 10), (-3, 12), (-3, 11), (-1, 10)], area);
    assert_eq!(river_points_of(&m, 1), vec![(-3, 11), (-3, 12), (-1, 10), (0, 10)]);
    assert_eq!(river_points_of(&m, 2), vec![(-6, 22), (-6, 24), (-2, 20), (0, 20)]);
}

#[test]
fn treasure_map_finder_keeps_the_seed_of_the_world() {
    let world_seed: i64 = 0x03A1F4CC;
    let version = MinecraftVersion::Java1_13;
    // The world at half its scale, as a treasure map shows it.
    let area = Area { x: -64, z: -64, w: 128, h: 128 };
    let parea = Area { x: -33, z: -33, w: 67, h: 67 };
    let pmap = generate_up_to_layer(version, parea, world_seed, 50);
    let half = MapHalfVoronoiZoom::new(10, world_seed).get_map_from_pmap(&pmap);
    let mut points = vec![];
    for x in area.x..area.x + area.w as i64 {
        for z in area.z..area.z + area.h as i64 {
            if half.get(x, z) == 7 {
                points.push((x, z));
            }
        }
    }
    assert!(points.len() > 40, "{}", points.len());
    let treasure_map = map_with_river_at(&points, area);
    let (below, borders) = treasure_targets(&treasure_map);
    assert_eq!(borders.dim().0, 2 * (below.dim().0 - 1) - 2);
    let found = treasure_search(&below, &borders, &vec![world_seed]);
    assert!(found.contains(&world_seed), "{:?}", found);
    assert!(found.len() < 64, "{}", found.len());
    for s in &found {
        assert_eq!(s & 0x3FF_FFFF, world_seed);
    }
    let range_lo = 0xf84cc0;
    let found = treasure_map_river_seed_finder(&treasure_map, range_lo, range_lo + 2);
    assert!(found.contains(&world_seed), "{:?}", found);
}
