use slime_seed_finder::biome_info::biome_id;
use slime_seed_finder::biome_info::biome_info;
use slime_seed_finder::biome_layers::{
    generate, generate_up_to_layer, reverse_map_smooth, reverse_map_voronoi_zoom,
    reverse_map_zoom, sha256_long_to_long, Area, BiomeMap, HelperMapZoomAllEdges, MapSmooth,
    MapIsland, MapVoronoiZoom, MapZoom, TestMapXhz, TestMapZero,
};
use slime_seed_finder::java_rng::mask;
use slime_seed_finder::mc_rng::McRng;
use slime_seed_finder::seed_info::MinecraftVersion;

// The number of cells of `r` that differ from the cell of `m` with the
// index larger by `off` along both axes.
fn different(m: &BiomeMap, off: usize, r: &BiomeMap) -> usize {
    let (w, h) = r.dim();
    let mut n = 0;
    for i in 0..w {
        for j in 0..h {
            if m.at(i + off, j + off) != r.at(i, j) {
                n += 1;
            }
        }
    }
    n
}

fn numbered(w: u64, h: u64) -> BiomeMap {
    let mut m = BiomeMap::new(Area { x: 0, z: 0, w, h });
    for x in 0..w {
        for z in 0..h {
            m.put(x as usize, z as usize, (x * h + z) as i32);
        }
    }
    m
}

#[test]
fn smooth_zoom_magic_reverse_plus() {
    let world_seed = 2251799825931796;
    let (w, h) = (200, 25);
    let area = Area { x: 0, z: 0, w, h };
    let m = generate_up_to_layer(MinecraftVersion::Java1_7, area, world_seed, 30);

    let g31 = MapZoom::new(1002, world_seed);
    let g32 = MapZoom::new(1003, world_seed);
    let g33 = MapSmooth::new(1000, world_seed);

    let m_1 = g31.get_map_from_pmap(&m);
    let m1 = g32.get_map_from_pmap(&m_1);
    let m2 = g33.get_map_from_pmap(&m1);
    let b = m2;

    let r1 = reverse_map_smooth(&b);
    let r_0 = reverse_map_zoom(&r1);
    let r0 = reverse_map_zoom(&r_0);
    assert_eq!(r0.dim(), (w as usize - 3, h as usize - 3));
    // In this configuration we got 5 errors :(
    assert_eq!(different(&m, 1, &r0), 5);
}

#[test]
fn smooth_zoom_magic_reverse() {
    let world_seed = 2251799825931796;
    let (w, h) = (200, 25);
    let area = Area { x: 0, z: 0, w, h };
    let m = generate_up_to_layer(MinecraftVersion::Java1_7, area, world_seed, 31);

    let g32 = HelperMapZoomAllEdges::new(1003, world_seed);
    let g33 = MapSmooth::new(1000, world_seed);

    let m1 = g32.get_map_from_pmap(&m);
    let m2 = g33.get_map_from_pmap(&m1);
    let b = m2;

    let r1 = reverse_map_smooth(&b);
    let r0 = reverse_map_zoom(&r1);
    assert_eq!(r0.dim(), (w as usize - 3, h as usize - 3));
    // In this configuration we got 15 errors :(
    assert_eq!(different(&m, 1, &r0), 15);
}

#[test]
fn rev_map_zoom() {
    let zoom = MapZoom::new(10, 0);
    let (w, h) = (300, 300);
    let m = numbered(w, h);

    let b = zoom.get_map_from_pmap(&m);
    let r = reverse_map_zoom(&b);
    assert_eq!(r.dim(), (w as usize - 1, h as usize - 1));
    assert_eq!(different(&m, 0, &r), 0);
}

#[test]
fn vzoom2() {
    let voronoi_zoom = MapVoronoiZoom::new(10, 0);
    let (w, h) = (30, 30);
    let m = numbered(w, h);

    let b = voronoi_zoom.get_map_from_pmap(&m);
    let r = reverse_map_voronoi_zoom(&b).unwrap();
    assert_eq!(r.dim(), (w as usize - 1, h as usize - 1));
    // In this configuration we got 1 error :(
    assert_eq!(different(&m, 0, &r), 1);
}

#[test]
fn voronoi_zoom_parent() {
    let voronoi_zoom = MapVoronoiZoom::new(10, 0).over(TestMapZero.layer());

    let (w, h) = (10, 10);
    let map = voronoi_zoom.get_map(Area { x: 1, z: 1, w, h });
    assert_eq!(map.dim(), (w as usize, h as usize));
    assert_eq!(map.x, 1);
    assert_eq!(map.z, 1);

    let voronoi_zoom = MapVoronoiZoom::new(10, 0);
    let (x, z) = (4, 4);
    let map = voronoi_zoom.get_map_over(|a| TestMapXhz.get_map(a), Area { x, z, w, h });
    assert_eq!(map.dim(), (w as usize, h as usize));
    assert_eq!(map.at(0, 0), (((x - 2) >> 2) * ((h >> 2) + 2) as i64 + ((z - 2) >> 2)) as i32);
    assert_eq!(map.x, x);
    assert_eq!(map.z, z);
}

#[test]
fn generate_t() {
    let a = Area { x: 0, z: 0, w: 100, h: 100 };
    let m = generate(MinecraftVersion::Java1_7, a, 1234);
    assert_eq!(m.area(), a);
}

#[test]
fn bamboo_jungle() {
    let a = Area { x: -3000, z: -3000, w: 1, h: 1 };
    let m = generate(MinecraftVersion::Java1_14, a, 5010);
    assert_eq!(m.at(0, 0), biome_id::bambooJungle);
}

#[test]
fn biomes_with_negative_height() {
    // These biomes are important for treasure maps
    let deep = [
        biome_id::frozenDeepOcean,
        biome_id::coldDeepOcean,
        biome_id::lukewarmDeepOcean,
        biome_id::warmDeepOcean,
        biome_id::deepOcean,
    ];
    for id in &deep {
        assert!(biome_info(*id).height < 0, "{}", id);
    }
    let normal = [
        biome_id::coldOcean,
        biome_id::lukewarmOcean,
        biome_id::warmOcean,
        biome_id::ocean,
    ];
    for id in &normal {
        assert!(biome_info(*id).height < 0, "{}", id);
    }
    let rivers = [biome_id::river, biome_id::frozenRiver];
    for id in &rivers {
        assert!(biome_info(*id).height < 0, "{}", id);
    }
    let swamps = [biome_id::swampland, biome_id::swampland | 0x80];
    for id in &swamps {
        assert!(biome_info(*id).height < 0, "{}", id);
    }
}

#[test]
fn sha256_byte_order() {
    let input = 2499980394650691929u64 as i64;
    let expected = 11169288594992569606u64 as i64;

    assert_eq!(sha256_long_to_long(input), expected);
}

#[test]
fn sha256_collision_34_bits() {
    // These values of the world seed result in the same lower 34 bits
    // after being hashed.
    let x = [19424995491, 55159191312, 47814887371];
    for &i in &x {
        assert_eq!(sha256_long_to_long(i) & mask(34) as i64, i & mask(34) as i64);
    }
}

#[test]
fn sha256_collision_similar_biome_seeds() {
    let x = [36159317779, 54081671403, 3734291918, 41695158396];
    for &i in &x {
        let similar = McRng::similar_biome_seed(i);
        assert_eq!(
            sha256_long_to_long(i) & mask(34) as i64,
            sha256_long_to_long(similar) & mask(34) as i64
        );
    }
}

#[test]
fn overlapping_areas_agree() {
    for &v in &[
        MinecraftVersion::Java1_7,
        MinecraftVersion::Java1_13,
        MinecraftVersion::Java1_15,
    ] {
        let a = generate(v, Area { x: -7, z: 5, w: 20, h: 12 }, 1234);
        let b = generate(v, Area { x: 3, z: -1, w: 15, h: 14 }, 1234);
        for x in 3..13 {
            for z in 5..13 {
                assert_eq!(a.get(x, z), b.get(x, z));
            }
        }
    }
}

#[test]
fn the_smaller_twins_of_25_bits_stand_for_every_seed() {
    let v = McRng::similar_biome_seed_iterator_bits(25);
    assert_eq!(v.len(), 1 << 24);
    let mask = (1i64 << 25) - 1;
    let mut seen = vec![false; 1 << 25];
    let mut last = -1;
    for &x in &v {
        assert!(last < x && x <= mask);
        last = x;
        let twin = McRng::similar_biome_seed(x) & mask;
        assert!(x < twin);
        assert!(!seen[x as usize] && !seen[twin as usize]);
        seen[x as usize] = true;
        seen[twin as usize] = true;
    }
    assert!(seen.iter().all(|&b| b));
    assert_eq!(v[0xF84CC1], 0x1A1F4CC);
    assert_eq!(McRng::similar_biome_seeds_in_range(25, 0xF84CC1, 0xF84CC3), v[0xF84CC1..0xF84CC3].to_vec());
}

#[test]
fn the_smaller_twins_of_few_bits() {
    for bits in 1..12u8 {
        let v = McRng::similar_biome_seed_iterator_bits(bits);
        let mask = (1i64 << bits) - 1;
        let expected: Vec<i64> =
            (0..=mask).filter(|&x| x < (McRng::similar_biome_seed(x) & mask)).collect();
        assert_eq!(v, expected);
        assert_eq!(v.len(), 1 << (bits - 1));
        assert_eq!(McRng::similar_biome_seeds_in_range(bits, 1, 3), expected[1.min(expected.len())..3.min(expected.len())].to_vec());
    }
}

#[test]
fn two_seeds_that_add_up_to_the_constant_make_one_world() {
    let area = Area { x: -40, z: 25, w: 48, h: 32 };
    for seed in [1234i64, 0x03A1F4CC, -1, i64::MAX] {
        let twin = McRng::similar_biome_seed(seed);
        assert_ne!(twin, seed);
        assert_eq!(
            generate(MinecraftVersion::Java1_7, area, seed),
            generate(MinecraftVersion::Java1_7, area, twin)
        );
        for layer in [10, 25, 41, 42] {
            assert_eq!(
                generate_up_to_layer(MinecraftVersion::Java1_13, area, seed, layer),
                generate_up_to_layer(MinecraftVersion::Java1_13, area, twin, layer)
            );
        }
    }
}

#[test]
fn the_zoom_over_a_source_of_maps_is_the_zoom_over_the_layer() {
    let parent = MapIsland::new(1, 77).layer();
    let zoom = MapVoronoiZoom::new(10, 77);
    for area in [Area { x: -7, z: 3, w: 9, h: 6 }, Area { x: 2, z: -2, w: 1, h: 1 }] {
        let over = zoom.get_map_over(|a| parent.get_map(a), area);
        let whole = MapVoronoiZoom::new(10, 77).over(MapIsland::new(1, 77).layer()).get_map(area);
        assert_eq!(over, whole);
    }
}
