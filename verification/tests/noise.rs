use slime_seed_finder::biome_info::{biome_info, climate, in_biome_table, kind, temperature};
use slime_seed_finder::biome_layers::limits::{
    area_fits, can_generate, cells_can_fit, fragment_fits, lies_within, point_fits, points_fit,
    span_can_fit,
    sightings_fit, treasure_area_fits, treasure_map_fits,
};
use slime_seed_finder::biome_layers::voronoi115::{
    index_of_min_element, map_voronoi_1_15, rand_offset_3d, Point3,
};
use slime_seed_finder::biome_layers::{
    map_with_river_at, sha256_long_to_long, Area, BiomeMap, SparseMap,
};
use slime_seed_finder::java_rng::JavaRng;
use slime_seed_finder::mc_rng::McRng;
use slime_seed_finder::noise_generator::NoiseGeneratorPerlin;
use slime_seed_finder::seed_info::MinecraftVersion;

// The noise of the ocean temperatures in the doubles of the machine.
struct Noise {
    a: f64,
    b: f64,
    c: f64,
    d: Vec<i32>,
}

fn next_double(r: &mut JavaRng) -> f64 {
    let h = r.next(26) as i64;
    let l = r.next(27) as i64;
    ((h << 27) + l) as f64 / (1u64 << 53) as f64
}

fn noise(seed: i64) -> Noise {
    let mut r = JavaRng::with_seed(seed as u64);
    let a = next_double(&mut r) * 256.0;
    let b = next_double(&mut r) * 256.0;
    let c = next_double(&mut r) * 256.0;
    let mut d: Vec<i32> = (0..512).map(|i| if i < 256 { i } else { 0 }).collect();
    for i in 0..256usize {
        let n3 = (r.next_int_n(256 - i as i32) + i as i32) as usize;
        let n4 = d[i];
        d[i] = d[n3];
        d[n3] = n4;
        d[i + 256] = d[i];
    }
    Noise { a, b, c, d }
}

fn gradient(hash: i32, d1: f64, d2: f64, d3: f64) -> f64 {
    let ex = [1., -1., 1., -1., 1., -1., 1., -1., 0., 0., 0., 0., 1., 0., -1., 0.];
    let ey = [1., 1., -1., -1., 0., 0., 0., 0., 1., -1., 1., -1., 1., -1., 1., -1.];
    let ez = [0., 0., 0., 0., 1., 1., -1., -1., 1., 1., -1., -1., 0., 1., 0., -1.];
    let i = (hash & 0xf) as usize;
    ex[i] * d1 + ey[i] * d2 + ez[i] * d3
}

fn lerp(part: f64, from: f64, to: f64) -> f64 {
    from + part * (to - from)
}

fn fade(d: f64) -> f64 {
    d * d * d * (d * (d * 6.0 - 15.0) + 10.0)
}

fn floor_cell(d: f64) -> i64 {
    let i = d as i64;
    if d < 0.0 {
        i - 1
    } else {
        i
    }
}

fn ocean_temp(n: &Noise, x: f64, y: f64, z: f64) -> f64 {
    let (e1, e2, e3) = (x + n.a, y + n.b, z + n.c);
    let (c1, c2, c3) = (floor_cell(e1), floor_cell(e2), floor_cell(e3));
    let (d1, d2, d3) = (e1 - c1 as f64, e2 - c2 as f64, e3 - c3 as f64);
    let (t1, t2, t3) = (fade(d1), fade(d2), fade(d3));
    let (i1, i2, i3) = ((c1 & 0xff) as usize, (c2 & 0xff) as i32, (c3 & 0xff) as i32);
    let a1 = (n.d[i1] + i2) as usize;
    let a2 = (n.d[a1] + i3) as usize;
    let a3 = (n.d[a1 + 1] + i3) as usize;
    let b1 = (n.d[i1 + 1] + i2) as usize;
    let b2 = (n.d[b1] + i3) as usize;
    let b3 = (n.d[b1 + 1] + i3) as usize;
    let (m1, m2, m3) = (d1 - 1.0, d2 - 1.0, d3 - 1.0);
    let k1 = lerp(t1, gradient(n.d[a2], d1, d2, d3), gradient(n.d[b2], m1, d2, d3));
    let k3 = lerp(t1, gradient(n.d[a3], d1, m2, d3), gradient(n.d[b3], m1, m2, d3));
    let k5 = lerp(t1, gradient(n.d[a2 + 1], d1, d2, m3), gradient(n.d[b2 + 1], m1, d2, m3));
    let k7 = lerp(t1, gradient(n.d[a3 + 1], d1, m2, m3), gradient(n.d[b3 + 1], m1, m2, m3));
    lerp(t3, lerp(t2, k1, k3), lerp(t2, k5, k7))
}

#[test]
fn same_as_java() {
    let mut r = JavaRng::with_seed(12345);
    let l = r.next_long();
    assert_eq!(l, 6674089274190705457);
    r.set_seed(12345);
    let b = r.next_boolean();
    assert_eq!(b, false);
    r.set_seed(12345);
    let i = r.next_int_n(10);
    assert_eq!(i, 1);
    r.set_seed(12345);
    let i = r.next_int_n(16);
    assert_eq!(i, 5);
    r.set_seed(12345);
    let i = f32::from_bits(r.next_float());
    assert_eq!(i, 0.36180305);
    r.set_seed(12345);
    let i = f64::from_bits(r.next_double());
    // Interesting, nextDouble returns the same number as nextFloat
    assert_eq!(i, 0.3618031071604718);
}

#[test]
fn next_double_is_same_as_next_float() {
    let max_diff = (1u64 << 29) as f64 / (1u64 << 53) as f64;
    for seed in 0..10 {
        let mut r1 = JavaRng::with_seed(seed);
        let mut r2 = r1.clone();

        r1.next_n_calls(1000);
        r2.next_n_calls(1000);

        let a = f64::from_bits(r1.next_double());
        let b = f32::from_bits(r2.next_float()) as f64;
        let diff = (a - b).abs();

        assert!(diff < max_diff, "Seed {}: diff {}", seed, diff);
    }
}

#[test]
fn next_float_is_24_bits_over_2_to_24() {
    for seed in [0u64, 1, 12345, u64::MAX] {
        let mut r1 = JavaRng::with_seed(seed);
        let mut r2 = r1.clone();
        for _ in 0..100 {
            let a = f32::from_bits(r1.next_float());
            let b = r2.next(24) as f32 / (1 << 24) as f32;
            assert_eq!(a, b);
            assert!(0.0 <= a && a < 1.0);
        }
        assert_eq!(r1.get_raw_seed(), r2.get_raw_seed());
    }
}

#[test]
fn next_double_of_a_known_seed() {
    let mut r = JavaRng::with_seed(12345);
    assert_eq!(f64::from_bits(r.next_double()), 0.3618031071604718);
    // Two steps were taken.
    let mut s = JavaRng::with_seed(12345);
    s.next_n_calls(2);
    assert_eq!(r.get_raw_seed(), s.get_raw_seed());
    r.set_seed(12345);
    assert_eq!(r.next_boolean(), false);
    r.set_seed(12345);
    assert_eq!(r.next_int_n(16), 5);
}

#[test]
fn next_double_is_made_of_26_and_27_bits() {
    for seed in 0..10 {
        let mut r1 = JavaRng::with_seed(seed);
        let mut r2 = r1.clone();
        r1.next_n_calls(1000);
        r2.next_n_calls(1000);
        let a = f64::from_bits(r1.next_double());
        assert!(0.0 <= a && a < 1.0);
        assert_eq!(a, next_double(&mut r2));
        assert_eq!(r1.get_raw_seed(), r2.get_raw_seed());
    }
}

#[test]
fn approx_next_double() {
    let max_diff = (1u64 << 27) as f64 / (1u64 << 53) as f64;
    for seed in 0..10 {
        let mut r1 = JavaRng::with_seed(seed);
        let mut r2 = r1.clone();

        r1.next_n_calls(1000);
        r2.next_n_calls(1000);

        let a = f64::from_bits(r1.next_double());
        let b = ((r2.next(26) as i64) << 27) as f64 / (1u64 << 53) as f64;
        let diff = (a - b).abs();

        assert!(diff < max_diff, "Seed {}: diff {}", seed, diff);
    }
}

#[test]
fn set_raw_seed_keeps_the_state() {
    let mut r = JavaRng::with_seed(1);
    r.set_raw_seed(0x1234_5678_9ABC);
    assert_eq!(r.get_raw_seed(), 0x1234_5678_9ABC);
    assert_eq!(r.get_seed(), 0x1234_5678_9ABC ^ 0x5DEECE66D);
}

#[test]
fn the_noise_is_that_of_the_doubles_of_the_machine() {
    for seed in [0i64, 1, -1, 1234, 5010, i64::MIN, 0x03A1F4CC] {
        let g = NoiseGeneratorPerlin::new(seed);
        let n = noise(seed);
        for i in -40..40 {
            for j in -40..40 {
                let (x, z) = (i as f64 * 0.37 + 0.01, j as f64 / 8.0);
                let got = g.get_ocean_temp(x.to_bits(), 0f64.to_bits(), z.to_bits());
                let expected = ocean_temp(&n, x, 0.0, z);
                assert_eq!(f64::from_bits(got), expected, "{} {} {}", seed, x, z);
            }
        }
        let y = -3.25f64;
        let got = g.get_ocean_temp(1.5f64.to_bits(), y.to_bits(), 1e6f64.to_bits());
        assert_eq!(f64::from_bits(got), ocean_temp(&n, 1.5, y, 1e6));
        assert_eq!(g.duplicate().get_ocean_temp(1.5f64.to_bits(), y.to_bits(), 0), g.get_ocean_temp(1.5f64.to_bits(), y.to_bits(), 0));
    }
}

#[test]
fn oceans_come_in_five_temperatures() {
    let seed = 1234;
    let g = NoiseGeneratorPerlin::new(seed);
    let n = noise(seed);
    let mut seen = [false; 5];
    for x in -200..200 {
        for z in -100..100 {
            let tmp = ocean_temp(&n, x as f64 / 8.0, z as f64 / 8.0, 0.0);
            let (expected, k) = if tmp > 0.4 {
                (44, 0)
            } else if tmp > 0.2 {
                (45, 1)
            } else if tmp < -0.4 {
                (10, 2)
            } else if tmp < -0.2 {
                (46, 3)
            } else {
                (0, 4)
            };
            assert_eq!(g.ocean_at(x, z), expected, "{} {}", x, z);
            seen[k] = true;
        }
    }
    assert_eq!(seen, [true; 5]);
}

#[test]
fn index_of_min_element_tie() {
    fn index_of_min(x: &[f64]) -> Option<usize> {
        let bits: Vec<u64> = x.iter().map(|d| d.to_bits()).collect();
        index_of_min_element(&bits)
    }
    assert_eq!(index_of_min(&[0.0, 1.0]).unwrap(), 0);
    assert_eq!(index_of_min(&[1.0, 0.0]).unwrap(), 1);
    assert_eq!(index_of_min(&[0.0, 0.0]).unwrap(), 0);
    assert_eq!(index_of_min(&[0.1, 0.0, 0.0]).unwrap(), 1);
    assert_eq!(index_of_min(&[]), None);
    assert_eq!(index_of_min(&[3.0, -0.0, 0.0, -2.5, f64::INFINITY, -2.5]).unwrap(), 3);
    assert_eq!(index_of_min(&[0.0, -0.0]).unwrap(), 0);
    assert_eq!(index_of_min(&[f64::NEG_INFINITY, f64::MIN]).unwrap(), 0);
}

#[test]
fn the_nearest_corner_is_the_first_of_the_least() {
    let p = |x: f64, y: f64, z: f64| Point3 { x: x.to_bits(), y: y.to_bits(), z: z.to_bits() };
    let biomes: Vec<i32> = (10..18).collect();
    // All corners at one distance: the first one wins.
    let same = vec![p(0.5, 0.5, 0.5); 8];
    assert_eq!(map_voronoi_1_15(0, 0, 0, &same, &biomes), 10);
    // The place is a quarter of its low two bits further along each axis.
    let mut o = vec![p(1.0, 1.0, 1.0); 8];
    o[5] = p(-0.25, -0.5, -0.75);
    assert_eq!(map_voronoi_1_15(1, 2, 3, &o, &biomes), 15);
    assert_eq!(map_voronoi_1_15(5, -2, 7, &o, &biomes), 15);
    // Two corners at the least distance: the first of them wins.
    o[2] = p(0.25, 0.5, -0.75);
    assert_eq!(map_voronoi_1_15(0, 0, 0, &o, &biomes), 12);
    o[7] = p(0.0, 0.0, 0.0);
    assert_eq!(map_voronoi_1_15(0, 0, 0, &o, &biomes), 17);
    assert_eq!(map_voronoi_1_15(1, 2, 3, &o, &biomes), 15);
}

#[test]
fn limits_of_maps_and_areas() {
    assert!(cells_can_fit(0, 0));
    assert!(cells_can_fit(1 << 20, 1 << 20));
    assert!(cells_can_fit(0, (1 << 60) - 2));
    assert!(!cells_can_fit(0, 1 << 60));
    assert!(!cells_can_fit(1 << 31, 1 << 31));
    assert!(!cells_can_fit(u64::MAX, u64::MAX));
    assert!(lies_within(-5, 0, 10, 5, 5));
    assert!(!lies_within(-5, 0, 11, 5, 5));
    assert!(!lies_within(-6, 0, 1, 1, 5));
    let limit: i64 = 1 << 60;
    assert!(area_fits(Area { x: 0, z: 0, w: 100, h: 100 }, 64));
    assert!(area_fits(Area { x: -limit, z: limit - 1, w: 1, h: 1 }, 0));
    assert!(!area_fits(Area { x: -limit, z: limit - 1, w: 1, h: 1 }, 1));
    assert!(area_fits(Area { x: -limit + 64, z: limit - 65, w: 1, h: 1 }, 1));
    assert!(!area_fits(Area { x: 0, z: 0, w: u64::MAX, h: 1 }, 1));
    assert!(can_generate(Area { x: -3000, z: -3000, w: 1, h: 1 }));
    assert!(can_generate(Area { x: limit - 4097, z: 0, w: 1, h: 1 }));
    assert!(!can_generate(Area { x: limit - 4096, z: 0, w: 1, h: 1 }));
    assert!(!can_generate(Area { x: 0, z: 0, w: 1 << 40, h: 1 << 40 }));
    assert!(treasure_area_fits(Area { x: 0, z: 0, w: 128, h: 128 }));
    assert!(!treasure_area_fits(Area { x: limit - 8192, z: 0, w: 1, h: 1 }));
    assert!(!treasure_area_fits(Area { x: 0, z: 0, w: 1 << 60, h: 0 }));
    assert!(fragment_fits(0, 0));
    assert!(fragment_fits(-1000, 1000));
    assert!(!fragment_fits(1 << 52, 0));
    assert!(!fragment_fits(0, i64::MIN));
    assert!(point_fits((0, 0)));
    assert!(point_fits((limit - 8193, -limit + 8193)));
    assert!(!point_fits((limit - 8192, 0)));
    assert!(points_fit(&[]));
    assert!(points_fit(&[(limit - 1, 1 - limit), (0, 0)]));
    assert!(!points_fit(&[(0, 0), (limit, 0)]));
    assert!(!points_fit(&[(0, -limit)]));
    assert!(sightings_fit(&[(1, 0, 0), (2, limit - 8193, 0)]));
    assert!(!sightings_fit(&[(1, 0, 0), (2, 0, limit - 8192)]));
}

#[test]
fn limits_of_treasure_maps() {
    let area = Area { x: -64, z: -64, w: 128, h: 128 };
    assert!(treasure_map_fits(&map_with_river_at(&[(0, 0), (3, 3)], area)));
    // Rivers that span fewer than 4 cells along an axis.
    assert!(!treasure_map_fits(&map_with_river_at(&[(0, 0), (3, 2)], area)));
    assert!(!treasure_map_fits(&map_with_river_at(&[], area)));
    let far = Area { x: (1 << 59) - 10, z: 0, w: 10, h: 10 };
    assert!(!treasure_map_fits(&map_with_river_at(&[((1 << 59) - 10, 0), ((1 << 59) - 1, 9)], far)));
}

#[test]
fn maps_with_cells_that_hold_none() {
    let area = Area { x: 2, z: -3, w: 3, h: 2 };
    let mut s = SparseMap::new(area);
    assert_eq!(s.area(), area);
    assert_eq!(s.at(1, 1), None);
    s.put(1, 1, Some(7));
    s.put(2, 0, Some(0));
    assert_eq!(s.at(1, 1), Some(7));
    let m = s.unwrap_or(255);
    assert_eq!(m.area(), area);
    for i in 0..3 {
        for j in 0..2 {
            let expected = if (i, j) == (1, 1) { 7 } else if (i, j) == (2, 0) { 0 } else { 255 };
            assert_eq!(m.at(i, j), expected);
        }
    }
    let back = SparseMap::from_map(&m);
    assert_eq!(back.area(), area);
    assert_eq!(back.at(1, 1), Some(7));
    assert_eq!(back.at(0, 0), Some(255));
    let _ = BiomeMap::new(area);
}

#[test]
fn the_table_of_the_biomes() {
    assert!(in_biome_table(0));
    assert!(in_biome_table(168));
    assert!(!in_biome_table(200));
    assert!(!in_biome_table(51));
    assert_eq!(biome_info(1).id, 1);
    assert_eq!(biome_info(256 + 7).id, 7);
    assert_eq!(kind(0), kind(24));
    assert_ne!(kind(0), kind(1));
    assert_eq!(climate(2), climate(35));
    assert!(temperature(12) < temperature(1));
    assert_eq!(MinecraftVersion::Java1_7.num_layers(), 43);
    assert_eq!(MinecraftVersion::Java1_13.num_layers(), 51);
    assert_eq!(MinecraftVersion::Java1_14.num_layers(), 51);
    assert_eq!(MinecraftVersion::Java1_15.num_layers(), 51);
}

#[test]
fn the_generator_of_the_layers() {
    // mix(s, v) = s * (s * 6364136223846793005 + 1442695040888963407) + v
    assert_eq!(McRng::math_floor_div(-7, 2), -4);
    assert_eq!(McRng::math_floor_div(7, 2), 3);
    assert_eq!(McRng::math_floor_div(-8, 4), -2);
    assert_eq!(McRng::math_floor_mod(-7, 4), 1);
    assert_eq!(McRng::math_floor_mod(7, 4), 3);
    assert_eq!(McRng::math_floor_mod(i64::MIN, 1024), 0);
    assert!(McRng::is_smaller_similar_seed(0, 25));
    assert!(!McRng::is_smaller_similar_seed(0x1535015, 25));
    let mut a = McRng::new(1000, 1234);
    let mut b = McRng::with_base_seed(1000);
    b.set_world_seed(1234);
    assert_eq!(a, b);
    let mut c = McRng::default();
    c.set_base_seed(1000);
    c.set_world_seed(1234);
    assert_eq!(a, c);
    a.set_chunk_seed(10, -3);
    b.set_chunk_seed(10, -3);
    for _ in 0..20 {
        let x = a.choose4(1, 2, 3, 4);
        assert_eq!(x, b.choose4(1, 2, 3, 4));
        assert!((1..=4).contains(&x));
        let y = a.choose2(7, 9);
        assert_eq!(y, b.choose2(7, 9));
        assert!(y == 7 || y == 9);
    }
    // The value that two or more of the four share wins.
    assert_eq!(a.select_mode_or_random(5, 6, 6, 7), 6);
    assert_eq!(a.select_mode_or_random(5, 6, 7, 5), 5);
    // Two pairs tie: one of the four by a draw.
    let v = a.select_mode_or_random(8, 8, 3, 3);
    assert!(v == 8 || v == 3);
    assert_eq!(a.select_mode_or_random(2, 2, 2, 1), 2);
    let v = a.select_mode_or_random(1, 2, 3, 4);
    assert!((1..=4).contains(&v));
    // The seed that makes the same maps.
    let s: i64 = 0x03A1F4CC;
    let twin = McRng::similar_biome_seed(s);
    assert_eq!(twin, (-7379792620528906219i64).wrapping_sub(s));
    assert_eq!(McRng::similar_biome_seed(twin), s);
    let mut a = McRng::new(1000, s);
    let mut b = McRng::new(1000, twin);
    for (x, z) in [(0, 0), (-5, 17), (1 << 40, -3)] {
        a.set_chunk_seed(x, z);
        b.set_chunk_seed(x, z);
        for _ in 0..5 {
            assert_eq!(a.next_int_n(1000), b.next_int_n(1000));
        }
    }
}

#[test]
fn areas_around_points_at_the_ends_of_the_range() {
    assert_eq!(
        Area::from_coords(&[(i64::MIN, 0), (i64::MIN + 5, 3)]),
        Area { x: i64::MIN, z: 0, w: 6, h: 4 }
    );
    assert_eq!(
        Area::from_coords(&[(i64::MAX, i64::MIN), (0, -1)]),
        Area { x: 0, z: i64::MIN, w: 1 << 63, h: 1 << 63 }
    );
    assert_eq!(
        Area::from_coords(&[(i64::MIN + 1, 7), (i64::MAX, 7)]),
        Area { x: i64::MIN + 1, z: 7, w: u64::MAX, h: 1 }
    );
    assert!(span_can_fit(&[]));
    assert!(span_can_fit(&[(i64::MIN, i64::MAX)]));
    assert!(span_can_fit(&[(i64::MIN + 1, 7), (i64::MAX, 7)]));
    assert!(span_can_fit(&[(i64::MIN, 7), (i64::MAX - 1, 7)]));
    assert!(!span_can_fit(&[(i64::MIN, 7), (3, 3), (i64::MAX, 7)]));
    assert!(!span_can_fit(&[(0, i64::MAX), (3, 3), (1, i64::MIN)]));
}

#[test]
fn the_hash_takes_the_bytes_low_byte_first() {
    // The two numbers differ in their lowest byte only, the hashes in
    // every byte.
    let a = sha256_long_to_long(0);
    let b = sha256_long_to_long(1);
    assert_ne!(a, b);
    // SHA-256 of eight zero bytes begins af 55 70 f5 a1 81 0b 7a.
    assert_eq!(a as u64, 0x7A0B_81A1_F570_55AF);
    assert_eq!(sha256_long_to_long(2499980394650691929u64 as i64), 11169288594992569606u64 as i64);
}

#[test]
fn the_points_in_space_stay_within_their_cells() {
    for seed in [0i64, 1, -1, 1234, i64::MIN, i64::MAX, 0x03A1F4CC] {
        for (x, y, z) in [(0, 0, 0), (1, -1, 5), (-300, 7, 12345), (i32::MAX, i32::MIN, -1)] {
            let p = rand_offset_3d(seed, x, y, z);
            // The same mixing, and the draw as a remainder, in the
            // doubles of the machine.
            let mut r = McRng::next_state(seed, x as i64);
            r = McRng::next_state(r, y as i64);
            r = McRng::next_state(r, z as i64);
            r = McRng::next_state(r, x as i64);
            r = McRng::next_state(r, y as i64);
            r = McRng::next_state(r, z as i64);
            let mut expected = [0f64; 3];
            for e in expected.iter_mut() {
                let d = (r >> 24).rem_euclid(1024) as f64 / 1024.0;
                *e = (d - 0.5) * 0.9;
                r = McRng::next_state(r, seed);
            }
            let got = [f64::from_bits(p.x), f64::from_bits(p.y), f64::from_bits(p.z)];
            assert_eq!(got, expected);
            for v in got {
                assert!(-0.45 <= v && v < 0.45, "{}", v);
            }
        }
    }
}
