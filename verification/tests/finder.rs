use slime_seed_finder::biome_info::biome_id;
use slime_seed_finder::biome_layers::finder::{derive_targets, fits_26, make_targets_26, search_26};
use slime_seed_finder::biome_layers::refine::{
    edges_of, fits_34, fits_64, make_targets_34, search_34, sort_rising, voronoi_of,
};
use slime_seed_finder::biome_layers::{
    can_generate_river_near, can_generate_river_near_steps, candidate_river_map,
    candidate_river_map_bit_25_undefined, candidate_river_map_generator, count_rivers,
    count_rivers_and, count_rivers_exact, generate, generate_up_to_layer, map_with_river_at,
    reverse_map_voronoi_zoom, river_seed_finder_26_range, segregate_coords_prevoronoi_hd,
    split_rivers_into_fragments, Area, BiomeMap, HelperMapRiverAll, MapSmooth, MapZoom,
    TestMapCheckers,
};
use slime_seed_finder::mc_rng::McRng;
use slime_seed_finder::seed_info::MinecraftVersion;

// The coordinates of the rivers of a map.
fn rivers_of(m: &BiomeMap) -> Vec<(i64, i64)> {
    let (w, h) = m.dim();
    let mut v = vec![];
    for i in 0..w {
        for j in 0..h {
            if m.at(i, j) == biome_id::river {
                v.push((m.x + i as i64, m.z + j as i64));
            }
        }
    }
    v
}

// The rivers of a world whose seed ends in the 26 bits 0x03A1F4CC, as a
// map of the game would show them.
fn observed_rivers() -> Vec<(i64, i64)> {
    let world_seed: i64 = 0x03A1F4CC;
    let area = Area { x: -128, z: -128, w: 256, h: 256 };
    let m = generate(MinecraftVersion::Java1_7, area, world_seed);
    rivers_of(&m)
}

#[test]
fn candidates_26() {
    let river_coords_voronoi = observed_rivers();
    let seed26: u32 = 0x03A1F4CC;
    let range_lo = 0xf84c80;
    let candidates = river_seed_finder_26_range(&river_coords_voronoi, range_lo, range_lo + (1 << 7));
    assert!(candidates.contains(&(seed26 as i64)), "{:?}", candidates);
}

#[test]
fn the_26_bit_search_keeps_few_of_the_seeds_it_tries() {
    let river_coords_voronoi = observed_rivers();
    let targets = make_targets_26(&river_coords_voronoi);
    assert!(!targets.is_empty());
    assert!(targets.len() <= 10);
    for t in &targets {
        assert!(t.rivers >= 10);
        assert_eq!(t.rivers, count_rivers(&t.map));
    }
    for k in 1..targets.len() {
        assert!(targets[k - 1].rivers >= targets[k].rivers);
    }
    let range_lo = 0xf84c80;
    let candidates = river_seed_finder_26_range(&river_coords_voronoi, range_lo, range_lo + (1 << 7));
    // Every seed that is kept brings its twin, and most seeds are not kept.
    assert_eq!(candidates.len() % 2, 0);
    assert!(candidates.len() < 4 * 128 / 4, "{}", candidates.len());
    for pair in candidates.chunks(2) {
        assert_eq!(pair[1], McRng::similar_biome_seed(pair[0]) & 0x3FF_FFFF);
        assert!(fits_26(&targets, pair[0]));
    }
}

#[test]
fn an_empty_range_finds_nothing() {
    let river_coords_voronoi = vec![(0, 0), (1, 1)];
    assert_eq!(river_seed_finder_26_range(&river_coords_voronoi, 5, 5), Vec::<i64>::new());
    assert_eq!(river_seed_finder_26_range(&river_coords_voronoi, 7, 5), Vec::<i64>::new());
}

#[test]
fn without_targets_every_seed_of_the_range_is_kept() {
    // Two rivers make no map of 4 by 4 cells: there is nothing to compare.
    let river_coords_voronoi = vec![(0, 0), (1, 1)];
    assert!(make_targets_26(&river_coords_voronoi).is_empty());
    let candidates = river_seed_finder_26_range(&river_coords_voronoi, 0, 2);
    let a: i64 = 0;
    let b: i64 = 1;
    let bit: i64 = 1 << 25;
    let twin = |s: i64| McRng::similar_biome_seed(s) & 0x3FF_FFFF;
    assert_eq!(
        candidates,
        vec![a, twin(a), a ^ bit, twin(a ^ bit), b, twin(b), b ^ bit, twin(b ^ bit)]
    );
}

#[test]
fn search_26_goes_through_the_given_seeds_in_order() {
    let river_coords_voronoi = observed_rivers();
    let targets = make_targets_26(&river_coords_voronoi);
    let seed: i64 = 0x03A1F4CC & 0x1FF_FFFF;
    let found = search_26(&targets, &vec![seed]);
    assert!(found.contains(&0x03A1F4CC));
    let mut expected = vec![];
    if fits_26(&targets, seed) {
        expected.push(seed);
        expected.push(McRng::similar_biome_seed(seed) & 0x3FF_FFFF);
    }
    let other = seed ^ (1 << 25);
    if fits_26(&targets, other) {
        expected.push(other);
        expected.push(McRng::similar_biome_seed(other) & 0x3FF_FFFF);
    }
    assert_eq!(found, expected);
}

#[test]
fn the_34_bit_search_keeps_the_seed_of_the_world() {
    let river_coords_voronoi = observed_rivers();
    let targets = make_targets_34(&river_coords_voronoi);
    assert!(!targets.is_empty());
    assert!(targets.len() <= 4);
    for t in &targets {
        assert!(t.rivers >= 40);
        assert_eq!(t.rivers, count_rivers(&t.edges));
        assert_eq!(t.edges.dim().0, 4 * (t.map.dim().0 - 1) - 2);
    }
    let world_seed: i64 = 0x03A1F4CC;
    assert!(fits_34(&targets, world_seed));
    let found = search_34(&targets, &vec![world_seed]);
    assert!(found.contains(&world_seed));
    for s in &found {
        assert_eq!(s & 0x3FF_FFFF, world_seed);
        assert!(*s < (1 << 34));
        assert!(fits_34(&targets, *s));
    }
    assert!(found.len() < 256);
}

#[test]
fn the_whole_generation_accepts_the_seed_of_the_world() {
    let river_coords_voronoi = observed_rivers();
    let targets = make_targets_34(&river_coords_voronoi);
    let world_seed: i64 = 0x03A1F4CC;
    let m = generate(MinecraftVersion::Java1_7, Area { x: 0, z: 0, w: 4, h: 4 }, world_seed);
    let extras = vec![(m.at(0, 0), 0, 0), (m.at(3, 2), 3, 2)];
    assert!(fits_64(MinecraftVersion::Java1_7, &targets, &extras, world_seed));
    // A sighting of a biome that no cell holds is a miss: of two
    // sightings one must hit.
    let one_wrong = vec![(m.at(0, 0), 0, 0), (255, 3, 2)];
    assert!(fits_64(MinecraftVersion::Java1_7, &targets, &one_wrong, world_seed));
    let wrong = vec![(255, 0, 0), (255, 3, 2)];
    assert!(!fits_64(MinecraftVersion::Java1_7, &targets, &wrong, world_seed));
    // Of ten sightings one may miss.
    let mut ten = vec![(255, 3, 2)];
    for k in 0..9 {
        ten.push((m.at(k % 4, k / 4), (k % 4) as i64, (k / 4) as i64));
    }
    assert!(fits_64(MinecraftVersion::Java1_7, &targets, &ten, world_seed));
    ten[1].0 = 254;
    assert!(!fits_64(MinecraftVersion::Java1_7, &targets, &ten, world_seed));
}

#[test]
fn sort_rising_orders_the_seeds() {
    assert_eq!(sort_rising(&vec![3, -1, 2, -1, i64::MAX, i64::MIN]), vec![i64::MIN, -1, -1, 2, 3, i64::MAX]);
    assert_eq!(sort_rising(&vec![]), Vec::<i64>::new());
}

#[test]
fn rivers_are_counted() {
    let area = Area { x: 0, z: 0, w: 3, h: 2 };
    let a = map_with_river_at(&[(0, 0), (1, 0), (2, 1)], area);
    let b = map_with_river_at(&[(1, 0), (2, 1), (0, 1), (1, 1)], area);
    assert_eq!(count_rivers(&a), 3);
    assert_eq!(count_rivers(&b), 4);
    // Both have (1, 0) and (2, 1); three cells are rivers in one only.
    assert_eq!(count_rivers_and(&a, &b), 2);
    assert_eq!(count_rivers_and(&b, &a), 2);
    assert_eq!(count_rivers_exact(&a, &b), 0);
    assert_eq!(count_rivers_exact(&a, &a), 3);
    let c = map_with_river_at(&[(0, 0), (1, 0), (2, 1), (2, 0)], area);
    assert_eq!(count_rivers_exact(&a, &c), 2);
    // Only rivers count: another biome in both maps is no match.
    let mut d = BiomeMap::new(area);
    d.put(0, 0, 4);
    assert_eq!(count_rivers_and(&d, &d), 0);
    assert_eq!(count_rivers(&d), 0);
}

#[test]
fn map_with_river_at_marks_the_points() {
    let area = Area { x: -2, z: 5, w: 3, h: 3 };
    let m = map_with_river_at(&[(-2, 5), (0, 7), (-1, 6), (0, 7)], area);
    assert_eq!(m.area(), area);
    for x in -2..1 {
        for z in 5..8 {
            let expected = if (x, z) == (-2, 5) || (x, z) == (0, 7) || (x, z) == (-1, 6) { 7 } else { 0 };
            assert_eq!(m.get(x, z), expected);
        }
    }
}

#[test]
fn fragments_are_squares_of_64_cells_in_the_order_of_the_points() {
    let points = [(70, 3), (1, 1), (65, 10), (-1, -1), (63, 63), (-63, 5), (-64, 0), (0, 63)];
    let frags = split_rivers_into_fragments(&points);
    // The division rounds down: the cells from 0 to 63 are one square
    // along each axis, the cells from -64 to -1 the one before it.
    assert_eq!(frags.len(), 4);
    assert_eq!(frags[0].area(), Area { x: 65, z: 3, w: 6, h: 8 });
    assert_eq!(frags[1].area(), Area { x: 0, z: 1, w: 64, h: 63 });
    assert_eq!(frags[2].area(), Area { x: -1, z: -1, w: 1, h: 1 });
    assert_eq!(frags[3].area(), Area { x: -64, z: 0, w: 2, h: 6 });
    assert_eq!(count_rivers(&frags[0]), 2);
    assert_eq!(count_rivers(&frags[1]), 3);
    assert_eq!(count_rivers(&frags[3]), 2);
    assert_eq!(frags[3].get(-63, 5), 7);
    assert_eq!(frags[3].get(-63, 4), 0);
    for f in &frags {
        assert!(f.dim().0 <= 64 && f.dim().1 <= 64);
    }
    assert!(split_rivers_into_fragments(&[]).is_empty());
}

#[test]
fn points_on_both_sides_of_zero_are_two_fragments() {
    let frags = split_rivers_into_fragments(&[(-60, 0), (60, 0)]);
    assert_eq!(frags.len(), 2);
    assert_eq!(frags[0].area(), Area { x: -60, z: 0, w: 1, h: 1 });
    assert_eq!(frags[1].area(), Area { x: 60, z: 0, w: 1, h: 1 });
    assert_eq!(frags[0].at(0, 0), 7);
    assert_eq!(frags[1].at(0, 0), 7);
}

#[test]
fn targets_come_with_most_rivers_first() {
    let mut points = vec![];
    // A fragment with 4 rivers below the last zoom, then one with 9.
    for i in 0..2 {
        for j in 0..2 {
            points.push((2 + 4 * i, 2 + 4 * j));
        }
    }
    for i in 0..3 {
        for j in 0..3 {
            points.push((66 + 4 * i, 2 + 4 * j));
        }
    }
    // And one that is too small to be brought down.
    points.push((130, 1));
    let frags = split_rivers_into_fragments(&points);
    assert_eq!(frags.len(), 3);
    let targets = derive_targets(frags);
    assert_eq!(targets.len(), 2);
    assert_eq!(targets[0].rivers, 9);
    assert_eq!(targets[0].map.area(), Area { x: 16, z: 0, w: 3, h: 3 });
    assert_eq!(targets[1].rivers, 4);
    assert_eq!(targets[1].map.area(), Area { x: 0, z: 0, w: 2, h: 2 });
    // Fewer than 10 rivers: none is kept for the search.
    assert!(make_targets_26(&points).is_empty());
}

#[test]
fn reverse_voronoi_small_map() {
    fn rcoords(c: &[(i64, i64)]) -> Result<BiomeMap, ()> {
        let area_voronoi = Area::from_coords(c);
        let target_map_voronoi = map_with_river_at(&c, area_voronoi);
        reverse_map_voronoi_zoom(&target_map_voronoi)
    }
    assert!(rcoords(&[]).is_err());
    assert!(rcoords(&[(1, 1)]).is_err());
    assert!(rcoords(&[(1, 1), (1, 2)]).is_err());
    assert!(rcoords(&[(1, 1), (1, 2), (1, 3)]).is_err());
    assert!(rcoords(&[(1, 1), (1, 2), (1, 3), (1, 4)]).is_err());
    assert!(rcoords(&[(1, 1), (1, 2), (1, 3), (1, 4), (2, 1)]).is_err());
    assert!(rcoords(&[(1, 1), (1, 2), (1, 3), (1, 4), (2, 1), (3, 1)]).is_err());
    // The minimum map size is 4x4
    assert!(rcoords(&[(1, 1), (1, 2), (1, 3), (1, 4), (2, 1), (3, 1), (4, 1)]).is_ok());
}

#[test]
fn reverse_voronoi_keeps_the_cells_that_the_zoom_copies() {
    let world_seed = 1234;
    let mut p = BiomeMap::new(Area { x: -3, z: 2, w: 6, h: 5 });
    for i in 0..6 {
        for j in 0..5 {
            p.put(i, j, (i * 5 + j) as i32);
        }
    }
    let v = voronoi_of(world_seed, &p);
    assert_eq!(v.area(), Area { x: -10, z: 10, w: 20, h: 16 });
    let back = reverse_map_voronoi_zoom(&v).unwrap();
    assert_eq!(back.area(), Area { x: -3, z: 2, w: 5, h: 4 });
    for i in 0..5 {
        for j in 0..4 {
            assert_eq!(back.at(i, j), p.at(i, j));
        }
    }
}

#[test]
fn segregate_tells_the_copied_points_from_the_others() {
    let coords = vec![(2, 2), (0, 0), (6, -2), (3, 3), (10, 10), (-6, 2), (1, 2)];
    let (prevoronoi, hd) = segregate_coords_prevoronoi_hd(coords);
    assert_eq!(prevoronoi, vec![(2, 2), (6, -2), (10, 10), (-6, 2)]);
    // The others span 0..=3 by 0..=3: of the copied points only (2, 2)
    // lies there.
    assert_eq!(hd, vec![(0, 0), (3, 3), (1, 2), (2, 2)]);
    let (prevoronoi, hd) = segregate_coords_prevoronoi_hd(vec![(2, 2)]);
    assert_eq!(prevoronoi, vec![(2, 2)]);
    assert_eq!(hd, vec![]);
}

#[test]
fn candidate_river_map_is_the_map_of_its_generator() {
    let area = Area { x: -70, z: 3, w: 120, h: 59 };
    let world_seed = 0x03A1F4CC;
    let m = candidate_river_map(area, world_seed);
    assert_eq!(m.area(), area);
    assert_eq!(m, candidate_river_map_generator(world_seed).get_map(area));
    // The same layers, one by one.
    let parea = Area { x: -2, z: -2, w: 5, h: 5 };
    let mut p = TestMapCheckers.layer().get_map(parea);
    for base in [1000, 1001, 1000, 1001, 1002, 1003] {
        p = MapZoom::new(base, world_seed).get_map_from_pmap(&p);
    }
    let e = HelperMapRiverAll::new(1, world_seed).get_map_from_pmap(&p);
    let s = MapSmooth::new(1000, world_seed).get_map_from_pmap(&e);
    for x in area.x..area.x + area.w as i64 {
        for z in area.z..area.z + area.h as i64 {
            assert_eq!(m.get(x, z), s.get(x, z));
        }
    }
    // Only rivers and -1.
    assert!(count_rivers(&m) > 0);
    let both = candidate_river_map_bit_25_undefined(area, world_seed);
    let other = candidate_river_map(area, world_seed ^ (1 << 25));
    for i in 0..120 {
        for j in 0..59 {
            assert!(m.at(i, j) == 7 || m.at(i, j) == -1);
            assert_eq!(both.at(i, j), m.at(i, j) | other.at(i, j));
        }
    }
}

#[test]
fn the_map_of_26_bits_depends_on_26_bits_only() {
    let area = Area { x: 10, z: -20, w: 16, h: 16 };
    let seed = 0x03A1F4CC;
    let m = candidate_river_map(area, seed);
    assert_eq!(m, candidate_river_map(area, seed | (0x1234_5678 << 26)));
    assert_eq!(m, candidate_river_map(area, McRng::similar_biome_seed(seed)));
}

#[test]
fn can_generate_river_near_agrees_with_its_steps() {
    let seed = 0x03A1F4CC;
    let mut zeros = 0;
    for x in (-96..96).step_by(3) {
        for z in (-96..96).step_by(3) {
            let steps = can_generate_river_near_steps((x, z), seed);
            assert!(steps <= 5);
            assert_eq!(can_generate_river_near((x, z), seed), steps == 0);
            // Bit 25 is tried both ways where it is not set.
            if can_generate_river_near((x, z), seed | (1 << 25)) {
                assert!(can_generate_river_near((x, z), seed & !(1 << 25)));
            }
            if steps == 0 {
                zeros += 1;
            }
        }
    }
    assert!(zeros > 0);
}

#[test]
fn rivers_of_the_world_pass_the_fast_check() {
    let world_seed: i64 = 0x03A1F4CC;
    let area = Area { x: -16, z: -16, w: 32, h: 32 };
    // The layer before the last zoom.
    let m = generate_up_to_layer(MinecraftVersion::Java1_7, area, world_seed, 42);
    let rivers = rivers_of(&m);
    assert!(!rivers.is_empty());
    let near = rivers.iter().filter(|p| can_generate_river_near(**p, world_seed)).count();
    assert!(near * 10 >= rivers.len() * 9, "{} of {}", near, rivers.len());
}

#[test]
fn edges_are_rivers_between_cells_that_differ() {
    let mut p = BiomeMap::new(Area { x: 0, z: 0, w: 4, h: 3 });
    p.put(1, 1, 5);
    let e = edges_of(&p);
    assert_eq!(e.area(), Area { x: 1, z: 1, w: 2, h: 1 });
    assert_eq!(e.at(0, 0), 7);
    assert_eq!(e.at(1, 0), 7);
    p.put(1, 1, 0);
    let e = edges_of(&p);
    assert_eq!(e.at(0, 0), -1);
    assert_eq!(e.at(1, 0), -1);
}

#[test]
fn a_map_of_rivers_alone_goes_down_to_a_map_of_rivers() {
    for (x, z) in [(0, 0), (2, 2), (-5, 7), (3, -1)] {
        let area = Area { x, z, w: 4, h: 4 };
        let mut points = vec![];
        for i in 0..4 {
            for j in 0..4 {
                points.push((x + i, z + j));
            }
        }
        let m = map_with_river_at(&points, area);
        let r = reverse_map_voronoi_zoom(&m).unwrap();
        assert_eq!(r.dim(), (1, 1));
        assert_eq!(r.at(0, 0), biome_id::river);
        assert_eq!((r.x, r.z), ((x + 1).div_euclid(4), (z + 1).div_euclid(4)));
    }
}

#[test]
fn a_split_range_finds_the_same_seeds() {
    let river_coords_voronoi = observed_rivers();
    let lo = 0xf84c80;
    let whole = river_seed_finder_26_range(&river_coords_voronoi, lo, lo + 96);
    let mut parts = river_seed_finder_26_range(&river_coords_voronoi, lo, lo + 40);
    parts.extend(river_seed_finder_26_range(&river_coords_voronoi, lo + 40, lo + 40));
    parts.extend(river_seed_finder_26_range(&river_coords_voronoi, lo + 40, lo + 96));
    assert_eq!(whole, parts);
}
