use slime_seed_finder::biome_layers::layers::Layer;
use slime_seed_finder::biome_layers::named::{
    MapAddIsland, MapIsland, MapVoronoiZoom, MapZoom, TestMapZero,
};
use slime_seed_finder::biome_layers::{Area, BiomeMap, CachedMap, TestMapXhz};

fn cells(m: &BiomeMap) -> Vec<Vec<i32>> {
    let (w, h) = m.dim();
    (0..w).map(|i| (0..h).map(|j| m.at(i, j)).collect()).collect()
}

#[test]
fn islands_match() {
    let world_seed = 9223090561890311698;
    let base_seed = 1;
    let gen = MapIsland::new(base_seed, world_seed).layer();
    let m = gen.get_map(Area { x: -2, z: -1, w: 4, h: 2 });
    let mut t = vec![vec![0; 2]; 4];
    t[1][1] = 1;
    t[2][1] = 1;
    assert_eq!(t, cells(&m));
}

#[test]
fn island_one_big_equals_many_small() {
    let world_seed = 9223090561890311698;
    let base_seed = 1;
    let gen = MapIsland::new(base_seed, world_seed).layer();
    let (x, z) = (-4, -4);
    let (w, h) = (10, 10);
    let mbig = cells(&gen.get_map(Area { x, z, w, h }));
    let (w, h) = (w as usize, h as usize);
    let mut msmall = vec![vec![0; h]; w];

    for i in 0..w {
        for j in 0..h {
            let nx = x + i as i64;
            let nz = z + j as i64;
            msmall[i][j] = gen.get_map(Area { x: nx, z: nz, w: 1, h: 1 }).at(0, 0);
        }
    }

    assert_eq!(mbig, msmall);
}

#[test]
fn zoom_island_match() {
    let world_seed = 9223090561890311698;
    let base_seed = 2000;
    let mut gen = MapZoom::new(base_seed, world_seed);
    let island = MapIsland::new(1, world_seed);
    gen.fuzzy = true;
    let gen = gen.over(island.layer());
    let (x, z) = (-3, -2);
    let (w, h) = (6, 4);
    let map = gen.get_map(Area { x, z, w, h });
    assert_eq!(map.dim(), (w as usize, h as usize));
    assert_eq!(map.x, x);
    assert_eq!(map.z, z);
    let mut t = vec![vec![0; 4]; 6];
    t[0][3] = 1;
    t[1][2] = 1;
    t[2][3] = 1;
    t[2][2] = 1;
    t[3][2] = 1;
    assert_eq!(t, cells(&map));
}

// Check that all the layers generate the correct area
#[test]
fn preserve_area() {
    let world_seed = 9223090561890311698;
    let base_seed = 2000;
    let gv: Vec<Layer> = vec![
        TestMapZero.layer(),
        MapIsland::new(base_seed, world_seed).layer(),
        MapZoom::new(base_seed, world_seed).over(TestMapZero.layer()),
        MapAddIsland::new(base_seed, world_seed).over(TestMapZero.layer()),
        MapVoronoiZoom::new(base_seed, world_seed).over(TestMapZero.layer()),
    ];
    let mut av = vec![];
    av.push(Area { x: 0, z: 0, w: 0, h: 0 });
    av.push(Area { x: 1, z: 2, w: 0, h: 0 });
    for x in -5..5 {
        for z in -5..5 {
            for w in 1..10 {
                for h in 1..10 {
                    av.push(Area { x, z, w, h });
                }
            }
        }
    }
    for x in 1000..1010 {
        for z in 1000..1010 {
            for w in 1..10 {
                for h in 1..10 {
                    av.push(Area { x, z, w, h });
                }
            }
        }
    }
    for gen in &gv {
        for a in &av {
            let map = gen.get_map(*a);
            assert_eq!(map.dim(), (a.w as usize, a.h as usize));
            assert_eq!(map.x, a.x);
            assert_eq!(map.z, a.z);
        }
    }
    for a in &av {
        let map = TestMapXhz.get_map(*a);
        assert_eq!(map.dim(), (a.w as usize, a.h as usize));
        assert_eq!(map.x, a.x);
        assert_eq!(map.z, a.z);
    }
}

#[test]
fn the_cached_layer_gives_the_maps_of_its_parent() {
    let world_seed = 9223090561890311698;
    let parent = MapZoom::new(2000, world_seed).over(MapIsland::new(1, world_seed).layer());
    let mut cached = CachedMap::new(MapZoom::new(2000, world_seed).over(MapIsland::new(1, world_seed).layer()));
    assert!(cached.cache.is_empty());
    let a = Area { x: -3, z: 4, w: 6, h: 5 };
    assert!(cached.get_all_from_cache(a).is_none());
    assert_eq!(cached.get_map(a), parent.get_map(a));
    assert_eq!(cached.cache.len(), 30);
    // A part of what is kept comes from the cache.
    let b = Area { x: -1, z: 5, w: 3, h: 2 };
    assert_eq!(cached.get_all_from_cache(b), Some(parent.get_map(b)));
    assert_eq!(cached.get_map(b), parent.get_map(b));
    assert_eq!(cached.cache.len(), 30);
    // An area of which one cell is missing is asked of the parent.
    let c = Area { x: 2, z: 8, w: 2, h: 1 };
    assert!(cached.get_all_from_cache(c).is_none());
    assert_eq!(cached.get_map(c), parent.get_map(c));
    assert_eq!(cached.cache.len(), 31);
    assert_eq!(cached.get_map_from_pmap(&parent.get_map(a)), parent.get_map(a));
    // Cells far apart do not share a key.
    let d = Area { x: i64::MAX >> 4, z: -(1 << 59), w: 1, h: 1 };
    assert_eq!(cached.get_map(d), parent.get_map(d));
    assert_eq!(cached.cache.len(), 32);
}
