//! The graphs of layers of the versions of the game, and the maps that
//! they make.

use vstd::prelude::*;
use crate::biome_layers::cells::ZoomMode;
use crate::biome_layers::layers::{area_ok, lemma_area_ok_less, Layer};
use crate::biome_layers::transforms::{PointKind, StencilKind};
use crate::biome_layers::voronoi::Jitter;
use crate::biome_layers::voronoi115::{sha256_first_long, sha256_long_to_long};
use crate::biome_layers::{Area, BiomeMap};
use crate::mc_rng::{similar_seed, McRng};
use crate::seed_info::MinecraftVersion;

verus! {

/// One layer of a chain of layers: its kind and its base seed.
#[derive(Copy, Clone, Debug, PartialEq, Eq)]
pub enum Step {
    Stencil(StencilKind, i64),
    Point(PointKind, i64),
    /// A zoom; the flag says that its generator is never given the world
    /// seed.
    Zoom(ZoomMode, i64, bool),
}

/// The layer that a step makes over a layer, for a world seed.
pub open spec fn stepped(s: Step, seed: i64, parent: Layer) -> Layer {
    match s {
        Step::Stencil(kind, base) => Layer::Stencil(kind, McRng::seeded(base, seed), Box::new(parent)),
        Step::Point(kind, base) => Layer::Point(kind, McRng::seeded(base, seed), Box::new(parent)),
        Step::Zoom(mode, base, bug) => Layer::Zoom(
            mode,
            if bug {
                McRng::seeded_without_world(base)
            } else {
                McRng::seeded(base, seed)
            },
            Box::new(parent),
        ),
    }
}

/// The layer that a step makes over a layer, for a world seed.
pub fn step_over(s: Step, seed: i64, parent: Layer) -> (l: Layer)
    ensures
        l == stepped(s, seed, parent),
{
    match s {
        Step::Stencil(kind, base) => Layer::Stencil(kind, McRng::new(base, seed), Box::new(parent)),
        Step::Point(kind, base) => Layer::Point(kind, McRng::new(base, seed), Box::new(parent)),
        Step::Zoom(mode, base, bug) => Layer::Zoom(
            mode,
            if bug {
                McRng::with_base_seed(base)
            } else {
                McRng::new(base, seed)
            },
            Box::new(parent),
        ),
    }
}

/// The layer that the first `n` of the steps make over a layer.
pub open spec fn chained(steps: Seq<Step>, n: nat, seed: i64, source: Layer) -> Layer
    decreases n,
{
    if n == 0 {
        source
    } else {
        stepped(steps[n - 1], seed, chained(steps, (n - 1) as nat, seed, source))
    }
}

/// The layer that the first `n` of the steps make over a layer.
pub fn chain(steps: &Vec<Step>, n: usize, seed: i64, source: Layer) -> (l: Layer)
    requires
        n <= steps.len(),
    ensures
        l == chained(steps@, n as nat, seed, source),
{
    let mut l = source;
    let mut k: usize = 0;
    while k < n
        invariant
            k <= n,
            n <= steps.len(),
            l == chained(steps@, k as nat, seed, source),
        decreases n - k,
    {
        l = step_over(steps[k], seed, l);
        k += 1;
    }
    l
}

/// A step makes the same layer for a world seed and for the seed that
/// adds up with it to the constant.
pub proof fn lemma_stepped_alike(s: Step, seed: i64, parent: Layer)
    ensures
        stepped(s, similar_seed(seed), parent) == stepped(s, seed, parent),
{
    match s {
        Step::Stencil(_, base) => McRng::lemma_seeded_alike(base, seed),
        Step::Point(_, base) => McRng::lemma_seeded_alike(base, seed),
        Step::Zoom(_, base, _) => McRng::lemma_seeded_alike(base, seed),
    }
}

/// Steps make the same layers for a world seed and for the seed that adds
/// up with it to the constant.
pub proof fn lemma_chained_alike(steps: Seq<Step>, n: nat, seed: i64, source: Layer)
    ensures
        chained(steps, n, similar_seed(seed), source) == chained(steps, n, seed, source),
    decreases n,
{
    if n > 0 {
        lemma_chained_alike(steps, (n - 1) as nat, seed, source);
        lemma_stepped_alike(steps[n - 1], seed, chained(steps, (n - 1) as nat, seed, source));
    }
}

/// Every step adds one layer to the way down.
pub proof fn lemma_chained_depth(steps: Seq<Step>, n: nat, seed: i64, source: Layer)
    ensures
        chained(steps, n, seed, source).depth() == source.depth() + n,
    decreases n,
{
    if n > 0 {
        lemma_chained_depth(steps, (n - 1) as nat, seed, source);
    }
}

/// The layers 1 to 17 of every version, above the island layer: the land, its climates, and the deep ocean.
pub open spec fn land_steps() -> Seq<Step> {
    seq![
        Step::Zoom(ZoomMode::Fuzzy, 2000, false),
        Step::Stencil(StencilKind::AddIsland, 1),
        Step::Zoom(ZoomMode::Normal, 2001, false),
        Step::Stencil(StencilKind::AddIsland, 2),
        Step::Stencil(StencilKind::AddIsland, 50),
        Step::Stencil(StencilKind::AddIsland, 70),
        Step::Stencil(StencilKind::RemoveTooMuchOcean, 2),
        Step::Stencil(StencilKind::AddSnow, 2),
        Step::Stencil(StencilKind::AddIsland, 3),
        Step::Stencil(StencilKind::CoolWarm, 2),
        Step::Stencil(StencilKind::HeatIce, 2),
        Step::Point(PointKind::Special, 3),
        Step::Zoom(ZoomMode::Normal, 2002, false),
        Step::Zoom(ZoomMode::Normal, 2003, false),
        Step::Stencil(StencilKind::AddIsland, 4),
        Step::Stencil(StencilKind::AddMushroomIsland, 5),
        Step::Stencil(StencilKind::DeepOcean, 4),
    ]
}

/// The layers 1 to 17 of every version, above the island layer: the land, its climates, and the deep ocean.
pub fn make_land_steps() -> (v: Vec<Step>)
    ensures
        v@ == land_steps(),
{
    let v = vec![
        Step::Zoom(ZoomMode::Fuzzy, 2000, false),
        Step::Stencil(StencilKind::AddIsland, 1),
        Step::Zoom(ZoomMode::Normal, 2001, false),
        Step::Stencil(StencilKind::AddIsland, 2),
        Step::Stencil(StencilKind::AddIsland, 50),
        Step::Stencil(StencilKind::AddIsland, 70),
        Step::Stencil(StencilKind::RemoveTooMuchOcean, 2),
        Step::Stencil(StencilKind::AddSnow, 2),
        Step::Stencil(StencilKind::AddIsland, 3),
        Step::Stencil(StencilKind::CoolWarm, 2),
        Step::Stencil(StencilKind::HeatIce, 2),
        Step::Point(PointKind::Special, 3),
        Step::Zoom(ZoomMode::Normal, 2002, false),
        Step::Zoom(ZoomMode::Normal, 2003, false),
        Step::Stencil(StencilKind::AddIsland, 4),
        Step::Stencil(StencilKind::AddMushroomIsland, 5),
        Step::Stencil(StencilKind::DeepOcean, 4),
    ];
    assert(v@ =~= land_steps());
    v
}

/// The layers 19 to 21, above the biomes.
pub open spec fn biome_steps() -> Seq<Step> {
    seq![
        Step::Zoom(ZoomMode::Normal, 1000, false),
        Step::Zoom(ZoomMode::Normal, 1001, false),
        Step::Stencil(StencilKind::BiomeEdge, 1000),
    ]
}

/// The layers 19 to 21, above the biomes.
pub fn make_biome_steps() -> (v: Vec<Step>)
    ensures
        v@ == biome_steps(),
{
    let v = vec![
        Step::Zoom(ZoomMode::Normal, 1000, false),
        Step::Zoom(ZoomMode::Normal, 1001, false),
        Step::Stencil(StencilKind::BiomeEdge, 1000),
    ];
    assert(v@ =~= biome_steps());
    v
}

/// The two zooms between the river seeds and the hills layer.
pub open spec fn hill_steps() -> Seq<Step> {
    seq![
        Step::Zoom(ZoomMode::Normal, 1000, false),
        Step::Zoom(ZoomMode::Normal, 1001, false),
    ]
}

/// The two zooms between the river seeds and the hills layer.
pub fn make_hill_steps() -> (v: Vec<Step>)
    ensures
        v@ == hill_steps(),
{
    let v = vec![
        Step::Zoom(ZoomMode::Normal, 1000, false),
        Step::Zoom(ZoomMode::Normal, 1001, false),
    ];
    assert(v@ =~= hill_steps());
    v
}

/// The two zooms between the river seeds and the hills layer in the oldest version: their generators were never given the world seed.
pub open spec fn old_hill_steps() -> Seq<Step> {
    seq![
        Step::Zoom(ZoomMode::Normal, 1000, true),
        Step::Zoom(ZoomMode::Normal, 1001, true),
    ]
}

/// The two zooms between the river seeds and the hills layer in the oldest version: their generators were never given the world seed.
pub fn make_old_hill_steps() -> (v: Vec<Step>)
    ensures
        v@ == old_hill_steps(),
{
    let v = vec![
        Step::Zoom(ZoomMode::Normal, 1000, true),
        Step::Zoom(ZoomMode::Normal, 1001, true),
    ];
    assert(v@ =~= old_hill_steps());
    v
}

/// The layers 26 to 33, above the hills layer.
pub open spec fn upper_steps() -> Seq<Step> {
    seq![
        Step::Stencil(StencilKind::RareBiome, 1001),
        Step::Zoom(ZoomMode::Normal, 1000, false),
        Step::Stencil(StencilKind::AddIsland, 3),
        Step::Zoom(ZoomMode::Normal, 1001, false),
        Step::Stencil(StencilKind::Shore, 1000),
        Step::Zoom(ZoomMode::Normal, 1002, false),
        Step::Zoom(ZoomMode::Normal, 1003, false),
        Step::Stencil(StencilKind::Smooth, 1000),
    ]
}

/// The layers 26 to 33, above the hills layer.
pub fn make_upper_steps() -> (v: Vec<Step>)
    ensures
        v@ == upper_steps(),
{
    let v = vec![
        Step::Stencil(StencilKind::RareBiome, 1001),
        Step::Zoom(ZoomMode::Normal, 1000, false),
        Step::Stencil(StencilKind::AddIsland, 3),
        Step::Zoom(ZoomMode::Normal, 1001, false),
        Step::Stencil(StencilKind::Shore, 1000),
        Step::Zoom(ZoomMode::Normal, 1002, false),
        Step::Zoom(ZoomMode::Normal, 1003, false),
        Step::Stencil(StencilKind::Smooth, 1000),
    ];
    assert(v@ =~= upper_steps());
    v
}

/// The layers 34 to 41, above the river seeds: six zooms, the rivers, and a smoothing.
pub open spec fn river_steps() -> Seq<Step> {
    seq![
        Step::Zoom(ZoomMode::Normal, 1000, false),
        Step::Zoom(ZoomMode::Normal, 1001, false),
        Step::Zoom(ZoomMode::Normal, 1000, false),
        Step::Zoom(ZoomMode::Normal, 1001, false),
        Step::Zoom(ZoomMode::Normal, 1002, false),
        Step::Zoom(ZoomMode::Normal, 1003, false),
        Step::Stencil(StencilKind::River, 1),
        Step::Stencil(StencilKind::Smooth, 1000),
    ]
}

/// The layers 34 to 41, above the river seeds: six zooms, the rivers, and a smoothing.
pub fn make_river_steps() -> (v: Vec<Step>)
    ensures
        v@ == river_steps(),
{
    let v = vec![
        Step::Zoom(ZoomMode::Normal, 1000, false),
        Step::Zoom(ZoomMode::Normal, 1001, false),
        Step::Zoom(ZoomMode::Normal, 1000, false),
        Step::Zoom(ZoomMode::Normal, 1001, false),
        Step::Zoom(ZoomMode::Normal, 1002, false),
        Step::Zoom(ZoomMode::Normal, 1003, false),
        Step::Stencil(StencilKind::River, 1),
        Step::Stencil(StencilKind::Smooth, 1000),
    ];
    assert(v@ =~= river_steps());
    v
}

/// The layers 44 to 49, above the ocean temperatures.
pub open spec fn ocean_steps() -> Seq<Step> {
    seq![
        Step::Zoom(ZoomMode::Normal, 2001, false),
        Step::Zoom(ZoomMode::Normal, 2002, false),
        Step::Zoom(ZoomMode::Normal, 2003, false),
        Step::Zoom(ZoomMode::Normal, 2004, false),
        Step::Zoom(ZoomMode::Normal, 2005, false),
        Step::Zoom(ZoomMode::Normal, 2006, false),
    ]
}

/// The layers 44 to 49, above the ocean temperatures.
pub fn make_ocean_steps() -> (v: Vec<Step>)
    ensures
        v@ == ocean_steps(),
{
    let v = vec![
        Step::Zoom(ZoomMode::Normal, 2001, false),
        Step::Zoom(ZoomMode::Normal, 2002, false),
        Step::Zoom(ZoomMode::Normal, 2003, false),
        Step::Zoom(ZoomMode::Normal, 2004, false),
        Step::Zoom(ZoomMode::Normal, 2005, false),
        Step::Zoom(ZoomMode::Normal, 2006, false),
    ];
    assert(v@ =~= ocean_steps());
    v
}

/// The river layers with an edge detector in place of the river layer.
pub open spec fn edge_steps() -> Seq<Step> {
    seq![
        Step::Zoom(ZoomMode::Normal, 1000, false),
        Step::Zoom(ZoomMode::Normal, 1001, false),
        Step::Zoom(ZoomMode::Normal, 1000, false),
        Step::Zoom(ZoomMode::Normal, 1001, false),
        Step::Zoom(ZoomMode::Normal, 1002, false),
        Step::Zoom(ZoomMode::Normal, 1003, false),
        Step::Stencil(StencilKind::RiverAll, 1),
        Step::Stencil(StencilKind::Smooth, 1000),
    ]
}

/// The river layers with an edge detector in place of the river layer.
pub fn make_edge_steps() -> (v: Vec<Step>)
    ensures
        v@ == edge_steps(),
{
    let v = vec![
        Step::Zoom(ZoomMode::Normal, 1000, false),
        Step::Zoom(ZoomMode::Normal, 1001, false),
        Step::Zoom(ZoomMode::Normal, 1000, false),
        Step::Zoom(ZoomMode::Normal, 1001, false),
        Step::Zoom(ZoomMode::Normal, 1002, false),
        Step::Zoom(ZoomMode::Normal, 1003, false),
        Step::Stencil(StencilKind::RiverAll, 1),
        Step::Stencil(StencilKind::Smooth, 1000),
    ];
    assert(v@ =~= edge_steps());
    v
}

/// The river layers with zooms that keep every edge, and an edge detector in place of the river layer.
pub open spec fn all_edge_steps() -> Seq<Step> {
    seq![
        Step::Zoom(ZoomMode::AllEdges, 1000, false),
        Step::Zoom(ZoomMode::AllEdges, 1001, false),
        Step::Zoom(ZoomMode::AllEdges, 1000, false),
        Step::Zoom(ZoomMode::AllEdges, 1001, false),
        Step::Zoom(ZoomMode::AllEdges, 1002, false),
        Step::Zoom(ZoomMode::AllEdges, 1003, false),
        Step::Stencil(StencilKind::RiverAll, 1),
        Step::Stencil(StencilKind::Smooth, 1000),
    ]
}

/// The river layers with zooms that keep every edge, and an edge detector in place of the river layer.
pub fn make_all_edge_steps() -> (v: Vec<Step>)
    ensures
        v@ == all_edge_steps(),
{
    let v = vec![
        Step::Zoom(ZoomMode::AllEdges, 1000, false),
        Step::Zoom(ZoomMode::AllEdges, 1001, false),
        Step::Zoom(ZoomMode::AllEdges, 1000, false),
        Step::Zoom(ZoomMode::AllEdges, 1001, false),
        Step::Zoom(ZoomMode::AllEdges, 1002, false),
        Step::Zoom(ZoomMode::AllEdges, 1003, false),
        Step::Stencil(StencilKind::RiverAll, 1),
        Step::Stencil(StencilKind::Smooth, 1000),
    ];
    assert(v@ =~= all_edge_steps());
    v
}

/// The zooms of the biome layers, without the layers between them.
pub open spec fn checker_biome_steps() -> Seq<Step> {
    seq![
        Step::Zoom(ZoomMode::Normal, 2002, false),
        Step::Zoom(ZoomMode::Normal, 2003, false),
        Step::Zoom(ZoomMode::Normal, 1000, false),
        Step::Zoom(ZoomMode::Normal, 1001, false),
    ]
}

/// The zooms of the biome layers, without the layers between them.
pub fn make_checker_biome_steps() -> (v: Vec<Step>)
    ensures
        v@ == checker_biome_steps(),
{
    let v = vec![
        Step::Zoom(ZoomMode::Normal, 2002, false),
        Step::Zoom(ZoomMode::Normal, 2003, false),
        Step::Zoom(ZoomMode::Normal, 1000, false),
        Step::Zoom(ZoomMode::Normal, 1001, false),
    ];
    assert(v@ =~= checker_biome_steps());
    v
}

/// The zooms above the hills layer, without the layers between them, and the smoothing.
pub open spec fn checker_upper_steps() -> Seq<Step> {
    seq![
        Step::Zoom(ZoomMode::Normal, 1000, true),
        Step::Zoom(ZoomMode::Normal, 1001, true),
        Step::Zoom(ZoomMode::Normal, 1000, false),
        Step::Zoom(ZoomMode::Normal, 1001, false),
        Step::Zoom(ZoomMode::Normal, 1002, false),
        Step::Zoom(ZoomMode::Normal, 1003, false),
        Step::Stencil(StencilKind::Smooth, 1000),
    ]
}

/// The zooms above the hills layer, without the layers between them, and the smoothing.
pub fn make_checker_upper_steps() -> (v: Vec<Step>)
    ensures
        v@ == checker_upper_steps(),
{
    let v = vec![
        Step::Zoom(ZoomMode::Normal, 1000, true),
        Step::Zoom(ZoomMode::Normal, 1001, true),
        Step::Zoom(ZoomMode::Normal, 1000, false),
        Step::Zoom(ZoomMode::Normal, 1001, false),
        Step::Zoom(ZoomMode::Normal, 1002, false),
        Step::Zoom(ZoomMode::Normal, 1003, false),
        Step::Stencil(StencilKind::Smooth, 1000),
    ];
    assert(v@ =~= checker_upper_steps());
    v
}

/// Whether the version has bamboo jungles.
pub open spec fn has_bamboo(v: MinecraftVersion) -> bool {
    v == MinecraftVersion::Java1_14 || v == MinecraftVersion::Java1_15
}

/// The island layer of a world seed.
pub open spec fn island(seed: i64) -> Layer {
    Layer::Island(McRng::seeded(1, seed))
}

/// Layer `n` of every version, up to 17.
pub open spec fn land(seed: i64, n: nat) -> Layer {
    chained(land_steps(), n, seed, island(seed))
}

/// Layer 18: the biomes, with bamboo as of version 1.14.
pub open spec fn biomes(v: MinecraftVersion, seed: i64) -> Layer {
    let g18 = Layer::Point(PointKind::Biome, McRng::seeded(200, seed), Box::new(land(seed, 17)));
    if has_bamboo(v) {
        Layer::Point(PointKind::AddBamboo, McRng::seeded(1001, seed), Box::new(g18))
    } else {
        g18
    }
}

/// Layer `18 + n`, up to 21.
pub open spec fn biome_chain(v: MinecraftVersion, seed: i64, n: nat) -> Layer {
    chained(biome_steps(), n, seed, biomes(v, seed))
}

/// Layer 22: the river seeds.
pub open spec fn river_seeds(seed: i64) -> Layer {
    Layer::Point(PointKind::RiverInit, McRng::seeded(100, seed), Box::new(land(seed, 17)))
}

/// Layer `22 + n`, up to 24, as the hills layer reads it.
pub open spec fn hill_seeds(v: MinecraftVersion, seed: i64, n: nat) -> Layer {
    chained(
        if v == MinecraftVersion::Java1_7 {
            old_hill_steps()
        } else {
            hill_steps()
        },
        n,
        seed,
        river_seeds(seed),
    )
}

/// Layer 25: the hills.
pub open spec fn hills(v: MinecraftVersion, seed: i64) -> Layer {
    Layer::Hills(
        McRng::seeded(1000, seed),
        Box::new(biome_chain(v, seed, 3)),
        Box::new(hill_seeds(v, seed, 2)),
    )
}

/// Layer `25 + n`, up to 33.
pub open spec fn upper(v: MinecraftVersion, seed: i64, n: nat) -> Layer {
    chained(upper_steps(), n, seed, hills(v, seed))
}

/// Layer `33 + n`, up to 41, as the layers above read it.
pub open spec fn rivers(seed: i64, n: nat) -> Layer {
    chained(river_steps(), n, seed, river_seeds(seed))
}

/// Layer 42: the river mix.
pub open spec fn river_mix(v: MinecraftVersion, seed: i64) -> Layer {
    Layer::RiverMix(Box::new(upper(v, seed, 8)), Box::new(rivers(seed, 8)))
}

/// Layer `43 + n` of the versions with ocean temperatures, up to 49.
pub open spec fn oceans(seed: i64, n: nat) -> Layer {
    chained(ocean_steps(), n, seed, Layer::OceanTemp(seed))
}

/// Layer 50 of the versions with ocean temperatures: the ocean mix.
pub open spec fn ocean_mix(v: MinecraftVersion, seed: i64) -> Layer {
    Layer::OceanMix(Box::new(river_mix(v, seed)), Box::new(oceans(seed, 6)))
}

/// The last layer of a version.
pub open spec fn last_layer(v: MinecraftVersion, seed: i64) -> Layer {
    match v {
        MinecraftVersion::Java1_7 => Layer::Voronoi(
            Jitter::Seeded(McRng::seeded(10, seed)),
            Box::new(river_mix(v, seed)),
        ),
        MinecraftVersion::Java1_15 => Layer::Voronoi(
            Jitter::Hashed(sha256_first_long(seed)),
            Box::new(ocean_mix(v, seed)),
        ),
        _ => Layer::Voronoi(Jitter::Seeded(McRng::seeded(10, seed)), Box::new(ocean_mix(v, seed))),
    }
}

/// A layer through a function on its values, which has no seed.
pub open spec fn mapped(kind: PointKind, l: Layer) -> Layer {
    Layer::Point(kind, McRng::seeded_without_world(0), Box::new(l))
}

/// The layer with the number `layer` of a version, for a world seed; the
/// last layer for a number beyond it. The layers 23 and 24 show the
/// classes that the hills layer tells apart, the layers 34 to 39 the
/// classes that the river layer tells apart.
pub open spec fn pipeline(v: MinecraftVersion, seed: i64, layer: u32) -> Layer {
    if layer <= 17 {
        land(seed, layer as nat)
    } else if layer == 18 {
        biomes(v, seed)
    } else if layer <= 21 {
        biome_chain(v, seed, (layer - 18) as nat)
    } else if layer == 22 {
        river_seeds(seed)
    } else if layer <= 24 {
        mapped(PointKind::PrettyHills, hill_seeds(v, seed, (layer - 22) as nat))
    } else if layer == 25 {
        hills(v, seed)
    } else if layer <= 33 {
        upper(v, seed, (layer - 25) as nat)
    } else if layer <= 39 {
        mapped(PointKind::ReduceId, rivers(seed, (layer - 33) as nat))
    } else if layer <= 41 {
        rivers(seed, (layer - 33) as nat)
    } else if layer == 42 {
        river_mix(v, seed)
    } else if v == MinecraftVersion::Java1_7 {
        last_layer(v, seed)
    } else if layer == 43 {
        Layer::OceanTemp(seed)
    } else if layer <= 49 {
        oceans(seed, (layer - 43) as nat)
    } else if layer == 50 {
        ocean_mix(v, seed)
    } else {
        last_layer(v, seed)
    }
}

/// The layers that the numbers from 100 on stand for: parts of the graph
/// over a source of checkers, for the study of the rivers.
pub open spec fn extra_pipeline(seed: i64, layer: u32) -> Layer {
    if layer == 122 {
        Layer::Checkers
    } else if 134 <= layer <= 141 {
        chained(edge_steps(), (layer - 133) as nat, seed, Layer::Checkers)
    } else if layer <= 112 {
        Layer::Checkers
    } else if layer <= 114 {
        chained(checker_biome_steps(), (layer - 112) as nat, seed, Layer::Checkers)
    } else if layer <= 119 {
        chained(checker_biome_steps(), 3, seed, Layer::Checkers)
    } else if layer == 120 {
        chained(checker_biome_steps(), 4, seed, Layer::Checkers)
    } else if layer == 123 || layer == 124 {
        chained(checker_upper_steps(), (layer - 122) as nat, seed, Layer::Checkers)
    } else if layer == 127 {
        chained(checker_upper_steps(), 3, seed, Layer::Checkers)
    } else if layer == 129 {
        chained(checker_upper_steps(), 4, seed, Layer::Checkers)
    } else if layer == 131 || layer == 132 || layer == 133 {
        chained(checker_upper_steps(), (layer - 126) as nat, seed, Layer::Checkers)
    } else if layer == 142 {
        extra_river_mix(seed)
    } else if layer == 143 {
        Layer::Voronoi(Jitter::Seeded(McRng::seeded(10, seed)), Box::new(extra_river_mix(seed)))
    } else {
        Layer::Zero
    }
}

/// The river mix over a source of checkers.
pub open spec fn extra_river_mix(seed: i64) -> Layer {
    Layer::RiverMix(
        Box::new(chained(checker_upper_steps(), 7, seed, Layer::Checkers)),
        Box::new(chained(edge_steps(), 8, seed, Layer::Checkers)),
    )
}

/// The layers that the numbers from 200 on stand for: the river layers
/// with zooms that keep every edge, over a source of checkers.
pub open spec fn extra_pipeline_2(seed: i64, layer: u32) -> Layer {
    if layer == 222 {
        Layer::Checkers
    } else if 234 <= layer <= 241 {
        chained(all_edge_steps(), (layer - 233) as nat, seed, Layer::Checkers)
    } else {
        Layer::Zero
    }
}

/// The layer that a number stands for in a version.
pub open spec fn world_layer(v: MinecraftVersion, seed: i64, layer: u32) -> Layer {
    if v == MinecraftVersion::Java1_7 {
        if layer >= 200 {
            extra_pipeline_2(seed, layer)
        } else if layer >= 100 {
            extra_pipeline(seed, layer)
        } else {
            pipeline(v, seed, layer)
        }
    } else {
        if 100 <= layer <= 142 {
            extra_pipeline(seed, layer)
        } else {
            pipeline(v, seed, layer)
        }
    }
}

/// The layers of a world up to the river mix are the same for a world
/// seed and for the seed that adds up with it to the constant.
pub proof fn lemma_river_mix_alike(v: MinecraftVersion, seed: i64)
    ensures
        forall|n: nat| land(similar_seed(seed), n) == land(seed, n),
        biomes(v, similar_seed(seed)) == biomes(v, seed),
        forall|n: nat| biome_chain(v, similar_seed(seed), n) == biome_chain(v, seed, n),
        river_seeds(similar_seed(seed)) == river_seeds(seed),
        forall|n: nat| hill_seeds(v, similar_seed(seed), n) == hill_seeds(v, seed, n),
        hills(v, similar_seed(seed)) == hills(v, seed),
        forall|n: nat| upper(v, similar_seed(seed), n) == upper(v, seed, n),
        forall|n: nat| rivers(similar_seed(seed), n) == rivers(seed, n),
        river_mix(v, similar_seed(seed)) == river_mix(v, seed),
{
    let t = similar_seed(seed);
    McRng::lemma_seeded_alike(1, seed);
    McRng::lemma_seeded_alike(200, seed);
    McRng::lemma_seeded_alike(1001, seed);
    McRng::lemma_seeded_alike(100, seed);
    McRng::lemma_seeded_alike(1000, seed);
    assert(island(t) == island(seed));
    assert forall|n: nat| land(t, n) == land(seed, n) by {
        lemma_chained_alike(land_steps(), n, seed, island(seed));
    }
    assert(biomes(v, t) == biomes(v, seed));
    assert forall|n: nat| biome_chain(v, t, n) == biome_chain(v, seed, n) by {
        lemma_chained_alike(biome_steps(), n, seed, biomes(v, seed));
    }
    assert(river_seeds(t) == river_seeds(seed));
    assert forall|n: nat| hill_seeds(v, t, n) == hill_seeds(v, seed, n) by {
        lemma_chained_alike(old_hill_steps(), n, seed, river_seeds(seed));
        lemma_chained_alike(hill_steps(), n, seed, river_seeds(seed));
    }
    assert(hills(v, t) == hills(v, seed));
    assert forall|n: nat| upper(v, t, n) == upper(v, seed, n) by {
        lemma_chained_alike(upper_steps(), n, seed, hills(v, seed));
    }
    assert forall|n: nat| rivers(t, n) == rivers(seed, n) by {
        lemma_chained_alike(river_steps(), n, seed, river_seeds(seed));
    }
}

/// In the versions without ocean temperatures, two world seeds that add
/// up to the constant have the same layers, and so the same maps.
pub proof fn lemma_world_of_twins(seed: i64, layer: u32)
    ensures
        world_layer(MinecraftVersion::Java1_7, similar_seed(seed), layer) == world_layer(
            MinecraftVersion::Java1_7,
            seed,
            layer,
        ),
{
    let v = MinecraftVersion::Java1_7;
    lemma_river_mix_alike(v, seed);
    McRng::lemma_seeded_alike(10, seed);
    lemma_chained_alike(all_edge_steps(), (layer - 233) as nat, seed, Layer::Checkers);
    lemma_chained_alike(edge_steps(), (layer - 133) as nat, seed, Layer::Checkers);
    lemma_chained_alike(edge_steps(), 8, seed, Layer::Checkers);
    lemma_chained_alike(checker_biome_steps(), (layer - 112) as nat, seed, Layer::Checkers);
    lemma_chained_alike(checker_biome_steps(), 3, seed, Layer::Checkers);
    lemma_chained_alike(checker_biome_steps(), 4, seed, Layer::Checkers);
    lemma_chained_alike(checker_upper_steps(), (layer - 122) as nat, seed, Layer::Checkers);
    lemma_chained_alike(checker_upper_steps(), 3, seed, Layer::Checkers);
    lemma_chained_alike(checker_upper_steps(), 4, seed, Layer::Checkers);
    lemma_chained_alike(checker_upper_steps(), 7, seed, Layer::Checkers);
    lemma_chained_alike(checker_upper_steps(), (layer - 126) as nat, seed, Layer::Checkers);
}

/// No graph of a version is deeper than 40 layers.
pub proof fn lemma_pipeline_depth(v: MinecraftVersion, seed: i64, layer: u32)
    ensures
        world_layer(v, seed, layer).depth() <= 40,
        pipeline(v, seed, layer).depth() <= 40,
        extra_pipeline(seed, layer).depth() <= 40,
        extra_pipeline_2(seed, layer).depth() <= 40,
{
    reveal_with_fuel(Layer::depth, 4);
    lemma_upper_depth(v, seed);
    lemma_chained_depth(river_steps(), 8, seed, river_seeds(seed));
    lemma_chained_depth(ocean_steps(), 6, seed, Layer::OceanTemp(seed));
    assert(river_mix(v, seed).depth() <= 33);
    assert(ocean_mix(v, seed).depth() <= 34);
    assert(last_layer(v, seed).depth() <= 35);
    assert(pipeline(v, seed, layer).depth() <= 40) by {
        lemma_pipeline_part_depth(v, seed, layer);
    }
    assert(extra_pipeline(seed, layer).depth() <= 40) by {
        lemma_extra_depth(seed, layer);
    }
    assert(extra_pipeline_2(seed, layer).depth() <= 40) by {
        if 234 <= layer <= 241 {
            lemma_chained_depth(all_edge_steps(), (layer - 233) as nat, seed, Layer::Checkers);
        }
    }
}

/// The depth of the layers up to the smoothing of the biomes.
pub proof fn lemma_upper_depth(v: MinecraftVersion, seed: i64)
    ensures
        land(seed, 17).depth() == 18,
        biomes(v, seed).depth() <= 20,
        biome_chain(v, seed, 3).depth() <= 23,
        river_seeds(seed).depth() == 19,
        hill_seeds(v, seed, 2).depth() == 21,
        hills(v, seed).depth() <= 24,
        upper(v, seed, 8).depth() <= 32,
{
    reveal_with_fuel(Layer::depth, 4);
    lemma_chained_depth(land_steps(), 17, seed, island(seed));
    lemma_chained_depth(biome_steps(), 3, seed, biomes(v, seed));
    lemma_chained_depth(old_hill_steps(), 2, seed, river_seeds(seed));
    lemma_chained_depth(hill_steps(), 2, seed, river_seeds(seed));
    lemma_chained_depth(upper_steps(), 8, seed, hills(v, seed));
}

/// The depth of the layers of a version.
pub proof fn lemma_pipeline_part_depth(v: MinecraftVersion, seed: i64, layer: u32)
    ensures
        pipeline(v, seed, layer).depth() <= 40,
{
    reveal_with_fuel(Layer::depth, 4);
    lemma_upper_depth(v, seed);
    lemma_chained_depth(river_steps(), 8, seed, river_seeds(seed));
    lemma_chained_depth(ocean_steps(), 6, seed, Layer::OceanTemp(seed));
    if layer <= 17 {
        lemma_chained_depth(land_steps(), layer as nat, seed, island(seed));
    } else if layer == 18 {
    } else if layer <= 21 {
        lemma_chained_depth(biome_steps(), (layer - 18) as nat, seed, biomes(v, seed));
    } else if layer == 22 {
    } else if layer <= 24 {
        lemma_chained_depth(old_hill_steps(), (layer - 22) as nat, seed, river_seeds(seed));
        lemma_chained_depth(hill_steps(), (layer - 22) as nat, seed, river_seeds(seed));
    } else if layer == 25 {
    } else if layer <= 33 {
        lemma_chained_depth(upper_steps(), (layer - 25) as nat, seed, hills(v, seed));
    } else if layer <= 41 {
        lemma_chained_depth(river_steps(), (layer - 33) as nat, seed, river_seeds(seed));
    } else if layer == 42 {
    } else if v == MinecraftVersion::Java1_7 {
    } else if layer == 43 {
    } else if layer <= 49 {
        lemma_chained_depth(ocean_steps(), (layer - 43) as nat, seed, Layer::OceanTemp(seed));
    } else {
    }
}

/// The depth of the layers over checkers.
pub proof fn lemma_extra_depth(seed: i64, layer: u32)
    ensures
        extra_pipeline(seed, layer).depth() <= 40,
{
    reveal_with_fuel(Layer::depth, 4);
    lemma_chained_depth(checker_upper_steps(), 7, seed, Layer::Checkers);
    lemma_chained_depth(edge_steps(), 8, seed, Layer::Checkers);
    if 134 <= layer <= 141 {
        lemma_chained_depth(edge_steps(), (layer - 133) as nat, seed, Layer::Checkers);
    } else if 113 <= layer <= 114 {
        lemma_chained_depth(checker_biome_steps(), (layer - 112) as nat, seed, Layer::Checkers);
    } else if layer <= 119 {
        lemma_chained_depth(checker_biome_steps(), 3, seed, Layer::Checkers);
    } else if layer == 120 {
        lemma_chained_depth(checker_biome_steps(), 4, seed, Layer::Checkers);
    } else if layer == 123 || layer == 124 {
        lemma_chained_depth(checker_upper_steps(), (layer - 122) as nat, seed, Layer::Checkers);
    } else if layer == 127 {
        lemma_chained_depth(checker_upper_steps(), 3, seed, Layer::Checkers);
    } else if layer == 129 {
        lemma_chained_depth(checker_upper_steps(), 4, seed, Layer::Checkers);
    } else if layer == 131 || layer == 132 || layer == 133 {
        lemma_chained_depth(checker_upper_steps(), (layer - 126) as nat, seed, Layer::Checkers);
    }
}

fn make_land(seed: i64, n: usize) -> (l: Layer)
    requires
        n <= 17,
    ensures
        l == land(seed, n as nat),
{
    let steps = make_land_steps();
    chain(&steps, n, seed, Layer::Island(McRng::new(1, seed)))
}

fn make_biomes(v: MinecraftVersion, seed: i64) -> (l: Layer)
    ensures
        l == biomes(v, seed),
{
    let g18 = Layer::Point(PointKind::Biome, McRng::new(200, seed), Box::new(make_land(seed, 17)));
    match v {
        MinecraftVersion::Java1_14 | MinecraftVersion::Java1_15 => Layer::Point(
            PointKind::AddBamboo,
            McRng::new(1001, seed),
            Box::new(g18),
        ),
        _ => g18,
    }
}

fn make_biome_chain(v: MinecraftVersion, seed: i64, n: usize) -> (l: Layer)
    requires
        n <= 3,
    ensures
        l == biome_chain(v, seed, n as nat),
{
    let steps = make_biome_steps();
    chain(&steps, n, seed, make_biomes(v, seed))
}

fn make_river_seeds(seed: i64) -> (l: Layer)
    ensures
        l == river_seeds(seed),
{
    Layer::Point(PointKind::RiverInit, McRng::new(100, seed), Box::new(make_land(seed, 17)))
}

fn make_hill_seeds(v: MinecraftVersion, seed: i64, n: usize) -> (l: Layer)
    requires
        n <= 2,
    ensures
        l == hill_seeds(v, seed, n as nat),
{
    let steps = match v {
        MinecraftVersion::Java1_7 => make_old_hill_steps(),
        _ => make_hill_steps(),
    };
    chain(&steps, n, seed, make_river_seeds(seed))
}

fn make_hills(v: MinecraftVersion, seed: i64) -> (l: Layer)
    ensures
        l == hills(v, seed),
{
    Layer::Hills(
        McRng::new(1000, seed),
        Box::new(make_biome_chain(v, seed, 3)),
        Box::new(make_hill_seeds(v, seed, 2)),
    )
}

fn make_upper(v: MinecraftVersion, seed: i64, n: usize) -> (l: Layer)
    requires
        n <= 8,
    ensures
        l == upper(v, seed, n as nat),
{
    let steps = make_upper_steps();
    chain(&steps, n, seed, make_hills(v, seed))
}

fn make_rivers(seed: i64, n: usize) -> (l: Layer)
    requires
        n <= 8,
    ensures
        l == rivers(seed, n as nat),
{
    let steps = make_river_steps();
    chain(&steps, n, seed, make_river_seeds(seed))
}

fn make_river_mix(v: MinecraftVersion, seed: i64) -> (l: Layer)
    ensures
        l == river_mix(v, seed),
{
    Layer::RiverMix(Box::new(make_upper(v, seed, 8)), Box::new(make_rivers(seed, 8)))
}

fn make_oceans(seed: i64, n: usize) -> (l: Layer)
    requires
        n <= 6,
    ensures
        l == oceans(seed, n as nat),
{
    let steps = make_ocean_steps();
    chain(&steps, n, seed, Layer::OceanTemp(seed))
}

fn make_ocean_mix(v: MinecraftVersion, seed: i64) -> (l: Layer)
    ensures
        l == ocean_mix(v, seed),
{
    Layer::OceanMix(Box::new(make_river_mix(v, seed)), Box::new(make_oceans(seed, 6)))
}

fn make_last_layer(v: MinecraftVersion, seed: i64) -> (l: Layer)
    ensures
        l == last_layer(v, seed),
{
    match v {
        MinecraftVersion::Java1_7 => Layer::Voronoi(
            Jitter::Seeded(McRng::new(10, seed)),
            Box::new(make_river_mix(v, seed)),
        ),
        MinecraftVersion::Java1_15 => Layer::Voronoi(
            Jitter::Hashed(sha256_long_to_long(seed)),
            Box::new(make_ocean_mix(v, seed)),
        ),
        _ => Layer::Voronoi(
            Jitter::Seeded(McRng::new(10, seed)),
            Box::new(make_ocean_mix(v, seed)),
        ),
    }
}

fn make_mapped(kind: PointKind, l: Layer) -> (m: Layer)
    ensures
        m == mapped(kind, l),
{
    Layer::Point(kind, McRng::with_base_seed(0), Box::new(l))
}

/// The layer with the number `layer` of a version, for a world seed.
pub fn generator_up_to_layer(v: MinecraftVersion, world_seed: i64, layer: u32) -> (l: Layer)
    ensures
        l == pipeline(v, world_seed, layer),
{
    if layer <= 17 {
        make_land(world_seed, layer as usize)
    } else if layer == 18 {
        make_biomes(v, world_seed)
    } else if layer <= 21 {
        make_biome_chain(v, world_seed, (layer - 18) as usize)
    } else if layer == 22 {
        make_river_seeds(world_seed)
    } else if layer <= 24 {
        make_mapped(PointKind::PrettyHills, make_hill_seeds(v, world_seed, (layer - 22) as usize))
    } else if layer == 25 {
        make_hills(v, world_seed)
    } else if layer <= 33 {
        make_upper(v, world_seed, (layer - 25) as usize)
    } else if layer <= 39 {
        make_mapped(PointKind::ReduceId, make_rivers(world_seed, (layer - 33) as usize))
    } else if layer <= 41 {
        make_rivers(world_seed, (layer - 33) as usize)
    } else if layer == 42 {
        make_river_mix(v, world_seed)
    } else {
        match v {
            MinecraftVersion::Java1_7 => make_last_layer(v, world_seed),
            _ => {
                if layer == 43 {
                    Layer::OceanTemp(world_seed)
                } else if layer <= 49 {
                    make_oceans(world_seed, (layer - 43) as usize)
                } else if layer == 50 {
                    make_ocean_mix(v, world_seed)
                } else {
                    make_last_layer(v, world_seed)
                }
            },
        }
    }
}

pub fn generator_up_to_layer_1_7(world_seed: i64, layer: u32) -> (l: Layer)
    ensures
        l == pipeline(MinecraftVersion::Java1_7, world_seed, layer),
{
    generator_up_to_layer(MinecraftVersion::Java1_7, world_seed, layer)
}

pub fn generator_up_to_layer_1_13(world_seed: i64, layer: u32) -> (l: Layer)
    ensures
        l == pipeline(MinecraftVersion::Java1_13, world_seed, layer),
{
    generator_up_to_layer(MinecraftVersion::Java1_13, world_seed, layer)
}

pub fn generator_up_to_layer_1_14(world_seed: i64, layer: u32) -> (l: Layer)
    ensures
        l == pipeline(MinecraftVersion::Java1_14, world_seed, layer),
{
    generator_up_to_layer(MinecraftVersion::Java1_14, world_seed, layer)
}

pub fn generator_up_to_layer_1_15(world_seed: i64, layer: u32) -> (l: Layer)
    ensures
        l == pipeline(MinecraftVersion::Java1_15, world_seed, layer),
{
    generator_up_to_layer(MinecraftVersion::Java1_15, world_seed, layer)
}

fn make_extra_river_mix(seed: i64) -> (l: Layer)
    ensures
        l == extra_river_mix(seed),
{
    let upper_steps = make_checker_upper_steps();
    let edge_steps = make_edge_steps();
    Layer::RiverMix(
        Box::new(chain(&upper_steps, 7, seed, Layer::Checkers)),
        Box::new(chain(&edge_steps, 8, seed, Layer::Checkers)),
    )
}

fn make_extra(seed: i64, layer: u32) -> (l: Layer)
    ensures
        l == extra_pipeline(seed, layer),
{
    if layer == 122 {
        Layer::Checkers
    } else if 134 <= layer && layer <= 141 {
        let steps = make_edge_steps();
        chain(&steps, (layer - 133) as usize, seed, Layer::Checkers)
    } else if layer <= 112 {
        Layer::Checkers
    } else if layer <= 114 {
        let steps = make_checker_biome_steps();
        chain(&steps, (layer - 112) as usize, seed, Layer::Checkers)
    } else if layer <= 119 {
        let steps = make_checker_biome_steps();
        chain(&steps, 3, seed, Layer::Checkers)
    } else if layer == 120 {
        let steps = make_checker_biome_steps();
        chain(&steps, 4, seed, Layer::Checkers)
    } else if layer == 123 || layer == 124 {
        let steps = make_checker_upper_steps();
        chain(&steps, (layer - 122) as usize, seed, Layer::Checkers)
    } else if layer == 127 {
        let steps = make_checker_upper_steps();
        chain(&steps, 3, seed, Layer::Checkers)
    } else if layer == 129 {
        let steps = make_checker_upper_steps();
        chain(&steps, 4, seed, Layer::Checkers)
    } else if layer == 131 || layer == 132 || layer == 133 {
        let steps = make_checker_upper_steps();
        chain(&steps, (layer - 126) as usize, seed, Layer::Checkers)
    } else if layer == 142 {
        make_extra_river_mix(seed)
    } else if layer == 143 {
        Layer::Voronoi(Jitter::Seeded(McRng::new(10, seed)), Box::new(make_extra_river_mix(seed)))
    } else {
        Layer::Zero
    }
}

fn make_extra_2(seed: i64, layer: u32) -> (l: Layer)
    ensures
        l == extra_pipeline_2(seed, layer),
{
    if layer == 222 {
        Layer::Checkers
    } else if 234 <= layer && layer <= 241 {
        let steps = make_all_edge_steps();
        chain(&steps, (layer - 233) as usize, seed, Layer::Checkers)
    } else {
        Layer::Zero
    }
}

/// The largest number of layers on a way down that `area_ok` is asked to
/// leave room for by the functions that make maps of whole graphs.
pub open spec fn depth_limit() -> nat {
    64
}

pub fn generate_up_to_layer_1_7_extra_2(a: Area, world_seed: i64, layer: u32) -> (m: BiomeMap)
    requires
        area_ok(a, depth_limit()),
    ensures
        extra_pipeline_2(world_seed, layer).shown_by(&m, a),
{
    let l = make_extra_2(world_seed, layer);
    proof {
        lemma_pipeline_depth(MinecraftVersion::Java1_7, world_seed, layer);
        lemma_area_ok_less(a, depth_limit(), l.depth());
    }
    l.get_map(a)
}

pub fn generate_up_to_layer_1_7_extra(a: Area, world_seed: i64, layer: u32) -> (m: BiomeMap)
    requires
        area_ok(a, depth_limit()),
    ensures
        extra_pipeline(world_seed, layer).shown_by(&m, a),
{
    let l = make_extra(world_seed, layer);
    proof {
        lemma_pipeline_depth(MinecraftVersion::Java1_7, world_seed, layer);
        lemma_area_ok_less(a, depth_limit(), l.depth());
    }
    l.get_map(a)
}

/// The map of the layer that a number stands for in a version, over an
/// area.
pub fn generate_up_to_layer(version: MinecraftVersion, area: Area, seed: i64, num_layers: u32) -> (m:
    BiomeMap)
    requires
        area_ok(area, depth_limit()),
    ensures
        world_layer(version, seed, num_layers).shown_by(&m, area),
{
    let extra = match version {
        MinecraftVersion::Java1_7 => num_layers >= 100,
        _ => 100 <= num_layers && num_layers <= 142,
    };
    if extra {
        if num_layers >= 200 {
            generate_up_to_layer_1_7_extra_2(area, seed, num_layers)
        } else {
            generate_up_to_layer_1_7_extra(area, seed, num_layers)
        }
    } else {
        let l = generator_up_to_layer(version, seed, num_layers);
        proof {
            lemma_pipeline_depth(version, seed, num_layers);
            lemma_area_ok_less(area, depth_limit(), l.depth());
        }
        l.get_map(area)
    }
}

pub fn generate_up_to_layer_1_7(a: Area, world_seed: i64, layer: u32) -> (m: BiomeMap)
    requires
        area_ok(a, depth_limit()),
    ensures
        world_layer(MinecraftVersion::Java1_7, world_seed, layer).shown_by(&m, a),
{
    generate_up_to_layer(MinecraftVersion::Java1_7, a, world_seed, layer)
}

pub fn generate_up_to_layer_1_13(a: Area, world_seed: i64, layer: u32) -> (m: BiomeMap)
    requires
        area_ok(a, depth_limit()),
    ensures
        world_layer(MinecraftVersion::Java1_13, world_seed, layer).shown_by(&m, a),
{
    generate_up_to_layer(MinecraftVersion::Java1_13, a, world_seed, layer)
}

pub fn generate_up_to_layer_1_14(a: Area, world_seed: i64, layer: u32) -> (m: BiomeMap)
    requires
        area_ok(a, depth_limit()),
    ensures
        world_layer(MinecraftVersion::Java1_14, world_seed, layer).shown_by(&m, a),
{
    generate_up_to_layer(MinecraftVersion::Java1_14, a, world_seed, layer)
}

pub fn generate_up_to_layer_1_15(a: Area, world_seed: i64, layer: u32) -> (m: BiomeMap)
    requires
        area_ok(a, depth_limit()),
    ensures
        world_layer(MinecraftVersion::Java1_15, world_seed, layer).shown_by(&m, a),
{
    generate_up_to_layer(MinecraftVersion::Java1_15, a, world_seed, layer)
}

/// The biome map of a world over an area: the map of the last layer of the
/// version. It covers the area exactly.
pub fn generate(version: MinecraftVersion, a: Area, world_seed: i64) -> (m: BiomeMap)
    requires
        area_ok(a, depth_limit()),
    ensures
        world_layer(version, world_seed, version.layers()).shown_by(&m, a),
        m.region() == a,
{
    let num_layers = version.num_layers();
    generate_up_to_layer(version, a, world_seed, num_layers)
}

/// Two maps of one layer agree wherever both have a cell.
pub proof fn lemma_maps_agree(l: Layer, m1: BiomeMap, a1: Area, m2: BiomeMap, a2: Area, x: int, z: int)
    requires
        l.shown_by(&m1, a1),
        l.shown_by(&m2, a2),
        a1.has(x, z),
        a2.has(x, z),
    ensures
        m1.cell(x, z) == m2.cell(x, z),
{
    assert(m1.cell_at(x - a1.x, z - a1.z) == l.cell(a1.x + (x - a1.x), a1.z + (z - a1.z)));
    assert(m2.cell_at(x - a2.x, z - a2.z) == l.cell(a2.x + (x - a2.x), a2.z + (z - a2.z)));
}

/// The maps that `generate` makes of one world over two areas agree on
/// every cell that lies in both.
pub proof fn lemma_generate_agrees(
    version: MinecraftVersion,
    seed: i64,
    m1: BiomeMap,
    a1: Area,
    m2: BiomeMap,
    a2: Area,
    x: int,
    z: int,
)
    requires
        world_layer(version, seed, version.layers()).shown_by(&m1, a1),
        world_layer(version, seed, version.layers()).shown_by(&m2, a2),
        a1.has(x, z),
        a2.has(x, z),
    ensures
        m1.cell(x, z) == m2.cell(x, z),
{
    lemma_maps_agree(world_layer(version, seed, version.layers()), m1, a1, m2, a2, x, z);
}

} // verus!
