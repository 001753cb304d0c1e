//! The layers by name: each holds its seeds, makes its map from the map
//! below it, and takes its place in a graph of layers over the layers
//! below it.

use vstd::prelude::*;
use crate::biome_layers::cells::ZoomMode;
use crate::biome_layers::grid::cells_fit;
use crate::biome_layers::layers::{area_ok, ocean_temp_map, Layer};
use crate::biome_layers::transforms::{
    apply_hills, apply_ocean_mix, apply_pointwise, apply_river_mix, apply_stencil, apply_zoom,
    ocean_mix_at, point_value, stencil_at, stencil_value, zoom_value, PointKind, StencilKind,
};
use crate::biome_layers::cells::{hills_value, river_mix_value};
use crate::biome_layers::voronoi::{
    apply_half_voronoi, apply_voronoi, half_voronoi_value, voronoi_value, Jitter,
};
use crate::biome_layers::voronoi115::{sha256_first_long, sha256_long_to_long};
use crate::noise_generator::{noise_of, ocean_class, NoiseGeneratorPerlin};
use crate::biome_layers::{coord_limit, Area, BiomeMap};
use crate::mc_rng::McRng;

verus! {

/// An island layer: land grows into the ocean beside it, and shrinks.
pub struct MapAddIsland {
    pub base_seed: i64,
    pub world_seed: i64,
}

impl MapAddIsland {
    pub fn new(base_seed: i64, world_seed: i64) -> (l: Self)
        ensures
            l.base_seed == base_seed,
            l.world_seed == world_seed,
    {
        Self { base_seed, world_seed }
    }

    /// The map of the layer, from a map of the layer below that reaches
    /// one cell further on every side.
    pub fn get_map_from_pmap(&self, pmap: &BiomeMap) -> (m: BiomeMap)
        requires
            pmap.wf(),
            pmap.w() >= 2,
            pmap.h() >= 2,
            pmap.within(coord_limit()),
        ensures
            m.wf(),
            m.x == pmap.x + 1,
            m.z == pmap.z + 1,
            m.w() == pmap.w() - 2,
            m.h() == pmap.h() - 2,
            forall|i: int, j: int|
                0 <= i < m.w() && 0 <= j < m.h() ==> #[trigger] m.cell_at(i, j) == stencil_value(
                    StencilKind::AddIsland,
                    McRng::seeded(self.base_seed, self.world_seed).world(),
                    (m.x + i) as i64,
                    (m.z + j) as i64,
                    stencil_at(pmap, i, j),
                ),
    {
        apply_stencil(StencilKind::AddIsland, McRng::new(self.base_seed, self.world_seed), pmap)
    }

    /// The layer over the layer below it.
    pub fn over(self, parent: Layer) -> (l: Layer)
        ensures
            l == Layer::Stencil(
                StencilKind::AddIsland,
                McRng::seeded(self.base_seed, self.world_seed),
                Box::new(parent),
            ),
    {
        Layer::Stencil(
            StencilKind::AddIsland,
            McRng::new(self.base_seed, self.world_seed),
            Box::new(parent),
        )
    }
}

/// Land in half of the cells that lie in open ocean.
pub struct MapRemoveTooMuchOcean {
    pub base_seed: i64,
    pub world_seed: i64,
}

impl MapRemoveTooMuchOcean {
    pub fn new(base_seed: i64, world_seed: i64) -> (l: Self)
        ensures
            l.base_seed == base_seed,
            l.world_seed == world_seed,
    {
        Self { base_seed, world_seed }
    }

    /// The map of the layer, from a map of the layer below that reaches
    /// one cell further on every side.
    pub fn get_map_from_pmap(&self, pmap: &BiomeMap) -> (m: BiomeMap)
        requires
            pmap.wf(),
            pmap.w() >= 2,
            pmap.h() >= 2,
            pmap.within(coord_limit()),
        ensures
            m.wf(),
            m.x == pmap.x + 1,
            m.z == pmap.z + 1,
            m.w() == pmap.w() - 2,
            m.h() == pmap.h() - 2,
            forall|i: int, j: int|
                0 <= i < m.w() && 0 <= j < m.h() ==> #[trigger] m.cell_at(i, j) == stencil_value(
                    StencilKind::RemoveTooMuchOcean,
                    McRng::seeded(self.base_seed, self.world_seed).world(),
                    (m.x + i) as i64,
                    (m.z + j) as i64,
                    stencil_at(pmap, i, j),
                ),
    {
        apply_stencil(StencilKind::RemoveTooMuchOcean, McRng::new(self.base_seed, self.world_seed), pmap)
    }

    /// The layer over the layer below it.
    pub fn over(self, parent: Layer) -> (l: Layer)
        ensures
            l == Layer::Stencil(
                StencilKind::RemoveTooMuchOcean,
                McRng::seeded(self.base_seed, self.world_seed),
                Box::new(parent),
            ),
    {
        Layer::Stencil(
            StencilKind::RemoveTooMuchOcean,
            McRng::new(self.base_seed, self.world_seed),
            Box::new(parent),
        )
    }
}

/// A climate for every land cell.
pub struct MapAddSnow {
    pub base_seed: i64,
    pub world_seed: i64,
}

impl MapAddSnow {
    pub fn new(base_seed: i64, world_seed: i64) -> (l: Self)
        ensures
            l.base_seed == base_seed,
            l.world_seed == world_seed,
    {
        Self { base_seed, world_seed }
    }

    /// The map of the layer, from a map of the layer below that reaches
    /// one cell further on every side.
    pub fn get_map_from_pmap(&self, pmap: &BiomeMap) -> (m: BiomeMap)
        requires
            pmap.wf(),
            pmap.w() >= 2,
            pmap.h() >= 2,
            pmap.within(coord_limit()),
        ensures
            m.wf(),
            m.x == pmap.x + 1,
            m.z == pmap.z + 1,
            m.w() == pmap.w() - 2,
            m.h() == pmap.h() - 2,
            forall|i: int, j: int|
                0 <= i < m.w() && 0 <= j < m.h() ==> #[trigger] m.cell_at(i, j) == stencil_value(
                    StencilKind::AddSnow,
                    McRng::seeded(self.base_seed, self.world_seed).world(),
                    (m.x + i) as i64,
                    (m.z + j) as i64,
                    stencil_at(pmap, i, j),
                ),
    {
        apply_stencil(StencilKind::AddSnow, McRng::new(self.base_seed, self.world_seed), pmap)
    }

    /// The layer over the layer below it.
    pub fn over(self, parent: Layer) -> (l: Layer)
        ensures
            l == Layer::Stencil(
                StencilKind::AddSnow,
                McRng::seeded(self.base_seed, self.world_seed),
                Box::new(parent),
            ),
    {
        Layer::Stencil(
            StencilKind::AddSnow,
            McRng::new(self.base_seed, self.world_seed),
            Box::new(parent),
        )
    }
}

/// No warm land beside cold or freezing land.
pub struct MapCoolWarm {
    pub base_seed: i64,
    pub world_seed: i64,
}

impl MapCoolWarm {
    pub fn new(base_seed: i64, world_seed: i64) -> (l: Self)
        ensures
            l.base_seed == base_seed,
            l.world_seed == world_seed,
    {
        Self { base_seed, world_seed }
    }

    /// The map of the layer, from a map of the layer below that reaches
    /// one cell further on every side.
    pub fn get_map_from_pmap(&self, pmap: &BiomeMap) -> (m: BiomeMap)
        requires
            pmap.wf(),
            pmap.w() >= 2,
            pmap.h() >= 2,
            pmap.within(coord_limit()),
        ensures
            m.wf(),
            m.x == pmap.x + 1,
            m.z == pmap.z + 1,
            m.w() == pmap.w() - 2,
            m.h() == pmap.h() - 2,
            forall|i: int, j: int|
                0 <= i < m.w() && 0 <= j < m.h() ==> #[trigger] m.cell_at(i, j) == stencil_value(
                    StencilKind::CoolWarm,
                    McRng::seeded(self.base_seed, self.world_seed).world(),
                    (m.x + i) as i64,
                    (m.z + j) as i64,
                    stencil_at(pmap, i, j),
                ),
    {
        apply_stencil(StencilKind::CoolWarm, McRng::new(self.base_seed, self.world_seed), pmap)
    }

    /// The layer over the layer below it.
    pub fn over(self, parent: Layer) -> (l: Layer)
        ensures
            l == Layer::Stencil(
                StencilKind::CoolWarm,
                McRng::seeded(self.base_seed, self.world_seed),
                Box::new(parent),
            ),
    {
        Layer::Stencil(
            StencilKind::CoolWarm,
            McRng::new(self.base_seed, self.world_seed),
            Box::new(parent),
        )
    }
}

/// No freezing land beside warm or lush land.
pub struct MapHeatIce {
    pub base_seed: i64,
    pub world_seed: i64,
}

impl MapHeatIce {
    pub fn new(base_seed: i64, world_seed: i64) -> (l: Self)
        ensures
            l.base_seed == base_seed,
            l.world_seed == world_seed,
    {
        Self { base_seed, world_seed }
    }

    /// The map of the layer, from a map of the layer below that reaches
    /// one cell further on every side.
    pub fn get_map_from_pmap(&self, pmap: &BiomeMap) -> (m: BiomeMap)
        requires
            pmap.wf(),
            pmap.w() >= 2,
            pmap.h() >= 2,
            pmap.within(coord_limit()),
        ensures
            m.wf(),
            m.x == pmap.x + 1,
            m.z == pmap.z + 1,
            m.w() == pmap.w() - 2,
            m.h() == pmap.h() - 2,
            forall|i: int, j: int|
                0 <= i < m.w() && 0 <= j < m.h() ==> #[trigger] m.cell_at(i, j) == stencil_value(
                    StencilKind::HeatIce,
                    McRng::seeded(self.base_seed, self.world_seed).world(),
                    (m.x + i) as i64,
                    (m.z + j) as i64,
                    stencil_at(pmap, i, j),
                ),
    {
        apply_stencil(StencilKind::HeatIce, McRng::new(self.base_seed, self.world_seed), pmap)
    }

    /// The layer over the layer below it.
    pub fn over(self, parent: Layer) -> (l: Layer)
        ensures
            l == Layer::Stencil(
                StencilKind::HeatIce,
                McRng::seeded(self.base_seed, self.world_seed),
                Box::new(parent),
            ),
    {
        Layer::Stencil(
            StencilKind::HeatIce,
            McRng::new(self.base_seed, self.world_seed),
            Box::new(parent),
        )
    }
}

/// A mushroom island in one cell of a hundred that lie in open ocean.
pub struct MapAddMushroomIsland {
    pub base_seed: i64,
    pub world_seed: i64,
}

impl MapAddMushroomIsland {
    pub fn new(base_seed: i64, world_seed: i64) -> (l: Self)
        ensures
            l.base_seed == base_seed,
            l.world_seed == world_seed,
    {
        Self { base_seed, world_seed }
    }

    /// The map of the layer, from a map of the layer below that reaches
    /// one cell further on every side.
    pub fn get_map_from_pmap(&self, pmap: &BiomeMap) -> (m: BiomeMap)
        requires
            pmap.wf(),
            pmap.w() >= 2,
            pmap.h() >= 2,
            pmap.within(coord_limit()),
        ensures
            m.wf(),
            m.x == pmap.x + 1,
            m.z == pmap.z + 1,
            m.w() == pmap.w() - 2,
            m.h() == pmap.h() - 2,
            forall|i: int, j: int|
                0 <= i < m.w() && 0 <= j < m.h() ==> #[trigger] m.cell_at(i, j) == stencil_value(
                    StencilKind::AddMushroomIsland,
                    McRng::seeded(self.base_seed, self.world_seed).world(),
                    (m.x + i) as i64,
                    (m.z + j) as i64,
                    stencil_at(pmap, i, j),
                ),
    {
        apply_stencil(StencilKind::AddMushroomIsland, McRng::new(self.base_seed, self.world_seed), pmap)
    }

    /// The layer over the layer below it.
    pub fn over(self, parent: Layer) -> (l: Layer)
        ensures
            l == Layer::Stencil(
                StencilKind::AddMushroomIsland,
                McRng::seeded(self.base_seed, self.world_seed),
                Box::new(parent),
            ),
    {
        Layer::Stencil(
            StencilKind::AddMushroomIsland,
            McRng::new(self.base_seed, self.world_seed),
            Box::new(parent),
        )
    }
}

/// Deep ocean where ocean lies in ocean.
pub struct MapDeepOcean {
    pub base_seed: i64,
    pub world_seed: i64,
}

impl MapDeepOcean {
    pub fn new(base_seed: i64, world_seed: i64) -> (l: Self)
        ensures
            l.base_seed == base_seed,
            l.world_seed == world_seed,
    {
        Self { base_seed, world_seed }
    }

    /// The map of the layer, from a map of the layer below that reaches
    /// one cell further on every side.
    pub fn get_map_from_pmap(&self, pmap: &BiomeMap) -> (m: BiomeMap)
        requires
            pmap.wf(),
            pmap.w() >= 2,
            pmap.h() >= 2,
            pmap.within(coord_limit()),
        ensures
            m.wf(),
            m.x == pmap.x + 1,
            m.z == pmap.z + 1,
            m.w() == pmap.w() - 2,
            m.h() == pmap.h() - 2,
            forall|i: int, j: int|
                0 <= i < m.w() && 0 <= j < m.h() ==> #[trigger] m.cell_at(i, j) == stencil_value(
                    StencilKind::DeepOcean,
                    McRng::seeded(self.base_seed, self.world_seed).world(),
                    (m.x + i) as i64,
                    (m.z + j) as i64,
                    stencil_at(pmap, i, j),
                ),
    {
        apply_stencil(StencilKind::DeepOcean, McRng::new(self.base_seed, self.world_seed), pmap)
    }

    /// The layer over the layer below it.
    pub fn over(self, parent: Layer) -> (l: Layer)
        ensures
            l == Layer::Stencil(
                StencilKind::DeepOcean,
                McRng::seeded(self.base_seed, self.world_seed),
                Box::new(parent),
            ),
    {
        Layer::Stencil(
            StencilKind::DeepOcean,
            McRng::new(self.base_seed, self.world_seed),
            Box::new(parent),
        )
    }
}

/// Milder biomes at the edges of some biomes.
pub struct MapBiomeEdge {
    pub base_seed: i64,
    pub world_seed: i64,
}

impl MapBiomeEdge {
    pub fn new(base_seed: i64, world_seed: i64) -> (l: Self)
        ensures
            l.base_seed == base_seed,
            l.world_seed == world_seed,
    {
        Self { base_seed, world_seed }
    }

    /// The map of the layer, from a map of the layer below that reaches
    /// one cell further on every side.
    pub fn get_map_from_pmap(&self, pmap: &BiomeMap) -> (m: BiomeMap)
        requires
            pmap.wf(),
            pmap.w() >= 2,
            pmap.h() >= 2,
            pmap.within(coord_limit()),
        ensures
            m.wf(),
            m.x == pmap.x + 1,
            m.z == pmap.z + 1,
            m.w() == pmap.w() - 2,
            m.h() == pmap.h() - 2,
            forall|i: int, j: int|
                0 <= i < m.w() && 0 <= j < m.h() ==> #[trigger] m.cell_at(i, j) == stencil_value(
                    StencilKind::BiomeEdge,
                    McRng::seeded(self.base_seed, self.world_seed).world(),
                    (m.x + i) as i64,
                    (m.z + j) as i64,
                    stencil_at(pmap, i, j),
                ),
    {
        apply_stencil(StencilKind::BiomeEdge, McRng::new(self.base_seed, self.world_seed), pmap)
    }

    /// The layer over the layer below it.
    pub fn over(self, parent: Layer) -> (l: Layer)
        ensures
            l == Layer::Stencil(
                StencilKind::BiomeEdge,
                McRng::seeded(self.base_seed, self.world_seed),
                Box::new(parent),
            ),
    {
        Layer::Stencil(
            StencilKind::BiomeEdge,
            McRng::new(self.base_seed, self.world_seed),
            Box::new(parent),
        )
    }
}

/// Sunflower plains in one cell of plains in 57.
pub struct MapRareBiome {
    pub base_seed: i64,
    pub world_seed: i64,
}

impl MapRareBiome {
    pub fn new(base_seed: i64, world_seed: i64) -> (l: Self)
        ensures
            l.base_seed == base_seed,
            l.world_seed == world_seed,
    {
        Self { base_seed, world_seed }
    }

    /// The map of the layer, from a map of the layer below that reaches
    /// one cell further on every side.
    pub fn get_map_from_pmap(&self, pmap: &BiomeMap) -> (m: BiomeMap)
        requires
            pmap.wf(),
            pmap.w() >= 2,
            pmap.h() >= 2,
            pmap.within(coord_limit()),
        ensures
            m.wf(),
            m.x == pmap.x + 1,
            m.z == pmap.z + 1,
            m.w() == pmap.w() - 2,
            m.h() == pmap.h() - 2,
            forall|i: int, j: int|
                0 <= i < m.w() && 0 <= j < m.h() ==> #[trigger] m.cell_at(i, j) == stencil_value(
                    StencilKind::RareBiome,
                    McRng::seeded(self.base_seed, self.world_seed).world(),
                    (m.x + i) as i64,
                    (m.z + j) as i64,
                    stencil_at(pmap, i, j),
                ),
    {
        apply_stencil(StencilKind::RareBiome, McRng::new(self.base_seed, self.world_seed), pmap)
    }

    /// The layer over the layer below it.
    pub fn over(self, parent: Layer) -> (l: Layer)
        ensures
            l == Layer::Stencil(
                StencilKind::RareBiome,
                McRng::seeded(self.base_seed, self.world_seed),
                Box::new(parent),
            ),
    {
        Layer::Stencil(
            StencilKind::RareBiome,
            McRng::new(self.base_seed, self.world_seed),
            Box::new(parent),
        )
    }
}

/// Beaches and other shores where land meets ocean.
pub struct MapShore {
    pub base_seed: i64,
    pub world_seed: i64,
}

impl MapShore {
    pub fn new(base_seed: i64, world_seed: i64) -> (l: Self)
        ensures
            l.base_seed == base_seed,
            l.world_seed == world_seed,
    {
        Self { base_seed, world_seed }
    }

    /// The map of the layer, from a map of the layer below that reaches
    /// one cell further on every side.
    pub fn get_map_from_pmap(&self, pmap: &BiomeMap) -> (m: BiomeMap)
        requires
            pmap.wf(),
            pmap.w() >= 2,
            pmap.h() >= 2,
            pmap.within(coord_limit()),
        ensures
            m.wf(),
            m.x == pmap.x + 1,
            m.z == pmap.z + 1,
            m.w() == pmap.w() - 2,
            m.h() == pmap.h() - 2,
            forall|i: int, j: int|
                0 <= i < m.w() && 0 <= j < m.h() ==> #[trigger] m.cell_at(i, j) == stencil_value(
                    StencilKind::Shore,
                    McRng::seeded(self.base_seed, self.world_seed).world(),
                    (m.x + i) as i64,
                    (m.z + j) as i64,
                    stencil_at(pmap, i, j),
                ),
    {
        apply_stencil(StencilKind::Shore, McRng::new(self.base_seed, self.world_seed), pmap)
    }

    /// The layer over the layer below it.
    pub fn over(self, parent: Layer) -> (l: Layer)
        ensures
            l == Layer::Stencil(
                StencilKind::Shore,
                McRng::seeded(self.base_seed, self.world_seed),
                Box::new(parent),
            ),
    {
        Layer::Stencil(
            StencilKind::Shore,
            McRng::new(self.base_seed, self.world_seed),
            Box::new(parent),
        )
    }
}

/// Single cells that stand out are taken away.
pub struct MapSmooth {
    pub base_seed: i64,
    pub world_seed: i64,
}

impl MapSmooth {
    pub fn new(base_seed: i64, world_seed: i64) -> (l: Self)
        ensures
            l.base_seed == base_seed,
            l.world_seed == world_seed,
    {
        Self { base_seed, world_seed }
    }

    /// The map of the layer, from a map of the layer below that reaches
    /// one cell further on every side.
    pub fn get_map_from_pmap(&self, pmap: &BiomeMap) -> (m: BiomeMap)
        requires
            pmap.wf(),
            pmap.w() >= 2,
            pmap.h() >= 2,
            pmap.within(coord_limit()),
        ensures
            m.wf(),
            m.x == pmap.x + 1,
            m.z == pmap.z + 1,
            m.w() == pmap.w() - 2,
            m.h() == pmap.h() - 2,
            forall|i: int, j: int|
                0 <= i < m.w() && 0 <= j < m.h() ==> #[trigger] m.cell_at(i, j) == stencil_value(
                    StencilKind::Smooth,
                    McRng::seeded(self.base_seed, self.world_seed).world(),
                    (m.x + i) as i64,
                    (m.z + j) as i64,
                    stencil_at(pmap, i, j),
                ),
    {
        apply_stencil(StencilKind::Smooth, McRng::new(self.base_seed, self.world_seed), pmap)
    }

    /// The layer over the layer below it.
    pub fn over(self, parent: Layer) -> (l: Layer)
        ensures
            l == Layer::Stencil(
                StencilKind::Smooth,
                McRng::seeded(self.base_seed, self.world_seed),
                Box::new(parent),
            ),
    {
        Layer::Stencil(
            StencilKind::Smooth,
            McRng::new(self.base_seed, self.world_seed),
            Box::new(parent),
        )
    }
}

/// A river wherever the classes of the river seeds change.
pub struct MapRiver {
    pub base_seed: i64,
    pub world_seed: i64,
}

impl MapRiver {
    pub fn new(base_seed: i64, world_seed: i64) -> (l: Self)
        ensures
            l.base_seed == base_seed,
            l.world_seed == world_seed,
    {
        Self { base_seed, world_seed }
    }

    /// The map of the layer, from a map of the layer below that reaches
    /// one cell further on every side.
    pub fn get_map_from_pmap(&self, pmap: &BiomeMap) -> (m: BiomeMap)
        requires
            pmap.wf(),
            pmap.w() >= 2,
            pmap.h() >= 2,
            pmap.within(coord_limit()),
        ensures
            m.wf(),
            m.x == pmap.x + 1,
            m.z == pmap.z + 1,
            m.w() == pmap.w() - 2,
            m.h() == pmap.h() - 2,
            forall|i: int, j: int|
                0 <= i < m.w() && 0 <= j < m.h() ==> #[trigger] m.cell_at(i, j) == stencil_value(
                    StencilKind::River,
                    McRng::seeded(self.base_seed, self.world_seed).world(),
                    (m.x + i) as i64,
                    (m.z + j) as i64,
                    stencil_at(pmap, i, j),
                ),
    {
        apply_stencil(StencilKind::River, McRng::new(self.base_seed, self.world_seed), pmap)
    }

    /// The layer over the layer below it.
    pub fn over(self, parent: Layer) -> (l: Layer)
        ensures
            l == Layer::Stencil(
                StencilKind::River,
                McRng::seeded(self.base_seed, self.world_seed),
                Box::new(parent),
            ),
    {
        Layer::Stencil(
            StencilKind::River,
            McRng::new(self.base_seed, self.world_seed),
            Box::new(parent),
        )
    }
}

/// Like the river layer, but a river wherever the values change: an edge detector.
pub struct HelperMapRiverAll {
    pub base_seed: i64,
    pub world_seed: i64,
}

impl HelperMapRiverAll {
    pub fn new(base_seed: i64, world_seed: i64) -> (l: Self)
        ensures
            l.base_seed == base_seed,
            l.world_seed == world_seed,
    {
        Self { base_seed, world_seed }
    }

    /// The map of the layer, from a map of the layer below that reaches
    /// one cell further on every side.
    pub fn get_map_from_pmap(&self, pmap: &BiomeMap) -> (m: BiomeMap)
        requires
            pmap.wf(),
            pmap.w() >= 2,
            pmap.h() >= 2,
            pmap.within(coord_limit()),
        ensures
            m.wf(),
            m.x == pmap.x + 1,
            m.z == pmap.z + 1,
            m.w() == pmap.w() - 2,
            m.h() == pmap.h() - 2,
            forall|i: int, j: int|
                0 <= i < m.w() && 0 <= j < m.h() ==> #[trigger] m.cell_at(i, j) == stencil_value(
                    StencilKind::RiverAll,
                    McRng::seeded(self.base_seed, self.world_seed).world(),
                    (m.x + i) as i64,
                    (m.z + j) as i64,
                    stencil_at(pmap, i, j),
                ),
    {
        apply_stencil(StencilKind::RiverAll, McRng::new(self.base_seed, self.world_seed), pmap)
    }

    /// The layer over the layer below it.
    pub fn over(self, parent: Layer) -> (l: Layer)
        ensures
            l == Layer::Stencil(
                StencilKind::RiverAll,
                McRng::seeded(self.base_seed, self.world_seed),
                Box::new(parent),
            ),
    {
        Layer::Stencil(
            StencilKind::RiverAll,
            McRng::new(self.base_seed, self.world_seed),
            Box::new(parent),
        )
    }
}

/// A mark on one land cell in thirteen.
pub struct MapSpecial {
    pub base_seed: i64,
    pub world_seed: i64,
}

impl MapSpecial {
    pub fn new(base_seed: i64, world_seed: i64) -> (l: Self)
        ensures
            l.base_seed == base_seed,
            l.world_seed == world_seed,
    {
        Self { base_seed, world_seed }
    }

    /// The map of the layer, from a map of the layer below of the same
    /// area.
    pub fn get_map_from_pmap(&self, pmap: &BiomeMap) -> (m: BiomeMap)
        requires
            pmap.wf(),
            pmap.within(coord_limit()),
        ensures
            m.wf(),
            m.x == pmap.x,
            m.z == pmap.z,
            m.w() == pmap.w(),
            m.h() == pmap.h(),
            forall|i: int, j: int|
                0 <= i < m.w() && 0 <= j < m.h() ==> #[trigger] m.cell_at(i, j) == point_value(
                    PointKind::Special,
                    McRng::seeded(self.base_seed, self.world_seed).world(),
                    (m.x + i) as i64,
                    (m.z + j) as i64,
                    pmap.cell_at(i, j),
                ),
    {
        apply_pointwise(PointKind::Special, McRng::new(self.base_seed, self.world_seed), pmap)
    }

    /// The layer over the layer below it.
    pub fn over(self, parent: Layer) -> (l: Layer)
        ensures
            l == Layer::Point(
                PointKind::Special,
                McRng::seeded(self.base_seed, self.world_seed),
                Box::new(parent),
            ),
    {
        Layer::Point(
            PointKind::Special,
            McRng::new(self.base_seed, self.world_seed),
            Box::new(parent),
        )
    }
}

/// A biome for every climate.
pub struct MapBiome {
    pub base_seed: i64,
    pub world_seed: i64,
}

impl MapBiome {
    pub fn new(base_seed: i64, world_seed: i64) -> (l: Self)
        ensures
            l.base_seed == base_seed,
            l.world_seed == world_seed,
    {
        Self { base_seed, world_seed }
    }

    /// The map of the layer, from a map of the layer below of the same
    /// area.
    pub fn get_map_from_pmap(&self, pmap: &BiomeMap) -> (m: BiomeMap)
        requires
            pmap.wf(),
            pmap.within(coord_limit()),
        ensures
            m.wf(),
            m.x == pmap.x,
            m.z == pmap.z,
            m.w() == pmap.w(),
            m.h() == pmap.h(),
            forall|i: int, j: int|
                0 <= i < m.w() && 0 <= j < m.h() ==> #[trigger] m.cell_at(i, j) == point_value(
                    PointKind::Biome,
                    McRng::seeded(self.base_seed, self.world_seed).world(),
                    (m.x + i) as i64,
                    (m.z + j) as i64,
                    pmap.cell_at(i, j),
                ),
    {
        apply_pointwise(PointKind::Biome, McRng::new(self.base_seed, self.world_seed), pmap)
    }

    /// The layer over the layer below it.
    pub fn over(self, parent: Layer) -> (l: Layer)
        ensures
            l == Layer::Point(
                PointKind::Biome,
                McRng::seeded(self.base_seed, self.world_seed),
                Box::new(parent),
            ),
    {
        Layer::Point(
            PointKind::Biome,
            McRng::new(self.base_seed, self.world_seed),
            Box::new(parent),
        )
    }
}

/// A river seed for every land cell.
pub struct MapRiverInit {
    pub base_seed: i64,
    pub world_seed: i64,
}

impl MapRiverInit {
    pub fn new(base_seed: i64, world_seed: i64) -> (l: Self)
        ensures
            l.base_seed == base_seed,
            l.world_seed == world_seed,
    {
        Self { base_seed, world_seed }
    }

    /// The map of the layer, from a map of the layer below of the same
    /// area.
    pub fn get_map_from_pmap(&self, pmap: &BiomeMap) -> (m: BiomeMap)
        requires
            pmap.wf(),
            pmap.within(coord_limit()),
        ensures
            m.wf(),
            m.x == pmap.x,
            m.z == pmap.z,
            m.w() == pmap.w(),
            m.h() == pmap.h(),
            forall|i: int, j: int|
                0 <= i < m.w() && 0 <= j < m.h() ==> #[trigger] m.cell_at(i, j) == point_value(
                    PointKind::RiverInit,
                    McRng::seeded(self.base_seed, self.world_seed).world(),
                    (m.x + i) as i64,
                    (m.z + j) as i64,
                    pmap.cell_at(i, j),
                ),
    {
        apply_pointwise(PointKind::RiverInit, McRng::new(self.base_seed, self.world_seed), pmap)
    }

    /// The layer over the layer below it.
    pub fn over(self, parent: Layer) -> (l: Layer)
        ensures
            l == Layer::Point(
                PointKind::RiverInit,
                McRng::seeded(self.base_seed, self.world_seed),
                Box::new(parent),
            ),
    {
        Layer::Point(
            PointKind::RiverInit,
            McRng::new(self.base_seed, self.world_seed),
            Box::new(parent),
        )
    }
}

/// Bamboo jungle in one cell of jungle in ten.
pub struct MapAddBamboo {
    pub base_seed: i64,
    pub world_seed: i64,
}

impl MapAddBamboo {
    pub fn new(base_seed: i64, world_seed: i64) -> (l: Self)
        ensures
            l.base_seed == base_seed,
            l.world_seed == world_seed,
    {
        Self { base_seed, world_seed }
    }

    /// The map of the layer, from a map of the layer below of the same
    /// area.
    pub fn get_map_from_pmap(&self, pmap: &BiomeMap) -> (m: BiomeMap)
        requires
            pmap.wf(),
            pmap.within(coord_limit()),
        ensures
            m.wf(),
            m.x == pmap.x,
            m.z == pmap.z,
            m.w() == pmap.w(),
            m.h() == pmap.h(),
            forall|i: int, j: int|
                0 <= i < m.w() && 0 <= j < m.h() ==> #[trigger] m.cell_at(i, j) == point_value(
                    PointKind::AddBamboo,
                    McRng::seeded(self.base_seed, self.world_seed).world(),
                    (m.x + i) as i64,
                    (m.z + j) as i64,
                    pmap.cell_at(i, j),
                ),
    {
        apply_pointwise(PointKind::AddBamboo, McRng::new(self.base_seed, self.world_seed), pmap)
    }

    /// The layer over the layer below it.
    pub fn over(self, parent: Layer) -> (l: Layer)
        ensures
            l == Layer::Point(
                PointKind::AddBamboo,
                McRng::seeded(self.base_seed, self.world_seed),
                Box::new(parent),
            ),
    {
        Layer::Point(
            PointKind::AddBamboo,
            McRng::new(self.base_seed, self.world_seed),
            Box::new(parent),
        )
    }
}

/// The functions that a layer can apply to every cell of the layer below.
#[derive(Copy, Clone, Debug, PartialEq, Eq, Structural)]
pub enum MapFunction {
    /// The classes 0 to 3 of the river seeds.
    ReduceId,
    /// The classes of the river seeds that the hills layer tells apart.
    PrettyBiomeMapHills,
}

/// A layer that applies a function to every cell of the layer below.
pub struct MapMap {
    pub f: MapFunction,
}

impl MapMap {
    /// The kind of layer that applies the function.
    pub open spec fn kind(&self) -> PointKind {
        match self.f {
            MapFunction::ReduceId => PointKind::ReduceId,
            MapFunction::PrettyBiomeMapHills => PointKind::PrettyHills,
        }
    }

    /// The map of the layer, from a map of the layer below of the same
    /// area.
    pub fn get_map_from_pmap(&self, pmap: &BiomeMap) -> (m: BiomeMap)
        requires
            pmap.wf(),
            pmap.within(coord_limit()),
        ensures
            m.wf(),
            m.x == pmap.x,
            m.z == pmap.z,
            m.w() == pmap.w(),
            m.h() == pmap.h(),
            forall|i: int, j: int|
                0 <= i < m.w() && 0 <= j < m.h() ==> #[trigger] m.cell_at(i, j) == point_value(
                    self.kind(),
                    0,
                    (m.x + i) as i64,
                    (m.z + j) as i64,
                    pmap.cell_at(i, j),
                ),
    {
        let kind = match self.f {
            MapFunction::ReduceId => PointKind::ReduceId,
            MapFunction::PrettyBiomeMapHills => PointKind::PrettyHills,
        };
        let r = McRng::default();
        apply_pointwise(kind, r, pmap)
    }

    /// The layer over the layer below it.
    pub fn over(self, parent: Layer) -> (l: Layer)
        ensures
            l == Layer::Point(self.kind(), McRng::seeded_without_world(0), Box::new(parent)),
    {
        let kind = match self.f {
            MapFunction::ReduceId => PointKind::ReduceId,
            MapFunction::PrettyBiomeMapHills => PointKind::PrettyHills,
        };
        Layer::Point(kind, McRng::with_base_seed(0), Box::new(parent))
    }
}

/// A layer that holds zero everywhere. To be used below other layers for
/// testing.
pub struct TestMapZero;

impl TestMapZero {
    /// The layer.
    pub fn layer(self) -> (l: Layer)
        ensures
            l == Layer::Zero,
    {
        Layer::Zero
    }
}

/// A layer that holds the numbers 0 to 15 in squares of four by four
/// cells.
pub struct TestMapCheckers;

impl TestMapCheckers {
    /// The layer.
    pub fn layer(self) -> (l: Layer)
        ensures
            l == Layer::Checkers,
    {
        Layer::Checkers
    }
}

/// The first layer: land in one cell of ten, and at the origin.
pub struct MapIsland {
    pub base_seed: i64,
    pub world_seed: i64,
}

impl MapIsland {
    pub fn new(base_seed: i64, world_seed: i64) -> (l: Self)
        ensures
            l.base_seed == base_seed,
            l.world_seed == world_seed,
    {
        Self { base_seed, world_seed }
    }

    /// The layer.
    pub fn layer(self) -> (l: Layer)
        ensures
            l == Layer::Island(McRng::seeded(self.base_seed, self.world_seed)),
    {
        Layer::Island(McRng::new(self.base_seed, self.world_seed))
    }
}

/// A zoom: twice as fine as the layer below, with borders that are moved
/// at random.
pub struct MapZoom {
    pub base_seed: i64,
    pub world_seed: i64,
    /// True above the island layer: the fourth cell of a block is one of
    /// the four values by one draw.
    pub fuzzy: bool,
    /// True for the zooms between the river seeds and the hills layer of
    /// the oldest version, whose generators were never given the world
    /// seed.
    pub bug_world_seed_not_set: bool,
}

impl MapZoom {
    pub fn new(base_seed: i64, world_seed: i64) -> (l: Self)
        ensures
            l.base_seed == base_seed,
            l.world_seed == world_seed,
            !l.fuzzy,
            !l.bug_world_seed_not_set,
    {
        Self { base_seed, world_seed, fuzzy: false, bug_world_seed_not_set: false }
    }

    /// How the zoom fills the fourth cell of a block.
    pub open spec fn mode(&self) -> ZoomMode {
        if self.fuzzy {
            ZoomMode::Fuzzy
        } else {
            ZoomMode::Normal
        }
    }

    /// The generator of the layer.
    pub open spec fn rng(&self) -> McRng {
        if self.bug_world_seed_not_set {
            McRng::seeded_without_world(self.base_seed)
        } else {
            McRng::seeded(self.base_seed, self.world_seed)
        }
    }

    fn make_rng(&self) -> (r: McRng)
        ensures
            r == self.rng(),
    {
        if self.bug_world_seed_not_set {
            McRng::with_base_seed(self.base_seed)
        } else {
            McRng::new(self.base_seed, self.world_seed)
        }
    }

    /// The map of the layer, from a map of the layer below.
    pub fn get_map_from_pmap(&self, pmap: &BiomeMap) -> (m: BiomeMap)
        requires
            pmap.wf(),
            pmap.w() >= 1,
            pmap.h() >= 1,
            pmap.within(coord_limit()),
            cells_fit(2 * (pmap.w() as int), 2 * (pmap.h() as int)),
        ensures
            m.wf(),
            m.x == 2 * pmap.x,
            m.z == 2 * pmap.z,
            m.w() == 2 * (pmap.w() - 1),
            m.h() == 2 * (pmap.h() - 1),
            forall|i: int, j: int|
                0 <= i < m.w() && 0 <= j < m.h() ==> #[trigger] m.cell_at(i, j) == zoom_value(
                    self.mode(),
                    self.rng().world(),
                    pmap,
                    i,
                    j,
                ),
    {
        let mode = if self.fuzzy {
            ZoomMode::Fuzzy
        } else {
            ZoomMode::Normal
        };
        apply_zoom(mode, self.make_rng(), pmap)
    }

    /// The layer over the layer below it.
    pub fn over(self, parent: Layer) -> (l: Layer)
        ensures
            l == Layer::Zoom(self.mode(), self.rng(), Box::new(parent)),
    {
        let mode = if self.fuzzy {
            ZoomMode::Fuzzy
        } else {
            ZoomMode::Normal
        };
        Layer::Zoom(mode, self.make_rng(), Box::new(parent))
    }
}

/// A zoom whose fourth cell of a block holds the sum of the four values
/// below it, so that it differs from its neighbours wherever they differ.
pub struct HelperMapZoomAllEdges {
    pub base_seed: i64,
    pub world_seed: i64,
    pub fuzzy: bool,
    pub bug_world_seed_not_set: bool,
}

impl HelperMapZoomAllEdges {
    pub fn new(base_seed: i64, world_seed: i64) -> (l: Self)
        ensures
            l.base_seed == base_seed,
            l.world_seed == world_seed,
            !l.fuzzy,
            !l.bug_world_seed_not_set,
    {
        Self { base_seed, world_seed, fuzzy: false, bug_world_seed_not_set: false }
    }

    /// How the zoom fills the fourth cell of a block.
    pub open spec fn mode(&self) -> ZoomMode {
        if self.fuzzy {
            ZoomMode::Fuzzy
        } else {
            ZoomMode::AllEdges
        }
    }

    /// The generator of the layer.
    pub open spec fn rng(&self) -> McRng {
        if self.bug_world_seed_not_set {
            McRng::seeded_without_world(self.base_seed)
        } else {
            McRng::seeded(self.base_seed, self.world_seed)
        }
    }

    fn make_rng(&self) -> (r: McRng)
        ensures
            r == self.rng(),
    {
        if self.bug_world_seed_not_set {
            McRng::with_base_seed(self.base_seed)
        } else {
            McRng::new(self.base_seed, self.world_seed)
        }
    }

    /// The map of the layer, from a map of the layer below.
    pub fn get_map_from_pmap(&self, pmap: &BiomeMap) -> (m: BiomeMap)
        requires
            pmap.wf(),
            pmap.w() >= 1,
            pmap.h() >= 1,
            pmap.within(coord_limit()),
            cells_fit(2 * (pmap.w() as int), 2 * (pmap.h() as int)),
        ensures
            m.wf(),
            m.x == 2 * pmap.x,
            m.z == 2 * pmap.z,
            m.w() == 2 * (pmap.w() - 1),
            m.h() == 2 * (pmap.h() - 1),
            forall|i: int, j: int|
                0 <= i < m.w() && 0 <= j < m.h() ==> #[trigger] m.cell_at(i, j) == zoom_value(
                    self.mode(),
                    self.rng().world(),
                    pmap,
                    i,
                    j,
                ),
    {
        let mode = if self.fuzzy {
            ZoomMode::Fuzzy
        } else {
            ZoomMode::AllEdges
        };
        apply_zoom(mode, self.make_rng(), pmap)
    }

    /// The layer over the layer below it.
    pub fn over(self, parent: Layer) -> (l: Layer)
        ensures
            l == Layer::Zoom(self.mode(), self.rng(), Box::new(parent)),
    {
        let mode = if self.fuzzy {
            ZoomMode::Fuzzy
        } else {
            ZoomMode::AllEdges
        };
        Layer::Zoom(mode, self.make_rng(), Box::new(parent))
    }
}

/// A layer that is finer than the one below it by a power of two and
/// repeats every cell of it.
pub struct MapSkip;

impl MapSkip {
    /// The layer `zoom_factor` times twice as fine as `parent`: `parent`
    /// itself for 0.
    pub open spec fn skipped(parent: Layer, zoom_factor: u8) -> Layer
        decreases zoom_factor,
    {
        if zoom_factor == 0 {
            parent
        } else {
            Layer::Zoom(
                ZoomMode::Skip,
                McRng::seeded_without_world(0),
                Box::new(Self::skipped(parent, (zoom_factor - 1) as u8)),
            )
        }
    }

    /// Zoom factor: n in 2^n. 0 gives the parent, 1 a layer twice as fine
    /// along each axis, 2 one four times as fine.
    pub fn new(parent: Layer, zoom_factor: u8) -> (l: Layer)
        ensures
            l == Self::skipped(parent, zoom_factor),
        decreases zoom_factor,
    {
        if zoom_factor == 0 {
            parent
        } else {
            Layer::Zoom(
                ZoomMode::Skip,
                McRng::with_base_seed(0),
                Box::new(Self::new(parent, zoom_factor - 1)),
            )
        }
    }

    /// The map twice as fine as the given one that repeats every cell of
    /// it, without its last column and row.
    pub fn get_map_from_pmap(pmap: &BiomeMap) -> (m: BiomeMap)
        requires
            pmap.wf(),
            pmap.w() >= 1,
            pmap.h() >= 1,
            pmap.within(coord_limit()),
            cells_fit(2 * (pmap.w() as int), 2 * (pmap.h() as int)),
        ensures
            m.wf(),
            m.x == 2 * pmap.x,
            m.z == 2 * pmap.z,
            m.w() == 2 * (pmap.w() - 1),
            m.h() == 2 * (pmap.h() - 1),
            forall|i: int, j: int|
                0 <= i < m.w() && 0 <= j < m.h() ==> #[trigger] m.cell_at(i, j) == pmap.cell_at(
                    i / 2,
                    j / 2,
                ),
    {
        let m = apply_zoom(ZoomMode::Skip, McRng::with_base_seed(0), pmap);
        proof {
            assert forall|i: int, j: int| 0 <= i < m.w() && 0 <= j < m.h() implies #[trigger] m.cell_at(
                i,
                j,
            ) == pmap.cell_at(i / 2, j / 2) by {
                assert(m.cell_at(i, j) == zoom_value(ZoomMode::Skip, 0, pmap, i, j));
            }
        }
        m
    }
}

/// The hills layer: hills, and variants of biomes, where the river seeds
/// call for them.
pub struct MapHills {
    pub base_seed: i64,
    pub world_seed: i64,
}

impl MapHills {
    pub fn new(base_seed: i64, world_seed: i64) -> (l: Self)
        ensures
            l.base_seed == base_seed,
            l.world_seed == world_seed,
    {
        Self { base_seed, world_seed }
    }

    /// The map of the layer, from the maps of the biomes and of the river
    /// seeds, which cover one area and reach one cell further on every
    /// side.
    pub fn get_map_from_pmap12(&self, pmap1: &BiomeMap, pmap2: &BiomeMap) -> (m: BiomeMap)
        requires
            pmap1.wf(),
            pmap2.wf(),
            pmap1.x == pmap2.x,
            pmap1.z == pmap2.z,
            pmap1.w() == pmap2.w(),
            pmap1.h() == pmap2.h(),
            pmap1.w() >= 2,
            pmap1.h() >= 2,
            pmap1.within(coord_limit()),
        ensures
            m.wf(),
            m.x == pmap1.x + 1,
            m.z == pmap1.z + 1,
            m.w() == pmap1.w() - 2,
            m.h() == pmap1.h() - 2,
            forall|i: int, j: int|
                0 <= i < m.w() && 0 <= j < m.h() ==> #[trigger] m.cell_at(i, j) == hills_value(
                    McRng::seeded(self.base_seed, self.world_seed).world(),
                    (m.x + i) as i64,
                    (m.z + j) as i64,
                    stencil_at(pmap1, i, j),
                    pmap2.cell_at(i + 1, j + 1),
                ),
    {
        apply_hills(McRng::new(self.base_seed, self.world_seed), pmap1, pmap2)
    }

    /// The layer over the layer of biomes and the layer of river seeds.
    pub fn over(self, parent1: Layer, parent2: Layer) -> (l: Layer)
        ensures
            l == Layer::Hills(
                McRng::seeded(self.base_seed, self.world_seed),
                Box::new(parent1),
                Box::new(parent2),
            ),
    {
        Layer::Hills(
            McRng::new(self.base_seed, self.world_seed),
            Box::new(parent1),
            Box::new(parent2),
        )
    }
}

/// The river mix: the rivers laid over the biomes.
pub struct MapRiverMix {
    pub base_seed: i64,
    pub world_seed: i64,
}

impl MapRiverMix {
    pub fn new(base_seed: i64, world_seed: i64) -> (l: Self)
        ensures
            l.base_seed == base_seed,
            l.world_seed == world_seed,
    {
        Self { base_seed, world_seed }
    }

    /// The map of the layer, from the maps of the biomes and of the
    /// rivers, which cover one area.
    pub fn get_map_from_pmap12(&self, pmap1: &BiomeMap, pmap2: &BiomeMap) -> (m: BiomeMap)
        requires
            pmap1.wf(),
            pmap1.x == pmap2.x,
            pmap1.z == pmap2.z,
            pmap1.w() == pmap2.w(),
            pmap1.h() == pmap2.h(),
        ensures
            m.wf(),
            m.x == pmap1.x,
            m.z == pmap1.z,
            m.w() == pmap1.w(),
            m.h() == pmap1.h(),
            forall|i: int, j: int|
                0 <= i < m.w() && 0 <= j < m.h() ==> #[trigger] m.cell_at(i, j) == river_mix_value(
                    pmap1.cell_at(i, j),
                    pmap2.cell_at(i, j),
                ),
    {
        apply_river_mix(pmap1, pmap2)
    }

    /// The layer over the layer of biomes and the layer of rivers.
    pub fn over(self, parent1: Layer, parent2: Layer) -> (l: Layer)
        ensures
            l == Layer::RiverMix(Box::new(parent1), Box::new(parent2)),
    {
        Layer::RiverMix(Box::new(parent1), Box::new(parent2))
    }
}

/// The ocean mix: the temperatures of the oceans laid over the biomes.
pub struct MapOceanMix {
    pub base_seed: i64,
    pub world_seed: i64,
}

impl MapOceanMix {
    pub fn new(base_seed: i64, world_seed: i64) -> (l: Self)
        ensures
            l.base_seed == base_seed,
            l.world_seed == world_seed,
    {
        Self { base_seed, world_seed }
    }

    /// The map of the layer, from the map of the biomes, which reaches 8
    /// cells further on every side, and the map of the ocean temperatures.
    pub fn get_map_from_pmap12(&self, pmap1: &BiomeMap, pmap2: &BiomeMap) -> (m: BiomeMap)
        requires
            pmap1.wf(),
            pmap2.wf(),
            pmap1.x == pmap2.x - 8,
            pmap1.z == pmap2.z - 8,
            pmap1.w() == pmap2.w() + 17,
            pmap1.h() == pmap2.h() + 17,
        ensures
            m.wf(),
            m.x == pmap2.x,
            m.z == pmap2.z,
            m.w() == pmap2.w(),
            m.h() == pmap2.h(),
            forall|i: int, j: int|
                0 <= i < m.w() && 0 <= j < m.h() ==> #[trigger] m.cell_at(i, j) == ocean_mix_at(
                    pmap1,
                    pmap2,
                    i,
                    j,
                ),
    {
        apply_ocean_mix(pmap1, pmap2)
    }

    /// The layer over the layer of biomes and the layer of ocean
    /// temperatures.
    pub fn over(self, parent1: Layer, parent2: Layer) -> (l: Layer)
        ensures
            l == Layer::OceanMix(Box::new(parent1), Box::new(parent2)),
    {
        Layer::OceanMix(Box::new(parent1), Box::new(parent2))
    }
}

/// The last zoom of the versions before 1.15: four times as fine as the
/// layer below.
pub struct MapVoronoiZoom {
    pub base_seed: i64,
    pub world_seed: i64,
}

impl MapVoronoiZoom {
    pub fn new(base_seed: i64, world_seed: i64) -> (l: Self)
        ensures
            l.base_seed == base_seed,
            l.world_seed == world_seed,
    {
        Self { base_seed, world_seed }
    }

    /// The map of the layer, from a map of the layer below.
    pub fn get_map_from_pmap(&self, pmap: &BiomeMap) -> (m: BiomeMap)
        requires
            pmap.wf(),
            pmap.w() >= 1,
            pmap.h() >= 1,
            pmap.within(coord_limit()),
            cells_fit(4 * (pmap.w() as int), 4 * (pmap.h() as int)),
        ensures
            m.wf(),
            m.x == 4 * pmap.x + 2,
            m.z == 4 * pmap.z + 2,
            m.w() == 4 * (pmap.w() - 1),
            m.h() == 4 * (pmap.h() - 1),
            forall|i: int, j: int|
                0 <= i < m.w() && 0 <= j < m.h() ==> #[trigger] m.cell_at(i, j) == voronoi_value(
                    Jitter::Seeded(McRng::seeded(self.base_seed, self.world_seed)),
                    pmap,
                    i,
                    j,
                ),
    {
        apply_voronoi(Jitter::Seeded(McRng::new(self.base_seed, self.world_seed)), pmap)
    }

    /// The layer over the layer below it.
    pub fn over(self, parent: Layer) -> (l: Layer)
        ensures
            l == Layer::Voronoi(
                Jitter::Seeded(McRng::seeded(self.base_seed, self.world_seed)),
                Box::new(parent),
            ),
    {
        Layer::Voronoi(
            Jitter::Seeded(McRng::new(self.base_seed, self.world_seed)),
            Box::new(parent),
        )
    }
}

/// The last zoom at half its scale, as treasure maps show it: every other
/// cell of the full zoom.
pub struct MapHalfVoronoiZoom {
    pub base_seed: i64,
    pub world_seed: i64,
}

impl MapHalfVoronoiZoom {
    pub fn new(base_seed: i64, world_seed: i64) -> (l: Self)
        ensures
            l.base_seed == base_seed,
            l.world_seed == world_seed,
    {
        Self { base_seed, world_seed }
    }

    /// The map of the layer, from a map of the layer below.
    pub fn get_map_from_pmap(&self, pmap: &BiomeMap) -> (m: BiomeMap)
        requires
            pmap.wf(),
            pmap.w() >= 1,
            pmap.h() >= 1,
            pmap.within(coord_limit()),
            cells_fit(4 * (pmap.w() as int), 4 * (pmap.h() as int)),
        ensures
            m.wf(),
            m.x == 2 * pmap.x + 1,
            m.z == 2 * pmap.z + 1,
            m.w() == 2 * (pmap.w() - 1),
            m.h() == 2 * (pmap.h() - 1),
            forall|i: int, j: int|
                0 <= i < m.w() && 0 <= j < m.h() ==> #[trigger] m.cell_at(i, j)
                    == half_voronoi_value(
                    McRng::seeded(self.base_seed, self.world_seed),
                    pmap,
                    i,
                    j,
                ),
    {
        apply_half_voronoi(McRng::new(self.base_seed, self.world_seed), pmap)
    }
}

/// The last zoom as of version 1.15.
pub struct MapVoronoiZoom115 {
    pub hashed_world_seed: i64,
}

impl MapVoronoiZoom115 {
    pub fn new(world_seed: i64) -> (l: Self)
        ensures
            l.hashed_world_seed == sha256_first_long(world_seed),
    {
        Self { hashed_world_seed: sha256_long_to_long(world_seed) }
    }

    /// The map of the layer, from a map of the layer below.
    pub fn get_map_from_pmap(&self, pmap: &BiomeMap) -> (m: BiomeMap)
        requires
            pmap.wf(),
            pmap.w() >= 1,
            pmap.h() >= 1,
            pmap.within(coord_limit()),
            cells_fit(4 * (pmap.w() as int), 4 * (pmap.h() as int)),
        ensures
            m.wf(),
            m.x == 4 * pmap.x + 2,
            m.z == 4 * pmap.z + 2,
            m.w() == 4 * (pmap.w() - 1),
            m.h() == 4 * (pmap.h() - 1),
            forall|i: int, j: int|
                0 <= i < m.w() && 0 <= j < m.h() ==> #[trigger] m.cell_at(i, j) == voronoi_value(
                    Jitter::Hashed(self.hashed_world_seed),
                    pmap,
                    i,
                    j,
                ),
    {
        apply_voronoi(Jitter::Hashed(self.hashed_world_seed), pmap)
    }

    /// The layer over the layer below it.
    pub fn over(self, parent: Layer) -> (l: Layer)
        ensures
            l == Layer::Voronoi(Jitter::Hashed(self.hashed_world_seed), Box::new(parent)),
    {
        Layer::Voronoi(Jitter::Hashed(self.hashed_world_seed), Box::new(parent))
    }
}

/// The temperatures of the oceans.
pub struct MapOceanTemp {
    pub base_seed: i64,
    pub world_seed: i64,
    pub perlin: NoiseGeneratorPerlin,
}

impl MapOceanTemp {
    pub fn new(base_seed: i64, world_seed: i64) -> (l: Self)
        ensures
            l.base_seed == base_seed,
            l.world_seed == world_seed,
            l.perlin@ == noise_of(world_seed),
    {
        Self { base_seed, world_seed, perlin: NoiseGeneratorPerlin::new(world_seed) }
    }

    /// The layer.
    pub fn layer(self) -> (l: Layer)
        ensures
            l == Layer::OceanTemp(self.world_seed),
    {
        Layer::OceanTemp(self.world_seed)
    }

    /// The map of the layer over an area.
    pub fn get_map(&self, area: Area) -> (m: BiomeMap)
        requires
            area_ok(area, 1),
        ensures
            Layer::holds(
                &m,
                area,
                |x: int, z: int| ocean_class(self.perlin@, x as i64, z as i64),
            ),
    {
        ocean_temp_map(&self.perlin, area)
    }
}

} // verus!
