//! A layer that remembers the cells that it has been asked for.

use std::collections::HashMap;
use vstd::prelude::*;
use vstd::std_specs::hash::*;
use crate::biome_layers::grid::lemma_cells_fit_sides;
use crate::biome_layers::layers::{area_ok, lemma_area_ok_less, Layer};
use crate::biome_layers::{coord_limit, Area, BiomeMap};

verus! {

broadcast use vstd::std_specs::hash::group_hash_axioms;

/// The key under which the cell `(x, z)` is kept: the two coordinates,
/// each counted from the least 64-bit number, side by side.
pub open spec fn cell_key(x: i64, z: i64) -> u128 {
    ((x + 0x8000_0000_0000_0000) * 0x1_0000_0000_0000_0000 + (z + 0x8000_0000_0000_0000)) as u128
}

/// Two cells with one key are one cell.
pub proof fn lemma_cell_key(x1: i64, z1: i64, x2: i64, z2: i64)
    requires
        cell_key(x1, z1) == cell_key(x2, z2),
    ensures
        x1 == x2,
        z1 == z2,
{
    let a1 = x1 + 0x8000_0000_0000_0000;
    let b1 = z1 + 0x8000_0000_0000_0000;
    let a2 = x2 + 0x8000_0000_0000_0000;
    let b2 = z2 + 0x8000_0000_0000_0000;
    assert(a1 * 0x1_0000_0000_0000_0000 + b1 == a2 * 0x1_0000_0000_0000_0000 + b2);
    assert(a1 == a2 && b1 == b2);
}

/// The key under which the cell `(x, z)` is kept.
pub fn cell_key_of(x: i64, z: i64) -> (k: u128)
    ensures
        k == cell_key(x, z),
{
    let a = (x as i128 + 0x8000_0000_0000_0000) as u128;
    let b = (z as i128 + 0x8000_0000_0000_0000) as u128;
    a * 0x1_0000_0000_0000_0000 + b
}

/// A layer that keeps the value of every cell that it has given out, by
/// the coordinates of the cell, and asks the layer below only for areas
/// of which it lacks a cell.
pub struct CachedMap {
    pub parent: Layer,
    pub cache: HashMap<u128, i32>,
}

impl CachedMap {
    /// Whether every cell that is kept holds the value of the layer
    /// below.
    pub open spec fn wf(&self) -> bool {
        forall|x: i64, z: i64| #[trigger]
            self.cache@.contains_key(cell_key(x, z)) ==> self.cache@[cell_key(x, z)]
                == self.parent.cell(x as int, z as int)
    }

    /// Whether the cell `(x, z)` is kept.
    pub open spec fn holds(&self, x: i64, z: i64) -> bool {
        self.cache@.contains_key(cell_key(x, z))
    }

    /// The layer over the layer below, with no cell kept.
    pub fn new(parent: Layer) -> (c: Self)
        ensures
            c.parent == parent,
            c.wf(),
            forall|x: i64, z: i64| !c.holds(x, z),
    {
        CachedMap { parent, cache: HashMap::new() }
    }

    /// Keeps the cells of a map of the layer below.
    pub fn insert_into_cache(&mut self, m: &BiomeMap)
        requires
            old(self).wf(),
            old(self).parent.shown_by(m, m.region()),
            m.within(coord_limit()),
        ensures
            final(self).wf(),
            final(self).parent == old(self).parent,
            forall|x: i64, z: i64| #[trigger]
                final(self).holds(x, z) <==> old(self).holds(x, z) || m.region().has(
                    x as int,
                    z as int,
                ),
    {
        let area = m.area();
        proof {
            lemma_cells_fit_sides(m.w() as int, m.h() as int);
        }
        let (w, h) = m.dim();
        let mut i: usize = 0;
        while i < w
            invariant
                i <= w,
                w == m.w(),
                h == m.h(),
                area == m.region(),
                m.within(coord_limit()),
                self.wf(),
                self.parent == old(self).parent,
                self.parent.shown_by(m, area),
                forall|x: i64, z: i64| #[trigger]
                    self.holds(x, z) <==> old(self).holds(x, z) || (area.x <= x < area.x + i
                        && area.z <= z < area.z + h),
            decreases w - i,
        {
            let mut j: usize = 0;
            while j < h
                invariant
                    i < w,
                    j <= h,
                    w == m.w(),
                    h == m.h(),
                    area == m.region(),
                    m.within(coord_limit()),
                    self.wf(),
                    self.parent == old(self).parent,
                    self.parent.shown_by(m, area),
                    forall|x: i64, z: i64| #[trigger]
                        self.holds(x, z) <==> old(self).holds(x, z) || (area.x <= x < area.x + i
                            && area.z <= z < area.z + h) || (x == area.x + i && area.z <= z
                            < area.z + j),
                decreases h - j,
            {
                let cx = area.x + i as i64;
                let cz = area.z + j as i64;
                let v = m.at(i, j);
                let k = cell_key_of(cx, cz);
                let ghost before = self.cache@;
                let ghost prev = *self;
                self.cache.insert(k, v);
                proof {
                    assert(v == self.parent.cell(area.x + i, area.z + j));
                    assert forall|x: i64, z: i64| #[trigger]
                        self.cache@.contains_key(cell_key(x, z)) implies self.cache@[cell_key(
                        x,
                        z,
                    )] == self.parent.cell(x as int, z as int) by {
                        if cell_key(x, z) == k {
                            lemma_cell_key(x, z, cx, cz);
                        } else {
                            assert(before.contains_key(cell_key(x, z)));
                        }
                    }
                    assert forall|x: i64, z: i64| #[trigger]
                        self.holds(x, z) <==> old(self).holds(x, z) || (area.x <= x < area.x + i
                            && area.z <= z < area.z + h) || (x == area.x + i && area.z <= z
                            < area.z + j + 1) by {
                        if cell_key(x, z) == k {
                            lemma_cell_key(x, z, cx, cz);
                        } else {
                            assert(self.holds(x, z) == prev.holds(x, z));
                        }
                    }
                }
                j += 1;
            }
            i += 1;
        }
    }

    /// The map of an area from the cells that are kept, where all of its
    /// cells are.
    pub fn get_all_from_cache(&self, area: Area) -> (r: Option<BiomeMap>)
        requires
            self.wf(),
            area_ok(area, 0),
        ensures
            r is Some <==> forall|x: i64, z: i64|
                area.has(x as int, z as int) ==> self.holds(x, z),
            match r {
                Some(m) => self.parent.shown_by(&m, area),
                None => true,
            },
    {
        proof {
            lemma_cells_fit_sides(area.w as int, area.h as int);
        }
        let mut m = BiomeMap::new(area);
        let w = area.w as usize;
        let h = area.h as usize;
        let mut i: usize = 0;
        while i < w
            invariant
                i <= w,
                w == area.w,
                h == area.h,
                area_ok(area, 0),
                self.wf(),
                m.wf(),
                m.x == area.x,
                m.z == area.z,
                m.w() == area.w,
                m.h() == area.h,
                forall|x: i64, z: i64|
                    area.x <= x < area.x + i && area.z <= z < area.z + h ==> self.holds(x, z),
                forall|a: int, b: int|
                    0 <= a < i && 0 <= b < h ==> #[trigger] m.cell_at(a, b) == self.parent.cell(
                        area.x + a,
                        area.z + b,
                    ),
            decreases w - i,
        {
            let mut j: usize = 0;
            while j < h
                invariant
                    i < w,
                    j <= h,
                    w == area.w,
                    h == area.h,
                    area_ok(area, 0),
                    self.wf(),
                    m.wf(),
                    m.x == area.x,
                    m.z == area.z,
                    m.w() == area.w,
                    m.h() == area.h,
                    forall|x: i64, z: i64|
                        (area.x <= x < area.x + i && area.z <= z < area.z + h) || (x == area.x
                            + i && area.z <= z < area.z + j) ==> self.holds(x, z),
                    forall|a: int, b: int|
                        0 <= a < w && 0 <= b < h && (a < i || (a == i && b < j))
                            ==> #[trigger] m.cell_at(a, b) == self.parent.cell(
                            area.x + a,
                            area.z + b,
                        ),
                decreases h - j,
            {
                let cx = area.x + i as i64;
                let cz = area.z + j as i64;
                let k = cell_key_of(cx, cz);
                match self.cache.get(&k) {
                    Some(b) => {
                        assert(self.holds(cx, cz));
                        m.put(i, j, *b);
                    },
                    None => {
                        assert(!self.holds(cx, cz));
                        assert(area.has(cx as int, cz as int));
                        return None;
                    },
                }
                j += 1;
            }
            i += 1;
        }
        Some(m)
    }

    /// The map of an area: from the cells that are kept where all of its
    /// cells are, else from the layer below, whose cells are then kept.
    pub fn get_map(&mut self, area: Area) -> (m: BiomeMap)
        requires
            old(self).wf(),
            area_ok(area, old(self).parent.depth()),
        ensures
            final(self).wf(),
            final(self).parent == old(self).parent,
            final(self).parent.shown_by(&m, area),
            forall|x: i64, z: i64| #[trigger]
                final(self).holds(x, z) <==> old(self).holds(x, z) || area.has(x as int, z as int),
    {
        proof {
            lemma_area_ok_less(area, self.parent.depth(), 0);
        }
        match self.get_all_from_cache(area) {
            Some(m) => m,
            None => {
                let m = self.parent.get_map(area);
                self.insert_into_cache(&m);
                m
            },
        }
    }

    /// The map of the area of another map.
    pub fn get_map_from_pmap(&mut self, pmap: &BiomeMap) -> (m: BiomeMap)
        requires
            old(self).wf(),
            area_ok(pmap.region(), old(self).parent.depth()),
        ensures
            final(self).wf(),
            final(self).parent == old(self).parent,
            final(self).parent.shown_by(&m, pmap.region()),
    {
        let area = pmap.area();
        self.get_map(area)
    }
}

} // verus!
