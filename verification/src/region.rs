//! Region and Layout: pre-computed static layout regions with dirty
//! tracking.

use vstd::prelude::*;
use crate::rect::Rect;

verus! {

/// Unique identifier for a layout region.
#[derive(Clone, Copy, PartialEq, Eq, Structural, Hash, Debug)]
pub struct RegionId(pub u16);

impl RegionId {
    /// Create a new region identifier.
    pub fn new(id: u16) -> (r: RegionId)
        ensures
            r == RegionId(id),
    {
        RegionId(id)
    }
}

/// A layout region with position, stacking order and dirty tracking.
#[derive(Clone, Copy, PartialEq, Eq, Structural, Debug)]
pub struct Region {
    /// Unique identifier.
    pub id: RegionId,
    /// Position and size.
    pub rect: Rect,
    /// Stacking order for overlays; higher is on top.
    pub z_index: u8,
    /// Dirty generation, incremented when content changes; zero means
    /// clean.
    pub dirty_generation: u64,
}

impl Region {
    /// Create a clean region at the bottom of the stacking order.
    pub fn new(id: RegionId, rect: Rect) -> (r: Region)
        ensures
            r == (Region { id, rect, z_index: 0u8, dirty_generation: 0u64 }),
    {
        Region { id, rect, z_index: 0, dirty_generation: 0 }
    }

    /// Return a copy with the given stacking order.
    pub fn with_z_index(self, z: u8) -> (r: Region)
        ensures
            r == (Region { z_index: z, ..self }),
    {
        Region { z_index: z, ..self }
    }

    /// Mark the region dirty by advancing its generation (saturating).
    pub fn mark_dirty(&mut self)
        ensures
            final(self).dirty_generation == if old(self).dirty_generation < u64::MAX {
                old(self).dirty_generation + 1
            } else {
                u64::MAX as int
            },
            final(self).id == old(self).id,
            final(self).rect == old(self).rect,
            final(self).z_index == old(self).z_index,
    {
        if self.dirty_generation < u64::MAX {
            self.dirty_generation = self.dirty_generation + 1;
        }
    }
}

/// A flat list of layout regions for a terminal size.
#[derive(Debug)]
pub struct Layout {
    /// The regions, in insertion order.
    pub regions: Vec<Region>,
    /// The terminal size the layout was computed for.
    pub terminal_size: (u16, u16),
    /// Global generation counter, advanced on resize.
    pub generation: u64,
}

impl Layout {
    /// The regions, at the specification level.
    pub open spec fn spec_regions(&self) -> Seq<Region> {
        self.regions@
    }

    /// Create an empty layout for the given terminal size.
    pub fn new(width: u16, height: u16) -> (r: Layout)
        ensures
            r.spec_regions() == Seq::<Region>::empty(),
            r.terminal_size == (width, height),
    {
        Layout { regions: Vec::new(), terminal_size: (width, height), generation: 0 }
    }

    /// Append a region.
    pub fn add_region(&mut self, region: Region)
        ensures
            final(self).spec_regions() == old(self).spec_regions().push(region),
            final(self).terminal_size == old(self).terminal_size,
    {
        self.regions.push(region);
    }

    /// The first region with the given identifier, if any.
    pub fn get(&self, id: RegionId) -> (r: Option<Region>)
        ensures
            r matches Some(reg) ==> exists|i: int|
                0 <= i < self.spec_regions().len() && self.spec_regions()[i] == reg && reg.id
                    == id,
            r is None ==> forall|i: int|
                0 <= i < self.spec_regions().len() ==> #[trigger] self.spec_regions()[i].id != id,
    {
        let n = self.regions.len();
        let mut i: usize = 0;
        while i < n
            invariant
                i <= n,
                n == self.spec_regions().len(),
                forall|j: int| 0 <= j < i ==> #[trigger] self.spec_regions()[j].id != id,
            decreases n - i,
        {
            if self.regions[i].id == id {
                return Some(self.regions[i]);
            }
            i = i + 1;
        }
        None
    }

    /// Replace the first region with the given identifier; returns whether
    /// one was found.
    pub fn set(&mut self, id: RegionId, region: Region) -> (r: bool)
        ensures
            final(self).terminal_size == old(self).terminal_size,
            r ==> exists|i: int|
                0 <= i < old(self).spec_regions().len() && old(self).spec_regions()[i].id == id
                    && final(self).spec_regions() == old(self).spec_regions().update(i, region),
            !r ==> final(self).spec_regions() == old(self).spec_regions(),
    {
        let n = self.regions.len();
        let mut i: usize = 0;
        while i < n
            invariant
                i <= n,
                n == self.spec_regions().len(),
                *self == *old(self),
                forall|j: int| 0 <= j < i ==> #[trigger] self.spec_regions()[j].id != id,
            decreases n - i,
        {
            if self.regions[i].id == id {
                self.regions.set(i, region);
                return true;
            }
            i = i + 1;
        }
        false
    }

    /// The regions whose dirty generation is nonzero, in order.
    pub fn dirty_regions(&self) -> (r: Vec<Region>)
        ensures
            r@ == self.spec_regions().filter(|reg: Region| reg.dirty_generation > 0),
    {
        let n = self.regions.len();
        let mut out: Vec<Region> = Vec::new();
        let mut i: usize = 0;
        while i < n
            invariant
                i <= n,
                n == self.spec_regions().len(),
                out@ == self.spec_regions().take(i as int).filter(
                    |reg: Region| reg.dirty_generation > 0,
                ),
            decreases n - i,
        {
            proof {
                reveal_with_fuel(Seq::filter, 2);
                assert(self.spec_regions().take(i + 1).drop_last() =~= self.spec_regions().take(
                    i as int,
                ));
                assert(self.spec_regions().take(i + 1).last() == self.spec_regions()[i as int]);
            }
            if self.regions[i].dirty_generation > 0 {
                out.push(self.regions[i]);
            }
            i = i + 1;
        }
        proof {
            assert(self.spec_regions().take(n as int) =~= self.spec_regions());
        }
        out
    }

    /// Clear every region's dirty generation.
    pub fn clear_dirty(&mut self)
        ensures
            final(self).terminal_size == old(self).terminal_size,
            final(self).spec_regions().len() == old(self).spec_regions().len(),
            forall|i: int|
                0 <= i < final(self).spec_regions().len()
                    ==> #[trigger] final(self).spec_regions()[i] == (Region {
                    dirty_generation: 0u64,
                    ..old(self).spec_regions()[i]
                }),
    {
        let n = self.regions.len();
        let mut i: usize = 0;
        while i < n
            invariant
                i <= n,
                n == self.spec_regions().len(),
                self.terminal_size == old(self).terminal_size,
                forall|j: int|
                    i <= j < n ==> #[trigger] self.spec_regions()[j] == old(self).spec_regions()[j],
                forall|j: int|
                    0 <= j < i ==> #[trigger] self.spec_regions()[j] == (Region {
                        dirty_generation: 0u64,
                        ..old(self).spec_regions()[j]
                    }),
            decreases n - i,
        {
            let mut reg = self.regions[i];
            reg.dirty_generation = 0;
            self.regions.set(i, reg);
            i = i + 1;
        }
    }

    /// Record a new terminal size and advance the layout generation; the
    /// regions keep their positions, for the caller to recompute.
    pub fn resize(&mut self, width: u16, height: u16)
        ensures
            final(self).terminal_size == (width, height),
            final(self).spec_regions() == old(self).spec_regions(),
    {
        self.terminal_size = (width, height);
        if self.generation < u64::MAX {
            self.generation = self.generation + 1;
        }
    }
}

} // verus!
