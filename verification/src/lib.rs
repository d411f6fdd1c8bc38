//! A streaming voxel world, partitioned into fixed-width cubic chunks.
//!
//! Chunks are generated on demand from a seeded density field, kept in
//! a registry keyed by chunk-grid coordinate, streamed in and out
//! around any number of observers by distance with an unload
//! hysteresis margin, and turned into renderable surface geometry by a
//! face-culling mesher. The scheduling tick, its queues and every
//! algorithm in between carry contracts stating exactly what they
//! compute.

pub mod coords;
pub mod cube_mesh;
pub mod generation;
pub mod load;
pub mod noise;
pub mod registry;

use vstd::prelude::*;

verus! {

/// A single occupancy cell of the voxel grid. `AIR` (id 0) is the only
/// empty class; every non-zero id is solid.
#[derive(Clone, Copy, Debug, PartialEq, Eq, Structural)]
pub struct Voxel {
    pub id: u16,
}

impl Voxel {
    pub const AIR: u16 = 0;
    pub const STONE: u16 = 1;

    pub fn new(id: u16) -> (v: Self)
        ensures
            v.id == id,
    {
        Self { id }
    }

    /// A voxel is solid exactly when its id differs from `AIR`.
    pub fn is_solid(&self) -> (r: bool)
        ensures
            r == (self.id != Voxel::AIR),
    {
        self.id != Voxel::AIR
    }
}

impl Default for Voxel {
    fn default() -> (v: Self)
        ensures
            v.id == Voxel::AIR,
    {
        Voxel { id: Voxel::AIR }
    }
}

} // verus!
