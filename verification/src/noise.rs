use crate::Voxel;
use vstd::prelude::*;

verus! {

/// The density field: a seeded, deterministic classification of every
/// discrete world position as solid or empty. The field is a 64-bit
/// mixing hash of the seed and the three coordinates, so the world is
/// regenerated identically from the seed alone and sampling one position
/// never depends on another.
pub struct TerrainNoise {
    pub seed: u32,
}

/// A coordinate shifted into unsigned range, so the hash treats negative
/// world positions on the same footing as positive ones.
pub open spec fn coord_code(v: int) -> u64 {
    ((v + 0x8000000000000000) as u64)
}

/// One round of the mixing hash.
pub open spec fn mix(h: u64, v: u64) -> u64 {
    (h ^ v).wrapping_mul(0x9e3779b97f4a7c15u64)
}

/// The hash code of one world position under the given seed.
pub open spec fn density_code(seed: u32, x: int, y: int, z: int) -> u64 {
    let h = mix(mix(mix(seed as u64, coord_code(x)), coord_code(y)), coord_code(z));
    h ^ (h >> 31)
}

/// Whether the field classifies the world position as solid.
pub open spec fn density_solid(seed: u32, x: int, y: int, z: int) -> bool {
    density_code(seed, x, y, z) & 1 == 0
}

/// The voxel the field produces at one world position: stone where the
/// field is solid, air elsewhere.
pub open spec fn density_voxel(seed: u32, x: int, y: int, z: int) -> Voxel {
    if density_solid(seed, x, y, z) {
        Voxel { id: Voxel::STONE }
    } else {
        Voxel { id: Voxel::AIR }
    }
}

/// Relies on rand::random: draws one value from the thread-local
/// generator. Nothing is promised of the value drawn.
#[verifier::external_body]
fn draw_seed() -> u32 {
    rand::random::<u32>()
}

impl TerrainNoise {
    /// A field with a freshly drawn random seed.
    pub fn rand() -> Self {
        TerrainNoise { seed: draw_seed() }
    }

    /// Samples the field at a wide-range world position. Chunk-grid
    /// coordinates scaled by the chunk width always fit this range.
    pub fn sample(&self, x: i64, y: i64, z: i64) -> (v: Voxel)
        ensures
            v == density_voxel(self.seed, x as int, y as int, z as int),
    {
        let cx: u64 = ((x as i128) + 0x8000000000000000i128) as u64;
        let cy: u64 = ((y as i128) + 0x8000000000000000i128) as u64;
        let cz: u64 = ((z as i128) + 0x8000000000000000i128) as u64;
        let h0: u64 = (self.seed as u64 ^ cx).wrapping_mul(0x9e3779b97f4a7c15u64);
        let h1: u64 = (h0 ^ cy).wrapping_mul(0x9e3779b97f4a7c15u64);
        let h2: u64 = (h1 ^ cz).wrapping_mul(0x9e3779b97f4a7c15u64);
        let code: u64 = h2 ^ (h2 >> 31);
        if code & 1 == 0 {
            Voxel { id: 1 }
        } else {
            Voxel { id: 0 }
        }
    }

    /// Classifies the world position `(x, y, z)`.
    pub fn get_voxel(&self, x: i32, y: i32, z: i32) -> (v: Voxel)
        ensures
            v == density_voxel(self.seed, x as int, y as int, z as int),
    {
        self.sample(x as i64, y as i64, z as i64)
    }
}

impl Default for TerrainNoise {
    /// A field seeded at random, as a fresh world is.
    fn default() -> Self {
        TerrainNoise::rand()
    }
}

} // verus!
