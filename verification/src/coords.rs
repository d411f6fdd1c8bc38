use vstd::arithmetic::div_mod::lemma_fundamental_div_mod_converse;
use vstd::prelude::*;

verus! {

/// Default value for [`VoxelChunkWidth`].
pub const DEFAULT_CHUNK_WIDTH: u8 = 16;

/// How many voxels wide (and tall, and deep) a chunk is. The width is fixed
/// once the world is configured; it is not mutable per chunk.
#[derive(Clone, Copy, Debug, PartialEq, Eq, Structural)]
pub struct VoxelChunkWidth(pub u8);

impl Default for VoxelChunkWidth {
    fn default() -> (r: Self)
        ensures
            r.0 == DEFAULT_CHUNK_WIDTH,
    {
        VoxelChunkWidth(DEFAULT_CHUNK_WIDTH)
    }
}

/// An integer 3-vector. Serves both as a discrete world-space position
/// (one unit per voxel) and as a direction offset between grid cells.
#[derive(Clone, Copy, Debug, PartialEq, Eq, Hash, Structural)]
pub struct IVec3 {
    pub x: i32,
    pub y: i32,
    pub z: i32,
}

impl IVec3 {
    pub fn new(x: i32, y: i32, z: i32) -> (r: Self)
        ensures
            r == (IVec3 { x, y, z }),
    {
        IVec3 { x, y, z }
    }
}

/// The flat storage index of local voxel position `(x, y, z)` in a chunk of
/// width `w`: `z*w*w + y*w + x`.
pub open spec fn flat_index(x: int, y: int, z: int, w: int) -> int {
    z * w * w + y * w + x
}

/// The x component recovered from a flat index.
pub open spec fn index_x(i: int, w: int) -> int {
    i % w
}

/// The y component recovered from a flat index.
pub open spec fn index_y(i: int, w: int) -> int {
    (i / w) % w
}

/// The z component recovered from a flat index.
pub open spec fn index_z(i: int, w: int) -> int {
    i / (w * w)
}

/// Flat indices and local positions are mutual inverses: decomposing
/// `flat_index(x, y, z, w)` gives back `x`, `y` and `z`, and the index
/// lies in `[0, w^3)`.
pub proof fn lemma_flat_index_round_trip(x: int, y: int, z: int, w: int)
    requires
        0 < w,
        0 <= x < w,
        0 <= y < w,
        0 <= z < w,
    ensures
        index_x(flat_index(x, y, z, w), w) == x,
        index_y(flat_index(x, y, z, w), w) == y,
        index_z(flat_index(x, y, z, w), w) == z,
        0 <= flat_index(x, y, z, w) < w * w * w,
{
    let i = flat_index(x, y, z, w);
    assert(i == (z * w + y) * w + x && 0 <= y * w + x < w * w && 0 <= (z * w + y) < w * w && i == z
        * (w * w) + (y * w + x) && i < w * w * w && 0 <= i && w * w > 0) by (nonlinear_arith)
        requires
            0 <= x < w,
            0 <= y < w,
            0 <= z < w,
            i == z * w * w + y * w + x,
    ;
    lemma_fundamental_div_mod_converse(i, w, z * w + y, x);
    lemma_fundamental_div_mod_converse(z * w + y, w, z, y);
    lemma_fundamental_div_mod_converse(i, w * w, z, y * w + x);
}

/// Recomposing the components of any flat index `i` in `[0, w^3)` gives
/// back `i`, and each component lies in `[0, w)`.
pub proof fn lemma_flat_index_recompose(i: int, w: int)
    requires
        0 < w,
        0 <= i < w * w * w,
    ensures
        flat_index(index_x(i, w), index_y(i, w), index_z(i, w), w) == i,
        0 <= index_x(i, w) < w,
        0 <= index_y(i, w) < w,
        0 <= index_z(i, w) < w,
{
    let x = i % w;
    let q = i / w;
    let z = i / (w * w);
    assert(i == w * (i / w) + i % w && 0 <= i % w < w) by {
        vstd::arithmetic::div_mod::lemma_fundamental_div_mod(i, w);
    }
    assert(q == w * (q / w) + q % w && 0 <= q % w < w) by {
        vstd::arithmetic::div_mod::lemma_fundamental_div_mod(q, w);
    }
    let y = q % w;
    assert(i == (q / w) * (w * w) + (y * w + x) && 0 <= y * w + x < w * w && 0 <= q / w < w) by (
    nonlinear_arith)
        requires
            0 < w,
            0 <= i < w * w * w,
            i == w * q + x,
            q == w * (q / w) + y,
            0 <= x < w,
            0 <= y < w,
    ;
    lemma_fundamental_div_mod_converse(i, w * w, q / w, y * w + x);
    assert(z == q / w);
    assert(z * w * w + y * w + x == i) by (nonlinear_arith)
        requires
            i == (q / w) * (w * w) + (y * w + x),
            z == q / w,
    ;
}

/// A voxel position local to its chunk; each component lies in
/// `[0, chunk_width)`. The complete world position cannot be computed
/// without the owning chunk's [`VoxelChunkPosition`].
#[derive(Debug, Clone, Copy, Eq, PartialEq, Hash, Structural)]
pub struct LocalVoxelPosition {
    pub x: u8,
    pub y: u8,
    pub z: u8,
}

impl LocalVoxelPosition {
    pub fn new(x: u8, y: u8, z: u8) -> (r: Self)
        ensures
            r == (LocalVoxelPosition { x, y, z }),
    {
        LocalVoxelPosition { x, y, z }
    }

    /// Recovers the local position stored at `index` in a chunk's flat
    /// voxel array, for the given chunk width.
    pub fn from_index(index: usize, chunk_width: &VoxelChunkWidth) -> (r: Self)
        requires
            chunk_width.0 >= 1,
            index < (chunk_width.0 as int) * (chunk_width.0 as int) * (chunk_width.0 as int),
        ensures
            r.x == index_x(index as int, chunk_width.0 as int),
            r.y == index_y(index as int, chunk_width.0 as int),
            r.z == index_z(index as int, chunk_width.0 as int),
            r.x < chunk_width.0 && r.y < chunk_width.0 && r.z < chunk_width.0,
            flat_index(r.x as int, r.y as int, r.z as int, chunk_width.0 as int) == index,
    {
        proof {
            lemma_flat_index_recompose(index as int, chunk_width.0 as int);
            assert((chunk_width.0 as int) * (chunk_width.0 as int) * (chunk_width.0 as int)
                <= 255 * 255 * 255) by (nonlinear_arith)
                requires
                    chunk_width.0 <= 255,
            ;
        }
        let cw = chunk_width.0 as u32;
        proof {
            assert(1 <= cw * cw <= 255 * 255) by (nonlinear_arith)
                requires
                    1 <= cw <= 255,
            ;
        }
        let x = index as u32 % cw;
        let y = (index as u32 / cw) % cw;
        let z = index as u32 / (cw * cw);
        Self { x: x as u8, y: y as u8, z: z as u8 }
    }

    /// The flat index of this local position in a chunk's voxel array,
    /// for the given chunk width.
    pub fn to_index(&self, chunk_width: &VoxelChunkWidth) -> (index: usize)
        requires
            chunk_width.0 >= 1,
            self.x < chunk_width.0,
            self.y < chunk_width.0,
            self.z < chunk_width.0,
        ensures
            index == flat_index(
                self.x as int,
                self.y as int,
                self.z as int,
                chunk_width.0 as int,
            ),
            index < (chunk_width.0 as int) * (chunk_width.0 as int) * (chunk_width.0 as int),
            index_x(index as int, chunk_width.0 as int) == self.x,
            index_y(index as int, chunk_width.0 as int) == self.y,
            index_z(index as int, chunk_width.0 as int) == self.z,
    {
        proof {
            lemma_flat_index_round_trip(
                self.x as int,
                self.y as int,
                self.z as int,
                chunk_width.0 as int,
            );
            assert(self.z as int * (chunk_width.0 as int) <= 255 * 255 && self.z as int
                * (chunk_width.0 as int) * (chunk_width.0 as int) <= 255 * 255 * 255 && self.y as int
                * (chunk_width.0 as int) <= 255 * 255) by (nonlinear_arith)
                requires
                    self.x < chunk_width.0,
                    self.y < chunk_width.0,
                    self.z < chunk_width.0,
                    chunk_width.0 <= 255,
            ;
        }
        let index = self.z as usize * chunk_width.0 as usize * chunk_width.0 as usize
            + self.y as usize * chunk_width.0 as usize + self.x as usize;
        index
    }
}

/// Integer division truncating toward zero, as the executable world-to-chunk
/// conversion performs it. For negative dividends this differs from floor
/// division: positions just below zero still land in chunk zero, so the
/// chunk at the origin covers an asymmetric span of world space.
pub open spec fn div_trunc(a: int, b: int) -> int {
    if a >= 0 {
        a / b
    } else {
        -((-a) / b)
    }
}

/// An integer 3-vector identifying a chunk's cell on the chunk grid.
/// The chunk's world origin is `chunk_coordinate * chunk_width`,
/// component-wise.
#[derive(Debug, Eq, PartialEq, Hash, Copy, Clone, Structural)]
pub struct VoxelChunkPosition(pub IVec3);

impl Default for VoxelChunkPosition {
    fn default() -> (r: Self)
        ensures
            r.0 == (IVec3 { x: 0, y: 0, z: 0 }),
    {
        VoxelChunkPosition(IVec3 { x: 0, y: 0, z: 0 })
    }
}

/// One component of truncating division, computed through unsigned
/// arithmetic so the rounding direction is explicit.
fn div_trunc_i32(a: i32, b: i32) -> (q: i32)
    requires
        b >= 1,
    ensures
        q == div_trunc(a as int, b as int),
{
    let wide: i64 = a as i64;
    if wide >= 0 {
        let mag: u64 = (wide as u64) / (b as u64);
        mag as i32
    } else {
        let mag: u64 = ((-wide) as u64) / (b as u64);
        proof {
            assert((-wide) as u64 / (b as u64) <= (-wide) as u64) by (nonlinear_arith)
                requires
                    b >= 1,
                    wide < 0,
            ;
        }
        -(mag as i64) as i32
    }
}

impl VoxelChunkPosition {
    pub fn new(x: i32, y: i32, z: i32) -> (r: Self)
        ensures
            r.0 == (IVec3 { x, y, z }),
    {
        VoxelChunkPosition(IVec3 { x, y, z })
    }

    /// The chunk whose cell contains the given discrete world position,
    /// with each component divided by the width truncating toward zero.
    pub fn from_world_pos(world_pos: IVec3, chunk_width: &VoxelChunkWidth) -> (r: Self)
        requires
            chunk_width.0 >= 1,
        ensures
            r.0.x == div_trunc(world_pos.x as int, chunk_width.0 as int),
            r.0.y == div_trunc(world_pos.y as int, chunk_width.0 as int),
            r.0.z == div_trunc(world_pos.z as int, chunk_width.0 as int),
    {
        let w = chunk_width.0 as i32;
        VoxelChunkPosition(IVec3 {
            x: div_trunc_i32(world_pos.x, w),
            y: div_trunc_i32(world_pos.y, w),
            z: div_trunc_i32(world_pos.z, w),
        })
    }

    pub fn from_chunk_pos(chunk_pos: &VoxelChunkPosition, _chunk_width: &VoxelChunkWidth) -> (r:
        Self)
        ensures
            r == *chunk_pos,
    {
        *chunk_pos
    }

    /// The world-space origin of this chunk: the coordinate scaled by the
    /// chunk width, component-wise.
    pub fn as_world_pos(&self, chunk_width: &VoxelChunkWidth) -> (r: IVec3)
        requires
            i32::MIN <= self.0.x * chunk_width.0 <= i32::MAX,
            i32::MIN <= self.0.y * chunk_width.0 <= i32::MAX,
            i32::MIN <= self.0.z * chunk_width.0 <= i32::MAX,
        ensures
            r.x == self.0.x * chunk_width.0,
            r.y == self.0.y * chunk_width.0,
            r.z == self.0.z * chunk_width.0,
    {
        let w = chunk_width.0 as i64;
        IVec3 {
            x: (self.0.x as i64 * w) as i32,
            y: (self.0.y as i64 * w) as i32,
            z: (self.0.z as i64 * w) as i32,
        }
    }

    pub fn as_chunk_pos(&self, _chunk_width: &VoxelChunkWidth) -> (r: VoxelChunkPosition)
        ensures
            r == *self,
    {
        *self
    }

    /// Component-wise truncating division by a positive scalar.
    pub fn div(self, rhs: i32) -> (r: Self)
        requires
            rhs >= 1,
        ensures
            r.0.x == div_trunc(self.0.x as int, rhs as int),
            r.0.y == div_trunc(self.0.y as int, rhs as int),
            r.0.z == div_trunc(self.0.z as int, rhs as int),
    {
        VoxelChunkPosition(IVec3 {
            x: div_trunc_i32(self.0.x, rhs),
            y: div_trunc_i32(self.0.y, rhs),
            z: div_trunc_i32(self.0.z, rhs),
        })
    }

    /// Component-wise multiplication by a scalar.
    pub fn mul(self, rhs: i32) -> (r: Self)
        requires
            i32::MIN <= self.0.x * rhs <= i32::MAX,
            i32::MIN <= self.0.y * rhs <= i32::MAX,
            i32::MIN <= self.0.z * rhs <= i32::MAX,
        ensures
            r.0.x == self.0.x * rhs,
            r.0.y == self.0.y * rhs,
            r.0.z == self.0.z * rhs,
    {
        VoxelChunkPosition(IVec3 {
            x: (self.0.x as i64 * rhs as i64) as i32,
            y: (self.0.y as i64 * rhs as i64) as i32,
            z: (self.0.z as i64 * rhs as i64) as i32,
        })
    }

    /// Component-wise difference.
    pub fn sub(self, rhs: VoxelChunkPosition) -> (r: Self)
        requires
            i32::MIN <= self.0.x - rhs.0.x <= i32::MAX,
            i32::MIN <= self.0.y - rhs.0.y <= i32::MAX,
            i32::MIN <= self.0.z - rhs.0.z <= i32::MAX,
        ensures
            r.0.x == self.0.x - rhs.0.x,
            r.0.y == self.0.y - rhs.0.y,
            r.0.z == self.0.z - rhs.0.z,
    {
        VoxelChunkPosition(IVec3 {
            x: (self.0.x as i64 - rhs.0.x as i64) as i32,
            y: (self.0.y as i64 - rhs.0.y as i64) as i32,
            z: (self.0.z as i64 - rhs.0.z as i64) as i32,
        })
    }
}

} // verus!
