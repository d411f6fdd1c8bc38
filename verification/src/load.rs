use crate::coords::{div_trunc, IVec3, VoxelChunkPosition, VoxelChunkWidth};
use crate::generation::{chunk_mesh, chunk_voxel, MeshData, VoxelChunk};
use crate::noise::TerrainNoise;
use crate::registry::{entries_contain, entries_remove, ChunkArena, VoxelChunkMap};
use crate::Voxel;
use std::collections::VecDeque;
use vstd::prelude::*;

verus! {

/// How far around an observer chunks must be loaded, and how much
/// farther they may drift before they are let go. Both radii are in
/// chunk units. The band between them is the hysteresis zone: a chunk
/// there is neither re-requested nor unloaded, so an observer moving
/// near the boundary does not make the world oscillate.
#[derive(Clone, Copy, Debug, PartialEq, Eq, Structural)]
pub struct RenderDistance {
    pub val: u32,
    pub unload_margin: u32,
}

impl RenderDistance {
    pub fn new(val: u32, unload_margin: u32) -> (r: Self)
        ensures
            r == (RenderDistance { val, unload_margin }),
    {
        Self { val, unload_margin }
    }
}

/// An entity the streaming scheduler serves: a world position and the
/// radii that govern loading and unloading around it.
#[derive(Clone, Copy, Debug, PartialEq, Eq, Structural)]
pub struct Observer {
    pub position: IVec3,
    pub render_distance: RenderDistance,
}

/// The squared Euclidean distance between two grid points.
pub open spec fn dist_sq(a: IVec3, b: IVec3) -> int {
    (a.x - b.x) * (a.x - b.x) + (a.y - b.y) * (a.y - b.y) + (a.z - b.z) * (a.z - b.z)
}

/// The chunk-grid cell of a discrete world position: each component
/// divided by the chunk width, truncating toward zero.
pub open spec fn chunk_of_world(p: IVec3, w: int) -> IVec3 {
    IVec3 {
        x: (div_trunc(p.x as int, w) as i32),
        y: (div_trunc(p.y as int, w) as i32),
        z: (div_trunc(p.z as int, w) as i32),
    }
}

/// The chunk-grid cell an observer stands in.
pub open spec fn spec_origin(o: Observer, w: int) -> IVec3 {
    chunk_of_world(o.position, w)
}

/// Whether chunk `c` lies within the observer's render sphere: its
/// Euclidean distance from the observer's origin chunk, in chunk units,
/// is at most the render distance.
pub open spec fn in_load_range(o: Observer, c: VoxelChunkPosition, w: int) -> bool {
    dist_sq(c.0, spec_origin(o, w)) <= (o.render_distance.val as int) * (
    o.render_distance.val as int)
}

/// The radius beyond which a chunk becomes eligible for unload: render
/// distance plus the hysteresis margin.
pub open spec fn keep_radius(o: Observer) -> int {
    o.render_distance.val as int + o.render_distance.unload_margin as int
}

/// Whether chunk `c` is still within the observer's keep sphere.
pub open spec fn within_keep_range(o: Observer, c: VoxelChunkPosition, w: int) -> bool {
    dist_sq(c.0, spec_origin(o, w)) <= keep_radius(o) * keep_radius(o)
}

/// A chunk is unloaded only when every observer has let it go: it lies
/// beyond the keep radius of each one. One observer still in range
/// retains it.
pub open spec fn should_unload(observers: Seq<Observer>, c: VoxelChunkPosition, w: int) -> bool {
    forall|k: int| 0 <= k < observers.len() ==> !within_keep_range(#[trigger] observers[k], c, w)
}

/// No element of the sequence occurs twice.
pub open spec fn distinct_seq<T>(s: Seq<T>) -> bool {
    forall|i: int, j: int| 0 <= i < j < s.len() ==> s[i] != s[j]
}

/// A value whose square is bounded by the square of a non-negative
/// bound lies within that bound.
proof fn lemma_abs_le_of_sq_le(a: int, b: int)
    requires
        b >= 0,
        a * a <= b * b,
    ensures
        -b <= a <= b,
{
    assert(-b <= a <= b) by (nonlinear_arith)
        requires
            b >= 0,
            a * a <= b * b,
    ;
}

/// A chunk within an observer's render sphere lies within its axial
/// cube as well: each coordinate is within the render distance of the
/// origin's.
proof fn lemma_load_range_cube(o: Observer, c: VoxelChunkPosition, w: int)
    requires
        in_load_range(o, c, w),
    ensures
        spec_origin(o, w).x - o.render_distance.val <= c.0.x <= spec_origin(o, w).x
            + o.render_distance.val,
        spec_origin(o, w).y - o.render_distance.val <= c.0.y <= spec_origin(o, w).y
            + o.render_distance.val,
        spec_origin(o, w).z - o.render_distance.val <= c.0.z <= spec_origin(o, w).z
            + o.render_distance.val,
{
    let org = spec_origin(o, w);
    let r = o.render_distance.val as int;
    let dx = c.0.x - org.x;
    let dy = c.0.y - org.y;
    let dz = c.0.z - org.z;
    assert(dx * dx <= r * r && dy * dy <= r * r && dz * dz <= r * r) by (nonlinear_arith)
        requires
            dx * dx + dy * dy + dz * dz <= r * r,
    ;
    lemma_abs_le_of_sq_le(dx, r);
    lemma_abs_le_of_sq_le(dy, r);
    lemma_abs_le_of_sq_le(dz, r);
}

/// The squared distance from a chunk coordinate to an origin chunk,
/// computed exactly in wide integers.
fn dist_sq_to(c: &VoxelChunkPosition, origin: &VoxelChunkPosition) -> (d: i128)
    ensures
        d == dist_sq(c.0, origin.0),
        d >= 0,
{
    let dx: i128 = c.0.x as i128 - origin.0.x as i128;
    let dy: i128 = c.0.y as i128 - origin.0.y as i128;
    let dz: i128 = c.0.z as i128 - origin.0.z as i128;
    proof {
        assert(0 <= dx * dx < 0x20000000000000000 && 0 <= dy * dy < 0x20000000000000000 && 0 <= dz
            * dz < 0x20000000000000000) by (nonlinear_arith)
            requires
                -0x100000000 < dx < 0x100000000,
                -0x100000000 < dy < 0x100000000,
                -0x100000000 < dz < 0x100000000,
        ;
    }
    dx * dx + dy * dy + dz * dz
}

/// The queues feeding the loader and the unloader: chunks waiting to be
/// brought into the world, and (coordinate, handle) pairs waiting to be
/// let go. Both are served first requested, first served.
pub struct ChunkLoadQueue {
    /// Chunks to be loaded.
    pub load: VecDeque<VoxelChunkPosition>,
    /// Chunks to be unloaded.
    pub unload: VecDeque<(VoxelChunkPosition, usize)>,
}

/// One unit of work for [`ChunkLoadQueue::push_chunk`].
pub enum ChunkLoadQueueInput {
    Load(VoxelChunkPosition),
    Unload((VoxelChunkPosition, usize)),
}

impl ChunkLoadQueue {
    pub fn new() -> (r: Self)
        ensures
            r.load@.len() == 0,
            r.unload@.len() == 0,
    {
        ChunkLoadQueue { load: VecDeque::new(), unload: VecDeque::new() }
    }

    /// Appends one work item to the back of its queue.
    pub fn push_chunk(&mut self, input: ChunkLoadQueueInput)
        ensures
            match input {
                ChunkLoadQueueInput::Load(pos) => final(self).load@ == old(self).load@.push(pos)
                    && final(self).unload@ == old(self).unload@,
                ChunkLoadQueueInput::Unload(pair) => final(self).unload@ == old(
                    self,
                ).unload@.push(pair) && final(self).load@ == old(self).load@,
            },
    {
        match input {
            ChunkLoadQueueInput::Load(pos) => self.load.push_back(pos),
            ChunkLoadQueueInput::Unload((chunk_pos, key)) => self.unload.push_back((chunk_pos, key)),
        }
    }
}

/// The queue of chunk handles waiting to have their meshes built.
pub struct ChunkRenderQueue {
    /// Chunks to be rendered.
    pub queue: VecDeque<usize>,
}

impl ChunkRenderQueue {
    pub fn new() -> (r: Self)
        ensures
            r.queue@.len() == 0,
    {
        ChunkRenderQueue { queue: VecDeque::new() }
    }

    /// Appends one chunk handle to the back of the queue.
    pub fn push_chunk(&mut self, key: usize)
        ensures
            final(self).queue@ == old(self).queue@.push(key),
    {
        self.queue.push_back(key);
    }
}

/// Whether the cell `c` comes strictly before the walk position
/// `(x, y, z)` in the cube scan's lexicographic order.
pub open spec fn lex_lt(c: IVec3, x: int, y: int, z: int) -> bool {
    c.x < x || (c.x == x && (c.y < y || (c.y == y && c.z < z)))
}

/// Whether one observer wants chunk `c` brought in: it is not yet
/// registered and lies within the observer's render sphere.
pub open spec fn load_wanted(map: VoxelChunkMap, o: Observer, w: int, c: VoxelChunkPosition) -> bool {
    !map.spec_contains(c) && in_load_range(o, c, w)
}

/// Whether the load queue already holds the coordinate.
fn load_queue_contains(q: &VecDeque<VoxelChunkPosition>, c: &VoxelChunkPosition) -> (r: bool)
    ensures
        r == q@.contains(*c),
{
    let mut i: usize = 0;
    while i < q.len()
        invariant
            i <= q@.len(),
            forall|j: int| 0 <= j < i ==> q@[j] != *c,
        decreases q@.len() - i,
    {
        if q[i] == *c {
            return true;
        }
        i += 1;
    }
    false
}

/// Walks one observer's axial cube `[origin - R, origin + R]^3` in
/// lexicographic order and appends to the load queue every coordinate
/// that is unregistered, not yet queued, and within Euclidean distance
/// `R` of the origin — the render sphere inscribed in the scanned cube.
fn enqueue_for_observer(
    observer: &Observer,
    chunk_width: &VoxelChunkWidth,
    chunk_load_queue: &mut ChunkLoadQueue,
    voxel_chunk_map: &VoxelChunkMap,
)
    requires
        chunk_width.0 >= 1,
    ensures
        final(chunk_load_queue).unload@ == old(chunk_load_queue).unload@,
        final(chunk_load_queue).load@.len() >= old(chunk_load_queue).load@.len(),
        final(chunk_load_queue).load@.subrange(0, old(chunk_load_queue).load@.len() as int) == old(
            chunk_load_queue,
        ).load@,
        forall|c: VoxelChunkPosition|
            final(chunk_load_queue).load@.contains(c) <==> old(chunk_load_queue).load@.contains(c)
                || load_wanted(*voxel_chunk_map, *observer, chunk_width.0 as int, c),
        forall|j: int|
            old(chunk_load_queue).load@.len() <= j < final(chunk_load_queue).load@.len() ==> !old(
                chunk_load_queue,
            ).load@.contains(#[trigger] final(chunk_load_queue).load@[j]) && load_wanted(
                *voxel_chunk_map,
                *observer,
                chunk_width.0 as int,
                final(chunk_load_queue).load@[j],
            ),
        distinct_seq(old(chunk_load_queue).load@) ==> distinct_seq(final(chunk_load_queue).load@),
{
    let ghost wi: int = chunk_width.0 as int;
    let ghost old_load = chunk_load_queue.load@;
    let origin = VoxelChunkPosition::from_world_pos(observer.position, chunk_width);
    proof {
        assert(origin.0 == spec_origin(*observer, wi));
    }
    let ghost gorg = spec_origin(*observer, wi);
    let r64: i64 = observer.render_distance.val as i64;
    let ghost rr: int = observer.render_distance.val as int;
    let lo_x: i64 = if origin.0.x as i64 - r64 < -0x80000000i64 {
        -0x80000000i64
    } else {
        origin.0.x as i64 - r64
    };
    let hi_x: i64 = if origin.0.x as i64 + r64 > 0x7fffffffi64 {
        0x7fffffffi64
    } else {
        origin.0.x as i64 + r64
    };
    let lo_y: i64 = if origin.0.y as i64 - r64 < -0x80000000i64 {
        -0x80000000i64
    } else {
        origin.0.y as i64 - r64
    };
    let hi_y: i64 = if origin.0.y as i64 + r64 > 0x7fffffffi64 {
        0x7fffffffi64
    } else {
        origin.0.y as i64 + r64
    };
    let lo_z: i64 = if origin.0.z as i64 - r64 < -0x80000000i64 {
        -0x80000000i64
    } else {
        origin.0.z as i64 - r64
    };
    let hi_z: i64 = if origin.0.z as i64 + r64 > 0x7fffffffi64 {
        0x7fffffffi64
    } else {
        origin.0.z as i64 + r64
    };
    proof {
        assert forall|c: VoxelChunkPosition|
            load_wanted(*voxel_chunk_map, *observer, wi, c) implies lo_x <= c.0.x <= hi_x && lo_y
            <= c.0.y <= hi_y && lo_z <= c.0.z <= hi_z by {
            lemma_load_range_cube(*observer, c, wi);
        }
    }
    let mut x: i64 = lo_x;
    while x <= hi_x
        invariant
            chunk_width.0 as int == wi,
            gorg == spec_origin(*observer, wi),
            origin.0 == gorg,
            rr == observer.render_distance.val as int,
            lo_x <= x <= hi_x + 1,
            -0x80000000 <= lo_x && hi_x <= 0x7fffffff && lo_x <= hi_x,
            -0x80000000 <= lo_y && hi_y <= 0x7fffffff && lo_y <= hi_y,
            -0x80000000 <= lo_z && hi_z <= 0x7fffffff && lo_z <= hi_z,
            forall|c: VoxelChunkPosition|
                load_wanted(*voxel_chunk_map, *observer, wi, c) ==> lo_x <= c.0.x <= hi_x && lo_y
                    <= c.0.y <= hi_y && lo_z <= c.0.z <= hi_z,
            chunk_load_queue.unload@ == old(chunk_load_queue).unload@,
            old_load == old(chunk_load_queue).load@,
            chunk_load_queue.load@.len() >= old_load.len(),
            chunk_load_queue.load@.subrange(0, old_load.len() as int) == old_load,
            forall|c: VoxelChunkPosition|
                chunk_load_queue.load@.contains(c) <==> old_load.contains(c) || (load_wanted(
                    *voxel_chunk_map,
                    *observer,
                    wi,
                    c,
                ) && lex_lt(c.0, x as int, -0x80000000, -0x80000000)),
            forall|j: int|
                old_load.len() <= j < chunk_load_queue.load@.len() ==> !old_load.contains(
                    #[trigger] chunk_load_queue.load@[j],
                ) && load_wanted(*voxel_chunk_map, *observer, wi, chunk_load_queue.load@[j]),
            distinct_seq(old_load) ==> distinct_seq(chunk_load_queue.load@),
        decreases hi_x + 1 - x,
    {
        let mut y: i64 = lo_y;
        while y <= hi_y
            invariant
                chunk_width.0 as int == wi,
                gorg == spec_origin(*observer, wi),
                origin.0 == gorg,
                rr == observer.render_distance.val as int,
                lo_x <= x <= hi_x,
                lo_y <= y <= hi_y + 1,
                -0x80000000 <= lo_x && hi_x <= 0x7fffffff && lo_x <= hi_x,
                -0x80000000 <= lo_y && hi_y <= 0x7fffffff && lo_y <= hi_y,
                -0x80000000 <= lo_z && hi_z <= 0x7fffffff && lo_z <= hi_z,
                forall|c: VoxelChunkPosition|
                    load_wanted(*voxel_chunk_map, *observer, wi, c) ==> lo_x <= c.0.x <= hi_x
                        && lo_y <= c.0.y <= hi_y && lo_z <= c.0.z <= hi_z,
                chunk_load_queue.unload@ == old(chunk_load_queue).unload@,
                old_load == old(chunk_load_queue).load@,
                chunk_load_queue.load@.len() >= old_load.len(),
                chunk_load_queue.load@.subrange(0, old_load.len() as int) == old_load,
                forall|c: VoxelChunkPosition|
                    chunk_load_queue.load@.contains(c) <==> old_load.contains(c) || (load_wanted(
                        *voxel_chunk_map,
                        *observer,
                        wi,
                        c,
                    ) && lex_lt(c.0, x as int, y as int, -0x80000000)),
                forall|j: int|
                    old_load.len() <= j < chunk_load_queue.load@.len() ==> !old_load.contains(
                        #[trigger] chunk_load_queue.load@[j],
                    ) && load_wanted(*voxel_chunk_map, *observer, wi, chunk_load_queue.load@[j]),
                distinct_seq(old_load) ==> distinct_seq(chunk_load_queue.load@),
            decreases hi_y + 1 - y,
        {
            let mut z: i64 = lo_z;
            while z <= hi_z
                invariant
                    chunk_width.0 as int == wi,
                    gorg == spec_origin(*observer, wi),
                    origin.0 == gorg,
                    rr == observer.render_distance.val as int,
                    lo_x <= x <= hi_x,
                    lo_y <= y <= hi_y,
                    lo_z <= z <= hi_z + 1,
                    -0x80000000 <= lo_x && hi_x <= 0x7fffffff && lo_x <= hi_x,
                    -0x80000000 <= lo_y && hi_y <= 0x7fffffff && lo_y <= hi_y,
                    -0x80000000 <= lo_z && hi_z <= 0x7fffffff && lo_z <= hi_z,
                    forall|c: VoxelChunkPosition|
                        load_wanted(*voxel_chunk_map, *observer, wi, c) ==> lo_x <= c.0.x <= hi_x
                            && lo_y <= c.0.y <= hi_y && lo_z <= c.0.z <= hi_z,
                    chunk_load_queue.unload@ == old(chunk_load_queue).unload@,
                    old_load == old(chunk_load_queue).load@,
                    chunk_load_queue.load@.len() >= old_load.len(),
                    chunk_load_queue.load@.subrange(0, old_load.len() as int) == old_load,
                    forall|c: VoxelChunkPosition|
                        chunk_load_queue.load@.contains(c) <==> old_load.contains(c) || (
                        load_wanted(*voxel_chunk_map, *observer, wi, c) && lex_lt(
                            c.0,
                            x as int,
                            y as int,
                            z as int,
                        )),
                    forall|j: int|
                        old_load.len() <= j < chunk_load_queue.load@.len() ==> !old_load.contains(
                            #[trigger] chunk_load_queue.load@[j],
                        ) && load_wanted(*voxel_chunk_map, *observer, wi, chunk_load_queue.load@[j]),
                    distinct_seq(old_load) ==> distinct_seq(chunk_load_queue.load@),
                decreases hi_z + 1 - z,
            {
                let candidate = VoxelChunkPosition::new(x as i32, y as i32, z as i32);
                let ghost pre = chunk_load_queue.load@;
                let in_map = voxel_chunk_map.contains_chunk(&candidate);
                let in_queue = load_queue_contains(&chunk_load_queue.load, &candidate);
                let mut pushed = false;
                if !in_map && !in_queue {
                    let d = dist_sq_to(&candidate, &origin);
                    proof {
                        assert(rr * rr < 0x10000000000000000) by (nonlinear_arith)
                            requires
                                0 <= rr < 0x100000000,
                        ;
                    }
                    let rsq: i128 = (observer.render_distance.val as i128) * (
                    observer.render_distance.val as i128);
                    if d <= rsq {
                        chunk_load_queue.push_chunk(ChunkLoadQueueInput::Load(candidate));
                        pushed = true;
                    }
                }
                proof {
                    let cur = chunk_load_queue.load@;
                    assert(pushed == (load_wanted(*voxel_chunk_map, *observer, wi, candidate)
                        && !pre.contains(candidate)));
                    assert(cur == if pushed {
                        pre.push(candidate)
                    } else {
                        pre
                    });
                    assert(cur.subrange(0, old_load.len() as int) =~= old_load);
                    assert forall|c: VoxelChunkPosition|
                        pre.contains(c) implies #[trigger] cur.contains(c) by {
                        let j = choose|j: int| 0 <= j < pre.len() && pre[j] == c;
                        assert(cur[j] == c);
                    }
                    if pushed {
                        assert(cur[pre.len() as int] == candidate);
                        assert(cur.contains(candidate));
                    }
                    assert forall|c: VoxelChunkPosition| #[trigger]
                        cur.contains(c) implies old_load.contains(c) || (load_wanted(
                        *voxel_chunk_map,
                        *observer,
                        wi,
                        c,
                    ) && lex_lt(c.0, x as int, y as int, z as int + 1)) by {
                        let j = choose|j: int| 0 <= j < cur.len() && cur[j] == c;
                        if j < pre.len() {
                            assert(pre[j] == c);
                            assert(pre.contains(c));
                        } else {
                            assert(c == candidate);
                        }
                    }
                    assert forall|c: VoxelChunkPosition|
                        old_load.contains(c) || (load_wanted(*voxel_chunk_map, *observer, wi, c)
                            && lex_lt(c.0, x as int, y as int, z as int + 1)) implies #[trigger]
                        cur.contains(c) by {
                        if old_load.contains(c) || (load_wanted(*voxel_chunk_map, *observer, wi, c)
                            && lex_lt(c.0, x as int, y as int, z as int)) {
                            assert(pre.contains(c));
                        } else {
                            assert(c.0.x == x as int && c.0.y == y as int && c.0.z == z as int);
                            assert(c.0 == candidate.0);
                            assert(c == candidate);
                            if pre.contains(candidate) {
                            } else {
                                assert(pushed);
                            }
                        }
                    }
                }
                z += 1;
            }
            proof {
                let cur = chunk_load_queue.load@;
                assert forall|c: VoxelChunkPosition| #[trigger]
                    cur.contains(c) implies old_load.contains(c) || (load_wanted(
                    *voxel_chunk_map,
                    *observer,
                    wi,
                    c,
                ) && lex_lt(c.0, x as int, y as int + 1, -0x80000000)) by {}
                assert forall|c: VoxelChunkPosition|
                    old_load.contains(c) || (load_wanted(*voxel_chunk_map, *observer, wi, c)
                        && lex_lt(c.0, x as int, y as int + 1, -0x80000000)) implies #[trigger]
                    cur.contains(c) by {
                    if !old_load.contains(c) {
                        assert(lo_z <= c.0.z <= hi_z);
                        assert(lex_lt(c.0, x as int, y as int, z as int));
                    }
                }
            }
            y += 1;
        }
        proof {
            let cur = chunk_load_queue.load@;
            assert forall|c: VoxelChunkPosition| #[trigger]
                cur.contains(c) implies old_load.contains(c) || (load_wanted(
                *voxel_chunk_map,
                *observer,
                wi,
                c,
            ) && lex_lt(c.0, x as int + 1, -0x80000000, -0x80000000)) by {}
            assert forall|c: VoxelChunkPosition|
                old_load.contains(c) || (load_wanted(*voxel_chunk_map, *observer, wi, c) && lex_lt(
                    c.0,
                    x as int + 1,
                    -0x80000000,
                    -0x80000000,
                )) implies #[trigger] cur.contains(c) by {
                if !old_load.contains(c) {
                    assert(lo_y <= c.0.y <= hi_y && lo_z <= c.0.z <= hi_z);
                    assert(lex_lt(c.0, x as int, y as int, -0x80000000));
                }
            }
        }
        x += 1;
    }
    proof {
        let cur = chunk_load_queue.load@;
        assert forall|c: VoxelChunkPosition|
            old_load.contains(c) || load_wanted(*voxel_chunk_map, *observer, wi, c) implies
            #[trigger] cur.contains(c) by {
            if !old_load.contains(c) {
                assert(lo_x <= c.0.x <= hi_x);
                assert(lex_lt(c.0, x as int, -0x80000000, -0x80000000));
            }
        }
    }
}

/// The scheduler's load scan: for every observer, walks the axial cube
/// of side `2R + 1` around the observer's origin chunk and queues every
/// coordinate within Euclidean distance `R` that is neither registered
/// nor already queued. The queue keeps its old items in place, gains no
/// duplicates, and afterwards holds a coordinate exactly when it was
/// queued before or some observer wants it loaded.
pub fn enqueue_chunks_in_render_distance(
    observers: &Vec<Observer>,
    chunk_width: &VoxelChunkWidth,
    chunk_load_queue: &mut ChunkLoadQueue,
    voxel_chunk_map: &VoxelChunkMap,
)
    requires
        chunk_width.0 >= 1,
    ensures
        final(chunk_load_queue).unload@ == old(chunk_load_queue).unload@,
        final(chunk_load_queue).load@.len() >= old(chunk_load_queue).load@.len(),
        final(chunk_load_queue).load@.subrange(0, old(chunk_load_queue).load@.len() as int) == old(
            chunk_load_queue,
        ).load@,
        forall|c: VoxelChunkPosition|
            final(chunk_load_queue).load@.contains(c) <==> old(chunk_load_queue).load@.contains(c)
                || (!voxel_chunk_map.spec_contains(c) && exists|k: int|
                0 <= k < observers@.len() && in_load_range(
                    #[trigger] observers@[k],
                    c,
                    chunk_width.0 as int,
                )),
        forall|j: int|
            old(chunk_load_queue).load@.len() <= j < final(chunk_load_queue).load@.len() ==> !old(
                chunk_load_queue,
            ).load@.contains(#[trigger] final(chunk_load_queue).load@[j])
                && !voxel_chunk_map.spec_contains(final(chunk_load_queue).load@[j]) && exists|
                k: int,
            |
                0 <= k < observers@.len() && in_load_range(
                    #[trigger] observers@[k],
                    final(chunk_load_queue).load@[j],
                    chunk_width.0 as int,
                ),
        distinct_seq(old(chunk_load_queue).load@) ==> distinct_seq(final(chunk_load_queue).load@),
{
    let ghost wi: int = chunk_width.0 as int;
    let ghost old_load = chunk_load_queue.load@;
    let mut k: usize = 0;
    while k < observers.len()
        invariant
            chunk_width.0 as int == wi,
            chunk_width.0 >= 1,
            k <= observers@.len(),
            chunk_load_queue.unload@ == old(chunk_load_queue).unload@,
            old_load == old(chunk_load_queue).load@,
            chunk_load_queue.load@.len() >= old_load.len(),
            chunk_load_queue.load@.subrange(0, old_load.len() as int) == old_load,
            forall|c: VoxelChunkPosition|
                chunk_load_queue.load@.contains(c) <==> old_load.contains(c) || (
                !voxel_chunk_map.spec_contains(c) && exists|k2: int|
                    0 <= k2 < k && in_load_range(#[trigger] observers@[k2], c, wi)),
            forall|j: int|
                old_load.len() <= j < chunk_load_queue.load@.len() ==> !old_load.contains(
                    #[trigger] chunk_load_queue.load@[j],
                ) && !voxel_chunk_map.spec_contains(chunk_load_queue.load@[j]) && exists|k2: int|
                    0 <= k2 < observers@.len() && in_load_range(
                        #[trigger] observers@[k2],
                        chunk_load_queue.load@[j],
                        wi,
                    ),
            distinct_seq(old_load) ==> distinct_seq(chunk_load_queue.load@),
        decreases observers@.len() - k,
    {
        let ghost prev = chunk_load_queue.load@;
        let observer = &observers[k];
        enqueue_for_observer(observer, chunk_width, chunk_load_queue, voxel_chunk_map);
        proof {
            let cur = chunk_load_queue.load@;
            assert(cur.subrange(0, old_load.len() as int) =~= old_load) by {
                assert forall|j: int| 0 <= j < old_load.len() implies cur.subrange(
                    0,
                    old_load.len() as int,
                )[j] == old_load[j] by {
                    assert(cur.subrange(0, prev.len() as int)[j] == prev[j]);
                    assert(prev.subrange(0, old_load.len() as int)[j] == old_load[j]);
                }
            }
            assert forall|c: VoxelChunkPosition| #[trigger]
                cur.contains(c) implies old_load.contains(c) || (!voxel_chunk_map.spec_contains(c)
                && exists|k2: int|
                0 <= k2 < k + 1 && in_load_range(#[trigger] observers@[k2], c, wi)) by {
                if prev.contains(c) {
                    if !old_load.contains(c) {
                        let k2 = choose|k2: int|
                            0 <= k2 < k && in_load_range(#[trigger] observers@[k2], c, wi);
                        assert(0 <= k2 < k + 1 && in_load_range(observers@[k2], c, wi));
                    }
                } else {
                    assert(load_wanted(*voxel_chunk_map, *observer, wi, c));
                    assert(in_load_range(observers@[k as int], c, wi));
                }
            }
            assert forall|c: VoxelChunkPosition|
                old_load.contains(c) || (!voxel_chunk_map.spec_contains(c) && exists|k2: int|
                    0 <= k2 < k + 1 && in_load_range(
                        #[trigger] observers@[k2],
                        c,
                        wi,
                    )) implies #[trigger] cur.contains(c) by {
                if old_load.contains(c) {
                    assert(prev.contains(c));
                } else {
                    let k2 = choose|k2: int|
                        0 <= k2 < k + 1 && in_load_range(#[trigger] observers@[k2], c, wi);
                    if k2 < k {
                        assert(prev.contains(c));
                    } else {
                        assert(load_wanted(*voxel_chunk_map, *observer, wi, c));
                    }
                }
            }
            assert forall|j: int|
                old_load.len() <= j < cur.len() implies !old_load.contains(#[trigger] cur[j])
                && !voxel_chunk_map.spec_contains(cur[j]) && exists|k2: int|
                0 <= k2 < observers@.len() && in_load_range(#[trigger] observers@[k2], cur[j], wi) by {
                if j < prev.len() {
                    assert(cur.subrange(0, prev.len() as int)[j] == prev[j]);
                    assert(cur[j] == prev[j]);
                } else {
                    assert(!prev.contains(cur[j]));
                    assert forall|jj: int| 0 <= jj < old_load.len() implies old_load[jj] != cur[j] by {
                        assert(prev.subrange(0, old_load.len() as int)[jj] == old_load[jj]);
                        assert(prev[jj] == old_load[jj]);
                    }
                    assert(load_wanted(*voxel_chunk_map, *observer, wi, cur[j]));
                    assert(0 <= (k as int) < observers@.len() && in_load_range(
                        observers@[k as int],
                        cur[j],
                        wi,
                    ));
                }
            }
        }
        k += 1;
    }
}

/// The registered entries the unload scan selects: exactly those whose
/// coordinate every observer has let go, in registration order.
pub open spec fn unload_selection(
    entries: Seq<(VoxelChunkPosition, usize)>,
    observers: Seq<Observer>,
    w: int,
) -> Seq<(VoxelChunkPosition, usize)> {
    entries.filter(|e: (VoxelChunkPosition, usize)| should_unload(observers, e.0, w))
}

/// The scheduler's unload scan: walks every registered chunk, in
/// registration order, and appends to the unload queue exactly those
/// whose distance from every observer's origin exceeds that observer's
/// keep radius `R + M`. One observer still within `R + M` retains the
/// chunk.
pub fn unload_chunks_out_of_render_distance(
    observers: &Vec<Observer>,
    chunk_width: &VoxelChunkWidth,
    chunk_load_queue: &mut ChunkLoadQueue,
    voxel_chunk_map: &VoxelChunkMap,
)
    requires
        chunk_width.0 >= 1,
    ensures
        final(chunk_load_queue).load@ == old(chunk_load_queue).load@,
        final(chunk_load_queue).unload@ == old(chunk_load_queue).unload@ + unload_selection(
            voxel_chunk_map.entries@,
            observers@,
            chunk_width.0 as int,
        ),
{
    let ghost wi: int = chunk_width.0 as int;
    let mut i: usize = 0;
    proof {
        reveal(Seq::filter);
        assert(unload_selection(voxel_chunk_map.entries@.subrange(0, 0), observers@, wi) =~= Seq::<
            (VoxelChunkPosition, usize),
        >::empty());
        assert(chunk_load_queue.unload@ + unload_selection(
            voxel_chunk_map.entries@.subrange(0, 0),
            observers@,
            wi,
        ) =~= chunk_load_queue.unload@);
    }
    while i < voxel_chunk_map.entries.len()
        invariant
            chunk_width.0 as int == wi,
            chunk_width.0 >= 1,
            i <= voxel_chunk_map.entries@.len(),
            chunk_load_queue.load@ == old(chunk_load_queue).load@,
            chunk_load_queue.unload@ == old(chunk_load_queue).unload@ + unload_selection(
                voxel_chunk_map.entries@.subrange(0, i as int),
                observers@,
                wi,
            ),
        decreases voxel_chunk_map.entries@.len() - i,
    {
        let entry = (voxel_chunk_map.entries[i].0, voxel_chunk_map.entries[i].1);
        let mut all_far = true;
        let mut k: usize = 0;
        while k < observers.len()
            invariant
                chunk_width.0 as int == wi,
                chunk_width.0 >= 1,
                k <= observers@.len(),
                all_far == (forall|k2: int|
                    0 <= k2 < k ==> !within_keep_range(#[trigger] observers@[k2], entry.0, wi)),
            decreases observers@.len() - k,
        {
            let observer = &observers[k];
            let origin = VoxelChunkPosition::from_world_pos(observer.position, chunk_width);
            proof {
                assert(origin.0 == spec_origin(*observer, wi));
            }
            let d = dist_sq_to(&entry.0, &origin);
            let rm: i128 = observer.render_distance.val as i128
                + observer.render_distance.unload_margin as i128;
            proof {
                assert(rm * rm < 0x40000000000000000) by (nonlinear_arith)
                    requires
                        0 <= rm < 0x200000000,
                ;
            }
            let rmsq: i128 = rm * rm;
            if d <= rmsq {
                all_far = false;
                proof {
                    assert(within_keep_range(observers@[k as int], entry.0, wi));
                }
            }
            k += 1;
        }
        let ghost pre = chunk_load_queue.unload@;
        if all_far {
            chunk_load_queue.push_chunk(ChunkLoadQueueInput::Unload((entry.0, entry.1)));
        }
        proof {
            reveal(Seq::filter);
            assert(all_far == should_unload(observers@, entry.0, wi));
            let sub = voxel_chunk_map.entries@.subrange(0, i as int);
            let sub1 = voxel_chunk_map.entries@.subrange(0, i as int + 1);
            assert(entry == voxel_chunk_map.entries@[i as int]);
            assert(sub1 =~= sub.push(voxel_chunk_map.entries@[i as int]));
            assert(sub1.drop_last() =~= sub);
            assert(sub1.last() == entry);
            assert(unload_selection(sub1, observers@, wi) == if should_unload(observers@, entry.0, wi) {
                unload_selection(sub, observers@, wi).push(entry)
            } else {
                unload_selection(sub, observers@, wi)
            });
            assert(chunk_load_queue.unload@ =~= old(chunk_load_queue).unload@ + unload_selection(
                sub1,
                observers@,
                wi,
            ));
        }
        i += 1;
    }
    proof {
        assert(voxel_chunk_map.entries@.subrange(0, voxel_chunk_map.entries@.len() as int)
            =~= voxel_chunk_map.entries@);
    }
}

/// The registry, arena and render-queue state the drains act on, in
/// mathematical form: the entry list, each slot's voxel contents (or
/// nothing, for a dead slot), and the pending render handles.
pub ghost struct StreamState {
    pub entries: Seq<(VoxelChunkPosition, usize)>,
    pub slots: Seq<Option<Seq<Voxel>>>,
    pub render: Seq<usize>,
}

/// The arena's slots reduced to their voxel contents.
pub open spec fn arena_slots_view(arena: ChunkArena) -> Seq<Option<Seq<Voxel>>> {
    arena.slots@.map_values(
        |s: Option<VoxelChunk>|
            match s {
                Some(chunk) => Some(chunk.voxels@),
                None => None,
            },
    )
}

/// One unload: release the slot behind the handle and unregister the
/// coordinate. A handle already dead is skipped whole.
pub open spec fn unload_step(s: StreamState, item: (VoxelChunkPosition, usize)) -> StreamState {
    if 0 <= item.1 < s.slots.len() && s.slots[item.1 as int] is Some {
        StreamState {
            entries: entries_remove(s.entries, item.0),
            slots: s.slots.update(item.1 as int, None),
            render: s.render,
        }
    } else {
        s
    }
}

/// The state after the first `n` queued unloads, served in queue order.
pub open spec fn unload_fold(
    s: StreamState,
    items: Seq<(VoxelChunkPosition, usize)>,
    n: int,
) -> StreamState
    decreases n,
{
    if n <= 0 {
        s
    } else {
        unload_step(unload_fold(s, items, n - 1), items[n - 1])
    }
}

/// The chunk unloader: drains the unload queue first requested, first
/// served. Each pair has its render resources released and its
/// coordinate unregistered; a pair whose handle is already dead is the
/// recoverable `MissingChunkHandle` fault and is skipped, the rest of
/// the queue still served.
pub fn handle_chunk_unloading(
    chunk_load_queue: &mut ChunkLoadQueue,
    voxel_chunk_map: &mut VoxelChunkMap,
    chunk_arena: &mut ChunkArena,
)
    requires
        old(voxel_chunk_map).wf(),
    ensures
        final(voxel_chunk_map).wf(),
        final(chunk_load_queue).load@ == old(chunk_load_queue).load@,
        final(chunk_load_queue).unload@.len() == 0,
        ({
            let end = unload_fold(
                StreamState {
                    entries: old(voxel_chunk_map).entries@,
                    slots: arena_slots_view(*old(chunk_arena)),
                    render: Seq::empty(),
                },
                old(chunk_load_queue).unload@,
                old(chunk_load_queue).unload@.len() as int,
            );
            final(voxel_chunk_map).entries@ == end.entries && arena_slots_view(*final(chunk_arena))
                == end.slots
        }),
{
    let ghost items = chunk_load_queue.unload@;
    let ghost init = StreamState {
        entries: voxel_chunk_map.entries@,
        slots: arena_slots_view(*chunk_arena),
        render: Seq::empty(),
    };
    let ghost mut j: int = 0;
    loop
        invariant
            voxel_chunk_map.wf(),
            0 <= j <= items.len(),
            chunk_load_queue.load@ == old(chunk_load_queue).load@,
            items == old(chunk_load_queue).unload@,
            init == (StreamState {
                entries: old(voxel_chunk_map).entries@,
                slots: arena_slots_view(*old(chunk_arena)),
                render: Seq::empty(),
            }),
            chunk_load_queue.unload@ == items.subrange(j, items.len() as int),
            voxel_chunk_map.entries@ == unload_fold(init, items, j).entries,
            arena_slots_view(*chunk_arena) == unload_fold(init, items, j).slots,
        ensures
            j == items.len(),
            chunk_load_queue.unload@.len() == 0,
            chunk_load_queue.load@ == old(chunk_load_queue).load@,
            voxel_chunk_map.wf(),
            voxel_chunk_map.entries@ == unload_fold(init, items, items.len() as int).entries,
            arena_slots_view(*chunk_arena) == unload_fold(init, items, items.len() as int).slots,
        decreases items.len() - j,
    {
        let next = chunk_load_queue.unload.pop_front();
        let (chunk_pos, key) = match next {
            Some(pair) => pair,
            None => {
                proof {
                    assert(items.subrange(j, items.len() as int).len() == 0);
                    assert(j == items.len());
                }
                break ;
            },
        };
        proof {
            assert(items[j] == (chunk_pos, key));
            assert(chunk_load_queue.unload@ =~= items.subrange(j + 1, items.len() as int));
        }
        let ghost pre_slots = arena_slots_view(*chunk_arena);
        let ghost pre_entries = voxel_chunk_map.entries@;
        match chunk_arena.despawn(key) {
            Ok(()) => {
                let _ = voxel_chunk_map.remove_chunk(&chunk_pos);
                proof {
                    assert(pre_slots[key as int] is Some);
                    assert(arena_slots_view(*chunk_arena) =~= pre_slots.update(key as int, None));
                    assert(voxel_chunk_map.entries@ == entries_remove(pre_entries, chunk_pos));
                }
            },
            Err(_) => {
                proof {
                    assert(!(0 <= key < pre_slots.len() && pre_slots[key as int] is Some));
                }
            },
        }
        proof {
            assert(unload_fold(init, items, j + 1) == unload_step(
                unload_fold(init, items, j),
                items[j],
            ));
            j = j + 1;
        }
    }
    proof {
        assert(j == items.len());
    }
}

/// The voxel contents the generator produces for the chunk at `c`.
pub open spec fn generated_voxels(seed: u32, c: VoxelChunkPosition, w: int) -> Seq<Voxel> {
    Seq::new((w * w * w) as nat, |i: int| chunk_voxel(seed, c, w, i))
}

/// One load: generate the chunk, store it in a fresh slot, and register
/// it. A coordinate already registered keeps its existing entry; the
/// freshly generated chunk is discarded and nothing is queued for
/// rendering.
pub open spec fn load_step(s: StreamState, seed: u32, w: int, c: VoxelChunkPosition) -> StreamState {
    let key = s.slots.len() as usize;
    let slots1 = s.slots.push(Some(generated_voxels(seed, c, w)));
    if entries_contain(s.entries, c) {
        StreamState { entries: s.entries, slots: slots1.update(key as int, None), render: s.render }
    } else {
        StreamState {
            entries: s.entries.push((c, key)),
            slots: slots1,
            render: s.render.push(key),
        }
    }
}

/// The state after the first `n` queued loads, served in queue order.
pub open spec fn load_fold(
    s: StreamState,
    seed: u32,
    w: int,
    items: Seq<VoxelChunkPosition>,
    n: int,
) -> StreamState
    decreases n,
{
    if n <= 0 {
        s
    } else {
        load_step(load_fold(s, seed, w, items, n - 1), seed, w, items[n - 1])
    }
}

/// The chunk loader: drains the load queue first requested, first
/// served. Every requested coordinate is generated from the density
/// field, spawned into the arena and registered; the handle of each
/// successfully registered chunk is queued for rendering in the same
/// order. An insert conflict is the recoverable `DuplicateChunk` fault:
/// the generated chunk is discarded, the existing entry is untouched,
/// and the drain continues with the rest of the queue.
pub fn handle_chunk_loading(
    chunk_load_queue: &mut ChunkLoadQueue,
    chunk_render_queue: &mut ChunkRenderQueue,
    voxel_chunk_map: &mut VoxelChunkMap,
    chunk_arena: &mut ChunkArena,
    chunk_width: &VoxelChunkWidth,
    terrain_noise: &TerrainNoise,
)
    requires
        old(voxel_chunk_map).wf(),
        chunk_width.0 >= 1,
    ensures
        final(voxel_chunk_map).wf(),
        final(chunk_load_queue).load@.len() == 0,
        final(chunk_load_queue).unload@ == old(chunk_load_queue).unload@,
        ({
            let end = load_fold(
                StreamState {
                    entries: old(voxel_chunk_map).entries@,
                    slots: arena_slots_view(*old(chunk_arena)),
                    render: old(chunk_render_queue).queue@,
                },
                terrain_noise.seed,
                chunk_width.0 as int,
                old(chunk_load_queue).load@,
                old(chunk_load_queue).load@.len() as int,
            );
            final(voxel_chunk_map).entries@ == end.entries && arena_slots_view(*final(chunk_arena))
                == end.slots && final(chunk_render_queue).queue@ == end.render
        }),
{
    let ghost items = chunk_load_queue.load@;
    let ghost wi: int = chunk_width.0 as int;
    let ghost init = StreamState {
        entries: voxel_chunk_map.entries@,
        slots: arena_slots_view(*chunk_arena),
        render: chunk_render_queue.queue@,
    };
    let ghost mut j: int = 0;
    loop
        invariant
            voxel_chunk_map.wf(),
            chunk_width.0 >= 1,
            wi == chunk_width.0 as int,
            0 <= j <= items.len(),
            items == old(chunk_load_queue).load@,
            chunk_load_queue.unload@ == old(chunk_load_queue).unload@,
            init == (StreamState {
                entries: old(voxel_chunk_map).entries@,
                slots: arena_slots_view(*old(chunk_arena)),
                render: old(chunk_render_queue).queue@,
            }),
            chunk_load_queue.load@ == items.subrange(j, items.len() as int),
            voxel_chunk_map.entries@ == load_fold(init, terrain_noise.seed, wi, items, j).entries,
            arena_slots_view(*chunk_arena) == load_fold(
                init,
                terrain_noise.seed,
                wi,
                items,
                j,
            ).slots,
            chunk_render_queue.queue@ == load_fold(init, terrain_noise.seed, wi, items, j).render,
        ensures
            chunk_load_queue.load@.len() == 0,
            chunk_load_queue.unload@ == old(chunk_load_queue).unload@,
            voxel_chunk_map.wf(),
            voxel_chunk_map.entries@ == load_fold(
                init,
                terrain_noise.seed,
                wi,
                items,
                items.len() as int,
            ).entries,
            arena_slots_view(*chunk_arena) == load_fold(
                init,
                terrain_noise.seed,
                wi,
                items,
                items.len() as int,
            ).slots,
            chunk_render_queue.queue@ == load_fold(
                init,
                terrain_noise.seed,
                wi,
                items,
                items.len() as int,
            ).render,
        decreases items.len() - j,
    {
        let next = chunk_load_queue.load.pop_front();
        let chunk_pos = match next {
            Some(pos) => pos,
            None => {
                proof {
                    assert(items.subrange(j, items.len() as int).len() == 0);
                    assert(j == items.len());
                }
                break ;
            },
        };
        proof {
            assert(items[j] == chunk_pos);
            assert(chunk_load_queue.load@ =~= items.subrange(j + 1, items.len() as int));
        }
        let ghost pre_slots = arena_slots_view(*chunk_arena);
        let ghost pre_entries = voxel_chunk_map.entries@;
        let chunk = VoxelChunk::from_noise(&chunk_pos, chunk_width, terrain_noise);
        proof {
            assert(chunk.voxels@ =~= generated_voxels(terrain_noise.seed, chunk_pos, wi));
        }
        let chunk_key = chunk_arena.spawn(chunk);
        proof {
            assert(arena_slots_view(*chunk_arena) =~= pre_slots.push(
                Some(generated_voxels(terrain_noise.seed, chunk_pos, wi)),
            ));
            assert(chunk_key == pre_slots.len());
        }
        let ghost mid_slots = arena_slots_view(*chunk_arena);
        match voxel_chunk_map.insert_chunk(chunk_pos, chunk_key) {
            Ok(()) => {
                chunk_render_queue.push_chunk(chunk_key);
            },
            Err(_) => {
                let _ = chunk_arena.despawn(chunk_key);
                proof {
                    assert(mid_slots[chunk_key as int] is Some);
                    assert(arena_slots_view(*chunk_arena) =~= mid_slots.update(
                        chunk_key as int,
                        None,
                    ));
                }
            },
        }
        proof {
            assert(load_fold(init, terrain_noise.seed, wi, items, j + 1) == load_step(
                load_fold(init, terrain_noise.seed, wi, items, j),
                terrain_noise.seed,
                wi,
                items[j],
            ));
            j = j + 1;
        }
    }
}

/// Whether a render handle still resolves to a live chunk whose storage
/// matches the configured width.
pub open spec fn renderable(slots: Seq<Option<Seq<Voxel>>>, w: int, key: usize) -> bool {
    key < slots.len() && slots[key as int] is Some && slots[key as int]->0.len() == w * w * w
}

/// The handles in the queue that still resolve to renderable chunks,
/// in queue order.
pub open spec fn rendered_keys(
    queue: Seq<usize>,
    slots: Seq<Option<Seq<Voxel>>>,
    w: int,
) -> Seq<usize> {
    queue.filter(|k: usize| renderable(slots, w, k))
}

/// The mesher's drain: serves the render queue first requested, first
/// served, building each live chunk's surface geometry. A handle whose
/// chunk was unloaded before its turn — the `StaleRenderTarget` fault —
/// is dropped silently. The output pairs each surviving handle with its
/// mesh, in queue order.
pub fn handle_chunk_rendering(
    chunk_render_queue: &mut ChunkRenderQueue,
    chunk_width: &VoxelChunkWidth,
    chunk_arena: &ChunkArena,
) -> (meshes: Vec<(usize, MeshData)>)
    requires
        chunk_width.0 >= 1,
    ensures
        final(chunk_render_queue).queue@.len() == 0,
        ({
            let slots = arena_slots_view(*chunk_arena);
            let rendered = rendered_keys(
                old(chunk_render_queue).queue@,
                slots,
                chunk_width.0 as int,
            );
            meshes@.len() == rendered.len() && forall|i: int|
                0 <= i < meshes@.len() ==> (#[trigger] meshes@[i]).0 == rendered[i]
                    && meshes@[i].1@ == chunk_mesh(
                    slots[rendered[i] as int]->0,
                    chunk_width.0 as int,
                )
        }),
{
    let ghost items = chunk_render_queue.queue@;
    let ghost wi: int = chunk_width.0 as int;
    let ghost slots = arena_slots_view(*chunk_arena);
    let mut meshes: Vec<(usize, MeshData)> = Vec::new();
    proof {
        reveal(Seq::filter);
        assert(rendered_keys(items.subrange(0, 0), slots, wi) =~= Seq::<usize>::empty());
    }
    proof {
        assert((chunk_width.0 as int) * (chunk_width.0 as int) <= 255 * 255 && (
        chunk_width.0 as int) * (chunk_width.0 as int) * (chunk_width.0 as int) <= 255 * 255 * 255)
            by (nonlinear_arith)
            requires
                chunk_width.0 <= 255,
        ;
    }
    let range_size = chunk_width.0 as usize * chunk_width.0 as usize * chunk_width.0 as usize;
    let ghost mut j: int = 0;
    loop
        invariant
            chunk_width.0 >= 1,
            wi == chunk_width.0 as int,
            range_size == wi * wi * wi,
            0 <= j <= items.len(),
            items == old(chunk_render_queue).queue@,
            slots == arena_slots_view(*chunk_arena),
            chunk_render_queue.queue@ == items.subrange(j, items.len() as int),
            ({
                let rendered = rendered_keys(items.subrange(0, j), slots, wi);
                meshes@.len() == rendered.len() && forall|i: int|
                    0 <= i < meshes@.len() ==> (#[trigger] meshes@[i]).0 == rendered[i]
                        && meshes@[i].1@ == chunk_mesh(slots[rendered[i] as int]->0, wi)
            }),
        ensures
            chunk_render_queue.queue@.len() == 0,
            j == items.len(),
            ({
                let rendered = rendered_keys(items.subrange(0, j), slots, wi);
                meshes@.len() == rendered.len() && forall|i: int|
                    0 <= i < meshes@.len() ==> (#[trigger] meshes@[i]).0 == rendered[i]
                        && meshes@[i].1@ == chunk_mesh(slots[rendered[i] as int]->0, wi)
            }),
        decreases items.len() - j,
    {
        let next = chunk_render_queue.queue.pop_front();
        let chunk_key = match next {
            Some(key) => key,
            None => {
                proof {
                    assert(items.subrange(j, items.len() as int).len() == 0);
                    assert(j == items.len());
                }
                break ;
            },
        };
        proof {
            assert(items[j] == chunk_key);
            assert(chunk_render_queue.queue@ =~= items.subrange(j + 1, items.len() as int));
        }
        let ghost pre_meshes = meshes@;
        match chunk_arena.render_target(chunk_key) {
            Ok(chunk) => {
                proof {
                    assert(slots[chunk_key as int] is Some);
                    assert(slots[chunk_key as int]->0 == chunk.voxels@);
                }
                if chunk.voxels.len() == range_size {
                    let mesh = chunk.generate_mesh(chunk_width);
                    meshes.push((chunk_key, mesh));
                    proof {
                        assert(renderable(slots, wi, chunk_key));
                    }
                } else {
                    proof {
                        assert(!renderable(slots, wi, chunk_key));
                    }
                }
            },
            Err(_) => {
                proof {
                    assert(slots[chunk_key as int] is None || chunk_key >= slots.len());
                    assert(!renderable(slots, wi, chunk_key));
                }
            },
        }
        proof {
            reveal(Seq::filter);
            let sub = items.subrange(0, j);
            let sub1 = items.subrange(0, j + 1);
            assert(sub1 =~= sub.push(items[j]));
            assert(sub1.drop_last() =~= sub);
            assert(sub1.last() == chunk_key);
            assert(rendered_keys(sub1, slots, wi) == if renderable(slots, wi, chunk_key) {
                rendered_keys(sub, slots, wi).push(chunk_key)
            } else {
                rendered_keys(sub, slots, wi)
            });
            j = j + 1;
        }
    }
    proof {
        assert(items.subrange(0, items.len() as int) =~= items);
    }
    meshes
}

/// Everything the unload scan selects it selects for cause: each
/// selected pair is a registered entry whose coordinate every observer
/// has let go.
pub proof fn lemma_unload_selection_sound(
    entries: Seq<(VoxelChunkPosition, usize)>,
    observers: Seq<Observer>,
    w: int,
    j: int,
)
    requires
        0 <= j < unload_selection(entries, observers, w).len(),
    ensures
        should_unload(observers, unload_selection(entries, observers, w)[j].0, w),
        exists|i: int|
            0 <= i < entries.len() && #[trigger] entries[i] == unload_selection(
                entries,
                observers,
                w,
            )[j],
    decreases entries.len(),
{
    reveal(Seq::filter);
    let sel = unload_selection(entries, observers, w);
    let prev = unload_selection(entries.drop_last(), observers, w);
    if entries.len() > 0 {
        if j < prev.len() {
            lemma_unload_selection_sound(entries.drop_last(), observers, w, j);
            let i = choose|i: int|
                0 <= i < entries.drop_last().len() && #[trigger] entries.drop_last()[i] == prev[j];
            assert(entries[i] == sel[j]);
        } else {
            assert(sel[j] == entries.last());
            assert(entries[entries.len() - 1] == sel[j]);
        }
    }
}

/// Every registered chunk that every observer has let go is selected
/// for unload: the scan misses nothing.
pub proof fn lemma_unload_selection_complete(
    entries: Seq<(VoxelChunkPosition, usize)>,
    observers: Seq<Observer>,
    w: int,
    i: int,
)
    requires
        0 <= i < entries.len(),
        should_unload(observers, entries[i].0, w),
    ensures
        unload_selection(entries, observers, w).contains(entries[i]),
    decreases entries.len(),
{
    reveal(Seq::filter);
    let sel = unload_selection(entries, observers, w);
    let prev = unload_selection(entries.drop_last(), observers, w);
    if i == entries.len() - 1 {
        assert(sel == prev.push(entries.last()));
        assert(sel[sel.len() - 1] == entries[i]);
    } else {
        assert(entries.drop_last()[i] == entries[i]);
        lemma_unload_selection_complete(entries.drop_last(), observers, w, i);
        let j = choose|j: int| 0 <= j < prev.len() && prev[j] == entries[i];
        assert(sel[j] == entries[i]);
    }
}

/// Retention is an AND over observers: a chunk still within the keep
/// radius `R + M` of even one observer is never selected for unload,
/// whatever the other observers see.
pub proof fn lemma_observer_retains_chunk(
    entries: Seq<(VoxelChunkPosition, usize)>,
    observers: Seq<Observer>,
    w: int,
    c: VoxelChunkPosition,
    k: int,
)
    requires
        0 <= k < observers.len(),
        within_keep_range(observers[k], c, w),
    ensures
        forall|j: int|
            0 <= j < unload_selection(entries, observers, w).len() ==> (
            #[trigger] unload_selection(entries, observers, w)[j]).0 != c,
{
    assert forall|j: int|
        0 <= j < unload_selection(entries, observers, w).len() implies (#[trigger] unload_selection(
        entries,
        observers,
        w,
    )[j]).0 != c by {
        lemma_unload_selection_sound(entries, observers, w, j);
        if unload_selection(entries, observers, w)[j].0 == c {
            assert(!within_keep_range(observers[k], c, w));
        }
    }
}

/// Everything the render drain keeps it keeps for cause: each kept
/// handle resolves to a live chunk of the configured size.
pub proof fn lemma_rendered_keys_sound(
    queue: Seq<usize>,
    slots: Seq<Option<Seq<Voxel>>>,
    w: int,
    j: int,
)
    requires
        0 <= j < rendered_keys(queue, slots, w).len(),
    ensures
        renderable(slots, w, rendered_keys(queue, slots, w)[j]),
    decreases queue.len(),
{
    reveal(Seq::filter);
    let kept = rendered_keys(queue, slots, w);
    let prev = rendered_keys(queue.drop_last(), slots, w);
    if queue.len() > 0 {
        if j < prev.len() {
            lemma_rendered_keys_sound(queue.drop_last(), slots, w, j);
        } else {
            assert(kept[j] == queue.last());
        }
    }
}

/// No two entries of the list share an arena handle.
pub open spec fn entries_keys_distinct(entries: Seq<(VoxelChunkPosition, usize)>) -> bool {
    forall|i: int, j: int|
        0 <= i < j < entries.len() ==> (#[trigger] entries[i]).1 != (#[trigger] entries[j]).1
}

/// No two entries of the list share a coordinate.
pub open spec fn entries_coords_distinct(entries: Seq<(VoxelChunkPosition, usize)>) -> bool {
    forall|i: int, j: int|
        0 <= i < j < entries.len() ==> (#[trigger] entries[i]).0 != (#[trigger] entries[j]).0
}

/// Every entry's handle resolves to a live slot.
pub open spec fn entries_linked(
    entries: Seq<(VoxelChunkPosition, usize)>,
    slots: Seq<Option<Seq<Voxel>>>,
) -> bool {
    forall|i: int|
        0 <= i < entries.len() ==> (#[trigger] entries[i]).1 < slots.len() && slots[entries[i].1 as int] is Some
}

/// Whatever taking one coordinate out leaves registered was registered
/// before.
proof fn lemma_entries_remove_subset(
    e: Seq<(VoxelChunkPosition, usize)>,
    removed: VoxelChunkPosition,
    c: VoxelChunkPosition,
)
    requires
        entries_contain(entries_remove(e, removed), c),
    ensures
        entries_contain(e, c),
{
    if entries_contain(e, removed) {
        let out = entries_remove(e, removed);
        assert(exists|i: int|
            0 <= i < e.len() && (#[trigger] e[i]).0 == removed && out == e.remove(i));
        let i0 = choose|i: int|
            0 <= i < e.len() && (#[trigger] e[i]).0 == removed && out == e.remove(i);
        let j = choose|j: int| 0 <= j < out.len() && (#[trigger] out[j]).0 == c;
        if j < i0 {
            assert(e[j] == out[j]);
        } else {
            assert(e[j + 1] == out[j]);
        }
    }
}

/// With distinct coordinates, taking a coordinate out really
/// unregisters it.
proof fn lemma_entries_remove_evicts(e: Seq<(VoxelChunkPosition, usize)>, c: VoxelChunkPosition)
    requires
        entries_coords_distinct(e),
    ensures
        !entries_contain(entries_remove(e, c), c),
{
    if entries_contain(e, c) {
        let out = entries_remove(e, c);
        assert(exists|i: int| 0 <= i < e.len() && (#[trigger] e[i]).0 == c && out == e.remove(i));
        let i0 = choose|i: int| 0 <= i < e.len() && (#[trigger] e[i]).0 == c && out == e.remove(i);
        assert forall|j: int| 0 <= j < out.len() implies (#[trigger] out[j]).0 != c by {
            if j < i0 {
                assert(e[j] == out[j]);
            } else {
                assert(e[j + 1] == out[j]);
            }
        }
    }
}

/// Taking a coordinate out keeps the coordinates distinct.
proof fn lemma_entries_remove_wf(e: Seq<(VoxelChunkPosition, usize)>, c: VoxelChunkPosition)
    requires
        entries_coords_distinct(e),
    ensures
        entries_coords_distinct(entries_remove(e, c)),
{
    if entries_contain(e, c) {
        let out = entries_remove(e, c);
        assert(exists|i: int| 0 <= i < e.len() && (#[trigger] e[i]).0 == c && out == e.remove(i));
        let i0 = choose|i: int| 0 <= i < e.len() && (#[trigger] e[i]).0 == c && out == e.remove(i);
        assert forall|a: int, b: int| 0 <= a < b < out.len() implies (#[trigger] out[a]).0 != (
        #[trigger] out[b]).0 by {
            assert(out[a] == if a < i0 {
                e[a]
            } else {
                e[a + 1]
            });
            assert(out[b] == if b < i0 {
                e[b]
            } else {
                e[b + 1]
            });
        }
    }
}

/// Serving unloads keeps the registry's coordinates distinct.
proof fn lemma_unload_fold_wf(s: StreamState, items: Seq<(VoxelChunkPosition, usize)>, n: int)
    requires
        0 <= n <= items.len(),
        entries_coords_distinct(s.entries),
    ensures
        entries_coords_distinct(unload_fold(s, items, n).entries),
    decreases n,
{
    if n > 0 {
        lemma_unload_fold_wf(s, items, n - 1);
        let prev = unload_fold(s, items, n - 1);
        if unload_step(prev, items[n - 1]).entries != prev.entries {
            lemma_entries_remove_wf(prev.entries, items[n - 1].0);
        }
    }
}

/// A slot no queued pair names is untouched by the unload drain.
proof fn lemma_unload_fold_slots(
    s: StreamState,
    items: Seq<(VoxelChunkPosition, usize)>,
    n: int,
    key: int,
)
    requires
        0 <= n <= items.len(),
        forall|j: int| 0 <= j < n ==> (#[trigger] items[j]).1 != key,
    ensures
        unload_fold(s, items, n).slots.len() == s.slots.len(),
        0 <= key < s.slots.len() ==> unload_fold(s, items, n).slots[key] == s.slots[key],
    decreases n,
{
    if n > 0 {
        lemma_unload_fold_slots(s, items, n - 1, key);
    }
}

/// Every pair of distinct, live, registered unload requests is served:
/// after the drain its coordinate is no longer registered.
proof fn lemma_unload_fold_evicts(
    s: StreamState,
    items: Seq<(VoxelChunkPosition, usize)>,
    n: int,
    j: int,
)
    requires
        0 <= j < n <= items.len(),
        entries_coords_distinct(s.entries),
        entries_coords_distinct(items),
        entries_keys_distinct(items),
        entries_linked(items, s.slots),
    ensures
        !entries_contain(unload_fold(s, items, n).entries, items[j].0),
    decreases n,
{
    let prev = unload_fold(s, items, n - 1);
    if j == n - 1 {
        lemma_unload_fold_slots(s, items, n - 1, items[j].1 as int);
        assert(prev.slots[items[j].1 as int] is Some);
        lemma_unload_fold_wf(s, items, n - 1);
        lemma_entries_remove_evicts(prev.entries, items[j].0);
    } else {
        lemma_unload_fold_evicts(s, items, n - 1, j);
        let stepped = unload_step(prev, items[n - 1]);
        if stepped.entries != prev.entries {
            if entries_contain(stepped.entries, items[j].0) {
                lemma_entries_remove_subset(prev.entries, items[n - 1].0, items[j].0);
            }
        }
    }
}

/// The unload scan's selection inherits the registry's distinctness,
/// its handles' distinctness and its linkage to the arena.
proof fn lemma_unload_selection_wf(
    entries: Seq<(VoxelChunkPosition, usize)>,
    observers: Seq<Observer>,
    w: int,
    slots: Seq<Option<Seq<Voxel>>>,
)
    requires
        entries_coords_distinct(entries),
        entries_keys_distinct(entries),
        entries_linked(entries, slots),
    ensures
        entries_coords_distinct(unload_selection(entries, observers, w)),
        entries_keys_distinct(unload_selection(entries, observers, w)),
        entries_linked(unload_selection(entries, observers, w), slots),
    decreases entries.len(),
{
    reveal(Seq::filter);
    let sel = unload_selection(entries, observers, w);
    if entries.len() > 0 {
        let dl = entries.drop_last();
        lemma_unload_selection_wf(dl, observers, w, slots);
        let prev = unload_selection(dl, observers, w);
        assert forall|j: int| #![trigger prev[j]] 0 <= j < prev.len() implies exists|i: int|
            0 <= i < dl.len() && #[trigger] dl[i] == prev[j] by {
            lemma_unload_selection_sound(dl, observers, w, j);
        }
        if sel != prev {
            let last = entries.last();
            assert forall|j: int| 0 <= j < prev.len() implies (#[trigger] prev[j]).0 != last.0 && (
            #[trigger] prev[j]).1 != last.1 by {
                let i = choose|i: int| 0 <= i < dl.len() && #[trigger] dl[i] == prev[j];
                assert(entries[i] == dl[i]);
                assert(entries[entries.len() - 1] == last);
            }
            assert forall|i: int| 0 <= i < sel.len() implies (#[trigger] sel[i]).1 < slots.len()
                && slots[sel[i].1 as int] is Some by {
                if i < prev.len() {
                    assert(sel[i] == prev[i]);
                } else {
                    assert(sel[i] == last);
                    assert(entries[entries.len() - 1] == last);
                }
            }
        }
    }
}

/// Serving loads registers nothing that was neither registered nor
/// requested.
proof fn lemma_load_fold_new_coords(
    s: StreamState,
    seed: u32,
    w: int,
    items: Seq<VoxelChunkPosition>,
    n: int,
    c: VoxelChunkPosition,
)
    requires
        0 <= n <= items.len(),
        !entries_contain(s.entries, c),
        forall|j: int| 0 <= j < n ==> #[trigger] items[j] != c,
    ensures
        !entries_contain(load_fold(s, seed, w, items, n).entries, c),
    decreases n,
{
    if n > 0 {
        lemma_load_fold_new_coords(s, seed, w, items, n - 1, c);
        let prev = load_fold(s, seed, w, items, n - 1);
        let stepped = load_step(prev, seed, w, items[n - 1]);
        if stepped.entries != prev.entries {
            if entries_contain(stepped.entries, c) {
                let i = choose|i: int|
                    0 <= i < stepped.entries.len() && (#[trigger] stepped.entries[i]).0 == c;
                assert(i < prev.entries.len());
                assert(prev.entries[i].0 == c);
            }
        }
    }
}

/// A chunk within an observer's render sphere is within its keep
/// sphere too: the keep radius only adds the margin.
proof fn lemma_load_range_within_keep(o: Observer, c: VoxelChunkPosition, w: int)
    requires
        in_load_range(o, c, w),
    ensures
        within_keep_range(o, c, w),
{
    let r = o.render_distance.val as int;
    let kr = keep_radius(o);
    assert(r * r <= kr * kr) by (nonlinear_arith)
        requires
            0 <= r <= kr,
    ;
}

/// Serving unloads never unregisters a coordinate that no queued pair
/// names.
proof fn lemma_unload_fold_preserves(
    s: StreamState,
    items: Seq<(VoxelChunkPosition, usize)>,
    n: int,
    c: VoxelChunkPosition,
)
    requires
        0 <= n <= items.len(),
        entries_contain(s.entries, c),
        forall|j: int| 0 <= j < n ==> (#[trigger] items[j]).0 != c,
    ensures
        entries_contain(unload_fold(s, items, n).entries, c),
    decreases n,
{
    if n > 0 {
        lemma_unload_fold_preserves(s, items, n - 1, c);
        let prev = unload_fold(s, items, n - 1);
        let stepped = unload_step(prev, items[n - 1]);
        if stepped.entries != prev.entries {
            let removed = entries_remove(prev.entries, items[n - 1].0);
            if entries_contain(prev.entries, items[n - 1].0) {
                let i = choose|i: int|
                    0 <= i < prev.entries.len() && (#[trigger] prev.entries[i]).0 == items[n - 1].0;
                let i2 = choose|i2: int|
                    0 <= i2 < prev.entries.len() && (#[trigger] prev.entries[i2]).0 == c;
                assert(i2 != i);
                if i2 < i {
                    assert(removed[i2] == prev.entries[i2]);
                } else {
                    assert(removed[i2 - 1] == prev.entries[i2]);
                }
            }
        }
    }
}

/// Serving loads never unregisters anything: registration only grows.
proof fn lemma_load_fold_preserves(
    s: StreamState,
    seed: u32,
    w: int,
    items: Seq<VoxelChunkPosition>,
    n: int,
    c: VoxelChunkPosition,
)
    requires
        0 <= n,
        entries_contain(s.entries, c),
    ensures
        entries_contain(load_fold(s, seed, w, items, n).entries, c),
    decreases n,
{
    if n > 0 {
        lemma_load_fold_preserves(s, seed, w, items, n - 1, c);
        let prev = load_fold(s, seed, w, items, n - 1);
        let stepped = load_step(prev, seed, w, items[n - 1]);
        if stepped.entries != prev.entries {
            let i = choose|i: int|
                0 <= i < prev.entries.len() && (#[trigger] prev.entries[i]).0 == c;
            assert(stepped.entries[i] == prev.entries[i]);
        }
    }
}

/// Serving loads registers every requested coordinate: either it was
/// already registered, or its freshly generated chunk is inserted.
proof fn lemma_load_fold_registers(
    s: StreamState,
    seed: u32,
    w: int,
    items: Seq<VoxelChunkPosition>,
    n: int,
    i: int,
)
    requires
        0 <= i < n <= items.len(),
    ensures
        entries_contain(load_fold(s, seed, w, items, n).entries, items[i]),
    decreases n,
{
    let prev = load_fold(s, seed, w, items, n - 1);
    let stepped = load_step(prev, seed, w, items[n - 1]);
    if i == n - 1 {
        if entries_contain(prev.entries, items[i]) {
            assert(stepped.entries == prev.entries);
        } else {
            assert(stepped.entries[stepped.entries.len() - 1].0 == items[i]);
        }
    } else {
        lemma_load_fold_registers(s, seed, w, items, n - 1, i);
        if stepped.entries != prev.entries {
            let i2 = choose|i2: int|
                0 <= i2 < prev.entries.len() && (#[trigger] prev.entries[i2]).0 == items[i];
            assert(stepped.entries[i2] == prev.entries[i2]);
        }
    }
}

/// The streaming world: the registry, the chunk arena, the three work
/// queues and the density field, gathered in one context so every tick
/// phase's reads and writes are visible at its call site.
pub struct VoxelWorld {
    pub chunk_width: VoxelChunkWidth,
    pub terrain_noise: TerrainNoise,
    pub voxel_chunk_map: VoxelChunkMap,
    pub chunk_arena: ChunkArena,
    pub chunk_load_queue: ChunkLoadQueue,
    pub chunk_render_queue: ChunkRenderQueue,
}

impl VoxelWorld {
    /// The world's invariant: the registry maps each coordinate at most
    /// once, and the chunk width is positive.
    pub open spec fn wf(self) -> bool {
        self.voxel_chunk_map.wf() && self.chunk_width.0 >= 1
    }

    /// An empty world around the given density field, with the default
    /// chunk width.
    pub fn new(terrain_noise: TerrainNoise) -> (r: Self)
        ensures
            r.wf(),
            r.voxel_chunk_map.entries@.len() == 0,
            r.chunk_arena.slots@.len() == 0,
            r.chunk_load_queue.load@.len() == 0,
            r.chunk_load_queue.unload@.len() == 0,
            r.chunk_render_queue.queue@.len() == 0,
            r.chunk_width.0 == crate::coords::DEFAULT_CHUNK_WIDTH,
            r.terrain_noise == terrain_noise,
    {
        VoxelWorld {
            chunk_width: VoxelChunkWidth::default(),
            terrain_noise,
            voxel_chunk_map: VoxelChunkMap::new(),
            chunk_arena: ChunkArena::new(),
            chunk_load_queue: ChunkLoadQueue::new(),
            chunk_render_queue: ChunkRenderQueue::new(),
        }
    }

    /// An empty world with an explicitly configured chunk width. The
    /// width is fixed for the world's whole life.
    pub fn with_width(terrain_noise: TerrainNoise, chunk_width: VoxelChunkWidth) -> (r: Self)
        requires
            chunk_width.0 >= 1,
        ensures
            r.wf(),
            r.voxel_chunk_map.entries@.len() == 0,
            r.chunk_arena.slots@.len() == 0,
            r.chunk_load_queue.load@.len() == 0,
            r.chunk_load_queue.unload@.len() == 0,
            r.chunk_render_queue.queue@.len() == 0,
            r.chunk_width == chunk_width,
            r.terrain_noise == terrain_noise,
    {
        VoxelWorld {
            chunk_width,
            terrain_noise,
            voxel_chunk_map: VoxelChunkMap::new(),
            chunk_arena: ChunkArena::new(),
            chunk_load_queue: ChunkLoadQueue::new(),
            chunk_render_queue: ChunkRenderQueue::new(),
        }
    }

    /// One scheduling tick, its five phases in their required order:
    /// enqueue loads around every observer, enqueue unloads, drain the
    /// unload queue, drain the load queue, drain the render queue. The
    /// order matters: each drain consumes registry state the earlier
    /// phases produced. Returns the geometry payloads built this tick,
    /// one per surviving render request, in request order.
    pub fn tick(&mut self, observers: &Vec<Observer>) -> (meshes: Vec<(usize, MeshData)>)
        requires
            old(self).wf(),
        ensures
            final(self).wf(),
            final(self).chunk_width == old(self).chunk_width,
            final(self).terrain_noise == old(self).terrain_noise,
            final(self).chunk_load_queue.load@.len() == 0,
            final(self).chunk_load_queue.unload@.len() == 0,
            final(self).chunk_render_queue.queue@.len() == 0,
            // From a quiescent start — no work left over from an earlier
            // tick — the tick satisfies every render distance: each chunk
            // within some observer's render sphere ends registered.
            old(self).chunk_load_queue.load@.len() == 0 && old(self).chunk_load_queue.unload@.len()
                == 0 ==> forall|c: VoxelChunkPosition|
                (exists|k: int|
                    0 <= k < observers@.len() && in_load_range(
                        #[trigger] observers@[k],
                        c,
                        old(self).chunk_width.0 as int,
                    )) ==> #[trigger] final(self).voxel_chunk_map.spec_contains(c),
            // From the same quiescent start, with the registry's handles
            // distinct and all of them live, the tick also honours every
            // eviction: each registered chunk that every observer has
            // let go ends unregistered.
            old(self).chunk_load_queue.load@.len() == 0 && old(self).chunk_load_queue.unload@.len()
                == 0 && entries_keys_distinct(old(self).voxel_chunk_map.entries@)
                && entries_linked(
                old(self).voxel_chunk_map.entries@,
                arena_slots_view(old(self).chunk_arena),
            ) ==> forall|c: VoxelChunkPosition|
                old(self).voxel_chunk_map.spec_contains(c) && should_unload(
                    observers@,
                    c,
                    old(self).chunk_width.0 as int,
                ) ==> !(#[trigger] final(self).voxel_chunk_map.spec_contains(c)),
            // Every returned payload is genuine: its handle resolves to
            // a live chunk of the configured width, and the geometry is
            // exactly that chunk's mesh.
            forall|i: int|
                0 <= i < meshes@.len() ==> renderable(
                    arena_slots_view(final(self).chunk_arena),
                    old(self).chunk_width.0 as int,
                    (#[trigger] meshes@[i]).0,
                ) && meshes@[i].1@ == chunk_mesh(
                    arena_slots_view(final(self).chunk_arena)[meshes@[i].0 as int]->0,
                    old(self).chunk_width.0 as int,
                ),
    {
        let ghost wi: int = self.chunk_width.0 as int;
        let ghost quiescent = self.chunk_load_queue.load@.len() == 0
            && self.chunk_load_queue.unload@.len() == 0;
        let ghost map0 = self.voxel_chunk_map.entries@;
        let ghost m_at_enqueue = self.voxel_chunk_map;
        enqueue_chunks_in_render_distance(
            observers,
            &self.chunk_width,
            &mut self.chunk_load_queue,
            &self.voxel_chunk_map,
        );
        let ghost q1 = self.chunk_load_queue.load@;
        unload_chunks_out_of_render_distance(
            observers,
            &self.chunk_width,
            &mut self.chunk_load_queue,
            &self.voxel_chunk_map,
        );
        let ghost u1 = self.chunk_load_queue.unload@;
        let ghost unload_init = StreamState {
            entries: self.voxel_chunk_map.entries@,
            slots: arena_slots_view(self.chunk_arena),
            render: Seq::empty(),
        };
        handle_chunk_unloading(
            &mut self.chunk_load_queue,
            &mut self.voxel_chunk_map,
            &mut self.chunk_arena,
        );
        let ghost load_init = StreamState {
            entries: self.voxel_chunk_map.entries@,
            slots: arena_slots_view(self.chunk_arena),
            render: self.chunk_render_queue.queue@,
        };
        handle_chunk_loading(
            &mut self.chunk_load_queue,
            &mut self.chunk_render_queue,
            &mut self.voxel_chunk_map,
            &mut self.chunk_arena,
            &self.chunk_width,
            &self.terrain_noise,
        );
        let ghost map2 = self.voxel_chunk_map.entries@;
        proof {
            if quiescent && entries_keys_distinct(map0) && entries_linked(map0, unload_init.slots) {
                assert(u1 =~= unload_selection(map0, observers@, wi));
                lemma_unload_selection_wf(map0, observers@, wi, unload_init.slots);
                assert forall|c: VoxelChunkPosition|
                    entries_contain(map0, c) && should_unload(observers@, c, wi) implies
                    !entries_contain(map2, c) by {
                    let i = choose|i: int| 0 <= i < map0.len() && (#[trigger] map0[i]).0 == c;
                    lemma_unload_selection_complete(map0, observers@, wi, i);
                    let sel = unload_selection(map0, observers@, wi);
                    let j = choose|j: int| 0 <= j < sel.len() && sel[j] == map0[i];
                    lemma_unload_fold_evicts(unload_init, u1, u1.len() as int, j);
                    assert(!entries_contain(load_init.entries, c));
                    assert forall|jj: int| 0 <= jj < q1.len() implies #[trigger] q1[jj] != c by {
                        if q1[jj] == c {
                            assert(!m_at_enqueue.spec_contains(c));
                        }
                    }
                    lemma_load_fold_new_coords(
                        load_init,
                        self.terrain_noise.seed,
                        wi,
                        q1,
                        q1.len() as int,
                        c,
                    );
                }
            }
            if quiescent {
                assert forall|c: VoxelChunkPosition|
                    (exists|k: int|
                        0 <= k < observers@.len() && in_load_range(
                            #[trigger] observers@[k],
                            c,
                            wi,
                        )) implies entries_contain(map2, c) by {
                    let k = choose|k: int|
                        0 <= k < observers@.len() && in_load_range(#[trigger] observers@[k], c, wi);
                    if entries_contain(map0, c) {
                        // Already registered: no observer lets it go, so
                        // the unload drain keeps it, and loading never
                        // unregisters.
                        lemma_load_range_within_keep(observers@[k], c, wi);
                        assert forall|j: int| 0 <= j < u1.len() implies (#[trigger] u1[j]).0
                            != c by {
                            lemma_unload_selection_sound(map0, observers@, wi, j);
                            if u1[j].0 == c {
                                assert(!within_keep_range(observers@[k], c, wi));
                            }
                        }
                        lemma_unload_fold_preserves(unload_init, u1, u1.len() as int, c);
                        lemma_load_fold_preserves(
                            load_init,
                            self.terrain_noise.seed,
                            wi,
                            q1,
                            q1.len() as int,
                            c,
                        );
                    } else {
                        // Unregistered: the scan queued it, and the load
                        // drain registers every queued coordinate.
                        assert(!m_at_enqueue.spec_contains(c));
                        assert(q1.contains(c));
                        let i = choose|i: int| 0 <= i < q1.len() && q1[i] == c;
                        lemma_load_fold_registers(
                            load_init,
                            self.terrain_noise.seed,
                            wi,
                            q1,
                            q1.len() as int,
                            i,
                        );
                    }
                }
            }
        }
        let ghost render_items = self.chunk_render_queue.queue@;
        let meshes = handle_chunk_rendering(
            &mut self.chunk_render_queue,
            &self.chunk_width,
            &self.chunk_arena,
        );
        proof {
            let slots = arena_slots_view(self.chunk_arena);
            assert forall|i: int| 0 <= i < meshes@.len() implies renderable(
                slots,
                wi,
                (#[trigger] meshes@[i]).0,
            ) && meshes@[i].1@ == chunk_mesh(slots[meshes@[i].0 as int]->0, wi) by {
                lemma_rendered_keys_sound(render_items, slots, wi, i);
            }
        }
        meshes
    }
}

} // verus!
