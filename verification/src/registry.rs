use crate::coords::{flat_index, LocalVoxelPosition, VoxelChunkPosition, VoxelChunkWidth};
use crate::generation::VoxelChunk;
use crate::Voxel;
use vstd::prelude::*;

verus! {

/// The recoverable faults of the streaming pipeline.
#[derive(Clone, Copy, Debug, PartialEq, Eq, Structural)]
pub enum VoxelWorldError {
    /// An insert was attempted for a coordinate already registered.
    DuplicateChunk,
    /// An unload named a handle that no longer resolves to a chunk.
    MissingChunkHandle,
    /// A render was requested for a handle unloaded before its turn.
    StaleRenderTarget,
}

/// The arena owning every chunk's storage. A handle is the index of the
/// slot a chunk was spawned into; slots are never reused, so a handle
/// stays stable and merely goes dead when its chunk is despawned.
pub struct ChunkArena {
    pub slots: Vec<Option<VoxelChunk>>,
}

impl ChunkArena {
    /// Whether `key` currently resolves to a live chunk.
    pub open spec fn spec_live(self, key: int) -> bool {
        0 <= key < self.slots@.len() && self.slots@[key] is Some
    }

    pub fn new() -> (r: Self)
        ensures
            r.slots@.len() == 0,
    {
        ChunkArena { slots: Vec::new() }
    }

    /// Stores a freshly generated chunk and hands back its handle.
    pub fn spawn(&mut self, chunk: VoxelChunk) -> (key: usize)
        ensures
            final(self).slots@ == old(self).slots@.push(Some(chunk)),
            key == old(self).slots@.len(),
            final(self).spec_live(key as int),
    {
        let key = self.slots.len();
        self.slots.push(Some(chunk));
        key
    }

    /// Releases the chunk behind `key`. A handle already dead is the
    /// recoverable `MissingChunkHandle` fault; nothing changes then.
    pub fn despawn(&mut self, key: usize) -> (r: Result<(), VoxelWorldError>)
        ensures
            old(self).spec_live(key as int) ==> r is Ok && final(self).slots@ == old(
                self,
            ).slots@.update(key as int, None),
            !old(self).spec_live(key as int) ==> r == Err::<(), VoxelWorldError>(
                VoxelWorldError::MissingChunkHandle,
            ) && *final(self) == *old(self),
    {
        if key < self.slots.len() {
            if self.slots[key].is_some() {
                self.slots.set(key, None);
                return Ok(());
            }
        }
        Err(VoxelWorldError::MissingChunkHandle)
    }

    /// The chunk a render request resolves to. A handle whose chunk was
    /// unloaded before its turn is the recoverable `StaleRenderTarget`
    /// fault.
    pub fn render_target(&self, key: usize) -> (r: Result<&VoxelChunk, VoxelWorldError>)
        ensures
            match r {
                Ok(c) => self.spec_live(key as int) && self.slots@[key as int] == Some(*c),
                Err(e) => e == VoxelWorldError::StaleRenderTarget && !self.spec_live(key as int),
            },
    {
        match self.get(key) {
            Some(c) => Ok(c),
            None => Err(VoxelWorldError::StaleRenderTarget),
        }
    }

    /// The chunk behind `key`, while it is live.
    pub fn get(&self, key: usize) -> (r: Option<&VoxelChunk>)
        ensures
            match r {
                Some(c) => self.spec_live(key as int) && self.slots@[key as int] == Some(*c),
                None => !self.spec_live(key as int),
            },
    {
        if key < self.slots.len() {
            self.slots[key].as_ref()
        } else {
            None
        }
    }
}

/// Whether the entry list registers coordinate `c`.
pub open spec fn entries_contain(
    entries: Seq<(VoxelChunkPosition, usize)>,
    c: VoxelChunkPosition,
) -> bool {
    exists|i: int| 0 <= i < entries.len() && (#[trigger] entries[i]).0 == c
}

/// The entry list with coordinate `c`'s entry taken out, or the list
/// unchanged when `c` is not registered.
pub open spec fn entries_remove(
    entries: Seq<(VoxelChunkPosition, usize)>,
    c: VoxelChunkPosition,
) -> Seq<(VoxelChunkPosition, usize)> {
    if entries_contain(entries, c) {
        entries.remove(choose|i: int| 0 <= i < entries.len() && (#[trigger] entries[i]).0 == c)
    } else {
        entries
    }
}

/// The registry: a mapping from chunk coordinate to arena handle, with at
/// most one entry per coordinate.
pub struct VoxelChunkMap {
    pub entries: Vec<(VoxelChunkPosition, usize)>,
}

impl VoxelChunkMap {
    /// At most one entry per coordinate: the registry's invariant.
    pub open spec fn wf(self) -> bool {
        forall|i: int, j: int|
            0 <= i < j < self.entries@.len() ==> (#[trigger] self.entries@[i]).0 != (
            #[trigger] self.entries@[j]).0
    }

    /// Whether a coordinate is currently registered.
    pub open spec fn spec_contains(self, c: VoxelChunkPosition) -> bool {
        entries_contain(self.entries@, c)
    }

    pub fn new() -> (r: Self)
        ensures
            r.entries@.len() == 0,
            r.wf(),
    {
        VoxelChunkMap { entries: Vec::new() }
    }

    /// The position in the entry list of the coordinate's entry.
    fn index_of(&self, chunk_position: &VoxelChunkPosition) -> (r: Option<usize>)
        ensures
            match r {
                Some(i) => i < self.entries@.len() && self.entries@[i as int].0 == *chunk_position,
                None => !self.spec_contains(*chunk_position),
            },
    {
        let mut i: usize = 0;
        while i < self.entries.len()
            invariant
                i <= self.entries@.len(),
                forall|j: int| 0 <= j < i ==> (#[trigger] self.entries@[j]).0 != *chunk_position,
            decreases self.entries@.len() - i,
        {
            if self.entries[i].0 == *chunk_position {
                return Some(i);
            }
            i += 1;
        }
        None
    }

    /// Whether the coordinate is registered.
    pub fn contains_chunk(&self, chunk_position: &VoxelChunkPosition) -> (r: bool)
        ensures
            r == self.spec_contains(*chunk_position),
    {
        self.index_of(chunk_position).is_some()
    }

    /// The handle registered for the coordinate, if any.
    pub fn get_key(&self, chunk_position: &VoxelChunkPosition) -> (r: Option<usize>)
        requires
            self.wf(),
        ensures
            r is Some <==> self.spec_contains(*chunk_position),
            match r {
                Some(key) => exists|i: int|
                    0 <= i < self.entries@.len() && #[trigger] self.entries@[i] == (
                    *chunk_position,
                    key,
                    ),
                None => !self.spec_contains(*chunk_position),
            },
    {
        match self.index_of(chunk_position) {
            Some(i) => Some(self.entries[i].1),
            None => None,
        }
    }

    /// Registers a chunk handle under a coordinate. Inserting a
    /// coordinate already present is the `DuplicateChunk` fault and
    /// leaves the existing entry — and everything else — unchanged.
    pub fn insert_chunk(&mut self, chunk_position: VoxelChunkPosition, key: usize) -> (r: Result<
        (),
        VoxelWorldError,
    >)
        ensures
            old(self).spec_contains(chunk_position) ==> r == Err::<(), VoxelWorldError>(
                VoxelWorldError::DuplicateChunk,
            ) && *final(self) == *old(self),
            !old(self).spec_contains(chunk_position) ==> r is Ok && final(self).entries@ == old(
                self,
            ).entries@.push((chunk_position, key)),
            old(self).wf() ==> final(self).wf(),
    {
        if self.contains_chunk(&chunk_position) {
            Err(VoxelWorldError::DuplicateChunk)
        } else {
            self.entries.push((chunk_position, key));
            Ok(())
        }
    }

    /// Unregisters a coordinate, handing back the handle it mapped to.
    /// A coordinate not registered leaves the registry unchanged.
    pub fn remove_chunk(&mut self, chunk_position: &VoxelChunkPosition) -> (r: Option<usize>)
        requires
            old(self).wf(),
        ensures
            final(self).wf(),
            !final(self).spec_contains(*chunk_position),
            final(self).entries@ == entries_remove(old(self).entries@, *chunk_position),
            match r {
                Some(key) => exists|i: int|
                    0 <= i < old(self).entries@.len() && #[trigger] old(self).entries@[i] == (
                    *chunk_position,
                    key,
                    ) && final(self).entries@ == old(self).entries@.remove(i),
                None => !old(self).spec_contains(*chunk_position) && *final(self) == *old(self),
            },
    {
        match self.index_of(chunk_position) {
            Some(i) => {
                let key = self.entries[i].1;
                let ghost pre = self.entries@;
                self.entries.remove(i);
                proof {
                    let j = choose|j: int| 0 <= j < pre.len() && (#[trigger] pre[j]).0
                        == *chunk_position;
                    assert(pre[j].0 == *chunk_position);
                    assert(j == i);
                    assert forall|a: int, b: int|
                        0 <= a < b < self.entries@.len() implies (#[trigger] self.entries@[a]).0
                        != (#[trigger] self.entries@[b]).0 by {
                        assert(self.entries@[a] == if a < i {
                            pre[a]
                        } else {
                            pre[a + 1]
                        });
                        assert(self.entries@[b] == if b < i {
                            pre[b]
                        } else {
                            pre[b + 1]
                        });
                    }
                    assert forall|a: int| 0 <= a < self.entries@.len() implies (
                    #[trigger] self.entries@[a]).0 != *chunk_position by {
                        assert(self.entries@[a] == if a < i {
                            pre[a]
                        } else {
                            pre[a + 1]
                        });
                    }
                }
                Some(key)
            },
            None => None,
        }
    }

    /// Every currently registered coordinate, in registration order: the
    /// debug query surface for an external overlay.
    pub fn loaded_chunk_positions(&self) -> (r: Vec<VoxelChunkPosition>)
        ensures
            r@.len() == self.entries@.len(),
            forall|i: int| 0 <= i < r@.len() ==> r@[i] == (#[trigger] self.entries@[i]).0,
    {
        let mut r: Vec<VoxelChunkPosition> = Vec::new();
        let mut i: usize = 0;
        while i < self.entries.len()
            invariant
                i <= self.entries@.len(),
                r@.len() == i,
                forall|j: int| 0 <= j < i ==> r@[j] == (#[trigger] self.entries@[j]).0,
            decreases self.entries@.len() - i,
        {
            r.push(self.entries[i].0);
            i += 1;
        }
        r
    }

    /// Reads one voxel out of the registered chunk at `chunk_position`.
    /// `None` when the coordinate is not registered, its handle is dead,
    /// or the chunk's storage is smaller than the index asks for.
    pub fn get_voxel(
        &self,
        chunk_position: &VoxelChunkPosition,
        local_voxel_position: &LocalVoxelPosition,
        chunk_width: &VoxelChunkWidth,
        arena: &ChunkArena,
    ) -> (r: Option<Voxel>)
        requires
            self.wf(),
            chunk_width.0 >= 1,
            local_voxel_position.x < chunk_width.0,
            local_voxel_position.y < chunk_width.0,
            local_voxel_position.z < chunk_width.0,
        ensures
            r == self.spec_get_voxel(*chunk_position, *local_voxel_position, *chunk_width, *arena),
    {
        let key = match self.get_key(chunk_position) {
            Some(key) => key,
            None => {
                return None;
            },
        };
        let chunk = match arena.get(key) {
            Some(chunk) => chunk,
            None => {
                return None;
            },
        };
        proof {
            let i = choose|i: int|
                0 <= i < self.entries@.len() && #[trigger] self.entries@[i] == (
                *chunk_position,
                key,
                );
            let j = choose|j: int|
                0 <= j < self.entries@.len() && (#[trigger] self.entries@[j]).0 == *chunk_position;
            assert(self.entries@[j].0 == *chunk_position);
            assert(i == j);
            assert(self.spec_key_of(*chunk_position) == key);
        }
        let index = local_voxel_position.to_index(chunk_width);
        if index < chunk.voxels.len() {
            Some(chunk.voxels[index])
        } else {
            None
        }
    }

    /// The handle the registry holds for a registered coordinate.
    pub open spec fn spec_key_of(self, c: VoxelChunkPosition) -> usize {
        self.entries@[choose|i: int|
            0 <= i < self.entries@.len() && (#[trigger] self.entries@[i]).0 == c].1
    }

    /// What `get_voxel` returns: the voxel at the local position's flat
    /// index inside the registered, live chunk, if all of that holds.
    pub open spec fn spec_get_voxel(
        self,
        c: VoxelChunkPosition,
        p: LocalVoxelPosition,
        w: VoxelChunkWidth,
        arena: ChunkArena,
    ) -> Option<Voxel> {
        if !self.spec_contains(c) {
            None
        } else {
            let key = self.spec_key_of(c);
            if !arena.spec_live(key as int) {
                None
            } else {
                let chunk = arena.slots@[key as int]->0;
                let index = flat_index(p.x as int, p.y as int, p.z as int, w.0 as int);
                if index < chunk.voxels@.len() {
                    Some(chunk.voxels@[index])
                } else {
                    None
                }
            }
        }
    }
}

} // verus!
