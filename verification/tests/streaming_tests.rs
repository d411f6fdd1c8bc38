use voxel_terrain::coords::{IVec3, VoxelChunkPosition, VoxelChunkWidth};
use voxel_terrain::generation::VoxelChunk;
use voxel_terrain::load::{
    enqueue_chunks_in_render_distance, handle_chunk_loading, handle_chunk_rendering,
    handle_chunk_unloading, unload_chunks_out_of_render_distance, ChunkLoadQueue,
    ChunkLoadQueueInput, ChunkRenderQueue, Observer, RenderDistance, VoxelWorld,
};
use voxel_terrain::noise::TerrainNoise;
use voxel_terrain::registry::{ChunkArena, VoxelChunkMap, VoxelWorldError};
use voxel_terrain::Voxel;

fn observer_at(x: i32, y: i32, z: i32, r: u32, m: u32) -> Observer {
    Observer {
        position: IVec3::new(x, y, z),
        render_distance: RenderDistance::new(r, m),
    }
}

fn tiny_chunk() -> VoxelChunk {
    VoxelChunk::from_voxels(vec![Voxel::new(1)])
}

#[test]
fn registry_rejects_duplicate_insert() {
    let mut map = VoxelChunkMap::new();
    let c = VoxelChunkPosition::new(1, 2, 3);
    assert_eq!(map.insert_chunk(c, 7), Ok(()));
    assert_eq!(map.insert_chunk(c, 9), Err(VoxelWorldError::DuplicateChunk));
    // The first entry is untouched.
    assert_eq!(map.get_key(&c), Some(7));
    assert_eq!(map.entries.len(), 1);
}

#[test]
fn registry_remove_and_enumerate() {
    let mut map = VoxelChunkMap::new();
    let a = VoxelChunkPosition::new(0, 0, 0);
    let b = VoxelChunkPosition::new(1, 0, 0);
    map.insert_chunk(a, 0).unwrap();
    map.insert_chunk(b, 1).unwrap();
    assert_eq!(map.loaded_chunk_positions(), vec![a, b]);
    assert_eq!(map.remove_chunk(&a), Some(0));
    assert_eq!(map.remove_chunk(&a), None);
    assert_eq!(map.loaded_chunk_positions(), vec![b]);
}

#[test]
fn arena_despawn_twice_is_missing_handle() {
    let mut arena = ChunkArena::new();
    let key = arena.spawn(tiny_chunk());
    assert_eq!(arena.despawn(key), Ok(()));
    assert_eq!(
        arena.despawn(key),
        Err(VoxelWorldError::MissingChunkHandle)
    );
    assert_eq!(
        arena.despawn(55),
        Err(VoxelWorldError::MissingChunkHandle)
    );
}

#[test]
fn stale_render_target_is_reported() {
    let mut arena = ChunkArena::new();
    let key = arena.spawn(tiny_chunk());
    assert!(arena.render_target(key).is_ok());
    arena.despawn(key).unwrap();
    match arena.render_target(key) {
        Err(e) => assert_eq!(e, VoxelWorldError::StaleRenderTarget),
        Ok(_) => panic!("despawned handle must be stale"),
    }
}

#[test]
fn map_get_voxel_reads_through_arena() {
    let w = VoxelChunkWidth(1);
    let mut map = VoxelChunkMap::new();
    let mut arena = ChunkArena::new();
    let c = VoxelChunkPosition::new(4, 5, 6);
    let local = voxel_terrain::coords::LocalVoxelPosition::new(0, 0, 0);
    assert_eq!(map.get_voxel(&c, &local, &w, &arena), None);
    let key = arena.spawn(tiny_chunk());
    map.insert_chunk(c, key).unwrap();
    assert_eq!(map.get_voxel(&c, &local, &w, &arena), Some(Voxel::new(1)));
    arena.despawn(key).unwrap();
    assert_eq!(map.get_voxel(&c, &local, &w, &arena), None);
}

#[test]
fn load_set_is_the_inscribed_sphere() {
    // One observer at the chunk origin with R = 2 over an empty
    // registry: exactly the 33 coordinates within Euclidean distance 2,
    // each queued once.
    let w = VoxelChunkWidth(16);
    let map = VoxelChunkMap::new();
    let mut queue = ChunkLoadQueue::new();
    let observers = vec![observer_at(0, 0, 0, 2, 0)];
    enqueue_chunks_in_render_distance(&observers, &w, &mut queue, &map);

    let queued: Vec<VoxelChunkPosition> = queue.load.iter().copied().collect();
    assert_eq!(queued.len(), 33);
    for c in &queued {
        let d2 = c.0.x * c.0.x + c.0.y * c.0.y + c.0.z * c.0.z;
        assert!(d2 <= 4);
    }
    // Each exactly once, and nothing in range is missing.
    for x in -2i32..=2 {
        for y in -2i32..=2 {
            for z in -2i32..=2 {
                let c = VoxelChunkPosition::new(x, y, z);
                let wanted = x * x + y * y + z * z <= 4;
                let occurrences = queued.iter().filter(|q| **q == c).count();
                assert_eq!(occurrences, if wanted { 1 } else { 0 });
            }
        }
    }
}

#[test]
fn load_scan_skips_registered_and_queued() {
    let w = VoxelChunkWidth(16);
    let mut map = VoxelChunkMap::new();
    let origin = VoxelChunkPosition::new(0, 0, 0);
    map.insert_chunk(origin, 0).unwrap();
    let mut queue = ChunkLoadQueue::new();
    queue.push_chunk(ChunkLoadQueueInput::Load(VoxelChunkPosition::new(1, 0, 0)));
    let observers = vec![observer_at(0, 0, 0, 1, 0)];
    enqueue_chunks_in_render_distance(&observers, &w, &mut queue, &map);
    // The ball of radius 1 holds 7 coordinates; the registered origin is
    // skipped and the pre-queued one is not repeated.
    let queued: Vec<VoxelChunkPosition> = queue.load.iter().copied().collect();
    assert_eq!(queued.len(), 6);
    assert_eq!(queued[0], VoxelChunkPosition::new(1, 0, 0));
    assert!(!queued.contains(&origin));
}

#[test]
fn unload_hysteresis_band() {
    // A single loaded chunk and one observer, width 1 so world position
    // and chunk coordinate coincide. R = 1, M = 1: the chunk is kept at
    // every distance up to R + M = 2 and queued as soon as d exceeds it
    // — and only once, because the drain then unregisters it.
    let w = VoxelChunkWidth(1);
    let mut map = VoxelChunkMap::new();
    let mut arena = ChunkArena::new();
    let c = VoxelChunkPosition::new(0, 0, 0);
    let key = arena.spawn(tiny_chunk());
    map.insert_chunk(c, key).unwrap();

    let mut queue = ChunkLoadQueue::new();
    for d in 0i32..=2 {
        let observers = vec![observer_at(d, 0, 0, 1, 1)];
        unload_chunks_out_of_render_distance(&observers, &w, &mut queue, &map);
        assert_eq!(queue.unload.len(), 0);
    }

    let observers = vec![observer_at(3, 0, 0, 1, 1)];
    unload_chunks_out_of_render_distance(&observers, &w, &mut queue, &map);
    assert_eq!(queue.unload.len(), 1);

    handle_chunk_unloading(&mut queue, &mut map, &mut arena);
    assert_eq!(queue.unload.len(), 0);
    assert_eq!(map.entries.len(), 0);

    // Unchanged further ticks enqueue nothing: the chunk is gone.
    unload_chunks_out_of_render_distance(&observers, &w, &mut queue, &map);
    assert_eq!(queue.unload.len(), 0);
}

#[test]
fn chunk_kept_while_any_observer_near() {
    // Within R + M of observer A but far beyond R + M of observer B:
    // retention wins — the rule is AND-of-exceeds over all observers.
    let w = VoxelChunkWidth(1);
    let mut map = VoxelChunkMap::new();
    let mut arena = ChunkArena::new();
    let c = VoxelChunkPosition::new(0, 0, 0);
    let key = arena.spawn(tiny_chunk());
    map.insert_chunk(c, key).unwrap();

    let mut queue = ChunkLoadQueue::new();
    let near_and_far = vec![observer_at(1, 0, 0, 1, 1), observer_at(100, 0, 0, 1, 1)];
    unload_chunks_out_of_render_distance(&near_and_far, &w, &mut queue, &map);
    assert_eq!(queue.unload.len(), 0);

    let both_far = vec![observer_at(50, 0, 0, 1, 1), observer_at(100, 0, 0, 1, 1)];
    unload_chunks_out_of_render_distance(&both_far, &w, &mut queue, &map);
    assert_eq!(queue.unload.len(), 1);
}

#[test]
fn loader_survives_duplicate_request() {
    // Two requests for the same coordinate: the second insert conflicts,
    // the generated chunk is discarded, and the drain still serves the
    // rest of the queue.
    let w = VoxelChunkWidth(2);
    let noise = TerrainNoise { seed: 9 };
    let mut map = VoxelChunkMap::new();
    let mut arena = ChunkArena::new();
    let mut lq = ChunkLoadQueue::new();
    let mut rq = ChunkRenderQueue::new();
    let c1 = VoxelChunkPosition::new(0, 0, 0);
    let c2 = VoxelChunkPosition::new(1, 0, 0);
    lq.push_chunk(ChunkLoadQueueInput::Load(c1));
    lq.push_chunk(ChunkLoadQueueInput::Load(c1));
    lq.push_chunk(ChunkLoadQueueInput::Load(c2));
    handle_chunk_loading(&mut lq, &mut rq, &mut map, &mut arena, &w, &noise);
    assert_eq!(lq.load.len(), 0);
    assert_eq!(map.entries.len(), 2);
    assert!(map.get_key(&c1).is_some());
    assert!(map.get_key(&c2).is_some());
    // Only the two registered chunks were queued for rendering.
    assert_eq!(rq.queue.len(), 2);
    let meshes = handle_chunk_rendering(&mut rq, &w, &arena);
    assert_eq!(meshes.len(), 2);
}

#[test]
fn renderer_drops_stale_requests_silently() {
    let w = VoxelChunkWidth(1);
    let mut arena = ChunkArena::new();
    let live = arena.spawn(tiny_chunk());
    let dead = arena.spawn(tiny_chunk());
    arena.despawn(dead).unwrap();
    let mut rq = ChunkRenderQueue::new();
    rq.push_chunk(dead);
    rq.push_chunk(live);
    rq.push_chunk(77);
    let meshes = handle_chunk_rendering(&mut rq, &w, &arena);
    assert_eq!(rq.queue.len(), 0);
    assert_eq!(meshes.len(), 1);
    assert_eq!(meshes[0].0, live);
    // One solid voxel alone in its chunk: six faces.
    assert_eq!(meshes[0].1.indices.len(), 36);
}

#[test]
fn tick_streams_chunks_around_observer() {
    let mut world = VoxelWorld::new(TerrainNoise { seed: 31 });
    let observers = vec![observer_at(0, 0, 0, 1, 0)];
    let meshes = world.tick(&observers);
    // The ball of radius 1 holds 7 chunk coordinates; all were loaded,
    // registered and meshed this tick.
    assert_eq!(world.voxel_chunk_map.entries.len(), 7);
    assert_eq!(meshes.len(), 7);
    assert_eq!(world.chunk_load_queue.load.len(), 0);
    assert_eq!(world.chunk_load_queue.unload.len(), 0);
    assert_eq!(world.chunk_render_queue.queue.len(), 0);

    // An unchanged second tick finds everything loaded and nothing to do.
    let meshes = world.tick(&observers);
    assert_eq!(world.voxel_chunk_map.entries.len(), 7);
    assert_eq!(meshes.len(), 0);

    // The observer leaves: with no margin every chunk is let go.
    let observers = vec![observer_at(160, 0, 0, 1, 0)];
    let _ = world.tick(&observers);
    assert!(world
        .voxel_chunk_map
        .loaded_chunk_positions()
        .iter()
        .all(|c| c.0.x >= 9));
}

#[test]
fn tick_hysteresis_keeps_band_chunks() {
    // Width 1, R = 1, M = 1. A tick at the origin loads the ball of
    // radius 1. The observer then steps to x = 2: the origin chunk sits
    // at distance 2 = R + M, inside the hysteresis band — neither
    // reloaded nor unloaded. At x = 3 it is beyond the band and goes.
    let mut world = VoxelWorld::with_width(
        TerrainNoise { seed: 5 },
        voxel_terrain::coords::VoxelChunkWidth(1),
    );
    let origin = VoxelChunkPosition::new(0, 0, 0);
    let _ = world.tick(&vec![observer_at(0, 0, 0, 1, 1)]);
    assert_eq!(world.voxel_chunk_map.entries.len(), 7);
    assert!(world.voxel_chunk_map.get_key(&origin).is_some());

    let _ = world.tick(&vec![observer_at(2, 0, 0, 1, 1)]);
    assert!(world.voxel_chunk_map.get_key(&origin).is_some());

    let _ = world.tick(&vec![observer_at(3, 0, 0, 1, 1)]);
    assert!(world.voxel_chunk_map.get_key(&origin).is_none());
}

#[test]
fn queue_inputs_route_to_their_queues() {
    let mut q = ChunkLoadQueue::new();
    let c = VoxelChunkPosition::new(2, 2, 2);
    q.push_chunk(ChunkLoadQueueInput::Load(c));
    q.push_chunk(ChunkLoadQueueInput::Unload((c, 3)));
    assert_eq!(q.load.len(), 1);
    assert_eq!(q.unload.len(), 1);
    assert_eq!(q.load[0], c);
    assert_eq!(q.unload[0], (c, 3));
    let mut rq = ChunkRenderQueue::new();
    rq.push_chunk(9);
    assert_eq!(rq.queue[0], 9);
}
