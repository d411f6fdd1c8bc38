use voxel_terrain::coords::{LocalVoxelPosition, VoxelChunkPosition, VoxelChunkWidth};
use voxel_terrain::generation::VoxelChunk;
use voxel_terrain::noise::TerrainNoise;

#[test]
fn same_seed_same_world() {
    let a = TerrainNoise { seed: 12345 };
    let b = TerrainNoise { seed: 12345 };
    for x in [-40i32, -1, 0, 1, 17, 900] {
        for y in [-7i32, 0, 3] {
            for z in [-2i32, 0, 64] {
                assert_eq!(a.get_voxel(x, y, z), b.get_voxel(x, y, z));
            }
        }
    }
}

#[test]
fn voxels_are_stone_or_air() {
    let noise = TerrainNoise { seed: 7 };
    let mut stone = 0usize;
    let mut air = 0usize;
    for x in -8i32..8 {
        for y in -8i32..8 {
            let v = noise.get_voxel(x, y, 0);
            assert!(v.id == 0 || v.id == 1);
            if v.id == 1 {
                stone += 1;
            } else {
                air += 1;
            }
        }
    }
    // A seeded field classifies, it does not answer uniformly.
    assert!(stone > 0 && air > 0);
}

#[test]
fn generated_chunk_matches_field_samples() {
    // from_noise distributes the classification across workers; every
    // slot must still hold exactly the field's answer for its own world
    // position, in flat-index order.
    let noise = TerrainNoise { seed: 42 };
    let w = VoxelChunkWidth(4);
    for chunk_pos in [
        VoxelChunkPosition::new(0, 0, 0),
        VoxelChunkPosition::new(-1, -2, 3),
        VoxelChunkPosition::new(100, 0, -57),
    ] {
        let chunk = VoxelChunk::from_noise(&chunk_pos, &w, &noise);
        assert_eq!(chunk.voxels.len(), 64);
        for x in 0u8..4 {
            for y in 0u8..4 {
                for z in 0u8..4 {
                    let i = LocalVoxelPosition::new(x, y, z).to_index(&w);
                    let expected = noise.get_voxel(
                        chunk_pos.0.x * 4 + x as i32,
                        chunk_pos.0.y * 4 + y as i32,
                        chunk_pos.0.z * 4 + z as i32,
                    );
                    assert_eq!(chunk.voxels[i], expected);
                }
            }
        }
    }
}

#[test]
fn random_field_constructs() {
    let noise = TerrainNoise::rand();
    // Whatever seed was drawn, the field is a total classification.
    let v = noise.get_voxel(0, 0, 0);
    assert!(v.id == 0 || v.id == 1);
    let again = TerrainNoise { seed: noise.seed };
    assert_eq!(again.get_voxel(5, -5, 5), noise.get_voxel(5, -5, 5));
}
