use voxel_terrain::coords::{IVec3, LocalVoxelPosition, VoxelChunkPosition, VoxelChunkWidth};

#[test]
fn local_index_round_trip_width_16() {
    let w = VoxelChunkWidth(16);
    for x in 0u8..16 {
        for y in 0u8..16 {
            for z in 0u8..16 {
                let p = LocalVoxelPosition::new(x, y, z);
                let i = p.to_index(&w);
                let q = LocalVoxelPosition::from_index(i, &w);
                assert_eq!(p, q);
            }
        }
    }
}

#[test]
fn flat_index_round_trip_width_16() {
    let w = VoxelChunkWidth(16);
    for i in 0usize..16 * 16 * 16 {
        let p = LocalVoxelPosition::from_index(i, &w);
        assert_eq!(p.to_index(&w), i);
    }
}

#[test]
fn to_index_formula() {
    let w = VoxelChunkWidth(16);
    let p = LocalVoxelPosition::new(1, 2, 3);
    assert_eq!(p.to_index(&w), 3 * 256 + 2 * 16 + 1);
    let q = LocalVoxelPosition::new(0, 0, 0);
    assert_eq!(q.to_index(&w), 0);
    let r = LocalVoxelPosition::new(15, 15, 15);
    assert_eq!(r.to_index(&w), 4095);
}

#[test]
fn from_world_pos_truncates_toward_zero() {
    let w = VoxelChunkWidth(16);
    assert_eq!(
        VoxelChunkPosition::from_world_pos(IVec3::new(-15, 15, -16), &w),
        VoxelChunkPosition::new(0, 0, -1)
    );
    assert_eq!(
        VoxelChunkPosition::from_world_pos(IVec3::new(31, -31, 0), &w),
        VoxelChunkPosition::new(1, -1, 0)
    );
    assert_eq!(
        VoxelChunkPosition::from_world_pos(IVec3::new(16, -17, 47), &w),
        VoxelChunkPosition::new(1, -1, 2)
    );
}

#[test]
fn world_origin_of_chunk() {
    let w = VoxelChunkWidth(16);
    let c = VoxelChunkPosition::new(2, -3, 0);
    assert_eq!(c.as_world_pos(&w), IVec3::new(32, -48, 0));
}

#[test]
fn world_chunk_mutual_inverse() {
    let w = VoxelChunkWidth(16);
    for xc in [-3i32, -1, 0, 1, 5] {
        for yc in [-2i32, 0, 4] {
            let c = VoxelChunkPosition::new(xc, yc, 7);
            let back = VoxelChunkPosition::from_world_pos(c.as_world_pos(&w), &w);
            assert_eq!(back, c);
        }
    }
}

#[test]
fn position_arithmetic() {
    let a = VoxelChunkPosition::new(8, -9, 10);
    assert_eq!(a.div(2), VoxelChunkPosition::new(4, -4, 5));
    assert_eq!(a.mul(3), VoxelChunkPosition::new(24, -27, 30));
    assert_eq!(
        a.sub(VoxelChunkPosition::new(1, 1, -1)),
        VoxelChunkPosition::new(7, -10, 11)
    );
}

#[test]
fn chunk_width_default_is_16() {
    assert_eq!(VoxelChunkWidth::default(), VoxelChunkWidth(16));
}
