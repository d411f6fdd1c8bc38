use voxel_terrain::coords::{IVec3, LocalVoxelPosition, VoxelChunkWidth};
use voxel_terrain::cube_mesh::CubeFace;
use voxel_terrain::generation::VoxelChunk;
use voxel_terrain::Voxel;

fn air_chunk(width: u8) -> VoxelChunk {
    let n = width as usize * width as usize * width as usize;
    VoxelChunk::from_voxels(vec![Voxel::new(0); n])
}

#[test]
fn empty_chunk_meshes_to_nothing() {
    for width in [1u8, 2, 4, 16] {
        let w = VoxelChunkWidth(width);
        let mesh = air_chunk(width).generate_mesh(&w);
        assert_eq!(mesh.vertices.len(), 0);
        assert_eq!(mesh.normals.len(), 0);
        assert_eq!(mesh.indices.len(), 0);
    }
}

#[test]
fn single_voxel_meshes_to_six_faces() {
    let w = VoxelChunkWidth(3);
    let mut voxels = vec![Voxel::new(0); 27];
    let centre = LocalVoxelPosition::new(1, 1, 1).to_index(&w);
    voxels[centre] = Voxel::new(1);
    let mesh = VoxelChunk::from_voxels(voxels).generate_mesh(&w);
    assert_eq!(mesh.vertices.len(), 24);
    assert_eq!(mesh.normals.len(), 24);
    assert_eq!(mesh.indices.len(), 36);
    for face in 0..6 {
        for j in 0..6 {
            let idx = mesh.indices[6 * face + j] as usize;
            assert!(4 * face <= idx && idx < 4 * face + 4);
        }
    }
}

#[test]
fn single_voxel_first_face_geometry() {
    // A lone voxel at the origin of a one-voxel chunk: the first face
    // emitted is Top, whose corner offsets (in half-voxel units around
    // the voxel centre) and winding come straight from the tables.
    let w = VoxelChunkWidth(1);
    let mesh = VoxelChunk::from_voxels(vec![Voxel::new(7)]).generate_mesh(&w);
    assert_eq!(mesh.vertices.len(), 24);
    assert_eq!(mesh.vertices[0], IVec3::new(-1, 1, -1));
    assert_eq!(mesh.vertices[1], IVec3::new(-1, 1, 1));
    assert_eq!(mesh.vertices[2], IVec3::new(1, 1, -1));
    assert_eq!(mesh.vertices[3], IVec3::new(1, 1, 1));
    for j in 0..4 {
        assert_eq!(mesh.normals[j], IVec3::new(0, 1, 0));
    }
    assert_eq!(&mesh.indices[0..6], &[2, 0, 1, 1, 3, 2]);
}

#[test]
fn adjacent_voxels_cull_shared_faces() {
    // Two solid voxels side by side along x in a 2-wide chunk: the two
    // touching faces are culled, leaving five faces each.
    let w = VoxelChunkWidth(2);
    let mut voxels = vec![Voxel::new(0); 8];
    voxels[LocalVoxelPosition::new(0, 0, 0).to_index(&w)] = Voxel::new(1);
    voxels[LocalVoxelPosition::new(1, 0, 0).to_index(&w)] = Voxel::new(1);
    let mesh = VoxelChunk::from_voxels(voxels).generate_mesh(&w);
    assert_eq!(mesh.vertices.len(), 40);
    assert_eq!(mesh.normals.len(), 40);
    assert_eq!(mesh.indices.len(), 60);
}

#[test]
fn vertex_positions_offset_by_voxel() {
    // The lone solid voxel at local (2, 0, 1) of a 3-wide chunk: every
    // vertex sits within one half-unit of the voxel's centre (4, 0, 2)
    // in half-voxel units.
    let w = VoxelChunkWidth(3);
    let mut voxels = vec![Voxel::new(0); 27];
    voxels[LocalVoxelPosition::new(2, 0, 1).to_index(&w)] = Voxel::new(1);
    let mesh = VoxelChunk::from_voxels(voxels).generate_mesh(&w);
    assert_eq!(mesh.vertices.len(), 24);
    for v in &mesh.vertices {
        assert!((v.x - 4).abs() == 1 && (v.y - 0).abs() == 1 && (v.z - 2).abs() == 1);
    }
}

#[test]
fn face_indices_are_shifted_by_vertices_pushed() {
    let idx = CubeFace::Top.indices(8);
    assert_eq!(idx, vec![10, 8, 9, 9, 11, 10]);
    let idx = CubeFace::Bottom.indices(0);
    assert_eq!(idx, vec![3, 1, 0, 0, 2, 3]);
}

#[test]
fn face_from_ivec3_maps_all_six_offsets() {
    let pairs = [
        (IVec3::new(0, 1, 0), CubeFace::Top),
        (IVec3::new(0, -1, 0), CubeFace::Bottom),
        (IVec3::new(-1, 0, 0), CubeFace::Left),
        (IVec3::new(1, 0, 0), CubeFace::Right),
        (IVec3::new(0, 0, -1), CubeFace::Front),
        (IVec3::new(0, 0, 1), CubeFace::Back),
    ];
    for (v, f) in pairs {
        assert_eq!(CubeFace::from_ivec3(v), f);
    }
}

#[test]
fn face_normals_replicated_four_times() {
    let n = CubeFace::Front.normals();
    assert_eq!(n, vec![IVec3::new(0, 0, 1); 4]);
    let n = CubeFace::Back.normals();
    assert_eq!(n, vec![IVec3::new(0, 0, -1); 4]);
}

#[test]
fn face_vertices_are_four_corners() {
    let v = CubeFace::Bottom.vertices();
    assert_eq!(
        v,
        vec![
            IVec3::new(-1, -1, -1),
            IVec3::new(-1, -1, 1),
            IVec3::new(1, -1, -1),
            IVec3::new(1, -1, 1),
        ]
    );
}

#[test]
fn generated_chunk_mesh_matches_independent_face_count() {
    // Generate a chunk from the field, then recount its exposed faces
    // directly from the voxel data: a face is exposed when the
    // neighbouring cell is outside the chunk or not solid. The mesher
    // must emit exactly four vertices, four normals and six indices per
    // exposed face, and every index must stay within its own face's
    // four vertices.
    let w = VoxelChunkWidth(4);
    let noise = voxel_terrain::noise::TerrainNoise { seed: 2024 };
    let chunk = VoxelChunk::from_noise(&voxel_terrain::coords::VoxelChunkPosition::new(0, 0, 0), &w, &noise);

    let solid = |x: i32, y: i32, z: i32| -> bool {
        if x < 0 || x >= 4 || y < 0 || y >= 4 || z < 0 || z >= 4 {
            return false;
        }
        let i = LocalVoxelPosition::new(x as u8, y as u8, z as u8).to_index(&w);
        chunk.voxels[i].is_solid()
    };
    let mut exposed = 0usize;
    for x in 0..4 {
        for y in 0..4 {
            for z in 0..4 {
                if solid(x, y, z) {
                    for (dx, dy, dz) in [
                        (0, 1, 0),
                        (0, -1, 0),
                        (-1, 0, 0),
                        (1, 0, 0),
                        (0, 0, -1),
                        (0, 0, 1),
                    ] {
                        if !solid(x + dx, y + dy, z + dz) {
                            exposed += 1;
                        }
                    }
                }
            }
        }
    }

    let mesh = chunk.generate_mesh(&w);
    assert_eq!(mesh.vertices.len(), 4 * exposed);
    assert_eq!(mesh.normals.len(), 4 * exposed);
    assert_eq!(mesh.indices.len(), 6 * exposed);
    for face in 0..exposed {
        for j in 0..6 {
            let idx = mesh.indices[6 * face + j] as usize;
            assert!(4 * face <= idx && idx < 4 * face + 4);
        }
    }
}

#[test]
fn voxel_solidity() {
    assert!(!Voxel::new(0).is_solid());
    assert!(Voxel::new(1).is_solid());
    assert!(Voxel::new(500).is_solid());
    assert!(!Voxel::default().is_solid());
}
