use crate::coords::{
    flat_index, index_x, index_y, index_z, IVec3, LocalVoxelPosition, VoxelChunkPosition,
    VoxelChunkWidth,
};
use crate::cube_mesh::{
    direct_cube_neighbours, face_base_indices, face_normal, face_offset, face_order, face_vertices,
    CubeFace,
};
use crate::noise::{density_voxel, TerrainNoise};
use crate::Voxel;
use rayon::iter::{IndexedParallelIterator, IntoParallelIterator, ParallelIterator};
use vstd::prelude::*;

verus! {

/// The voxel the density field assigns to flat index `i` of the chunk at
/// grid coordinate `c`: the field sampled at the voxel's world position
/// `c * w + local(i)`, component-wise.
pub open spec fn chunk_voxel(seed: u32, c: VoxelChunkPosition, w: int, i: int) -> Voxel {
    density_voxel(
        seed,
        c.0.x * w + index_x(i, w),
        c.0.y * w + index_y(i, w),
        c.0.z * w + index_z(i, w),
    )
}

/// A chunk-sized cube of voxels, stored as a dense flat array of exactly
/// `width^3` voxels in `flat_index` order. Built once by the generator and
/// immutable thereafter.
#[derive(Clone)]
pub struct VoxelChunk {
    pub voxels: Vec<Voxel>,
}

/// Classifies the voxel at flat index `i` of the chunk at `chunk_pos`:
/// the unit of work the generator hands out to worker threads.
fn classify_at(
    terrain_noise: &TerrainNoise,
    chunk_pos: &VoxelChunkPosition,
    chunk_width: &VoxelChunkWidth,
    i: usize,
) -> (v: Voxel)
    requires
        chunk_width.0 >= 1,
        i < (chunk_width.0 as int) * (chunk_width.0 as int) * (chunk_width.0 as int),
    ensures
        v == chunk_voxel(terrain_noise.seed, *chunk_pos, chunk_width.0 as int, i as int),
{
    let position = LocalVoxelPosition::from_index(i, chunk_width);
    let w = chunk_width.0 as i64;
    proof {
        assert(-0x80000000 * 255 <= chunk_pos.0.x as int * (w as int) <= 0x7fffffff * 255
            && -0x80000000 * 255 <= chunk_pos.0.y as int * (w as int) <= 0x7fffffff * 255
            && -0x80000000 * 255 <= chunk_pos.0.z as int * (w as int) <= 0x7fffffff * 255) by (
        nonlinear_arith)
            requires
                1 <= w <= 255,
                -0x80000000 <= chunk_pos.0.x as int <= 0x7fffffff,
                -0x80000000 <= chunk_pos.0.y as int <= 0x7fffffff,
                -0x80000000 <= chunk_pos.0.z as int <= 0x7fffffff,
        ;
    }
    let wx: i64 = chunk_pos.0.x as i64 * w + position.x as i64;
    let wy: i64 = chunk_pos.0.y as i64 * w + position.y as i64;
    let wz: i64 = chunk_pos.0.z as i64 * w + position.z as i64;
    terrain_noise.sample(wx, wy, wz)
}

/// Relies on rayon: `into_par_iter` over the index range distributes the
/// per-index classification across worker threads, and `collect_into_vec`
/// on an indexed parallel iterator stores each result at its own index,
/// so no two workers write the same slot and the order is the index
/// order. The closure only calls the verified `classify_at`.
#[verifier::external_body]
fn par_classify(
    terrain_noise: &TerrainNoise,
    chunk_pos: &VoxelChunkPosition,
    chunk_width: &VoxelChunkWidth,
    range_size: usize,
) -> (voxels: Vec<Voxel>)
    requires
        chunk_width.0 >= 1,
        range_size == (chunk_width.0 as int) * (chunk_width.0 as int) * (chunk_width.0 as int),
    ensures
        voxels@.len() == range_size,
        forall|i: int|
            0 <= i < range_size ==> voxels@[i] == chunk_voxel(
                terrain_noise.seed,
                *chunk_pos,
                chunk_width.0 as int,
                i,
            ),
{
    let mut voxels: Vec<Voxel> = Vec::new();
    (0..range_size)
        .into_par_iter()
        .map(|i| classify_at(terrain_noise, chunk_pos, chunk_width, i))
        .collect_into_vec(&mut voxels);
    voxels
}

impl VoxelChunk {
    /// A chunk holding exactly the given voxels.
    pub fn from_voxels(voxels: Vec<Voxel>) -> (r: Self)
        ensures
            r.voxels == voxels,
    {
        VoxelChunk { voxels }
    }

    /// Generates the chunk at `chunk_pos` by sampling the density field at
    /// every local position's world coordinate. Each position is
    /// classified independently, distributed across worker threads.
    pub fn from_noise(
        chunk_pos: &VoxelChunkPosition,
        chunk_width: &VoxelChunkWidth,
        terrain_noise: &TerrainNoise,
    ) -> (r: Self)
        requires
            chunk_width.0 >= 1,
        ensures
            r.voxels@.len() == (chunk_width.0 as int) * (chunk_width.0 as int) * (
            chunk_width.0 as int),
            forall|i: int|
                0 <= i < r.voxels@.len() ==> r.voxels@[i] == chunk_voxel(
                    terrain_noise.seed,
                    *chunk_pos,
                    chunk_width.0 as int,
                    i,
                ),
    {
        proof {
            assert((chunk_width.0 as int) * (chunk_width.0 as int) <= 255 * 255 && (
            chunk_width.0 as int) * (chunk_width.0 as int) * (chunk_width.0 as int) <= 255 * 255
                * 255) by (nonlinear_arith)
                requires
                    chunk_width.0 <= 255,
            ;
        }
        let range_size = chunk_width.0 as usize * chunk_width.0 as usize * chunk_width.0 as usize;
        let voxels = par_classify(terrain_noise, chunk_pos, chunk_width, range_size);
        VoxelChunk { voxels }
    }

    /// Builds the chunk's surface geometry: for every solid voxel, each
    /// of its six faces is emitted exactly when the cell it looks toward
    /// is outside the chunk or not solid, appending four vertices, four
    /// normals and six winding-table indices per face, in ascending
    /// flat-index order then face order.
    pub fn generate_mesh(&self, chunk_width: &VoxelChunkWidth) -> (m: MeshData)
        requires
            chunk_width.0 >= 1,
            self.voxels@.len() == (chunk_width.0 as int) * (chunk_width.0 as int) * (
            chunk_width.0 as int),
        ensures
            m@ == chunk_mesh(self.voxels@, chunk_width.0 as int),
    {
        let w = chunk_width.0;
        let ghost wi: int = w as int;
        let ghost voxels = self.voxels@;
        proof {
            assert((wi * wi) <= 255 * 255 && wi * wi * wi <= 255 * 255 * 255 && 24 * (wi * wi * wi)
                + 24 < 0xffffffff) by (nonlinear_arith)
                requires
                    1 <= wi <= 255,
            ;
        }
        let range_size = w as usize * w as usize * w as usize;
        let mut vertices: Vec<IVec3> = Vec::new();
        let mut normals: Vec<IVec3> = Vec::new();
        let mut indices: Vec<u32> = Vec::new();
        let mut vertices_pushed: u32 = 0;
        let neighbours = direct_cube_neighbours();
        let mut i: usize = 0;
        while i < range_size
            invariant
                1 <= wi <= 255,
                wi == chunk_width.0 as int,
                voxels == self.voxels@,
                voxels.len() == wi * wi * wi,
                range_size == wi * wi * wi,
                24 * (wi * wi * wi) + 24 < 0xffffffff,
                i <= range_size,
                (MeshView { vertices: vertices@, normals: normals@, indices: indices@ })
                    == mesh_upto(voxels, wi, i as int),
                vertices_pushed == vertices@.len(),
                neighbours@.len() == 6,
                forall|j: int| 0 <= j < 6 ==> neighbours@[j] == face_offset(face_order()[j]),
            decreases range_size - i,
        {
            proof {
                lemma_mesh_upto_wf(voxels, wi, i as int);
            }
            let voxel = self.voxels[i];
            if voxel.is_solid() {
                let local_voxel_pos = LocalVoxelPosition::from_index(i, chunk_width);
                let ghost m_i = mesh_upto(voxels, wi, i as int);
                let mut fi: usize = 0;
                while fi < 6
                    invariant
                        1 <= wi <= 255,
                        wi == chunk_width.0 as int,
                        voxels == self.voxels@,
                        voxels.len() == wi * wi * wi,
                        range_size == wi * wi * wi,
                        24 * (wi * wi * wi) + 24 < 0xffffffff,
                        i < range_size,
                        fi <= 6,
                        m_i == mesh_upto(voxels, wi, i as int),
                        mesh_wf(m_i),
                        m_i.vertices.len() <= 24 * i,
                        (MeshView { vertices: vertices@, normals: normals@, indices: indices@ })
                            == mesh_faces(voxels, wi, i as int, m_i, fi as int),
                        vertices_pushed == vertices@.len(),
                        voxel == voxels[i as int],
                        voxel.id != 0,
                        local_voxel_pos.x == index_x(i as int, wi),
                        local_voxel_pos.y == index_y(i as int, wi),
                        local_voxel_pos.z == index_z(i as int, wi),
                        local_voxel_pos.x < wi && local_voxel_pos.y < wi && local_voxel_pos.z < wi,
                        neighbours@.len() == 6,
                        forall|j: int| 0 <= j < 6 ==> neighbours@[j] == face_offset(face_order()[j]),
                    decreases 6 - fi,
                {
                    proof {
                        lemma_mesh_faces_wf(voxels, wi, i as int, m_i, fi as int);
                    }
                    let ghost prev = mesh_faces(voxels, wi, i as int, m_i, fi as int);
                    let nb = neighbours[fi];
                    proof {
                        assert(face_offset(face_order()[fi as int]) == nb);
                    }
                    let face = CubeFace::from_ivec3(nb);
                    proof {
                        lemma_face_offset_injective(face, face_order()[fi as int]);
                        lemma_face_vertices_bounds(face);
                    }
                    let nx: i32 = local_voxel_pos.x as i32 + nb.x;
                    let ny: i32 = local_voxel_pos.y as i32 + nb.y;
                    let nz: i32 = local_voxel_pos.z as i32 + nb.z;
                    let wc = chunk_width.0 as i32;
                    let emit: bool;
                    if 0 <= nx && nx < wc && 0 <= ny && ny < wc && 0 <= nz && nz < wc {
                        proof {
                            assert((nx as u8) as int == nx as int && (ny as u8) as int
                                == ny as int && (nz as u8) as int == nz as int);
                        }
                        let npos = LocalVoxelPosition::new(nx as u8, ny as u8, nz as u8);
                        let nidx = npos.to_index(chunk_width);
                        emit = !self.voxels[nidx].is_solid();
                        proof {
                            assert(nidx == flat_index(nx as int, ny as int, nz as int, wi));
                            assert(solid_at(voxels, wi, nx as int, ny as int, nz as int) == (
                            voxels[nidx as int].id != 0));
                        }
                    } else {
                        emit = true;
                        proof {
                            assert(!solid_at(voxels, wi, nx as int, ny as int, nz as int));
                        }
                    }
                    proof {
                        assert(nx as int == index_x(i as int, wi) + face_offset(face).x);
                        assert(ny as int == index_y(i as int, wi) + face_offset(face).y);
                        assert(nz as int == index_z(i as int, wi) + face_offset(face).z);
                        assert(emit == face_emitted(voxels, wi, i as int, face));
                    }
                    if emit {
                        let face_idx = face.indices(vertices_pushed);
                        indices.push(face_idx[0]);
                        indices.push(face_idx[1]);
                        indices.push(face_idx[2]);
                        indices.push(face_idx[3]);
                        indices.push(face_idx[4]);
                        indices.push(face_idx[5]);
                        let face_vtx = face.vertices();
                        let bx: i32 = 2 * local_voxel_pos.x as i32;
                        let by: i32 = 2 * local_voxel_pos.y as i32;
                        let bz: i32 = 2 * local_voxel_pos.z as i32;
                        let mut k: usize = 0;
                        while k < 4
                            invariant
                                face_vtx@.len() == 4,
                                forall|j: int|
                                    0 <= j < 4 ==> face_vtx@[j] == face_vertices(face)[j],
                                forall|j: int|
                                    0 <= j < 4 ==> -1 <= (#[trigger] face_vertices(face)[j]).x <= 1
                                        && -1 <= face_vertices(face)[j].y <= 1 && -1
                                        <= face_vertices(face)[j].z <= 1,
                                k <= 4,
                                bx == 2 * local_voxel_pos.x && by == 2 * local_voxel_pos.y && bz
                                    == 2 * local_voxel_pos.z,
                                local_voxel_pos.x == index_x(i as int, wi),
                                local_voxel_pos.y == index_y(i as int, wi),
                                local_voxel_pos.z == index_z(i as int, wi),
                                vertices@ == prev.vertices + Seq::new(
                                    k as nat,
                                    |j: int|
                                        IVec3 {
                                            x: ((2 * index_x(i as int, wi) + face_vertices(
                                                face,
                                            )[j].x) as i32),
                                            y: ((2 * index_y(i as int, wi) + face_vertices(
                                                face,
                                            )[j].y) as i32),
                                            z: ((2 * index_z(i as int, wi) + face_vertices(
                                                face,
                                            )[j].z) as i32),
                                        },
                                ),
                            decreases 4 - k,
                        {
                            let c = face_vtx[k];
                            vertices.push(IVec3 { x: bx + c.x, y: by + c.y, z: bz + c.z });
                            proof {
                                assert(vertices@ =~= prev.vertices + Seq::new(
                                    (k + 1) as nat,
                                    |j: int|
                                        IVec3 {
                                            x: ((2 * index_x(i as int, wi) + face_vertices(
                                                face,
                                            )[j].x) as i32),
                                            y: ((2 * index_y(i as int, wi) + face_vertices(
                                                face,
                                            )[j].y) as i32),
                                            z: ((2 * index_z(i as int, wi) + face_vertices(
                                                face,
                                            )[j].z) as i32),
                                        },
                                ));
                            }
                            k += 1;
                        }
                        let face_nrm = face.normals();
                        normals.push(face_nrm[0]);
                        normals.push(face_nrm[1]);
                        normals.push(face_nrm[2]);
                        normals.push(face_nrm[3]);
                        vertices_pushed = vertices_pushed + 4;
                        proof {
                            let stepped = append_face(
                                prev,
                                index_x(i as int, wi),
                                index_y(i as int, wi),
                                index_z(i as int, wi),
                                face,
                            );
                            assert(indices@ =~= stepped.indices);
                            assert(vertices@ =~= stepped.vertices);
                            assert(normals@ =~= stepped.normals);
                        }
                    }
                    fi += 1;
                    proof {
                        assert(mesh_faces(voxels, wi, i as int, m_i, fi as int) == (MeshView {
                            vertices: vertices@,
                            normals: normals@,
                            indices: indices@,
                        }));
                    }
                }
                i += 1;
                proof {
                    assert(mesh_upto(voxels, wi, i as int) == mesh_faces(
                        voxels,
                        wi,
                        (i - 1) as int,
                        m_i,
                        6,
                    ));
                }
            } else {
                proof {
                    lemma_mesh_faces_air(voxels, wi, i as int, mesh_upto(voxels, wi, i as int), 6);
                    assert(mesh_upto(voxels, wi, (i + 1) as int) == mesh_upto(voxels, wi, i as int));
                }
                i += 1;
            }
        }
        MeshData { vertices, normals, indices }
    }
}

impl Default for VoxelChunk {
    fn default() -> (r: Self)
        ensures
            r.voxels@ == Seq::<Voxel>::empty(),
    {
        VoxelChunk { voxels: Vec::new() }
    }
}

/// The surface geometry built from one chunk: a position buffer, a
/// normal buffer (one normal per vertex) and a triangle index buffer.
/// Positions and normals are in half-voxel units: a vertex at `2*p + c`
/// stands for the point `p + c/2` of world space.
pub struct MeshData {
    pub vertices: Vec<IVec3>,
    pub normals: Vec<IVec3>,
    pub indices: Vec<u32>,
}

/// The mathematical shape of a mesh.
pub ghost struct MeshView {
    pub vertices: Seq<IVec3>,
    pub normals: Seq<IVec3>,
    pub indices: Seq<u32>,
}

impl View for MeshData {
    type V = MeshView;

    open spec fn view(&self) -> MeshView {
        MeshView { vertices: self.vertices@, normals: self.normals@, indices: self.indices@ }
    }
}

/// The mesh with no geometry at all.
pub open spec fn empty_mesh() -> MeshView {
    MeshView { vertices: Seq::empty(), normals: Seq::empty(), indices: Seq::empty() }
}

/// Whether the cell at local position `(x, y, z)` holds a solid voxel.
/// Positions outside the chunk's local bounds count as not solid: the
/// mesher never consults a neighbouring chunk, so boundary faces are
/// always exposed.
pub open spec fn solid_at(voxels: Seq<Voxel>, w: int, x: int, y: int, z: int) -> bool {
    0 <= x < w && 0 <= y < w && 0 <= z < w && voxels[flat_index(x, y, z, w)].id != 0
}

/// Whether the face `f` of the voxel at flat index `i` is emitted: the
/// voxel is solid and the cell the face looks toward is not.
pub open spec fn face_emitted(voxels: Seq<Voxel>, w: int, i: int, f: CubeFace) -> bool {
    voxels[i].id != 0 && !solid_at(
        voxels,
        w,
        index_x(i, w) + face_offset(f).x,
        index_y(i, w) + face_offset(f).y,
        index_z(i, w) + face_offset(f).z,
    )
}

/// `m` extended with one face of the voxel at local position
/// `(x, y, z)`: four vertices at the face's corners, the face normal
/// replicated four times, and six triangle indices referencing the four
/// new vertices through the winding table.
pub open spec fn append_face(m: MeshView, x: int, y: int, z: int, f: CubeFace) -> MeshView {
    MeshView {
        vertices: m.vertices + Seq::new(
            4,
            |k: int|
                IVec3 {
                    x: ((2 * x + face_vertices(f)[k].x) as i32),
                    y: ((2 * y + face_vertices(f)[k].y) as i32),
                    z: ((2 * z + face_vertices(f)[k].z) as i32),
                },
        ),
        normals: m.normals + Seq::new(4, |k: int| face_normal(f)),
        indices: m.indices + Seq::new(
            6,
            |k: int| ((face_base_indices(f)[k] + m.vertices.len()) as u32),
        ),
    }
}

/// `m` extended with the first `f` faces (in face order) that the voxel
/// at flat index `i` emits.
pub open spec fn mesh_faces(voxels: Seq<Voxel>, w: int, i: int, m: MeshView, f: int) -> MeshView
    decreases f,
{
    if f <= 0 {
        m
    } else {
        let prev = mesh_faces(voxels, w, i, m, f - 1);
        if face_emitted(voxels, w, i, face_order()[f - 1]) {
            append_face(prev, index_x(i, w), index_y(i, w), index_z(i, w), face_order()[f - 1])
        } else {
            prev
        }
    }
}

/// The mesh accumulated over the first `n` voxels of the chunk, in
/// ascending flat-index order.
pub open spec fn mesh_upto(voxels: Seq<Voxel>, w: int, n: int) -> MeshView
    decreases n,
{
    if n <= 0 {
        empty_mesh()
    } else {
        mesh_faces(voxels, w, n - 1, mesh_upto(voxels, w, n - 1), 6)
    }
}

/// The whole chunk's mesh: the concatenation, in voxel-iteration order
/// then face-direction order, of every emitted face's geometry.
pub open spec fn chunk_mesh(voxels: Seq<Voxel>, w: int) -> MeshView {
    mesh_upto(voxels, w, w * w * w)
}

/// A structurally sound mesh: one normal per vertex, four vertices and
/// six indices per face, and every face's six indices referencing only
/// that face's own four vertices.
pub open spec fn mesh_wf(m: MeshView) -> bool {
    &&& m.normals.len() == m.vertices.len()
    &&& m.vertices.len() == 4 * (m.vertices.len() / 4)
    &&& m.indices.len() == 6 * (m.vertices.len() / 4)
    &&& forall|j: int|
        0 <= j < m.indices.len() ==> 4 * (j / 6) <= #[trigger] m.indices[j] < 4 * (j / 6) + 4
}

/// Every face-corner offset component is a single half-unit step.
proof fn lemma_face_vertices_bounds(f: CubeFace)
    ensures
        face_vertices(f).len() == 4,
        forall|k: int|
            0 <= k < 4 ==> -1 <= (#[trigger] face_vertices(f)[k]).x <= 1 && -1 <= face_vertices(
                f,
            )[k].y <= 1 && -1 <= face_vertices(f)[k].z <= 1,
{
    assert forall|k: int| 0 <= k < 4 implies -1 <= (#[trigger] face_vertices(f)[k]).x <= 1 && -1
        <= face_vertices(f)[k].y <= 1 && -1 <= face_vertices(f)[k].z <= 1 by {
        assert(face_vertices(f)[k] == crate::cube_mesh::corner_vertex(
            crate::cube_mesh::face_corners(f)[k],
        ));
    }
}

/// The six canonical face offsets are pairwise distinct, so an offset
/// determines its face.
proof fn lemma_face_offset_injective(f1: CubeFace, f2: CubeFace)
    requires
        face_offset(f1) == face_offset(f2),
    ensures
        f1 == f2,
{
}

/// Appending one face keeps a mesh structurally sound, and grows each
/// buffer by exactly one face's worth.
proof fn lemma_append_face_wf(m: MeshView, x: int, y: int, z: int, f: CubeFace)
    requires
        mesh_wf(m),
        m.vertices.len() + 4 <= u32::MAX,
    ensures
        mesh_wf(append_face(m, x, y, z, f)),
        append_face(m, x, y, z, f).vertices.len() == m.vertices.len() + 4,
        append_face(m, x, y, z, f).normals.len() == m.normals.len() + 4,
        append_face(m, x, y, z, f).indices.len() == m.indices.len() + 6,
{
    let r = append_face(m, x, y, z, f);
    let fc: int = (m.vertices.len() as int) / 4;
    assert(m.vertices.len() == 4 * fc && m.indices.len() == 6 * fc);
    assert(r.vertices.len() == 4 * fc + 4);
    assert(r.vertices.len() / 4 == fc + 1) by {
        lemma_fundamental_div_mod_converse_for(4 * fc + 4, 4, fc + 1, 0);
    }
    assert(forall|k: int| 0 <= k < 6 ==> 0 <= #[trigger] face_base_indices(f)[k] < 4);
    assert forall|j: int| 0 <= j < r.indices.len() implies 4 * (j / 6) <= #[trigger] r.indices[j]
        < 4 * (j / 6) + 4 by {
        if j < m.indices.len() {
            assert(m.indices[j] == r.indices[j]);
        } else {
            let k = j - 6 * fc;
            assert(r.indices[j] == ((face_base_indices(f)[k] + m.vertices.len()) as u32));
            assert(0 <= face_base_indices(f)[k] < 4);
            assert(face_base_indices(f)[k] + m.vertices.len() <= u32::MAX);
            assert(j / 6 == fc) by {
                lemma_fundamental_div_mod_converse_for(j, 6, fc, k);
            }
        }
    }
}

/// A named entry into the vstd division lemma, so proofs above can cite
/// a quotient and remainder directly.
proof fn lemma_fundamental_div_mod_converse_for(x: int, d: int, q: int, r: int)
    requires
        d != 0,
        0 <= r < d,
        x == q * d + r,
    ensures
        x / d == q,
        x % d == r,
{
    vstd::arithmetic::div_mod::lemma_fundamental_div_mod_converse(x, d, q, r);
}

/// Processing the faces of one voxel keeps a mesh structurally sound and
/// adds at most six faces' worth of geometry.
proof fn lemma_mesh_faces_wf(voxels: Seq<Voxel>, w: int, i: int, m: MeshView, f: int)
    requires
        mesh_wf(m),
        0 <= f <= 6,
        m.vertices.len() + 4 * f <= u32::MAX,
    ensures
        mesh_wf(mesh_faces(voxels, w, i, m, f)),
        m.vertices.len() <= mesh_faces(voxels, w, i, m, f).vertices.len() <= m.vertices.len() + 4
            * f,
    decreases f,
{
    if f > 0 {
        lemma_mesh_faces_wf(voxels, w, i, m, f - 1);
        let prev = mesh_faces(voxels, w, i, m, f - 1);
        if face_emitted(voxels, w, i, face_order()[f - 1]) {
            lemma_append_face_wf(prev, index_x(i, w), index_y(i, w), index_z(i, w), face_order()[f
                - 1]);
        }
    }
}

/// The mesh accumulated over the first `n` voxels is structurally sound
/// and holds at most six faces per voxel.
pub proof fn lemma_mesh_upto_wf(voxels: Seq<Voxel>, w: int, n: int)
    requires
        0 <= n,
        24 * n + 24 <= u32::MAX,
    ensures
        mesh_wf(mesh_upto(voxels, w, n)),
        mesh_upto(voxels, w, n).vertices.len() <= 24 * n,
    decreases n,
{
    if n > 0 {
        lemma_mesh_upto_wf(voxels, w, n - 1);
        lemma_mesh_faces_wf(voxels, w, n - 1, mesh_upto(voxels, w, n - 1), 6);
    }
}

/// The whole chunk's mesh is structurally sound: in particular every
/// face's six indices reference only that face's own four vertices.
pub proof fn lemma_chunk_mesh_wf(voxels: Seq<Voxel>, w: int)
    requires
        1 <= w <= 255,
    ensures
        mesh_wf(chunk_mesh(voxels, w)),
        chunk_mesh(voxels, w).vertices.len() <= 24 * w * w * w,
{
    assert(w * w * w <= 255 * 255 * 255 && 0 <= w * w * w && 24 * (w * w * w) <= 24 * (255 * 255
        * 255) && 24 * (w * w * w) == 24 * w * w * w) by (nonlinear_arith)
        requires
            1 <= w <= 255,
    ;
    lemma_mesh_upto_wf(voxels, w, w * w * w);
}

/// An empty voxel emits no faces at all.
proof fn lemma_mesh_faces_air(voxels: Seq<Voxel>, w: int, i: int, m: MeshView, f: int)
    requires
        0 <= i < voxels.len(),
        voxels[i].id == 0,
        0 <= f <= 6,
    ensures
        mesh_faces(voxels, w, i, m, f) == m,
    decreases f,
{
    if f > 0 {
        lemma_mesh_faces_air(voxels, w, i, m, f - 1);
    }
}

/// The mesh stays empty while only air has been walked.
proof fn lemma_empty_mesh_upto(voxels: Seq<Voxel>, w: int, n: int)
    requires
        0 <= n <= voxels.len(),
        forall|j: int| 0 <= j < voxels.len() ==> #[trigger] voxels[j].id == 0,
    ensures
        mesh_upto(voxels, w, n) == empty_mesh(),
    decreases n,
{
    if n > 0 {
        lemma_empty_mesh_upto(voxels, w, n - 1);
        lemma_mesh_faces_air(voxels, w, n - 1, mesh_upto(voxels, w, n - 1), 6);
    }
}

/// A chunk of nothing but air produces no geometry: zero vertices, zero
/// normals, zero indices.
pub proof fn lemma_empty_chunk_mesh(voxels: Seq<Voxel>, w: int)
    requires
        1 <= w,
        voxels.len() == w * w * w,
        forall|j: int| 0 <= j < voxels.len() ==> #[trigger] voxels[j].id == 0,
    ensures
        chunk_mesh(voxels, w) == empty_mesh(),
{
    lemma_empty_mesh_upto(voxels, w, w * w * w);
}

/// A lone solid voxel emits all six of its faces, whatever its position:
/// every neighbouring cell is either outside the chunk or empty.
proof fn lemma_lone_voxel_emits_all(voxels: Seq<Voxel>, w: int, i0: int, f: CubeFace)
    requires
        1 <= w,
        voxels.len() == w * w * w,
        0 <= i0 < voxels.len(),
        voxels[i0].id != 0,
        forall|j: int| 0 <= j < voxels.len() && j != i0 ==> #[trigger] voxels[j].id == 0,
    ensures
        face_emitted(voxels, w, i0, f),
{
    let x = index_x(i0, w);
    let y = index_y(i0, w);
    let z = index_z(i0, w);
    crate::coords::lemma_flat_index_recompose(i0, w);
    let nx = x + face_offset(f).x;
    let ny = y + face_offset(f).y;
    let nz = z + face_offset(f).z;
    if 0 <= nx < w && 0 <= ny < w && 0 <= nz < w {
        let j = flat_index(nx, ny, nz, w);
        crate::coords::lemma_flat_index_round_trip(nx, ny, nz, w);
        assert(j != i0);
        assert(voxels[j].id == 0);
    }
}

/// A chunk holding exactly one solid voxel meshes to exactly six faces:
/// 24 vertices, 24 normals and 36 indices.
pub proof fn lemma_single_voxel_mesh(voxels: Seq<Voxel>, w: int, i0: int)
    requires
        1 <= w <= 255,
        voxels.len() == w * w * w,
        0 <= i0 < voxels.len(),
        voxels[i0].id != 0,
        forall|j: int| 0 <= j < voxels.len() && j != i0 ==> #[trigger] voxels[j].id == 0,
    ensures
        chunk_mesh(voxels, w).vertices.len() == 24,
        chunk_mesh(voxels, w).normals.len() == 24,
        chunk_mesh(voxels, w).indices.len() == 36,
{
    assert(w * w * w <= 255 * 255 * 255) by (nonlinear_arith)
        requires
            1 <= w <= 255,
    ;
    lemma_single_voxel_mesh_upto(voxels, w, i0, w * w * w);
}

/// The running form of the lone-voxel law: over the first `n` voxels the
/// mesh is empty until the solid voxel is passed, then holds exactly six
/// faces.
proof fn lemma_single_voxel_mesh_upto(voxels: Seq<Voxel>, w: int, i0: int, n: int)
    requires
        1 <= w,
        voxels.len() == w * w * w,
        w * w * w + 24 <= u32::MAX,
        0 <= i0 < voxels.len(),
        voxels[i0].id != 0,
        forall|j: int| 0 <= j < voxels.len() && j != i0 ==> #[trigger] voxels[j].id == 0,
        0 <= n <= voxels.len(),
    ensures
        n <= i0 ==> mesh_upto(voxels, w, n) == empty_mesh(),
        n > i0 ==> mesh_upto(voxels, w, n).vertices.len() == 24 && mesh_upto(
            voxels,
            w,
            n,
        ).normals.len() == 24 && mesh_upto(voxels, w, n).indices.len() == 36,
    decreases n,
{
    if n > 0 {
        lemma_single_voxel_mesh_upto(voxels, w, i0, n - 1);
        let m = mesh_upto(voxels, w, n - 1);
        if n - 1 == i0 {
            assert(m == empty_mesh());
            assert(mesh_wf(m));
            lemma_single_voxel_six_faces(voxels, w, i0, 6);
        } else {
            lemma_mesh_faces_air(voxels, w, n - 1, m, 6);
        }
    }
}

/// Processing the faces of the lone solid voxel from the empty mesh
/// appends one face per direction.
proof fn lemma_single_voxel_six_faces(voxels: Seq<Voxel>, w: int, i0: int, f: int)
    requires
        1 <= w,
        voxels.len() == w * w * w,
        0 <= i0 < voxels.len(),
        voxels[i0].id != 0,
        forall|j: int| 0 <= j < voxels.len() && j != i0 ==> #[trigger] voxels[j].id == 0,
        0 <= f <= 6,
    ensures
        mesh_faces(voxels, w, i0, empty_mesh(), f).vertices.len() == 4 * f,
        mesh_faces(voxels, w, i0, empty_mesh(), f).normals.len() == 4 * f,
        mesh_faces(voxels, w, i0, empty_mesh(), f).indices.len() == 6 * f,
    decreases f,
{
    if f > 0 {
        lemma_single_voxel_six_faces(voxels, w, i0, f - 1);
        lemma_lone_voxel_emits_all(voxels, w, i0, face_order()[f - 1]);
    }
}

} // verus!
