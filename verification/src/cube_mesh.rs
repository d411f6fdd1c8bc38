use crate::coords::IVec3;
use vstd::prelude::*;

verus! {

/// One of the six axis-aligned faces of a unit cube.
#[derive(Clone, Copy, Debug, PartialEq, Eq, Structural)]
pub enum CubeFace {
    Top,
    Bottom,
    Left,
    Right,
    Front,
    Back,
}

/// One of the eight corners of a unit cube.
#[derive(Clone, Copy, Debug, PartialEq, Eq, Structural)]
pub enum CubeCorner {
    BottomLeftFront,
    BottomLeftBack,
    BottomRightFront,
    BottomRightBack,
    TopLeftFront,
    TopLeftBack,
    TopRightFront,
    TopRightBack,
}

/// The fixed order in which faces are considered for every voxel.
pub open spec fn face_order() -> Seq<CubeFace> {
    seq![
        CubeFace::Top,
        CubeFace::Bottom,
        CubeFace::Left,
        CubeFace::Right,
        CubeFace::Front,
        CubeFace::Back,
    ]
}

/// The grid offset of the neighbouring cell a face looks toward.
pub open spec fn face_offset(f: CubeFace) -> IVec3 {
    match f {
        CubeFace::Top => IVec3 { x: 0i32, y: 1i32, z: 0i32 },
        CubeFace::Bottom => IVec3 { x: 0i32, y: -1i32, z: 0i32 },
        CubeFace::Left => IVec3 { x: -1i32, y: 0i32, z: 0i32 },
        CubeFace::Right => IVec3 { x: 1i32, y: 0i32, z: 0i32 },
        CubeFace::Front => IVec3 { x: 0i32, y: 0i32, z: -1i32 },
        CubeFace::Back => IVec3 { x: 0i32, y: 0i32, z: 1i32 },
    }
}

/// Whether `v` is one of the six canonical face offsets.
pub open spec fn is_face_offset(v: IVec3) -> bool {
    exists|f: CubeFace| face_offset(f) == v
}

/// The unit normal vector recorded for each vertex of a face.
pub open spec fn face_normal(f: CubeFace) -> IVec3 {
    match f {
        CubeFace::Top => IVec3 { x: 0i32, y: 1i32, z: 0i32 },
        CubeFace::Bottom => IVec3 { x: 0i32, y: -1i32, z: 0i32 },
        CubeFace::Left => IVec3 { x: -1i32, y: 0i32, z: 0i32 },
        CubeFace::Right => IVec3 { x: 1i32, y: 0i32, z: 0i32 },
        CubeFace::Front => IVec3 { x: 0i32, y: 0i32, z: 1i32 },
        CubeFace::Back => IVec3 { x: 0i32, y: 0i32, z: -1i32 },
    }
}

/// The per-face winding table: six triangle indices into the face's own
/// four vertices, chosen so every face winds outward. The table is
/// direction-specific and must not be altered.
pub open spec fn face_base_indices(f: CubeFace) -> Seq<u32> {
    match f {
        CubeFace::Top => seq![2u32, 0, 1, 1, 3, 2],
        CubeFace::Bottom => seq![3u32, 1, 0, 0, 2, 3],
        CubeFace::Left => seq![0u32, 1, 3, 3, 2, 0],
        CubeFace::Right => seq![1u32, 0, 2, 2, 3, 1],
        CubeFace::Front => seq![1u32, 0, 2, 2, 3, 1],
        CubeFace::Back => seq![0u32, 1, 3, 3, 2, 0],
    }
}

/// The corner's offset from the centre of its voxel, in half-voxel units:
/// each component is `-1` or `1`, standing for a half-unit step.
pub open spec fn corner_vertex(c: CubeCorner) -> IVec3 {
    match c {
        CubeCorner::BottomLeftFront => IVec3 { x: -1i32, y: -1i32, z: -1i32 },
        CubeCorner::BottomLeftBack => IVec3 { x: -1i32, y: -1i32, z: 1i32 },
        CubeCorner::BottomRightFront => IVec3 { x: 1i32, y: -1i32, z: -1i32 },
        CubeCorner::BottomRightBack => IVec3 { x: 1i32, y: -1i32, z: 1i32 },
        CubeCorner::TopLeftFront => IVec3 { x: -1i32, y: 1i32, z: -1i32 },
        CubeCorner::TopLeftBack => IVec3 { x: -1i32, y: 1i32, z: 1i32 },
        CubeCorner::TopRightFront => IVec3 { x: 1i32, y: 1i32, z: -1i32 },
        CubeCorner::TopRightBack => IVec3 { x: 1i32, y: 1i32, z: 1i32 },
    }
}

/// The four corners of a face, in the order their vertices are emitted.
pub open spec fn face_corners(f: CubeFace) -> Seq<CubeCorner> {
    match f {
        CubeFace::Top => seq![
            CubeCorner::TopLeftFront,
            CubeCorner::TopLeftBack,
            CubeCorner::TopRightFront,
            CubeCorner::TopRightBack,
        ],
        CubeFace::Bottom => seq![
            CubeCorner::BottomLeftFront,
            CubeCorner::BottomLeftBack,
            CubeCorner::BottomRightFront,
            CubeCorner::BottomRightBack,
        ],
        CubeFace::Left => seq![
            CubeCorner::BottomLeftFront,
            CubeCorner::BottomLeftBack,
            CubeCorner::TopLeftFront,
            CubeCorner::TopLeftBack,
        ],
        CubeFace::Right => seq![
            CubeCorner::BottomRightFront,
            CubeCorner::BottomRightBack,
            CubeCorner::TopRightFront,
            CubeCorner::TopRightBack,
        ],
        CubeFace::Front => seq![
            CubeCorner::BottomLeftFront,
            CubeCorner::BottomRightFront,
            CubeCorner::TopLeftFront,
            CubeCorner::TopRightFront,
        ],
        CubeFace::Back => seq![
            CubeCorner::BottomLeftBack,
            CubeCorner::BottomRightBack,
            CubeCorner::TopLeftBack,
            CubeCorner::TopRightBack,
        ],
    }
}

/// The four vertex offsets of a face, in emission order, in half-voxel
/// units.
pub open spec fn face_vertices(f: CubeFace) -> Seq<IVec3> {
    face_corners(f).map_values(|c: CubeCorner| corner_vertex(c))
}

/// The six face offsets in face order, as the mesher walks them.
pub fn direct_cube_neighbours() -> (r: Vec<IVec3>)
    ensures
        r@.len() == 6,
        forall|j: int| 0 <= j < 6 ==> r@[j] == face_offset(face_order()[j]),
{
    let mut r: Vec<IVec3> = Vec::new();
    r.push(IVec3 { x: 0, y: 1, z: 0 });
    r.push(IVec3 { x: 0, y: -1, z: 0 });
    r.push(IVec3 { x: -1, y: 0, z: 0 });
    r.push(IVec3 { x: 1, y: 0, z: 0 });
    r.push(IVec3 { x: 0, y: 0, z: -1 });
    r.push(IVec3 { x: 0, y: 0, z: 1 });
    r
}

impl CubeFace {
    /// The face looking toward the given canonical direction offset.
    /// The six offsets form a closed set; a caller handing in anything
    /// else has broken the mesher's internal invariant, so the input is
    /// excluded outright rather than mapped to an error.
    pub fn from_ivec3(vec3: IVec3) -> (f: Self)
        requires
            is_face_offset(vec3),
        ensures
            face_offset(f) == vec3,
    {
        if vec3.x == 0 && vec3.y == 1 && vec3.z == 0 {
            CubeFace::Top
        } else if vec3.x == 0 && vec3.y == -1 && vec3.z == 0 {
            CubeFace::Bottom
        } else if vec3.x == -1 && vec3.y == 0 && vec3.z == 0 {
            CubeFace::Left
        } else if vec3.x == 1 && vec3.y == 0 && vec3.z == 0 {
            CubeFace::Right
        } else if vec3.x == 0 && vec3.y == 0 && vec3.z == -1 {
            CubeFace::Front
        } else {
            proof {
                let f = choose|f: CubeFace| face_offset(f) == vec3;
                assert(f is Back);
            }
            CubeFace::Back
        }
    }

    /// The face's uniform normal, replicated once per emitted vertex.
    pub fn normals(&self) -> (r: Vec<IVec3>)
        ensures
            r@.len() == 4,
            forall|j: int| 0 <= j < 4 ==> r@[j] == face_normal(*self),
    {
        let n = match self {
            CubeFace::Top => IVec3 { x: 0, y: 1, z: 0 },
            CubeFace::Bottom => IVec3 { x: 0, y: -1, z: 0 },
            CubeFace::Left => IVec3 { x: -1, y: 0, z: 0 },
            CubeFace::Right => IVec3 { x: 1, y: 0, z: 0 },
            CubeFace::Front => IVec3 { x: 0, y: 0, z: 1 },
            CubeFace::Back => IVec3 { x: 0, y: 0, z: -1 },
        };
        let mut r: Vec<IVec3> = Vec::new();
        r.push(n);
        r.push(n);
        r.push(n);
        r.push(n);
        r
    }

    /// The face's six triangle indices, shifted past the `vertices_pushed`
    /// vertices already emitted so they reference the face's own four
    /// vertices.
    pub fn indices(&self, vertices_pushed: u32) -> (r: Vec<u32>)
        requires
            vertices_pushed <= u32::MAX - 3,
        ensures
            r@.len() == 6,
            forall|j: int| 0 <= j < 6 ==> r@[j] == face_base_indices(*self)[j] + vertices_pushed,
    {
        let base_indices: Vec<u32> = match self {
            CubeFace::Top => vec![2, 0, 1, 1, 3, 2],
            CubeFace::Bottom => vec![3, 1, 0, 0, 2, 3],
            CubeFace::Left => vec![0, 1, 3, 3, 2, 0],
            CubeFace::Right => vec![1, 0, 2, 2, 3, 1],
            CubeFace::Front => vec![1, 0, 2, 2, 3, 1],
            CubeFace::Back => vec![0, 1, 3, 3, 2, 0],
        };
        let mut r: Vec<u32> = Vec::new();
        let mut j: usize = 0;
        while j < base_indices.len()
            invariant
                vertices_pushed <= u32::MAX - 3,
                base_indices@ == face_base_indices(*self),
                r@.len() == j,
                j <= 6,
                forall|k: int|
                    0 <= k < j ==> r@[k] == face_base_indices(*self)[k] + vertices_pushed,
            decreases base_indices@.len() - j,
        {
            let b = base_indices[j];
            assert(b == face_base_indices(*self)[j as int]);
            r.push(b + vertices_pushed);
            j += 1;
        }
        r
    }

    /// The face's four vertex offsets in emission order, in half-voxel
    /// units.
    pub fn vertices(&self) -> (r: Vec<IVec3>)
        ensures
            r@.len() == 4,
            forall|j: int| 0 <= j < 4 ==> r@[j] == face_vertices(*self)[j],
    {
        let corners = match self {
            CubeFace::Top => (
                CubeCorner::TopLeftFront,
                CubeCorner::TopLeftBack,
                CubeCorner::TopRightFront,
                CubeCorner::TopRightBack,
            ),
            CubeFace::Bottom => (
                CubeCorner::BottomLeftFront,
                CubeCorner::BottomLeftBack,
                CubeCorner::BottomRightFront,
                CubeCorner::BottomRightBack,
            ),
            CubeFace::Left => (
                CubeCorner::BottomLeftFront,
                CubeCorner::BottomLeftBack,
                CubeCorner::TopLeftFront,
                CubeCorner::TopLeftBack,
            ),
            CubeFace::Right => (
                CubeCorner::BottomRightFront,
                CubeCorner::BottomRightBack,
                CubeCorner::TopRightFront,
                CubeCorner::TopRightBack,
            ),
            CubeFace::Front => (
                CubeCorner::BottomLeftFront,
                CubeCorner::BottomRightFront,
                CubeCorner::TopLeftFront,
                CubeCorner::TopRightFront,
            ),
            CubeFace::Back => (
                CubeCorner::BottomLeftBack,
                CubeCorner::BottomRightBack,
                CubeCorner::TopLeftBack,
                CubeCorner::TopRightBack,
            ),
        };
        let mut r: Vec<IVec3> = Vec::new();
        r.push(corners.0.vertex());
        r.push(corners.1.vertex());
        r.push(corners.2.vertex());
        r.push(corners.3.vertex());
        r
    }
}

impl CubeCorner {
    /// The corner's offset from its voxel's centre, in half-voxel units.
    pub fn vertex(&self) -> (r: IVec3)
        ensures
            r == corner_vertex(*self),
    {
        match self {
            CubeCorner::BottomLeftFront => IVec3 { x: -1, y: -1, z: -1 },
            CubeCorner::BottomLeftBack => IVec3 { x: -1, y: -1, z: 1 },
            CubeCorner::BottomRightFront => IVec3 { x: 1, y: -1, z: -1 },
            CubeCorner::BottomRightBack => IVec3 { x: 1, y: -1, z: 1 },
            CubeCorner::TopLeftFront => IVec3 { x: -1, y: 1, z: -1 },
            CubeCorner::TopLeftBack => IVec3 { x: -1, y: 1, z: 1 },
            CubeCorner::TopRightFront => IVec3 { x: 1, y: 1, z: -1 },
            CubeCorner::TopRightBack => IVec3 { x: 1, y: 1, z: 1 },
        }
    }
}

} // verus!
