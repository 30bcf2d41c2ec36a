//! Surface extraction: the visible faces of a chunk as vertex and index buffers.

use vstd::prelude::*;

use crate::accessor::{voxel_in, WorldAccessor};
use crate::chunk::{air, Chunk};
use crate::accessor::key_of;
use crate::coord::{
    chunk_of, fits_i32, lemma_coordinate_round_trip, lemma_floor_div_unique, local_of, BlockOffsetCoord, ChunkCoord, ChunkLocalCoord, WorldCoord, CHUNK_SIZE,
};
use crate::world::neighbors;
use crate::mesh::{shifted, MeshInfo, MeshVertex};
use crate::voxel::{spec_texture_ids, spec_transparent, Blocks, RegisteredBlock, Voxel};

verus! {

/// Textures per row and per column of the texture atlas.
pub const TEXTURE_COUNT: usize = 32;

/// The six faces of a voxel.
#[derive(Clone, Copy, Debug, PartialEq, Eq, Structural)]
pub enum FaceOrientation {
    Left,
    Right,
    Top,
    Bottom,
    Front,
    Back,
}

impl FaceOrientation {
    /// Position of this face in a block's texture list.
    pub open spec fn spec_texture_id(self) -> int {
        match self {
            FaceOrientation::Left => 0,
            FaceOrientation::Right => 1,
            FaceOrientation::Top => 2,
            FaceOrientation::Bottom => 3,
            FaceOrientation::Back => 4,
            FaceOrientation::Front => 5,
        }
    }

    /// Unit vector from a voxel toward the neighbour behind this face.
    pub open spec fn direction(self) -> (int, int, int) {
        match self {
            FaceOrientation::Left => (-1, 0, 0),
            FaceOrientation::Right => (1, 0, 0),
            FaceOrientation::Top => (0, 1, 0),
            FaceOrientation::Bottom => (0, -1, 0),
            FaceOrientation::Back => (0, 0, 1),
            FaceOrientation::Front => (0, 0, -1),
        }
    }

    /// Position of this face in a block's texture list.
    pub fn to_texture_id(self) -> (r: usize)
        ensures
            r == self.spec_texture_id(),
    {
        match self {
            Self::Left => 0,
            Self::Right => 1,
            Self::Top => 2,
            Self::Bottom => 3,
            Self::Back => 4,
            Self::Front => 5,
        }
    }
}

/// The faces in the order they are examined for each voxel.
pub open spec fn side(k: int) -> FaceOrientation {
    if k == 0 {
        FaceOrientation::Left
    } else if k == 1 {
        FaceOrientation::Right
    } else if k == 2 {
        FaceOrientation::Top
    } else if k == 3 {
        FaceOrientation::Bottom
    } else if k == 4 {
        FaceOrientation::Back
    } else {
        FaceOrientation::Front
    }
}

/// Corner `k` of a face of the unit cube: its position `(dx, dy, dz)` and its
/// texture corner `(du, dv)`, wound so that the face is seen from outside.
pub open spec fn spec_corner(o: FaceOrientation, k: int) -> (u32, u32, u32, u32, u32) {
    match o {
        FaceOrientation::Left => if k == 0 {
            (0, 0, 1, 0, 1)
        } else if k == 1 {
            (0, 0, 0, 1, 1)
        } else if k == 2 {
            (0, 1, 0, 1, 0)
        } else {
            (0, 1, 1, 0, 0)
        },
        FaceOrientation::Right => if k == 0 {
            (1, 0, 0, 0, 1)
        } else if k == 1 {
            (1, 0, 1, 1, 1)
        } else if k == 2 {
            (1, 1, 1, 1, 0)
        } else {
            (1, 1, 0, 0, 0)
        },
        FaceOrientation::Top => if k == 0 {
            (0, 1, 0, 0, 1)
        } else if k == 1 {
            (1, 1, 0, 1, 1)
        } else if k == 2 {
            (1, 1, 1, 1, 0)
        } else {
            (0, 1, 1, 0, 0)
        },
        FaceOrientation::Bottom => if k == 0 {
            (0, 0, 0, 0, 1)
        } else if k == 1 {
            (1, 0, 0, 1, 1)
        } else if k == 2 {
            (1, 0, 1, 1, 0)
        } else {
            (0, 0, 1, 0, 0)
        },
        FaceOrientation::Back => if k == 0 {
            (0, 0, 1, 1, 1)
        } else if k == 1 {
            (1, 0, 1, 0, 1)
        } else if k == 2 {
            (1, 1, 1, 0, 0)
        } else {
            (0, 1, 1, 1, 0)
        },
        FaceOrientation::Front => if k == 0 {
            (0, 0, 0, 0, 1)
        } else if k == 1 {
            (1, 0, 0, 1, 1)
        } else if k == 2 {
            (1, 1, 0, 1, 0)
        } else {
            (0, 1, 0, 0, 0)
        },
    }
}

/// The two triangles of a face, as indices into its four corners.
pub open spec fn spec_face_indices(o: FaceOrientation) -> Seq<u32> {
    match o {
        FaceOrientation::Back | FaceOrientation::Bottom => seq![0, 1, 2, 0, 2, 3],
        _ => seq![0, 2, 1, 0, 3, 2],
    }
}

/// Corner `k` of face `o` of the cell at `offset`, textured with `texture_id`;
/// the position is in cell units.
pub open spec fn spec_face_vertex(texture_id: usize, offset: (usize, usize, usize), o: FaceOrientation, k: int) -> MeshVertex {
    let c = spec_corner(o, k);
    let n = o.direction();
    MeshVertex {
        x: (offset.0 + c.0) as u32,
        y: (offset.1 + c.1) as u32,
        z: (offset.2 + c.2) as u32,
        normal_x: n.0 as i8,
        normal_y: n.1 as i8,
        normal_z: n.2 as i8,
        u: (texture_id as int % TEXTURE_COUNT as int + c.3) as u32,
        v: (texture_id as int / TEXTURE_COUNT as int + c.4) as u32,
    }
}

/// Atlas cell of a texture id: its column and its row.
fn texture_offset(texture_id: usize) -> (r: (usize, usize))
    ensures
        r.0 == texture_id % TEXTURE_COUNT,
        r.1 == texture_id / TEXTURE_COUNT,
{
    (texture_id % TEXTURE_COUNT, texture_id / TEXTURE_COUNT)
}

fn corner(o: FaceOrientation, k: usize) -> (r: (u32, u32, u32, u32, u32))
    requires
        k < 4,
    ensures
        r == spec_corner(o, k as int),
{
    match o {
        FaceOrientation::Left => if k == 0 {
            (0, 0, 1, 0, 1)
        } else if k == 1 {
            (0, 0, 0, 1, 1)
        } else if k == 2 {
            (0, 1, 0, 1, 0)
        } else {
            (0, 1, 1, 0, 0)
        },
        FaceOrientation::Right => if k == 0 {
            (1, 0, 0, 0, 1)
        } else if k == 1 {
            (1, 0, 1, 1, 1)
        } else if k == 2 {
            (1, 1, 1, 1, 0)
        } else {
            (1, 1, 0, 0, 0)
        },
        FaceOrientation::Top => if k == 0 {
            (0, 1, 0, 0, 1)
        } else if k == 1 {
            (1, 1, 0, 1, 1)
        } else if k == 2 {
            (1, 1, 1, 1, 0)
        } else {
            (0, 1, 1, 0, 0)
        },
        FaceOrientation::Bottom => if k == 0 {
            (0, 0, 0, 0, 1)
        } else if k == 1 {
            (1, 0, 0, 1, 1)
        } else if k == 2 {
            (1, 0, 1, 1, 0)
        } else {
            (0, 0, 1, 0, 0)
        },
        FaceOrientation::Back => if k == 0 {
            (0, 0, 1, 1, 1)
        } else if k == 1 {
            (1, 0, 1, 0, 1)
        } else if k == 2 {
            (1, 1, 1, 0, 0)
        } else {
            (0, 1, 1, 1, 0)
        },
        FaceOrientation::Front => if k == 0 {
            (0, 0, 0, 0, 1)
        } else if k == 1 {
            (1, 0, 0, 1, 1)
        } else if k == 2 {
            (1, 1, 0, 1, 0)
        } else {
            (0, 1, 0, 0, 0)
        },
    }
}

fn normal(o: FaceOrientation) -> (r: (i8, i8, i8))
    ensures
        r.0 as int == o.direction().0,
        r.1 as int == o.direction().1,
        r.2 as int == o.direction().2,
{
    match o {
        FaceOrientation::Left => (-1, 0, 0),
        FaceOrientation::Right => (1, 0, 0),
        FaceOrientation::Top => (0, 1, 0),
        FaceOrientation::Bottom => (0, -1, 0),
        FaceOrientation::Back => (0, 0, 1),
        FaceOrientation::Front => (0, 0, -1),
    }
}

/// The four corners and two triangles of face `orientation` of the cell at
/// `offset` (in cell units), textured with `texture_id`.
fn face(texture_id: usize, offset: (usize, usize, usize), orientation: FaceOrientation) -> (r: (
    [MeshVertex; 4],
    [u32; 6],
))
    requires
        texture_id < TEXTURE_COUNT * TEXTURE_COUNT,
        offset.0 < u32::MAX,
        offset.1 < u32::MAX,
        offset.2 < u32::MAX,
    ensures
        forall|k: int| 0 <= k < 4 ==> r.0@[k] == spec_face_vertex(texture_id, offset, orientation, k),
        r.1@ == spec_face_indices(orientation),
{
    let (tu, tv) = texture_offset(texture_id);
    let (nx, ny, nz) = normal(orientation);
    let mut vertices = [MeshVertex { x: 0, y: 0, z: 0, normal_x: 0, normal_y: 0, normal_z: 0, u: 0, v: 0 }; 4];
    let mut k: usize = 0;
    while k < 4
        invariant
            k <= 4,
            tu == texture_id % TEXTURE_COUNT,
            tv == texture_id / TEXTURE_COUNT,
            texture_id < TEXTURE_COUNT * TEXTURE_COUNT,
            offset.0 < u32::MAX,
            offset.1 < u32::MAX,
            offset.2 < u32::MAX,
            nx as int == orientation.direction().0,
            ny as int == orientation.direction().1,
            nz as int == orientation.direction().2,
            forall|j: int| 0 <= j < k ==> vertices@[j] == spec_face_vertex(texture_id, offset, orientation, j),
        decreases 4 - k,
    {
        let (dx, dy, dz, du, dv) = corner(orientation, k);
        vertices[k] = MeshVertex {
            x: offset.0 as u32 + dx,
            y: offset.1 as u32 + dy,
            z: offset.2 as u32 + dz,
            normal_x: nx,
            normal_y: ny,
            normal_z: nz,
            u: tu as u32 + du,
            v: tv as u32 + dv,
        };
        k = k + 1;
    }
    let indices = match orientation {
        FaceOrientation::Back | FaceOrientation::Bottom => [0, 1, 2, 0, 2, 3],
        _ => [0, 2, 1, 0, 3, 2],
    };
    assert(indices@ =~= spec_face_indices(orientation));
    (vertices, indices)
}

/// A face that the extractor emits: the voxel position of its cell inside the
/// chunk, which face, and its texture id.
#[derive(Clone, Copy, Debug, PartialEq, Eq, Structural)]
pub struct Quad {
    pub x: usize,
    pub y: usize,
    pub z: usize,
    pub side: FaceOrientation,
    pub texture_id: usize,
}

/// Levels of detail: the extractor visits every `step`-th voxel on each axis.
#[derive(Clone, Copy, Debug, PartialEq, Eq, Structural)]
pub enum LodLevel {
    _0,
    _1,
    _2,
    _3,
}

impl LodLevel {
    pub open spec fn spec_step(self) -> nat {
        match self {
            LodLevel::_0 => 1,
            LodLevel::_1 => 2,
            LodLevel::_2 => 4,
            LodLevel::_3 => 8,
        }
    }

    /// The voxel stride of this level.
    pub fn to_step_size(self) -> (r: usize)
        ensures
            r == self.spec_step(),
            CHUNK_SIZE % r == 0,
    {
        match self {
            Self::_0 => 1,
            Self::_1 => 2,
            Self::_2 => 4,
            Self::_3 => 8,
        }
    }
}

/// A stride that some level of detail uses.
pub open spec fn is_step(step: nat) -> bool {
    step == 1 || step == 2 || step == 4 || step == 8
}

/// The offset lies inside the chunk.
pub open spec fn inside(x: int, y: int, z: int) -> bool {
    0 <= x < CHUNK_SIZE && 0 <= y < CHUNK_SIZE && 0 <= z < CHUNK_SIZE
}

/// What the extractor reads at offset `(x, y, z)` from the chunk's origin, if
/// anything: the chunk's own voxel inside it, else the voxel of the loaded
/// chunks `m`.
pub open spec fn sample(chunk: Chunk, m: Map<u64, Chunk>, x: int, y: int, z: int) -> Option<Voxel> {
    if inside(x, y, z) {
        Some(chunk.voxel_at(ChunkLocalCoord { x: x as usize, y: y as usize, z: z as usize }))
    } else {
        voxel_in(
            m,
            WorldCoord {
                x: (chunk.coord.x * CHUNK_SIZE + x) as i32,
                y: (chunk.coord.y * CHUNK_SIZE + y) as i32,
                z: (chunk.coord.z * CHUNK_SIZE + z) as i32,
            },
        )
    }
}

/// The voxel the extractor sees at an offset: what it reads there, or air.
pub open spec fn sampled(chunk: Chunk, m: Map<u64, Chunk>, x: int, y: int, z: int) -> Voxel {
    match sample(chunk, m, x, y, z) {
        Some(v) => v,
        None => air(),
    }
}

/// Offset of the neighbour behind face `o` of the cell at `(x, y, z)`.
pub open spec fn neighbor(step: nat, x: int, y: int, z: int, o: FaceOrientation) -> (int, int, int) {
    let d = o.direction();
    (x + step * d.0, y + step * d.1, z + step * d.2)
}

/// The voxel the extractor sees behind face `side(k)` of the cell at `(x, y, z)`.
pub open spec fn neighbor_voxel(chunk: Chunk, m: Map<u64, Chunk>, step: nat, x: int, y: int, z: int, k: int) -> Voxel {
    let n = neighbor(step, x, y, z, side(k));
    sampled(chunk, m, n.0, n.1, n.2)
}

/// The face `side(k)` of the cell at `(x, y, z)` if its neighbour is transparent.
pub open spec fn side_face(chunk: Chunk, m: Map<u64, Chunk>, step: nat, x: int, y: int, z: int, k: int) -> Seq<Quad> {
    let o = side(k);
    if spec_transparent(neighbor_voxel(chunk, m, step, x, y, z, k).id) {
        seq![Quad {
            x: x as usize,
            y: y as usize,
            z: z as usize,
            side: o,
            texture_id: spec_texture_ids(sampled(chunk, m, x, y, z).id)[o.spec_texture_id()],
        }]
    } else {
        seq![]
    }
}

/// The faces among the first `k` sides of the cell at `(x, y, z)`.
pub open spec fn side_faces(chunk: Chunk, m: Map<u64, Chunk>, step: nat, x: int, y: int, z: int, k: nat) -> Seq<Quad>
    decreases k,
{
    if k == 0 {
        seq![]
    } else {
        side_faces(chunk, m, step, x, y, z, (k - 1) as nat) + side_face(chunk, m, step, x, y, z, k - 1)
    }
}

/// The faces of the cell at `(x, y, z)`: none for a transparent voxel.
pub open spec fn cell_faces(chunk: Chunk, m: Map<u64, Chunk>, step: nat, x: int, y: int, z: int) -> Seq<Quad> {
    if spec_transparent(sampled(chunk, m, x, y, z).id) {
        seq![]
    } else {
        side_faces(chunk, m, step, x, y, z, 6)
    }
}

/// The faces of the cells at `(x, y, z')` for `z' < z`.
pub open spec fn row_faces(chunk: Chunk, m: Map<u64, Chunk>, step: nat, x: int, y: int, z: nat) -> Seq<Quad>
    decreases z,
{
    if step == 0 || z < step {
        seq![]
    } else {
        row_faces(chunk, m, step, x, y, (z - step) as nat) + cell_faces(chunk, m, step, x, y, z - step)
    }
}

/// The faces of the cells at `(x, y', z)` for `y' < y`.
pub open spec fn plane_faces(chunk: Chunk, m: Map<u64, Chunk>, step: nat, x: int, y: nat) -> Seq<Quad>
    decreases y,
{
    if step == 0 || y < step {
        seq![]
    } else {
        plane_faces(chunk, m, step, x, (y - step) as nat) + row_faces(chunk, m, step, x, y - step, CHUNK_SIZE as nat)
    }
}

/// The faces of the cells at `(x', y, z)` for `x' < x`.
pub open spec fn grid_faces(chunk: Chunk, m: Map<u64, Chunk>, step: nat, x: nat) -> Seq<Quad>
    decreases x,
{
    if step == 0 || x < step {
        seq![]
    } else {
        grid_faces(chunk, m, step, (x - step) as nat) + plane_faces(chunk, m, step, x - step, CHUNK_SIZE as nat)
    }
}

/// Every face of the chunk that the extractor emits, in emission order.
pub open spec fn chunk_faces(chunk: Chunk, m: Map<u64, Chunk>, step: nat) -> Seq<Quad> {
    grid_faces(chunk, m, step, CHUNK_SIZE as nat)
}

/// Corner `k` of a quad, scaled from cell units to voxel units.
pub open spec fn quad_vertex(q: Quad, step: nat, k: int) -> MeshVertex {
    let v = spec_face_vertex(
        q.texture_id,
        ((q.x as nat / step) as usize, (q.y as nat / step) as usize, (q.z as nat / step) as usize),
        q.side,
        k,
    );
    MeshVertex { x: (v.x * step) as u32, y: (v.y * step) as u32, z: (v.z * step) as u32, ..v }
}

pub open spec fn quad_vertices(q: Quad, step: nat) -> Seq<MeshVertex> {
    seq![quad_vertex(q, step, 0), quad_vertex(q, step, 1), quad_vertex(q, step, 2), quad_vertex(q, step, 3)]
}

/// The vertex buffer of a sequence of quads: four vertices each.
#[verifier::opaque]
pub open spec fn mesh_vertices(qs: Seq<Quad>, step: nat) -> Seq<MeshVertex>
    decreases qs.len(),
{
    if qs.len() == 0 {
        seq![]
    } else {
        mesh_vertices(qs.drop_last(), step) + quad_vertices(qs.last(), step)
    }
}

/// The index buffer of a sequence of quads: six indices each, into that quad's vertices.
#[verifier::opaque]
pub open spec fn mesh_indices(qs: Seq<Quad>) -> Seq<u32>
    decreases qs.len(),
{
    if qs.len() == 0 {
        seq![]
    } else {
        mesh_indices(qs.drop_last()) + shifted(spec_face_indices(qs.last().side), 4 * (qs.len() - 1))
    }
}

/// The buffers of quads grow by four vertices and six indices per quad.
pub proof fn lemma_mesh_sizes(qs: Seq<Quad>, step: nat)
    ensures
        mesh_vertices(qs, step).len() == 4 * qs.len(),
        mesh_indices(qs).len() == 6 * qs.len(),
    decreases qs.len(),
{
    reveal(mesh_vertices);
    reveal(mesh_indices);
    if qs.len() > 0 {
        lemma_mesh_sizes(qs.drop_last(), step);
    }
}

/// Appending a quad appends its four vertices and its six indices, shifted past
/// the vertices before it.
pub proof fn lemma_mesh_push(qs: Seq<Quad>, q: Quad, step: nat)
    ensures
        mesh_vertices(qs.push(q), step) == mesh_vertices(qs, step) + quad_vertices(q, step),
        mesh_indices(qs.push(q)) == mesh_indices(qs) + shifted(spec_face_indices(q.side), 4 * qs.len() as int),
{
    reveal(mesh_vertices);
    reveal(mesh_indices);
    assert(qs.push(q).drop_last() =~= qs);
}

/// Advancing a multiple of the stride by the stride stays inside the chunk's range.
proof fn lemma_step_advance(a: int, step: nat)
    requires
        is_step(step),
        0 <= a < CHUNK_SIZE,
        a % (step as int) == 0,
    ensures
        a + step <= CHUNK_SIZE,
        (a + step) % (step as int) == 0,
{
    if step == 1 {
    } else if step == 2 {
        assert((a + 2) % 2 == a % 2);
    } else if step == 4 {
        assert((a + 4) % 4 == a % 4);
    } else {
        assert((a + 8) % 8 == a % 8);
    }
}

/// A voxel whose six neighbours are all opaque emits no face.
pub proof fn lemma_enclosed_voxel_emits_nothing(chunk: Chunk, m: Map<u64, Chunk>, step: nat, x: int, y: int, z: int)
    requires
        forall|k: int| 0 <= k < 6 ==> !spec_transparent(#[trigger] neighbor_voxel(chunk, m, step, x, y, z, k).id),
    ensures
        cell_faces(chunk, m, step, x, y, z) == Seq::<Quad>::empty(),
{
    assert(!spec_transparent(neighbor_voxel(chunk, m, step, x, y, z, 0).id));
    assert(!spec_transparent(neighbor_voxel(chunk, m, step, x, y, z, 1).id));
    assert(!spec_transparent(neighbor_voxel(chunk, m, step, x, y, z, 2).id));
    assert(!spec_transparent(neighbor_voxel(chunk, m, step, x, y, z, 3).id));
    assert(!spec_transparent(neighbor_voxel(chunk, m, step, x, y, z, 4).id));
    assert(!spec_transparent(neighbor_voxel(chunk, m, step, x, y, z, 5).id));
    reveal_with_fuel(side_faces, 7);
    assert(side_faces(chunk, m, step, x, y, z, 6) =~= Seq::<Quad>::empty());
}

/// An opaque voxel whose six neighbours are all transparent emits six faces:
/// 24 vertices and 36 indices.
pub proof fn lemma_exposed_voxel_emits_six_faces(chunk: Chunk, m: Map<u64, Chunk>, step: nat, x: int, y: int, z: int)
    requires
        !spec_transparent(sampled(chunk, m, x, y, z).id),
        forall|k: int| 0 <= k < 6 ==> spec_transparent(#[trigger] neighbor_voxel(chunk, m, step, x, y, z, k).id),
    ensures
        cell_faces(chunk, m, step, x, y, z).len() == 6,
        mesh_vertices(cell_faces(chunk, m, step, x, y, z), step).len() == 24,
        mesh_indices(cell_faces(chunk, m, step, x, y, z)).len() == 36,
{
    assert(spec_transparent(neighbor_voxel(chunk, m, step, x, y, z, 0).id));
    assert(spec_transparent(neighbor_voxel(chunk, m, step, x, y, z, 1).id));
    assert(spec_transparent(neighbor_voxel(chunk, m, step, x, y, z, 2).id));
    assert(spec_transparent(neighbor_voxel(chunk, m, step, x, y, z, 3).id));
    assert(spec_transparent(neighbor_voxel(chunk, m, step, x, y, z, 4).id));
    assert(spec_transparent(neighbor_voxel(chunk, m, step, x, y, z, 5).id));
    reveal_with_fuel(side_faces, 7);
    lemma_mesh_sizes(cell_faces(chunk, m, step, x, y, z), step);
}

/// `m2` holds a chunk at each neighbour of `c` exactly where `m` does, with
/// the same voxels.
pub open spec fn agrees_on_neighbors(m: Map<u64, Chunk>, m2: Map<u64, Chunk>, c: ChunkCoord) -> bool {
    forall|i: int|
        0 <= i < 6 ==> match #[trigger] neighbors(c)[i] {
            Some(n) => (m.contains_key(key_of(n)) <==> m2.contains_key(key_of(n))) && (m.contains_key(key_of(n))
                ==> m2[key_of(n)].chunk_data@ == m[key_of(n)].chunk_data@),
            None => true,
        }
}

/// A position at most `8` voxels outside the chunk along one axis reads the
/// same through two maps that agree on the chunk's neighbours.
proof fn lemma_sample_agrees(chunk: Chunk, m: Map<u64, Chunk>, m2: Map<u64, Chunk>, x: int, y: int, z: int)
    requires
        agrees_on_neighbors(m, m2, chunk.coord),
        -8 <= x < CHUNK_SIZE + 8,
        -8 <= y < CHUNK_SIZE + 8,
        -8 <= z < CHUNK_SIZE + 8,
        (0 <= y < CHUNK_SIZE && 0 <= z < CHUNK_SIZE) || (0 <= x < CHUNK_SIZE && 0 <= z < CHUNK_SIZE) || (0 <= x
            < CHUNK_SIZE && 0 <= y < CHUNK_SIZE),
    ensures
        sampled(chunk, m, x, y, z) == sampled(chunk, m2, x, y, z),
{
    if !inside(x, y, z) {
        let c = chunk.coord;
        let w = WorldCoord {
            x: (c.x * CHUNK_SIZE + x) as i32,
            y: (c.y * CHUNK_SIZE + y) as i32,
            z: (c.z * CHUNK_SIZE + z) as i32,
        };
        lemma_floor_div_unique(w.x as int, if x < 0 { c.x - 1 } else if x >= 32 { c.x + 1 } else { c.x as int });
        lemma_floor_div_unique(w.y as int, if y < 0 { c.y - 1 } else if y >= 32 { c.y + 1 } else { c.y as int });
        lemma_floor_div_unique(w.z as int, if z < 0 { c.z - 1 } else if z >= 32 { c.z + 1 } else { c.z as int });
        if w.in_chunk_range() {
            let i = if x < 0 { 0int } else if x >= 32 { 1 } else if z < 0 { 2 } else if z >= 32 { 3 } else if y >= 32 {
                4
            } else {
                5
            };
            assert(neighbors(c)[i] == Some(chunk_of(w)));
        }
    }
}

/// The faces of a cell read the same through two maps that agree on the
/// chunk's neighbours.
proof fn lemma_cell_agrees(chunk: Chunk, m: Map<u64, Chunk>, m2: Map<u64, Chunk>, step: nat, x: int, y: int, z: int)
    requires
        agrees_on_neighbors(m, m2, chunk.coord),
        is_step(step),
        inside(x, y, z),
    ensures
        cell_faces(chunk, m, step, x, y, z) == cell_faces(chunk, m2, step, x, y, z),
{
    lemma_sample_agrees(chunk, m, m2, x, y, z);
    assert forall|k: int| 0 <= k < 6 implies #[trigger] neighbor_voxel(chunk, m, step, x, y, z, k) == neighbor_voxel(
        chunk,
        m2,
        step,
        x,
        y,
        z,
        k,
    ) by {
        let n = neighbor(step, x, y, z, side(k));
        lemma_sample_agrees(chunk, m, m2, n.0, n.1, n.2);
    }
    assert forall|k: int| 0 <= k < 6 implies #[trigger] side_face(chunk, m, step, x, y, z, k) == side_face(
        chunk,
        m2,
        step,
        x,
        y,
        z,
        k,
    ) by {
        assert(neighbor_voxel(chunk, m, step, x, y, z, k) == neighbor_voxel(chunk, m2, step, x, y, z, k));
    }
    reveal_with_fuel(side_faces, 7);
    assert(side_face(chunk, m, step, x, y, z, 0) == side_face(chunk, m2, step, x, y, z, 0));
    assert(side_face(chunk, m, step, x, y, z, 1) == side_face(chunk, m2, step, x, y, z, 1));
    assert(side_face(chunk, m, step, x, y, z, 2) == side_face(chunk, m2, step, x, y, z, 2));
    assert(side_face(chunk, m, step, x, y, z, 3) == side_face(chunk, m2, step, x, y, z, 3));
    assert(side_face(chunk, m, step, x, y, z, 4) == side_face(chunk, m2, step, x, y, z, 4));
    assert(side_face(chunk, m, step, x, y, z, 5) == side_face(chunk, m2, step, x, y, z, 5));
}

proof fn lemma_row_agrees(chunk: Chunk, m: Map<u64, Chunk>, m2: Map<u64, Chunk>, step: nat, x: int, y: int, z: nat)
    requires
        agrees_on_neighbors(m, m2, chunk.coord),
        is_step(step),
        0 <= x < CHUNK_SIZE,
        0 <= y < CHUNK_SIZE,
        z <= CHUNK_SIZE,
    ensures
        row_faces(chunk, m, step, x, y, z) == row_faces(chunk, m2, step, x, y, z),
    decreases z,
{
    if z >= step {
        lemma_row_agrees(chunk, m, m2, step, x, y, (z - step) as nat);
        lemma_cell_agrees(chunk, m, m2, step, x, y, z - step);
    }
}

proof fn lemma_plane_agrees(chunk: Chunk, m: Map<u64, Chunk>, m2: Map<u64, Chunk>, step: nat, x: int, y: nat)
    requires
        agrees_on_neighbors(m, m2, chunk.coord),
        is_step(step),
        0 <= x < CHUNK_SIZE,
        y <= CHUNK_SIZE,
    ensures
        plane_faces(chunk, m, step, x, y) == plane_faces(chunk, m2, step, x, y),
    decreases y,
{
    if y >= step {
        lemma_plane_agrees(chunk, m, m2, step, x, (y - step) as nat);
        lemma_row_agrees(chunk, m, m2, step, x, y - step, CHUNK_SIZE as nat);
    }
}

proof fn lemma_grid_agrees(chunk: Chunk, m: Map<u64, Chunk>, m2: Map<u64, Chunk>, step: nat, x: nat)
    requires
        agrees_on_neighbors(m, m2, chunk.coord),
        is_step(step),
        x <= CHUNK_SIZE,
    ensures
        grid_faces(chunk, m, step, x) == grid_faces(chunk, m2, step, x),
    decreases x,
{
    if x >= step {
        lemma_grid_agrees(chunk, m, m2, step, (x - step) as nat);
        lemma_plane_agrees(chunk, m, m2, step, x - step, CHUNK_SIZE as nat);
    }
}

/// Meshing a chunk reads no chunk but its six neighbours: against any two
/// sets of loaded chunks that agree on those neighbours it emits the same
/// faces, so meshing against a copy of the neighbours equals meshing against
/// the whole world.
pub proof fn lemma_mesh_reads_neighbors_only(chunk: Chunk, m: Map<u64, Chunk>, m2: Map<u64, Chunk>, step: nat)
    requires
        agrees_on_neighbors(m, m2, chunk.coord),
        is_step(step),
    ensures
        chunk_faces(chunk, m, step) == chunk_faces(chunk, m2, step),
{
    lemma_grid_agrees(chunk, m, m2, step, CHUNK_SIZE as nat);
}

/// Every voxel of `chunk` is opaque.
pub open spec fn all_opaque(chunk: Chunk) -> bool {
    forall|l: ChunkLocalCoord| l.is_valid() ==> !spec_transparent(#[trigger] chunk.voxel_at(l).id)
}

/// All six neighbours of `c` are loaded in `m` and opaque throughout.
pub open spec fn opaque_neighbors(m: Map<u64, Chunk>, c: ChunkCoord) -> bool {
    forall|i: int|
        0 <= i < 6 ==> match #[trigger] neighbors(c)[i] {
            Some(n) => m.contains_key(key_of(n)) && all_opaque(m[key_of(n)]),
            None => false,
        }
}

/// Next to an opaque chunk with opaque neighbours, every position at most
/// `8` voxels outside it along one axis reads as opaque.
proof fn lemma_sample_opaque(chunk: Chunk, m: Map<u64, Chunk>, x: int, y: int, z: int)
    requires
        all_opaque(chunk),
        opaque_neighbors(m, chunk.coord),
        -8 <= x < CHUNK_SIZE + 8,
        -8 <= y < CHUNK_SIZE + 8,
        -8 <= z < CHUNK_SIZE + 8,
        (0 <= y < CHUNK_SIZE && 0 <= z < CHUNK_SIZE) || (0 <= x < CHUNK_SIZE && 0 <= z < CHUNK_SIZE) || (0 <= x
            < CHUNK_SIZE && 0 <= y < CHUNK_SIZE),
    ensures
        !spec_transparent(sampled(chunk, m, x, y, z).id),
{
    let c = chunk.coord;
    if inside(x, y, z) {
        let l = ChunkLocalCoord { x: x as usize, y: y as usize, z: z as usize };
        assert(l.is_valid());
        assert(!spec_transparent(chunk.voxel_at(l).id));
    } else {
        let w = WorldCoord {
            x: (c.x * CHUNK_SIZE + x) as i32,
            y: (c.y * CHUNK_SIZE + y) as i32,
            z: (c.z * CHUNK_SIZE + z) as i32,
        };
        let i = if x < 0 { 0int } else if x >= 32 { 1 } else if z < 0 { 2 } else if z >= 32 { 3 } else if y >= 32 {
            4
        } else {
            5
        };
        assert(neighbors(c)[i] is Some);
        lemma_floor_div_unique(w.x as int, if x < 0 { c.x - 1 } else if x >= 32 { c.x + 1 } else { c.x as int });
        lemma_floor_div_unique(w.y as int, if y < 0 { c.y - 1 } else if y >= 32 { c.y + 1 } else { c.y as int });
        lemma_floor_div_unique(w.z as int, if z < 0 { c.z - 1 } else if z >= 32 { c.z + 1 } else { c.z as int });
        assert(w.in_chunk_range());
        assert(neighbors(c)[i] == Some(chunk_of(w)));
        lemma_coordinate_round_trip(w);
        let n = m[key_of(chunk_of(w))];
        assert(all_opaque(n));
        assert(!spec_transparent(n.voxel_at(local_of(w)).id));
    }
}

proof fn lemma_row_empty(chunk: Chunk, m: Map<u64, Chunk>, step: nat, x: int, y: int, z: nat)
    requires
        all_opaque(chunk),
        opaque_neighbors(m, chunk.coord),
        is_step(step),
        0 <= x < CHUNK_SIZE,
        0 <= y < CHUNK_SIZE,
        z <= CHUNK_SIZE,
    ensures
        row_faces(chunk, m, step, x, y, z) == Seq::<Quad>::empty(),
    decreases z,
{
    if z >= step {
        lemma_row_empty(chunk, m, step, x, y, (z - step) as nat);
        let zc = z - step;
        assert forall|k: int| 0 <= k < 6 implies !spec_transparent(
            #[trigger] neighbor_voxel(chunk, m, step, x, y, zc, k).id,
        ) by {
            let n = neighbor(step, x, y, zc, side(k));
            lemma_sample_opaque(chunk, m, n.0, n.1, n.2);
        }
        lemma_enclosed_voxel_emits_nothing(chunk, m, step, x, y, zc);
        assert(row_faces(chunk, m, step, x, y, z) =~= Seq::<Quad>::empty());
    }
}

proof fn lemma_plane_empty(chunk: Chunk, m: Map<u64, Chunk>, step: nat, x: int, y: nat)
    requires
        all_opaque(chunk),
        opaque_neighbors(m, chunk.coord),
        is_step(step),
        0 <= x < CHUNK_SIZE,
        y <= CHUNK_SIZE,
    ensures
        plane_faces(chunk, m, step, x, y) == Seq::<Quad>::empty(),
    decreases y,
{
    if y >= step {
        lemma_plane_empty(chunk, m, step, x, (y - step) as nat);
        lemma_row_empty(chunk, m, step, x, y - step, CHUNK_SIZE as nat);
        assert(plane_faces(chunk, m, step, x, y) =~= Seq::<Quad>::empty());
    }
}

proof fn lemma_grid_empty(chunk: Chunk, m: Map<u64, Chunk>, step: nat, x: nat)
    requires
        all_opaque(chunk),
        opaque_neighbors(m, chunk.coord),
        is_step(step),
        x <= CHUNK_SIZE,
    ensures
        grid_faces(chunk, m, step, x) == Seq::<Quad>::empty(),
    decreases x,
{
    if x >= step {
        lemma_grid_empty(chunk, m, step, (x - step) as nat);
        lemma_plane_empty(chunk, m, step, x - step, CHUNK_SIZE as nat);
        assert(grid_faces(chunk, m, step, x) =~= Seq::<Quad>::empty());
    }
}

/// A chunk that is opaque throughout, with all six neighbours loaded and
/// opaque throughout, emits no face at any level of detail, so
/// `generate_mesh_lod` returns `None` for it.
pub proof fn lemma_solid_surroundings_emit_nothing(chunk: Chunk, m: Map<u64, Chunk>, step: nat)
    requires
        all_opaque(chunk),
        opaque_neighbors(m, chunk.coord),
        is_step(step),
    ensures
        chunk_faces(chunk, m, step).len() == 0,
{
    lemma_grid_empty(chunk, m, step, CHUNK_SIZE as nat);
}

fn side_at(k: usize) -> (r: FaceOrientation)
    requires
        k < 6,
    ensures
        r == side(k as int),
{
    if k == 0 {
        FaceOrientation::Left
    } else if k == 1 {
        FaceOrientation::Right
    } else if k == 2 {
        FaceOrientation::Top
    } else if k == 3 {
        FaceOrientation::Bottom
    } else if k == 4 {
        FaceOrientation::Back
    } else {
        FaceOrientation::Front
    }
}

/// The voxel at `coord`: read from `chunk` where `coord` lies inside it, else
/// through `accessor`.
fn get_voxel_wrapper(chunk: &Chunk, coord: BlockOffsetCoord, accessor: &WorldAccessor) -> (r: Option<Voxel>)
    requires
        chunk.wf(),
        accessor.wf(),
        fits_i32(WorldCoord::spec_from_chunk_and_local(chunk.coord, coord)),
    ensures
        r == sample(*chunk, accessor.chunks@, coord.x as int, coord.y as int, coord.z as int),
        r matches Some(v) ==> v.is_registered(),
{
    if coord.x < 0 || coord.x >= CHUNK_SIZE as i32 || coord.y < 0 || coord.y >= CHUNK_SIZE as i32 || coord.z < 0
        || coord.z >= CHUNK_SIZE as i32 {
        accessor.get_voxel(WorldCoord::from_chunk_and_local(chunk.coord, coord))
    } else {
        chunk.get_voxel(coord.into())
    }
}

/// Appends the quad's four vertices, scaled by `step`, and its six indices.
fn emit_face(
    vertices: &mut Vec<MeshVertex>,
    indices: &mut Vec<u32>,
    texture_id: usize,
    x: usize,
    y: usize,
    z: usize,
    side: FaceOrientation,
    step: usize,
)
    requires
        is_step(step as nat),
        texture_id < TEXTURE_COUNT * TEXTURE_COUNT,
        x < CHUNK_SIZE,
        y < CHUNK_SIZE,
        z < CHUNK_SIZE,
        old(vertices)@.len() <= 1000000,
    ensures
        final(vertices)@ == old(vertices)@ + quad_vertices(
            Quad { x, y, z, side, texture_id },
            step as nat,
        ),
        final(indices)@ == old(indices)@ + shifted(spec_face_indices(side), old(vertices)@.len() as int),
{
    let ghost q = Quad { x, y, z, side, texture_id };
    let (vx, idx) = face(texture_id, (x / step, y / step, z / step), side);
    let base = vertices.len() as u32;
    let ghost start = indices@;
    let mut k: usize = 0;
    while k < 6
        invariant
            k <= 6,
            base == old(vertices)@.len(),
            base <= 1000000,
            idx@ == spec_face_indices(side),
            indices@ == start + shifted(idx@, base as int).subrange(0, k as int),
        decreases 6 - k,
    {
        indices.push(idx[k] + base);
        k = k + 1;
        assert(indices@ =~= start + shifted(idx@, base as int).subrange(0, k as int));
    }
    assert(shifted(idx@, base as int).subrange(0, 6) =~= shifted(idx@, base as int));
    let ghost vstart = vertices@;
    let s = step as u32;
    let mut j: usize = 0;
    while j < 4
        invariant
            j <= 4,
            is_step(step as nat),
            s == step,
            x < CHUNK_SIZE,
            y < CHUNK_SIZE,
            z < CHUNK_SIZE,
            q == (Quad { x, y, z, side, texture_id }),
            forall|k: int| 0 <= k < 4 ==> vx@[k] == spec_face_vertex(texture_id, (x / step, y / step, z / step), side, k),
            vertices@ == vstart + quad_vertices(q, step as nat).subrange(0, j as int),
        decreases 4 - j,
    {
        let v = vx[j];
        assert(v.x <= 33 && v.y <= 33 && v.z <= 33);
        assert(v.x * s <= 264 && v.y * s <= 264 && v.z * s <= 264) by (nonlinear_arith)
            requires
                v.x <= 33,
                v.y <= 33,
                v.z <= 33,
                s <= 8,
        ;
        vertices.push(MeshVertex { x: v.x * s, y: v.y * s, z: v.z * s, ..v });
        j = j + 1;
        assert(vertices@ =~= vstart + quad_vertices(q, step as nat).subrange(0, j as int));
    }
    assert(quad_vertices(q, step as nat).subrange(0, 4) =~= quad_vertices(q, step as nat));
}

fn voxel_or_air(v: Option<Voxel>) -> (r: Voxel)
    ensures
        r == (match v {
            Some(v) => v,
            None => air(),
        }),
{
    match v {
        Some(v) => v,
        None => Voxel::default(),
    }
}

/// Appends the faces of the cell at `(x, y, z)` to the buffers of `qs`.
#[verifier::rlimit(40)]
fn emit_cell(
    chunk: &Chunk,
    world_accessor: &WorldAccessor,
    step: usize,
    x: usize,
    y: usize,
    z: usize,
    vertices: &mut Vec<MeshVertex>,
    indices: &mut Vec<u32>,
    Ghost(qs): Ghost<Seq<Quad>>,
)
    requires
        chunk.wf(),
        world_accessor.wf(),
        is_step(step as nat),
        x < CHUNK_SIZE,
        y < CHUNK_SIZE,
        z < CHUNK_SIZE,
        qs.len() <= 200000,
        old(vertices)@ == mesh_vertices(qs, step as nat),
        old(indices)@ == mesh_indices(qs),
    ensures
        ({
            let cell = cell_faces(*chunk, world_accessor.chunks@, step as nat, x as int, y as int, z as int);
            &&& cell.len() <= 6
            &&& final(vertices)@ == mesh_vertices(qs + cell, step as nat)
            &&& final(indices)@ == mesh_indices(qs + cell)
        }),
{
    let ghost c = *chunk;
    let ghost m = world_accessor.chunks@;
    let ghost st = step as nat;
    let ghost mut quads = qs;
    let coord = BlockOffsetCoord { x: x as i32, y: y as i32, z: z as i32 };
    let current_voxel = voxel_or_air(get_voxel_wrapper(chunk, coord, world_accessor));
    let current_block_info = Blocks::by_id(current_voxel.id);
    if current_block_info.transparent {
        assert(qs + cell_faces(c, m, st, x as int, y as int, z as int) =~= qs);
        return;
    }
    let mut k: usize = 0;
    while k < 6
        invariant
            chunk.wf(),
            world_accessor.wf(),
            c == *chunk,
            m == world_accessor.chunks@,
            st == step,
            is_step(st),
            x < CHUNK_SIZE,
            y < CHUNK_SIZE,
            z < CHUNK_SIZE,
            k <= 6,
            qs.len() <= 200000,
            current_voxel == sampled(c, m, x as int, y as int, z as int),
            current_block_info.describes(current_voxel.id),
            quads == qs + side_faces(c, m, st, x as int, y as int, z as int, k as nat),
            quads.len() <= qs.len() + k,
            vertices@ == mesh_vertices(quads, st),
            indices@ == mesh_indices(quads),
        decreases 6 - k,
    {
        emit_side(chunk, world_accessor, step, x, y, z, k, &current_block_info, vertices, indices, Ghost(quads), Ghost(current_voxel));
        proof {
            quads = quads + side_face(c, m, st, x as int, y as int, z as int, k as int);
        }
        k = k + 1;
        assert(quads =~= qs + side_faces(c, m, st, x as int, y as int, z as int, k as nat));
    }
}

/// Appends face `side(k)` of the cell at `(x, y, z)` to the buffers of `qs`
/// where its neighbour is transparent.
#[verifier::rlimit(40)]
fn emit_side(
    chunk: &Chunk,
    world_accessor: &WorldAccessor,
    step: usize,
    x: usize,
    y: usize,
    z: usize,
    k: usize,
    current_block_info: &RegisteredBlock,
    vertices: &mut Vec<MeshVertex>,
    indices: &mut Vec<u32>,
    Ghost(qs): Ghost<Seq<Quad>>,
    Ghost(current_voxel): Ghost<Voxel>,
)
    requires
        chunk.wf(),
        world_accessor.wf(),
        is_step(step as nat),
        x < CHUNK_SIZE,
        y < CHUNK_SIZE,
        z < CHUNK_SIZE,
        k < 6,
        qs.len() <= 200010,
        current_voxel == sampled(*chunk, world_accessor.chunks@, x as int, y as int, z as int),
        current_block_info.describes(current_voxel.id),
        old(vertices)@ == mesh_vertices(qs, step as nat),
        old(indices)@ == mesh_indices(qs),
    ensures
        ({
            let f = side_face(*chunk, world_accessor.chunks@, step as nat, x as int, y as int, z as int, k as int);
            &&& f.len() <= 1
            &&& final(vertices)@ == mesh_vertices(qs + f, step as nat)
            &&& final(indices)@ == mesh_indices(qs + f)
        }),
{
    let ghost c = *chunk;
    let ghost m = world_accessor.chunks@;
    let ghost st = step as nat;
    let side = side_at(k);
    let ghost n = neighbor(st, x as int, y as int, z as int, side);
    let s = step as i32;
    let coord = BlockOffsetCoord { x: x as i32, y: y as i32, z: z as i32 };
    let neighbor_coord = match side {
        FaceOrientation::Left => BlockOffsetCoord { x: coord.x - s, ..coord },
        FaceOrientation::Right => BlockOffsetCoord { x: coord.x + s, ..coord },
        FaceOrientation::Top => BlockOffsetCoord { y: coord.y + s, ..coord },
        FaceOrientation::Bottom => BlockOffsetCoord { y: coord.y - s, ..coord },
        FaceOrientation::Back => BlockOffsetCoord { z: coord.z + s, ..coord },
        FaceOrientation::Front => BlockOffsetCoord { z: coord.z - s, ..coord },
    };
    assert(neighbor_coord.x == n.0 && neighbor_coord.y == n.1 && neighbor_coord.z == n.2);
    let voxel = voxel_or_air(get_voxel_wrapper(chunk, neighbor_coord, world_accessor));
    let block_info = Blocks::by_id(voxel.id);
    if block_info.transparent {
        let texture_id = current_block_info.texture_ids[side.to_texture_id()];
        let ghost q = Quad { x, y, z, side, texture_id };
        proof {
            lemma_mesh_sizes(qs, st);
            lemma_mesh_push(qs, q, st);
            assert(qs.push(q) =~= qs + side_face(c, m, st, x as int, y as int, z as int, k as int));
        }
        emit_face(vertices, indices, texture_id, x, y, z, side, step);
    } else {
        assert(qs =~= qs + side_face(c, m, st, x as int, y as int, z as int, k as int));
    }
}

/// Appends the faces of the cells at `(x, y, _)` to the buffers of `qs`.
#[verifier::rlimit(40)]
fn emit_row(
    chunk: &Chunk,
    world_accessor: &WorldAccessor,
    step: usize,
    x: usize,
    y: usize,
    vertices: &mut Vec<MeshVertex>,
    indices: &mut Vec<u32>,
    Ghost(qs): Ghost<Seq<Quad>>,
)
    requires
        chunk.wf(),
        world_accessor.wf(),
        is_step(step as nat),
        x < CHUNK_SIZE,
        y < CHUNK_SIZE,
        qs.len() <= 199000,
        old(vertices)@ == mesh_vertices(qs, step as nat),
        old(indices)@ == mesh_indices(qs),
    ensures
        ({
            let row = row_faces(*chunk, world_accessor.chunks@, step as nat, x as int, y as int, CHUNK_SIZE as nat);
            &&& row.len() <= 192
            &&& final(vertices)@ == mesh_vertices(qs + row, step as nat)
            &&& final(indices)@ == mesh_indices(qs + row)
        }),
{
    let ghost c = *chunk;
    let ghost m = world_accessor.chunks@;
    let ghost st = step as nat;
    let ghost mut quads = qs;
    let mut z: usize = 0;
    while z < CHUNK_SIZE
        invariant
            chunk.wf(),
            world_accessor.wf(),
            c == *chunk,
            m == world_accessor.chunks@,
            st == step,
            is_step(st),
            x < CHUNK_SIZE,
            y < CHUNK_SIZE,
            z <= CHUNK_SIZE,
            z % step == 0,
            qs.len() <= 199000,
            quads == qs + row_faces(c, m, st, x as int, y as int, z as nat),
            row_faces(c, m, st, x as int, y as int, z as nat).len() <= 6 * z,
            vertices@ == mesh_vertices(quads, st),
            indices@ == mesh_indices(quads),
        decreases CHUNK_SIZE - z,
    {
        emit_cell(chunk, world_accessor, step, x, y, z, vertices, indices, Ghost(quads));
        proof {
            quads = quads + cell_faces(c, m, st, x as int, y as int, z as int);
        }
        proof {
            lemma_step_advance(z as int, st);
        }
        z = z + step;
        assert(quads =~= qs + row_faces(c, m, st, x as int, y as int, z as nat));
    }
}

/// Appends the faces of the cells at `(x, _, _)` to the buffers of `qs`.
#[verifier::rlimit(40)]
fn emit_plane(
    chunk: &Chunk,
    world_accessor: &WorldAccessor,
    step: usize,
    x: usize,
    vertices: &mut Vec<MeshVertex>,
    indices: &mut Vec<u32>,
    Ghost(qs): Ghost<Seq<Quad>>,
)
    requires
        chunk.wf(),
        world_accessor.wf(),
        is_step(step as nat),
        x < CHUNK_SIZE,
        qs.len() <= 6144 * 31,
        old(vertices)@ == mesh_vertices(qs, step as nat),
        old(indices)@ == mesh_indices(qs),
    ensures
        ({
            let plane = plane_faces(*chunk, world_accessor.chunks@, step as nat, x as int, CHUNK_SIZE as nat);
            &&& plane.len() <= 6144
            &&& final(vertices)@ == mesh_vertices(qs + plane, step as nat)
            &&& final(indices)@ == mesh_indices(qs + plane)
        }),
{
    let ghost c = *chunk;
    let ghost m = world_accessor.chunks@;
    let ghost st = step as nat;
    let ghost mut quads = qs;
    let mut y: usize = 0;
    while y < CHUNK_SIZE
        invariant
            chunk.wf(),
            world_accessor.wf(),
            c == *chunk,
            m == world_accessor.chunks@,
            st == step,
            is_step(st),
            x < CHUNK_SIZE,
            y <= CHUNK_SIZE,
            y % step == 0,
            qs.len() <= 6144 * 31,
            quads == qs + plane_faces(c, m, st, x as int, y as nat),
            plane_faces(c, m, st, x as int, y as nat).len() <= 192 * y,
            vertices@ == mesh_vertices(quads, st),
            indices@ == mesh_indices(quads),
        decreases CHUNK_SIZE - y,
    {
        emit_row(chunk, world_accessor, step, x, y, vertices, indices, Ghost(quads));
        proof {
            quads = quads + row_faces(c, m, st, x as int, y as int, CHUNK_SIZE as nat);
        }
        proof {
            lemma_step_advance(y as int, st);
        }
        y = y + step;
        assert(quads =~= qs + plane_faces(c, m, st, x as int, y as nat));
    }
}

/// The surface of `chunk` at level of detail `lod_level`: for every visited
/// voxel that is not transparent, one quad per face whose neighbour (read from
/// the chunk inside it, through `world_accessor` outside it, air where absent)
/// is transparent. `None` where no face is emitted.
#[verifier::rlimit(40)]
pub fn generate_mesh_lod(chunk: Box<Chunk>, world_accessor: WorldAccessor, lod_level: LodLevel) -> (r: Option<
    MeshInfo<MeshVertex>,
>)
    requires
        chunk.wf(),
        world_accessor.wf(),
    ensures
        ({
            let qs = chunk_faces(*chunk, world_accessor.chunks@, lod_level.spec_step());
            &&& r is None <==> qs.len() == 0
            &&& r matches Some(m) ==> m.vertices@ == mesh_vertices(qs, lod_level.spec_step())
                && m.indices@ == mesh_indices(qs)
        }),
{
    let step = lod_level.to_step_size();
    let ghost st = step as nat;
    let ghost c = *chunk;
    let ghost m = world_accessor.chunks@;
    let mut vertices: Vec<MeshVertex> = Vec::new();
    let mut indices: Vec<u32> = Vec::new();
    let ghost mut quads: Seq<Quad> = seq![];
    proof {
        reveal(mesh_vertices);
        reveal(mesh_indices);
    }
    let mut x: usize = 0;
    while x < CHUNK_SIZE
        invariant
            st == step,
            st == lod_level.spec_step(),
            is_step(st),
            c == *chunk,
            m == world_accessor.chunks@,
            chunk.wf(),
            world_accessor.wf(),
            x <= CHUNK_SIZE,
            x % step == 0,
            quads == grid_faces(c, m, st, x as nat),
            quads.len() <= 6144 * x,
            vertices@ == mesh_vertices(quads, st),
            indices@ == mesh_indices(quads),
        decreases CHUNK_SIZE - x,
    {
        emit_plane(&chunk, &world_accessor, step, x, &mut vertices, &mut indices, Ghost(quads));
        proof {
            quads = quads + plane_faces(c, m, st, x as int, CHUNK_SIZE as nat);
        }
        proof {
            lemma_step_advance(x as int, st);
        }
        x = x + step;
        assert(quads =~= grid_faces(c, m, st, x as nat));
    }
    proof {
        lemma_mesh_sizes(quads, st);
    }
    if vertices.len() == 0 {
        return None;
    }
    Some(MeshInfo { vertices, indices })
}

} // verus!
