//! Vertex and index buffers produced by surface extraction.

use vstd::prelude::*;

verus! {

/// A mesh vertex on the voxel grid.
///
/// The position is in voxel units from the chunk's origin, the normal is a
/// unit axis vector, and the texture coordinates count cells of the texture
/// atlas (one cell is `1 / TEXTURE_COUNT` of the atlas).
#[derive(Clone, Copy, Debug, PartialEq, Eq, Structural)]
pub struct MeshVertex {
    pub x: u32,
    pub y: u32,
    pub z: u32,
    pub normal_x: i8,
    pub normal_y: i8,
    pub normal_z: i8,
    pub u: u32,
    pub v: u32,
}

/// A vertex list and a triangle list of indices into it.
pub struct MeshInfo<T> {
    pub vertices: Vec<T>,
    pub indices: Vec<u32>,
}

/// `indices` with `base` added to each.
pub open spec fn shifted(indices: Seq<u32>, base: int) -> Seq<u32> {
    indices.map_values(|i: u32| (i + base) as u32)
}

impl<T> MeshInfo<T> {
    /// An empty mesh.
    pub fn new() -> (r: Self)
        ensures
            r.vertices@.len() == 0,
            r.indices@.len() == 0,
    {
        Self { vertices: Vec::new(), indices: Vec::new() }
    }

    /// Replaces each vertex `v` by `f(v)`.
    pub fn transform_vertices<F: Fn(T) -> T>(&mut self, f: F)
        requires
            forall|v: T| #[trigger] f.requires((v,)),
        ensures
            final(self).indices@ == old(self).indices@,
            final(self).vertices@.len() == old(self).vertices@.len(),
            forall|i: int|
                0 <= i < old(self).vertices@.len() ==> f.ensures(
                    (#[trigger] old(self).vertices@[i],),
                    final(self).vertices@[i],
                ),
    {
        let ghost initial = self.vertices@;
        let mut pending: Vec<T> = Vec::new();
        std::mem::swap(&mut self.vertices, &mut pending);
        let mut reversed: Vec<T> = Vec::new();
        while pending.len() > 0
            invariant
                pending@ == initial.subrange(0, pending@.len() as int),
                pending@.len() + reversed@.len() == initial.len(),
                forall|j: int| 0 <= j < reversed@.len() ==> #[trigger] reversed@[j] == initial[initial.len() - 1 - j],
            decreases pending@.len(),
        {
            let v = pending.pop().unwrap();
            reversed.push(v);
        }
        let mut out: Vec<T> = Vec::new();
        while reversed.len() > 0
            invariant
                forall|v: T| #[trigger] f.requires((v,)),
                out@.len() + reversed@.len() == initial.len(),
                forall|j: int| 0 <= j < reversed@.len() ==> #[trigger] reversed@[j] == initial[initial.len() - 1 - j],
                forall|i: int| 0 <= i < out@.len() ==> f.ensures((#[trigger] initial[i],), out@[i]),
            decreases reversed@.len(),
        {
            let v = reversed.pop().unwrap();
            let w = f(v);
            out.push(w);
        }
        self.vertices = out;
    }

    /// Appends `rhs` to this mesh: its vertices after these, its indices
    /// shifted past these vertices.
    pub fn merge(&mut self, rhs: Self)
        requires
            old(self).vertices@.len() <= u32::MAX,
            forall|i: int| 0 <= i < rhs.indices@.len() ==> rhs.indices@[i] + old(self).vertices@.len() <= u32::MAX,
        ensures
            final(self).vertices@ == old(self).vertices@ + rhs.vertices@,
            final(self).indices@ == old(self).indices@ + shifted(rhs.indices@, old(self).vertices@.len() as int),
    {
        let MeshInfo { vertices: mut rhs_vertices, indices: rhs_indices } = rhs;
        let base = self.vertices.len() as u32;
        let ghost start = self.indices@;
        let mut k: usize = 0;
        while k < rhs_indices.len()
            invariant
                base == old(self).vertices@.len(),
                self.vertices@ == old(self).vertices@,
                forall|i: int| 0 <= i < rhs_indices@.len() ==> rhs_indices@[i] + base <= u32::MAX,
                k <= rhs_indices@.len(),
                self.indices@ == start + shifted(rhs_indices@, base as int).subrange(0, k as int),
            decreases rhs_indices@.len() - k,
        {
            self.indices.push(rhs_indices[k] + base);
            k = k + 1;
            assert(self.indices@ =~= start + shifted(rhs_indices@, base as int).subrange(0, k as int));
        }
        assert(shifted(rhs_indices@, base as int).subrange(0, k as int) =~= shifted(rhs_indices@, base as int));
        self.vertices.append(&mut rhs_vertices);
    }
}

} // verus!
