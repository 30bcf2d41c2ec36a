//! A chunk: a dense cube of voxels at a chunk coordinate.

use vstd::prelude::*;

use crate::coord::{ChunkCoord, ChunkLocalCoord, CHUNK_SIZE, CHUNK_SIZE_ITEMS};
use crate::voxel::{Voxel, AIR_ID};

verus! {

/// Position in the dense voxel array of a chunk-local index: x fastest, then y, then z.
pub open spec fn index_of(l: ChunkLocalCoord) -> int {
    l.x + l.y * (CHUNK_SIZE as int) + l.z * (CHUNK_SIZE as int) * (CHUNK_SIZE as int)
}

/// The voxel `air`.
pub open spec fn air() -> Voxel {
    Voxel { id: AIR_ID }
}

#[derive(Debug)]
pub struct Chunk {
    /// The voxels, indexed by `index_of`.
    pub chunk_data: Vec<Voxel>,
    pub coord: ChunkCoord,
}

impl Chunk {
    /// The chunk holds exactly `CHUNK_SIZE_ITEMS` voxels, each of a registered block kind.
    pub open spec fn wf(&self) -> bool {
        &&& self.chunk_data@.len() == CHUNK_SIZE_ITEMS
        &&& forall|i: int| 0 <= i < CHUNK_SIZE_ITEMS ==> (#[trigger] self.chunk_data@[i]).is_registered()
    }

    /// The voxel stored at a valid chunk-local index.
    pub open spec fn voxel_at(&self, l: ChunkLocalCoord) -> Voxel {
        self.chunk_data@[index_of(l)]
    }

    /// A chunk at `coord` filled with air.
    pub fn new(coord: ChunkCoord) -> (r: Self)
        ensures
            r.wf(),
            r.coord == coord,
            r.chunk_data@ == Seq::new(CHUNK_SIZE_ITEMS as nat, |i: int| air()),
    {
        let mut chunk_data: Vec<Voxel> = Vec::new();
        let mut i: usize = 0;
        while i < CHUNK_SIZE_ITEMS
            invariant
                i <= CHUNK_SIZE_ITEMS,
                chunk_data@ == Seq::new(i as nat, |j: int| air()),
            decreases CHUNK_SIZE_ITEMS - i,
        {
            chunk_data.push(Voxel { id: AIR_ID });
            i = i + 1;
        }
        Self { chunk_data, coord }
    }

    /// Array position of a valid chunk-local index.
    fn translate_index(coord: ChunkLocalCoord) -> (r: usize)
        requires
            coord.is_valid(),
        ensures
            r as int == index_of(coord),
            r < CHUNK_SIZE_ITEMS,
    {
        coord.x + coord.y * CHUNK_SIZE + coord.z * CHUNK_SIZE * CHUNK_SIZE
    }

    /// The voxel at `coord`, or `None` where `coord` lies outside the chunk.
    pub fn get_voxel(&self, coord: ChunkLocalCoord) -> (r: Option<Voxel>)
        requires
            self.wf(),
        ensures
            coord.is_valid() ==> r == Some(self.voxel_at(coord)),
            !coord.is_valid() ==> r is None,
    {
        if coord.x >= CHUNK_SIZE || coord.y >= CHUNK_SIZE || coord.z >= CHUNK_SIZE {
            return None;
        }
        Some(self.chunk_data[Self::translate_index(coord)])
    }

    /// Writes `voxel` at `coord`; does nothing where `coord` lies outside the chunk.
    pub fn set_voxel(&mut self, coord: ChunkLocalCoord, voxel: Voxel)
        requires
            old(self).wf(),
            voxel.is_registered(),
        ensures
            final(self).wf(),
            final(self).coord == old(self).coord,
            coord.is_valid() ==> final(self).chunk_data@ == old(self).chunk_data@.update(index_of(coord), voxel),
            !coord.is_valid() ==> final(self).chunk_data@ == old(self).chunk_data@,
    {
        if coord.x >= CHUNK_SIZE || coord.y >= CHUNK_SIZE || coord.z >= CHUNK_SIZE {
            return;
        }
        let i = Self::translate_index(coord);
        self.chunk_data.set(i, voxel);
    }

    /// A copy of this chunk.
    pub fn duplicate(&self) -> (r: Self)
        ensures
            r.chunk_data@ == self.chunk_data@,
            r.coord == self.coord,
    {
        let mut chunk_data: Vec<Voxel> = Vec::new();
        let mut i: usize = 0;
        while i < self.chunk_data.len()
            invariant
                i <= self.chunk_data@.len(),
                chunk_data@ == self.chunk_data@.subrange(0, i as int),
            decreases self.chunk_data@.len() - i,
        {
            chunk_data.push(self.chunk_data[i]);
            i = i + 1;
        }
        assert(chunk_data@ =~= self.chunk_data@);
        Self { chunk_data, coord: self.coord }
    }
}

/// Distinct valid chunk-local indices sit at distinct array positions inside the chunk.
pub proof fn lemma_index_of_injective(a: ChunkLocalCoord, b: ChunkLocalCoord)
    requires
        a.is_valid(),
        b.is_valid(),
    ensures
        0 <= index_of(a) < CHUNK_SIZE_ITEMS,
        index_of(a) == index_of(b) <==> a == b,
{
}

} // verus!
