//! Read-only sampling of voxels across the loaded chunks.

use std::collections::HashMap;

use vstd::prelude::*;
use vstd::std_specs::hash::*;

use crate::chunk::Chunk;
use crate::coord::{axis_in_chunk_range, chunk_of, local_of, ChunkCoord, ChunkLocalCoord, WorldCoord};
use crate::voxel::Voxel;

verus! {

broadcast use group_hash_axioms;

/// The map key of a chunk coordinate: each axis shifted to `[0, 65536)` and
/// packed into 16 bits.
pub open spec fn key_of(c: ChunkCoord) -> u64 {
    ((c.x as int + 32768) + (c.y as int + 32768) * 65536 + (c.z as int + 32768) * 4294967296) as u64
}

/// The map key of a chunk coordinate.
pub fn chunk_key(c: ChunkCoord) -> (r: u64)
    ensures
        r == key_of(c),
{
    let x = (c.x as i64 + 32768) as u64;
    let y = (c.y as i64 + 32768) as u64;
    let z = (c.z as i64 + 32768) as u64;
    x + y * 65536 + z * 4294967296
}

/// Distinct chunk coordinates have distinct keys.
pub proof fn lemma_key_injective(a: ChunkCoord, b: ChunkCoord)
    ensures
        key_of(a) == key_of(b) <==> a == b,
{
    let (ax, ay, az) = (a.x as int + 32768, a.y as int + 32768, a.z as int + 32768);
    let (bx, by, bz) = (b.x as int + 32768, b.y as int + 32768, b.z as int + 32768);
    if key_of(a) == key_of(b) {
        assert(ax + ay * 65536 + az * 4294967296 == bx + by * 65536 + bz * 4294967296);
        assert(az == bz);
        assert(ay == by);
        assert(ax == bx);
    }
}

/// A world position lies in a chunk that a `ChunkCoord` can name.
pub fn in_chunk_range(w: WorldCoord) -> (r: bool)
    ensures
        r == w.in_chunk_range(),
{
    proof {
        lemma_axis_range(w.x as int);
        lemma_axis_range(w.y as int);
        lemma_axis_range(w.z as int);
    }
    -1048576 <= w.x && w.x < 1048576 && -1048576 <= w.y && w.y < 1048576 && -1048576 <= w.z
        && w.z < 1048576
}

proof fn lemma_axis_range(a: int)
    ensures
        axis_in_chunk_range(a) <==> -1048576 <= a < 1048576,
{
}

/// Read-only access to a set of loaded chunks, keyed by `chunk_key`.
pub struct WorldAccessor {
    pub chunks: HashMap<u64, Chunk>,
}

/// Every chunk of the map is well formed and stored under its own key.
pub open spec fn chunks_wf(m: Map<u64, Chunk>) -> bool {
    forall|k: u64| #[trigger] m.contains_key(k) ==> m[k].wf() && key_of(m[k].coord) == k
}

/// The loaded chunk at `c`, if any.
pub open spec fn chunk_in(m: Map<u64, Chunk>, c: ChunkCoord) -> Option<Chunk> {
    if m.contains_key(key_of(c)) {
        Some(m[key_of(c)])
    } else {
        None
    }
}

/// The voxel at world position `w` among the chunks of `m`: `None` where its
/// chunk is not loaded or cannot be named.
pub open spec fn voxel_in(m: Map<u64, Chunk>, w: WorldCoord) -> Option<Voxel> {
    if w.in_chunk_range() && m.contains_key(key_of(chunk_of(w))) {
        Some(m[key_of(chunk_of(w))].voxel_at(local_of(w)))
    } else {
        None
    }
}

impl WorldAccessor {
    pub open spec fn wf(&self) -> bool {
        chunks_wf(self.chunks@)
    }

    /// The voxel at `w` as this accessor sees it.
    pub open spec fn spec_voxel(&self, w: WorldCoord) -> Option<Voxel> {
        voxel_in(self.chunks@, w)
    }

    /// The voxel at `coord`, or `None` where its chunk is not loaded.
    pub fn get_voxel(&self, coord: WorldCoord) -> (r: Option<Voxel>)
        requires
            self.wf(),
        ensures
            r == self.spec_voxel(coord),
            r matches Some(v) ==> v.is_registered(),
    {
        if !in_chunk_range(coord) {
            return None;
        }
        let chunk_coord: ChunkCoord = coord.into();
        let local_coord: ChunkLocalCoord = coord.into();
        proof {
            crate::coord::lemma_coordinate_round_trip(coord);
        }
        match self.chunks.get(&chunk_key(chunk_coord)) {
            Some(chunk) => chunk.get_voxel(local_coord),
            None => None,
        }
    }
}

} // verus!
