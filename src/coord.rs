//! World, chunk and chunk-local coordinates, and the conversions between them.

use vstd::prelude::*;

verus! {

/// Edge length of a chunk, in voxels.
pub const CHUNK_SIZE: usize = 32;

/// Number of voxels in one chunk.
pub const CHUNK_SIZE_ITEMS: usize = CHUNK_SIZE * CHUNK_SIZE * CHUNK_SIZE;

/// Floor division of a world axis by the chunk size.
pub open spec fn floor_div(a: int) -> int {
    a / (CHUNK_SIZE as int)
}

/// Non-negative remainder of a world axis by the chunk size.
pub open spec fn floor_mod(a: int) -> int {
    a % (CHUNK_SIZE as int)
}

/// The chunk index of a world axis fits an `i16`.
pub open spec fn axis_in_chunk_range(a: int) -> bool {
    i16::MIN <= floor_div(a) <= i16::MAX
}

/// Floor division by the chunk size of an `i32`, computed on non-negative values.
fn floor_div_i32(a: i32) -> (r: i32)
    ensures
        r as int == floor_div(a as int),
{
    if a >= 0 {
        (a as u32 / 32) as i32
    } else {
        let m: u32 = (-(a + 1)) as u32;
        let q: i32 = (m / 32) as i32;
        assert(q as int * 32 <= m as int && m as int <= q as int * 32 + 31);
        assert((-q - 1) * 32 <= a as int && a as int <= (-q - 1) * 32 + 31);
        proof {
            lemma_floor_div_unique(a as int, -q - 1);
        }
        -q - 1
    }
}

pub proof fn lemma_floor_div_unique(a: int, q: int)
    requires
        q * 32 <= a < q * 32 + 32,
    ensures
        floor_div(a) == q,
        floor_mod(a) == a - q * 32,
{
}

/// An absolute voxel position.
#[derive(Clone, Copy, Debug, PartialEq, Eq, Structural, Hash)]
pub struct WorldCoord {
    pub x: i32,
    pub y: i32,
    pub z: i32,
}

/// A voxel position relative to the origin of a chunk; it may lie outside the chunk.
#[derive(Clone, Copy, Debug, PartialEq, Eq, Structural, Hash)]
pub struct BlockOffsetCoord {
    pub x: i32,
    pub y: i32,
    pub z: i32,
}

/// A voxel index inside a chunk; each axis lies in `[0, CHUNK_SIZE)` for a valid value.
#[derive(Clone, Copy, Debug, PartialEq, Eq, Structural, Hash)]
pub struct ChunkLocalCoord {
    pub x: usize,
    pub y: usize,
    pub z: usize,
}

/// The position of a chunk, in chunk units.
#[derive(Clone, Copy, Debug, PartialEq, Eq, Structural, Hash)]
pub struct ChunkCoord {
    pub x: i16,
    pub y: i16,
    pub z: i16,
}

impl WorldCoord {
    /// Every axis of this position lies in a chunk whose index fits an `i16`.
    pub open spec fn in_chunk_range(self) -> bool {
        &&& axis_in_chunk_range(self.x as int)
        &&& axis_in_chunk_range(self.y as int)
        &&& axis_in_chunk_range(self.z as int)
    }

    /// The world position of `offset` taken from the origin of `chunk`, as integers.
    pub open spec fn spec_from_chunk_and_local(chunk: ChunkCoord, offset: BlockOffsetCoord) -> (int, int, int) {
        (
            chunk.x as int * CHUNK_SIZE as int + offset.x as int,
            chunk.y as int * CHUNK_SIZE as int + offset.y as int,
            chunk.z as int * CHUNK_SIZE as int + offset.z as int,
        )
    }

    /// The position as a triple of integers.
    pub open spec fn as_ints(self) -> (int, int, int) {
        (self.x as int, self.y as int, self.z as int)
    }

    /// The world position of `offset` taken from the origin of `chunk`.
    pub fn from_chunk_and_local(chunk_coord: ChunkCoord, offset: BlockOffsetCoord) -> (r: Self)
        requires
            fits_i32(Self::spec_from_chunk_and_local(chunk_coord, offset)),
        ensures
            r.as_ints() == Self::spec_from_chunk_and_local(chunk_coord, offset),
    {
        let chunk_world_coord: WorldCoord = chunk_coord.into();
        chunk_world_coord + offset
    }

    pub fn left(self) -> (r: Self)
        requires
            self.x > i32::MIN,
        ensures
            r == (WorldCoord { x: (self.x - 1) as i32, ..self }),
    {
        Self { x: self.x - 1, y: self.y, z: self.z }
    }

    pub fn right(self) -> (r: Self)
        requires
            self.x < i32::MAX,
        ensures
            r == (WorldCoord { x: (self.x + 1) as i32, ..self }),
    {
        Self { x: self.x + 1, y: self.y, z: self.z }
    }

    pub fn front(self) -> (r: Self)
        requires
            self.z > i32::MIN,
        ensures
            r == (WorldCoord { z: (self.z - 1) as i32, ..self }),
    {
        Self { x: self.x, y: self.y, z: self.z - 1 }
    }

    pub fn back(self) -> (r: Self)
        requires
            self.z < i32::MAX,
        ensures
            r == (WorldCoord { z: (self.z + 1) as i32, ..self }),
    {
        Self { x: self.x, y: self.y, z: self.z + 1 }
    }

    pub fn up(self) -> (r: Self)
        requires
            self.y < i32::MAX,
        ensures
            r == (WorldCoord { y: (self.y + 1) as i32, ..self }),
    {
        Self { x: self.x, y: self.y + 1, z: self.z }
    }

    pub fn down(self) -> (r: Self)
        requires
            self.y > i32::MIN,
        ensures
            r == (WorldCoord { y: (self.y - 1) as i32, ..self }),
    {
        Self { x: self.x, y: self.y - 1, z: self.z }
    }
}

/// Each component of the triple fits an `i32`.
pub open spec fn fits_i32(t: (int, int, int)) -> bool {
    &&& i32::MIN <= t.0 <= i32::MAX
    &&& i32::MIN <= t.1 <= i32::MAX
    &&& i32::MIN <= t.2 <= i32::MAX
}

impl core::ops::Add<BlockOffsetCoord> for WorldCoord {
    type Output = WorldCoord;

    fn add(self, rhs: BlockOffsetCoord) -> (r: WorldCoord) {
        WorldCoord { x: self.x + rhs.x, y: self.y + rhs.y, z: self.z + rhs.z }
    }
}

impl vstd::std_specs::ops::AddSpecImpl<BlockOffsetCoord> for WorldCoord {
    open spec fn obeys_add_spec() -> bool {
        true
    }

    open spec fn add_req(self, rhs: BlockOffsetCoord) -> bool {
        fits_i32((self.x + rhs.x, self.y + rhs.y, self.z + rhs.z))
    }

    open spec fn add_spec(self, rhs: BlockOffsetCoord) -> WorldCoord {
        WorldCoord {
            x: (self.x + rhs.x) as i32,
            y: (self.y + rhs.y) as i32,
            z: (self.z + rhs.z) as i32,
        }
    }
}

impl core::ops::Sub<WorldCoord> for WorldCoord {
    type Output = BlockOffsetCoord;

    fn sub(self, rhs: WorldCoord) -> (r: BlockOffsetCoord) {
        BlockOffsetCoord { x: self.x - rhs.x, y: self.y - rhs.y, z: self.z - rhs.z }
    }
}

impl vstd::std_specs::ops::SubSpecImpl<WorldCoord> for WorldCoord {
    open spec fn obeys_sub_spec() -> bool {
        true
    }

    open spec fn sub_req(self, rhs: WorldCoord) -> bool {
        fits_i32((self.x - rhs.x, self.y - rhs.y, self.z - rhs.z))
    }

    open spec fn sub_spec(self, rhs: WorldCoord) -> BlockOffsetCoord {
        BlockOffsetCoord {
            x: (self.x - rhs.x) as i32,
            y: (self.y - rhs.y) as i32,
            z: (self.z - rhs.z) as i32,
        }
    }
}

impl From<ChunkCoord> for WorldCoord {
    /// The world position of the chunk's origin voxel.
    fn from(c: ChunkCoord) -> (r: WorldCoord) {
        WorldCoord { x: c.x as i32 * 32, y: c.y as i32 * 32, z: c.z as i32 * 32 }
    }
}

impl vstd::std_specs::convert::FromSpecImpl<ChunkCoord> for WorldCoord {
    open spec fn obeys_from_spec() -> bool {
        true
    }

    open spec fn from_spec(c: ChunkCoord) -> WorldCoord {
        WorldCoord {
            x: (c.x * CHUNK_SIZE as int) as i32,
            y: (c.y * CHUNK_SIZE as int) as i32,
            z: (c.z * CHUNK_SIZE as int) as i32,
        }
    }
}

/// Non-negative remainder by the chunk size of an `i32`.
fn floor_mod_i32(a: i32) -> (r: usize)
    ensures
        r as int == floor_mod(a as int),
        r < CHUNK_SIZE,
{
    let q = floor_div_i32(a);
    proof {
        lemma_floor_bounds(a as int);
    }
    (a - q * 32) as usize
}

proof fn lemma_floor_bounds(a: int)
    ensures
        floor_div(a) * 32 <= a < floor_div(a) * 32 + 32,
        floor_mod(a) == a - floor_div(a) * 32,
        0 <= floor_mod(a) < 32,
        i32::MIN <= a <= i32::MAX ==> -67108864 <= floor_div(a) < 67108864,
{
}

impl BlockOffsetCoord {
    pub fn left(self) -> (r: Self)
        requires
            self.x > i32::MIN,
        ensures
            r == (BlockOffsetCoord { x: (self.x - 1) as i32, ..self }),
    {
        Self { x: self.x - 1, y: self.y, z: self.z }
    }

    pub fn right(self) -> (r: Self)
        requires
            self.x < i32::MAX,
        ensures
            r == (BlockOffsetCoord { x: (self.x + 1) as i32, ..self }),
    {
        Self { x: self.x + 1, y: self.y, z: self.z }
    }

    pub fn up(self) -> (r: Self)
        requires
            self.y < i32::MAX,
        ensures
            r == (BlockOffsetCoord { y: (self.y + 1) as i32, ..self }),
    {
        Self { x: self.x, y: self.y + 1, z: self.z }
    }

    pub fn down(self) -> (r: Self)
        requires
            self.y > i32::MIN,
        ensures
            r == (BlockOffsetCoord { y: (self.y - 1) as i32, ..self }),
    {
        Self { x: self.x, y: self.y - 1, z: self.z }
    }

    pub fn front(self) -> (r: Self)
        requires
            self.z > i32::MIN,
        ensures
            r == (BlockOffsetCoord { z: (self.z - 1) as i32, ..self }),
    {
        Self { x: self.x, y: self.y, z: self.z - 1 }
    }

    pub fn back(self) -> (r: Self)
        requires
            self.z < i32::MAX,
        ensures
            r == (BlockOffsetCoord { z: (self.z + 1) as i32, ..self }),
    {
        Self { x: self.x, y: self.y, z: self.z + 1 }
    }
}

impl From<BlockOffsetCoord> for ChunkLocalCoord {
    /// Wraps each axis into the chunk, as the non-negative remainder by the chunk size.
    fn from(o: BlockOffsetCoord) -> (r: ChunkLocalCoord) {
        ChunkLocalCoord { x: floor_mod_i32(o.x), y: floor_mod_i32(o.y), z: floor_mod_i32(o.z) }
    }
}

impl vstd::std_specs::convert::FromSpecImpl<BlockOffsetCoord> for ChunkLocalCoord {
    open spec fn obeys_from_spec() -> bool {
        true
    }

    open spec fn from_spec(o: BlockOffsetCoord) -> ChunkLocalCoord {
        ChunkLocalCoord {
            x: floor_mod(o.x as int) as usize,
            y: floor_mod(o.y as int) as usize,
            z: floor_mod(o.z as int) as usize,
        }
    }
}

impl ChunkLocalCoord {
    /// Each axis lies inside the chunk.
    pub open spec fn is_valid(self) -> bool {
        &&& self.x < CHUNK_SIZE
        &&& self.y < CHUNK_SIZE
        &&& self.z < CHUNK_SIZE
    }

    /// The voxel one step to the left, or `None` where that leaves the chunk.
    pub fn left(self) -> (r: Option<Self>)
        ensures
            self.x == 0 ==> r is None,
            self.x != 0 ==> r == Some(ChunkLocalCoord { x: (self.x - 1) as usize, ..self }),
    {
        if self.x == 0 {
            return None;
        }
        Some(Self { x: self.x - 1, y: self.y, z: self.z })
    }

    /// The voxel one step to the right, or `None` where that leaves the chunk.
    pub fn right(self) -> (r: Option<Self>)
        requires
            self.x < CHUNK_SIZE,
        ensures
            self.x == CHUNK_SIZE - 1 ==> r is None,
            self.x != CHUNK_SIZE - 1 ==> r == Some(ChunkLocalCoord { x: (self.x + 1) as usize, ..self }),
    {
        if self.x == CHUNK_SIZE - 1 {
            return None;
        }
        Some(Self { x: self.x + 1, y: self.y, z: self.z })
    }

    /// The voxel one step up, or `None` where that leaves the chunk.
    pub fn up(self) -> (r: Option<Self>)
        requires
            self.y < CHUNK_SIZE,
        ensures
            self.y == CHUNK_SIZE - 1 ==> r is None,
            self.y != CHUNK_SIZE - 1 ==> r == Some(ChunkLocalCoord { y: (self.y + 1) as usize, ..self }),
    {
        if self.y == CHUNK_SIZE - 1 {
            return None;
        }
        Some(Self { x: self.x, y: self.y + 1, z: self.z })
    }

    /// The voxel one step down, or `None` where that leaves the chunk.
    pub fn down(self) -> (r: Option<Self>)
        ensures
            self.y == 0 ==> r is None,
            self.y != 0 ==> r == Some(ChunkLocalCoord { y: (self.y - 1) as usize, ..self }),
    {
        if self.y == 0 {
            return None;
        }
        Some(Self { x: self.x, y: self.y - 1, z: self.z })
    }

    /// The voxel one step to the front, or `None` where that leaves the chunk.
    pub fn front(self) -> (r: Option<Self>)
        ensures
            self.z == 0 ==> r is None,
            self.z != 0 ==> r == Some(ChunkLocalCoord { z: (self.z - 1) as usize, ..self }),
    {
        if self.z == 0 {
            return None;
        }
        Some(Self { x: self.x, y: self.y, z: self.z - 1 })
    }

    /// The voxel one step to the back, or `None` where that leaves the chunk.
    pub fn back(self) -> (r: Option<Self>)
        requires
            self.z < CHUNK_SIZE,
        ensures
            self.z == CHUNK_SIZE - 1 ==> r is None,
            self.z != CHUNK_SIZE - 1 ==> r == Some(ChunkLocalCoord { z: (self.z + 1) as usize, ..self }),
    {
        if self.z == CHUNK_SIZE - 1 {
            return None;
        }
        Some(Self { x: self.x, y: self.y, z: self.z + 1 })
    }
}

impl From<WorldCoord> for ChunkLocalCoord {
    /// The position of a voxel inside the chunk that holds it.
    fn from(w: WorldCoord) -> (r: ChunkLocalCoord) {
        ChunkLocalCoord { x: floor_mod_i32(w.x), y: floor_mod_i32(w.y), z: floor_mod_i32(w.z) }
    }
}

impl vstd::std_specs::convert::FromSpecImpl<WorldCoord> for ChunkLocalCoord {
    open spec fn obeys_from_spec() -> bool {
        true
    }

    open spec fn from_spec(w: WorldCoord) -> ChunkLocalCoord {
        local_of(w)
    }
}

impl ChunkCoord {
    /// The position as a triple of integers.
    pub open spec fn as_ints(self) -> (int, int, int) {
        (self.x as int, self.y as int, self.z as int)
    }

    pub fn left(self) -> (r: Self)
        requires
            self.x > i16::MIN,
        ensures
            r == (ChunkCoord { x: (self.x - 1) as i16, ..self }),
    {
        Self { x: self.x - 1, y: self.y, z: self.z }
    }

    pub fn right(self) -> (r: Self)
        requires
            self.x < i16::MAX,
        ensures
            r == (ChunkCoord { x: (self.x + 1) as i16, ..self }),
    {
        Self { x: self.x + 1, y: self.y, z: self.z }
    }

    pub fn front(self) -> (r: Self)
        requires
            self.z > i16::MIN,
        ensures
            r == (ChunkCoord { z: (self.z - 1) as i16, ..self }),
    {
        Self { x: self.x, y: self.y, z: self.z - 1 }
    }

    pub fn back(self) -> (r: Self)
        requires
            self.z < i16::MAX,
        ensures
            r == (ChunkCoord { z: (self.z + 1) as i16, ..self }),
    {
        Self { x: self.x, y: self.y, z: self.z + 1 }
    }

    pub fn up(self) -> (r: Self)
        requires
            self.y < i16::MAX,
        ensures
            r == (ChunkCoord { y: (self.y + 1) as i16, ..self }),
    {
        Self { x: self.x, y: self.y + 1, z: self.z }
    }

    pub fn down(self) -> (r: Self)
        requires
            self.y > i16::MIN,
        ensures
            r == (ChunkCoord { y: (self.y - 1) as i16, ..self }),
    {
        Self { x: self.x, y: self.y - 1, z: self.z }
    }
}

impl core::ops::Neg for ChunkCoord {
    type Output = ChunkCoord;

    fn neg(self) -> (r: ChunkCoord) {
        ChunkCoord { x: -self.x, y: -self.y, z: -self.z }
    }
}

impl vstd::std_specs::ops::NegSpecImpl for ChunkCoord {
    open spec fn obeys_neg_spec() -> bool {
        true
    }

    open spec fn neg_req(self) -> bool {
        self.x > i16::MIN && self.y > i16::MIN && self.z > i16::MIN
    }

    open spec fn neg_spec(self) -> ChunkCoord {
        ChunkCoord { x: (-self.x) as i16, y: (-self.y) as i16, z: (-self.z) as i16 }
    }
}

impl core::ops::Add for ChunkCoord {
    type Output = ChunkCoord;

    fn add(self, rhs: ChunkCoord) -> (r: ChunkCoord) {
        ChunkCoord { x: self.x + rhs.x, y: self.y + rhs.y, z: self.z + rhs.z }
    }
}

impl vstd::std_specs::ops::AddSpecImpl for ChunkCoord {
    open spec fn obeys_add_spec() -> bool {
        true
    }

    open spec fn add_req(self, rhs: ChunkCoord) -> bool {
        &&& i16::MIN <= self.x + rhs.x <= i16::MAX
        &&& i16::MIN <= self.y + rhs.y <= i16::MAX
        &&& i16::MIN <= self.z + rhs.z <= i16::MAX
    }

    open spec fn add_spec(self, rhs: ChunkCoord) -> ChunkCoord {
        ChunkCoord {
            x: (self.x + rhs.x) as i16,
            y: (self.y + rhs.y) as i16,
            z: (self.z + rhs.z) as i16,
        }
    }
}

impl From<WorldCoord> for ChunkCoord {
    /// The chunk that holds a voxel, by floor division of each axis; an index
    /// beyond the range of `i16` wraps.
    fn from(w: WorldCoord) -> (r: ChunkCoord) {
        let x = floor_div_i32(w.x);
        let y = floor_div_i32(w.y);
        let z = floor_div_i32(w.z);
        ChunkCoord {
            x: #[verifier::truncate] (x as i16),
            y: #[verifier::truncate] (y as i16),
            z: #[verifier::truncate] (z as i16),
        }
    }
}

impl vstd::std_specs::convert::FromSpecImpl<WorldCoord> for ChunkCoord {
    open spec fn obeys_from_spec() -> bool {
        true
    }

    open spec fn from_spec(w: WorldCoord) -> ChunkCoord {
        chunk_of(w)
    }
}

/// The chunk that holds `w`: floor division of each axis by the chunk size,
/// wrapped into `i16`.
pub open spec fn chunk_of(w: WorldCoord) -> ChunkCoord {
    ChunkCoord {
        x: floor_div(w.x as int) as i16,
        y: floor_div(w.y as int) as i16,
        z: floor_div(w.z as int) as i16,
    }
}

/// The index of `w` inside the chunk that holds it.
pub open spec fn local_of(w: WorldCoord) -> ChunkLocalCoord {
    ChunkLocalCoord {
        x: floor_mod(w.x as int) as usize,
        y: floor_mod(w.y as int) as usize,
        z: floor_mod(w.z as int) as usize,
    }
}

/// The offset from a chunk's origin that a chunk-local index stands for.
pub open spec fn offset_of_local(l: ChunkLocalCoord) -> BlockOffsetCoord {
    BlockOffsetCoord { x: l.x as i32, y: l.y as i32, z: l.z as i32 }
}

/// A world position whose chunk index fits `i16` is rebuilt exactly from its
/// chunk and its chunk-local index, negative axes included; the local index is
/// always inside the chunk.
pub proof fn lemma_coordinate_round_trip(w: WorldCoord)
    requires
        w.in_chunk_range(),
    ensures
        local_of(w).is_valid(),
        WorldCoord::spec_from_chunk_and_local(chunk_of(w), offset_of_local(local_of(w))) == w.as_ints(),
        chunk_of(w).as_ints() == (floor_div(w.x as int), floor_div(w.y as int), floor_div(w.z as int)),
{
    lemma_floor_bounds(w.x as int);
    lemma_floor_bounds(w.y as int);
    lemma_floor_bounds(w.z as int);
}

} // verus!
