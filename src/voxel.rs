//! Voxels and the fixed registry of block kinds they refer to.

use vstd::prelude::*;

verus! {

/// Number of block kinds in the registry; valid ids are `0..BLOCK_COUNT`.
pub const BLOCK_COUNT: u8 = 5;

/// Id of air, the empty block.
pub const AIR_ID: u8 = 0;

/// A single voxel: the id of its block kind.
#[derive(Clone, Copy, Debug, PartialEq, Eq, Structural)]
pub struct Voxel {
    pub id: u8,
}

impl Voxel {
    /// The id names a block kind of the registry.
    pub open spec fn is_registered(self) -> bool {
        self.id < BLOCK_COUNT
    }
}

impl Default for Voxel {
    /// Air.
    fn default() -> (r: Voxel)
        ensures
            r.id == AIR_ID,
    {
        Voxel { id: AIR_ID }
    }
}

/// Whether faces next to a block of this id are drawn.
pub open spec fn spec_transparent(id: u8) -> bool {
    id == AIR_ID
}

/// Whether a ray stops at a block of this id.
pub open spec fn spec_solid(id: u8) -> bool {
    id != AIR_ID
}

/// Texture ids of a block kind, in face order left, right, top, bottom, back, front.
pub open spec fn spec_texture_ids(id: u8) -> Seq<usize> {
    if id == 0 {
        seq![0, 0, 0, 0, 0, 0]
    } else if id == 1 {
        seq![1, 1, 1, 1, 1, 1]
    } else if id == 2 {
        seq![3, 3, 2, 4, 3, 3]
    } else if id == 3 {
        seq![4, 4, 4, 4, 4, 4]
    } else {
        seq![5, 5, 6, 6, 5, 5]
    }
}

/// Display name of a block kind.
pub open spec fn spec_block_name(id: u8) -> Seq<char> {
    if id == 0 {
        "Air"@
    } else if id == 1 {
        "Stone"@
    } else if id == 2 {
        "Grass Block"@
    } else if id == 3 {
        "Dirt"@
    } else {
        "Log"@
    }
}

/// Static description of a block kind.
#[derive(Clone, Copy, Debug)]
pub struct RegisteredBlock {
    pub name: &'static str,
    pub transparent: bool,
    pub solid: bool,
    /// Texture ids in face order: left, right, top, bottom, back, front.
    pub texture_ids: [usize; 6],
    pub default_state: Voxel,
}

impl RegisteredBlock {
    /// This is the registry's entry for `id`.
    pub open spec fn describes(self, id: u8) -> bool {
        &&& id < BLOCK_COUNT
        &&& self.name@ == spec_block_name(id)
        &&& self.transparent == spec_transparent(id)
        &&& self.solid == spec_solid(id)
        &&& self.texture_ids@ == spec_texture_ids(id)
        &&& self.default_state.id == id
    }

    /// The canonical voxel of this block kind.
    pub fn default_state(&self) -> (r: Voxel)
        ensures
            r == self.default_state,
    {
        self.default_state
    }
}

/// The block registry.
pub struct Blocks;

impl Blocks {
    pub fn air() -> (r: RegisteredBlock)
        ensures
            r.describes(0),
    {
        proof {
            reveal_strlit("Air");
        }
        RegisteredBlock {
            name: "Air",
            transparent: true,
            solid: false,
            texture_ids: [0, 0, 0, 0, 0, 0],
            default_state: Voxel { id: 0 },
        }
    }

    pub fn stone() -> (r: RegisteredBlock)
        ensures
            r.describes(1),
    {
        proof {
            reveal_strlit("Stone");
        }
        RegisteredBlock {
            name: "Stone",
            transparent: false,
            solid: true,
            texture_ids: [1, 1, 1, 1, 1, 1],
            default_state: Voxel { id: 1 },
        }
    }

    pub fn grass_block() -> (r: RegisteredBlock)
        ensures
            r.describes(2),
    {
        proof {
            reveal_strlit("Grass Block");
        }
        RegisteredBlock {
            name: "Grass Block",
            transparent: false,
            solid: true,
            texture_ids: [3, 3, 2, 4, 3, 3],
            default_state: Voxel { id: 2 },
        }
    }

    pub fn dirt_block() -> (r: RegisteredBlock)
        ensures
            r.describes(3),
    {
        proof {
            reveal_strlit("Dirt");
        }
        RegisteredBlock {
            name: "Dirt",
            transparent: false,
            solid: true,
            texture_ids: [4, 4, 4, 4, 4, 4],
            default_state: Voxel { id: 3 },
        }
    }

    pub fn log() -> (r: RegisteredBlock)
        ensures
            r.describes(4),
    {
        proof {
            reveal_strlit("Log");
        }
        RegisteredBlock {
            name: "Log",
            transparent: false,
            solid: true,
            texture_ids: [5, 5, 6, 6, 5, 5],
            default_state: Voxel { id: 4 },
        }
    }

    /// The registry's entry for a registered id.
    pub fn by_id(id: u8) -> (r: RegisteredBlock)
        requires
            id < BLOCK_COUNT,
        ensures
            r.describes(id),
    {
        match id {
            0 => Self::air(),
            1 => Self::stone(),
            2 => Self::grass_block(),
            3 => Self::dirt_block(),
            _ => Self::log(),
        }
    }
}

} // verus!
