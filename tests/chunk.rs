use voxelgame::chunk::Chunk;
use voxelgame::coord::{ChunkCoord, ChunkLocalCoord, CHUNK_SIZE, CHUNK_SIZE_ITEMS};
use voxelgame::debug::ModelName;
use voxelgame::voxel::{Blocks, Voxel, BLOCK_COUNT};

#[test]
fn new_chunk_is_air() {
    let c = Chunk::new(ChunkCoord { x: 1, y: 2, z: 3 });
    assert_eq!(c.coord, ChunkCoord { x: 1, y: 2, z: 3 });
    assert_eq!(c.chunk_data.len(), CHUNK_SIZE_ITEMS);
    assert!(c.chunk_data.iter().all(|v| v.id == 0));
    assert_eq!(c.get_voxel(ChunkLocalCoord { x: 31, y: 31, z: 31 }), Some(Voxel { id: 0 }));
}

#[test]
fn get_voxel_out_of_range_is_none() {
    let c = Chunk::new(ChunkCoord { x: 0, y: 0, z: 0 });
    assert_eq!(c.get_voxel(ChunkLocalCoord { x: CHUNK_SIZE, y: 0, z: 0 }), None);
    assert_eq!(c.get_voxel(ChunkLocalCoord { x: 0, y: CHUNK_SIZE, z: 0 }), None);
    assert_eq!(c.get_voxel(ChunkLocalCoord { x: 0, y: 0, z: 1000 }), None);
}

#[test]
fn set_voxel_writes_one_voxel() {
    let mut c = Chunk::new(ChunkCoord { x: 0, y: 0, z: 0 });
    let stone = Blocks::stone().default_state();
    c.set_voxel(ChunkLocalCoord { x: 1, y: 2, z: 3 }, stone);
    assert_eq!(c.get_voxel(ChunkLocalCoord { x: 1, y: 2, z: 3 }), Some(stone));
    assert_eq!(c.chunk_data[1 + 2 * 32 + 3 * 1024], stone);
    assert_eq!(c.chunk_data.iter().filter(|v| v.id != 0).count(), 1);
}

#[test]
fn set_voxel_out_of_range_is_ignored() {
    let mut c = Chunk::new(ChunkCoord { x: 0, y: 0, z: 0 });
    c.set_voxel(ChunkLocalCoord { x: CHUNK_SIZE, y: 0, z: 0 }, Blocks::stone().default_state());
    assert!(c.chunk_data.iter().all(|v| v.id == 0));
}

#[test]
fn duplicate_copies_contents() {
    let mut c = Chunk::new(ChunkCoord { x: 4, y: 0, z: -4 });
    c.set_voxel(ChunkLocalCoord { x: 0, y: 0, z: 0 }, Blocks::log().default_state());
    let d = c.duplicate();
    assert_eq!(d.coord, c.coord);
    assert_eq!(d.chunk_data, c.chunk_data);
}

#[test]
fn registry_entries() {
    assert_eq!(BLOCK_COUNT, 5);
    let air = Blocks::by_id(0);
    assert_eq!(air.name, "Air");
    assert!(air.transparent && !air.solid);
    assert_eq!(Blocks::by_id(1).name, "Stone");
    let grass = Blocks::by_id(2);
    assert_eq!(grass.name, "Grass Block");
    assert_eq!(grass.texture_ids, [3, 3, 2, 4, 3, 3]);
    assert!(!grass.transparent && grass.solid);
    assert_eq!(Blocks::by_id(3).texture_ids, [4; 6]);
    assert_eq!(Blocks::by_id(4).texture_ids, [5, 5, 6, 6, 5, 5]);
    for id in 0..BLOCK_COUNT {
        assert_eq!(Blocks::by_id(id).default_state(), Voxel { id });
    }
    assert_eq!(Blocks::dirt_block().default_state(), Voxel { id: 3 });
    assert_eq!(Blocks::grass_block().default_state(), Voxel { id: 2 });
    assert_eq!(Voxel::default(), Voxel { id: 0 });
    assert_eq!(Blocks::air().default_state(), Voxel::default());
}

#[test]
fn model_names_differ() {
    assert_ne!(ModelName::Cube, ModelName::Line);
}
