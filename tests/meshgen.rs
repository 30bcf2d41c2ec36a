use std::collections::HashMap;

use voxelgame::accessor::{chunk_key, WorldAccessor};
use voxelgame::chunk::Chunk;
use voxelgame::coord::{ChunkCoord, ChunkLocalCoord, WorldCoord};
use voxelgame::mesh::{MeshInfo, MeshVertex};
use voxelgame::meshgen::{generate_mesh_lod, FaceOrientation, LodLevel};
use voxelgame::voxel::{Blocks, Voxel};

fn empty_accessor() -> WorldAccessor {
    WorldAccessor { chunks: HashMap::new() }
}

fn filled(coord: ChunkCoord, voxel: Voxel) -> Chunk {
    let mut c = Chunk::new(coord);
    for x in 0..32 {
        for y in 0..32 {
            for z in 0..32 {
                c.set_voxel(ChunkLocalCoord { x, y, z }, voxel);
            }
        }
    }
    c
}

fn single(coord: ChunkCoord, at: ChunkLocalCoord, voxel: Voxel) -> Chunk {
    let mut c = Chunk::new(coord);
    c.set_voxel(at, voxel);
    c
}

fn v(x: u32, y: u32, z: u32, n: (i8, i8, i8), u: u32, w: u32) -> MeshVertex {
    MeshVertex { x, y, z, normal_x: n.0, normal_y: n.1, normal_z: n.2, u, v: w }
}

#[test]
fn single_voxel_in_air_has_six_faces() {
    let stone = Blocks::stone().default_state();
    let chunk = single(ChunkCoord { x: 0, y: 0, z: 0 }, ChunkLocalCoord { x: 5, y: 5, z: 5 }, stone);
    let mesh = generate_mesh_lod(Box::new(chunk), empty_accessor(), LodLevel::_0).unwrap();
    assert_eq!(mesh.vertices.len(), 24);
    assert_eq!(mesh.indices.len(), 36);
}

#[test]
fn single_voxel_face_values() {
    let stone = Blocks::stone().default_state();
    let chunk = single(ChunkCoord { x: 0, y: 0, z: 0 }, ChunkLocalCoord { x: 5, y: 5, z: 5 }, stone);
    let mesh = generate_mesh_lod(Box::new(chunk), empty_accessor(), LodLevel::_0).unwrap();
    let left = (-1, 0, 0);
    assert_eq!(mesh.vertices[0], v(5, 5, 6, left, 1, 1));
    assert_eq!(mesh.vertices[1], v(5, 5, 5, left, 2, 1));
    assert_eq!(mesh.vertices[2], v(5, 6, 5, left, 2, 0));
    assert_eq!(mesh.vertices[3], v(5, 6, 6, left, 1, 0));
    assert_eq!(&mesh.indices[0..6], &[0, 2, 1, 0, 3, 2]);
    let back = (0, 0, 1);
    assert_eq!(mesh.vertices[16], v(5, 5, 6, back, 2, 1));
    assert_eq!(&mesh.indices[24..30], &[16, 17, 18, 16, 18, 19]);
    assert_eq!(&mesh.indices[18..24], &[12, 13, 14, 12, 14, 15]);
    let front = (0, 0, -1);
    assert_eq!(mesh.vertices[20], v(5, 5, 5, front, 1, 1));
}

#[test]
fn grass_block_faces_use_their_own_textures() {
    let grass = Blocks::grass_block().default_state();
    let chunk = single(ChunkCoord { x: 0, y: 0, z: 0 }, ChunkLocalCoord { x: 1, y: 1, z: 1 }, grass);
    let mesh = generate_mesh_lod(Box::new(chunk), empty_accessor(), LodLevel::_0).unwrap();
    assert_eq!(mesh.vertices[0].u, 3);
    assert_eq!(mesh.vertices[8].u, 2);
    assert_eq!(mesh.vertices[8].normal_y, 1);
    assert_eq!(mesh.vertices[12].u, 4);
    assert_eq!(mesh.vertices[12].normal_y, -1);
}

#[test]
fn enclosed_voxel_emits_nothing() {
    let stone = Blocks::stone().default_state();
    let origin = ChunkCoord { x: 0, y: 0, z: 0 };
    let chunk = filled(origin, stone);
    let mut chunks = HashMap::new();
    for n in [origin.left(), origin.right(), origin.up(), origin.down(), origin.front(), origin.back()] {
        chunks.insert(chunk_key(n), filled(n, stone));
    }
    let mesh = generate_mesh_lod(Box::new(chunk), WorldAccessor { chunks }, LodLevel::_0);
    assert!(mesh.is_none());
}

#[test]
fn empty_chunk_emits_nothing() {
    let chunk = Chunk::new(ChunkCoord { x: 3, y: -3, z: 0 });
    assert!(generate_mesh_lod(Box::new(chunk), empty_accessor(), LodLevel::_0).is_none());
}

#[test]
fn solid_chunk_without_neighbours_shows_its_shell() {
    let chunk = filled(ChunkCoord { x: 0, y: 0, z: 0 }, Blocks::dirt_block().default_state());
    let mesh = generate_mesh_lod(Box::new(chunk), empty_accessor(), LodLevel::_0).unwrap();
    assert_eq!(mesh.vertices.len(), 6 * 32 * 32 * 4);
    assert_eq!(mesh.indices.len(), 6 * 32 * 32 * 6);
    assert_eq!(*mesh.indices.last().unwrap() as usize, mesh.vertices.len() - 1);
}

#[test]
fn coarse_level_scales_faces() {
    let stone = Blocks::stone().default_state();
    let chunk = single(ChunkCoord { x: 0, y: 0, z: 0 }, ChunkLocalCoord { x: 4, y: 4, z: 4 }, stone);
    let mesh = generate_mesh_lod(Box::new(chunk), empty_accessor(), LodLevel::_1).unwrap();
    assert_eq!(mesh.vertices.len(), 24);
    assert_eq!(mesh.vertices[0], v(4, 4, 6, (-1, 0, 0), 1, 1));
    assert_eq!(mesh.vertices[2], v(4, 6, 4, (-1, 0, 0), 2, 0));
}

#[test]
fn coarse_level_skips_unvisited_voxels() {
    let stone = Blocks::stone().default_state();
    let chunk = single(ChunkCoord { x: 0, y: 0, z: 0 }, ChunkLocalCoord { x: 5, y: 5, z: 5 }, stone);
    assert!(generate_mesh_lod(Box::new(chunk), empty_accessor(), LodLevel::_1).is_none());
}

#[test]
fn neighbour_chunk_culls_boundary_face() {
    let stone = Blocks::stone().default_state();
    let origin = ChunkCoord { x: 0, y: 0, z: 0 };
    let chunk = single(origin, ChunkLocalCoord { x: 0, y: 5, z: 5 }, stone);
    let left = origin.left();
    let neighbour = single(left, ChunkLocalCoord { x: 31, y: 5, z: 5 }, stone);
    let mut chunks = HashMap::new();
    chunks.insert(chunk_key(left), neighbour);
    let mesh = generate_mesh_lod(Box::new(chunk), WorldAccessor { chunks }, LodLevel::_0).unwrap();
    assert_eq!(mesh.vertices.len(), 20);
    assert!(mesh.vertices.iter().all(|v| v.normal_x != -1));
}

#[test]
fn step_sizes_and_texture_slots() {
    assert_eq!(LodLevel::_0.to_step_size(), 1);
    assert_eq!(LodLevel::_1.to_step_size(), 2);
    assert_eq!(LodLevel::_2.to_step_size(), 4);
    assert_eq!(LodLevel::_3.to_step_size(), 8);
    assert_eq!(FaceOrientation::Left.to_texture_id(), 0);
    assert_eq!(FaceOrientation::Right.to_texture_id(), 1);
    assert_eq!(FaceOrientation::Top.to_texture_id(), 2);
    assert_eq!(FaceOrientation::Bottom.to_texture_id(), 3);
    assert_eq!(FaceOrientation::Back.to_texture_id(), 4);
    assert_eq!(FaceOrientation::Front.to_texture_id(), 5);
}

#[test]
fn accessor_reads_loaded_chunks_only() {
    let stone = Blocks::stone().default_state();
    let coord = ChunkCoord { x: -1, y: 0, z: 0 };
    let mut chunks = HashMap::new();
    chunks.insert(chunk_key(coord), single(coord, ChunkLocalCoord { x: 31, y: 0, z: 0 }, stone));
    let accessor = WorldAccessor { chunks };
    assert_eq!(accessor.get_voxel(WorldCoord { x: -1, y: 0, z: 0 }), Some(stone));
    assert_eq!(accessor.get_voxel(WorldCoord { x: -2, y: 0, z: 0 }), Some(Voxel { id: 0 }));
    assert_eq!(accessor.get_voxel(WorldCoord { x: 0, y: 0, z: 0 }), None);
    assert_eq!(accessor.get_voxel(WorldCoord { x: -1, y: 2000000, z: 0 }), None);
}

#[test]
fn chunk_keys_differ() {
    let a = chunk_key(ChunkCoord { x: 0, y: 0, z: 0 });
    let b = chunk_key(ChunkCoord { x: -1, y: 0, z: 0 });
    let c = chunk_key(ChunkCoord { x: 0, y: 1, z: 0 });
    assert!(a != b && b != c && a != c);
    assert_eq!(chunk_key(ChunkCoord { x: i16::MIN, y: i16::MIN, z: i16::MIN }), 0);
}

#[test]
fn merge_shifts_indices() {
    let mut a: MeshInfo<u8> = MeshInfo { vertices: vec![1, 2, 3], indices: vec![0, 1, 2] };
    let b: MeshInfo<u8> = MeshInfo { vertices: vec![4, 5], indices: vec![1, 0] };
    a.merge(b);
    assert_eq!(a.vertices, vec![1, 2, 3, 4, 5]);
    assert_eq!(a.indices, vec![0, 1, 2, 4, 3]);
}

#[test]
fn transform_vertices_maps_each_vertex() {
    let mut m: MeshInfo<u32> = MeshInfo::new();
    assert!(m.vertices.is_empty() && m.indices.is_empty());
    m.vertices = vec![1, 2, 3];
    m.indices = vec![0, 2, 1];
    m.transform_vertices(|v| v * 10);
    assert_eq!(m.vertices, vec![10, 20, 30]);
    assert_eq!(m.indices, vec![0, 2, 1]);
}
