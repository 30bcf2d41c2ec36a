use std::collections::HashMap;

use voxelgame::accessor::{chunk_key, WorldAccessor};
use voxelgame::chunk::Chunk;
use voxelgame::coord::{ChunkCoord, ChunkLocalCoord, WorldCoord};
use voxelgame::meshgen::{generate_mesh_lod, LodLevel};
use voxelgame::voxel::{Blocks, Voxel};
use voxelgame::world::World;

fn origin() -> ChunkCoord {
    ChunkCoord { x: 0, y: 0, z: 0 }
}

fn six_neighbours(c: ChunkCoord) -> [ChunkCoord; 6] {
    [c.left(), c.right(), c.front(), c.back(), c.up(), c.down()]
}

#[test]
fn enqueue_chunk_twice_queues_one_job() {
    let mut world = World::new();
    let c = ChunkCoord { x: 2, y: -1, z: 7 };
    world.enqueue_chunk(c);
    world.enqueue_chunk(c);
    assert_eq!(world.chunks_enqueued_count(), 1);
    assert_eq!(world.take_generation_job(), Some(c));
    assert_eq!(world.take_generation_job(), None);
    world.enqueue_chunk(c);
    assert_eq!(world.chunks_enqueued_count(), 0);
}

#[test]
fn meshing_waits_for_all_neighbours() {
    let mut world = World::new();
    let c = origin();
    world.receive_chunk(vec![Chunk::new(c)]);
    world.enqueue_meshgen(c);
    assert_eq!(world.meshgen_queue_count(), 0);
    let ns = six_neighbours(c);
    for (i, n) in ns.iter().enumerate() {
        world.enqueue_meshgen(c);
        assert_eq!(world.meshgen_queue_count(), 0, "queued with {} neighbours", i);
        world.receive_chunk(vec![Chunk::new(*n)]);
    }
    assert_eq!(world.meshgen_queue_count(), 1);
    world.enqueue_meshgen(c);
    assert_eq!(world.meshgen_queue_count(), 1);
    let (chunk, accessor) = world.take_meshgen_job().unwrap();
    assert_eq!(chunk.coord, c);
    assert_eq!(accessor.chunks.len(), 6);
    assert_eq!(world.meshgen_queue_count(), 0);
    world.enqueue_meshgen(c);
    assert_eq!(world.meshgen_queue_count(), 0);
}

#[test]
fn meshing_waits_for_the_chunk_itself() {
    let mut world = World::new();
    let c = origin();
    world.receive_chunk(six_neighbours(c).iter().map(|n| Chunk::new(*n)).collect());
    world.enqueue_meshgen(c);
    assert_eq!(world.meshgen_queue_count(), 0);
    world.receive_chunk(vec![Chunk::new(c)]);
    assert_eq!(world.meshgen_queue_count(), 1);
    let (chunk, _) = world.take_meshgen_job().unwrap();
    assert_eq!(chunk.coord, c);
}

#[test]
fn meshing_job_without_chunk_is_requeued_later() {
    let mut world = World::new();
    let c = origin();
    let left = c.left();
    world.receive_chunk(vec![Chunk::new(c)]);
    world.set_voxel(WorldCoord { x: 0, y: 5, z: 5 }, Blocks::stone().default_state());
    assert_eq!(world.meshgen_queue_count(), 2);
    assert!(world.take_meshgen_job().is_some());
    assert!(world.take_meshgen_job().is_none());
    world.receive_chunk(six_neighbours(left).iter().map(|n| Chunk::new(*n)).filter(|ch| ch.coord != c).collect());
    world.receive_chunk(vec![Chunk::new(left)]);
    assert_eq!(world.meshgen_queue_count(), 1);
    let (chunk, _) = world.take_meshgen_job().unwrap();
    assert_eq!(chunk.coord, left);
}

#[test]
fn edit_on_left_face_remeshes_left_neighbour() {
    let mut world = World::new();
    world.receive_chunk(vec![Chunk::new(origin())]);
    let stone = Blocks::stone().default_state();
    world.set_voxel(WorldCoord { x: 0, y: 5, z: 5 }, stone);
    assert_eq!(world.get_voxel(WorldCoord { x: 0, y: 5, z: 5 }), Some(stone));
    assert_eq!(world.meshgen_queue_count(), 2);
    let (first, _) = world.take_meshgen_job().unwrap();
    assert_eq!(first.coord, origin());
    assert_eq!(first.get_voxel(ChunkLocalCoord { x: 0, y: 5, z: 5 }), Some(stone));
    assert!(world.take_meshgen_job().is_none());
    assert_eq!(world.meshgen_queue_count(), 0);
}

#[test]
fn interior_edit_remeshes_only_its_chunk() {
    let mut world = World::new();
    world.receive_chunk(vec![Chunk::new(origin())]);
    world.set_voxel(WorldCoord { x: 5, y: 5, z: 5 }, Blocks::log().default_state());
    assert_eq!(world.meshgen_queue_count(), 1);
    world.break_block(WorldCoord { x: 5, y: 5, z: 5 });
    assert_eq!(world.get_voxel(WorldCoord { x: 5, y: 5, z: 5 }), Some(Voxel { id: 0 }));
    assert_eq!(world.meshgen_queue_count(), 2);
}

#[test]
fn corner_edit_remeshes_three_neighbours() {
    let mut world = World::new();
    world.receive_chunk(vec![Chunk::new(origin())]);
    world.set_voxel(WorldCoord { x: 31, y: 0, z: 31 }, Blocks::stone().default_state());
    assert_eq!(world.meshgen_queue_count(), 4);
}

#[test]
fn edit_of_unloaded_chunk_is_dropped() {
    let mut world = World::new();
    world.set_voxel(WorldCoord { x: 100, y: 0, z: 0 }, Blocks::stone().default_state());
    assert_eq!(world.meshgen_queue_count(), 0);
    assert_eq!(world.get_voxel(WorldCoord { x: 100, y: 0, z: 0 }), None);
}

fn ray_samples(origin: (f32, f32, f32), direction: (f32, f32, f32)) -> Vec<WorldCoord> {
    let mut samples = Vec::new();
    let mut distance: f32 = 0.0;
    while distance < 32.0 {
        let p = (
            origin.0 + direction.0 * distance,
            origin.1 + direction.1 * distance,
            origin.2 + direction.2 * distance,
        );
        samples.push(WorldCoord { x: p.0.floor() as i32, y: p.1.floor() as i32, z: p.2.floor() as i32 });
        distance += 0.1;
    }
    samples
}

#[test]
fn ray_hits_single_solid_voxel() {
    let mut world = World::new();
    let mut chunk = Chunk::new(origin());
    chunk.set_voxel(ChunkLocalCoord { x: 0, y: 0, z: 0 }, Blocks::stone().default_state());
    world.receive_chunk(vec![chunk]);
    let samples = ray_samples((0.0, 0.0, 5.0), (0.0, 0.0, -1.0));
    let (i, voxel) = world.first_solid_hit(&samples).unwrap();
    assert_eq!(samples[i], WorldCoord { x: 0, y: 0, z: 0 });
    assert_eq!(voxel, Blocks::stone().default_state());
    let travelled = 0.1 * i as f32;
    assert!((4.0..=5.1).contains(&travelled));
    world.break_block(WorldCoord { x: 0, y: 0, z: 0 });
    assert_eq!(world.first_solid_hit(&samples), None);
}

#[test]
fn ray_without_samples_misses() {
    let world = World::new();
    assert_eq!(world.first_solid_hit(&Vec::new()), None);
}

#[test]
fn enqueue_around_covers_the_box() {
    let mut world = World::new();
    world.enqueue_chunks_around(WorldCoord { x: 40, y: -3, z: 0 }, 2, 1);
    assert_eq!(world.chunks_enqueued_count(), 27);
    assert_eq!(world.take_generation_job(), Some(ChunkCoord { x: 0, y: -2, z: -1 }));
    world.enqueue_chunks_around(WorldCoord { x: 40, y: -3, z: 0 }, 2, 1);
    assert_eq!(world.chunks_enqueued_count(), 26);
}

#[test]
fn reset_empties_everything() {
    let mut world = World::new();
    world.enqueue_chunk(origin());
    world.receive_chunk(vec![Chunk::new(origin())]);
    world.set_voxel(WorldCoord { x: 1, y: 1, z: 1 }, Blocks::stone().default_state());
    world.reset();
    assert_eq!(world.chunks_enqueued_count(), 0);
    assert_eq!(world.meshgen_queue_count(), 0);
    assert_eq!(world.get_voxel(WorldCoord { x: 1, y: 1, z: 1 }), None);
    world.enqueue_chunk(origin());
    assert_eq!(world.chunks_enqueued_count(), 1);
}

fn count_id(world: &World, id: u8, lo: i32, hi: i32) -> usize {
    let mut n = 0;
    for x in lo..hi {
        for y in lo..hi {
            for z in lo..hi {
                if world.get_voxel(WorldCoord { x, y, z }) == Some(Voxel { id }) {
                    n += 1;
                }
            }
        }
    }
    n
}

#[test]
fn radius_edit_fills_the_ball() {
    let mut world = World::new();
    world.receive_chunk(vec![Chunk::new(origin())]);
    world.set_voxels_radius(WorldCoord { x: 10, y: 10, z: 10 }, 2, Blocks::stone().default_state());
    assert_eq!(count_id(&world, 1, 0, 32), 30);
    assert_eq!(world.get_voxel(WorldCoord { x: 8, y: 10, z: 10 }), Some(Voxel { id: 1 }));
    assert_eq!(world.get_voxel(WorldCoord { x: 12, y: 10, z: 10 }), Some(Voxel { id: 0 }));
    assert_eq!(world.get_voxel(WorldCoord { x: 8, y: 8, z: 10 }), Some(Voxel { id: 0 }));
    assert_eq!(world.meshgen_queue_count(), 1);
}

#[test]
fn radius_edit_across_chunk_face() {
    let mut world = World::new();
    let left = origin().left();
    world.receive_chunk(vec![Chunk::new(origin()), Chunk::new(left)]);
    world.set_voxels_radius(WorldCoord { x: 0, y: 10, z: 10 }, 3, Blocks::dirt_block().default_state());
    assert_eq!(count_id(&world, 3, -32, 32), 120);
    assert_eq!(world.meshgen_queue_count(), 2);
    let (a, _) = world.take_meshgen_job().unwrap();
    let (b, _) = world.take_meshgen_job().unwrap();
    assert!((a.coord == origin() && b.coord == left) || (a.coord == left && b.coord == origin()));
}

#[test]
fn radius_edit_skips_unloaded_chunks() {
    let mut world = World::new();
    world.set_voxels_radius(WorldCoord { x: 0, y: 0, z: 0 }, 4, Blocks::stone().default_state());
    assert_eq!(world.meshgen_queue_count(), 0);
    world.receive_chunk(vec![Chunk::new(origin())]);
    world.set_voxels_radius(WorldCoord { x: 0, y: 0, z: 0 }, 0, Blocks::stone().default_state());
    assert_eq!(world.meshgen_queue_count(), 0);
}

fn terrain(coord: ChunkCoord, seed: usize) -> Chunk {
    let mut c = Chunk::new(coord);
    for x in 0..32 {
        for y in 0..32 {
            for z in 0..32 {
                if (x * 7 + y * 13 + z * 3 + seed) % 5 < 2 {
                    c.set_voxel(ChunkLocalCoord { x, y, z }, Blocks::stone().default_state());
                }
            }
        }
    }
    c
}

#[test]
fn meshing_a_job_matches_meshing_against_the_world() {
    let c = origin();
    let mut coords = vec![c];
    coords.extend_from_slice(&six_neighbours(c));
    coords.push(ChunkCoord { x: 1, y: 1, z: 0 });
    let mut world = World::new();
    let mut all = HashMap::new();
    for (i, coord) in coords.iter().enumerate() {
        world.receive_chunk(vec![terrain(*coord, i)]);
        all.insert(chunk_key(*coord), terrain(*coord, i));
    }
    let (chunk, accessor) = world.take_meshgen_job().unwrap();
    assert_eq!(chunk.coord, c);
    let from_job = generate_mesh_lod(chunk, accessor, LodLevel::_0).unwrap();
    let from_world = generate_mesh_lod(Box::new(terrain(c, 0)), WorldAccessor { chunks: all }, LodLevel::_0).unwrap();
    assert_eq!(from_job.vertices, from_world.vertices);
    assert_eq!(from_job.indices, from_world.indices);
}
