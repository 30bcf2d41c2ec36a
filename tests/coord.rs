use voxelgame::coord::{BlockOffsetCoord, ChunkCoord, ChunkLocalCoord, WorldCoord, CHUNK_SIZE};

#[test]
fn positive_negative_test() {
    assert_eq!(1 / 16, 0);
    assert_eq!(-1 / 16, 0);
    assert_eq!(-17 / 16, -1);
    assert_eq!(17 / 16, 1);
    assert_eq!(16 / 16, 1);
    assert_eq!(-16 / 16, -1);
    assert_eq!(-16 % 16, 0);
    assert_eq!(-15 % 16, -15);
}

#[test]
fn coord_test() {
    let test_batches = [
        (
            WorldCoord { x: CHUNK_SIZE as i32, y: CHUNK_SIZE as i32, z: CHUNK_SIZE as i32 },
            ChunkCoord { x: 1, y: 1, z: 1 },
            ChunkLocalCoord { x: 0, y: 0, z: 0 },
        ),
        (
            WorldCoord { x: -1, y: CHUNK_SIZE as i32, z: CHUNK_SIZE as i32 },
            ChunkCoord { x: -1, y: 1, z: 1 },
            ChunkLocalCoord { x: CHUNK_SIZE - 1, y: 0, z: 0 },
        ),
        (
            WorldCoord { x: -(CHUNK_SIZE as i32), y: CHUNK_SIZE as i32, z: CHUNK_SIZE as i32 },
            ChunkCoord { x: -1, y: 1, z: 1 },
            ChunkLocalCoord { x: 0, y: 0, z: 0 },
        ),
    ];

    for (world, expected_chunk, expected_local) in test_batches {
        let chunk_coord: ChunkCoord = world.into();
        let local_coord: ChunkLocalCoord = world.into();

        assert_eq!(chunk_coord, expected_chunk);
        assert_eq!(local_coord, expected_local);
    }
}

fn round_trip(w: WorldCoord) -> WorldCoord {
    let chunk: ChunkCoord = w.into();
    let local: ChunkLocalCoord = w.into();
    let offset = BlockOffsetCoord { x: local.x as i32, y: local.y as i32, z: local.z as i32 };
    WorldCoord::from_chunk_and_local(chunk, offset)
}

#[test]
fn round_trip_rebuilds_world_coordinates() {
    let samples = [
        WorldCoord { x: 0, y: 0, z: 0 },
        WorldCoord { x: -1, y: -1, z: -1 },
        WorldCoord { x: 31, y: 32, z: 33 },
        WorldCoord { x: -32, y: -33, z: -64 },
        WorldCoord { x: 1048575, y: -1048576, z: 12345 },
        WorldCoord { x: -20, y: 7, z: -999 },
    ];
    for w in samples {
        assert_eq!(round_trip(w), w);
        let local: ChunkLocalCoord = w.into();
        assert!(local.x < CHUNK_SIZE && local.y < CHUNK_SIZE && local.z < CHUNK_SIZE);
    }
}

#[test]
fn minus_one_is_last_voxel_of_chunk_minus_one() {
    let w = WorldCoord { x: -1, y: 0, z: 0 };
    let chunk: ChunkCoord = w.into();
    let local: ChunkLocalCoord = w.into();
    assert_eq!(chunk, ChunkCoord { x: -1, y: 0, z: 0 });
    assert_eq!(local, ChunkLocalCoord { x: CHUNK_SIZE - 1, y: 0, z: 0 });
}

#[test]
fn floor_division_rounds_toward_negative_infinity() {
    let cases = [(-20, -1), (-32, -1), (-33, -2), (-1, -1), (0, 0), (31, 0), (32, 1), (-64, -2), (-65, -3)];
    for (x, expected) in cases {
        let chunk: ChunkCoord = WorldCoord { x, y: 0, z: 0 }.into();
        assert_eq!(chunk.x, expected, "world x {}", x);
    }
}

#[test]
fn chunk_index_beyond_i16_wraps() {
    let chunk: ChunkCoord = WorldCoord { x: 1048576, y: 0, z: 0 }.into();
    assert_eq!(chunk.x, i16::MIN);
}

#[test]
fn local_stepper_stops_at_chunk_faces() {
    let last = CHUNK_SIZE - 1;
    assert_eq!(ChunkLocalCoord { x: last, y: 3, z: 3 }.right(), None);
    assert_eq!(ChunkLocalCoord { x: 0, y: 3, z: 3 }.left(), None);
    assert_eq!(ChunkLocalCoord { x: 3, y: last, z: 3 }.up(), None);
    assert_eq!(ChunkLocalCoord { x: 3, y: 0, z: 3 }.down(), None);
    assert_eq!(ChunkLocalCoord { x: 3, y: 3, z: 0 }.front(), None);
    assert_eq!(ChunkLocalCoord { x: 3, y: 3, z: last }.back(), None);
}

#[test]
fn local_stepper_moves_inside_chunk() {
    let p = ChunkLocalCoord { x: 5, y: 6, z: 7 };
    assert_eq!(p.left(), Some(ChunkLocalCoord { x: 4, y: 6, z: 7 }));
    assert_eq!(p.right(), Some(ChunkLocalCoord { x: 6, y: 6, z: 7 }));
    assert_eq!(p.up(), Some(ChunkLocalCoord { x: 5, y: 7, z: 7 }));
    assert_eq!(p.down(), Some(ChunkLocalCoord { x: 5, y: 5, z: 7 }));
    assert_eq!(p.front(), Some(ChunkLocalCoord { x: 5, y: 6, z: 6 }));
    assert_eq!(p.back(), Some(ChunkLocalCoord { x: 5, y: 6, z: 8 }));
    let last = CHUNK_SIZE - 1;
    assert_eq!(ChunkLocalCoord { x: last, y: 3, z: 3 }.left(), Some(ChunkLocalCoord { x: last - 1, y: 3, z: 3 }));
    assert_eq!(ChunkLocalCoord { x: 0, y: 3, z: 3 }.right(), Some(ChunkLocalCoord { x: 1, y: 3, z: 3 }));
}

#[test]
fn world_and_chunk_steppers() {
    let w = WorldCoord { x: 1, y: 2, z: 3 };
    assert_eq!(w.left(), WorldCoord { x: 0, y: 2, z: 3 });
    assert_eq!(w.right(), WorldCoord { x: 2, y: 2, z: 3 });
    assert_eq!(w.up(), WorldCoord { x: 1, y: 3, z: 3 });
    assert_eq!(w.down(), WorldCoord { x: 1, y: 1, z: 3 });
    assert_eq!(w.front(), WorldCoord { x: 1, y: 2, z: 2 });
    assert_eq!(w.back(), WorldCoord { x: 1, y: 2, z: 4 });
    let c = ChunkCoord { x: -1, y: 0, z: 1 };
    assert_eq!(c.left(), ChunkCoord { x: -2, y: 0, z: 1 });
    assert_eq!(c.right(), ChunkCoord { x: 0, y: 0, z: 1 });
    assert_eq!(c.up(), ChunkCoord { x: -1, y: 1, z: 1 });
    assert_eq!(c.down(), ChunkCoord { x: -1, y: -1, z: 1 });
    assert_eq!(c.front(), ChunkCoord { x: -1, y: 0, z: 0 });
    assert_eq!(c.back(), ChunkCoord { x: -1, y: 0, z: 2 });
    let o = BlockOffsetCoord { x: 0, y: 0, z: 0 };
    assert_eq!(o.left(), BlockOffsetCoord { x: -1, y: 0, z: 0 });
    assert_eq!(o.right(), BlockOffsetCoord { x: 1, y: 0, z: 0 });
    assert_eq!(o.up(), BlockOffsetCoord { x: 0, y: 1, z: 0 });
    assert_eq!(o.down(), BlockOffsetCoord { x: 0, y: -1, z: 0 });
    assert_eq!(o.front(), BlockOffsetCoord { x: 0, y: 0, z: -1 });
    assert_eq!(o.back(), BlockOffsetCoord { x: 0, y: 0, z: 1 });
}

#[test]
fn coordinate_operators() {
    let a = WorldCoord { x: 10, y: -5, z: 3 };
    let b = WorldCoord { x: 4, y: 5, z: -3 };
    assert_eq!(a - b, BlockOffsetCoord { x: 6, y: -10, z: 6 });
    assert_eq!(b + (a - b), a);
    let c = ChunkCoord { x: 1, y: -2, z: 3 };
    assert_eq!(-c, ChunkCoord { x: -1, y: 2, z: -3 });
    assert_eq!(c + ChunkCoord { x: 1, y: 1, z: 1 }, ChunkCoord { x: 2, y: -1, z: 4 });
    let origin: WorldCoord = ChunkCoord { x: -2, y: 0, z: 3 }.into();
    assert_eq!(origin, WorldCoord { x: -64, y: 0, z: 96 });
    let wrapped: ChunkLocalCoord = BlockOffsetCoord { x: -1, y: 32, z: 70 }.into();
    assert_eq!(wrapped, ChunkLocalCoord { x: 31, y: 0, z: 6 });
    assert_eq!(
        WorldCoord::from_chunk_and_local(ChunkCoord { x: -1, y: 0, z: 0 }, BlockOffsetCoord { x: 40, y: -1, z: 0 }),
        WorldCoord { x: 8, y: -1, z: 0 }
    );
}
