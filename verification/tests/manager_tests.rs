use voxel_world::world::chunk_manager::ChunkManager;
use voxel_world::world::coords::{
    abs_diff, ceil_sqrt, floor_div, floor_div_wide, saturating_difference, saturating_sum, ChunkPos,
    WorldPos,
};

#[test]
fn chunk_position_rounds_down() {
    // One chunk is 64 voxels of 256 units.
    let cases: [(i64, i32); 12] = [
        (0, 0),
        (1, 0),
        (16383, 0),
        (16384, 1),
        (16385, 1),
        (32767, 1),
        (32768, 2),
        (-1, -1),
        (-16384, -1),
        (-16385, -2),
        (-32768, -2),
        (-32769, -3),
    ];
    for (world, chunk) in cases {
        assert_eq!(
            ChunkManager::world_to_chunk_pos(WorldPos::new(world, 0, -1)),
            ChunkPos::new(chunk, 0, -1),
            "world coordinate {world}"
        );
        assert_eq!(
            ChunkManager::world_to_chunk_pos(WorldPos::new(5, world, world)),
            ChunkPos::new(0, chunk, chunk)
        );
    }
}

#[test]
fn chunk_position_half_a_voxel_below_zero() {
    // The point (-0.5, 63.5, 64.0) in voxels.
    assert_eq!(
        ChunkManager::world_to_chunk_pos(WorldPos::new(-128, 63 * 256 + 128, 64 * 256)),
        ChunkPos::new(-1, 0, 1)
    );
}

#[test]
fn chunk_position_stops_at_the_ends_of_the_range() {
    assert_eq!(
        ChunkManager::world_to_chunk_pos(WorldPos::new(i64::MAX, i64::MIN, 0)),
        ChunkPos::new(i32::MAX, i32::MIN, 0)
    );
    // The last chunk before the end: i32::MAX * 16384 units.
    let edge = (i32::MAX as i64) * 16384;
    assert_eq!(
        ChunkManager::world_to_chunk_pos(WorldPos::new(edge, edge - 1, edge + 16384)),
        ChunkPos::new(i32::MAX, i32::MAX - 1, i32::MAX)
    );
    let low = (i32::MIN as i64) * 16384;
    assert_eq!(
        ChunkManager::world_to_chunk_pos(WorldPos::new(low, low - 1, low + 16384)),
        ChunkPos::new(i32::MIN, i32::MIN, i32::MIN + 1)
    );
}

#[test]
fn load_and_simulation_distance_are_chebyshev() {
    let manager = ChunkManager::new(4, 2);
    let player = ChunkPos::new(10, -3, 0);
    assert!(manager.should_load_chunk(player, player));
    assert!(manager.should_load_chunk(ChunkPos::new(14, -7, 4), player));
    assert!(manager.should_load_chunk(ChunkPos::new(6, 1, -4), player));
    assert!(!manager.should_load_chunk(ChunkPos::new(15, -3, 0), player));
    assert!(!manager.should_load_chunk(ChunkPos::new(10, -8, 0), player));
    assert!(!manager.should_load_chunk(ChunkPos::new(10, -3, 5), player));

    assert!(manager.should_simulate_chunk(ChunkPos::new(12, -5, 2), player));
    assert!(manager.should_simulate_chunk(ChunkPos::new(8, -1, -2), player));
    assert!(!manager.should_simulate_chunk(ChunkPos::new(13, -3, 0), player));
    assert!(!manager.should_simulate_chunk(ChunkPos::new(10, -3, -3), player));
}

#[test]
fn distance_does_not_overflow() {
    let manager = ChunkManager::new(i32::MAX, -1);
    let low = ChunkPos::new(i32::MIN, i32::MIN, i32::MIN);
    let high = ChunkPos::new(i32::MAX, i32::MAX, i32::MAX);
    assert!(!manager.should_load_chunk(low, high));
    assert!(!manager.should_load_chunk(high, low));
    assert!(manager.should_load_chunk(ChunkPos::new(0, 0, 0), high));
    assert!(!manager.should_load_chunk(ChunkPos::new(-1, 0, 0), high));
    // A negative distance holds no chunk, not even the reference position.
    assert!(!manager.should_simulate_chunk(high, high));
}

#[test]
fn default_manager_is_empty_with_zero_distances() {
    let manager = ChunkManager::default();
    assert_eq!(manager.load_distance, 0);
    assert_eq!(manager.simulation_distance, 0);
    assert!(manager.chunks.is_empty());
    let here = ChunkPos::new(1, 2, 3);
    assert!(manager.should_load_chunk(here, here));
    assert!(!manager.should_load_chunk(ChunkPos::new(1, 2, 4), here));
    assert_eq!(manager.get_chunk_entity(here), None);
}

#[test]
fn register_get_unregister() {
    let mut manager = ChunkManager::new(4, 2);
    assert_eq!(manager.load_distance, 4);
    assert_eq!(manager.simulation_distance, 2);
    let a = ChunkPos::new(0, 0, 0);
    let b = ChunkPos::new(-1, 5, 1_000_000);
    assert_eq!(manager.get_chunk_entity(a), None);
    manager.register_chunk(a, 10);
    manager.register_chunk(b, 11);
    assert_eq!(manager.get_chunk_entity(a), Some(10));
    assert_eq!(manager.get_chunk_entity(b), Some(11));
    assert_eq!(manager.get_chunk_entity(ChunkPos::new(0, 0, 1)), None);
    assert_eq!(manager.chunks.len(), 2);

    // The last registration at a position wins.
    manager.register_chunk(a, 12);
    assert_eq!(manager.get_chunk_entity(a), Some(12));
    assert_eq!(manager.chunks.len(), 2);

    assert_eq!(manager.unregister_chunk(a), Some(12));
    assert_eq!(manager.get_chunk_entity(a), None);
    assert_eq!(manager.unregister_chunk(a), None);
    assert_eq!(manager.get_chunk_entity(b), Some(11));
    assert_eq!(manager.load_distance, 4);
    assert_eq!(manager.simulation_distance, 2);
}

#[test]
fn positions_that_differ_in_one_coordinate_are_kept_apart() {
    let mut manager = ChunkManager::new(0, 0);
    let positions = [
        ChunkPos::new(0, 0, 0),
        ChunkPos::new(1, 0, 0),
        ChunkPos::new(0, 1, 0),
        ChunkPos::new(0, 0, 1),
        ChunkPos::new(-1, 0, 0),
        ChunkPos::new(0, -1, 0),
        ChunkPos::new(0, 0, -1),
        ChunkPos::new(i32::MIN, i32::MIN, i32::MIN),
        ChunkPos::new(i32::MAX, i32::MAX, i32::MAX),
        ChunkPos::new(i32::MIN, 0, i32::MAX),
        ChunkPos::new(i32::MAX, 0, i32::MIN),
    ];
    for (i, pos) in positions.iter().enumerate() {
        manager.register_chunk(*pos, i);
    }
    assert_eq!(manager.chunks.len(), positions.len());
    for (i, pos) in positions.iter().enumerate() {
        assert_eq!(manager.get_chunk_entity(*pos), Some(i));
    }
}

#[test]
fn floor_division_rounds_towards_minus_infinity() {
    assert_eq!(floor_div(7, 2), 3);
    assert_eq!(floor_div(-7, 2), -4);
    assert_eq!(floor_div(-8, 2), -4);
    assert_eq!(floor_div(-1, 256), -1);
    assert_eq!(floor_div(-256, 256), -1);
    assert_eq!(floor_div(-257, 256), -2);
    assert_eq!(floor_div(0, 5), 0);
    assert_eq!(floor_div(i64::MIN, 1), i64::MIN);
    assert_eq!(floor_div(i64::MIN, i64::MAX), -2);
    assert_eq!(floor_div(i64::MAX, i64::MAX), 1);
    assert_eq!(floor_div(i64::MIN, 16384), -(1i64 << 49));
}

#[test]
fn world_positions_move_with_saturation() {
    assert_eq!(saturating_sum(1, 2), 3);
    assert_eq!(saturating_sum(i64::MAX, 1), i64::MAX);
    assert_eq!(saturating_sum(i64::MIN, -1), i64::MIN);
    assert_eq!(saturating_difference(1, 2), -1);
    assert_eq!(saturating_difference(i64::MIN, 1), i64::MIN);
    assert_eq!(saturating_difference(0, i64::MIN), i64::MAX);
    assert_eq!(saturating_difference(-1, i64::MIN), i64::MAX);

    let p = WorldPos::new(i64::MAX - 5, 0, i64::MIN + 5);
    assert_eq!(p.offset(10), WorldPos::new(i64::MAX, 10, i64::MIN + 15));
    assert_eq!(p.offset_back(10), WorldPos::new(i64::MAX - 15, -10, i64::MIN));
    assert_eq!(p.offset(-10), p.offset_back(10));
    assert_eq!(WorldPos::from_voxels(1, -1, i32::MIN), WorldPos::new(256, -256, -(1i64 << 39)));
}

#[test]
fn wide_floor_division() {
    assert_eq!(floor_div_wide(7, 2), 3);
    assert_eq!(floor_div_wide(-7, 2), -4);
    assert_eq!(floor_div_wide(-6, 5), -2);
    assert_eq!(floor_div_wide(-5, 5), -1);
    assert_eq!(floor_div_wide(i128::MIN, 1), i128::MIN);
    assert_eq!(floor_div_wide(i128::MIN, i128::MAX), -2);
    assert_eq!(floor_div_wide(i128::MAX, i128::MAX), 1);
    assert_eq!(floor_div_wide(-1, i128::MAX), -1);
}

#[test]
fn absolute_difference_of_coordinates() {
    assert_eq!(abs_diff(3, 10), 7);
    assert_eq!(abs_diff(10, 3), 7);
    assert_eq!(abs_diff(-4, -4), 0);
    assert_eq!(abs_diff(i64::MIN, i64::MAX), u64::MAX as u128);
    assert_eq!(abs_diff(i64::MAX, i64::MIN), u64::MAX as u128);
    assert_eq!(abs_diff(0, i64::MIN), 1u128 << 63);
}

#[test]
fn square_root_rounded_up() {
    let cases: [(u128, u128); 12] = [
        (0, 0),
        (1, 1),
        (2, 2),
        (3, 2),
        (4, 2),
        (5, 3),
        (9, 3),
        (10, 4),
        (250_000, 500),
        (250_001, 501),
        ((1 << 64) - 1, 1 << 32),
        (1 << 64, 1 << 32),
    ];
    for (value, root) in cases {
        assert_eq!(ceil_sqrt(value), root, "root of {value}");
    }
    let top = u64::MAX as u128;
    assert_eq!(ceil_sqrt(top * top), top);
    assert_eq!(ceil_sqrt(top * top + 1), 1 << 64);
    assert_eq!(ceil_sqrt(u128::MAX), 1 << 64);
    assert_eq!(ceil_sqrt(top * top - 1), top);
}

#[test]
fn registered_identities() {
    let mut manager = ChunkManager::new(1, 1);
    assert_eq!(manager.registered(3), vec![false, false, false]);
    assert_eq!(manager.registered(0), Vec::<bool>::new());
    manager.register_chunk(ChunkPos::new(0, 0, 0), 2);
    manager.register_chunk(ChunkPos::new(1, 0, 0), 0);
    manager.register_chunk(ChunkPos::new(2, 0, 0), 0);
    manager.register_chunk(ChunkPos::new(3, 0, 0), 5);
    assert_eq!(manager.registered(3), vec![true, false, true]);
    assert_eq!(manager.registered(6), vec![true, false, true, false, false, true]);
    assert_eq!(manager.registered(1), vec![true]);
    manager.unregister_chunk(ChunkPos::new(1, 0, 0));
    assert_eq!(manager.registered(3), vec![true, false, true]);
    manager.unregister_chunk(ChunkPos::new(2, 0, 0));
    assert_eq!(manager.registered(3), vec![false, false, true]);
    manager.register_chunk(ChunkPos::new(0, 0, 0), 1);
    assert_eq!(manager.registered(3), vec![false, true, false]);
}
