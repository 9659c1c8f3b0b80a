use voxel_world::simulation::element_spawner::ElementSpawner;
use voxel_world::world::chunk::WorldChunk;
use voxel_world::world::chunk_manager::ChunkManager;
use voxel_world::world::coords::{ChunkPos, WorldPos};
use voxel_world::world::voxel::voxel_flags;
use voxel_world::world::voxel::{MaterialType, VoxelData};

fn fire() -> VoxelData {
    VoxelData::new(
        MaterialType::Fire,
        255,
        255,
        voxel_flags::EMITS_LIGHT | voxel_flags::TEMPORARY,
    )
}

fn smoke() -> VoxelData {
    VoxelData::new(
        MaterialType::Smoke,
        200,
        50,
        voxel_flags::TEMPORARY | voxel_flags::TRANSPARENT,
    )
}

fn water() -> VoxelData {
    VoxelData::new(MaterialType::Water, 255, 20, voxel_flags::TRANSPARENT)
}

fn debris() -> VoxelData {
    VoxelData::new(MaterialType::Debris, 180, 100, voxel_flags::TEMPORARY)
}

/// Two chunks side by side along x, registered under their own positions.
fn world() -> (Vec<WorldChunk>, ChunkManager) {
    let mut manager = ChunkManager::new(4, 2);
    let chunks = vec![
        WorldChunk::new(ChunkPos::new(0, 0, 0)),
        WorldChunk::new(ChunkPos::new(1, 0, 0)),
    ];
    manager.register_chunk(ChunkPos::new(0, 0, 0), 0);
    manager.register_chunk(ChunkPos::new(1, 0, 0), 1);
    (chunks, manager)
}

fn filled(center: WorldPos, radius: i64, voxel: VoxelData, pos: ChunkPos) -> WorldChunk {
    let mut chunk = WorldChunk::new(pos);
    chunk.fill_sphere(center, radius, voxel);
    chunk
}

fn count(chunk: &WorldChunk, voxel: VoxelData) -> usize {
    chunk.voxels.iter().filter(|v| **v == voxel).count()
}

#[test]
fn fire_sphere_fills_the_chunk_that_holds_it() {
    let (mut chunks, manager) = world();
    let center = WorldPos::from_voxels(32, 32, 32);
    ElementSpawner::spawn_fire_sphere(center, 3 * 256, &mut chunks, &manager);
    let expected = filled(center, 3 * 256, fire(), ChunkPos::new(0, 0, 0));
    assert_eq!(chunks[0].as_u32_slice(), expected.as_u32_slice());
    assert!(count(&chunks[0], fire()) > 100);
    assert_eq!(chunks[0].get_voxel(32, 32, 32), Some(fire()));
    assert!(chunks[0].has_dynamic_elements);
    assert!(chunks[1].voxels.iter().all(|v| *v == VoxelData::air()));
    assert!(!chunks[1].has_dynamic_elements);
}

#[test]
fn spheres_of_each_material() {
    let center = WorldPos::from_voxels(10, 10, 10);
    let (mut chunks, manager) = world();
    ElementSpawner::spawn_smoke_sphere(center, 512, &mut chunks, &manager);
    assert_eq!(chunks[0].get_voxel(10, 10, 10), Some(smoke()));
    assert_eq!(
        chunks[0].as_u32_slice(),
        filled(center, 512, smoke(), ChunkPos::new(0, 0, 0)).as_u32_slice()
    );

    let (mut chunks, manager) = world();
    ElementSpawner::spawn_water_sphere(center, 512, &mut chunks, &manager);
    assert_eq!(chunks[0].get_voxel(10, 10, 10), Some(water()));
    assert_eq!(
        chunks[0].as_u32_slice(),
        filled(center, 512, water(), ChunkPos::new(0, 0, 0)).as_u32_slice()
    );

    let (mut chunks, manager) = world();
    ElementSpawner::spawn_element_sphere(center, 512, VoxelData::rock(3), &mut chunks, &manager);
    assert_eq!(chunks[0].get_voxel(10, 10, 10), Some(VoxelData::rock(3)));
    assert!(!chunks[0].has_dynamic_elements);
    assert!(chunks[0].dirty);
}

#[test]
fn debris_is_spawned_at_seven_tenths_of_the_radius() {
    let center = WorldPos::from_voxels(32, 32, 32);
    let (mut chunks, manager) = world();
    ElementSpawner::spawn_explosion_debris(center, 10 * 256, &mut chunks, &manager);
    assert_eq!(
        chunks[0].as_u32_slice(),
        filled(center, 7 * 256, debris(), ChunkPos::new(0, 0, 0)).as_u32_slice()
    );
    // 1001 * 7 / 10 is 700.7, rounded down.
    let (mut chunks, manager) = world();
    ElementSpawner::spawn_explosion_debris(center, 1001, &mut chunks, &manager);
    assert_eq!(
        chunks[0].as_u32_slice(),
        filled(center, 700, debris(), ChunkPos::new(0, 0, 0)).as_u32_slice()
    );
}

#[test]
fn sphere_across_two_chunks() {
    let (mut chunks, manager) = world();
    let center = WorldPos::from_voxels(64, 20, 20);
    ElementSpawner::spawn_water_sphere(center, 5 * 256, &mut chunks, &manager);
    assert_eq!(
        chunks[0].as_u32_slice(),
        filled(center, 5 * 256, water(), ChunkPos::new(0, 0, 0)).as_u32_slice()
    );
    assert_eq!(
        chunks[1].as_u32_slice(),
        filled(center, 5 * 256, water(), ChunkPos::new(1, 0, 0)).as_u32_slice()
    );
    assert_eq!(chunks[0].get_voxel(63, 20, 20), Some(water()));
    assert_eq!(chunks[1].get_voxel(0, 20, 20), Some(water()));
    assert_eq!(count(&chunks[0], water()), count(&chunks[1], water()));
    assert!(chunks[0].has_dynamic_elements && chunks[1].has_dynamic_elements);
}

#[test]
fn chunks_that_are_not_registered_are_not_written() {
    let mut manager = ChunkManager::new(4, 2);
    let mut chunks = vec![
        WorldChunk::new(ChunkPos::new(0, 0, 0)),
        WorldChunk::new(ChunkPos::new(1, 0, 0)),
    ];
    manager.register_chunk(ChunkPos::new(1, 0, 0), 1);
    // An identity that names no chunk of the storage is passed over.
    manager.register_chunk(ChunkPos::new(0, 0, 0), 7);
    let center = WorldPos::from_voxels(64, 20, 20);
    ElementSpawner::spawn_fire_sphere(center, 5 * 256, &mut chunks, &manager);
    assert!(chunks[0].voxels.iter().all(|v| *v == VoxelData::air()));
    assert!(!chunks[0].has_dynamic_elements);
    assert!(count(&chunks[1], fire()) > 0);
}

#[test]
fn a_reached_chunk_is_flagged_even_where_no_voxel_is_met() {
    let (mut chunks, manager) = world();
    for c in chunks.iter_mut() {
        c.dirty = false;
    }
    // Around a voxel corner with a radius too short to reach a centre.
    ElementSpawner::spawn_fire_sphere(WorldPos::from_voxels(5, 5, 5), 100, &mut chunks, &manager);
    assert!(chunks[0].voxels.iter().all(|v| *v == VoxelData::air()));
    assert!(chunks[0].has_dynamic_elements);
    assert!(!chunks[0].dirty);
    assert!(!chunks[1].has_dynamic_elements);
}

#[test]
fn a_negative_radius_spawns_nothing() {
    let (mut chunks, manager) = world();
    ElementSpawner::spawn_fire_sphere(WorldPos::from_voxels(64, 5, 5), -256, &mut chunks, &manager);
    ElementSpawner::spawn_fire_sphere(WorldPos::from_voxels(5, 5, 5), i64::MIN, &mut chunks, &manager);
    assert!(chunks[0].voxels.iter().all(|v| *v == VoxelData::air()));
    assert!(chunks[1].voxels.iter().all(|v| *v == VoxelData::air()));
    assert!(!chunks[1].has_dynamic_elements);
}

#[test]
fn a_chunk_registered_at_two_positions_is_filled_as_if_at_one() {
    let mut manager = ChunkManager::new(4, 2);
    let mut chunks = vec![WorldChunk::new(ChunkPos::new(0, 0, 0))];
    manager.register_chunk(ChunkPos::new(0, 0, 0), 0);
    manager.register_chunk(ChunkPos::new(1, 0, 0), 0);
    let center = WorldPos::from_voxels(62, 20, 20);
    ElementSpawner::spawn_smoke_sphere(center, 4 * 256, &mut chunks, &manager);
    assert_eq!(
        chunks[0].as_u32_slice(),
        filled(center, 4 * 256, smoke(), ChunkPos::new(0, 0, 0)).as_u32_slice()
    );
}

#[test]
fn explosion_is_fire_then_smoke_then_debris() {
    let center = WorldPos::from_voxels(32, 32, 32);
    let radius = 10 * 256;
    let (mut chunks, manager) = world();
    ElementSpawner::spawn_explosion(center, radius, &mut chunks, &manager);

    let mut expected = WorldChunk::new(ChunkPos::new(0, 0, 0));
    expected.fill_sphere(center, radius / 2, fire());
    expected.fill_sphere(center, radius, smoke());
    expected.fill_sphere(center, radius * 6 / 5, debris());
    assert_eq!(chunks[0].as_u32_slice(), expected.as_u32_slice());
    assert!(chunks[0].has_dynamic_elements);
    // The debris, spawned last and widest, lies over the fire and the smoke.
    assert_eq!(chunks[0].get_voxel(32, 32, 32), Some(debris()));
    assert_eq!(chunks[0].get_voxel(32 + 11, 32, 32), Some(debris()));
    assert_eq!(chunks[0].get_voxel(32 + 12, 32, 32), Some(VoxelData::air()));
    assert_eq!(count(&chunks[0], fire()), 0);
    assert_eq!(count(&chunks[0], smoke()), 0);
    assert!(chunks[1].voxels.iter().all(|v| *v == VoxelData::air()));
}

#[test]
fn explosion_radii_are_rounded_down() {
    // 1001 / 2 is 500.5 and 1001 * 6 / 5 is 1201.2.
    let center = WorldPos::new(8000, 8000, 8000);
    let mut manager = ChunkManager::new(1, 1);
    manager.register_chunk(ChunkPos::new(0, 0, 0), 0);
    let mut chunks = vec![WorldChunk::new(ChunkPos::new(0, 0, 0))];
    ElementSpawner::spawn_explosion(center, 1001, &mut chunks, &manager);
    let mut expected = WorldChunk::new(ChunkPos::new(0, 0, 0));
    expected.fill_sphere(center, 500, fire());
    expected.fill_sphere(center, 1001, smoke());
    expected.fill_sphere(center, 1201, debris());
    assert_eq!(chunks[0].as_u32_slice(), expected.as_u32_slice());
}

/// One chunk at the origin, registered there.
fn single() -> (Vec<WorldChunk>, ChunkManager) {
    let mut manager = ChunkManager::new(1, 1);
    manager.register_chunk(ChunkPos::new(0, 0, 0), 0);
    (vec![WorldChunk::new(ChunkPos::new(0, 0, 0))], manager)
}

fn spheres(centers: &[WorldPos], radius: i64) -> WorldChunk {
    let mut chunk = WorldChunk::new(ChunkPos::new(0, 0, 0));
    for c in centers {
        chunk.fill_sphere(*c, radius, fire());
    }
    chunk
}

#[test]
fn fire_line_along_an_axis() {
    let (mut chunks, manager) = single();
    let start = WorldPos::from_voxels(10, 10, 10);
    let end = WorldPos::from_voxels(20, 10, 10);
    // Ten voxels of length at two voxels each: five spheres, the last one
    // two voxels short of the end.
    ElementSpawner::spawn_fire_line(start, end, 512, &mut chunks, &manager);
    let centers: Vec<WorldPos> = [10, 12, 14, 16, 18]
        .iter()
        .map(|x| WorldPos::from_voxels(*x, 10, 10))
        .collect();
    assert_eq!(chunks[0].as_u32_slice(), spheres(&centers, 512).as_u32_slice());
    assert_eq!(chunks[0].get_voxel(10, 10, 10), Some(fire()));
    assert_eq!(chunks[0].get_voxel(19, 10, 10), Some(fire()));
    assert_eq!(chunks[0].get_voxel(20, 10, 10), Some(VoxelData::air()));
    assert!(chunks[0].has_dynamic_elements);
}

#[test]
fn fire_line_rounds_the_number_of_spheres_up() {
    // A length of 1000 at 300 each takes four spheres, 250 apart.
    let (mut chunks, manager) = single();
    let start = WorldPos::new(2000, 3000, 3000);
    let end = WorldPos::new(3000, 3000, 3000);
    ElementSpawner::spawn_fire_line(start, end, 300, &mut chunks, &manager);
    let centers: Vec<WorldPos> = [2000, 2250, 2500, 2750]
        .iter()
        .map(|x| WorldPos::new(*x, 3000, 3000))
        .collect();
    assert_eq!(chunks[0].as_u32_slice(), spheres(&centers, 300).as_u32_slice());

    // A length of exactly 900 takes three.
    let (mut chunks, manager) = single();
    ElementSpawner::spawn_fire_line(start, WorldPos::new(2900, 3000, 3000), 300, &mut chunks, &manager);
    let centers: Vec<WorldPos> = [2000, 2300, 2600]
        .iter()
        .map(|x| WorldPos::new(*x, 3000, 3000))
        .collect();
    assert_eq!(chunks[0].as_u32_slice(), spheres(&centers, 300).as_u32_slice());
}

#[test]
fn fire_line_backwards_and_askew() {
    // From 3000 down to 2000 along x.
    let (mut chunks, manager) = single();
    ElementSpawner::spawn_fire_line(
        WorldPos::new(3000, 3000, 3000),
        WorldPos::new(2000, 3000, 3000),
        300,
        &mut chunks,
        &manager,
    );
    let centers: Vec<WorldPos> = [3000, 2750, 2500, 2250]
        .iter()
        .map(|x| WorldPos::new(*x, 3000, 3000))
        .collect();
    assert_eq!(chunks[0].as_u32_slice(), spheres(&centers, 300).as_u32_slice());

    // A line of length 500 (300 along x, 400 along y) at 200 each: three
    // spheres, each a third of the way further, rounded down.
    let (mut chunks, manager) = single();
    ElementSpawner::spawn_fire_line(
        WorldPos::new(4000, 4000, 4000),
        WorldPos::new(4300, 4400, 4000),
        200,
        &mut chunks,
        &manager,
    );
    let centers = [
        WorldPos::new(4000, 4000, 4000),
        WorldPos::new(4100, 4133, 4000),
        WorldPos::new(4200, 4266, 4000),
    ];
    assert_eq!(chunks[0].as_u32_slice(), spheres(&centers, 200).as_u32_slice());
}

#[test]
fn fire_line_takes_the_length_exactly() {
    // From a voxel centre one unit along x and one along y: the length is
    // the root of 2. At a thickness of 1 that takes two spheres, the second
    // at half the way rounded down, which is the start again.
    let (mut chunks, manager) = single();
    let start = WorldPos::new(10 * 256 + 128, 10 * 256 + 128, 10 * 256 + 128);
    let end = WorldPos::new(start.x + 1, start.y + 1, start.z);
    ElementSpawner::spawn_fire_line(start, end, 1, &mut chunks, &manager);
    assert_eq!(chunks[0].as_u32_slice(), spheres(&[start], 1).as_u32_slice());
    assert_eq!(chunks[0].get_voxel(10, 10, 10), Some(fire()));
}

#[test]
fn fire_line_without_length_or_thickness_is_empty() {
    let (mut chunks, manager) = single();
    chunks[0].dirty = false;
    let a = WorldPos::from_voxels(10, 10, 10);
    let b = WorldPos::from_voxels(20, 10, 10);
    ElementSpawner::spawn_fire_line(a, a, 512, &mut chunks, &manager);
    ElementSpawner::spawn_fire_line(a, b, 0, &mut chunks, &manager);
    ElementSpawner::spawn_fire_line(a, b, -512, &mut chunks, &manager);
    ElementSpawner::spawn_fire_line(a, b, i64::MIN, &mut chunks, &manager);
    assert!(chunks[0].voxels.iter().all(|v| *v == VoxelData::air()));
    assert!(!chunks[0].dirty);
    assert!(!chunks[0].has_dynamic_elements);
}
