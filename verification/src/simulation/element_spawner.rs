//! Putting dynamic materials into the world: spheres of fire, smoke, water
//! and debris, and explosions made of them.
//!
//! A sphere is written into every chunk that is registered at a chunk
//! position which the bounding box of the sphere touches.

use vstd::prelude::*;
use crate::world::chunk::{all_wf, dist_sq, models_of, ChunkModel, WorldChunk};
use crate::world::chunk_manager::{ChunkId, ChunkManager};
use crate::world::coords::{
    abs_diff, ceil_sqrt, clamp_i64, floor_div_wide, lemma_floor_div_bounds, lemma_square_order,
    ChunkPos, WorldPos,
};
use crate::world::voxel::voxel_flags;
use crate::world::voxel::{MaterialType, VoxelData};

verus! {

/// The voxel of a fire sphere: full density, hottest, emitting light, temporary.
pub open spec fn fire_voxel() -> VoxelData {
    VoxelData::spec_new(MaterialType::Fire, 255, 255, 0x06)
}

/// The voxel of a smoke sphere: temporary and transparent.
pub open spec fn smoke_voxel() -> VoxelData {
    VoxelData::spec_new(MaterialType::Smoke, 200, 50, 0x14)
}

/// The voxel of a water sphere: full density, cool, transparent.
pub open spec fn water_voxel() -> VoxelData {
    VoxelData::spec_new(MaterialType::Water, 255, 20, 0x10)
}

/// The voxel of debris: temporary.
pub open spec fn debris_voxel() -> VoxelData {
    VoxelData::spec_new(MaterialType::Debris, 180, 100, 0x04)
}

/// `radius` times `numerator / denominator`, rounded down and kept within `i64`.
pub open spec fn scaled_radius(radius: i64, numerator: int, denominator: int) -> i64 {
    clamp_i64((radius * numerator) / denominator)
}

/// Whether the bounding box of the sphere touches the chunk position `pos`.
pub open spec fn in_spawn_range(center: WorldPos, radius: i64, pos: ChunkPos) -> bool {
    let lo = ChunkManager::spec_world_to_chunk_pos(center.spec_offset(-(radius as int)));
    let hi = ChunkManager::spec_world_to_chunk_pos(center.spec_offset(radius as int));
    &&& lo.x <= pos.x <= hi.x
    &&& lo.y <= pos.y <= hi.y
    &&& lo.z <= pos.z <= hi.z
}

/// Whether the chunk `id` is registered at a position that the bounding box
/// of the sphere touches.
pub open spec fn sphere_reaches(
    manager: ChunkManager,
    center: WorldPos,
    radius: i64,
    id: ChunkId,
) -> bool {
    exists|pos: ChunkPos|
        in_spawn_range(center, radius, pos) && #[trigger] manager.entity_at(pos) == Some(id)
}

/// A chunk after a sphere has been spawned into it: the sphere is filled,
/// and the chunk is flagged dynamic if the material is, whether or not the
/// sphere met a voxel.
pub open spec fn spawned_in(
    chunk: ChunkModel,
    center: WorldPos,
    radius: i64,
    voxel: VoxelData,
) -> ChunkModel {
    let filled = chunk.sphere_filled(center, radius, voxel);
    ChunkModel {
        has_dynamic_elements: filled.has_dynamic_elements
            || voxel.spec_material().spec_is_dynamic(),
        ..filled
    }
}

/// The chunks after a sphere has been spawned: each chunk that the sphere
/// reaches through the index has the sphere spawned into it, the others are
/// as they were.
pub open spec fn sphere_spawned(
    chunks: Seq<ChunkModel>,
    manager: ChunkManager,
    center: WorldPos,
    radius: i64,
    voxel: VoxelData,
) -> Seq<ChunkModel> {
    Seq::new(
        chunks.len(),
        |i: int|
            if sphere_reaches(manager, center, radius, i as ChunkId) {
                spawned_in(chunks[i], center, radius, voxel)
            } else {
                chunks[i]
            },
    )
}

/// The chunks after an explosion: a fire sphere of half the radius, then a
/// smoke sphere of the full radius, then a debris sphere of six fifths of
/// the radius, each spawned over what the one before left.
pub open spec fn explosion_spawned(
    chunks: Seq<ChunkModel>,
    manager: ChunkManager,
    center: WorldPos,
    radius: i64,
) -> Seq<ChunkModel> {
    let with_fire = sphere_spawned(
        chunks,
        manager,
        center,
        scaled_radius(radius, 1, 2),
        fire_voxel(),
    );
    let with_smoke = sphere_spawned(with_fire, manager, center, radius, smoke_voxel());
    sphere_spawned(with_smoke, manager, center, scaled_radius(radius, 6, 5), debris_voxel())
}

/// Whether `n` is the least number of segments of length `thickness` that
/// cover a length whose square is `length_sq`.
pub open spec fn is_least_cover(n: int, length_sq: int, thickness: int) -> bool {
    &&& n >= 0
    &&& (n * thickness) * (n * thickness) >= length_sq
    &&& n > 0 ==> ((n - 1) * thickness) * ((n - 1) * thickness) < length_sq
}

/// The number of spheres along a line from `start` to `end`: the length of
/// the line divided by `thickness`, rounded up and kept within `i32`; none
/// where `thickness` is not positive.
pub open spec fn line_steps(start: WorldPos, end: WorldPos, thickness: i64) -> int {
    if thickness <= 0 {
        0
    } else {
        let n = choose|n: int| is_least_cover(n, dist_sq(start, end), thickness as int);
        if n > i32::MAX {
            i32::MAX as int
        } else {
            n
        }
    }
}

/// The centre of the sphere number `i` of `steps` along the line from
/// `start` to `end`: `i / steps` of the way, each coordinate rounded down.
pub open spec fn line_point(start: WorldPos, end: WorldPos, steps: int, i: int) -> WorldPos {
    WorldPos {
        x: clamp_i64(start.x + ((end.x - start.x) * i) / steps),
        y: clamp_i64(start.y + ((end.y - start.y) * i) / steps),
        z: clamp_i64(start.z + ((end.z - start.z) * i) / steps),
    }
}

/// The chunks after the first `n` fire spheres of a line of `steps`
/// spheres have been spawned, each over what the one before left.
pub open spec fn line_spawned(
    chunks: Seq<ChunkModel>,
    manager: ChunkManager,
    start: WorldPos,
    end: WorldPos,
    thickness: i64,
    steps: int,
    n: nat,
) -> Seq<ChunkModel>
    decreases n,
{
    if n == 0 {
        chunks
    } else {
        sphere_spawned(
            line_spawned(chunks, manager, start, end, thickness, steps, (n - 1) as nat),
            manager,
            line_point(start, end, steps, n - 1),
            thickness,
            fire_voxel(),
        )
    }
}

/// There is at most one least cover.
proof fn lemma_least_cover_unique(n: int, m: int, length_sq: int, thickness: int)
    requires
        thickness > 0,
        is_least_cover(n, length_sq, thickness),
        is_least_cover(m, length_sq, thickness),
    ensures
        n == m,
{
    if n < m {
        assert(n * thickness <= (m - 1) * thickness) by (nonlinear_arith)
            requires
                n <= m - 1,
                thickness > 0,
        ;
        assert(0 <= n * thickness) by (nonlinear_arith)
            requires
                n >= 0,
                thickness > 0,
        ;
        lemma_square_order(n * thickness, (m - 1) * thickness);
    } else if m < n {
        assert(m * thickness <= (n - 1) * thickness) by (nonlinear_arith)
            requires
                m <= n - 1,
                thickness > 0,
        ;
        assert(0 <= m * thickness) by (nonlinear_arith)
            requires
                m >= 0,
                thickness > 0,
        ;
        lemma_square_order(m * thickness, (n - 1) * thickness);
    }
}

/// The squared distance of two points, where it fits.
fn squared_distance(a: WorldPos, b: WorldPos) -> (d: u128)
    requires
        dist_sq(a, b) <= u128::MAX,
    ensures
        d == dist_sq(a, b),
{
    let dx: u128 = abs_diff(a.x, b.x);
    let dy: u128 = abs_diff(a.y, b.y);
    let dz: u128 = abs_diff(a.z, b.z);
    proof {
        let ex = a.x - b.x;
        let ey = a.y - b.y;
        let ez = a.z - b.z;
        assert(ex * ex == dx * dx && ey * ey == dy * dy && ez * ez == dz * dz) by (nonlinear_arith)
            requires
                dx == ex || dx == -ex,
                dy == ey || dy == -ey,
                dz == ez || dz == -ez,
        ;
        assert(dx * dx >= 0 && dy * dy >= 0 && dz * dz >= 0) by (nonlinear_arith);
    }
    dx * dx + dy * dy + dz * dz
}

/// The number of spheres along the line from `start` to `end`.
fn count_line_steps(start: WorldPos, end: WorldPos, thickness: i64) -> (steps: i32)
    requires
        dist_sq(start, end) <= u128::MAX,
    ensures
        steps == line_steps(start, end, thickness),
        steps >= 0,
{
    if thickness <= 0 {
        return 0;
    }
    let length_sq: u128 = squared_distance(start, end);
    let length: u128 = ceil_sqrt(length_sq);
    let t: u128 = thickness as u128;
    let n: u128 = (length + (t - 1)) / t;
    proof {
        // n is the least number with n * t >= length.
        let sum: int = length + (t - 1);
        lemma_floor_div_bounds(sum, t as int);
        assert(n == sum / (t as int));
        assert(n * t >= length && (n > 0 ==> (n - 1) * t < length)) by (nonlinear_arith)
            requires
                n * t <= sum,
                sum < (n + 1) * t,
                sum == length + (t - 1),
                t > 0,
                length >= 0,
        ;
        assert(0 <= n * t) by (nonlinear_arith)
            requires
                n >= 0,
                t > 0,
        ;
        lemma_square_order(length as int, n * t);
        if n > 0 {
            assert(0 <= (n - 1) * t) by (nonlinear_arith)
                requires
                    n >= 1,
                    t > 0,
            ;
            lemma_square_order((n - 1) * t, length - 1);
        }
        assert(is_least_cover(n as int, length_sq as int, thickness as int));
        let chosen = choose|m: int| is_least_cover(m, dist_sq(start, end), thickness as int);
        lemma_least_cover_unique(n as int, chosen, length_sq as int, thickness as int);
    }
    if n > i32::MAX as u128 {
        i32::MAX
    } else {
        n as i32
    }
}

/// The centre of the sphere number `i` of `steps` along the line.
fn point_on_line(start: WorldPos, end: WorldPos, steps: i32, i: i32) -> (point: WorldPos)
    requires
        0 <= i < steps,
    ensures
        point == line_point(start, end, steps as int, i as int),
{
    WorldPos {
        x: coordinate_on_line(start.x, end.x, steps, i),
        y: coordinate_on_line(start.y, end.y, steps, i),
        z: coordinate_on_line(start.z, end.z, steps, i),
    }
}

/// One coordinate of the sphere number `i` of `steps` along the line.
fn coordinate_on_line(start: i64, end: i64, steps: i32, i: i32) -> (coordinate: i64)
    requires
        0 <= i < steps,
    ensures
        coordinate == clamp_i64(start + ((end - start) * i) / (steps as int)),
{
    let delta: i128 = end as i128 - start as i128;
    assert(-0x8000_0000_0000_0000_0000_0000 <= delta * i <= 0x8000_0000_0000_0000_0000_0000)
        by (nonlinear_arith)
        requires
            -0x1_0000_0000_0000_0000 <= delta <= 0x1_0000_0000_0000_0000,
            0 <= i <= 0x7FFF_FFFF,
    ;
    let along: i128 = floor_div_wide(delta * (i as i128), steps as i128);
    proof {
        lemma_floor_div_bounds(delta * i, steps as int);
        assert(-0x8000_0000_0000_0000_0000_0000 - 1 <= along <= 0x8000_0000_0000_0000_0000_0000)
            by (nonlinear_arith)
            requires
                along * steps <= delta * i,
                delta * i < (along + 1) * steps,
                steps >= 1,
                -0x8000_0000_0000_0000_0000_0000 <= delta * i <= 0x8000_0000_0000_0000_0000_0000,
        ;
    }
    let wide: i128 = start as i128 + along;
    if wide < i64::MIN as i128 {
        i64::MIN
    } else if wide > i64::MAX as i128 {
        i64::MAX
    } else {
        wide as i64
    }
}

/// Whether the chunk position `pos` comes before `(cx, cy, cz)` when
/// positions are visited with z running fastest, then y, then x.
spec fn position_before(pos: ChunkPos, cx: int, cy: int, cz: int) -> bool {
    pos.x < cx || (pos.x == cx && (pos.y < cy || (pos.y == cy && pos.z < cz)))
}

/// Spawning the same sphere twice into a chunk gives what spawning it once gives.
proof fn lemma_spawn_twice(chunk: ChunkModel, center: WorldPos, radius: i64, voxel: VoxelData)
    ensures
        spawned_in(spawned_in(chunk, center, radius, voxel), center, radius, voxel) == spawned_in(
            chunk,
            center,
            radius,
            voxel,
        ),
{
    let once = spawned_in(chunk, center, radius, voxel);
    let twice = spawned_in(once, center, radius, voxel);
    assert(twice =~= once);
}

/// `radius` times `numerator / denominator`, rounded down and kept within `i64`.
fn scale_radius(radius: i64, numerator: i64, denominator: i64) -> (scaled: i64)
    requires
        0 < numerator <= 16,
        0 < denominator <= 16,
    ensures
        scaled == scaled_radius(radius, numerator as int, denominator as int),
{
    assert(-0x8_0000_0000_0000_0000 <= radius * numerator <= 0x8_0000_0000_0000_0000)
        by (nonlinear_arith)
        requires
            -0x8000_0000_0000_0000 <= radius <= 0x7FFF_FFFF_FFFF_FFFF,
            0 < numerator <= 16,
    ;
    let product: i128 = (radius as i128) * (numerator as i128);
    let quotient: i128 = floor_div_wide(product, denominator as i128);
    if quotient < i64::MIN as i128 {
        i64::MIN
    } else if quotient > i64::MAX as i128 {
        i64::MAX
    } else {
        quotient as i64
    }
}

/// The functions that put dynamic materials into the world.
pub struct ElementSpawner;

impl ElementSpawner {
    /// Spawns a sphere of fire.
    pub fn spawn_fire_sphere(
        world_pos: WorldPos,
        radius: i64,
        chunks: &mut Vec<WorldChunk>,
        chunk_manager: &ChunkManager,
    )
        requires
            all_wf(old(chunks)@),
        ensures
            all_wf(final(chunks)@),
            models_of(final(chunks)@) == sphere_spawned(
                models_of(old(chunks)@),
                *chunk_manager,
                world_pos,
                radius,
                fire_voxel(),
            ),
    {
        assert(voxel_flags::EMITS_LIGHT | voxel_flags::TEMPORARY == 0x06u8) by (bit_vector);
        Self::spawn_element_sphere(
            world_pos,
            radius,
            VoxelData::new(
                MaterialType::Fire,
                255,
                255,
                voxel_flags::EMITS_LIGHT | voxel_flags::TEMPORARY,
            ),
            chunks,
            chunk_manager,
        );
    }

    /// Spawns a sphere of smoke.
    pub fn spawn_smoke_sphere(
        world_pos: WorldPos,
        radius: i64,
        chunks: &mut Vec<WorldChunk>,
        chunk_manager: &ChunkManager,
    )
        requires
            all_wf(old(chunks)@),
        ensures
            all_wf(final(chunks)@),
            models_of(final(chunks)@) == sphere_spawned(
                models_of(old(chunks)@),
                *chunk_manager,
                world_pos,
                radius,
                smoke_voxel(),
            ),
    {
        assert(voxel_flags::TEMPORARY | voxel_flags::TRANSPARENT == 0x14u8) by (bit_vector);
        Self::spawn_element_sphere(
            world_pos,
            radius,
            VoxelData::new(
                MaterialType::Smoke,
                200,
                50,
                voxel_flags::TEMPORARY | voxel_flags::TRANSPARENT,
            ),
            chunks,
            chunk_manager,
        );
    }

    /// Spawns a sphere of water.
    pub fn spawn_water_sphere(
        world_pos: WorldPos,
        radius: i64,
        chunks: &mut Vec<WorldChunk>,
        chunk_manager: &ChunkManager,
    )
        requires
            all_wf(old(chunks)@),
        ensures
            all_wf(final(chunks)@),
            models_of(final(chunks)@) == sphere_spawned(
                models_of(old(chunks)@),
                *chunk_manager,
                world_pos,
                radius,
                water_voxel(),
            ),
    {
        Self::spawn_element_sphere(
            world_pos,
            radius,
            VoxelData::new(MaterialType::Water, 255, 20, voxel_flags::TRANSPARENT),
            chunks,
            chunk_manager,
        );
    }

    /// Spawns a sphere of debris of seven tenths of `radius`, rounded down:
    /// debris lies closer to the centre than fire, smoke or water spawned
    /// with the same radius.
    pub fn spawn_explosion_debris(
        world_pos: WorldPos,
        radius: i64,
        chunks: &mut Vec<WorldChunk>,
        chunk_manager: &ChunkManager,
    )
        requires
            all_wf(old(chunks)@),
        ensures
            all_wf(final(chunks)@),
            models_of(final(chunks)@) == sphere_spawned(
                models_of(old(chunks)@),
                *chunk_manager,
                world_pos,
                scaled_radius(radius, 7, 10),
                debris_voxel(),
            ),
    {
        Self::spawn_element_sphere(
            world_pos,
            scale_radius(radius, 7, 10),
            VoxelData::new(MaterialType::Debris, 180, 100, voxel_flags::TEMPORARY),
            chunks,
            chunk_manager,
        );
    }

    /// Spawns an explosion: fire at half the radius, smoke at the full
    /// radius, debris at six fifths of the radius, in that order.
    pub fn spawn_explosion(
        world_pos: WorldPos,
        radius: i64,
        chunks: &mut Vec<WorldChunk>,
        chunk_manager: &ChunkManager,
    )
        requires
            all_wf(old(chunks)@),
        ensures
            all_wf(final(chunks)@),
            models_of(final(chunks)@) == explosion_spawned(
                models_of(old(chunks)@),
                *chunk_manager,
                world_pos,
                radius,
            ),
    {
        Self::spawn_fire_sphere(world_pos, scale_radius(radius, 1, 2), chunks, chunk_manager);
        Self::spawn_smoke_sphere(world_pos, radius, chunks, chunk_manager);
        Self::spawn_element_sphere(
            world_pos,
            scale_radius(radius, 6, 5),
            VoxelData::new(MaterialType::Debris, 180, 100, voxel_flags::TEMPORARY),
            chunks,
            chunk_manager,
        );
    }

    /// Spawns a sphere of `voxel` into every chunk that is registered at a
    /// chunk position which the bounding box of the sphere touches. An
    /// identity that names no chunk of `chunks` is passed over.
    pub fn spawn_element_sphere(
        world_pos: WorldPos,
        radius: i64,
        voxel: VoxelData,
        chunks: &mut Vec<WorldChunk>,
        chunk_manager: &ChunkManager,
    )
        requires
            all_wf(old(chunks)@),
        ensures
            all_wf(final(chunks)@),
            models_of(final(chunks)@) == sphere_spawned(
                models_of(old(chunks)@),
                *chunk_manager,
                world_pos,
                radius,
                voxel,
            ),
    {
        let lo = ChunkManager::world_to_chunk_pos(world_pos.offset_back(radius));
        let hi = ChunkManager::world_to_chunk_pos(world_pos.offset(radius));
        let ghost before = models_of(chunks@);
        let ghost mut visited: Set<ChunkId> = Set::empty();
        if lo.x > hi.x || lo.y > hi.y || lo.z > hi.z {
            assert(models_of(chunks@) =~= sphere_spawned(
                before,
                *chunk_manager,
                world_pos,
                radius,
                voxel,
            ));
            return ;
        }
        let mut cx: i64 = lo.x as i64;
        while cx <= hi.x as i64
            invariant
                lo.x <= hi.x,
                lo.y <= hi.y,
                lo.z <= hi.z,
                lo == ChunkManager::spec_world_to_chunk_pos(
                    world_pos.spec_offset(-(radius as int)),
                ),
                hi == ChunkManager::spec_world_to_chunk_pos(world_pos.spec_offset(radius as int)),
                lo.x <= cx <= hi.x + 1,
                chunks@.len() == before.len(),
                all_wf(chunks@),
                forall|i: int|
                    0 <= i < chunks@.len() ==> (#[trigger] chunks@[i])@ == (if visited.contains(
                        i as ChunkId,
                    ) {
                        spawned_in(before[i], world_pos, radius, voxel)
                    } else {
                        before[i]
                    }),
                forall|id: ChunkId| #[trigger]
                    visited.contains(id) ==> id < before.len() && sphere_reaches(
                        *chunk_manager,
                        world_pos,
                        radius,
                        id,
                    ),
                forall|pos: ChunkPos|
                    in_spawn_range(world_pos, radius, pos) && position_before(
                        pos,
                        cx as int,
                        lo.y as int,
                        lo.z as int,
                    ) ==> match #[trigger] chunk_manager.entity_at(pos) {
                        Some(id) => id < before.len() ==> visited.contains(id),
                        None => true,
                    },
            decreases hi.x + 1 - cx,
        {
            let mut cy: i64 = lo.y as i64;
            while cy <= hi.y as i64
                invariant
                    lo.x <= hi.x,
                    lo.y <= hi.y,
                    lo.z <= hi.z,
                    lo == ChunkManager::spec_world_to_chunk_pos(
                        world_pos.spec_offset(-(radius as int)),
                    ),
                    hi == ChunkManager::spec_world_to_chunk_pos(
                        world_pos.spec_offset(radius as int),
                    ),
                    lo.x <= cx <= hi.x,
                    lo.y <= cy <= hi.y + 1,
                    chunks@.len() == before.len(),
                    all_wf(chunks@),
                    forall|i: int|
                        0 <= i < chunks@.len() ==> (#[trigger] chunks@[i])@ == (
                        if visited.contains(i as ChunkId) {
                            spawned_in(before[i], world_pos, radius, voxel)
                        } else {
                            before[i]
                        }),
                    forall|id: ChunkId| #[trigger]
                        visited.contains(id) ==> id < before.len() && sphere_reaches(
                            *chunk_manager,
                            world_pos,
                            radius,
                            id,
                        ),
                    forall|pos: ChunkPos|
                        in_spawn_range(world_pos, radius, pos) && position_before(
                            pos,
                            cx as int,
                            cy as int,
                            lo.z as int,
                        ) ==> match #[trigger] chunk_manager.entity_at(pos) {
                            Some(id) => id < before.len() ==> visited.contains(id),
                            None => true,
                        },
                decreases hi.y + 1 - cy,
            {
                let mut cz: i64 = lo.z as i64;
                while cz <= hi.z as i64
                    invariant
                        lo.x <= hi.x,
                        lo.y <= hi.y,
                        lo.z <= hi.z,
                        lo == ChunkManager::spec_world_to_chunk_pos(
                            world_pos.spec_offset(-(radius as int)),
                        ),
                        hi == ChunkManager::spec_world_to_chunk_pos(
                            world_pos.spec_offset(radius as int),
                        ),
                        lo.x <= cx <= hi.x,
                        lo.y <= cy <= hi.y,
                        lo.z <= cz <= hi.z + 1,
                        chunks@.len() == before.len(),
                        all_wf(chunks@),
                        forall|i: int|
                            0 <= i < chunks@.len() ==> (#[trigger] chunks@[i])@ == (
                            if visited.contains(i as ChunkId) {
                                spawned_in(before[i], world_pos, radius, voxel)
                            } else {
                                before[i]
                            }),
                        forall|id: ChunkId| #[trigger]
                            visited.contains(id) ==> id < before.len() && sphere_reaches(
                                *chunk_manager,
                                world_pos,
                                radius,
                                id,
                            ),
                        forall|pos: ChunkPos|
                            in_spawn_range(world_pos, radius, pos) && position_before(
                                pos,
                                cx as int,
                                cy as int,
                                cz as int,
                            ) ==> match #[trigger] chunk_manager.entity_at(pos) {
                                Some(id) => id < before.len() ==> visited.contains(id),
                                None => true,
                            },
                    decreases hi.z + 1 - cz,
                {
                    let chunk_pos = ChunkPos::new(cx as i32, cy as i32, cz as i32);
                    assert(in_spawn_range(world_pos, radius, chunk_pos));
                    if let Some(entity) = chunk_manager.get_chunk_entity(chunk_pos) {
                        if entity < chunks.len() {
                            let ghost earlier = chunks@[entity as int]@;
                            chunks[entity].fill_sphere(world_pos, radius, voxel);
                            if voxel.material().is_dynamic() {
                                chunks[entity].has_dynamic_elements = true;
                            }
                            proof {
                                assert(chunks@[entity as int]@ =~= spawned_in(
                                    earlier,
                                    world_pos,
                                    radius,
                                    voxel,
                                ));
                                if visited.contains(entity) {
                                    lemma_spawn_twice(
                                        before[entity as int],
                                        world_pos,
                                        radius,
                                        voxel,
                                    );
                                }
                                visited = visited.insert(entity);
                            }
                        }
                    }
                    cz += 1;
                }
                cy += 1;
            }
            cx += 1;
        }
        proof {
            assert forall|id: ChunkId| id < before.len() implies #[trigger] visited.contains(id)
                == sphere_reaches(*chunk_manager, world_pos, radius, id) by {
                if sphere_reaches(*chunk_manager, world_pos, radius, id) {
                    let pos = choose|pos: ChunkPos|
                        in_spawn_range(world_pos, radius, pos)
                            && #[trigger] chunk_manager.entity_at(pos) == Some(id);
                    assert(position_before(pos, cx as int, lo.y as int, lo.z as int));
                }
            }
            assert(models_of(chunks@) =~= sphere_spawned(
                before,
                *chunk_manager,
                world_pos,
                radius,
                voxel,
            ));
        }
    }

    /// Spawns fire along the line from `start` to `end`: spheres of radius
    /// `thickness`, one for each `thickness` of length, the first at
    /// `start`, the others at equal parts of the way. Nothing is spawned
    /// where `thickness` is not positive or `start` is `end`.
    pub fn spawn_fire_line(
        start: WorldPos,
        end: WorldPos,
        thickness: i64,
        chunks: &mut Vec<WorldChunk>,
        chunk_manager: &ChunkManager,
    )
        requires
            all_wf(old(chunks)@),
            dist_sq(start, end) <= u128::MAX,
        ensures
            all_wf(final(chunks)@),
            models_of(final(chunks)@) == line_spawned(
                models_of(old(chunks)@),
                *chunk_manager,
                start,
                end,
                thickness,
                line_steps(start, end, thickness),
                line_steps(start, end, thickness) as nat,
            ),
    {
        let steps: i32 = count_line_steps(start, end, thickness);
        let ghost before = models_of(chunks@);
        let mut i: i32 = 0;
        while i < steps
            invariant
                0 <= i <= steps,
                steps == line_steps(start, end, thickness),
                all_wf(chunks@),
                models_of(chunks@) == line_spawned(
                    before,
                    *chunk_manager,
                    start,
                    end,
                    thickness,
                    steps as int,
                    i as nat,
                ),
            decreases steps - i,
        {
            let pos = point_on_line(start, end, steps, i);
            Self::spawn_fire_sphere(pos, thickness, chunks, chunk_manager);
            i += 1;
        }
    }
}

} // verus!
