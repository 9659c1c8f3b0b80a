//! One step of the cellular automaton on a chunk.
//!
//! A step scans every voxel of the chunk in storage order and collects the
//! writes that the rules of fire, smoke and water ask for. Only when the scan
//! is over are the writes carried out, in the order in which they were
//! collected, so that every rule reads the chunk as it was before the step.

use vstd::prelude::*;
use crate::simulation::random::{
    chance, lcg_next, pick_quarter, spec_chance, spec_pick_quarter, SimRng,
};
use crate::world::chunk::{
    all_wf, flat_index, in_chunk, models_of, ChunkModel, WorldChunk, VOXELS_PER_CHUNK,
};
use crate::world::chunk_manager::{ChunkId, ChunkManager};
use crate::world::voxel::{MaterialType, VoxelData};

verus! {

/// A write that a rule asks for: `voxel` goes to `(x, y, z)`.
#[derive(Debug, Clone, Copy, PartialEq, Eq, Structural)]
pub struct VoxelChange {
    pub x: u32,
    pub y: u32,
    pub z: u32,
    pub voxel: VoxelData,
}

/// The write of `voxel` to `(x, y, z)`.
pub open spec fn change_at(x: int, y: int, z: int, voxel: VoxelData) -> VoxelChange {
    VoxelChange { x: x as u32, y: y as u32, z: z as u32, voxel }
}

/// The material at `(x, y, z)`, if that is a voxel of the chunk.
pub open spec fn material_in(grid: Seq<VoxelData>, x: int, y: int, z: int) -> Option<MaterialType> {
    if in_chunk(x, y, z) {
        Some(grid[flat_index(x, y, z)].spec_material())
    } else {
        None
    }
}

/// The horizontal neighbour of the column `(x, z)` in the direction `dir`:
/// +x, -x, +z, -z for 0, 1, 2, 3.
pub open spec fn neighbor_of(x: int, z: int, dir: int) -> (int, int) {
    if dir == 0 {
        (x + 1, z)
    } else if dir == 1 {
        (x - 1, z)
    } else if dir == 2 {
        (x, z + 1)
    } else {
        (x, z - 1)
    }
}

/// Whether a material has a rule of its own: fire, smoke and water have one.
pub open spec fn is_active(material: MaterialType) -> bool {
    material == MaterialType::Fire || material == MaterialType::Smoke || material
        == MaterialType::Water
}

/// Whether some voxel of the sequence has a material with a rule.
pub open spec fn holds_active(grid: Seq<VoxelData>) -> bool {
    exists|i: int| 0 <= i < grid.len() && is_active((#[trigger] grid[i]).spec_material())
}

/// What the fire at `(x, y, z)` asks for, and the generator state it leaves.
///
/// With 5 in 100 it turns to smoke. Otherwise it rises into air above it.
/// Otherwise, with 25 in 100, it picks a horizontal neighbour: air there
/// catches fire, wood there catches a hotter fire.
pub open spec fn fire_rule(
    grid: Seq<VoxelData>,
    x: int,
    y: int,
    z: int,
    voxel: VoxelData,
    rng: u32,
) -> (Seq<VoxelChange>, u32) {
    let d1 = lcg_next(rng);
    if spec_chance(d1, 5) {
        (seq![change_at(x, y, z, VoxelData::spec_new(MaterialType::Smoke, 200, 150, 0))], d1)
    } else if y < 63 && material_in(grid, x, y + 1, z) == Some(MaterialType::Air) {
        (seq![change_at(x, y, z, VoxelData::spec_air()), change_at(x, y + 1, z, voxel)], d1)
    } else {
        let d2 = lcg_next(d1);
        if spec_chance(d2, 25) {
            let d3 = lcg_next(d2);
            let (nx, nz) = neighbor_of(x, z, spec_pick_quarter(d3) as int);
            let target = material_in(grid, nx, y, nz);
            if target == Some(MaterialType::Air) {
                (
                    seq![
                        change_at(nx, y, nz, VoxelData::spec_new(MaterialType::Fire, 255, 200, 0)),
                    ],
                    d3,
                )
            } else if target == Some(MaterialType::Wood) {
                (
                    seq![
                        change_at(nx, y, nz, VoxelData::spec_new(MaterialType::Fire, 255, 250, 0)),
                    ],
                    d3,
                )
            } else {
                (Seq::empty(), d3)
            }
        } else {
            (Seq::empty(), d2)
        }
    }
}

/// What the smoke at `(x, y, z)` asks for, and the generator state it leaves.
///
/// With 2 in 100 it vanishes. Otherwise, below the top layer and with 30 in
/// 100, it rises into air above it.
pub open spec fn smoke_rule(
    grid: Seq<VoxelData>,
    x: int,
    y: int,
    z: int,
    voxel: VoxelData,
    rng: u32,
) -> (Seq<VoxelChange>, u32) {
    let d1 = lcg_next(rng);
    if spec_chance(d1, 2) {
        (seq![change_at(x, y, z, VoxelData::spec_air())], d1)
    } else if y < 63 {
        let d2 = lcg_next(d1);
        if spec_chance(d2, 30) && material_in(grid, x, y + 1, z) == Some(MaterialType::Air) {
            (seq![change_at(x, y, z, VoxelData::spec_air()), change_at(x, y + 1, z, voxel)], d2)
        } else {
            (Seq::empty(), d2)
        }
    } else {
        (Seq::empty(), d1)
    }
}

/// What the water at `(x, y, z)` asks for, and the generator state it leaves.
///
/// It falls into air below it. Over fire it is used up and turns the fire to
/// smoke. Otherwise, with 50 in 100, it picks a horizontal neighbour and
/// spreads into air there.
pub open spec fn water_rule(
    grid: Seq<VoxelData>,
    x: int,
    y: int,
    z: int,
    voxel: VoxelData,
    rng: u32,
) -> (Seq<VoxelChange>, u32) {
    if y > 0 && material_in(grid, x, y - 1, z) == Some(MaterialType::Air) {
        (seq![change_at(x, y, z, VoxelData::spec_air()), change_at(x, y - 1, z, voxel)], rng)
    } else if y > 0 && material_in(grid, x, y - 1, z) == Some(MaterialType::Fire) {
        (
            seq![
                change_at(x, y, z, VoxelData::spec_air()),
                change_at(x, y - 1, z, VoxelData::spec_new(MaterialType::Smoke, 150, 50, 0)),
            ],
            rng,
        )
    } else {
        let d1 = lcg_next(rng);
        if spec_chance(d1, 50) {
            let d2 = lcg_next(d1);
            let (nx, nz) = neighbor_of(x, z, spec_pick_quarter(d2) as int);
            if material_in(grid, nx, y, nz) == Some(MaterialType::Air) {
                (seq![change_at(nx, y, nz, voxel)], d2)
            } else {
                (Seq::empty(), d2)
            }
        } else {
            (Seq::empty(), d1)
        }
    }
}

/// What the voxel at the place `i` of the sequence asks for: the rule of its
/// material, or nothing where the material has no rule.
pub open spec fn voxel_rule(grid: Seq<VoxelData>, i: int, rng: u32) -> (Seq<VoxelChange>, u32) {
    let x = i % 64;
    let y = (i / 64) % 64;
    let z = i / 4096;
    let voxel = grid[i];
    let material = voxel.spec_material();
    if material == MaterialType::Fire {
        fire_rule(grid, x, y, z, voxel, rng)
    } else if material == MaterialType::Smoke {
        smoke_rule(grid, x, y, z, voxel, rng)
    } else if material == MaterialType::Water {
        water_rule(grid, x, y, z, voxel, rng)
    } else {
        (Seq::empty(), rng)
    }
}

/// The writes collected from the first `n` voxels of the sequence, in scan
/// order, and the generator state after them.
pub open spec fn scan(grid: Seq<VoxelData>, n: nat, rng: u32) -> (Seq<VoxelChange>, u32)
    decreases n,
{
    if n == 0 {
        (Seq::empty(), rng)
    } else {
        let before = scan(grid, (n - 1) as nat, rng);
        let here = voxel_rule(grid, n - 1, before.1);
        (before.0 + here.0, here.1)
    }
}

/// The sequence after one write; a write outside the chunk changes nothing.
pub open spec fn apply_change(grid: Seq<VoxelData>, change: VoxelChange) -> Seq<VoxelData> {
    if in_chunk(change.x as int, change.y as int, change.z as int) {
        grid.update(flat_index(change.x as int, change.y as int, change.z as int), change.voxel)
    } else {
        grid
    }
}

/// The sequence after the writes, carried out first to last.
pub open spec fn apply_changes(grid: Seq<VoxelData>, changes: Seq<VoxelChange>) -> Seq<VoxelData>
    decreases changes.len(),
{
    if changes.len() == 0 {
        grid
    } else {
        apply_change(apply_changes(grid, changes.drop_last()), changes.last())
    }
}

/// Whether some write puts down a dynamic material.
pub open spec fn writes_dynamic(changes: Seq<VoxelChange>) -> bool {
    exists|k: int|
        0 <= k < changes.len() && (#[trigger] changes[k]).voxel.spec_material().spec_is_dynamic()
}

/// Whether every write goes to a voxel of the chunk.
pub open spec fn all_in_chunk(changes: Seq<VoxelChange>) -> bool {
    forall|k: int|
        0 <= k < changes.len() ==> in_chunk(
            (#[trigger] changes[k]).x as int,
            changes[k].y as int,
            changes[k].z as int,
        )
}

/// The horizontal neighbour of the column `(x, z)` in the direction `dir`,
/// where it is a column of the chunk.
fn horizontal_neighbor(x: u32, z: u32, dir: u32) -> (column: Option<(u32, u32)>)
    requires
        dir < 4,
    ensures
        match column {
            Some((nx, nz)) => neighbor_of(x as int, z as int, dir as int) == (nx as int, nz as int)
                && nx < 64 && nz < 64,
            None => {
                let (nx, nz) = neighbor_of(x as int, z as int, dir as int);
                !(0 <= nx < 64 && 0 <= nz < 64)
            },
        },
{
    let wide_x: i64 = x as i64;
    let wide_z: i64 = z as i64;
    let (nx, nz): (i64, i64) = if dir == 0 {
        (wide_x + 1, wide_z)
    } else if dir == 1 {
        (wide_x - 1, wide_z)
    } else if dir == 2 {
        (wide_x, wide_z + 1)
    } else {
        (wide_x, wide_z - 1)
    };
    if 0 <= nx && nx < 64 && 0 <= nz && nz < 64 {
        Some((nx as u32, nz as u32))
    } else {
        None
    }
}

/// The material at `(x, y, z)`, if that is a voxel of the chunk.
fn material_at(chunk: &WorldChunk, x: u32, y: u32, z: u32) -> (material: Option<MaterialType>)
    requires
        chunk.wf(),
    ensures
        material == material_in(chunk.voxels@, x as int, y as int, z as int),
{
    match chunk.get_voxel(x, y, z) {
        Some(voxel) => Some(voxel.material()),
        None => None,
    }
}

/// Collects what the fire `voxel` at `(x, y, z)` asks for.
pub fn simulate_fire_voxel(
    chunk: &WorldChunk,
    x: u32,
    y: u32,
    z: u32,
    voxel: VoxelData,
    rng: &mut SimRng,
    changes: &mut Vec<VoxelChange>,
)
    requires
        chunk.wf(),
    ensures
        final(changes)@ == old(changes)@ + fire_rule(
            chunk.voxels@,
            x as int,
            y as int,
            z as int,
            voxel,
            old(rng).state,
        ).0,
        final(rng).state == fire_rule(
            chunk.voxels@,
            x as int,
            y as int,
            z as int,
            voxel,
            old(rng).state,
        ).1,
{
    let ghost before = changes@;
    let d1: u32 = rng.next_u32();
    if chance(d1, 5) {
        let smoke = VoxelData::new(MaterialType::Smoke, 200, 150, 0);
        changes.push(VoxelChange { x, y, z, voxel: smoke });
        assert(changes@ =~= before + seq![change_at(x as int, y as int, z as int, smoke)]);
        return ;
    }
    if y < 63 {
        if let Some(MaterialType::Air) = material_at(chunk, x, y + 1, z) {
            changes.push(VoxelChange { x, y, z, voxel: VoxelData::air() });
            changes.push(VoxelChange { x, y: y + 1, z, voxel });
            assert(changes@ =~= before + seq![
                change_at(x as int, y as int, z as int, VoxelData::spec_air()),
                change_at(x as int, y + 1, z as int, voxel),
            ]);
            return ;
        }
    }
    let d2: u32 = rng.next_u32();
    if chance(d2, 25) {
        let d3: u32 = rng.next_u32();
        if let Some((nx, nz)) = horizontal_neighbor(x, z, pick_quarter(d3)) {
            match material_at(chunk, nx, y, nz) {
                Some(MaterialType::Air) => {
                    let new_fire = VoxelData::new(MaterialType::Fire, 255, 200, 0);
                    changes.push(VoxelChange { x: nx, y, z: nz, voxel: new_fire });
                    assert(changes@ =~= before + seq![
                        change_at(nx as int, y as int, nz as int, new_fire),
                    ]);
                },
                Some(MaterialType::Wood) => {
                    let new_fire = VoxelData::new(MaterialType::Fire, 255, 250, 0);
                    changes.push(VoxelChange { x: nx, y, z: nz, voxel: new_fire });
                    assert(changes@ =~= before + seq![
                        change_at(nx as int, y as int, nz as int, new_fire),
                    ]);
                },
                _ => {
                    assert(changes@ =~= before + Seq::<VoxelChange>::empty());
                },
            }
        } else {
            assert(changes@ =~= before + Seq::<VoxelChange>::empty());
        }
    } else {
        assert(changes@ =~= before + Seq::<VoxelChange>::empty());
    }
}

/// Collects what the smoke `voxel` at `(x, y, z)` asks for.
pub fn simulate_smoke_voxel(
    chunk: &WorldChunk,
    x: u32,
    y: u32,
    z: u32,
    voxel: VoxelData,
    rng: &mut SimRng,
    changes: &mut Vec<VoxelChange>,
)
    requires
        chunk.wf(),
    ensures
        final(changes)@ == old(changes)@ + smoke_rule(
            chunk.voxels@,
            x as int,
            y as int,
            z as int,
            voxel,
            old(rng).state,
        ).0,
        final(rng).state == smoke_rule(
            chunk.voxels@,
            x as int,
            y as int,
            z as int,
            voxel,
            old(rng).state,
        ).1,
{
    let ghost before = changes@;
    let d1: u32 = rng.next_u32();
    if chance(d1, 2) {
        changes.push(VoxelChange { x, y, z, voxel: VoxelData::air() });
        assert(changes@ =~= before + seq![
            change_at(x as int, y as int, z as int, VoxelData::spec_air()),
        ]);
        return ;
    }
    if y < 63 {
        let d2: u32 = rng.next_u32();
        if chance(d2, 30) {
            if let Some(MaterialType::Air) = material_at(chunk, x, y + 1, z) {
                changes.push(VoxelChange { x, y, z, voxel: VoxelData::air() });
                changes.push(VoxelChange { x, y: y + 1, z, voxel });
                assert(changes@ =~= before + seq![
                    change_at(x as int, y as int, z as int, VoxelData::spec_air()),
                    change_at(x as int, y + 1, z as int, voxel),
                ]);
                return ;
            }
        }
    }
    assert(changes@ =~= before + Seq::<VoxelChange>::empty());
}

/// Collects what the water `voxel` at `(x, y, z)` asks for.
pub fn simulate_water_voxel(
    chunk: &WorldChunk,
    x: u32,
    y: u32,
    z: u32,
    voxel: VoxelData,
    rng: &mut SimRng,
    changes: &mut Vec<VoxelChange>,
)
    requires
        chunk.wf(),
    ensures
        final(changes)@ == old(changes)@ + water_rule(
            chunk.voxels@,
            x as int,
            y as int,
            z as int,
            voxel,
            old(rng).state,
        ).0,
        final(rng).state == water_rule(
            chunk.voxels@,
            x as int,
            y as int,
            z as int,
            voxel,
            old(rng).state,
        ).1,
{
    let ghost before = changes@;
    if y > 0 {
        match material_at(chunk, x, y - 1, z) {
            Some(MaterialType::Air) => {
                changes.push(VoxelChange { x, y, z, voxel: VoxelData::air() });
                changes.push(VoxelChange { x, y: y - 1, z, voxel });
                assert(changes@ =~= before + seq![
                    change_at(x as int, y as int, z as int, VoxelData::spec_air()),
                    change_at(x as int, y - 1, z as int, voxel),
                ]);
                return ;
            },
            Some(MaterialType::Fire) => {
                let smoke = VoxelData::new(MaterialType::Smoke, 150, 50, 0);
                changes.push(VoxelChange { x, y, z, voxel: VoxelData::air() });
                changes.push(VoxelChange { x, y: y - 1, z, voxel: smoke });
                assert(changes@ =~= before + seq![
                    change_at(x as int, y as int, z as int, VoxelData::spec_air()),
                    change_at(x as int, y - 1, z as int, smoke),
                ]);
                return ;
            },
            _ => {},
        }
    }
    let d1: u32 = rng.next_u32();
    if chance(d1, 50) {
        let d2: u32 = rng.next_u32();
        if let Some((nx, nz)) = horizontal_neighbor(x, z, pick_quarter(d2)) {
            if let Some(MaterialType::Air) = material_at(chunk, nx, y, nz) {
                changes.push(VoxelChange { x: nx, y, z: nz, voxel });
                assert(changes@ =~= before + seq![
                    change_at(nx as int, y as int, nz as int, voxel),
                ]);
                return ;
            }
        }
    }
    assert(changes@ =~= before + Seq::<VoxelChange>::empty());
}

/// The chunk after one step with the generator at `rng`: the writes of the
/// scan carried out in order, the chunk dirty if there was a write, its
/// dynamic flag set if a write put down a dynamic material, position and
/// bounds as they were.
pub open spec fn chunk_step(chunk: ChunkModel, rng: u32) -> ChunkModel {
    let step = scan(chunk.voxels, VOXELS_PER_CHUNK as nat, rng);
    ChunkModel {
        voxels: apply_changes(chunk.voxels, step.0),
        dirty: chunk.dirty || step.0.len() > 0,
        has_dynamic_elements: chunk.has_dynamic_elements || writes_dynamic(step.0),
        ..chunk
    }
}

/// The generator state after a step of one chunk.
pub open spec fn rng_after_step(chunk: ChunkModel, rng: u32) -> u32 {
    scan(chunk.voxels, VOXELS_PER_CHUNK as nat, rng).1
}

/// Whether a step of the world scans the chunk with the identity `id`: its
/// dynamic flag is set and the index holds it.
pub open spec fn is_scanned(chunks: Seq<ChunkModel>, manager: ChunkManager, id: int) -> bool {
    chunks[id].has_dynamic_elements && manager.is_registered(id as ChunkId)
}

/// The generator state after a step has passed the first `n` chunks.
pub open spec fn rng_after_chunks(
    chunks: Seq<ChunkModel>,
    manager: ChunkManager,
    n: nat,
    rng: u32,
) -> u32
    decreases n,
{
    if n == 0 {
        rng
    } else {
        let state = rng_after_chunks(chunks, manager, (n - 1) as nat, rng);
        if is_scanned(chunks, manager, n - 1) {
            rng_after_step(chunks[n - 1], state)
        } else {
            state
        }
    }
}

/// The chunks after one step with the generator at `rng` before the first
/// of them: every chunk that the index holds and whose dynamic flag is set
/// is stepped, in the order of the storage, each with the generator as the
/// chunks before it left it.
pub open spec fn world_step(
    chunks: Seq<ChunkModel>,
    manager: ChunkManager,
    rng: u32,
) -> Seq<ChunkModel> {
    Seq::new(
        chunks.len(),
        |i: int|
            if is_scanned(chunks, manager, i) {
                chunk_step(chunks[i], rng_after_chunks(chunks, manager, i as nat, rng))
            } else {
                chunks[i]
            },
    )
}

/// One step of the automaton on `chunk`.
///
/// The scan visits the voxels in storage order and draws from `rng` as the
/// rules ask; the writes it collects are then carried out first to last.
/// The chunk becomes dirty if there was a write, and its dynamic flag is set
/// if a write put down a dynamic material. A chunk without fire, smoke and
/// water is left exactly as it was, and so is the generator.
pub fn simulate_chunk(chunk: &mut WorldChunk, rng: &mut SimRng)
    requires
        old(chunk).wf(),
    ensures
        final(chunk).wf(),
        final(chunk)@ == chunk_step(old(chunk)@, old(rng).state),
        final(rng).state == rng_after_step(old(chunk)@, old(rng).state),
        !holds_active(old(chunk).voxels@) ==> {
            &&& final(chunk)@ == old(chunk)@
            &&& final(rng).state == old(rng).state
        },
{
    let ghost grid = chunk.voxels@;
    let ghost seed = rng.state;
    let ghost dirty_before = chunk.dirty;
    let ghost dynamic_before = chunk.has_dynamic_elements;
    let mut changes: Vec<VoxelChange> = Vec::new();
    assert(changes@ =~= scan(grid, 0, seed).0);

    let mut z: u32 = 0;
    while z < 64
        invariant
            z <= 64,
            chunk.wf(),
            chunk.voxels@ == grid,
            chunk.dirty == dirty_before,
            chunk.has_dynamic_elements == dynamic_before,
            chunk.chunk_position == old(chunk).chunk_position,
            chunk.world_bounds == old(chunk).world_bounds,
            changes@ == scan(grid, (z * 4096) as nat, seed).0,
            rng.state == scan(grid, (z * 4096) as nat, seed).1,
        decreases 64 - z,
    {
        let mut y: u32 = 0;
        while y < 64
            invariant
                z < 64,
                y <= 64,
                chunk.wf(),
                chunk.voxels@ == grid,
                chunk.dirty == dirty_before,
                chunk.has_dynamic_elements == dynamic_before,
                chunk.chunk_position == old(chunk).chunk_position,
                chunk.world_bounds == old(chunk).world_bounds,
                changes@ == scan(grid, (z * 4096 + y * 64) as nat, seed).0,
                rng.state == scan(grid, (z * 4096 + y * 64) as nat, seed).1,
            decreases 64 - y,
        {
            let mut x: u32 = 0;
            while x < 64
                invariant
                    z < 64,
                    y < 64,
                    x <= 64,
                    chunk.wf(),
                    chunk.voxels@ == grid,
                    chunk.dirty == dirty_before,
                    chunk.has_dynamic_elements == dynamic_before,
                    chunk.chunk_position == old(chunk).chunk_position,
                    chunk.world_bounds == old(chunk).world_bounds,
                    changes@ == scan(grid, (z * 4096 + y * 64 + x) as nat, seed).0,
                    rng.state == scan(grid, (z * 4096 + y * 64 + x) as nat, seed).1,
                decreases 64 - x,
            {
                let ghost n: int = z * 4096 + y * 64 + x;
                let ghost collected = changes@;
                let ghost state = rng.state;
                proof {
                    assert(n % 64 == x && (n / 64) % 64 == y && n / 4096 == z);
                    assert(n == flat_index(x as int, y as int, z as int));
                    assert(scan(grid, (n + 1) as nat, seed) == ({
                        let here = voxel_rule(grid, n, state);
                        (collected + here.0, here.1)
                    }));
                }
                if let Some(voxel) = chunk.get_voxel(x, y, z) {
                    match voxel.material() {
                        MaterialType::Fire => {
                            simulate_fire_voxel(chunk, x, y, z, voxel, rng, &mut changes);
                        },
                        MaterialType::Smoke => {
                            simulate_smoke_voxel(chunk, x, y, z, voxel, rng, &mut changes);
                        },
                        MaterialType::Water => {
                            simulate_water_voxel(chunk, x, y, z, voxel, rng, &mut changes);
                        },
                        _ => {
                            assert(changes@ =~= collected + Seq::<VoxelChange>::empty());
                        },
                    }
                }
                x += 1;
            }
            y += 1;
        }
        z += 1;
    }

    let ghost collected = changes@;
    proof {
        lemma_scan_writes_in_chunk(grid, VOXELS_PER_CHUNK as nat, seed);
        if !holds_active(grid) {
            lemma_scan_of_inert(grid, VOXELS_PER_CHUNK as nat, seed);
        }
        assert(collected.take(0) =~= Seq::<VoxelChange>::empty());
    }
    let mut k: usize = 0;
    while k < changes.len()
        invariant
            k <= changes.len(),
            changes@ == collected,
            all_in_chunk(collected),
            chunk.wf(),
            chunk.chunk_position == old(chunk).chunk_position,
            chunk.world_bounds == old(chunk).world_bounds,
            chunk.voxels@ == apply_changes(grid, collected.take(k as int)),
            chunk.dirty == (dirty_before || k > 0),
            chunk.has_dynamic_elements == (dynamic_before || writes_dynamic(
                collected.take(k as int),
            )),
        decreases changes.len() - k,
    {
        let change = changes[k];
        chunk.set_voxel(change.x, change.y, change.z, change.voxel);
        proof {
            let shorter = collected.take(k as int);
            let longer = collected.take(k + 1);
            assert(longer.drop_last() =~= shorter);
            assert(longer.last() == change);
            assert(in_chunk(
                collected[k as int].x as int,
                collected[k as int].y as int,
                collected[k as int].z as int,
            ));
            assert(writes_dynamic(longer) == (writes_dynamic(shorter)
                || change.voxel.spec_material().spec_is_dynamic())) by {
                if writes_dynamic(shorter) {
                    let j = choose|j: int|
                        0 <= j < shorter.len() && (#[trigger] shorter[j]).voxel.spec_material(
                        ).spec_is_dynamic();
                    assert(longer[j] == shorter[j]);
                }
                if change.voxel.spec_material().spec_is_dynamic() {
                    assert(longer[k as int] == change);
                }
                if writes_dynamic(longer) {
                    let j = choose|j: int|
                        0 <= j < longer.len() && (#[trigger] longer[j]).voxel.spec_material(
                        ).spec_is_dynamic();
                    if j < k {
                        assert(shorter[j] == longer[j]);
                    }
                }
            }
        }
        k += 1;
    }
    proof {
        assert(collected.take(collected.len() as int) =~= collected);
        assert(!writes_dynamic(Seq::<VoxelChange>::empty()));
        assert(chunk@ =~= chunk_step(old(chunk)@, seed));
        if !holds_active(grid) {
            assert(chunk@ =~= old(chunk)@);
        }
    }
}

/// Every write that the rule of one voxel of the chunk asks for goes to a
/// voxel of the chunk.
pub proof fn lemma_rule_writes_in_chunk(grid: Seq<VoxelData>, i: int, rng: u32)
    requires
        0 <= i < VOXELS_PER_CHUNK,
    ensures
        all_in_chunk(voxel_rule(grid, i, rng).0),
{
    let x = i % 64;
    let y = (i / 64) % 64;
    let z = i / 4096;
    assert(in_chunk(x, y, z));
}

/// Every write that a scan of voxels of the chunk collects goes to a voxel
/// of the chunk.
pub proof fn lemma_scan_writes_in_chunk(grid: Seq<VoxelData>, n: nat, rng: u32)
    requires
        n <= VOXELS_PER_CHUNK,
    ensures
        all_in_chunk(scan(grid, n, rng).0),
    decreases n,
{
    if n > 0 {
        let before = scan(grid, (n - 1) as nat, rng);
        let here = voxel_rule(grid, n - 1, before.1);
        lemma_scan_writes_in_chunk(grid, (n - 1) as nat, rng);
        lemma_rule_writes_in_chunk(grid, n - 1, before.1);
        let all = before.0 + here.0;
        assert forall|k: int| 0 <= k < all.len() implies in_chunk(
            (#[trigger] all[k]).x as int,
            all[k].y as int,
            all[k].z as int,
        ) by {
            if k < before.0.len() {
                assert(all[k] == before.0[k]);
            } else {
                assert(all[k] == here.0[k - before.0.len()]);
            }
        }
    }
}

/// A scan over voxels without fire, smoke and water collects no write and
/// draws nothing from the generator.
pub proof fn lemma_scan_of_inert(grid: Seq<VoxelData>, n: nat, rng: u32)
    requires
        n <= grid.len(),
        !holds_active(grid),
    ensures
        scan(grid, n, rng) == (Seq::<VoxelChange>::empty(), rng),
    decreases n,
{
    if n > 0 {
        lemma_scan_of_inert(grid, (n - 1) as nat, rng);
        assert(!is_active(grid[n - 1].spec_material()));
        assert(Seq::<VoxelChange>::empty() + Seq::<VoxelChange>::empty() =~= Seq::<
            VoxelChange,
        >::empty());
    }
}

/// A step on a chunk that holds only materials without a rule (air, the
/// solid materials, debris) is the identity: the voxels after the step are
/// the voxels before it, and the generator has not moved.
pub proof fn lemma_inert_chunk_is_unchanged(grid: Seq<VoxelData>, rng: u32)
    requires
        grid.len() == VOXELS_PER_CHUNK,
        !holds_active(grid),
    ensures
        apply_changes(grid, scan(grid, VOXELS_PER_CHUNK as nat, rng).0) == grid,
        scan(grid, VOXELS_PER_CHUNK as nat, rng).1 == rng,
{
    lemma_scan_of_inert(grid, VOXELS_PER_CHUNK as nat, rng);
}

/// Steps every chunk that the index holds and whose dynamic flag is set,
/// in the order of `chunks`, drawing from one generator throughout.
pub fn simulate_chunks(chunks: &mut Vec<WorldChunk>, manager: &ChunkManager, rng: &mut SimRng)
    requires
        all_wf(old(chunks)@),
    ensures
        all_wf(final(chunks)@),
        models_of(final(chunks)@) == world_step(
            models_of(old(chunks)@),
            *manager,
            old(rng).state,
        ),
        final(rng).state == rng_after_chunks(
            models_of(old(chunks)@),
            *manager,
            old(chunks)@.len(),
            old(rng).state,
        ),
{
    let ghost before = models_of(chunks@);
    let ghost seed = rng.state;
    let held: Vec<bool> = manager.registered(chunks.len());
    let mut i: usize = 0;
    while i < chunks.len()
        invariant
            i <= chunks.len(),
            chunks@.len() == before.len(),
            held@.len() == before.len(),
            forall|j: int|
                0 <= j < before.len() ==> held@[j] == manager.is_registered(j as ChunkId),
            all_wf(chunks@),
            forall|j: int| i <= j < chunks@.len() ==> (#[trigger] chunks@[j])@ == before[j],
            forall|j: int|
                0 <= j < i ==> (#[trigger] chunks@[j])@ == world_step(before, *manager, seed)[j],
            rng.state == rng_after_chunks(before, *manager, i as nat, seed),
        decreases chunks.len() - i,
    {
        if held[i] && chunks[i].has_dynamic_elements {
            simulate_chunk(&mut chunks[i], rng);
        }
        i += 1;
    }
    assert(models_of(chunks@) =~= world_step(before, *manager, seed));
}

/// Steps of the automaton in one second.
pub const STEPS_PER_SECOND: u64 = 15;

/// Microseconds in one second.
pub const MICROS_PER_SECOND: u64 = 1_000_000;

/// What the simulation carries from one call to the next: its generator and
/// the time that has passed since the last step.
#[derive(Debug, Clone, Copy, PartialEq, Eq, Structural)]
pub struct SimulationContext {
    /// The generator that the rules draw from.
    pub rng: SimRng,
    /// The time not yet used up by a step, in fifteenths of a microsecond,
    /// so that one step uses up exactly `MICROS_PER_SECOND` of them.
    pub accumulator: u64,
}

/// The accumulator after `delta_micros` microseconds have been added to it;
/// it stops at the end of the range of `u64`.
pub open spec fn accumulate(accumulator: u64, delta_micros: u64) -> u64 {
    let total = accumulator + STEPS_PER_SECOND * delta_micros;
    if total > u64::MAX {
        u64::MAX
    } else {
        total as u64
    }
}

impl SimulationContext {
    /// A context with no time accumulated, whose generator starts from `seed`.
    pub fn new(seed: u32) -> (context: Self)
        ensures
            context.rng.state == seed,
            context.accumulator == 0,
    {
        Self { rng: SimRng::new(seed), accumulator: 0 }
    }

    /// Adds `delta_micros` microseconds to the accumulated time and says
    /// whether a step is due: it is once a fifteenth of a second has
    /// accumulated. A step that is due uses up that fifteenth; what is left
    /// over is carried forward.
    pub fn advance_clock(&mut self, delta_micros: u64) -> (due: bool)
        ensures
            due == (accumulate(old(self).accumulator, delta_micros) >= MICROS_PER_SECOND),
            final(self).accumulator == (if due {
                (accumulate(old(self).accumulator, delta_micros) - MICROS_PER_SECOND) as u64
            } else {
                accumulate(old(self).accumulator, delta_micros)
            }),
            final(self).rng == old(self).rng,
    {
        let total: u128 = self.accumulator as u128 + (STEPS_PER_SECOND as u128) * (
        delta_micros as u128);
        let capped: u64 = if total > u64::MAX as u128 {
            u64::MAX
        } else {
            total as u64
        };
        if capped < MICROS_PER_SECOND {
            self.accumulator = capped;
            false
        } else {
            self.accumulator = capped - MICROS_PER_SECOND;
            true
        }
    }
}

/// Advances the simulation by `delta_micros` microseconds of elapsed time:
/// at most one step, taken when a fifteenth of a second has accumulated, on
/// every chunk that the index holds and whose dynamic flag is set.
pub fn simulate_fire_cpu(
    context: &mut SimulationContext,
    delta_micros: u64,
    manager: &ChunkManager,
    chunks: &mut Vec<WorldChunk>,
) -> (stepped: bool)
    requires
        all_wf(old(chunks)@),
    ensures
        all_wf(final(chunks)@),
        stepped == (accumulate(old(context).accumulator, delta_micros) >= MICROS_PER_SECOND),
        final(context).accumulator == (if stepped {
            (accumulate(old(context).accumulator, delta_micros) - MICROS_PER_SECOND) as u64
        } else {
            accumulate(old(context).accumulator, delta_micros)
        }),
        stepped ==> {
            &&& models_of(final(chunks)@) == world_step(
                models_of(old(chunks)@),
                *manager,
                old(context).rng.state,
            )
            &&& final(context).rng.state == rng_after_chunks(
                models_of(old(chunks)@),
                *manager,
                old(chunks)@.len(),
                old(context).rng.state,
            )
        },
        !stepped ==> {
            &&& final(chunks)@ == old(chunks)@
            &&& final(context).rng == old(context).rng
        },
{
    if !context.advance_clock(delta_micros) {
        return false;
    }
    simulate_chunks(chunks, manager, &mut context.rng);
    true
}

} // verus!
