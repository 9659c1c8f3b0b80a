//! What holds of every step of the automaton, whatever the generator draws.

use vstd::prelude::*;
use crate::simulation::cpu_simulation::{
    apply_change, apply_changes, chunk_step, fire_rule, holds_active, is_active, rng_after_step,
    scan, smoke_rule, voxel_rule, water_rule, writes_dynamic, VoxelChange,
};
use crate::world::chunk::{
    flat_index, holds_dynamic, in_chunk, lemma_coordinates_of_index, lemma_index_of_coordinates,
    x_of, y_of, z_of, ChunkModel, VOXELS_PER_CHUNK,
};
use crate::world::voxel::{MaterialType, VoxelData};

verus! {

/// Whether a write goes to the place `target` of the voxel sequence.
pub open spec fn writes_to(change: VoxelChange, target: int) -> bool {
    in_chunk(change.x as int, change.y as int, change.z as int) && flat_index(
        change.x as int,
        change.y as int,
        change.z as int,
    ) == target
}

/// Whether some write of the sequence goes to the place `target`.
pub open spec fn any_writes_to(changes: Seq<VoxelChange>, target: int) -> bool {
    exists|k: int| 0 <= k < changes.len() && writes_to(#[trigger] changes[k], target)
}

/// Writes keep the length of the voxel sequence.
pub proof fn lemma_apply_keeps_length(grid: Seq<VoxelData>, changes: Seq<VoxelChange>)
    requires
        grid.len() == VOXELS_PER_CHUNK,
    ensures
        apply_changes(grid, changes).len() == grid.len(),
    decreases changes.len(),
{
    if changes.len() > 0 {
        lemma_apply_keeps_length(grid, changes.drop_last());
        let last = changes.last();
        if in_chunk(last.x as int, last.y as int, last.z as int) {
            lemma_index_of_coordinates(last.x as int, last.y as int, last.z as int);
        }
    }
}

/// Carrying out two sequences of writes one after the other is carrying
/// out their concatenation.
pub proof fn lemma_apply_concatenation(
    grid: Seq<VoxelData>,
    first: Seq<VoxelChange>,
    second: Seq<VoxelChange>,
)
    ensures
        apply_changes(grid, first + second) == apply_changes(apply_changes(grid, first), second),
    decreases second.len(),
{
    if second.len() == 0 {
        assert(first + second =~= first);
    } else {
        assert((first + second).drop_last() =~= first + second.drop_last());
        assert((first + second).last() == second.last());
        lemma_apply_concatenation(grid, first, second.drop_last());
    }
}

/// A place that no write goes to holds after the writes what it held before.
pub proof fn lemma_apply_leaves_untouched(
    grid: Seq<VoxelData>,
    changes: Seq<VoxelChange>,
    target: int,
)
    requires
        grid.len() == VOXELS_PER_CHUNK,
        0 <= target < VOXELS_PER_CHUNK,
        !any_writes_to(changes, target),
    ensures
        apply_changes(grid, changes)[target] == grid[target],
    decreases changes.len(),
{
    if changes.len() > 0 {
        let rest = changes.drop_last();
        assert(!any_writes_to(rest, target)) by {
            if any_writes_to(rest, target) {
                let k = choose|k: int| 0 <= k < rest.len() && writes_to(#[trigger] rest[k], target);
                assert(changes[k] == rest[k]);
            }
        }
        lemma_apply_leaves_untouched(grid, rest, target);
        lemma_apply_keeps_length(grid, rest);
        assert(!writes_to(changes[changes.len() - 1], target));
        let last = changes.last();
        if in_chunk(last.x as int, last.y as int, last.z as int) {
            lemma_index_of_coordinates(last.x as int, last.y as int, last.z as int);
        }
    }
}

/// Every voxel after the writes is the voxel that was there before or the
/// voxel of one of the writes.
pub proof fn lemma_apply_origin(grid: Seq<VoxelData>, changes: Seq<VoxelChange>, place: int)
    requires
        grid.len() == VOXELS_PER_CHUNK,
        0 <= place < VOXELS_PER_CHUNK,
    ensures
        apply_changes(grid, changes)[place] == grid[place] || exists|k: int|
            0 <= k < changes.len() && (#[trigger] changes[k]).voxel == apply_changes(
                grid,
                changes,
            )[place],
    decreases changes.len(),
{
    if changes.len() > 0 {
        let rest = changes.drop_last();
        let last = changes.last();
        lemma_apply_origin(grid, rest, place);
        lemma_apply_keeps_length(grid, rest);
        if in_chunk(last.x as int, last.y as int, last.z as int) {
            lemma_index_of_coordinates(last.x as int, last.y as int, last.z as int);
        }
        let after = apply_changes(grid, changes);
        if writes_to(last, place) {
            assert(changes[changes.len() - 1].voxel == after[place]);
        } else {
            assert(after[place] == apply_changes(grid, rest)[place]);
            if after[place] != grid[place] {
                let k = choose|k: int|
                    0 <= k < rest.len() && (#[trigger] rest[k]).voxel == apply_changes(
                        grid,
                        rest,
                    )[place];
                assert(changes[k] == rest[k]);
            }
        }
    }
}

/// A step keeps a sound dynamic flag sound: if the flag was set wherever a
/// voxel was dynamic before the step, it is after it.
pub proof fn lemma_step_keeps_flag_sound(chunk: ChunkModel, rng: u32)
    requires
        chunk.wf(),
        chunk.flag_is_sound(),
    ensures
        chunk_step(chunk, rng).wf(),
        chunk_step(chunk, rng).flag_is_sound(),
{
    let changes = scan(chunk.voxels, VOXELS_PER_CHUNK as nat, rng).0;
    let after = chunk_step(chunk, rng);
    lemma_apply_keeps_length(chunk.voxels, changes);
    if holds_dynamic(after.voxels) {
        let i = choose|i: int|
            0 <= i < after.voxels.len() && (#[trigger] after.voxels[i]).spec_material(
            ).spec_is_dynamic();
        lemma_apply_origin(chunk.voxels, changes, i);
        if after.voxels[i] == chunk.voxels[i] {
            assert(chunk.voxels[i].spec_material().spec_is_dynamic());
        } else {
            let k = choose|k: int|
                0 <= k < changes.len() && (#[trigger] changes[k]).voxel == after.voxels[i];
            assert(changes[k].voxel.spec_material().spec_is_dynamic());
            assert(writes_dynamic(changes));
        }
    }
}

/// Passing over a chunk whose dynamic flag is unset loses nothing: where
/// the flag is sound and unset, a step would leave the chunk and the
/// generator exactly as they are.
pub proof fn lemma_unflagged_chunk_is_inert(chunk: ChunkModel, rng: u32)
    requires
        chunk.wf(),
        chunk.flag_is_sound(),
        !chunk.has_dynamic_elements,
    ensures
        chunk_step(chunk, rng) == chunk,
        rng_after_step(chunk, rng) == rng,
{
    assert(!holds_active(chunk.voxels)) by {
        if holds_active(chunk.voxels) {
            let i = choose|i: int|
                0 <= i < chunk.voxels.len() && is_active(
                    (#[trigger] chunk.voxels[i]).spec_material(),
                );
            assert(chunk.voxels[i].spec_material().spec_is_dynamic());
        }
    }
    crate::simulation::cpu_simulation::lemma_scan_of_inert(
        chunk.voxels,
        VOXELS_PER_CHUNK as nat,
        rng,
    );
    assert(chunk_step(chunk, rng) =~= chunk);
}

/// The rule of a voxel other than the water at `water` writes neither to
/// that water nor to the fire below it.
proof fn lemma_rule_spares_water_over_fire(grid: Seq<VoxelData>, i: int, rng: u32, water: int)
    requires
        grid.len() == VOXELS_PER_CHUNK,
        0 <= i < VOXELS_PER_CHUNK,
        64 <= water < VOXELS_PER_CHUNK,
        y_of(water) >= 1,
        grid[water].spec_material() == MaterialType::Water,
        grid[water - 64].spec_material() == MaterialType::Fire,
        i != water,
        i != water - 64,
    ensures
        !any_writes_to(voxel_rule(grid, i, rng).0, water),
        !any_writes_to(voxel_rule(grid, i, rng).0, water - 64),
{
    lemma_coordinates_of_index(i);
    let x = x_of(i);
    let y = y_of(i);
    let z = z_of(i);
    let changes = voxel_rule(grid, i, rng).0;
    assert(flat_index(x, y - 1, z) == i - 64);
    assert(flat_index(x, y + 1, z) == i + 64);
    assert forall|k: int| 0 <= k < changes.len() implies !writes_to(#[trigger] changes[k], water)
        && !writes_to(changes[k], water - 64) by {
        let c = changes[k];
        let m = grid[i].spec_material();
        if m == MaterialType::Fire {
            assert(changes == fire_rule(grid, x, y, z, grid[i], rng).0);
        } else if m == MaterialType::Smoke {
            assert(changes == smoke_rule(grid, x, y, z, grid[i], rng).0);
        } else if m == MaterialType::Water {
            assert(changes == water_rule(grid, x, y, z, grid[i], rng).0);
        }
    }
}

/// Water directly over fire puts the fire out, whatever the generator
/// draws and whatever else the chunk holds: after one step the place of
/// the water is air, and the place of the fire is smoke of density 150 and
/// temperature 50.
pub proof fn lemma_water_quenches_fire(grid: Seq<VoxelData>, rng: u32, x: int, y: int, z: int)
    requires
        grid.len() == VOXELS_PER_CHUNK,
        in_chunk(x, y, z),
        y >= 1,
        grid[flat_index(x, y, z)].spec_material() == MaterialType::Water,
        grid[flat_index(x, y - 1, z)].spec_material() == MaterialType::Fire,
    ensures
        ({
            let after = apply_changes(grid, scan(grid, VOXELS_PER_CHUNK as nat, rng).0);
            &&& after[flat_index(x, y, z)] == VoxelData::spec_air()
            &&& after[flat_index(x, y - 1, z)] == VoxelData::spec_new(
                MaterialType::Smoke,
                150,
                50,
                0,
            )
        }),
{
    let water = flat_index(x, y, z);
    lemma_index_of_coordinates(x, y, z);
    lemma_index_of_coordinates(x, y - 1, z);
    lemma_quench_holds_from(grid, VOXELS_PER_CHUNK as nat, rng, water);
}

/// Once the scan has passed a water over a fire, the writes collected so
/// far leave air in place of the water and smoke in place of the fire.
proof fn lemma_quench_holds_from(grid: Seq<VoxelData>, n: nat, rng: u32, water: int)
    requires
        grid.len() == VOXELS_PER_CHUNK,
        64 <= water < VOXELS_PER_CHUNK,
        y_of(water) >= 1,
        grid[water].spec_material() == MaterialType::Water,
        grid[water - 64].spec_material() == MaterialType::Fire,
        water < n <= VOXELS_PER_CHUNK,
    ensures
        ({
            let after = apply_changes(grid, scan(grid, n, rng).0);
            &&& after[water] == VoxelData::spec_air()
            &&& after[water - 64] == VoxelData::spec_new(MaterialType::Smoke, 150, 50, 0)
        }),
    decreases n,
{
    let before = scan(grid, (n - 1) as nat, rng);
    let here = voxel_rule(grid, n - 1, before.1);
    let earlier = apply_changes(grid, before.0);
    lemma_apply_concatenation(grid, before.0, here.0);
    lemma_apply_keeps_length(grid, before.0);
    if n - 1 == water {
        lemma_coordinates_of_index(water);
        let x = x_of(water);
        let y = y_of(water);
        let z = z_of(water);
        assert(flat_index(x, y - 1, z) == water - 64);
        assert(in_chunk(x, y - 1, z));
        let air = VoxelChange {
            x: x as u32,
            y: y as u32,
            z: z as u32,
            voxel: VoxelData::spec_air(),
        };
        let quench = VoxelChange {
            x: x as u32,
            y: (y - 1) as u32,
            z: z as u32,
            voxel: VoxelData::spec_new(MaterialType::Smoke, 150, 50, 0),
        };
        assert(here.0 =~= seq![air, quench]);
        assert(here.0.drop_last() =~= seq![air]);
        assert(seq![air].drop_last() =~= Seq::<VoxelChange>::empty());
        assert(apply_changes(earlier, seq![air]) == apply_change(
            apply_changes(earlier, Seq::<VoxelChange>::empty()),
            air,
        ));
        assert(apply_changes(earlier, here.0) == apply_change(
            apply_changes(earlier, seq![air]),
            quench,
        ));
    } else {
        lemma_quench_holds_from(grid, (n - 1) as nat, rng, water);
        lemma_rule_spares_water_over_fire(grid, n - 1, before.1, water);
        lemma_apply_leaves_untouched(earlier, here.0, water);
        lemma_apply_leaves_untouched(earlier, here.0, water - 64);
    }
}

} // verus!
