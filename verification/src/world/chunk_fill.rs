//! Filling parts of a chunk: regions between two corners, and spheres
//! around a world point.

use vstd::prelude::*;
use crate::world::chunk::{
    center_in, flat_index, holds_dynamic, in_chunk, in_region, in_sphere,
    lemma_coordinates_of_index, lemma_index_of_coordinates, region_meets_chunk, x_of, y_of, z_of,
    BoundingBox, ChunkModel, WorldChunk, CHUNK_SIZE, VOXELS_PER_CHUNK,
};
use crate::world::coords::{
    abs_diff, LocalPos, WorldPos, WORLD_UNITS_PER_CHUNK, WORLD_UNITS_PER_VOXEL,
    WORLD_UNITS_TO_CENTER,
};
use crate::world::voxel::VoxelData;

verus! {

/// Whether a fill of the box from `lo` to `hi` (`hi` not included), kept to
/// the sphere `ball` where one is given, writes the voxel `(x, y, z)`.
spec fn selected(
    bounds: BoundingBox,
    lo: LocalPos,
    hi: LocalPos,
    ball: Option<(WorldPos, i64)>,
    x: int,
    y: int,
    z: int,
) -> bool {
    &&& lo.x <= x < hi.x
    &&& lo.y <= y < hi.y
    &&& lo.z <= z < hi.z
    &&& match ball {
        Some((center, radius)) => in_sphere(center, radius, center_in(bounds, x, y, z)),
        None => true,
    }
}

/// Whether such a fill writes any voxel.
spec fn selects_any(
    bounds: BoundingBox,
    lo: LocalPos,
    hi: LocalPos,
    ball: Option<(WorldPos, i64)>,
) -> bool {
    exists|x: int, y: int, z: int|
        in_chunk(x, y, z) && #[trigger] selected(bounds, lo, hi, ball, x, y, z)
}

/// Whether `(px, py, pz)` comes before `(x, y, z)` when voxels are visited
/// with x running fastest, then y, then z.
spec fn visited_before(px: int, py: int, pz: int, x: int, y: int, z: int) -> bool {
    pz < z || (pz == z && (py < y || (py == y && px < x)))
}

/// Whether the centre at `index` voxels from `origin` lies within `radius`
/// of `center` along one axis.
spec fn axis_reach(center: i64, radius: i64, origin: i64, index: int) -> bool {
    let offset = origin + index * WORLD_UNITS_PER_VOXEL + WORLD_UNITS_TO_CENTER - center;
    -radius <= offset <= radius
}

/// A point within a sphere is within its radius along every axis.
proof fn lemma_sphere_within_axes(center: WorldPos, radius: i64, point: WorldPos)
    requires
        in_sphere(center, radius, point),
    ensures
        -radius <= point.x - center.x <= radius,
        -radius <= point.y - center.y <= radius,
        -radius <= point.z - center.z <= radius,
{
    let dx = center.x - point.x;
    let dy = center.y - point.y;
    let dz = center.z - point.z;
    let r = radius as int;
    assert(dx * dx >= 0 && dy * dy >= 0 && dz * dz >= 0) by (nonlinear_arith);
    assert(dx * dx <= r * r ==> -r <= dx <= r) by (nonlinear_arith)
        requires
            r >= 0,
    ;
    assert(dy * dy <= r * r ==> -r <= dy <= r) by (nonlinear_arith)
        requires
            r >= 0,
    ;
    assert(dz * dz <= r * r ==> -r <= dz <= r) by (nonlinear_arith)
        requires
            r >= 0,
    ;
}

/// Whether `point` lies within `radius` of `center`, by squared distance.
pub fn within_radius(center: WorldPos, radius: i64, point: WorldPos) -> (inside: bool)
    ensures
        inside == in_sphere(center, radius, point),
{
    if radius < 0 {
        return false;
    }
    let r: u128 = radius as u128;
    let dx: u128 = abs_diff(center.x, point.x);
    let dy: u128 = abs_diff(center.y, point.y);
    let dz: u128 = abs_diff(center.z, point.z);
    proof {
        let ex = center.x - point.x;
        let ey = center.y - point.y;
        let ez = center.z - point.z;
        assert(ex * ex == dx * dx && ey * ey == dy * dy && ez * ez == dz * dz) by (nonlinear_arith)
            requires
                dx == ex || dx == -ex,
                dy == ey || dy == -ey,
                dz == ez || dz == -ez,
        ;
        assert(dx * dx >= 0 && dy * dy >= 0 && dz * dz >= 0) by (nonlinear_arith);
        assert(dx > r ==> dx * dx > r * r) by (nonlinear_arith)
            requires
                r >= 0,
                dx >= 0,
        ;
        assert(dy > r ==> dy * dy > r * r) by (nonlinear_arith)
            requires
                r >= 0,
                dy >= 0,
        ;
        assert(dz > r ==> dz * dz > r * r) by (nonlinear_arith)
            requires
                r >= 0,
                dz >= 0,
        ;
    }
    if dx > r || dy > r || dz > r {
        return false;
    }
    proof {
        let m: int = 0x7FFF_FFFF_FFFF_FFFF;
        assert(dx * dx <= m * m && dy * dy <= m * m && dz * dz <= m * m && r * r <= m * m)
            by (nonlinear_arith)
            requires
                0 <= dx <= m,
                0 <= dy <= m,
                0 <= dz <= m,
                0 <= r <= m,
        ;
        assert(m * m == 0x3FFF_FFFF_FFFF_FFFF_0000_0000_0000_0001) by (nonlinear_arith)
            requires
                m == 0x7FFF_FFFF_FFFF_FFFF,
        ;
    }
    dx * dx + dy * dy + dz * dz <= r * r
}

/// The voxel indices along one axis whose centres a sphere can reach: every
/// index from 0 to 63 outside the returned range is out of reach.
fn axis_range(center: i64, radius: i64, origin: i64) -> (range: Option<(u32, u32)>)
    requires
        radius >= 0,
        -0x2000_0000_0000 <= origin <= 0x2000_0000_0000,
    ensures
        match range {
            Some((lo, hi)) => {
                &&& lo <= hi < 64
                &&& forall|index: int|
                    0 <= index < 64 && #[trigger] axis_reach(center, radius, origin, index) ==> lo
                        <= index <= hi
            },
            None => forall|index: int|
                0 <= index < 64 ==> !#[trigger] axis_reach(center, radius, origin, index),
        },
{
    let low: i128 = center as i128 - radius as i128 - origin as i128;
    let high: i128 = center as i128 + radius as i128 - origin as i128;
    if high < 0 || low >= WORLD_UNITS_PER_CHUNK as i128 {
        return None;
    }
    let lo: u32 = if low <= 0 {
        0
    } else {
        (low / (WORLD_UNITS_PER_VOXEL as i128)) as u32
    };
    let hi: u32 = if high >= WORLD_UNITS_PER_CHUNK as i128 {
        63
    } else {
        (high / (WORLD_UNITS_PER_VOXEL as i128)) as u32
    };
    if lo > hi {
        return None;
    }
    Some((lo, hi))
}

impl WorldChunk {
    /// Writes `voxel` to every voxel of the box from `lo` to `hi` (`hi` not
    /// included) that the sphere `ball`, where one is given, holds.
    fn fill_selected(
        &mut self,
        lo: LocalPos,
        hi: LocalPos,
        ball: Option<(WorldPos, i64)>,
        voxel: VoxelData,
    )
        requires
            old(self).wf(),
            hi.x <= 64,
            hi.y <= 64,
            hi.z <= 64,
        ensures
            final(self).wf(),
            final(self).chunk_position == old(self).chunk_position,
            final(self).world_bounds == old(self).world_bounds,
            forall|x: int, y: int, z: int|
                in_chunk(x, y, z) ==> final(self).voxels@[#[trigger] flat_index(x, y, z)] == (
                if selected(old(self).world_bounds, lo, hi, ball, x, y, z) {
                    voxel
                } else {
                    old(self).voxels@[flat_index(x, y, z)]
                }),
            final(self).dirty == (old(self).dirty || selects_any(
                old(self).world_bounds,
                lo,
                hi,
                ball,
            )),
            final(self).has_dynamic_elements == (old(self).has_dynamic_elements || (
            voxel.spec_material().spec_is_dynamic() && selects_any(
                old(self).world_bounds,
                lo,
                hi,
                ball,
            ))),
    {
        let ghost grid = self.voxels@;
        let ghost bounds = self.world_bounds;
        let ghost dirty_before = self.dirty;
        let ghost dynamic_before = self.has_dynamic_elements;
        let ghost mut wrote: bool = false;
        let mut z: u32 = lo.z;
        while z < hi.z
            invariant
                hi.x <= 64,
                hi.y <= 64,
                hi.z <= 64,
                lo.z <= z,
                self.wf(),
                self.world_bounds == bounds,
                self.chunk_position == old(self).chunk_position,
                forall|px: int, py: int, pz: int|
                    in_chunk(px, py, pz) ==> self.voxels@[#[trigger] flat_index(px, py, pz)] == (
                    if selected(bounds, lo, hi, ball, px, py, pz) && visited_before(
                        px,
                        py,
                        pz,
                        0,
                        0,
                        z as int,
                    ) {
                        voxel
                    } else {
                        grid[flat_index(px, py, pz)]
                    }),
                wrote ==> selects_any(bounds, lo, hi, ball),
                !wrote ==> forall|px: int, py: int, pz: int|
                    in_chunk(px, py, pz) && visited_before(px, py, pz, 0, 0, z as int)
                        ==> !#[trigger] selected(bounds, lo, hi, ball, px, py, pz),
                self.dirty == (dirty_before || wrote),
                self.has_dynamic_elements == (dynamic_before || (wrote
                    && voxel.spec_material().spec_is_dynamic())),
            decreases hi.z - z,
        {
            let mut y: u32 = lo.y;
            while y < hi.y
                invariant
                    hi.x <= 64,
                    hi.y <= 64,
                    hi.z <= 64,
                    lo.z <= z < hi.z,
                    lo.y <= y,
                    self.wf(),
                    self.world_bounds == bounds,
                    self.chunk_position == old(self).chunk_position,
                    forall|px: int, py: int, pz: int|
                        in_chunk(px, py, pz) ==> self.voxels@[#[trigger] flat_index(px, py, pz)]
                            == (if selected(bounds, lo, hi, ball, px, py, pz) && visited_before(
                            px,
                            py,
                            pz,
                            0,
                            y as int,
                            z as int,
                        ) {
                            voxel
                        } else {
                            grid[flat_index(px, py, pz)]
                        }),
                    wrote ==> selects_any(bounds, lo, hi, ball),
                    !wrote ==> forall|px: int, py: int, pz: int|
                        in_chunk(px, py, pz) && visited_before(px, py, pz, 0, y as int, z as int)
                            ==> !#[trigger] selected(bounds, lo, hi, ball, px, py, pz),
                    self.dirty == (dirty_before || wrote),
                    self.has_dynamic_elements == (dynamic_before || (wrote
                        && voxel.spec_material().spec_is_dynamic())),
                decreases hi.y - y,
            {
                let mut x: u32 = lo.x;
                while x < hi.x
                    invariant
                        hi.x <= 64,
                        hi.y <= 64,
                        hi.z <= 64,
                        lo.z <= z < hi.z,
                        lo.y <= y < hi.y,
                        lo.x <= x,
                        self.wf(),
                        self.world_bounds == bounds,
                        self.chunk_position == old(self).chunk_position,
                        forall|px: int, py: int, pz: int|
                            in_chunk(px, py, pz) ==> self.voxels@[#[trigger] flat_index(
                                px,
                                py,
                                pz,
                            )] == (if selected(bounds, lo, hi, ball, px, py, pz) && visited_before(
                                px,
                                py,
                                pz,
                                x as int,
                                y as int,
                                z as int,
                            ) {
                                voxel
                            } else {
                                grid[flat_index(px, py, pz)]
                            }),
                        wrote ==> selects_any(bounds, lo, hi, ball),
                        !wrote ==> forall|px: int, py: int, pz: int|
                            in_chunk(px, py, pz) && visited_before(
                                px,
                                py,
                                pz,
                                x as int,
                                y as int,
                                z as int,
                            ) ==> !#[trigger] selected(bounds, lo, hi, ball, px, py, pz),
                        self.dirty == (dirty_before || wrote),
                        self.has_dynamic_elements == (dynamic_before || (wrote
                            && voxel.spec_material().spec_is_dynamic())),
                    decreases hi.x - x,
                {
                    let hit: bool = match ball {
                        Some((center, radius)) => {
                            let voxel_world = self.local_to_world(x, y, z);
                            within_radius(center, radius, voxel_world)
                        },
                        None => true,
                    };
                    assert(hit == selected(bounds, lo, hi, ball, x as int, y as int, z as int));
                    if hit {
                        let ghost current = self.voxels@;
                        self.set_voxel(x, y, z, voxel);
                        proof {
                            wrote = true;
                            assert(in_chunk(x as int, y as int, z as int));
                            assert forall|px: int, py: int, pz: int|
                                in_chunk(px, py, pz) implies self.voxels@[#[trigger] flat_index(
                                px,
                                py,
                                pz,
                            )] == (if selected(bounds, lo, hi, ball, px, py, pz) && visited_before(
                                px,
                                py,
                                pz,
                                x + 1,
                                y as int,
                                z as int,
                            ) {
                                voxel
                            } else {
                                grid[flat_index(px, py, pz)]
                            }) by {
                                if px == x && py == y && pz == z {
                                } else {
                                    assert(flat_index(px, py, pz) != flat_index(
                                        x as int,
                                        y as int,
                                        z as int,
                                    ));
                                    assert(self.voxels@[flat_index(px, py, pz)]
                                        == current[flat_index(px, py, pz)]);
                                }
                            }
                        }
                    }
                    x += 1;
                }
                y += 1;
            }
            z += 1;
        }
        proof {
            if !wrote {
                assert forall|px: int, py: int, pz: int|
                    in_chunk(px, py, pz) implies !#[trigger] selected(
                    bounds,
                    lo,
                    hi,
                    ball,
                    px,
                    py,
                    pz,
                ) by {
                    if selected(bounds, lo, hi, ball, px, py, pz) {
                        assert(visited_before(px, py, pz, 0, 0, z as int));
                    }
                }
            }
        }
    }

    /// Fills the box from `min` to `max` with `voxel`, as `set_voxel` would
    /// voxel by voxel: `min` belongs to the box and `max` does not, and
    /// both corners are clamped to the chunk. A box that holds no voxel of
    /// the chunk changes nothing.
    pub fn fill_region(&mut self, min: LocalPos, max: LocalPos, voxel: VoxelData)
        requires
            old(self).wf(),
        ensures
            final(self).wf(),
            final(self)@ == old(self)@.region_filled(min, max, voxel),
            forall|x: int, y: int, z: int|
                in_chunk(x, y, z) ==> #[trigger] final(self).voxel_at(x, y, z) == (if in_region(
                    min,
                    max,
                    x,
                    y,
                    z,
                ) {
                    voxel
                } else {
                    old(self).voxel_at(x, y, z)
                }),
            final(self).dirty == (old(self).dirty || region_meets_chunk(min, max)),
            final(self).has_dynamic_elements == (old(self).has_dynamic_elements || (
            voxel.spec_material().spec_is_dynamic() && region_meets_chunk(min, max))),
            !region_meets_chunk(min, max) ==> final(self)@ == old(self)@,
    {
        let lo = LocalPos {
            x: if min.x < CHUNK_SIZE { min.x } else { CHUNK_SIZE },
            y: if min.y < CHUNK_SIZE { min.y } else { CHUNK_SIZE },
            z: if min.z < CHUNK_SIZE { min.z } else { CHUNK_SIZE },
        };
        let hi = LocalPos {
            x: if max.x < CHUNK_SIZE { max.x } else { CHUNK_SIZE },
            y: if max.y < CHUNK_SIZE { max.y } else { CHUNK_SIZE },
            z: if max.z < CHUNK_SIZE { max.z } else { CHUNK_SIZE },
        };
        let ghost bounds = self.world_bounds;
        proof {
            assert forall|x: int, y: int, z: int| in_chunk(x, y, z) implies (#[trigger] selected(
                bounds,
                lo,
                hi,
                None,
                x,
                y,
                z,
            ) == in_region(min, max, x, y, z)) by {}
            if region_meets_chunk(min, max) {
                let (x, y, z) = choose|x: int, y: int, z: int|
                    in_chunk(x, y, z) && #[trigger] in_region(min, max, x, y, z);
                assert(selected(bounds, lo, hi, None, x, y, z));
            }
            if selects_any(bounds, lo, hi, None) {
                let (x, y, z) = choose|x: int, y: int, z: int|
                    in_chunk(x, y, z) && #[trigger] selected(bounds, lo, hi, None, x, y, z);
                assert(in_region(min, max, x, y, z));
            }
        }
        self.fill_selected(lo, hi, None, voxel);
        proof {
            assert forall|x: int, y: int, z: int|
                in_chunk(x, y, z) implies #[trigger] self.voxel_at(
                x,
                y,
                z,
            ) == (if in_region(min, max, x, y, z) {
                voxel
            } else {
                old(self).voxel_at(x, y, z)
            }) by {
                assert(self.voxels@[flat_index(x, y, z)] == (if selected(
                    bounds,
                    lo,
                    hi,
                    None,
                    x,
                    y,
                    z,
                ) {
                    voxel
                } else {
                    old(self).voxels@[flat_index(x, y, z)]
                }));
            }
            assert forall|i: int| 0 <= i < VOXELS_PER_CHUNK implies self.voxels@[i] == (
            if in_region(min, max, x_of(i), y_of(i), z_of(i)) {
                voxel
            } else {
                old(self).voxels@[i]
            }) by {
                lemma_coordinates_of_index(i);
                assert(self.voxels@[flat_index(x_of(i), y_of(i), z_of(i))] == self.voxel_at(
                    x_of(i),
                    y_of(i),
                    z_of(i),
                ));
            }
            assert(self@ =~= old(self)@.region_filled(min, max, voxel));
            if !region_meets_chunk(min, max) {
                assert(self@ =~= old(self)@);
            }
        }
    }

    /// Fills a sphere with `voxel`, as `set_voxel` would voxel by voxel:
    /// every voxel of the chunk whose centre lies within `radius` of
    /// `center_world`, by squared distance, is overwritten, and no other.
    /// Nothing happens where the sphere reaches no voxel centre of the chunk.
    pub fn fill_sphere(&mut self, center_world: WorldPos, radius: i64, voxel: VoxelData)
        requires
            old(self).wf(),
        ensures
            final(self).wf(),
            final(self)@ == old(self)@.sphere_filled(center_world, radius, voxel),
            forall|x: int, y: int, z: int|
                in_chunk(x, y, z) ==> #[trigger] final(self).voxel_at(x, y, z) == (if in_sphere(
                    center_world,
                    radius,
                    old(self).voxel_center(x, y, z),
                ) {
                    voxel
                } else {
                    old(self).voxel_at(x, y, z)
                }),
    {
        let ghost bounds = self.world_bounds;
        if radius < 0 {
            assert(self@ =~= old(self)@.sphere_filled(center_world, radius, voxel));
            return ;
        }
        let range_x = axis_range(center_world.x, radius, self.world_bounds.min.x);
        let range_y = axis_range(center_world.y, radius, self.world_bounds.min.y);
        let range_z = axis_range(center_world.z, radius, self.world_bounds.min.z);
        proof {
            assert forall|x: int, y: int, z: int|
                in_chunk(x, y, z) && in_sphere(
                    center_world,
                    radius,
                    #[trigger] center_in(bounds, x, y, z),
                ) implies axis_reach(center_world.x, radius, bounds.min.x, x) && axis_reach(
                center_world.y,
                radius,
                bounds.min.y,
                y,
            ) && axis_reach(center_world.z, radius, bounds.min.z, z) by {
                lemma_sphere_within_axes(center_world, radius, center_in(bounds, x, y, z));
            }
        }
        match (range_x, range_y, range_z) {
            (Some((lo_x, hi_x)), Some((lo_y, hi_y)), Some((lo_z, hi_z))) => {
                let lo = LocalPos { x: lo_x, y: lo_y, z: lo_z };
                let hi = LocalPos { x: hi_x + 1, y: hi_y + 1, z: hi_z + 1 };
                let ball = Some((center_world, radius));
                proof {
                    assert forall|x: int, y: int, z: int| in_chunk(x, y, z) implies (
                    #[trigger] selected(bounds, lo, hi, ball, x, y, z) == in_sphere(
                        center_world,
                        radius,
                        center_in(bounds, x, y, z),
                    )) by {}
                    if selects_any(bounds, lo, hi, ball) {
                        let (x, y, z) = choose|x: int, y: int, z: int|
                            in_chunk(x, y, z) && #[trigger] selected(bounds, lo, hi, ball, x, y, z);
                        assert(in_sphere(center_world, radius, center_in(bounds, x, y, z)));
                    }
                    if self.sphere_touches(center_world, radius) {
                        let (x, y, z) = choose|x: int, y: int, z: int|
                            in_chunk(x, y, z) && in_sphere(
                                center_world,
                                radius,
                                #[trigger] center_in(bounds, x, y, z),
                            );
                        assert(selected(bounds, lo, hi, ball, x, y, z));
                    }
                }
                self.fill_selected(lo, hi, ball, voxel);
                proof {
                    assert forall|x: int, y: int, z: int|
                        in_chunk(x, y, z) implies #[trigger] self.voxel_at(x, y, z) == (
                    if in_sphere(center_world, radius, old(self).voxel_center(x, y, z)) {
                        voxel
                    } else {
                        old(self).voxel_at(x, y, z)
                    }) by {
                        assert(self.voxels@[flat_index(x, y, z)] == (if selected(
                            bounds,
                            lo,
                            hi,
                            ball,
                            x,
                            y,
                            z,
                        ) {
                            voxel
                        } else {
                            old(self).voxels@[flat_index(x, y, z)]
                        }));
                    }
                }
            },
            _ => {
                proof {
                    if self.sphere_touches(center_world, radius) {
                        let (x, y, z) = choose|x: int, y: int, z: int|
                            in_chunk(x, y, z) && in_sphere(
                                center_world,
                                radius,
                                #[trigger] center_in(bounds, x, y, z),
                            );
                        assert(in_sphere(center_world, radius, center_in(bounds, x, y, z)));
                    }
                }
            },
        }
        proof {
            assert forall|i: int| 0 <= i < VOXELS_PER_CHUNK implies self.voxels@[i] == (
            if in_sphere(center_world, radius, old(self)@.voxel_center(x_of(i), y_of(i), z_of(i))) {
                voxel
            } else {
                old(self).voxels@[i]
            }) by {
                lemma_coordinates_of_index(i);
                assert(self.voxels@[flat_index(x_of(i), y_of(i), z_of(i))] == self.voxel_at(
                    x_of(i),
                    y_of(i),
                    z_of(i),
                ));
            }
            assert(self@ =~= old(self)@.sphere_filled(center_world, radius, voxel));
        }
    }
}

/// A fill of a region keeps a sound dynamic flag sound.
pub proof fn lemma_region_keeps_flag_sound(
    chunk: ChunkModel,
    min: LocalPos,
    max: LocalPos,
    voxel: VoxelData,
)
    requires
        chunk.wf(),
        chunk.flag_is_sound(),
    ensures
        chunk.region_filled(min, max, voxel).flag_is_sound(),
{
    let after = chunk.region_filled(min, max, voxel);
    if holds_dynamic(after.voxels) {
        let i = choose|i: int|
            0 <= i < after.voxels.len() && (#[trigger] after.voxels[i]).spec_material(
            ).spec_is_dynamic();
        lemma_coordinates_of_index(i);
        if in_region(min, max, x_of(i), y_of(i), z_of(i)) {
            assert(region_meets_chunk(min, max));
        } else {
            assert(chunk.voxels[i] == after.voxels[i]);
        }
    }
}

/// A fill of a sphere keeps a sound dynamic flag sound.
pub proof fn lemma_sphere_keeps_flag_sound(
    chunk: ChunkModel,
    center: WorldPos,
    radius: i64,
    voxel: VoxelData,
)
    requires
        chunk.wf(),
        chunk.flag_is_sound(),
    ensures
        chunk.sphere_filled(center, radius, voxel).flag_is_sound(),
{
    let after = chunk.sphere_filled(center, radius, voxel);
    if holds_dynamic(after.voxels) {
        let i = choose|i: int|
            0 <= i < after.voxels.len() && (#[trigger] after.voxels[i]).spec_material(
            ).spec_is_dynamic();
        lemma_coordinates_of_index(i);
        if in_sphere(center, radius, chunk.voxel_center(x_of(i), y_of(i), z_of(i))) {
            assert(in_sphere(
                center,
                radius,
                center_in(chunk.world_bounds, x_of(i), y_of(i), z_of(i)),
            ));
        } else {
            assert(chunk.voxels[i] == after.voxels[i]);
        }
    }
}

/// After a fill of a sphere, every voxel of the chunk whose centre lies
/// within the radius holds the new voxel, and every other voxel of the
/// chunk holds what it held before.
pub proof fn lemma_sphere_fill_containment(
    chunk: ChunkModel,
    center: WorldPos,
    radius: i64,
    voxel: VoxelData,
    x: int,
    y: int,
    z: int,
)
    requires
        chunk.wf(),
        in_chunk(x, y, z),
    ensures
        in_sphere(center, radius, chunk.voxel_center(x, y, z)) ==> chunk.sphere_filled(
            center,
            radius,
            voxel,
        ).voxel_at(x, y, z) == voxel,
        !in_sphere(center, radius, chunk.voxel_center(x, y, z)) ==> chunk.sphere_filled(
            center,
            radius,
            voxel,
        ).voxel_at(x, y, z) == chunk.voxel_at(x, y, z),
{
    lemma_index_of_coordinates(x, y, z);
}

} // verus!
