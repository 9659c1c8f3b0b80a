//! A chunk: a cube of 64 x 64 x 64 voxels at a chunk position.

use vstd::prelude::*;
use crate::world::coords::{
    floor_div, ChunkPos, LocalPos, WorldPos, WORLD_UNITS_PER_CHUNK, WORLD_UNITS_PER_VOXEL,
    WORLD_UNITS_TO_CENTER,
};
use crate::world::voxel::VoxelData;

verus! {

/// Edge length of a chunk, in voxels.
pub const CHUNK_SIZE: u32 = 64;

/// Number of voxels in a chunk.
pub const VOXELS_PER_CHUNK: usize = 262144;

/// Whether `(x, y, z)` names a voxel of a chunk.
pub open spec fn in_chunk(x: int, y: int, z: int) -> bool {
    0 <= x < 64 && 0 <= y < 64 && 0 <= z < 64
}

/// Where the voxel `(x, y, z)` lies in a chunk's voxel sequence: x runs
/// fastest, then y, then z.
pub open spec fn flat_index(x: int, y: int, z: int) -> int {
    z * 4096 + y * 64 + x
}

/// The x coordinate of the voxel at the place `i` of a chunk's voxel sequence.
pub open spec fn x_of(i: int) -> int {
    i % 64
}

/// The y coordinate of the voxel at the place `i` of a chunk's voxel sequence.
pub open spec fn y_of(i: int) -> int {
    (i / 64) % 64
}

/// The z coordinate of the voxel at the place `i` of a chunk's voxel sequence.
pub open spec fn z_of(i: int) -> int {
    i / 4096
}

/// Every place of a chunk's voxel sequence is the place of its own coordinates.
pub proof fn lemma_coordinates_of_index(i: int)
    requires
        0 <= i < VOXELS_PER_CHUNK,
    ensures
        in_chunk(x_of(i), y_of(i), z_of(i)),
        flat_index(x_of(i), y_of(i), z_of(i)) == i,
{
}

/// The coordinates of a voxel are those of its place in the voxel sequence.
pub proof fn lemma_index_of_coordinates(x: int, y: int, z: int)
    requires
        in_chunk(x, y, z),
    ensures
        0 <= flat_index(x, y, z) < VOXELS_PER_CHUNK,
        x_of(flat_index(x, y, z)) == x,
        y_of(flat_index(x, y, z)) == y,
        z_of(flat_index(x, y, z)) == z,
{
}

/// Whether some voxel of the sequence has a dynamic material.
pub open spec fn holds_dynamic(voxels: Seq<VoxelData>) -> bool {
    exists|i: int| 0 <= i < voxels.len() && (#[trigger] voxels[i]).spec_material().spec_is_dynamic()
}

/// An axis-aligned box of world space, both corners included.
#[derive(Debug, Clone, Copy, PartialEq, Eq, Structural)]
pub struct BoundingBox {
    pub min: WorldPos,
    pub max: WorldPos,
}

/// The part of world space that the chunk at `pos` covers.
pub open spec fn chunk_bounds(pos: ChunkPos) -> BoundingBox {
    BoundingBox {
        min: WorldPos {
            x: (pos.x * WORLD_UNITS_PER_CHUNK) as i64,
            y: (pos.y * WORLD_UNITS_PER_CHUNK) as i64,
            z: (pos.z * WORLD_UNITS_PER_CHUNK) as i64,
        },
        max: WorldPos {
            x: (pos.x * WORLD_UNITS_PER_CHUNK + WORLD_UNITS_PER_CHUNK) as i64,
            y: (pos.y * WORLD_UNITS_PER_CHUNK + WORLD_UNITS_PER_CHUNK) as i64,
            z: (pos.z * WORLD_UNITS_PER_CHUNK + WORLD_UNITS_PER_CHUNK) as i64,
        },
    }
}

/// The squared distance of two world points.
pub open spec fn dist_sq(a: WorldPos, b: WorldPos) -> int {
    (a.x - b.x) * (a.x - b.x) + (a.y - b.y) * (a.y - b.y) + (a.z - b.z) * (a.z - b.z)
}

/// Whether `point` lies within `radius` of `center`, measured by squared
/// distance. No point lies within a negative radius.
pub open spec fn in_sphere(center: WorldPos, radius: i64, point: WorldPos) -> bool {
    radius >= 0 && dist_sq(center, point) <= radius * radius
}

/// Whether `(x, y, z)` lies in the box from `min` to `max`: `min` belongs
/// to the box and `max` does not.
pub open spec fn in_region(min: LocalPos, max: LocalPos, x: int, y: int, z: int) -> bool {
    &&& min.x <= x < max.x
    &&& min.y <= y < max.y
    &&& min.z <= z < max.z
}

/// Whether some voxel of a chunk lies in the box from `min` to `max`.
pub open spec fn region_meets_chunk(min: LocalPos, max: LocalPos) -> bool {
    exists|x: int, y: int, z: int| in_chunk(x, y, z) && #[trigger] in_region(min, max, x, y, z)
}

/// The world position of the centre of the voxel `(x, y, z)` of a chunk
/// with the given bounds: half a voxel from the voxel's lower corner.
pub open spec fn center_in(bounds: BoundingBox, x: int, y: int, z: int) -> WorldPos {
    WorldPos {
        x: (bounds.min.x + x * WORLD_UNITS_PER_VOXEL + WORLD_UNITS_TO_CENTER) as i64,
        y: (bounds.min.y + y * WORLD_UNITS_PER_VOXEL + WORLD_UNITS_TO_CENTER) as i64,
        z: (bounds.min.z + z * WORLD_UNITS_PER_VOXEL + WORLD_UNITS_TO_CENTER) as i64,
    }
}

/// Whether a sphere holds the centre of some voxel of a chunk with the given bounds.
pub open spec fn sphere_meets(bounds: BoundingBox, center: WorldPos, radius: i64) -> bool {
    exists|x: int, y: int, z: int|
        in_chunk(x, y, z) && in_sphere(center, radius, #[trigger] center_in(bounds, x, y, z))
}

impl BoundingBox {
    pub open spec fn spec_contains_point(&self, point: WorldPos) -> bool {
        &&& self.min.x <= point.x <= self.max.x
        &&& self.min.y <= point.y <= self.max.y
        &&& self.min.z <= point.z <= self.max.z
    }

    pub open spec fn spec_intersects(&self, other: &BoundingBox) -> bool {
        &&& self.min.x <= other.max.x && self.max.x >= other.min.x
        &&& self.min.y <= other.max.y && self.max.y >= other.min.y
        &&& self.min.z <= other.max.z && self.max.z >= other.min.z
    }

    pub fn new(min: WorldPos, max: WorldPos) -> (bounds: Self)
        ensures
            bounds == (BoundingBox { min, max }),
    {
        Self { min, max }
    }

    /// Whether `point` lies in the box, its faces included.
    #[verifier::when_used_as_spec(spec_contains_point)]
    pub fn contains_point(&self, point: WorldPos) -> (inside: bool)
        ensures
            inside == self.spec_contains_point(point),
    {
        point.x >= self.min.x && point.x <= self.max.x && point.y >= self.min.y && point.y
            <= self.max.y && point.z >= self.min.z && point.z <= self.max.z
    }

    /// Whether the two boxes share a point; touching faces count.
    #[verifier::when_used_as_spec(spec_intersects)]
    pub fn intersects(&self, other: &BoundingBox) -> (overlap: bool)
        ensures
            overlap == self.spec_intersects(other),
    {
        self.min.x <= other.max.x && self.max.x >= other.min.x && self.min.y <= other.max.y
            && self.max.y >= other.min.y && self.min.z <= other.max.z && self.max.z
            >= other.min.z
    }
}

/// A cube of 64 x 64 x 64 voxels.
#[derive(Clone)]
pub struct WorldChunk {
    /// Where the chunk lies, counted in chunks.
    pub chunk_position: ChunkPos,
    /// The voxels; `(x, y, z)` is at `z * 64 * 64 + y * 64 + x`.
    pub voxels: Vec<VoxelData>,
    /// Set by every write of a voxel; cleared by whoever has taken the change over.
    pub dirty: bool,
    /// True whenever a voxel of the chunk has a dynamic material.
    pub has_dynamic_elements: bool,
    /// The part of world space that the chunk covers.
    pub world_bounds: BoundingBox,
}

/// A chunk as plain values: what the contracts of the chunk operations speak of.
#[verifier::ext_equal]
pub struct ChunkModel {
    pub chunk_position: ChunkPos,
    pub voxels: Seq<VoxelData>,
    pub dirty: bool,
    pub has_dynamic_elements: bool,
    pub world_bounds: BoundingBox,
}

impl View for WorldChunk {
    type V = ChunkModel;

    open spec fn view(&self) -> ChunkModel {
        ChunkModel {
            chunk_position: self.chunk_position,
            voxels: self.voxels@,
            dirty: self.dirty,
            has_dynamic_elements: self.has_dynamic_elements,
            world_bounds: self.world_bounds,
        }
    }
}

/// The chunks of a storage as plain values, in order.
pub open spec fn models_of(chunks: Seq<WorldChunk>) -> Seq<ChunkModel> {
    Seq::new(chunks.len(), |i: int| chunks[i]@)
}

/// Whether every chunk of a storage is well formed.
pub open spec fn all_wf(chunks: Seq<WorldChunk>) -> bool {
    forall|i: int| 0 <= i < chunks.len() ==> (#[trigger] chunks[i]).wf()
}

impl ChunkModel {
    /// Exactly 64 x 64 x 64 voxels, and the bounds of the position.
    pub open spec fn wf(self) -> bool {
        &&& self.voxels.len() == VOXELS_PER_CHUNK
        &&& self.world_bounds == chunk_bounds(self.chunk_position)
    }

    /// Whether the dynamic flag tells the truth where it is unset: it is
    /// set if any voxel has a dynamic material.
    pub open spec fn flag_is_sound(self) -> bool {
        holds_dynamic(self.voxels) ==> self.has_dynamic_elements
    }

    /// The voxel at `(x, y, z)`.
    pub open spec fn voxel_at(self, x: int, y: int, z: int) -> VoxelData {
        self.voxels[flat_index(x, y, z)]
    }

    /// The world position of the centre of the voxel `(x, y, z)`.
    pub open spec fn voxel_center(self, x: int, y: int, z: int) -> WorldPos {
        center_in(self.world_bounds, x, y, z)
    }

    /// Whether the centre of some voxel of the chunk lies within `radius` of `center`.
    pub open spec fn sphere_touches(self, center: WorldPos, radius: i64) -> bool {
        sphere_meets(self.world_bounds, center, radius)
    }

    /// The chunk after `voxel` has been written at `(x, y, z)`: dirty, and
    /// flagged dynamic if the material is. A coordinate outside the chunk
    /// leaves the chunk as it is.
    pub open spec fn with_voxel(self, x: int, y: int, z: int, voxel: VoxelData) -> ChunkModel {
        if in_chunk(x, y, z) {
            ChunkModel {
                voxels: self.voxels.update(flat_index(x, y, z), voxel),
                dirty: true,
                has_dynamic_elements: self.has_dynamic_elements
                    || voxel.spec_material().spec_is_dynamic(),
                ..self
            }
        } else {
            self
        }
    }

    /// The chunk after `voxel` has been written to every voxel of the chunk
    /// that lies in the box from `min` to `max`; a box that holds no voxel
    /// of the chunk leaves the chunk as it is.
    pub open spec fn region_filled(
        self,
        min: LocalPos,
        max: LocalPos,
        voxel: VoxelData,
    ) -> ChunkModel {
        ChunkModel {
            voxels: Seq::new(
                self.voxels.len(),
                |i: int|
                    if in_region(min, max, x_of(i), y_of(i), z_of(i)) {
                        voxel
                    } else {
                        self.voxels[i]
                    },
            ),
            dirty: self.dirty || region_meets_chunk(min, max),
            has_dynamic_elements: self.has_dynamic_elements || (
            voxel.spec_material().spec_is_dynamic() && region_meets_chunk(min, max)),
            ..self
        }
    }

    /// The chunk after `voxel` has been written to every voxel whose centre
    /// lies within `radius` of `center`.
    pub open spec fn sphere_filled(
        self,
        center: WorldPos,
        radius: i64,
        voxel: VoxelData,
    ) -> ChunkModel {
        ChunkModel {
            voxels: Seq::new(
                self.voxels.len(),
                |i: int|
                    if in_sphere(center, radius, self.voxel_center(x_of(i), y_of(i), z_of(i))) {
                        voxel
                    } else {
                        self.voxels[i]
                    },
            ),
            dirty: self.dirty || self.sphere_touches(center, radius),
            has_dynamic_elements: self.has_dynamic_elements || (
            voxel.spec_material().spec_is_dynamic() && self.sphere_touches(center, radius)),
            ..self
        }
    }
}

impl WorldChunk {
    /// A chunk is well formed when it holds exactly 64 x 64 x 64 voxels and
    /// its bounds are those of its position.
    pub open spec fn wf(&self) -> bool {
        self@.wf()
    }

    /// The voxel at `(x, y, z)`.
    pub open spec fn voxel_at(&self, x: int, y: int, z: int) -> VoxelData {
        self@.voxel_at(x, y, z)
    }

    /// The world position of the centre of the voxel `(x, y, z)`.
    pub open spec fn voxel_center(&self, x: int, y: int, z: int) -> WorldPos {
        self@.voxel_center(x, y, z)
    }

    /// Whether the centre of some voxel of the chunk lies within `radius` of `center`.
    pub open spec fn sphere_touches(&self, center: WorldPos, radius: i64) -> bool {
        self@.sphere_touches(center, radius)
    }

    /// The voxel that holds the world point `p`, if the chunk holds it: the
    /// chunk covers its lower faces and not its upper ones.
    pub open spec fn spec_world_to_local(&self, p: WorldPos) -> Option<LocalPos> {
        let b = self.world_bounds;
        if b.min.x <= p.x < b.max.x && b.min.y <= p.y < b.max.y && b.min.z <= p.z < b.max.z {
            Some(
                LocalPos {
                    x: ((p.x - b.min.x) / (WORLD_UNITS_PER_VOXEL as int)) as u32,
                    y: ((p.y - b.min.y) / (WORLD_UNITS_PER_VOXEL as int)) as u32,
                    z: ((p.z - b.min.z) / (WORLD_UNITS_PER_VOXEL as int)) as u32,
                },
            )
        } else {
            None
        }
    }

    /// An empty chunk at `chunk_position`: all air, dirty, nothing dynamic.
    pub fn new(chunk_position: ChunkPos) -> (chunk: Self)
        ensures
            chunk.wf(),
            chunk@.flag_is_sound(),
            chunk.chunk_position == chunk_position,
            chunk.dirty,
            !chunk.has_dynamic_elements,
            forall|i: int| 0 <= i < VOXELS_PER_CHUNK ==> chunk.voxels@[i] == VoxelData::spec_air(),
    {
        let voxels: Vec<VoxelData> = vec![VoxelData::air(); VOXELS_PER_CHUNK];
        let min = WorldPos {
            x: (chunk_position.x as i64) * WORLD_UNITS_PER_CHUNK,
            y: (chunk_position.y as i64) * WORLD_UNITS_PER_CHUNK,
            z: (chunk_position.z as i64) * WORLD_UNITS_PER_CHUNK,
        };
        let max = WorldPos {
            x: min.x + WORLD_UNITS_PER_CHUNK,
            y: min.y + WORLD_UNITS_PER_CHUNK,
            z: min.z + WORLD_UNITS_PER_CHUNK,
        };
        proof {
            assert(!VoxelData::spec_air().spec_material().spec_is_dynamic()) by {
                assert(0u32 & 0xFF == 0u32) by (bit_vector);
            }
        }
        Self {
            chunk_position,
            voxels,
            dirty: true,
            has_dynamic_elements: false,
            world_bounds: BoundingBox::new(min, max),
        }
    }

    /// The place of the voxel `(x, y, z)` in `voxels`, if it is a voxel of the chunk.
    pub fn voxel_index(&self, x: u32, y: u32, z: u32) -> (index: Option<usize>)
        ensures
            in_chunk(x as int, y as int, z as int) ==> index == Some(
                flat_index(x as int, y as int, z as int) as usize,
            ),
            !in_chunk(x as int, y as int, z as int) ==> index.is_none(),
    {
        if x >= CHUNK_SIZE || y >= CHUNK_SIZE || z >= CHUNK_SIZE {
            return None;
        }
        Some((z * CHUNK_SIZE * CHUNK_SIZE + y * CHUNK_SIZE + x) as usize)
    }

    /// The voxel at `(x, y, z)`; nothing for a coordinate outside the chunk.
    pub fn get_voxel(&self, x: u32, y: u32, z: u32) -> (voxel: Option<VoxelData>)
        requires
            self.wf(),
        ensures
            in_chunk(x as int, y as int, z as int) ==> voxel == Some(
                self.voxel_at(x as int, y as int, z as int),
            ),
            !in_chunk(x as int, y as int, z as int) ==> voxel.is_none(),
    {
        match self.voxel_index(x, y, z) {
            Some(idx) => Some(self.voxels[idx]),
            None => None,
        }
    }

    /// Writes `voxel` at `(x, y, z)` and marks the chunk dirty; a dynamic
    /// material also sets the dynamic flag. A coordinate outside the chunk
    /// changes nothing.
    pub fn set_voxel(&mut self, x: u32, y: u32, z: u32, voxel: VoxelData)
        requires
            old(self).wf(),
        ensures
            final(self).wf(),
            final(self)@ == old(self)@.with_voxel(x as int, y as int, z as int, voxel),
            in_chunk(x as int, y as int, z as int) && voxel.spec_material().spec_is_dynamic()
                ==> final(self).has_dynamic_elements,
            !in_chunk(x as int, y as int, z as int) ==> final(self)@ == old(self)@,
    {
        if let Some(idx) = self.voxel_index(x, y, z) {
            self.voxels[idx] = voxel;
            self.dirty = true;
            if voxel.material().is_dynamic() {
                self.has_dynamic_elements = true;
            }
        }
        assert(self@ =~= old(self)@.with_voxel(x as int, y as int, z as int, voxel));
    }

    /// Whether the chunk is well formed. A chunk made by `new` and changed
    /// only through the functions of the library always is.
    pub fn is_well_formed(&self) -> (ok: bool)
        ensures
            ok == self.wf(),
    {
        let p = self.chunk_position;
        let b = self.world_bounds;
        self.voxels.len() == VOXELS_PER_CHUNK && b.min.x == (p.x as i64) * WORLD_UNITS_PER_CHUNK
            && b.min.y == (p.y as i64) * WORLD_UNITS_PER_CHUNK && b.min.z == (p.z as i64)
            * WORLD_UNITS_PER_CHUNK && b.max.x == (p.x as i64) * WORLD_UNITS_PER_CHUNK
            + WORLD_UNITS_PER_CHUNK && b.max.y == (p.y as i64) * WORLD_UNITS_PER_CHUNK
            + WORLD_UNITS_PER_CHUNK && b.max.z == (p.z as i64) * WORLD_UNITS_PER_CHUNK
            + WORLD_UNITS_PER_CHUNK
    }

    /// Whether the chunk has to be simulated.
    pub fn needs_simulation(&self) -> (needed: bool)
        ensures
            needed == self.has_dynamic_elements,
    {
        self.has_dynamic_elements
    }

    /// Recomputes the dynamic flag from the voxels: set exactly if some voxel
    /// has a dynamic material.
    pub fn recalculate_dynamic_status(&mut self)
        requires
            old(self).wf(),
        ensures
            final(self).wf(),
            final(self)@.flag_is_sound(),
            final(self).has_dynamic_elements == holds_dynamic(old(self).voxels@),
            final(self)@ == (ChunkModel {
                has_dynamic_elements: holds_dynamic(old(self).voxels@),
                ..old(self)@
            }),
    {
        let mut found: bool = false;
        let mut i: usize = 0;
        while i < self.voxels.len() && !found
            invariant
                i <= self.voxels@.len(),
                *self == *old(self),
                found ==> holds_dynamic(self.voxels@),
                !found ==> forall|j: int|
                    0 <= j < i ==> !(#[trigger] self.voxels@[j]).spec_material().spec_is_dynamic(),
            decreases self.voxels@.len() - i + (if found { 0int } else { 1int }),
        {
            if self.voxels[i].material().is_dynamic() {
                found = true;
            } else {
                i += 1;
            }
        }
        self.has_dynamic_elements = found;
    }

    /// The packed words of the voxels, in storage order.
    pub fn as_u32_slice(&self) -> (words: Vec<u32>)
        ensures
            words@.len() == self.voxels@.len(),
            forall|i: int| 0 <= i < words@.len() ==> words@[i] == (#[trigger] self.voxels@[i]).data,
    {
        let mut words: Vec<u32> = Vec::with_capacity(self.voxels.len());
        let mut i: usize = 0;
        while i < self.voxels.len()
            invariant
                i <= self.voxels@.len(),
                words@.len() == i,
                forall|j: int| 0 <= j < i ==> words@[j] == (#[trigger] self.voxels@[j]).data,
            decreases self.voxels@.len() - i,
        {
            words.push(self.voxels[i].as_u32());
            i += 1;
        }
        words
    }

    /// The voxel that holds the world point, if the chunk holds the point.
    #[verifier::when_used_as_spec(spec_world_to_local)]
    pub fn world_to_local(&self, world_pos: WorldPos) -> (local: Option<LocalPos>)
        requires
            self.wf(),
        ensures
            local == self.spec_world_to_local(world_pos),
            match local {
                Some(pos) => in_chunk(pos.x as int, pos.y as int, pos.z as int),
                None => true,
            },
    {
        if !self.world_bounds.contains_point(world_pos) {
            return None;
        }
        let x: i64 = floor_div(world_pos.x - self.world_bounds.min.x, WORLD_UNITS_PER_VOXEL);
        let y: i64 = floor_div(world_pos.y - self.world_bounds.min.y, WORLD_UNITS_PER_VOXEL);
        let z: i64 = floor_div(world_pos.z - self.world_bounds.min.z, WORLD_UNITS_PER_VOXEL);
        if x < CHUNK_SIZE as i64 && y < CHUNK_SIZE as i64 && z < CHUNK_SIZE as i64 {
            Some(LocalPos::new(x as u32, y as u32, z as u32))
        } else {
            None
        }
    }

    /// The world position of the centre of the voxel `(x, y, z)`.
    pub fn local_to_world(&self, x: u32, y: u32, z: u32) -> (center: WorldPos)
        requires
            self.wf(),
        ensures
            center == self.voxel_center(x as int, y as int, z as int),
            center.x == self.world_bounds.min.x + x * WORLD_UNITS_PER_VOXEL + WORLD_UNITS_TO_CENTER,
            center.y == self.world_bounds.min.y + y * WORLD_UNITS_PER_VOXEL + WORLD_UNITS_TO_CENTER,
            center.z == self.world_bounds.min.z + z * WORLD_UNITS_PER_VOXEL + WORLD_UNITS_TO_CENTER,
    {
        WorldPos {
            x: self.world_bounds.min.x + (x as i64) * WORLD_UNITS_PER_VOXEL + WORLD_UNITS_TO_CENTER,
            y: self.world_bounds.min.y + (y as i64) * WORLD_UNITS_PER_VOXEL + WORLD_UNITS_TO_CENTER,
            z: self.world_bounds.min.z + (z as i64) * WORLD_UNITS_PER_VOXEL + WORLD_UNITS_TO_CENTER,
        }
    }

    /// The voxel that holds the world point; nothing if the chunk does not hold the point.
    pub fn get_voxel_world(&self, world_pos: WorldPos) -> (voxel: Option<VoxelData>)
        requires
            self.wf(),
        ensures
            voxel == match self.spec_world_to_local(world_pos) {
                Some(pos) => Some(self.voxel_at(pos.x as int, pos.y as int, pos.z as int)),
                None => None,
            },
    {
        match self.world_to_local(world_pos) {
            Some(local_pos) => self.get_voxel(local_pos.x, local_pos.y, local_pos.z),
            None => None,
        }
    }

    /// Writes `voxel` to the voxel that holds the world point, as `set_voxel`
    /// does; changes nothing if the chunk does not hold the point.
    pub fn set_voxel_world(&mut self, world_pos: WorldPos, voxel: VoxelData)
        requires
            old(self).wf(),
        ensures
            final(self).wf(),
            final(self)@ == (match old(self).spec_world_to_local(world_pos) {
                Some(pos) => old(self)@.with_voxel(pos.x as int, pos.y as int, pos.z as int, voxel),
                None => old(self)@,
            }),
    {
        if let Some(local_pos) = self.world_to_local(world_pos) {
            self.set_voxel(local_pos.x, local_pos.y, local_pos.z, voxel);
        }
    }
}

/// A write keeps a sound dynamic flag sound.
pub proof fn lemma_write_keeps_flag_sound(
    chunk: ChunkModel,
    x: int,
    y: int,
    z: int,
    voxel: VoxelData,
)
    requires
        chunk.wf(),
        chunk.flag_is_sound(),
    ensures
        chunk.with_voxel(x, y, z, voxel).flag_is_sound(),
{
    let after = chunk.with_voxel(x, y, z, voxel);
    if holds_dynamic(after.voxels) {
        let i = choose|i: int|
            0 <= i < after.voxels.len() && (#[trigger] after.voxels[i]).spec_material(
            ).spec_is_dynamic();
        if in_chunk(x, y, z) && i != flat_index(x, y, z) {
            assert(chunk.voxels[i] == after.voxels[i]);
        }
    }
}

} // verus!
