//! The chunk index: which chunk stands at which chunk position, and how far
//! from a reference position chunks are loaded and simulated.

use std::collections::HashMap;
use vstd::prelude::*;
use crate::world::coords::{clamp_i32, floor_div, ChunkPos, WorldPos, WORLD_UNITS_PER_CHUNK};

verus! {

broadcast use vstd::std_specs::hash::group_hash_axioms;

/// The identity of a chunk: its place in the caller's chunk storage.
pub type ChunkId = usize;

/// The key under which a chunk position is stored: its three coordinates,
/// each moved into the unsigned range, side by side.
pub open spec fn chunk_key(pos: ChunkPos) -> u128 {
    ((pos.x + 0x8000_0000) * 0x1_0000_0000_0000_0000 + (pos.y + 0x8000_0000) * 0x1_0000_0000 + (
    pos.z + 0x8000_0000)) as u128
}

/// Different chunk positions have different keys.
pub proof fn lemma_chunk_key_injective(a: ChunkPos, b: ChunkPos)
    requires
        chunk_key(a) == chunk_key(b),
    ensures
        a == b,
{
}

/// The distance of two chunk positions: the largest of their distances
/// along the three axes.
pub open spec fn chebyshev_distance(a: ChunkPos, b: ChunkPos) -> int {
    let dx = if a.x >= b.x {
        a.x - b.x
    } else {
        b.x - a.x
    };
    let dy = if a.y >= b.y {
        a.y - b.y
    } else {
        b.y - a.y
    };
    let dz = if a.z >= b.z {
        a.z - b.z
    } else {
        b.z - a.z
    };
    if dx >= dy && dx >= dz {
        dx
    } else if dy >= dz {
        dy
    } else {
        dz
    }
}

/// The chunk coordinate that holds a world coordinate: the world coordinate
/// divided by the chunk edge and rounded down, kept within `i32`.
pub open spec fn chunk_coord_of(world: i64) -> i32 {
    clamp_i32(world as int / WORLD_UNITS_PER_CHUNK as int)
}

fn key_of(pos: ChunkPos) -> (key: u128)
    ensures
        key == chunk_key(pos),
{
    let x: u128 = (pos.x as i64 + 0x8000_0000) as u128;
    let y: u128 = (pos.y as i64 + 0x8000_0000) as u128;
    let z: u128 = (pos.z as i64 + 0x8000_0000) as u128;
    x * 0x1_0000_0000_0000_0000 + y * 0x1_0000_0000 + z
}

fn distance(a: ChunkPos, b: ChunkPos) -> (d: i64)
    ensures
        d == chebyshev_distance(a, b),
{
    let dx: i64 = if a.x >= b.x {
        a.x as i64 - b.x as i64
    } else {
        b.x as i64 - a.x as i64
    };
    let dy: i64 = if a.y >= b.y {
        a.y as i64 - b.y as i64
    } else {
        b.y as i64 - a.y as i64
    };
    let dz: i64 = if a.z >= b.z {
        a.z as i64 - b.z as i64
    } else {
        b.z as i64 - a.z as i64
    };
    if dx >= dy && dx >= dz {
        dx
    } else if dy >= dz {
        dy
    } else {
        dz
    }
}

fn chunk_coord(world: i64) -> (coord: i32)
    ensures
        coord == chunk_coord_of(world),
{
    let q: i64 = floor_div(world, WORLD_UNITS_PER_CHUNK);
    if q < i32::MIN as i64 {
        i32::MIN
    } else if q > i32::MAX as i64 {
        i32::MAX
    } else {
        q as i32
    }
}

/// The chunk that a keyed map holds at `pos`, if it holds one.
pub open spec fn entity_in(chunks: Map<u128, ChunkId>, pos: ChunkPos) -> Option<ChunkId> {
    if chunks.contains_key(chunk_key(pos)) {
        Some(chunks[chunk_key(pos)])
    } else {
        None
    }
}

/// A keyed map read as a map from chunk positions to chunks.
pub open spec fn entries_of(chunks: Map<u128, ChunkId>) -> Map<ChunkPos, ChunkId> {
    Map::new(
        |pos: ChunkPos| chunks.contains_key(chunk_key(pos)),
        |pos: ChunkPos| chunks[chunk_key(pos)],
    )
}

/// Storing under the key of a position changes what is read at that
/// position and at no other.
proof fn lemma_entries_after_insert(chunks: Map<u128, ChunkId>, at: ChunkPos, id: ChunkId)
    ensures
        entries_of(chunks.insert(chunk_key(at), id)) == entries_of(chunks).insert(at, id),
        forall|pos: ChunkPos| #[trigger]
            entity_in(chunks.insert(chunk_key(at), id), pos) == (if pos == at {
                Some(id)
            } else {
                entity_in(chunks, pos)
            }),
{
    let after = chunks.insert(chunk_key(at), id);
    assert forall|pos: ChunkPos| pos != at implies chunk_key(pos) != chunk_key(at) by {
        if chunk_key(pos) == chunk_key(at) {
            lemma_chunk_key_injective(pos, at);
        }
    }
    assert(entries_of(after) =~= entries_of(chunks).insert(at, id));
}

/// Removing the key of a position empties that position and no other.
proof fn lemma_entries_after_remove(chunks: Map<u128, ChunkId>, at: ChunkPos)
    ensures
        entries_of(chunks.remove(chunk_key(at))) == entries_of(chunks).remove(at),
        forall|pos: ChunkPos| #[trigger]
            entity_in(chunks.remove(chunk_key(at)), pos) == (if pos == at {
                None
            } else {
                entity_in(chunks, pos)
            }),
{
    let after = chunks.remove(chunk_key(at));
    assert forall|pos: ChunkPos| pos != at implies chunk_key(pos) != chunk_key(at) by {
        if chunk_key(pos) == chunk_key(at) {
            lemma_chunk_key_injective(pos, at);
        }
    }
    assert(entries_of(after) =~= entries_of(chunks).remove(at));
}

/// The chunks that are active in the world.
pub struct ChunkManager {
    /// The chunk at each registered position, by the key of the position.
    pub chunks: HashMap<u128, ChunkId>,
    /// How far from the reference position chunks are loaded.
    pub load_distance: i32,
    /// How far from the reference position chunks are simulated.
    pub simulation_distance: i32,
}

impl ChunkManager {
    /// The chunk registered at `pos`, if there is one.
    pub open spec fn entity_at(&self, pos: ChunkPos) -> Option<ChunkId> {
        entity_in(self.chunks@, pos)
    }

    /// The index as a map from chunk positions to chunks: a position has at
    /// most one chunk.
    pub open spec fn entries(&self) -> Map<ChunkPos, ChunkId> {
        entries_of(self.chunks@)
    }

    /// Whether the index holds the chunk `id` at some position.
    pub open spec fn is_registered(&self, id: ChunkId) -> bool {
        self.chunks@.contains_value(id)
    }

    /// The chunk position that holds a world point.
    pub open spec fn spec_world_to_chunk_pos(world_pos: WorldPos) -> ChunkPos {
        ChunkPos {
            x: chunk_coord_of(world_pos.x),
            y: chunk_coord_of(world_pos.y),
            z: chunk_coord_of(world_pos.z),
        }
    }

    /// An index without chunks.
    pub fn new(load_distance: i32, simulation_distance: i32) -> (manager: Self)
        ensures
            manager.load_distance == load_distance,
            manager.simulation_distance == simulation_distance,
            manager.chunks@ == Map::<u128, ChunkId>::empty(),
            manager.entries() == Map::<ChunkPos, ChunkId>::empty(),
            forall|pos: ChunkPos| manager.entity_at(pos).is_none(),
    {
        let manager = Self { chunks: HashMap::new(), load_distance, simulation_distance };
        assert(manager.entries() =~= Map::<ChunkPos, ChunkId>::empty());
        manager
    }

    /// The chunk position that holds a world point: each coordinate divided
    /// by the chunk edge and rounded down, so that points below zero fall
    /// into chunks below zero.
    #[verifier::when_used_as_spec(spec_world_to_chunk_pos)]
    pub fn world_to_chunk_pos(world_pos: WorldPos) -> (chunk_pos: ChunkPos)
        ensures
            chunk_pos == Self::spec_world_to_chunk_pos(world_pos),
    {
        ChunkPos {
            x: chunk_coord(world_pos.x),
            y: chunk_coord(world_pos.y),
            z: chunk_coord(world_pos.z),
        }
    }

    /// Whether a chunk position is within the load distance of the reference position.
    pub fn should_load_chunk(&self, chunk_pos: ChunkPos, player_chunk_pos: ChunkPos) -> (load: bool)
        ensures
            load == (chebyshev_distance(chunk_pos, player_chunk_pos) <= self.load_distance),
    {
        distance(chunk_pos, player_chunk_pos) <= self.load_distance as i64
    }

    /// Whether a chunk position is within the simulation distance of the reference position.
    pub fn should_simulate_chunk(
        &self,
        chunk_pos: ChunkPos,
        player_chunk_pos: ChunkPos,
    ) -> (simulate: bool)
        ensures
            simulate == (chebyshev_distance(chunk_pos, player_chunk_pos)
                <= self.simulation_distance),
    {
        distance(chunk_pos, player_chunk_pos) <= self.simulation_distance as i64
    }

    /// The chunk registered at `chunk_pos`.
    pub fn get_chunk_entity(&self, chunk_pos: ChunkPos) -> (entity: Option<ChunkId>)
        ensures
            entity == self.entity_at(chunk_pos),
            entity == (if self.entries().contains_key(chunk_pos) {
                Some(self.entries()[chunk_pos])
            } else {
                None
            }),
    {
        let key: u128 = key_of(chunk_pos);
        match self.chunks.get(&key) {
            Some(entity) => Some(*entity),
            None => None,
        }
    }

    /// For each of the first `count` identities, whether the index holds it
    /// at some position.
    pub fn registered(&self, count: usize) -> (held: Vec<bool>)
        ensures
            held@.len() == count,
            forall|i: int| 0 <= i < count ==> held@[i] == self.is_registered(i as ChunkId),
    {
        let mut held: Vec<bool> = vec![false; count];
        for id in it: self.chunks.values()
            invariant
                held@.len() == count,
                it.seq().unref().len() == it.seq().len(),
                forall|v: ChunkId| #[trigger]
                    self.chunks@.contains_value(v) <==> self.chunks@.values().contains(v),
                forall|v: ChunkId| #[trigger]
                    self.chunks@.values().contains(v) <==> it.seq().unref().to_set().contains(v),
                forall|v: ChunkId| #[trigger]
                    it.seq().unref().to_set().contains(v) <==> (exists|j: int|
                        0 <= j < it.seq().unref().len() && #[trigger] it.seq().unref()[j] == v),
                forall|i: int|
                    0 <= i < count ==> held@[i] == (exists|j: int|
                        0 <= j < it.index() && #[trigger] it.seq().unref()[j] == i),
        {
            assert(it.seq().unref()[it.index()] == *id);
            if *id < count {
                held[*id] = true;
            }
        }
        held
    }

    /// Registers `entity` at `chunk_pos`; a chunk registered there before is replaced.
    pub fn register_chunk(&mut self, chunk_pos: ChunkPos, entity: ChunkId)
        ensures
            final(self).load_distance == old(self).load_distance,
            final(self).simulation_distance == old(self).simulation_distance,
            final(self).chunks@ == old(self).chunks@.insert(chunk_key(chunk_pos), entity),
            final(self).entries() == old(self).entries().insert(chunk_pos, entity),
            forall|pos: ChunkPos| #[trigger]
                final(self).entity_at(pos) == (if pos == chunk_pos {
                    Some(entity)
                } else {
                    old(self).entity_at(pos)
                }),
    {
        let key: u128 = key_of(chunk_pos);
        self.chunks.insert(key, entity);
        proof {
            lemma_entries_after_insert(old(self).chunks@, chunk_pos, entity);
        }
    }

    /// Takes the chunk at `chunk_pos` out of the index and returns it.
    pub fn unregister_chunk(&mut self, chunk_pos: ChunkPos) -> (entity: Option<ChunkId>)
        ensures
            entity == old(self).entity_at(chunk_pos),
            final(self).load_distance == old(self).load_distance,
            final(self).simulation_distance == old(self).simulation_distance,
            final(self).chunks@ == old(self).chunks@.remove(chunk_key(chunk_pos)),
            final(self).entries() == old(self).entries().remove(chunk_pos),
            forall|pos: ChunkPos| #[trigger]
                final(self).entity_at(pos) == (if pos == chunk_pos {
                    None
                } else {
                    old(self).entity_at(pos)
                }),
    {
        let key: u128 = key_of(chunk_pos);
        let entity = self.chunks.remove(&key);
        proof {
            lemma_entries_after_remove(old(self).chunks@, chunk_pos);
        }
        entity
    }
}

impl Default for ChunkManager {
    /// An index without chunks, both distances zero.
    fn default() -> (manager: Self)
        ensures
            manager.load_distance == 0,
            manager.simulation_distance == 0,
            manager.chunks@ == Map::<u128, ChunkId>::empty(),
            manager.entries() == Map::<ChunkPos, ChunkId>::empty(),
    {
        let manager = Self { chunks: HashMap::new(), load_distance: 0, simulation_distance: 0 };
        assert(manager.entries() =~= Map::<ChunkPos, ChunkId>::empty());
        manager
    }
}

} // verus!
