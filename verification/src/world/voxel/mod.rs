//! A voxel packed into one 32-bit word.
//!
//! Bits 0-7 hold the material tag, bits 8-15 the density, bits 16-23 the
//! temperature and bits 24-31 the flags. Every word is a valid voxel: a tag
//! that names no material reads as air.

use vstd::prelude::*;

pub mod voxel_flags;

verus! {

/// The material of a voxel.
#[derive(Debug, Clone, Copy, PartialEq, Eq, Hash, Structural)]
pub enum MaterialType {
    Air,
    Rock,
    Dirt,
    Wood,
    Metal,
    Fire,
    Smoke,
    Water,
    Debris,
}

impl MaterialType {
    /// The tag that stands for this material in a packed voxel.
    pub open spec fn tag(self) -> u8 {
        match self {
            MaterialType::Air => 0,
            MaterialType::Rock => 1,
            MaterialType::Dirt => 2,
            MaterialType::Wood => 3,
            MaterialType::Metal => 4,
            MaterialType::Fire => 5,
            MaterialType::Smoke => 6,
            MaterialType::Water => 7,
            MaterialType::Debris => 8,
        }
    }

    /// The material that a tag stands for; a tag without a material is air.
    pub open spec fn spec_from_u8(value: u8) -> MaterialType {
        if value == 1 {
            MaterialType::Rock
        } else if value == 2 {
            MaterialType::Dirt
        } else if value == 3 {
            MaterialType::Wood
        } else if value == 4 {
            MaterialType::Metal
        } else if value == 5 {
            MaterialType::Fire
        } else if value == 6 {
            MaterialType::Smoke
        } else if value == 7 {
            MaterialType::Water
        } else if value == 8 {
            MaterialType::Debris
        } else {
            MaterialType::Air
        }
    }

    /// Rock, dirt, wood and metal block movement.
    pub open spec fn spec_is_solid(&self) -> bool {
        *self == MaterialType::Rock || *self == MaterialType::Dirt || *self == MaterialType::Wood
            || *self == MaterialType::Metal
    }

    /// Fire, smoke, water and debris take part in the simulation.
    pub open spec fn spec_is_dynamic(&self) -> bool {
        *self == MaterialType::Fire || *self == MaterialType::Smoke || *self
            == MaterialType::Water || *self == MaterialType::Debris
    }

    /// The tag of this material, as stored in the low byte of a voxel.
    pub fn to_u8(self) -> (value: u8)
        ensures
            value == self.tag(),
            Self::spec_from_u8(value) == self,
    {
        match self {
            MaterialType::Air => 0,
            MaterialType::Rock => 1,
            MaterialType::Dirt => 2,
            MaterialType::Wood => 3,
            MaterialType::Metal => 4,
            MaterialType::Fire => 5,
            MaterialType::Smoke => 6,
            MaterialType::Water => 7,
            MaterialType::Debris => 8,
        }
    }

    /// Reads a tag; an unknown tag gives air.
    #[verifier::when_used_as_spec(spec_from_u8)]
    pub fn from_u8(value: u8) -> (material: Self)
        ensures
            material == Self::spec_from_u8(value),
            value <= 8 ==> material.tag() == value,
            value > 8 ==> material == MaterialType::Air,
    {
        match value {
            1 => MaterialType::Rock,
            2 => MaterialType::Dirt,
            3 => MaterialType::Wood,
            4 => MaterialType::Metal,
            5 => MaterialType::Fire,
            6 => MaterialType::Smoke,
            7 => MaterialType::Water,
            8 => MaterialType::Debris,
            _ => MaterialType::Air,
        }
    }

    /// Whether this material blocks movement.
    #[verifier::when_used_as_spec(spec_is_solid)]
    pub fn is_solid(&self) -> (solid: bool)
        ensures
            solid == self.spec_is_solid(),
    {
        match self {
            MaterialType::Rock
            | MaterialType::Dirt
            | MaterialType::Wood
            | MaterialType::Metal => true,
            _ => false,
        }
    }

    /// Whether this material needs simulation.
    #[verifier::when_used_as_spec(spec_is_dynamic)]
    pub fn is_dynamic(&self) -> (dynamic: bool)
        ensures
            dynamic == self.spec_is_dynamic(),
    {
        match self {
            MaterialType::Fire
            | MaterialType::Smoke
            | MaterialType::Water
            | MaterialType::Debris => true,
            _ => false,
        }
    }
}

/// The word that packs the four fields of a voxel.
pub open spec fn pack(material: MaterialType, density: u8, temperature: u8, flags: u8) -> u32 {
    (material.tag() as u32) | ((density as u32) << 8) | ((temperature as u32) << 16) | ((
    flags as u32) << 24)
}

/// One voxel: material, density, temperature and flags in 32 bits.
#[derive(Debug, Clone, Copy, PartialEq, Eq, Structural)]
pub struct VoxelData {
    /// The packed word.
    pub data: u32,
}

impl VoxelData {
    /// The voxel with the given fields.
    pub open spec fn spec_new(
        material: MaterialType,
        density: u8,
        temperature: u8,
        flags: u8,
    ) -> VoxelData {
        VoxelData { data: pack(material, density, temperature, flags) }
    }

    /// The empty voxel: air, with every other field zero.
    pub open spec fn spec_air() -> VoxelData {
        VoxelData { data: 0 }
    }

    /// Solid rock of the given density: cold, colliding and static.
    pub open spec fn spec_rock(density: u8) -> VoxelData {
        Self::spec_new(MaterialType::Rock, density, 0, 0x09)
    }

    /// The raw tag in bits 0-7.
    pub open spec fn material_tag(&self) -> u8 {
        (self.data & 0xFF) as u8
    }

    pub open spec fn spec_material(&self) -> MaterialType {
        MaterialType::spec_from_u8(self.material_tag())
    }

    pub open spec fn spec_density(&self) -> u8 {
        ((self.data >> 8) & 0xFF) as u8
    }

    pub open spec fn spec_temperature(&self) -> u8 {
        ((self.data >> 16) & 0xFF) as u8
    }

    pub open spec fn spec_flags(&self) -> u8 {
        ((self.data >> 24) & 0xFF) as u8
    }

    pub open spec fn spec_has_flag(&self, flag: u8) -> bool {
        (self.spec_flags() & flag) != 0
    }

    pub open spec fn spec_is_empty(&self) -> bool {
        self.spec_material() == MaterialType::Air
    }

    pub open spec fn spec_is_solid(&self) -> bool {
        self.spec_has_flag(voxel_flags::COLLISION) || self.spec_material().spec_is_solid()
    }

    /// Packs the four fields into a voxel.
    #[verifier::when_used_as_spec(spec_new)]
    pub fn new(material: MaterialType, density: u8, temperature: u8, flags: u8) -> (voxel: Self)
        ensures
            voxel == Self::spec_new(material, density, temperature, flags),
            voxel.material() == material,
            voxel.density() == density,
            voxel.temperature() == temperature,
            voxel.flags() == flags,
    {
        let tag: u8 = material.to_u8();
        proof {
            lemma_pack_fields(material, density, temperature, flags);
        }
        let data: u32 = (tag as u32) | ((density as u32) << 8) | ((temperature as u32) << 16) | ((
        flags as u32) << 24);
        Self { data }
    }

    /// The empty voxel.
    #[verifier::when_used_as_spec(spec_air)]
    pub fn air() -> (voxel: Self)
        ensures
            voxel == Self::spec_air(),
            voxel == Self::spec_new(MaterialType::Air, 0, 0, voxel_flags::NONE),
            voxel.material() == MaterialType::Air,
            voxel.density() == 0,
            voxel.temperature() == 0,
            voxel.flags() == 0,
    {
        assert(((0u8 as u32) | ((0u8 as u32) << 8) | ((0u8 as u32) << 16) | ((0u8 as u32) << 24))
            == 0u32) by (bit_vector);
        Self::new(MaterialType::Air, 0, 0, voxel_flags::NONE)
    }

    /// Solid rock of the given density: cold, colliding and static.
    #[verifier::when_used_as_spec(spec_rock)]
    pub fn rock(density: u8) -> (voxel: Self)
        ensures
            voxel == Self::spec_rock(density),
            voxel.material() == MaterialType::Rock,
            voxel.density() == density,
            voxel.temperature() == 0,
            voxel.flags() == 0x09,
            voxel.has_flag(voxel_flags::COLLISION),
            voxel.has_flag(voxel_flags::STATIC),
    {
        assert(voxel_flags::COLLISION | voxel_flags::STATIC == 0x09u8) by (bit_vector);
        assert(0x09u8 & 0x01u8 != 0 && 0x09u8 & 0x08u8 != 0) by (bit_vector);
        Self::new(MaterialType::Rock, density, 0, voxel_flags::COLLISION | voxel_flags::STATIC)
    }

    /// The packed word.
    pub fn as_u32(&self) -> (word: u32)
        ensures
            word == self.data,
    {
        self.data
    }

    /// The voxel that a word stands for. Every word is accepted.
    pub fn from_u32(data: u32) -> (voxel: Self)
        ensures
            voxel.data == data,
    {
        Self { data }
    }

    /// The material; a tag that names none reads as air.
    #[verifier::when_used_as_spec(spec_material)]
    pub fn material(&self) -> (material: MaterialType)
        ensures
            material == self.spec_material(),
    {
        let word: u32 = self.data;
        assert(word & 0xFF <= 0xFF) by (bit_vector);
        MaterialType::from_u8((word & 0xFF) as u8)
    }

    /// The density, 0 to 255.
    #[verifier::when_used_as_spec(spec_density)]
    pub fn density(&self) -> (density: u8)
        ensures
            density == self.spec_density(),
    {
        let word: u32 = self.data;
        assert((word >> 8) & 0xFF <= 0xFF) by (bit_vector);
        ((word >> 8) & 0xFF) as u8
    }

    /// The temperature, 0 to 255.
    #[verifier::when_used_as_spec(spec_temperature)]
    pub fn temperature(&self) -> (temperature: u8)
        ensures
            temperature == self.spec_temperature(),
    {
        let word: u32 = self.data;
        assert((word >> 16) & 0xFF <= 0xFF) by (bit_vector);
        ((word >> 16) & 0xFF) as u8
    }

    /// The flag byte.
    #[verifier::when_used_as_spec(spec_flags)]
    pub fn flags(&self) -> (flags: u8)
        ensures
            flags == self.spec_flags(),
    {
        let word: u32 = self.data;
        assert((word >> 24) & 0xFF <= 0xFF) by (bit_vector);
        ((word >> 24) & 0xFF) as u8
    }

    /// Replaces the material and leaves the other three fields as they were.
    pub fn set_material(&mut self, material: MaterialType)
        ensures
            final(self).data == (old(self).data & 0xFFFFFF00) | (material.tag() as u32),
            final(self).material() == material,
            final(self).density() == old(self).density(),
            final(self).temperature() == old(self).temperature(),
            final(self).flags() == old(self).flags(),
    {
        let tag: u8 = material.to_u8();
        proof {
            lemma_replace_byte0(self.data, tag);
        }
        self.data = (self.data & 0xFFFFFF00) | (tag as u32);
    }

    /// Replaces the density and leaves the other three fields as they were.
    pub fn set_density(&mut self, density: u8)
        ensures
            final(self).data == (old(self).data & 0xFFFF00FF) | ((density as u32) << 8),
            final(self).material_tag() == old(self).material_tag(),
            final(self).material() == old(self).material(),
            final(self).density() == density,
            final(self).temperature() == old(self).temperature(),
            final(self).flags() == old(self).flags(),
    {
        proof {
            lemma_replace_byte1(self.data, density);
        }
        self.data = (self.data & 0xFFFF00FF) | ((density as u32) << 8);
    }

    /// Replaces the temperature and leaves the other three fields as they were.
    pub fn set_temperature(&mut self, temperature: u8)
        ensures
            final(self).data == (old(self).data & 0xFF00FFFF) | ((temperature as u32) << 16),
            final(self).material_tag() == old(self).material_tag(),
            final(self).material() == old(self).material(),
            final(self).density() == old(self).density(),
            final(self).temperature() == temperature,
            final(self).flags() == old(self).flags(),
    {
        proof {
            lemma_replace_byte2(self.data, temperature);
        }
        self.data = (self.data & 0xFF00FFFF) | ((temperature as u32) << 16);
    }

    /// Replaces the flag byte and leaves the other three fields as they were.
    pub fn set_flags(&mut self, flags: u8)
        ensures
            final(self).data == (old(self).data & 0x00FFFFFF) | ((flags as u32) << 24),
            final(self).material_tag() == old(self).material_tag(),
            final(self).material() == old(self).material(),
            final(self).density() == old(self).density(),
            final(self).temperature() == old(self).temperature(),
            final(self).flags() == flags,
    {
        proof {
            lemma_replace_byte3(self.data, flags);
        }
        self.data = (self.data & 0x00FFFFFF) | ((flags as u32) << 24);
    }

    /// Whether any bit of `flag` is set in the flag byte.
    #[verifier::when_used_as_spec(spec_has_flag)]
    pub fn has_flag(&self, flag: u8) -> (set: bool)
        ensures
            set == self.spec_has_flag(flag),
    {
        (self.flags() & flag) != 0
    }

    /// Sets the bits of `flag` in the flag byte.
    pub fn add_flag(&mut self, flag: u8)
        ensures
            final(self).flags() == old(self).flags() | flag,
            final(self).material_tag() == old(self).material_tag(),
            final(self).material() == old(self).material(),
            final(self).density() == old(self).density(),
            final(self).temperature() == old(self).temperature(),
    {
        let new_flags: u8 = self.flags() | flag;
        self.set_flags(new_flags);
    }

    /// Clears the bits of `flag` in the flag byte.
    pub fn remove_flag(&mut self, flag: u8)
        ensures
            final(self).flags() == old(self).flags() & !flag,
            final(self).material_tag() == old(self).material_tag(),
            final(self).material() == old(self).material(),
            final(self).density() == old(self).density(),
            final(self).temperature() == old(self).temperature(),
    {
        let new_flags: u8 = self.flags() & !flag;
        self.set_flags(new_flags);
    }

    /// Whether the voxel is air.
    #[verifier::when_used_as_spec(spec_is_empty)]
    pub fn is_empty(&self) -> (empty: bool)
        ensures
            empty == self.spec_is_empty(),
    {
        self.material() == MaterialType::Air
    }

    /// Whether the voxel blocks movement, by its flag or by its material.
    #[verifier::when_used_as_spec(spec_is_solid)]
    pub fn is_solid(&self) -> (solid: bool)
        ensures
            solid == self.spec_is_solid(),
    {
        self.has_flag(voxel_flags::COLLISION) || self.material().is_solid()
    }
}

impl Default for VoxelData {
    fn default() -> (voxel: Self)
        ensures
            voxel == VoxelData::spec_air(),
    {
        Self { data: 0 }
    }
}

/// The four bytes of a word put together from four bytes are those bytes.
proof fn lemma_bytes_of_packed(b0: u8, b1: u8, b2: u8, b3: u8)
    ensures
        ({
            let w = (b0 as u32) | ((b1 as u32) << 8) | ((b2 as u32) << 16) | ((b3 as u32) << 24);
            &&& (w & 0xFF) as u8 == b0
            &&& ((w >> 8) & 0xFF) as u8 == b1
            &&& ((w >> 16) & 0xFF) as u8 == b2
            &&& ((w >> 24) & 0xFF) as u8 == b3
        }),
{
    let w = (b0 as u32) | ((b1 as u32) << 8) | ((b2 as u32) << 16) | ((b3 as u32) << 24);
    assert(w & 0xFF == b0 as u32 && (w >> 8) & 0xFF == b1 as u32 && (w >> 16) & 0xFF == b2 as u32
        && (w >> 24) & 0xFF == b3 as u32) by (bit_vector)
        requires
            w == (b0 as u32) | ((b1 as u32) << 8) | ((b2 as u32) << 16) | ((b3 as u32) << 24),
    ;
}

proof fn lemma_pack_fields(material: MaterialType, density: u8, temperature: u8, flags: u8)
    ensures
        VoxelData::spec_new(material, density, temperature, flags).spec_material() == material,
        VoxelData::spec_new(material, density, temperature, flags).spec_density() == density,
        VoxelData::spec_new(material, density, temperature, flags).spec_temperature()
            == temperature,
        VoxelData::spec_new(material, density, temperature, flags).spec_flags() == flags,
{
    lemma_bytes_of_packed(material.tag(), density, temperature, flags);
}

proof fn lemma_replace_byte0(w: u32, b: u8)
    ensures
        ({
            let r = (w & 0xFFFFFF00) | (b as u32);
            &&& (r & 0xFF) as u8 == b
            &&& (r >> 8) & 0xFF == (w >> 8) & 0xFF
            &&& (r >> 16) & 0xFF == (w >> 16) & 0xFF
            &&& (r >> 24) & 0xFF == (w >> 24) & 0xFF
        }),
{
    let r = (w & 0xFFFFFF00) | (b as u32);
    assert(r & 0xFF == b as u32 && (r >> 8) & 0xFF == (w >> 8) & 0xFF && (r >> 16) & 0xFF == (w
        >> 16) & 0xFF && (r >> 24) & 0xFF == (w >> 24) & 0xFF) by (bit_vector)
        requires
            r == (w & 0xFFFFFF00) | (b as u32),
    ;
}

proof fn lemma_replace_byte1(w: u32, b: u8)
    ensures
        ({
            let r = (w & 0xFFFF00FF) | ((b as u32) << 8);
            &&& r & 0xFF == w & 0xFF
            &&& ((r >> 8) & 0xFF) as u8 == b
            &&& (r >> 16) & 0xFF == (w >> 16) & 0xFF
            &&& (r >> 24) & 0xFF == (w >> 24) & 0xFF
        }),
{
    let r = (w & 0xFFFF00FF) | ((b as u32) << 8);
    assert(r & 0xFF == w & 0xFF && (r >> 8) & 0xFF == b as u32 && (r >> 16) & 0xFF == (w >> 16)
        & 0xFF && (r >> 24) & 0xFF == (w >> 24) & 0xFF) by (bit_vector)
        requires
            r == (w & 0xFFFF00FF) | ((b as u32) << 8),
    ;
}

proof fn lemma_replace_byte2(w: u32, b: u8)
    ensures
        ({
            let r = (w & 0xFF00FFFF) | ((b as u32) << 16);
            &&& r & 0xFF == w & 0xFF
            &&& (r >> 8) & 0xFF == (w >> 8) & 0xFF
            &&& ((r >> 16) & 0xFF) as u8 == b
            &&& (r >> 24) & 0xFF == (w >> 24) & 0xFF
        }),
{
    let r = (w & 0xFF00FFFF) | ((b as u32) << 16);
    assert(r & 0xFF == w & 0xFF && (r >> 8) & 0xFF == (w >> 8) & 0xFF && (r >> 16) & 0xFF
        == b as u32 && (r >> 24) & 0xFF == (w >> 24) & 0xFF) by (bit_vector)
        requires
            r == (w & 0xFF00FFFF) | ((b as u32) << 16),
    ;
}

proof fn lemma_replace_byte3(w: u32, b: u8)
    ensures
        ({
            let r = (w & 0x00FFFFFF) | ((b as u32) << 24);
            &&& r & 0xFF == w & 0xFF
            &&& (r >> 8) & 0xFF == (w >> 8) & 0xFF
            &&& (r >> 16) & 0xFF == (w >> 16) & 0xFF
            &&& ((r >> 24) & 0xFF) as u8 == b
        }),
{
    let r = (w & 0x00FFFFFF) | ((b as u32) << 24);
    assert(r & 0xFF == w & 0xFF && (r >> 8) & 0xFF == (w >> 8) & 0xFF && (r >> 16) & 0xFF == (w
        >> 16) & 0xFF && (r >> 24) & 0xFF == b as u32) by (bit_vector)
        requires
            r == (w & 0x00FFFFFF) | ((b as u32) << 24),
    ;
}

/// Packing then unpacking gives back every field: a voxel built from
/// `(material, density, temperature, flags)`, taken as a word and read back
/// from that word, has exactly those four fields.
pub proof fn lemma_pack_round_trip(material: MaterialType, density: u8, temperature: u8, flags: u8)
    ensures
        ({
            let word = VoxelData::spec_new(material, density, temperature, flags).data;
            let back = VoxelData { data: word };
            &&& back == VoxelData::spec_new(material, density, temperature, flags)
            &&& back.spec_material() == material
            &&& back.spec_density() == density
            &&& back.spec_temperature() == temperature
            &&& back.spec_flags() == flags
        }),
{
    lemma_pack_fields(material, density, temperature, flags);
}

/// A word read as a voxel and packed again from its four fields is the same
/// word, provided its tag names a material.
pub proof fn lemma_unpack_round_trip(voxel: VoxelData)
    requires
        voxel.material_tag() <= 8,
    ensures
        VoxelData::spec_new(
            voxel.spec_material(),
            voxel.spec_density(),
            voxel.spec_temperature(),
            voxel.spec_flags(),
        ) == voxel,
{
    let w = voxel.data;
    let b0 = (w & 0xFF) as u8;
    let b1 = ((w >> 8) & 0xFF) as u8;
    let b2 = ((w >> 16) & 0xFF) as u8;
    let b3 = ((w >> 24) & 0xFF) as u8;
    assert(voxel.spec_material().tag() == b0);
    assert(w == (((w & 0xFF) as u8) as u32) | ((((w >> 8) & 0xFF) as u8) as u32) << 8 | ((((w
        >> 16) & 0xFF) as u8) as u32) << 16 | ((((w >> 24) & 0xFF) as u8) as u32) << 24)
        by (bit_vector);
}

} // verus!
