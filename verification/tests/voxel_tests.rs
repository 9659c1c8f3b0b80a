use voxel_world::world::voxel::voxel_flags;
use voxel_world::world::voxel::{MaterialType, VoxelData};

const MATERIALS: [MaterialType; 9] = [
    MaterialType::Air,
    MaterialType::Rock,
    MaterialType::Dirt,
    MaterialType::Wood,
    MaterialType::Metal,
    MaterialType::Fire,
    MaterialType::Smoke,
    MaterialType::Water,
    MaterialType::Debris,
];

#[test]
fn test_voxel_packing() {
    let voxel = VoxelData::new(
        MaterialType::Fire,
        200,
        255,
        voxel_flags::EMITS_LIGHT | voxel_flags::TEMPORARY,
    );

    assert_eq!(voxel.material(), MaterialType::Fire);
    assert_eq!(voxel.density(), 200);
    assert_eq!(voxel.temperature(), 255);
    assert!(voxel.has_flag(voxel_flags::EMITS_LIGHT));
    assert!(voxel.has_flag(voxel_flags::TEMPORARY));
}

#[test]
fn test_voxel_round_trip() {
    let original = VoxelData::new(MaterialType::Rock, 128, 50, voxel_flags::COLLISION);
    let packed = original.as_u32();
    let unpacked = VoxelData::from_u32(packed);

    assert_eq!(unpacked.material(), MaterialType::Rock);
    assert_eq!(unpacked.density(), 128);
    assert_eq!(unpacked.temperature(), 50);
    assert_eq!(unpacked.flags(), voxel_flags::COLLISION);
}

#[test]
fn round_trip_reproduces_every_field() {
    let samples: [u8; 7] = [0, 1, 2, 127, 128, 254, 255];
    for material in MATERIALS {
        for density in samples {
            for temperature in samples {
                for flags in samples {
                    let voxel = VoxelData::new(material, density, temperature, flags);
                    let back = VoxelData::from_u32(voxel.as_u32());
                    assert_eq!(back, voxel);
                    assert_eq!(back.material(), material);
                    assert_eq!(back.density(), density);
                    assert_eq!(back.temperature(), temperature);
                    assert_eq!(back.flags(), flags);
                }
            }
        }
    }
}

#[test]
fn fields_sit_in_their_own_bytes() {
    let voxel = VoxelData::new(MaterialType::Fire, 200, 255, 6);
    assert_eq!(voxel.as_u32(), 5 | (200 << 8) | (255 << 16) | (6 << 24));
    assert_eq!(voxel.as_u32(), 0x06FF_C805);
    let water = VoxelData::new(MaterialType::Water, 0x12, 0x34, 0x56);
    assert_eq!(water.as_u32(), 0x5634_1207);
}

#[test]
fn material_tags_are_as_listed() {
    let tags: [u8; 9] = [0, 1, 2, 3, 4, 5, 6, 7, 8];
    for (material, tag) in MATERIALS.iter().zip(tags) {
        assert_eq!(material.to_u8(), tag);
        assert_eq!(MaterialType::from_u8(tag), *material);
    }
}

#[test]
fn unknown_tags_read_as_air() {
    for tag in 9..=255u8 {
        assert_eq!(MaterialType::from_u8(tag), MaterialType::Air);
    }
    let voxel = VoxelData::from_u32(0x0102_03C8);
    assert_eq!(voxel.material(), MaterialType::Air);
    assert!(voxel.is_empty());
    assert_eq!(voxel.density(), 3);
    assert_eq!(voxel.temperature(), 2);
    assert_eq!(voxel.flags(), 1);
    assert_eq!(voxel.as_u32(), 0x0102_03C8);
}

#[test]
fn classification_of_materials() {
    let solid = [false, true, true, true, true, false, false, false, false];
    let dynamic = [false, false, false, false, false, true, true, true, true];
    for i in 0..9 {
        assert_eq!(MATERIALS[i].is_solid(), solid[i]);
        assert_eq!(MATERIALS[i].is_dynamic(), dynamic[i]);
    }
}

#[test]
fn air_is_all_zero() {
    let air = VoxelData::air();
    assert_eq!(air.as_u32(), 0);
    assert_eq!(air.material(), MaterialType::Air);
    assert_eq!(air.density(), 0);
    assert_eq!(air.temperature(), 0);
    assert_eq!(air.flags(), voxel_flags::NONE);
    assert!(air.is_empty());
    assert!(!air.is_solid());
    assert_eq!(VoxelData::default(), air);
}

#[test]
fn rock_collides_and_is_static() {
    let rock = VoxelData::rock(77);
    assert_eq!(rock.material(), MaterialType::Rock);
    assert_eq!(rock.density(), 77);
    assert_eq!(rock.temperature(), 0);
    assert_eq!(rock.flags(), voxel_flags::COLLISION | voxel_flags::STATIC);
    assert!(rock.has_flag(voxel_flags::COLLISION));
    assert!(rock.has_flag(voxel_flags::STATIC));
    assert!(!rock.has_flag(voxel_flags::TRANSPARENT));
    assert!(rock.is_solid());
    assert!(!rock.is_empty());
}

#[test]
fn setters_touch_only_their_own_field() {
    let start = VoxelData::new(MaterialType::Wood, 10, 20, 0x11);

    let mut v = start;
    v.set_material(MaterialType::Metal);
    assert_eq!(v, VoxelData::new(MaterialType::Metal, 10, 20, 0x11));

    let mut v = start;
    v.set_density(255);
    assert_eq!(v, VoxelData::new(MaterialType::Wood, 255, 20, 0x11));

    let mut v = start;
    v.set_temperature(0);
    assert_eq!(v, VoxelData::new(MaterialType::Wood, 10, 0, 0x11));

    let mut v = start;
    v.set_flags(0xFF);
    assert_eq!(v, VoxelData::new(MaterialType::Wood, 10, 20, 0xFF));
}

#[test]
fn set_material_replaces_an_unknown_tag() {
    let mut v = VoxelData::from_u32(0xAABB_CCDD);
    v.set_material(MaterialType::Smoke);
    assert_eq!(v.as_u32(), 0xAABB_CC06);
}

#[test]
fn flags_are_added_and_removed_bitwise() {
    let mut v = VoxelData::new(MaterialType::Smoke, 1, 2, voxel_flags::TEMPORARY);
    v.add_flag(voxel_flags::TRANSPARENT | voxel_flags::EMITS_LIGHT);
    assert_eq!(
        v.flags(),
        voxel_flags::TEMPORARY | voxel_flags::TRANSPARENT | voxel_flags::EMITS_LIGHT
    );
    v.add_flag(voxel_flags::TEMPORARY);
    assert_eq!(v.flags(), 0x16);
    v.remove_flag(voxel_flags::TEMPORARY | voxel_flags::COLLISION);
    assert_eq!(v.flags(), 0x12);
    assert!(!v.has_flag(voxel_flags::TEMPORARY));
    assert!(v.has_flag(voxel_flags::TRANSPARENT));
    assert!(v.has_flag(voxel_flags::TRANSPARENT | voxel_flags::COLLISION));
    assert!(!v.has_flag(voxel_flags::NONE));
    assert_eq!(v.material(), MaterialType::Smoke);
    assert_eq!(v.density(), 1);
    assert_eq!(v.temperature(), 2);
}

#[test]
fn flag_values() {
    assert_eq!(voxel_flags::NONE, 0);
    assert_eq!(voxel_flags::COLLISION, 1);
    assert_eq!(voxel_flags::EMITS_LIGHT, 2);
    assert_eq!(voxel_flags::TEMPORARY, 4);
    assert_eq!(voxel_flags::STATIC, 8);
    assert_eq!(voxel_flags::TRANSPARENT, 16);
}

#[test]
fn solid_by_flag_or_by_material() {
    assert!(VoxelData::new(MaterialType::Water, 0, 0, voxel_flags::COLLISION).is_solid());
    assert!(VoxelData::new(MaterialType::Dirt, 0, 0, voxel_flags::NONE).is_solid());
    assert!(!VoxelData::new(MaterialType::Water, 0, 0, voxel_flags::STATIC).is_solid());
}
