use voxel_world::volume::{march_ray, project_rays, Axis, PixelHit, Volume, VolumeRenderResult};
use voxel_world::world::coords::LocalPos;

fn hit(n: u8) -> PixelHit {
    PixelHit {
        position: (n, n + 1, n + 2),
        normal: (n + 3, n + 4, n + 5),
        diffuse: (n + 6, n + 7, n + 8),
    }
}

fn pixel(map: &[u8], width: u32, px: u32, py: u32) -> [u8; 4] {
    let at = ((py * width + px) * 4) as usize;
    [map[at], map[at + 1], map[at + 2], map[at + 3]]
}

/// A field of 3 x 4 x 5 whose sample at (x, y, z) is 100 x + 10 y + z + 1.
fn numbered() -> Volume {
    let mut v = Volume::new(3, 4, 5);
    for z in 0..5 {
        for y in 0..4 {
            for x in 0..3 {
                v.set(x, y, z, 100 * x + 10 * y + z + 1);
            }
        }
    }
    v
}

#[test]
fn new_volume_is_all_zero() {
    let v = Volume::new(3, 4, 5);
    assert_eq!(v.dimensions, LocalPos::new(3, 4, 5));
    assert_eq!(v.data.len(), 60);
    assert!(v.data.iter().all(|s| *s == 0));
    let empty = Volume::new(0, 7, 7);
    assert_eq!(empty.data.len(), 0);
    assert_eq!(empty.get(0, 0, 0), 0);
}

#[test]
fn volume_well_formedness_can_be_tested() {
    let mut v = Volume::new(3, 4, 5);
    assert!(v.is_well_formed());
    v.data.pop();
    assert!(!v.is_well_formed());
    v.data.push(0);
    v.dimensions = LocalPos::new(5, 4, 3);
    assert!(v.is_well_formed());
    v.dimensions = LocalPos::new(u32::MAX, u32::MAX, u32::MAX);
    assert!(!v.is_well_formed());
    v.dimensions = LocalPos::new(u32::MAX, u32::MAX, 0);
    assert!(!v.is_well_formed());
    v.data.clear();
    assert!(v.is_well_formed());
    assert!(Volume::new(0, 0, 0).is_well_formed());
}

#[test]
fn samples_are_stored_x_fastest() {
    let mut v = Volume::new(3, 4, 5);
    v.set(1, 2, 3, 0x3F80_0000);
    assert_eq!(v.get(1, 2, 3), 0x3F80_0000);
    assert_eq!(v.data[3 * 3 * 4 + 2 * 3 + 1], 0x3F80_0000);
    assert_eq!(v.data.iter().filter(|s| **s != 0).count(), 1);
    v.set(2, 3, 4, 9);
    assert_eq!(v.data[59], 9);
}

#[test]
fn reads_outside_give_zero_and_writes_outside_do_nothing() {
    let mut v = numbered();
    let before = v.data.clone();
    for (x, y, z) in [(3, 0, 0), (0, 4, 0), (0, 0, 5), (u32::MAX, 0, 0), (3, 4, 5)] {
        assert_eq!(v.get(x, y, z), 0);
        v.set(x, y, z, 77);
    }
    assert_eq!(v.data, before);
    assert_eq!(v.get(2, 3, 4), 235);
}

#[test]
fn neighbours_for_a_central_difference() {
    let v = numbered();
    assert_eq!(v.axis_neighbors(1, 1, 1, Axis::X), Some((12, 212)));
    assert_eq!(v.axis_neighbors(1, 1, 1, Axis::Y), Some((102, 122)));
    assert_eq!(v.axis_neighbors(1, 1, 1, Axis::Z), Some((111, 113)));
    // Nothing at the border along the axis.
    assert_eq!(v.axis_neighbors(0, 1, 1, Axis::X), None);
    assert_eq!(v.axis_neighbors(2, 1, 1, Axis::X), None);
    assert_eq!(v.axis_neighbors(1, 0, 1, Axis::Y), None);
    assert_eq!(v.axis_neighbors(1, 3, 1, Axis::Y), None);
    assert_eq!(v.axis_neighbors(1, 1, 0, Axis::Z), None);
    assert_eq!(v.axis_neighbors(1, 1, 4, Axis::Z), None);
    // The border along another axis does not matter.
    assert_eq!(v.axis_neighbors(0, 1, 1, Axis::Y), Some((2, 22)));
    // Nor does it fail far outside.
    assert_eq!(v.axis_neighbors(u32::MAX, u32::MAX, u32::MAX, Axis::X), None);
    assert_eq!(v.axis_neighbors(1, 1, 9, Axis::X), Some((0, 0)));
}

#[test]
fn corners_of_a_cell() {
    let v = numbered();
    assert_eq!(
        v.cell_corners(0, 1, 2),
        [13, 113, 23, 123, 14, 114, 24, 124]
    );
    // At the upper border the cell is flat.
    assert_eq!(
        v.cell_corners(2, 3, 4),
        [235, 235, 235, 235, 235, 235, 235, 235]
    );
    assert_eq!(
        v.cell_corners(2, 0, 0),
        [201, 201, 211, 211, 202, 202, 212, 212]
    );
    // A cell outside the lattice reads as zero but for its clamped corners.
    assert_eq!(v.cell_corners(7, 7, 7), [0, 0, 0, 0, 0, 0, 0, 235]);
    assert_eq!(
        v.cell_corners(u32::MAX, 0, 0),
        [0, 201, 0, 211, 0, 202, 0, 212]
    );
}

#[test]
fn generated_volume_holds_what_the_function_gives() {
    let v = Volume::generate(4, |x, y, z| x + 10 * y + 100 * z);
    assert_eq!(v.dimensions, LocalPos::new(4, 4, 4));
    assert_eq!(v.data.len(), 64);
    for z in 0..4 {
        for y in 0..4 {
            for x in 0..4 {
                assert_eq!(v.get(x, y, z), x + 10 * y + 100 * z);
            }
        }
    }
    let again = Volume::generate(4, |x, y, z| x + 10 * y + 100 * z);
    assert_eq!(again.data, v.data);
    assert_eq!(Volume::generate(0, |_, _, _| 1).data.len(), 0);
}

#[test]
fn march_stops_at_the_first_hit() {
    let probe = |_px: u32, _py: u32, step: u64| if step >= 3 { Some(hit(step as u8)) } else { None };
    assert_eq!(march_ray(&probe, 0, 0, 10), Some(hit(3)));
    assert_eq!(march_ray(&probe, 0, 0, 4), Some(hit(3)));
    assert_eq!(march_ray(&probe, 0, 0, 3), None);
    assert_eq!(march_ray(&probe, 0, 0, 0), None);
}

#[test]
fn march_goes_on_after_steps_that_miss() {
    // Misses, then a hit at step 7, however many misses come before.
    let calls = std::cell::Cell::new(0u32);
    let probe = |_px: u32, _py: u32, step: u64| {
        calls.set(calls.get() + 1);
        if step == 7 {
            Some(hit(70))
        } else {
            None
        }
    };
    assert_eq!(march_ray(&probe, 1, 2, 96), Some(hit(70)));
    assert_eq!(calls.get(), 8);
}

#[test]
fn projection_of_nothing_is_transparent_black() {
    let result: VolumeRenderResult = project_rays(5, 96, |_, _, _| None);
    assert_eq!(result.width, 5);
    assert_eq!(result.height, 5);
    assert_eq!(result.position_map, vec![0u8; 100]);
    assert_eq!(result.normal_map, vec![0u8; 100]);
    assert_eq!(result.diffuse_map, vec![0u8; 100]);
}

#[test]
fn projection_writes_hits_opaque_and_misses_transparent() {
    // The ray of a pixel hits where px + py is even, at step px.
    let probe = |px: u32, py: u32, step: u64| {
        if (px + py) % 2 == 0 && step == px as u64 {
            Some(hit((10 * py + px) as u8))
        } else {
            None
        }
    };
    let result = project_rays(4, 8, probe);
    assert_eq!(result.position_map.len(), 64);
    assert_eq!(result.normal_map.len(), 64);
    assert_eq!(result.diffuse_map.len(), 64);
    for py in 0..4 {
        for px in 0..4 {
            let n = (10 * py + px) as u8;
            let position = pixel(&result.position_map, 4, px, py);
            let normal = pixel(&result.normal_map, 4, px, py);
            let diffuse = pixel(&result.diffuse_map, 4, px, py);
            if (px + py) % 2 == 0 {
                assert_eq!(position, [n, n + 1, n + 2, 255]);
                assert_eq!(normal, [n + 3, n + 4, n + 5, 255]);
                assert_eq!(diffuse, [n + 6, n + 7, n + 8, 255]);
            } else {
                assert_eq!(position, [0, 0, 0, 0]);
                assert_eq!(normal, [0, 0, 0, 0]);
                assert_eq!(diffuse, [0, 0, 0, 0]);
            }
        }
    }
    // Rows come from the top, each row from the left.
    assert_eq!(&result.position_map[0..4], &[0, 1, 2, 255]);
    assert_eq!(&result.position_map[4 * 5..4 * 6], &[11, 12, 13, 255]);
}

#[test]
fn projection_misses_a_hit_beyond_the_last_step() {
    let result = project_rays(2, 3, |_, _, step| if step == 3 { Some(hit(1)) } else { None });
    assert_eq!(result.position_map, vec![0u8; 16]);
    let result = project_rays(2, 4, |_, _, step| if step == 3 { Some(hit(1)) } else { None });
    assert_eq!(pixel(&result.diffuse_map, 2, 1, 1), [7, 8, 9, 255]);
}

#[test]
fn projection_is_repeatable() {
    let probe = |px: u32, py: u32, step: u64| {
        if step == ((px * 7 + py * 3) % 11) as u64 {
            Some(hit((px + py) as u8))
        } else {
            None
        }
    };
    let a = project_rays(16, 8, probe);
    let b = project_rays(16, 8, probe);
    assert_eq!(a.position_map, b.position_map);
    assert_eq!(a.normal_map, b.normal_map);
    assert_eq!(a.diffuse_map, b.diffuse_map);
}

#[test]
fn projection_of_size_zero_is_empty() {
    let result = project_rays(0, 10, |_, _, _| Some(hit(0)));
    assert_eq!(result.width, 0);
    assert_eq!(result.height, 0);
    assert!(result.position_map.is_empty());
    assert!(result.normal_map.is_empty());
    assert!(result.diffuse_map.is_empty());
}
