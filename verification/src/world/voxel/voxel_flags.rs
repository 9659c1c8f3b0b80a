//! Bits of the flag byte of a voxel.

use vstd::prelude::*;

verus! {

/// No flag set.
pub const NONE: u8 = 0x00;

/// The voxel blocks movement.
pub const COLLISION: u8 = 0x01;

/// The voxel emits light.
pub const EMITS_LIGHT: u8 = 0x02;

/// The voxel is removed once its lifetime is over.
pub const TEMPORARY: u8 = 0x04;

/// The voxel belongs to static geometry and is never simulated.
pub const STATIC: u8 = 0x08;

/// Light passes through the voxel.
pub const TRANSPARENT: u8 = 0x10;

} // verus!
