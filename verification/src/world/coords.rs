//! Coordinates: chunk positions, voxel positions inside a chunk, and
//! fixed-point world positions.
//!
//! A world coordinate counts units of 1/256 of a voxel edge, so the centre of
//! a voxel, half an edge from its corner, is a whole number of units.

use vstd::prelude::*;

verus! {

/// World units along one voxel edge.
pub const WORLD_UNITS_PER_VOXEL: i64 = 256;

/// World units from the corner of a voxel to its centre.
pub const WORLD_UNITS_TO_CENTER: i64 = 128;

/// World units along one chunk edge.
pub const WORLD_UNITS_PER_CHUNK: i64 = 16384;

/// The position of a chunk, counted in chunks.
#[derive(Debug, Clone, Copy, PartialEq, Eq, Hash, Structural)]
pub struct ChunkPos {
    pub x: i32,
    pub y: i32,
    pub z: i32,
}

/// The position of a voxel inside its chunk, counted in voxels.
#[derive(Debug, Clone, Copy, PartialEq, Eq, Hash, Structural)]
pub struct LocalPos {
    pub x: u32,
    pub y: u32,
    pub z: u32,
}

/// A point of world space, counted in world units on each axis.
#[derive(Debug, Clone, Copy, PartialEq, Eq, Hash, Structural)]
pub struct WorldPos {
    pub x: i64,
    pub y: i64,
    pub z: i64,
}

/// `value` brought into the range of `i64`.
pub open spec fn clamp_i64(value: int) -> i64 {
    if value < i64::MIN {
        i64::MIN
    } else if value > i64::MAX {
        i64::MAX
    } else {
        value as i64
    }
}

/// `value` brought into the range of `i32`.
pub open spec fn clamp_i32(value: int) -> i32 {
    if value < i32::MIN {
        i32::MIN
    } else if value > i32::MAX {
        i32::MAX
    } else {
        value as i32
    }
}

/// The quotient of `a` by a positive `b`, rounded towards minus infinity.
pub fn floor_div(a: i64, b: i64) -> (q: i64)
    requires
        b > 0,
    ensures
        q == (a as int) / (b as int),
        q * b <= a,
        a < (q + 1) * b,
{
    if a >= 0 {
        let q: i64 = a / b;
        proof {
            lemma_floor_div_bounds(a as int, b as int);
        }
        q
    } else {
        // -(a + 1) is not negative, so its quotient is exact.
        let m: i64 = -(a + 1);
        let t: i64 = m / b;
        proof {
            lemma_floor_div_bounds(m as int, b as int);
            assert((-t - 1) * b <= a && a < (-t - 1 + 1) * b) by (nonlinear_arith)
                requires
                    t * b <= m,
                    m < (t + 1) * b,
                    m == -(a + 1),
                    b > 0,
            ;
            lemma_floor_div_unique(a as int, b as int, -t - 1);
        }
        -t - 1
    }
}

/// The floor quotient times the divisor is the largest multiple not above the dividend.
pub proof fn lemma_floor_div_bounds(a: int, b: int)
    requires
        b > 0,
    ensures
        (a / b) * b <= a,
        a < (a / b + 1) * b,
{
    vstd::arithmetic::div_mod::lemma_fundamental_div_mod(a, b);
    vstd::arithmetic::div_mod::lemma_mod_bound(a, b);
    assert((a / b) * b == b * (a / b) && (a / b + 1) * b == b * (a / b) + b) by (nonlinear_arith);
}

/// The sum of `a` and `b`, stopped at the ends of the range of `i64`.
pub fn saturating_sum(a: i64, b: i64) -> (sum: i64)
    ensures
        sum == clamp_i64(a + b),
{
    let wide: i128 = a as i128 + b as i128;
    if wide < i64::MIN as i128 {
        i64::MIN
    } else if wide > i64::MAX as i128 {
        i64::MAX
    } else {
        wide as i64
    }
}

/// The difference of `a` and `b`, stopped at the ends of the range of `i64`.
pub fn saturating_difference(a: i64, b: i64) -> (difference: i64)
    ensures
        difference == clamp_i64(a - b),
{
    let wide: i128 = a as i128 - b as i128;
    if wide < i64::MIN as i128 {
        i64::MIN
    } else if wide > i64::MAX as i128 {
        i64::MAX
    } else {
        wide as i64
    }
}

/// A quotient `q` with `q * b <= a < (q + 1) * b` is the floor quotient.
pub proof fn lemma_floor_div_unique(a: int, b: int, q: int)
    requires
        b > 0,
        q * b <= a < (q + 1) * b,
    ensures
        a / b == q,
{
    assert(a - q * b < b) by (nonlinear_arith)
        requires
            a < (q + 1) * b,
    ;
    vstd::arithmetic::div_mod::lemma_fundamental_div_mod_converse(a, b, q, a - q * b);
}

/// The absolute difference of two coordinates.
pub fn abs_diff(a: i64, b: i64) -> (d: u128)
    ensures
        d == if a >= b {
            a - b
        } else {
            b - a
        },
        d <= 0xFFFF_FFFF_FFFF_FFFF,
{
    let wide: i128 = a as i128 - b as i128;
    if wide >= 0 {
        wide as u128
    } else {
        (-wide) as u128
    }
}

/// Squares grow with their roots.
pub proof fn lemma_square_order(a: int, b: int)
    requires
        0 <= a,
        0 <= b,
    ensures
        a <= b ==> a * a <= b * b,
        a < b ==> a * a < b * b,
        a * a <= b * b ==> a <= b,
        a * a < b * b ==> a < b,
{
    assert(a <= b ==> a * a <= b * b) by (nonlinear_arith)
        requires
            0 <= a,
            0 <= b,
    ;
    assert(a < b ==> a * a < b * b) by (nonlinear_arith)
        requires
            0 <= a,
            0 <= b,
    ;
    assert(b <= a ==> b * b <= a * a) by (nonlinear_arith)
        requires
            0 <= a,
            0 <= b,
    ;
    assert(b < a ==> b * b < a * a) by (nonlinear_arith)
        requires
            0 <= a,
            0 <= b,
    ;
}

/// The least whole number whose square is not below `value`.
pub fn ceil_sqrt(value: u128) -> (root: u128)
    ensures
        root * root >= value,
        root > 0 ==> (root - 1) * (root - 1) < value,
        root <= 0x1_0000_0000_0000_0000,
{
    let mut lo: u128 = 0;
    let mut hi: u128 = 0x1_0000_0000_0000_0000;
    assert(0x1_0000_0000_0000_0000int * 0x1_0000_0000_0000_0000int > u128::MAX)
        by (nonlinear_arith);
    while lo < hi
        invariant
            lo <= hi <= 0x1_0000_0000_0000_0000,
            hi * hi >= value,
            lo > 0 ==> (lo - 1) * (lo - 1) < value,
        decreases hi - lo,
    {
        let mid: u128 = lo + (hi - lo) / 2;
        proof {
            lemma_square_order(mid as int, 0xFFFF_FFFF_FFFF_FFFF);
            assert(0xFFFF_FFFF_FFFF_FFFFint * 0xFFFF_FFFF_FFFF_FFFFint <= u128::MAX)
                by (nonlinear_arith);
        }
        if mid * mid >= value {
            hi = mid;
        } else {
            lo = mid + 1;
        }
    }
    lo
}

/// The quotient of `a` by a positive `b`, rounded towards minus infinity,
/// for wide operands.
pub fn floor_div_wide(a: i128, b: i128) -> (q: i128)
    requires
        b > 0,
    ensures
        q == (a as int) / (b as int),
{
    if a >= 0 {
        a / b
    } else {
        let m: i128 = -(a + 1);
        let t: i128 = m / b;
        proof {
            lemma_floor_div_bounds(m as int, b as int);
            assert((-t - 1) * b <= a && a < (-t - 1 + 1) * b) by (nonlinear_arith)
                requires
                    t * b <= m,
                    m < (t + 1) * b,
                    m == -(a + 1),
                    b > 0,
            ;
            lemma_floor_div_unique(a as int, b as int, -t - 1);
        }
        -t - 1
    }
}

impl ChunkPos {
    pub fn new(x: i32, y: i32, z: i32) -> (pos: Self)
        ensures
            pos == (ChunkPos { x, y, z }),
    {
        Self { x, y, z }
    }
}

impl LocalPos {
    pub fn new(x: u32, y: u32, z: u32) -> (pos: Self)
        ensures
            pos == (LocalPos { x, y, z }),
    {
        Self { x, y, z }
    }
}

impl WorldPos {
    /// The point with the given coordinates in world units.
    pub fn new(x: i64, y: i64, z: i64) -> (pos: Self)
        ensures
            pos == (WorldPos { x, y, z }),
    {
        Self { x, y, z }
    }

    /// The corner of the voxel with the given whole-voxel coordinates.
    pub fn from_voxels(x: i32, y: i32, z: i32) -> (pos: Self)
        ensures
            pos.x == x * WORLD_UNITS_PER_VOXEL,
            pos.y == y * WORLD_UNITS_PER_VOXEL,
            pos.z == z * WORLD_UNITS_PER_VOXEL,
    {
        Self {
            x: (x as i64) * WORLD_UNITS_PER_VOXEL,
            y: (y as i64) * WORLD_UNITS_PER_VOXEL,
            z: (z as i64) * WORLD_UNITS_PER_VOXEL,
        }
    }

    /// This point moved by `delta` on every axis, each coordinate kept within `i64`.
    pub open spec fn spec_offset(self, delta: int) -> WorldPos {
        WorldPos {
            x: clamp_i64(self.x + delta),
            y: clamp_i64(self.y + delta),
            z: clamp_i64(self.z + delta),
        }
    }

    /// This point moved by `delta` on every axis; a coordinate that would leave
    /// the range of `i64` stops at its end.
    pub fn offset(self, delta: i64) -> (pos: Self)
        ensures
            pos == self.spec_offset(delta as int),
    {
        Self {
            x: saturating_sum(self.x, delta),
            y: saturating_sum(self.y, delta),
            z: saturating_sum(self.z, delta),
        }
    }

    /// This point moved back by `delta` on every axis; a coordinate that
    /// would leave the range of `i64` stops at its end.
    pub fn offset_back(self, delta: i64) -> (pos: Self)
        ensures
            pos == self.spec_offset(-(delta as int)),
    {
        Self {
            x: saturating_difference(self.x, delta),
            y: saturating_difference(self.y, delta),
            z: saturating_difference(self.z, delta),
        }
    }
}

} // verus!
