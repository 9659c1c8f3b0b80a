//! A density field on a lattice, and the raster maps that a projection of
//! it fills.
//!
//! The field stores each density as the 32-bit pattern of a
//! single-precision number and never looks inside it: zero bits are the
//! density zero. What is computed from the densities themselves is the
//! caller's part; the lattice, its bounds and the maps are kept here.

use vstd::prelude::*;
use crate::world::coords::LocalPos;

verus! {

/// The number of lattice points of a field with the given dimensions.
pub open spec fn cell_count(dimensions: LocalPos) -> int {
    dimensions.x * dimensions.y * dimensions.z
}

/// The place of the lattice point `(x, y, z)` in the sample sequence of a
/// field with the given dimensions.
pub open spec fn lattice_index(dimensions: LocalPos, x: int, y: int, z: int) -> int {
    z * dimensions.x * dimensions.y + y * dimensions.x + x
}

/// One axis of the lattice.
#[derive(Debug, Clone, Copy, PartialEq, Eq, Structural)]
pub enum Axis {
    X,
    Y,
    Z,
}

/// A density field: one sample at each point of a lattice.
#[derive(Clone)]
pub struct Volume {
    /// Width, height and depth of the lattice.
    pub dimensions: LocalPos,
    /// The samples; `(x, y, z)` is at `z * width * height + y * width + x`.
    pub data: Vec<u32>,
}

/// A lattice point inside the product of the dimensions has its place
/// inside the sample sequence.
proof fn lemma_index_in_range(x: int, y: int, z: int, w: int, h: int, d: int)
    requires
        0 <= x < w,
        0 <= y < h,
        0 <= z < d,
    ensures
        0 <= z * w * h,
        0 <= y * w,
        z * w * h + y * w + x < w * h * d,
        z * w * h <= w * h * d,
        y * w <= w * h * d,
        0 <= z * w <= w * h * d,
{
    assert(z * w * h + y * w + x < w * h * d && 0 <= z * w * h && 0 <= y * w && z * w * h <= w
        * h * d && y * w <= w * h * d && 0 <= z * w && z * w <= z * w * h) by (nonlinear_arith)
        requires
            0 <= x < w,
            0 <= y < h,
            0 <= z < d,
    {
        assert(z * w * h == (z * h) * w);
        assert(w * h * d == (h * d) * w);
        assert((z * h + y + 1) * w <= (h * d) * w) by {
            assert(z * h + h <= d * h);
        }
        assert((z * h + y + 1) * w == (z * h) * w + y * w + w);
    }
}

impl Volume {
    /// A field is well formed when it holds one sample for each lattice
    /// point and the number of points fits in 32 bits.
    pub open spec fn wf(&self) -> bool {
        &&& self.data@.len() == cell_count(self.dimensions)
        &&& cell_count(self.dimensions) <= u32::MAX
    }

    /// Whether `(x, y, z)` is a point of the lattice.
    pub open spec fn contains(&self, x: int, y: int, z: int) -> bool {
        &&& 0 <= x < self.dimensions.x
        &&& 0 <= y < self.dimensions.y
        &&& 0 <= z < self.dimensions.z
    }

    /// The place of the lattice point `(x, y, z)` in the sample sequence.
    pub open spec fn spec_index(&self, x: int, y: int, z: int) -> int {
        lattice_index(self.dimensions, x, y, z)
    }

    /// The sample at `(x, y, z)`; zero outside the lattice.
    pub open spec fn spec_get(&self, x: int, y: int, z: int) -> u32 {
        if self.contains(x, y, z) {
            self.data@[self.spec_index(x, y, z)]
        } else {
            0
        }
    }

    /// Whether the field is well formed. A field made by `new` or
    /// `generate` and changed only through `set` always is.
    pub fn is_well_formed(&self) -> (ok: bool)
        ensures
            ok == self.wf(),
    {
        let w: u64 = self.dimensions.x as u64;
        let h: u64 = self.dimensions.y as u64;
        let d: u64 = self.dimensions.z as u64;
        assert(w * h <= 0xFFFF_FFFF * 0xFFFF_FFFF) by (nonlinear_arith)
            requires
                0 <= w <= 0xFFFF_FFFF,
                0 <= h <= 0xFFFF_FFFF,
        ;
        let area: u64 = w * h;
        if area == 0 || d == 0 {
            assert(w * h * d == 0) by (nonlinear_arith)
                requires
                    w * h == 0 || d == 0,
            ;
            return self.data.len() == 0;
        }
        if area > u32::MAX as u64 {
            assert(w * h * d > u32::MAX) by (nonlinear_arith)
                requires
                    w * h > u32::MAX,
                    d >= 1,
            ;
            return false;
        }
        assert(area * d <= 0xFFFF_FFFF * 0xFFFF_FFFF) by (nonlinear_arith)
            requires
                0 <= area <= 0xFFFF_FFFF,
                0 <= d <= 0xFFFF_FFFF,
        ;
        let count: u64 = area * d;
        count <= u32::MAX as u64 && self.data.len() as u64 == count
    }

    /// A field of the given dimensions with every sample zero.
    pub fn new(width: u32, height: u32, depth: u32) -> (volume: Self)
        requires
            width * height * depth <= u32::MAX,
        ensures
            volume.wf(),
            volume.dimensions == (LocalPos { x: width, y: height, z: depth }),
            forall|i: int| 0 <= i < volume.data@.len() ==> volume.data@[i] == 0,
    {
        let size: u64 = if depth == 0 {
            assert(width * height * depth == 0) by (nonlinear_arith)
                requires
                    depth == 0,
            ;
            0
        } else {
            assert(width * height <= width * height * depth) by (nonlinear_arith)
                requires
                    depth >= 1,
                    0 <= width,
                    0 <= height,
            ;
            (width as u64) * (height as u64) * (depth as u64)
        };
        Self { dimensions: LocalPos::new(width, height, depth), data: vec![0u32; size as usize] }
    }

    /// The place of a lattice point in `data`.
    fn index(&self, x: u32, y: u32, z: u32) -> (i: usize)
        requires
            self.wf(),
            self.contains(x as int, y as int, z as int),
        ensures
            i == self.spec_index(x as int, y as int, z as int),
            i < self.data@.len(),
    {
        proof {
            lemma_index_in_range(
                x as int,
                y as int,
                z as int,
                self.dimensions.x as int,
                self.dimensions.y as int,
                self.dimensions.z as int,
            );
        }
        (z * self.dimensions.x * self.dimensions.y + y * self.dimensions.x + x) as usize
    }

    /// The sample at `(x, y, z)`; zero outside the lattice.
    pub fn get(&self, x: u32, y: u32, z: u32) -> (value: u32)
        requires
            self.wf(),
        ensures
            value == self.spec_get(x as int, y as int, z as int),
    {
        if x >= self.dimensions.x || y >= self.dimensions.y || z >= self.dimensions.z {
            return 0;
        }
        self.data[self.index(x, y, z)]
    }

    /// Stores `value` at `(x, y, z)`; outside the lattice nothing changes.
    pub fn set(&mut self, x: u32, y: u32, z: u32, value: u32)
        requires
            old(self).wf(),
        ensures
            final(self).wf(),
            final(self).dimensions == old(self).dimensions,
            old(self).contains(x as int, y as int, z as int) ==> final(self).data@ == old(
                self,
            ).data@.update(old(self).spec_index(x as int, y as int, z as int), value),
            !old(self).contains(x as int, y as int, z as int) ==> final(self).data@ == old(
                self,
            ).data@,
    {
        if x >= self.dimensions.x || y >= self.dimensions.y || z >= self.dimensions.z {
            return ;
        }
        let idx = self.index(x, y, z);
        self.data[idx] = value;
    }

    /// The two samples next to `(x, y, z)` along `axis`, the lower one
    /// first, where the point has a neighbour on both sides; nothing at the
    /// border of the lattice along that axis.
    pub open spec fn spec_axis_neighbors(&self, x: int, y: int, z: int, axis: Axis) -> Option<
        (u32, u32),
    > {
        match axis {
            Axis::X => if 0 < x && x + 1 < self.dimensions.x {
                Some((self.spec_get(x - 1, y, z), self.spec_get(x + 1, y, z)))
            } else {
                None
            },
            Axis::Y => if 0 < y && y + 1 < self.dimensions.y {
                Some((self.spec_get(x, y - 1, z), self.spec_get(x, y + 1, z)))
            } else {
                None
            },
            Axis::Z => if 0 < z && z + 1 < self.dimensions.z {
                Some((self.spec_get(x, y, z - 1), self.spec_get(x, y, z + 1)))
            } else {
                None
            },
        }
    }

    /// The samples that a central difference along `axis` at `(x, y, z)`
    /// is taken from.
    pub fn axis_neighbors(&self, x: u32, y: u32, z: u32, axis: Axis) -> (pair: Option<(u32, u32)>)
        requires
            self.wf(),
        ensures
            pair == self.spec_axis_neighbors(x as int, y as int, z as int, axis),
    {
        match axis {
            Axis::X => if x > 0 && (x as u64) + 1 < self.dimensions.x as u64 {
                Some((self.get(x - 1, y, z), self.get(x + 1, y, z)))
            } else {
                None
            },
            Axis::Y => if y > 0 && (y as u64) + 1 < self.dimensions.y as u64 {
                Some((self.get(x, y - 1, z), self.get(x, y + 1, z)))
            } else {
                None
            },
            Axis::Z => if z > 0 && (z as u64) + 1 < self.dimensions.z as u64 {
                Some((self.get(x, y, z - 1), self.get(x, y, z + 1)))
            } else {
                None
            },
        }
    }

    /// The neighbour of the coordinate `v` towards the upper end of an axis
    /// of length `len`: the next point, or `v` itself at the end.
    pub open spec fn upper(v: int, len: int) -> int {
        if v + 1 < len {
            v + 1
        } else {
            len - 1
        }
    }

    /// The samples at the eight corners of the lattice cell whose lowest
    /// corner is `(x, y, z)`, x running fastest, then y, then z. The upper
    /// corners of a cell at the upper border of the lattice lie on the
    /// border. A corner outside the lattice reads as zero.
    pub fn cell_corners(&self, x: u32, y: u32, z: u32) -> (corners: [u32; 8])
        requires
            self.wf(),
            self.dimensions.x >= 1,
            self.dimensions.y >= 1,
            self.dimensions.z >= 1,
        ensures
            ({
                let x1 = Self::upper(x as int, self.dimensions.x as int);
                let y1 = Self::upper(y as int, self.dimensions.y as int);
                let z1 = Self::upper(z as int, self.dimensions.z as int);
                &&& corners@[0] == self.spec_get(x as int, y as int, z as int)
                &&& corners@[1] == self.spec_get(x1, y as int, z as int)
                &&& corners@[2] == self.spec_get(x as int, y1, z as int)
                &&& corners@[3] == self.spec_get(x1, y1, z as int)
                &&& corners@[4] == self.spec_get(x as int, y as int, z1)
                &&& corners@[5] == self.spec_get(x1, y as int, z1)
                &&& corners@[6] == self.spec_get(x as int, y1, z1)
                &&& corners@[7] == self.spec_get(x1, y1, z1)
            }),
    {
        let x1: u32 = if (x as u64) + 1 < self.dimensions.x as u64 {
            x + 1
        } else {
            self.dimensions.x - 1
        };
        let y1: u32 = if (y as u64) + 1 < self.dimensions.y as u64 {
            y + 1
        } else {
            self.dimensions.y - 1
        };
        let z1: u32 = if (z as u64) + 1 < self.dimensions.z as u64 {
            z + 1
        } else {
            self.dimensions.z - 1
        };
        [
            self.get(x, y, z),
            self.get(x1, y, z),
            self.get(x, y1, z),
            self.get(x1, y1, z),
            self.get(x, y, z1),
            self.get(x1, y, z1),
            self.get(x, y1, z1),
            self.get(x1, y1, z1),
        ]
    }

    /// A cubic field of edge `size` whose sample at each point is what
    /// `density` gives for that point. The points are visited with x
    /// running fastest, then y, then z.
    pub fn generate<F: Fn(u32, u32, u32) -> u32>(size: u32, density: F) -> (volume: Self)
        requires
            size * size * size <= u32::MAX,
            forall|x: u32, y: u32, z: u32|
                x < size && y < size && z < size ==> call_requires(density, (x, y, z)),
        ensures
            volume.wf(),
            volume.dimensions == (LocalPos { x: size, y: size, z: size }),
            forall|x: u32, y: u32, z: u32|
                x < size && y < size && z < size ==> call_ensures(
                    density,
                    (x, y, z),
                    #[trigger] volume.spec_get(x as int, y as int, z as int),
                ),
    {
        let mut data: Vec<u32> = Vec::new();
        let ghost mut points: Seq<(u32, u32, u32)> = Seq::empty();
        let ghost dims = LocalPos { x: size, y: size, z: size };
        let mut z: u32 = 0;
        while z < size
            invariant
                z <= size,
                size * size * size <= u32::MAX,
                forall|x: u32, y: u32, z: u32|
                    x < size && y < size && z < size ==> call_requires(density, (x, y, z)),
                dims == (LocalPos { x: size, y: size, z: size }),
                data@.len() == z * size * size,
                points.len() == data@.len(),
                forall|i: int|
                    0 <= i < points.len() ==> call_ensures(density, #[trigger] points[i], data@[i]),
                forall|px: u32, py: u32, pz: u32|
                    px < size && py < size && pz < z ==> {
                        &&& 0 <= #[trigger] lattice_index(dims, px as int, py as int, pz as int)
                            < points.len()
                        &&& points[lattice_index(dims, px as int, py as int, pz as int)] == (
                            px,
                            py,
                            pz,
                        )
                    },
            decreases size - z,
        {
            let mut y: u32 = 0;
            while y < size
                invariant
                    z < size,
                    y <= size,
                    size * size * size <= u32::MAX,
                    forall|x: u32, y: u32, z: u32|
                        x < size && y < size && z < size ==> call_requires(density, (x, y, z)),
                    dims == (LocalPos { x: size, y: size, z: size }),
                    data@.len() == z * size * size + y * size,
                    points.len() == data@.len(),
                    forall|i: int|
                        0 <= i < points.len() ==> call_ensures(
                            density,
                            #[trigger] points[i],
                            data@[i],
                        ),
                    forall|px: u32, py: u32, pz: u32|
                        px < size && py < size && (pz < z || (pz == z && py < y)) ==> {
                            &&& 0 <= #[trigger] lattice_index(dims, px as int, py as int, pz as int)
                                < points.len()
                            &&& points[lattice_index(dims, px as int, py as int, pz as int)] == (
                                px,
                                py,
                                pz,
                            )
                        },
                decreases size - y,
            {
                let mut x: u32 = 0;
                while x < size
                    invariant
                        z < size,
                        y < size,
                        x <= size,
                        size * size * size <= u32::MAX,
                        forall|x: u32, y: u32, z: u32|
                            x < size && y < size && z < size ==> call_requires(density, (x, y, z)),
                        dims == (LocalPos { x: size, y: size, z: size }),
                        data@.len() == z * size * size + y * size + x,
                        points.len() == data@.len(),
                        forall|i: int|
                            0 <= i < points.len() ==> call_ensures(
                                density,
                                #[trigger] points[i],
                                data@[i],
                            ),
                        forall|px: u32, py: u32, pz: u32|
                            px < size && py < size && (pz < z || (pz == z && (py < y || (py == y
                                && px < x)))) ==> {
                                &&& 0 <= #[trigger] lattice_index(dims, px as int,
                                    py as int,
                                    pz as int,
                                ) < points.len()
                                &&& points[lattice_index(
                                    dims,
                                    px as int,
                                    py as int,
                                    pz as int,
                                )] == (px, py, pz)
                            },
                    decreases size - x,
                {
                    let value: u32 = density(x, y, z);
                    data.push(value);
                    proof {
                        points = points.push((x, y, z));
                    }
                    x += 1;
                }
                proof {
                    assert(z * size * size + y * size + size == z * size * size + (y + 1) * size)
                        by (nonlinear_arith);
                }
                y += 1;
            }
            proof {
                assert(z * size * size + size * size == (z + 1) * size * size) by (nonlinear_arith);
            }
            z += 1;
        }
        let volume = Self { dimensions: LocalPos::new(size, size, size), data };
        proof {
            assert(size * size * size == z * size * size);
            assert forall|x: u32, y: u32, z: u32|
                x < size && y < size && z < size implies call_ensures(
                density,
                (x, y, z),
                #[trigger] volume.spec_get(x as int, y as int, z as int),
            ) by {
                let i = lattice_index(dims, x as int, y as int, z as int);
                assert(volume.spec_index(x as int, y as int, z as int) == i);
                assert(points[i] == (x, y, z));
            }
        }
        volume
    }
}

/// What a ray has hit, as the bytes that go into the three maps.
#[derive(Debug, Clone, Copy, PartialEq, Eq)]
pub struct PixelHit {
    /// The position of the hit, one byte for each axis.
    pub position: (u8, u8, u8),
    /// The surface normal at the hit, one byte for each axis.
    pub normal: (u8, u8, u8),
    /// The colour at the hit: red, green, blue.
    pub diffuse: (u8, u8, u8),
}

/// Three raster maps of one size: four bytes for each pixel (red, green,
/// blue, alpha), rows from the top, each row from the left.
pub struct VolumeRenderResult {
    pub position_map: Vec<u8>,
    pub normal_map: Vec<u8>,
    pub diffuse_map: Vec<u8>,
    pub width: u32,
    pub height: u32,
}

/// The four bytes of the pixel number `pixel` of a map.
pub open spec fn pixel_bytes(map: Seq<u8>, pixel: int) -> (u8, u8, u8, u8) {
    (map[pixel * 4], map[pixel * 4 + 1], map[pixel * 4 + 2], map[pixel * 4 + 3])
}

impl VolumeRenderResult {
    /// Each map holds four bytes for each of `width * height` pixels.
    pub open spec fn wf(&self) -> bool {
        &&& self.position_map@.len() == self.width * self.height * 4
        &&& self.normal_map@.len() == self.width * self.height * 4
        &&& self.diffuse_map@.len() == self.width * self.height * 4
    }

    /// The number of the pixel in column `px` of row `py`.
    pub open spec fn pixel_number(&self, px: int, py: int) -> int {
        py * self.width + px
    }

    /// Whether the pixel is transparent and black in all three maps.
    pub open spec fn is_transparent_at(&self, px: int, py: int) -> bool {
        let pixel = self.pixel_number(px, py);
        &&& pixel_bytes(self.position_map@, pixel) == (0u8, 0u8, 0u8, 0u8)
        &&& pixel_bytes(self.normal_map@, pixel) == (0u8, 0u8, 0u8, 0u8)
        &&& pixel_bytes(self.diffuse_map@, pixel) == (0u8, 0u8, 0u8, 0u8)
    }

    /// Whether the pixel shows `hit`, opaque, in all three maps.
    pub open spec fn shows_hit_at(&self, px: int, py: int, hit: PixelHit) -> bool {
        let pixel = self.pixel_number(px, py);
        &&& pixel_bytes(self.position_map@, pixel) == (
            hit.position.0,
            hit.position.1,
            hit.position.2,
            255u8,
        )
        &&& pixel_bytes(self.normal_map@, pixel) == (
            hit.normal.0,
            hit.normal.1,
            hit.normal.2,
            255u8,
        )
        &&& pixel_bytes(self.diffuse_map@, pixel) == (
            hit.diffuse.0,
            hit.diffuse.1,
            hit.diffuse.2,
            255u8,
        )
    }
}

/// Whether `probe` has missed at every one of the first `steps` steps of
/// the ray of the pixel.
pub open spec fn missed_until<F: Fn(u32, u32, u64) -> Option<PixelHit>>(
    probe: F,
    px: u32,
    py: u32,
    steps: u64,
) -> bool {
    forall|s: u64| s < steps ==> #[trigger] call_ensures(probe, (px, py, s), None::<PixelHit>)
}

/// Whether `probe` can only miss at every one of the first `steps` steps of
/// the ray of the pixel.
pub open spec fn cannot_hit<F: Fn(u32, u32, u64) -> Option<PixelHit>>(
    probe: F,
    px: u32,
    py: u32,
    steps: u64,
) -> bool {
    forall|s: u64, outcome: Option<PixelHit>|
        s < steps && #[trigger] call_ensures(probe, (px, py, s), outcome) ==> outcome.is_none()
}

/// Whether `found` is what a march along the ray of the pixel finds: the
/// first hit, all steps before it having missed, or nothing where all
/// `max_steps` steps have missed.
pub open spec fn is_march_result<F: Fn(u32, u32, u64) -> Option<PixelHit>>(
    probe: F,
    px: u32,
    py: u32,
    max_steps: u64,
    found: Option<PixelHit>,
) -> bool {
    match found {
        Some(hit) => exists|s: u64|
            s < max_steps && missed_until(probe, px, py, s) && #[trigger] call_ensures(
                probe,
                (px, py, s),
                Some(hit),
            ),
        None => missed_until(probe, px, py, max_steps),
    }
}

/// Whether the pixel of `result` shows what a march along its ray finds:
/// the first hit, or transparent black where every step has missed.
pub open spec fn is_pixel_outcome<F: Fn(u32, u32, u64) -> Option<PixelHit>>(
    probe: F,
    max_steps: u64,
    px: u32,
    py: u32,
    result: VolumeRenderResult,
) -> bool {
    exists|found: Option<PixelHit>| #[trigger]
        is_march_result(probe, px, py, max_steps, found) && match found {
            Some(hit) => result.shows_hit_at(px as int, py as int, hit),
            None => result.is_transparent_at(px as int, py as int),
        }
}

/// Marches along the ray of the pixel `(px, py)`: asks `probe` step by step
/// and stops at the first hit. A step that misses does not end the march.
pub fn march_ray<F: Fn(u32, u32, u64) -> Option<PixelHit>>(
    probe: &F,
    px: u32,
    py: u32,
    max_steps: u64,
) -> (found: Option<PixelHit>)
    requires
        forall|s: u64| s < max_steps ==> call_requires(*probe, (px, py, s)),
    ensures
        is_march_result(*probe, px, py, max_steps, found),
        cannot_hit(*probe, px, py, max_steps) ==> found.is_none(),
{
    let mut found: Option<PixelHit> = None;
    let mut step: u64 = 0;
    while step < max_steps && found.is_none()
        invariant
            step <= max_steps,
            forall|s: u64| s < max_steps ==> call_requires(*probe, (px, py, s)),
            found.is_none() ==> missed_until(*probe, px, py, step),
            found.is_some() ==> is_march_result(*probe, px, py, max_steps, found),
            cannot_hit(*probe, px, py, max_steps) ==> found.is_none(),
        decreases max_steps - step + (if found.is_none() { 1int } else { 0int }),
    {
        let outcome = probe(px, py, step);
        match outcome {
            Some(hit) => {
                found = Some(hit);
            },
            None => {
                step += 1;
            },
        }
    }
    found
}

/// Projects by marching one ray for each pixel of a square of side
/// `output_size`, rows from the top and each row from the left. A pixel
/// whose ray hits shows the hit, opaque, in all three maps; a pixel whose
/// ray misses at every step is transparent black in all three.
pub fn project_rays<F: Fn(u32, u32, u64) -> Option<PixelHit>>(
    output_size: u32,
    max_steps: u64,
    probe: F,
) -> (result: VolumeRenderResult)
    requires
        output_size * output_size <= u32::MAX,
        output_size * output_size * 4 <= usize::MAX,
        forall|px: u32, py: u32, s: u64|
            px < output_size && py < output_size && s < max_steps ==> call_requires(
                probe,
                (px, py, s),
            ),
    ensures
        result.wf(),
        result.width == output_size,
        result.height == output_size,
        forall|px: u32, py: u32|
            px < output_size && py < output_size ==> #[trigger] is_pixel_outcome(
                probe,
                max_steps,
                px,
                py,
                result,
            ),
        forall|px: u32, py: u32|
            px < output_size && py < output_size && #[trigger] cannot_hit(
                probe,
                px,
                py,
                max_steps,
            ) ==> result.is_transparent_at(px as int, py as int),
{
    let mut position_map: Vec<u8> = Vec::new();
    let mut normal_map: Vec<u8> = Vec::new();
    let mut diffuse_map: Vec<u8> = Vec::new();
    let ghost mut finds: Seq<Option<PixelHit>> = Seq::empty();
    let ghost mut pixels: Seq<(u32, u32)> = Seq::empty();
    let mut py: u32 = 0;
    while py < output_size
        invariant
            py <= output_size,
            output_size * output_size * 4 <= usize::MAX,
            forall|px: u32, py: u32, s: u64|
                px < output_size && py < output_size && s < max_steps ==> call_requires(
                    probe,
                    (px, py, s),
                ),
            finds.len() == py * output_size,
            maps_hold(position_map@, normal_map@, diffuse_map@, finds),
            pixels.len() == finds.len(),
            forall|i: int|
                0 <= i < finds.len() ==> {
                    &&& is_march_result(
                        probe,
                        (#[trigger] pixels[i]).0,
                        pixels[i].1,
                        max_steps,
                        finds[i],
                    )
                    &&& cannot_hit(probe, pixels[i].0, pixels[i].1, max_steps)
                        ==> finds[i].is_none()
                },
            forall|qx: u32, qy: u32|
                qx < output_size && qy < py ==> {
                    &&& 0 <= #[trigger] pixel_number_in(output_size, qx, qy) < pixels.len()
                    &&& pixels[pixel_number_in(output_size, qx, qy)] == (qx, qy)
                },
        decreases output_size - py,
    {
        let mut px: u32 = 0;
        while px < output_size
            invariant
                py < output_size,
                px <= output_size,
                output_size * output_size * 4 <= usize::MAX,
                forall|px: u32, py: u32, s: u64|
                    px < output_size && py < output_size && s < max_steps ==> call_requires(
                        probe,
                        (px, py, s),
                    ),
                finds.len() == py * output_size + px,
                maps_hold(position_map@, normal_map@, diffuse_map@, finds),
                pixels.len() == finds.len(),
                forall|i: int|
                    0 <= i < finds.len() ==> {
                        &&& is_march_result(
                            probe,
                            (#[trigger] pixels[i]).0,
                            pixels[i].1,
                            max_steps,
                            finds[i],
                        )
                        &&& cannot_hit(probe, pixels[i].0, pixels[i].1, max_steps)
                            ==> finds[i].is_none()
                    },
                forall|qx: u32, qy: u32|
                    qx < output_size && (qy < py || (qy == py && qx < px)) ==> {
                        &&& 0 <= #[trigger] pixel_number_in(output_size, qx, qy) < pixels.len()
                        &&& pixels[pixel_number_in(output_size, qx, qy)] == (qx, qy)
                    },
            decreases output_size - px,
        {
            let found = march_ray(&probe, px, py, max_steps);
            let ghost before = (position_map@, normal_map@, diffuse_map@);
            match found {
                Some(hit) => {
                    position_map.push(hit.position.0);
                    position_map.push(hit.position.1);
                    position_map.push(hit.position.2);
                    position_map.push(255);
                    normal_map.push(hit.normal.0);
                    normal_map.push(hit.normal.1);
                    normal_map.push(hit.normal.2);
                    normal_map.push(255);
                    diffuse_map.push(hit.diffuse.0);
                    diffuse_map.push(hit.diffuse.1);
                    diffuse_map.push(hit.diffuse.2);
                    diffuse_map.push(255);
                },
                None => {
                    position_map.push(0);
                    position_map.push(0);
                    position_map.push(0);
                    position_map.push(0);
                    normal_map.push(0);
                    normal_map.push(0);
                    normal_map.push(0);
                    normal_map.push(0);
                    diffuse_map.push(0);
                    diffuse_map.push(0);
                    diffuse_map.push(0);
                    diffuse_map.push(0);
                },
            }
            proof {
                assert(py * output_size + px < output_size * output_size) by (nonlinear_arith)
                    requires
                        px < output_size,
                        py < output_size,
                ;
                finds = finds.push(found);
                pixels = pixels.push((px, py));
            }
            px += 1;
        }
        proof {
            assert(py * output_size + output_size == (py + 1) * output_size) by (nonlinear_arith);
        }
        py += 1;
    }
    let result = VolumeRenderResult {
        position_map,
        normal_map,
        diffuse_map,
        width: output_size,
        height: output_size,
    };
    proof {
        assert forall|px: u32, py: u32|
            px < output_size && py < output_size implies #[trigger] is_pixel_outcome(
            probe,
            max_steps,
            px,
            py,
            result,
        ) by {
            let i = pixel_number_in(output_size, px, py);
            assert(pixels[i] == (px, py));
            assert(is_march_result(probe, px, py, max_steps, finds[i]));
            assert(pixel_shows(
                result.position_map@,
                result.normal_map@,
                result.diffuse_map@,
                i,
                finds[i],
            ));
        }
        assert forall|px: u32, py: u32|
            px < output_size && py < output_size && #[trigger] cannot_hit(
                probe,
                px,
                py,
                max_steps,
            ) implies result.is_transparent_at(px as int, py as int) by {
            let i = pixel_number_in(output_size, px, py);
            assert(pixels[i] == (px, py));
            assert(pixel_shows(
                result.position_map@,
                result.normal_map@,
                result.diffuse_map@,
                i,
                finds[i],
            ));
        }
    }
    result
}

/// The number of the pixel in column `px` of row `py` of a map of the given width.
spec fn pixel_number_in(width: u32, px: u32, py: u32) -> int {
    py * width + px
}

/// Whether the pixel number `pixel` of the three maps shows `found`.
spec fn pixel_shows(
    position_map: Seq<u8>,
    normal_map: Seq<u8>,
    diffuse_map: Seq<u8>,
    pixel: int,
    found: Option<PixelHit>,
) -> bool {
    match found {
        Some(hit) => {
            &&& pixel_bytes(position_map, pixel) == (
                hit.position.0,
                hit.position.1,
                hit.position.2,
                255u8,
            )
            &&& pixel_bytes(normal_map, pixel) == (hit.normal.0, hit.normal.1, hit.normal.2, 255u8)
            &&& pixel_bytes(diffuse_map, pixel) == (
                hit.diffuse.0,
                hit.diffuse.1,
                hit.diffuse.2,
                255u8,
            )
        },
        None => {
            &&& pixel_bytes(position_map, pixel) == (0u8, 0u8, 0u8, 0u8)
            &&& pixel_bytes(normal_map, pixel) == (0u8, 0u8, 0u8, 0u8)
            &&& pixel_bytes(diffuse_map, pixel) == (0u8, 0u8, 0u8, 0u8)
        },
    }
}

/// Whether the three maps hold, pixel by pixel, what `finds` lists.
spec fn maps_hold(
    position_map: Seq<u8>,
    normal_map: Seq<u8>,
    diffuse_map: Seq<u8>,
    finds: Seq<Option<PixelHit>>,
) -> bool {
    &&& position_map.len() == finds.len() * 4
    &&& normal_map.len() == finds.len() * 4
    &&& diffuse_map.len() == finds.len() * 4
    &&& forall|i: int|
        0 <= i < finds.len() ==> pixel_shows(
            position_map,
            normal_map,
            diffuse_map,
            i,
            #[trigger] finds[i],
        )
}

/// Whether a density function gives one value for each lattice point.
pub open spec fn is_single_valued_density<F: Fn(u32, u32, u32) -> u32>(density: F) -> bool {
    forall|point: (u32, u32, u32), a: u32, b: u32|
        call_ensures(density, point, a) && call_ensures(density, point, b) ==> a == b
}

/// Whether `volume` is a cubic field of edge `size` that holds at each
/// point what `density` gives for that point.
pub open spec fn is_generated<F: Fn(u32, u32, u32) -> u32>(
    volume: Volume,
    size: u32,
    density: F,
) -> bool {
    &&& volume.wf()
    &&& volume.dimensions == (LocalPos { x: size, y: size, z: size })
    &&& forall|x: u32, y: u32, z: u32|
        x < size && y < size && z < size ==> call_ensures(
            density,
            (x, y, z),
            #[trigger] volume.spec_get(x as int, y as int, z as int),
        )
}

/// Generation is repeatable: two fields generated with the same size from
/// the same density function, where that function gives one value for each
/// point, hold the same sample at every point.
pub proof fn lemma_generation_is_repeatable<F: Fn(u32, u32, u32) -> u32>(
    density: F,
    size: u32,
    first: Volume,
    second: Volume,
)
    requires
        is_single_valued_density(density),
        is_generated(first, size, density),
        is_generated(second, size, density),
    ensures
        first.dimensions == second.dimensions,
        first.data@.len() == second.data@.len(),
        forall|x: int, y: int, z: int| first.spec_get(x, y, z) == second.spec_get(x, y, z),
{
    assert forall|x: int, y: int, z: int| first.spec_get(x, y, z) == second.spec_get(
        x,
        y,
        z,
    ) by {
        if first.contains(x, y, z) {
            let a = first.spec_get(x as u32 as int, y as u32 as int, z as u32 as int);
            let b = second.spec_get(x as u32 as int, y as u32 as int, z as u32 as int);
            assert(call_ensures(density, (x as u32, y as u32, z as u32), a));
            assert(call_ensures(density, (x as u32, y as u32, z as u32), b));
        }
    }
}

/// Whether a probe gives one outcome for each step of each ray.
pub open spec fn is_single_valued_probe<F: Fn(u32, u32, u64) -> Option<PixelHit>>(
    probe: F,
) -> bool {
    forall|step: (u32, u32, u64), a: Option<PixelHit>, b: Option<PixelHit>|
        call_ensures(probe, step, a) && call_ensures(probe, step, b) ==> a == b
}

/// A march along a ray has one result where the probe gives one outcome
/// for each step.
proof fn lemma_march_result_is_unique<F: Fn(u32, u32, u64) -> Option<PixelHit>>(
    probe: F,
    px: u32,
    py: u32,
    max_steps: u64,
    a: Option<PixelHit>,
    b: Option<PixelHit>,
)
    requires
        is_single_valued_probe(probe),
        is_march_result(probe, px, py, max_steps, a),
        is_march_result(probe, px, py, max_steps, b),
    ensures
        a == b,
{
    match (a, b) {
        (Some(hit_a), Some(hit_b)) => {
            let sa = choose|s: u64|
                s < max_steps && missed_until(probe, px, py, s) && #[trigger] call_ensures(
                    probe,
                    (px, py, s),
                    Some(hit_a),
                );
            let sb = choose|s: u64|
                s < max_steps && missed_until(probe, px, py, s) && #[trigger] call_ensures(
                    probe,
                    (px, py, s),
                    Some(hit_b),
                );
            if sa < sb {
                assert(call_ensures(probe, (px, py, sa), None::<PixelHit>));
            } else if sb < sa {
                assert(call_ensures(probe, (px, py, sb), None::<PixelHit>));
            }
        },
        (Some(hit_a), None) => {
            let sa = choose|s: u64|
                s < max_steps && missed_until(probe, px, py, s) && #[trigger] call_ensures(
                    probe,
                    (px, py, s),
                    Some(hit_a),
                );
            assert(call_ensures(probe, (px, py, sa), None::<PixelHit>));
        },
        (None, Some(hit_b)) => {
            let sb = choose|s: u64|
                s < max_steps && missed_until(probe, px, py, s) && #[trigger] call_ensures(
                    probe,
                    (px, py, s),
                    Some(hit_b),
                );
            assert(call_ensures(probe, (px, py, sb), None::<PixelHit>));
        },
        (None, None) => {},
    }
}

/// Projection is repeatable: two results of the same size that show, pixel
/// by pixel, what a march with the same probe finds hold the same bytes at
/// every pixel of all three maps, where the probe gives one outcome for
/// each step.
pub proof fn lemma_projection_is_repeatable<F: Fn(u32, u32, u64) -> Option<PixelHit>>(
    probe: F,
    max_steps: u64,
    first: VolumeRenderResult,
    second: VolumeRenderResult,
    px: u32,
    py: u32,
)
    requires
        is_single_valued_probe(probe),
        first.width == second.width,
        is_pixel_outcome(probe, max_steps, px, py, first),
        is_pixel_outcome(probe, max_steps, px, py, second),
    ensures
        ({
            let pixel = first.pixel_number(px as int, py as int);
            &&& pixel == second.pixel_number(px as int, py as int)
            &&& pixel_bytes(first.position_map@, pixel) == pixel_bytes(second.position_map@, pixel)
            &&& pixel_bytes(first.normal_map@, pixel) == pixel_bytes(second.normal_map@, pixel)
            &&& pixel_bytes(first.diffuse_map@, pixel) == pixel_bytes(second.diffuse_map@, pixel)
        }),
{
    let a = choose|found: Option<PixelHit>| #[trigger]
        is_march_result(probe, px, py, max_steps, found) && match found {
            Some(hit) => first.shows_hit_at(px as int, py as int, hit),
            None => first.is_transparent_at(px as int, py as int),
        };
    let b = choose|found: Option<PixelHit>| #[trigger]
        is_march_result(probe, px, py, max_steps, found) && match found {
            Some(hit) => second.shows_hit_at(px as int, py as int, hit),
            None => second.is_transparent_at(px as int, py as int),
        };
    lemma_march_result_is_unique(probe, px, py, max_steps, a, b);
}

} // verus!
