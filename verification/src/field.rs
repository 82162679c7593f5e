//! The density field a chunk samples: the one external collaborator of the
//! meshing pipeline.

use crate::math::{clamp_i64, clamp_to_i64, isqrt_spec, isqrt_u128, lemma_isqrt_bounds, FixedVec3};
use vstd::prelude::*;

verus! {

/// A scalar field over 3D space whose sign separates solid from empty:
/// negative values are solid (inside the surface), non-negative values are
/// empty.
///
/// Points are given in chunk units, as 16.16 fixed point: the lattice of a
/// chunk at coordinate `c` is sampled between `c * FP_ONE` and
/// `(c + 1) * FP_ONE` on each axis, so the field sees the same positions
/// whatever the chunk size.
///
/// An implementation must be pure: `density` has to return exactly
/// `density_spec(p)`, a function of `p` and the field's own immutable state,
/// every time it is asked. That purity is what makes meshing deterministic.
pub trait DensityField {
    /// The mathematical definition of the field.
    spec fn density_spec(&self, p: FixedVec3) -> i64;

    /// Samples the field at `p`.
    fn density(&self, p: FixedVec3) -> (r: i64)
        ensures
            r == self.density_spec(p),
    ;
}

/// The simplest useful field: solid below a horizontal plane, empty above
/// it. Its surface is the plane `y == height`.
pub struct HalfSpaceField {
    /// The height of the surface, in fixed-point chunk units.
    pub height: i64,
}

impl DensityField for HalfSpaceField {
    open spec fn density_spec(&self, p: FixedVec3) -> i64 {
        clamp_to_i64(p.y - self.height)
    }

    fn density(&self, p: FixedVec3) -> (r: i64) {
        clamp_i64((p.y as i128) - (self.height as i128))
    }
}

/// The signed distance to a sphere: negative (solid) inside it, positive
/// outside, zero on its surface. Distances are exact integer square roots,
/// rounded down, and saturate at the ends of `i64` far outside any real
/// geometry.
pub struct SphereDensityField {
    /// The sphere's centre, in fixed-point chunk units.
    pub center: FixedVec3,
    /// The sphere's radius, in fixed-point chunk units.
    pub radius: i64,
}

/// The largest centre offset the sphere field measures exactly; anything
/// farther is reported as `i64::MAX` (far outside).
pub const SPHERE_FAR: i64 = 0x4000000000000000;

impl DensityField for SphereDensityField {
    open spec fn density_spec(&self, p: FixedVec3) -> i64 {
        let dx = p.x - self.center.x;
        let dy = p.y - self.center.y;
        let dz = p.z - self.center.z;
        if dx > SPHERE_FAR || dx < -SPHERE_FAR || dy > SPHERE_FAR || dy < -SPHERE_FAR || dz
            > SPHERE_FAR || dz < -SPHERE_FAR {
            i64::MAX
        } else {
            clamp_to_i64(isqrt_spec(dx * dx + dy * dy + dz * dz) - self.radius)
        }
    }

    fn density(&self, p: FixedVec3) -> (r: i64) {
        let far: i128 = SPHERE_FAR as i128;
        let dx: i128 = (p.x as i128) - (self.center.x as i128);
        let dy: i128 = (p.y as i128) - (self.center.y as i128);
        let dz: i128 = (p.z as i128) - (self.center.z as i128);
        if dx > far || dx < -far || dy > far || dy < -far || dz > far || dz < -far {
            i64::MAX
        } else {
            proof {
                assert(0 <= dx * dx <= 0x10000000000000000000000000000000 && 0 <= dy * dy
                    <= 0x10000000000000000000000000000000 && 0 <= dz * dz
                    <= 0x10000000000000000000000000000000) by (nonlinear_arith)
                    requires
                        -0x4000000000000000 <= dx <= 0x4000000000000000,
                        -0x4000000000000000 <= dy <= 0x4000000000000000,
                        -0x4000000000000000 <= dz <= 0x4000000000000000,
                {
                }
            }
            let d_sq: i128 = dx * dx + dy * dy + dz * dz;
            let dist: u64 = isqrt_u128(d_sq as u128);
            proof {
                lemma_isqrt_bounds(d_sq as int);
                assert(isqrt_spec(d_sq as int) <= 0x80000000000000000) by (nonlinear_arith)
                    requires
                        0 <= d_sq as int <= 0x30000000000000000000000000000000,
                        isqrt_spec(d_sq as int) * isqrt_spec(d_sq as int) <= d_sq as int,
                        0 <= isqrt_spec(d_sq as int),
                {
                }
            }
            clamp_i64((dist as i128) - (self.radius as i128))
        }
    }
}

} // verus!
