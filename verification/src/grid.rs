//! The voxel sampling grid: a write-once, read-many lattice of density
//! samples.
//!
//! A grid of resolution `R` holds `R * R * R` fixed-point scalars, filled in
//! strict nested order (`x` fastest, then `y`, then `z`) and read back by
//! coordinate once fully populated.

use vstd::prelude::*;

verus! {

/// The largest grid resolution this crate supports. It keeps every flat
/// index below `2^30`, inside the range of `usize` on any target.
pub const MAX_GRID_RESOLUTION: usize = 1024;

/// The failures of the meshing pipeline. Both indicate a caller breaking a
/// construction-time contract; neither is a recoverable runtime condition.
#[derive(Clone, Copy, PartialEq, Eq, Structural, Debug)]
pub enum VoxelError {
    /// A resolution of zero was requested.
    InvalidResolution,
    /// A grid read lay outside the grid's bounds.
    IndexOutOfRange,
}

/// The position of sample `(x, y, z)` in the flat fill order of a grid of
/// side `res`: `x` varies fastest, then `y`, then `z`.
pub open spec fn flat_index(res: int, x: int, y: int, z: int) -> int {
    x + y * res + z * res * res
}

/// A sample's flat index lies inside the cube of the resolution.
pub proof fn lemma_flat_index_bound(res: int, x: int, y: int, z: int)
    requires
        0 <= x < res,
        0 <= y < res,
        0 <= z < res,
    ensures
        0 <= flat_index(res, x, y, z) < res * res * res,
        y * res <= res * res,
        z * (res * res) <= res * res * res,
        z * (res * res) == z * res * res,
{
    assert(0 <= x + y * res + z * res * res < res * res * res && y * res <= res * res && z * (res
        * res) <= res * res * res && z * (res * res) == z * res * res) by (nonlinear_arith)
        requires
            0 <= x < res,
            0 <= y < res,
            0 <= z < res,
    {
    }
}

/// A cube of a resolution within [`MAX_GRID_RESOLUTION`] fits in 30 bits.
pub proof fn lemma_resolution_cube_bound(res: int)
    requires
        0 <= res <= MAX_GRID_RESOLUTION,
    ensures
        res * res <= 0x100000,
        res * res * res <= 0x40000000,
{
    assert(res * res <= 0x100000 && res * res * res <= 0x40000000) by (nonlinear_arith)
        requires
            0 <= res <= 1024,
    {
    }
}

/// A flat lattice of scalar density samples over a cube of a given
/// resolution.
pub struct VoxelGrid {
    data: Vec<i64>,
    resolution: usize,
}

impl VoxelGrid {
    /// The scalars stored so far, in fill order.
    pub closed spec fn contents(&self) -> Seq<i64> {
        self.data@
    }

    /// The side length of the sampling lattice.
    pub closed spec fn resolution_spec(&self) -> int {
        self.resolution as int
    }

    /// The structural invariant every grid keeps: a positive, bounded
    /// resolution, never more samples than the lattice holds.
    pub open spec fn well_formed(&self) -> bool {
        &&& 1 <= self.resolution_spec() <= MAX_GRID_RESOLUTION as int
        &&& self.contents().len() <= self.resolution_spec() * self.resolution_spec()
            * self.resolution_spec()
    }

    /// All sample slots have been filled.
    pub open spec fn is_full(&self) -> bool {
        self.contents().len() == self.resolution_spec() * self.resolution_spec()
            * self.resolution_spec()
    }

    /// The side length of the sampling lattice.
    pub fn resolution(&self) -> (r: usize)
        ensures
            r == self.resolution_spec(),
    {
        self.resolution
    }

    /// Makes an empty grid. A zero resolution is a contract violation and is
    /// rejected; no storage is allocated for it.
    pub fn new(resolution: usize) -> (r: Result<VoxelGrid, VoxelError>)
        requires
            resolution <= MAX_GRID_RESOLUTION,
        ensures
            match r {
                Ok(g) => {
                    &&& resolution >= 1
                    &&& g.well_formed()
                    &&& g.resolution_spec() == resolution
                    &&& g.contents() == Seq::<i64>::empty()
                },
                Err(e) => e == VoxelError::InvalidResolution && resolution == 0,
            },
    {
        if resolution == 0 {
            return Err(VoxelError::InvalidResolution);
        }
        proof {
            lemma_resolution_cube_bound(resolution as int);
            lemma_flat_index_bound(resolution as int, 0, 0, 0);
        }
        let capacity: usize = resolution * resolution * resolution;
        let g = VoxelGrid { data: Vec::with_capacity(capacity), resolution };
        assert(g.contents() =~= Seq::<i64>::empty());
        Ok(g)
    }

    /// Appends the next sample in fill order.
    pub fn push(&mut self, value: i64)
        requires
            old(self).well_formed(),
            old(self).contents().len() < old(self).resolution_spec() * old(self).resolution_spec()
                * old(self).resolution_spec(),
        ensures
            final(self).well_formed(),
            final(self).resolution_spec() == old(self).resolution_spec(),
            final(self).contents() == old(self).contents().push(value),
    {
        self.data.push(value);
    }

    /// Reads the sample at `(x, y, z)`. A coordinate at or beyond the
    /// resolution is a contract violation and is rejected. Callers populate
    /// the whole lattice before reading.
    pub fn read(&self, x: usize, y: usize, z: usize) -> (r: Result<i64, VoxelError>)
        requires
            self.well_formed(),
            self.is_full(),
        ensures
            match r {
                Ok(v) => {
                    &&& x < self.resolution_spec()
                    &&& y < self.resolution_spec()
                    &&& z < self.resolution_spec()
                    &&& v == self.contents()[flat_index(
                        self.resolution_spec(),
                        x as int,
                        y as int,
                        z as int,
                    )]
                },
                Err(e) => {
                    &&& e == VoxelError::IndexOutOfRange
                    &&& !(x < self.resolution_spec() && y < self.resolution_spec() && z
                        < self.resolution_spec())
                },
            },
    {
        if x < self.resolution && y < self.resolution && z < self.resolution {
            proof {
                lemma_flat_index_bound(
                    self.resolution as int,
                    x as int,
                    y as int,
                    z as int,
                );
                lemma_resolution_cube_bound(self.resolution as int);
            }
            Ok(self.data[x + y * self.resolution + z * (self.resolution * self.resolution)])
        } else {
            Err(VoxelError::IndexOutOfRange)
        }
    }
}

} // verus!
