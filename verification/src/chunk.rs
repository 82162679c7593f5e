//! Voxel chunks: cubes of world space, independently sampled and meshed.
//!
//! A chunk owns nothing but its integer coordinate in the unbounded chunk
//! lattice. Building its mesh samples a density field over a fresh grid,
//! marches every interior unit cube, transforms the grid-local vertices into
//! world space and derives one flat normal per triangle.

use crate::field::DensityField;
use crate::grid::{
    flat_index, lemma_flat_index_bound, lemma_resolution_cube_bound, VoxelError, VoxelGrid,
};
use crate::marching::{
    cross_normal, lemma_emitted_from_bounds, lemma_emitted_from_structure, march_cube,
    march_cube_spec, polygon_normal,
};
use crate::math::{floor_div_i128, FixedVec3, FP_ONE};
use vstd::arithmetic::div_mod::{
    lemma_div_is_ordered, lemma_div_multiples_vanish, lemma_fundamental_div_mod_converse,
};
use vstd::prelude::*;

verus! {

/// The side of a voxel chunk, in world units.
pub const SIZE_CHUNK: u16 = 32;

/// The side of a voxel chunk in fixed-point world units:
/// `SIZE_CHUNK * FP_ONE`.
pub const SIZE_CHUNK_FP: i64 = 2097152;

/// The largest resolution a chunk mesh may be built at. It keeps a mesh's
/// vertex count (at most 15 per interior cube) inside the range of the `u32`
/// vertex indices.
pub const MAX_MESH_RESOLUTION: u64 = 256;

/// The largest magnitude of a chunk coordinate a mesh may be built at. It
/// keeps world-space fixed-point coordinates inside `i64`.
pub const COORD_LIMIT: i128 = 0x10000000000;

/// A validated voxel-grid resolution: the number of lattice points per axis
/// of a chunk. Always at least 1.
pub struct ResolutionOfTheGrid {
    value: u64,
}

impl ResolutionOfTheGrid {
    /// The validated resolution.
    pub closed spec fn value_spec(&self) -> u64 {
        self.value
    }

    /// A resolution is never zero; `new` rejects that.
    #[verifier::type_invariant]
    spec fn positive(&self) -> bool {
        self.value >= 1
    }

    /// Validates a requested resolution. Zero is a contract violation and is
    /// rejected with `InvalidResolution`.
    pub fn new(value: u64) -> (r: Result<ResolutionOfTheGrid, VoxelError>)
        ensures
            match r {
                Ok(res) => value >= 1 && res.value_spec() == value,
                Err(e) => e == VoxelError::InvalidResolution && value == 0,
            },
    {
        if value == 0 {
            Err(VoxelError::InvalidResolution)
        } else {
            Ok(ResolutionOfTheGrid { value })
        }
    }

    /// The resolution as a lattice side length.
    pub fn value(&self) -> (r: usize)
        requires
            self.value_spec() <= usize::MAX,
        ensures
            r == self.value_spec(),
            r >= 1,
    {
        proof {
            use_type_invariant(&*self);
        }
        self.value as usize
    }
}

/// A placeholder texture coordinate; the reference pipeline emits all zeros.
#[derive(Clone, Copy, PartialEq, Eq, Structural, Debug)]
pub struct FixedVec2 {
    pub u: i64,
    pub v: i64,
}

/// A finished triangle mesh: an unindexed triangle list in fixed-point
/// world coordinates. `positions` holds three vertices per triangle;
/// `normals` holds, for every vertex, the flat normal direction of its
/// triangle; `uvs` are placeholders; `indices` is the identity sequence.
/// Ownership passes to the rendering collaborator.
pub struct Mesh {
    pub positions: Vec<FixedVec3>,
    pub normals: Vec<FixedVec3>,
    pub uvs: Vec<FixedVec2>,
    pub indices: Vec<u32>,
}

/// The fixed-point coordinate, in chunk units, of lattice point `g` of a
/// chunk at coordinate `c`, for a lattice of `rs + 1` points per axis:
/// exactly `(g + c * rs) / rs` in fixed point, which runs from `c` at the
/// first lattice point to `c + 1` at the last. This is the position handed
/// to the density field, so the sampled frequency is independent of the
/// chunk size. A single-point lattice (`rs == 0`) samples the chunk origin.
pub open spec fn sample_coord(c: int, rs: int, g: int) -> int {
    if rs <= 0 {
        c * FP_ONE
    } else {
        ((g + c * rs) * FP_ONE) / rs
    }
}

/// A sample coordinate stays between the chunk's ends.
pub proof fn lemma_sample_coord_bounds(c: int, rs: int, g: int)
    requires
        1 <= rs,
        0 <= g <= rs,
    ensures
        c * FP_ONE <= sample_coord(c, rs, g) <= (c + 1) * FP_ONE,
{
    let num = (g + c * rs) * FP_ONE;
    let lo = c * FP_ONE;
    let hi = (c + 1) * FP_ONE;
    assert(rs * lo <= num <= rs * hi) by (nonlinear_arith)
        requires
            1 <= rs,
            0 <= g <= rs,
            num == (g + c * rs) * FP_ONE,
            lo == c * FP_ONE,
            hi == (c + 1) * FP_ONE,
            FP_ONE == 65536,
    {
    }
    lemma_div_is_ordered(rs * lo, num, rs);
    lemma_div_is_ordered(num, rs * hi, rs);
    lemma_div_multiples_vanish(lo, rs);
    lemma_div_multiples_vanish(hi, rs);
}

/// The lattice point `(x, y, z)` of the chunk at `coords`, as the
/// fixed-point position handed to the density field.
pub open spec fn sample_point(coords: [i128; 3], rs: int, x: int, y: int, z: int) -> FixedVec3 {
    FixedVec3 {
        x: sample_coord(coords[0] as int, rs, x) as i64,
        y: sample_coord(coords[1] as int, rs, y) as i64,
        z: sample_coord(coords[2] as int, rs, z) as i64,
    }
}

/// Every sample a chunk's grid holds, in fill order: the density of the
/// field at each lattice point, `x` varying fastest, then `y`, then `z`.
pub open spec fn sampled_data<F: DensityField>(field: &F, coords: [i128; 3], res: int) -> Seq<
    i64,
> {
    Seq::new(
        (res * res * res) as nat,
        |n: int|
            field.density_spec(
                sample_point(coords, res - 1, n % res, (n / res) % res, n / (res * res)),
            ),
    )
}

/// A grid-local vertex coordinate carried into world space: scaled from the
/// lattice (which spans `rs` fixed-point units) onto the chunk (which spans
/// `SIZE_CHUNK` world units), then offset to the chunk's world origin
/// `c * SIZE_CHUNK`.
pub open spec fn transform_coord(p: int, c: int, rs: int) -> int {
    (p * SIZE_CHUNK) / rs + c * SIZE_CHUNK_FP
}

/// [`transform_coord`] on each axis of a vertex.
pub open spec fn transform_vertex(v: FixedVec3, coords: [i128; 3], rs: int) -> FixedVec3 {
    FixedVec3 {
        x: transform_coord(v.x as int, coords[0] as int, rs) as i64,
        y: transform_coord(v.y as int, coords[1] as int, rs) as i64,
        z: transform_coord(v.z as int, coords[2] as int, rs) as i64,
    }
}

/// A whole vertex listing carried into world space.
pub open spec fn transformed(s: Seq<FixedVec3>, coords: [i128; 3], rs: int) -> Seq<FixedVec3> {
    s.map_values(|v: FixedVec3| transform_vertex(v, coords, rs))
}

/// A transformed coordinate stays between the chunk's world-space walls.
pub proof fn lemma_transform_coord_bounds(p: int, c: int, rs: int)
    requires
        1 <= rs,
        0 <= p <= rs * FP_ONE,
        -COORD_LIMIT <= c <= COORD_LIMIT,
    ensures
        c * SIZE_CHUNK_FP <= transform_coord(p, c, rs) <= c * SIZE_CHUNK_FP + SIZE_CHUNK_FP,
{
    assert(0 <= p * SIZE_CHUNK <= (rs * FP_ONE) * SIZE_CHUNK && (rs * FP_ONE) * SIZE_CHUNK
        == SIZE_CHUNK_FP * rs) by (nonlinear_arith)
        requires
            1 <= rs,
            0 <= p <= rs * FP_ONE,
    {
    }
    lemma_div_is_ordered(0, p * SIZE_CHUNK, rs);
    lemma_div_is_ordered(p * SIZE_CHUNK, SIZE_CHUNK_FP * rs, rs);
    lemma_div_multiples_vanish(SIZE_CHUNK_FP as int, rs);
    lemma_div_multiples_vanish(0, rs);
}

/// The vertices of the first `m` interior unit cubes of a fully populated
/// grid, in cube fill order (`x` fastest, then `y`, then `z`, over a lattice
/// of `res - 1` cubes per axis), each cube contributing its
/// [`march_cube_spec`] listing.
pub open spec fn extracted_upto(data: Seq<i64>, res: int, m: int) -> Seq<FixedVec3>
    decreases m,
{
    if m <= 0 {
        Seq::empty()
    } else {
        let rs = res - 1;
        extracted_upto(data, res, m - 1) + march_cube_spec(
            data,
            res,
            (m - 1) % rs,
            ((m - 1) / rs) % rs,
            (m - 1) / (rs * rs),
        )
    }
}

/// The whole surface of a chunk's grid: every interior unit cube marched, in
/// fill order.
pub open spec fn extracted_all(data: Seq<i64>, res: int) -> Seq<FixedVec3> {
    extracted_upto(data, res, (res - 1) * (res - 1) * (res - 1))
}

/// An extraction is a whole number of triangles, at most 5 per cube.
#[verifier::rlimit(30)]
pub proof fn lemma_extracted_structure(data: Seq<i64>, res: int, m: int)
    requires
        0 <= m,
    ensures
        extracted_upto(data, res, m).len() % 3 == 0,
        extracted_upto(data, res, m).len() <= 15 * m,
    decreases m,
{
    if m > 0 {
        lemma_extracted_structure(data, res, m - 1);
        let rs = res - 1;
        lemma_emitted_from_structure(
            data,
            res,
            (m - 1) % rs,
            ((m - 1) / rs) % rs,
            (m - 1) / (rs * rs),
            0,
        );
    }
}

/// Every extracted vertex lies inside the grid-local cube of the chunk:
/// each coordinate between 0 and `res - 1` in fixed point.
pub proof fn lemma_extracted_bounds(data: Seq<i64>, res: int, m: int)
    requires
        2 <= res <= MAX_MESH_RESOLUTION,
        0 <= m <= (res - 1) * (res - 1) * (res - 1),
    ensures
        forall|i: int|
            0 <= i < extracted_upto(data, res, m).len() ==> {
                let v = #[trigger] extracted_upto(data, res, m)[i];
                &&& 0 <= v.x <= (res - 1) * FP_ONE
                &&& 0 <= v.y <= (res - 1) * FP_ONE
                &&& 0 <= v.z <= (res - 1) * FP_ONE
            },
    decreases m,
{
    if m > 0 {
        lemma_extracted_bounds(data, res, m - 1);
        let rs = res - 1;
        let x = (m - 1) % rs;
        let y = ((m - 1) / rs) % rs;
        let z = (m - 1) / (rs * rs);
        vstd::arithmetic::div_mod::lemma_mod_bound(m - 1, rs);
        vstd::arithmetic::div_mod::lemma_div_pos_is_pos(m - 1, rs);
        vstd::arithmetic::div_mod::lemma_mod_bound((m - 1) / rs, rs);
        assert(1 <= rs * rs) by (nonlinear_arith)
            requires
                1 <= rs,
        {
        }
        vstd::arithmetic::div_mod::lemma_div_pos_is_pos(m - 1, rs * rs);
        vstd::arithmetic::div_mod::lemma_fundamental_div_mod(m - 1, rs * rs);
        assert(z < rs) by (nonlinear_arith)
            requires
                m - 1 == (rs * rs) * z + ((m - 1) % (rs * rs)),
                0 <= (m - 1) % (rs * rs),
                0 <= z,
                m - 1 < rs * rs * rs,
                1 <= rs,
        {
        }
        lemma_emitted_from_bounds(data, res, x, y, z, 0);
        let prev = extracted_upto(data, res, m - 1);
        let cur = extracted_upto(data, res, m);
        let tail = march_cube_spec(data, res, x, y, z);
        assert forall|i: int| 0 <= i < cur.len() implies {
            let v = #[trigger] cur[i];
            &&& 0 <= v.x <= (res - 1) * FP_ONE
            &&& 0 <= v.y <= (res - 1) * FP_ONE
            &&& 0 <= v.z <= (res - 1) * FP_ONE
        } by {
            if i >= prev.len() {
                assert(cur[i] == tail[i - prev.len()]);
                assert(x * FP_ONE <= tail[i - prev.len()].x <= (x + 1) * FP_ONE);
                assert((x + 1) * FP_ONE <= (res - 1) * FP_ONE && x * FP_ONE >= 0 && (y + 1)
                    * FP_ONE <= (res - 1) * FP_ONE && y * FP_ONE >= 0 && (z + 1) * FP_ONE <= (res
                    - 1) * FP_ONE && z * FP_ONE >= 0) by (nonlinear_arith)
                    requires
                        0 <= x < res - 1,
                        0 <= y < res - 1,
                        0 <= z < res - 1,
                        FP_ONE == 65536,
                {
                }
            }
        }
    }
}

/// The grid corner `(0, 0, 0)` of a chunk at coordinate `c` lands exactly on
/// the chunk's world origin, `c * SIZE_CHUNK`, under the coordinate
/// transform.
pub proof fn lemma_origin_maps_to_chunk_origin(coords: [i128; 3], rs: int)
    requires
        1 <= rs,
        forall|i: int| 0 <= i < 3 ==> -COORD_LIMIT <= #[trigger] coords[i] <= COORD_LIMIT,
    ensures
        transform_vertex(FixedVec3 { x: 0, y: 0, z: 0 }, coords, rs) == (FixedVec3 {
            x: (coords[0] * SIZE_CHUNK_FP) as i64,
            y: (coords[1] * SIZE_CHUNK_FP) as i64,
            z: (coords[2] * SIZE_CHUNK_FP) as i64,
        }),
{
    lemma_div_multiples_vanish(0, rs);
    assert(coords[0] >= -COORD_LIMIT);
    assert(coords[1] >= -COORD_LIMIT);
    assert(coords[2] >= -COORD_LIMIT);
}

/// The world-space vertex listing of a chunk's mesh: the field sampled over
/// the lattice, every interior cube marched, every vertex carried into world
/// space. The whole mesh is this one function of the chunk coordinate, the
/// resolution and the field, which is what makes meshing deterministic.
pub open spec fn chunk_mesh_positions<F: DensityField>(
    field: &F,
    coords: [i128; 3],
    res: int,
) -> Seq<FixedVec3> {
    grid_mesh_positions(coords, sampled_data(field, coords, res), res)
}

/// The world-space vertex listing extracted from an already filled grid of
/// the chunk at `coords`.
pub open spec fn grid_mesh_positions(coords: [i128; 3], data: Seq<i64>, res: int) -> Seq<
    FixedVec3,
> {
    transformed(extracted_all(data, res), coords, res - 1)
}

/// One flat normal per triangle, repeated for each of its three vertices.
pub open spec fn flat_normals(positions: Seq<FixedVec3>) -> Seq<FixedVec3> {
    Seq::new(
        positions.len(),
        |i: int|
            cross_normal(
                positions[3 * (i / 3)],
                positions[3 * (i / 3) + 1],
                positions[3 * (i / 3) + 2],
            ),
    )
}

/// The three vertex slots of the triangle that starts at `i` all round down
/// to the same triangle base.
pub proof fn lemma_triangle_base(i: int)
    requires
        0 <= i,
        i % 3 == 0,
    ensures
        3 * (i / 3) == i,
        3 * ((i + 1) / 3) == i,
        3 * ((i + 2) / 3) == i,
{
    vstd::arithmetic::div_mod::lemma_fundamental_div_mod(i, 3);
    lemma_fundamental_div_mod_converse(i + 1, 3, i / 3, 1);
    lemma_fundamental_div_mod_converse(i + 2, 3, i / 3, 2);
}

/// A voxel chunk: a cube of world space identified by its integer coordinate
/// in the unbounded chunk lattice. Its world origin is
/// `coordinate * SIZE_CHUNK`.
pub struct VoxelChunk {
    coordinates: [i128; 3],
}

impl VoxelChunk {
    /// The chunk's lattice coordinate.
    pub closed spec fn coordinates_spec(&self) -> [i128; 3] {
        self.coordinates
    }

    /// A chunk at the given lattice coordinate.
    pub fn new(coordinates: [i128; 3]) -> (r: VoxelChunk)
        ensures
            r.coordinates_spec() == coordinates,
    {
        VoxelChunk { coordinates }
    }

    /// The chunk coordinate containing a world-space position: each axis
    /// divided by the chunk size, rounded toward negative infinity.
    pub fn get_chunk_coordinates_from_global(value: FixedVec3) -> (r: [i128; 3])
        ensures
            r[0] == value.x as int / SIZE_CHUNK_FP as int,
            r[1] == value.y as int / SIZE_CHUNK_FP as int,
            r[2] == value.z as int / SIZE_CHUNK_FP as int,
    {
        let d: i128 = SIZE_CHUNK_FP as i128;
        [
            floor_div_i128(value.x as i128, d),
            floor_div_i128(value.y as i128, d),
            floor_div_i128(value.z as i128, d),
        ]
    }

    /// The side of a chunk, in world units.
    pub fn size_chunk() -> (r: u16)
        ensures
            r == SIZE_CHUNK,
    {
        SIZE_CHUNK
    }

    /// The chunk's lattice coordinate.
    pub fn coordinates(&self) -> (r: &[i128; 3])
        ensures
            *r == self.coordinates_spec(),
    {
        &self.coordinates
    }

    /// Moves the chunk to another lattice coordinate.
    pub fn coordinates_set(&mut self, coordinates: [i128; 3])
        ensures
            final(self).coordinates_spec() == coordinates,
    {
        self.coordinates = coordinates;
    }

    /// Samples the density field over this chunk's whole lattice, in fill
    /// order, into a fresh fully populated grid.
    fn sample_grid<F: DensityField>(&self, generation_rules: &F, resolution: usize) -> (g:
        VoxelGrid)
        requires
            1 <= resolution <= MAX_MESH_RESOLUTION,
            forall|i: int|
                0 <= i < 3 ==> -COORD_LIMIT <= #[trigger] self.coordinates_spec()[i]
                    <= COORD_LIMIT,
        ensures
            g.well_formed(),
            g.is_full(),
            g.resolution_spec() == resolution,
            g.contents() == sampled_data(
                generation_rules,
                self.coordinates_spec(),
                resolution as int,
            ),
    {
        let ghost coords = self.coordinates_spec();
        let ghost res = resolution as int;
        let ghost goal = sampled_data(generation_rules, coords, res);
        proof {
            lemma_resolution_cube_bound(res);
        }
        let total: usize = resolution * resolution * resolution;
        let mut voxel_grid = match VoxelGrid::new(resolution) {
            Ok(g) => g,
            Err(_) => {
                proof {
                    assert(false);
                }
                vstd::pervasive::unreached()
            },
        };
        let resolution_size: usize = resolution - 1;
        let mut n: usize = 0;
        while n < total
            invariant
                n <= total,
                total == res * res * res,
                1 <= resolution <= MAX_MESH_RESOLUTION,
                res == resolution as int,
                resolution_size == resolution - 1,
                voxel_grid.well_formed(),
                voxel_grid.resolution_spec() == res,
                goal == sampled_data(generation_rules, coords, res),
                goal.len() == total,
                voxel_grid.contents() == goal.take(n as int),
                forall|i: int| 0 <= i < 3 ==> -COORD_LIMIT <= #[trigger] coords[i] <= COORD_LIMIT,
                coords == self.coordinates_spec(),
            decreases total - n,
        {
            proof {
                lemma_resolution_cube_bound(res);
                vstd::arithmetic::div_mod::lemma_mod_bound(n as int, res);
                vstd::arithmetic::div_mod::lemma_mod_bound(n as int / res, res);
                lemma_div_is_ordered(n as int, res * res * res - 1, res * res);
                assert((res * res * res - 1) / (res * res) <= res - 1) by (nonlinear_arith)
                    requires
                        1 <= res <= 1024,
                {
                }
                vstd::arithmetic::div_mod::lemma_div_pos_is_pos(n as int, res * res);
            }
            let x: usize = n % resolution;
            let y: usize = (n / resolution) % resolution;
            let z: usize = n / (resolution * resolution);
            let point = self.sample_point_at(x, y, z, resolution_size);
            let value = generation_rules.density(point);
            voxel_grid.push(value);
            proof {
                assert(goal[n as int] == generation_rules.density_spec(
                    sample_point(coords, res - 1, x as int, y as int, z as int),
                ));
                assert(voxel_grid.contents() =~= goal.take(n as int + 1));
            }
            n = n + 1;
        }
        proof {
            assert(voxel_grid.contents() =~= goal);
        }
        voxel_grid
    }

    /// The world-independent lattice point `(x, y, z)` of this chunk, as the
    /// fixed-point position handed to the density field.
    fn sample_point_at(&self, x: usize, y: usize, z: usize, resolution_size: usize) -> (p:
        FixedVec3)
        requires
            forall|i: int|
                0 <= i < 3 ==> -COORD_LIMIT <= #[trigger] self.coordinates_spec()[i]
                    <= COORD_LIMIT,
            x <= resolution_size,
            y <= resolution_size,
            z <= resolution_size,
            resolution_size <= MAX_MESH_RESOLUTION,
        ensures
            p == sample_point(
                self.coordinates_spec(),
                resolution_size as int,
                x as int,
                y as int,
                z as int,
            ),
    {
        proof {
            assert(-COORD_LIMIT <= self.coordinates_spec()[0] <= COORD_LIMIT);
            assert(-COORD_LIMIT <= self.coordinates_spec()[1] <= COORD_LIMIT);
            assert(-COORD_LIMIT <= self.coordinates_spec()[2] <= COORD_LIMIT);
        }
        let rs: i128 = resolution_size as i128;
        FixedVec3 {
            x: Self::sample_coord_exec(self.coordinates[0], rs, x as i128),
            y: Self::sample_coord_exec(self.coordinates[1], rs, y as i128),
            z: Self::sample_coord_exec(self.coordinates[2], rs, z as i128),
        }
    }

    /// One axis of [`sample_point`]: `(g + c * rs) / rs` in fixed point,
    /// rounded toward negative infinity. A single-point lattice (`rs == 0`)
    /// samples the chunk origin.
    fn sample_coord_exec(c: i128, rs: i128, g: i128) -> (w: i64)
        requires
            -COORD_LIMIT <= c <= COORD_LIMIT,
            0 <= rs <= MAX_MESH_RESOLUTION,
            0 <= g <= rs,
        ensures
            w == sample_coord(c as int, rs as int, g as int),
    {
        if rs == 0 {
            proof {
                assert(c * (FP_ONE as i128) <= COORD_LIMIT * 65536 && c * (FP_ONE as i128)
                    >= -COORD_LIMIT * 65536) by (nonlinear_arith)
                    requires
                        -COORD_LIMIT <= c <= COORD_LIMIT,
                        FP_ONE == 65536,
                {
                }
            }
            (c * (FP_ONE as i128)) as i64
        } else {
            proof {
                assert(-COORD_LIMIT * 256 <= c * rs <= COORD_LIMIT * 256 && -COORD_LIMIT * 65536
                    * 256 - 65536 * 256 <= (g + c * rs) * (FP_ONE as i128) <= COORD_LIMIT * 65536
                    * 256 + 65536 * 256) by (nonlinear_arith)
                    requires
                        -COORD_LIMIT <= c <= COORD_LIMIT,
                        0 <= rs <= 256,
                        0 <= g <= 256,
                        FP_ONE == 65536,
                {
                }
                lemma_sample_coord_bounds(c as int, rs as int, g as int);
                assert((c - 1) * FP_ONE >= -(COORD_LIMIT + 1) * 65536 && (c + 1) * FP_ONE <= (
                COORD_LIMIT + 1) * 65536) by (nonlinear_arith)
                    requires
                        -COORD_LIMIT <= c <= COORD_LIMIT,
                        FP_ONE == 65536,
                {
                }
            }
            let num: i128 = (g + c * rs) * (FP_ONE as i128);
            floor_div_i128(num, rs) as i64
        }
    }
}

/// Marches every interior unit cube of a fully populated grid, in fill
/// order, collecting the surface's vertices in grid-local coordinates.
fn extract_surface(voxel_grid: &VoxelGrid) -> (positions: Vec<FixedVec3>)
    requires
        voxel_grid.well_formed(),
        voxel_grid.is_full(),
        voxel_grid.resolution_spec() <= MAX_MESH_RESOLUTION,
    ensures
        positions@ == extracted_all(voxel_grid.contents(), voxel_grid.resolution_spec()),
{
    let ghost data = voxel_grid.contents();
    let ghost res = voxel_grid.resolution_spec();
    let mut positions: Vec<FixedVec3> = Vec::new();
    let resolution = voxel_grid.resolution();
    if resolution < 2 {
        return positions;
    }
    let rs: usize = resolution - 1;
    proof {
        lemma_resolution_cube_bound(rs as int);
    }
    let total: usize = rs * rs * rs;
    let mut m: usize = 0;
    while m < total
        invariant
            m <= total,
            2 <= resolution <= MAX_MESH_RESOLUTION,
            rs == resolution - 1,
            total == rs * rs * rs,
            voxel_grid.well_formed(),
            voxel_grid.is_full(),
            data == voxel_grid.contents(),
            res == voxel_grid.resolution_spec(),
            res == resolution as int,
            positions@ == extracted_upto(data, res, m as int),
        decreases total - m,
    {
        proof {
            lemma_resolution_cube_bound(rs as int);
            vstd::arithmetic::div_mod::lemma_mod_bound(m as int, rs as int);
            vstd::arithmetic::div_mod::lemma_mod_bound(m as int / rs as int, rs as int);
            lemma_div_is_ordered(m as int, rs as int * rs as int * rs as int - 1, rs as int * rs as int);
            assert((rs as int * rs as int * rs as int - 1) / (rs as int * rs as int) <= rs as int
                - 1) by (nonlinear_arith)
                requires
                    1 <= rs as int <= 1024,
            {
            }
            vstd::arithmetic::div_mod::lemma_div_pos_is_pos(m as int, rs as int * rs as int);
        }
        let x: usize = m % rs;
        let y: usize = (m / rs) % rs;
        let z: usize = m / (rs * rs);
        march_cube((x, y, z), voxel_grid, &mut positions);
        m = m + 1;
    }
    positions
}

impl VoxelChunk {
    /// Carries every grid-local vertex into world space: scaled onto the
    /// chunk and offset to the chunk's world origin.
    fn get_transform_vertex(&self, positions: &mut Vec<FixedVec3>, resolution_size: usize)
        requires
            1 <= resolution_size <= MAX_MESH_RESOLUTION,
            forall|i: int|
                0 <= i < 3 ==> -COORD_LIMIT <= #[trigger] self.coordinates_spec()[i]
                    <= COORD_LIMIT,
            forall|j: int|
                0 <= j < old(positions)@.len() ==> {
                    let v = #[trigger] old(positions)@[j];
                    &&& 0 <= v.x <= resolution_size * FP_ONE
                    &&& 0 <= v.y <= resolution_size * FP_ONE
                    &&& 0 <= v.z <= resolution_size * FP_ONE
                },
        ensures
            final(positions)@ == transformed(
                old(positions)@,
                self.coordinates_spec(),
                resolution_size as int,
            ),
    {
        let ghost orig = positions@;
        let ghost coords = self.coordinates_spec();
        let ghost rs = resolution_size as int;
        proof {
            assert(-COORD_LIMIT <= self.coordinates_spec()[0] <= COORD_LIMIT);
            assert(-COORD_LIMIT <= self.coordinates_spec()[1] <= COORD_LIMIT);
            assert(-COORD_LIMIT <= self.coordinates_spec()[2] <= COORD_LIMIT);
        }
        let mut i: usize = 0;
        let len = positions.len();
        while i < len
            invariant
                i <= len,
                len == positions@.len(),
                len == orig.len(),
                1 <= resolution_size <= MAX_MESH_RESOLUTION,
                rs == resolution_size as int,
                coords == self.coordinates_spec(),
                forall|k: int| 0 <= k < 3 ==> -COORD_LIMIT <= #[trigger] coords[k] <= COORD_LIMIT,
                forall|j: int|
                    0 <= j < len ==> {
                        let v = #[trigger] orig[j];
                        &&& 0 <= v.x <= resolution_size * FP_ONE
                        &&& 0 <= v.y <= resolution_size * FP_ONE
                        &&& 0 <= v.z <= resolution_size * FP_ONE
                    },
                forall|j: int| i <= j < len ==> positions@[j] == #[trigger] orig[j],
                forall|j: int|
                    0 <= j < i ==> positions@[j] == transform_vertex(
                        #[trigger] orig[j],
                        coords,
                        rs,
                    ),
            decreases len - i,
        {
            let v = positions[i];
            proof {
                assert(v == orig[i as int]);
            }
            let w = FixedVec3 {
                x: Self::transform_coord_exec(v.x, self.coordinates[0], resolution_size),
                y: Self::transform_coord_exec(v.y, self.coordinates[1], resolution_size),
                z: Self::transform_coord_exec(v.z, self.coordinates[2], resolution_size),
            };
            positions[i] = w;
            i = i + 1;
        }
        proof {
            assert(positions@ =~= transformed(orig, coords, rs));
        }
    }

    /// One axis of the world transform: `p / rs * SIZE_CHUNK`, offset by the
    /// chunk's world origin, all in fixed point.
    fn transform_coord_exec(p: i64, c: i128, rs: usize) -> (w: i64)
        requires
            1 <= rs <= MAX_MESH_RESOLUTION,
            0 <= p <= rs * FP_ONE,
            -COORD_LIMIT <= c <= COORD_LIMIT,
        ensures
            w == transform_coord(p as int, c as int, rs as int),
    {
        proof {
            lemma_transform_coord_bounds(p as int, c as int, rs as int);
            assert(p * SIZE_CHUNK <= rs * FP_ONE * 32 && rs * FP_ONE * 32 <= 0x2000000000
                && -0x200000000000000000 <= c * SIZE_CHUNK_FP <= 0x200000000000000000) by (nonlinear_arith)
                requires
                    0 <= p <= rs * FP_ONE,
                    1 <= rs <= 256,
                    -COORD_LIMIT <= c <= COORD_LIMIT,
                    COORD_LIMIT == 0x10000000000,
                    FP_ONE == 65536,
                    SIZE_CHUNK == 32,
                    SIZE_CHUNK_FP == 2097152,
            {
            }
        }
        let scaled: u64 = ((p as u64) * (SIZE_CHUNK as u64)) / (rs as u64);
        let shifted: i128 = (scaled as i128) + c * (SIZE_CHUNK_FP as i128);
        shifted as i64
    }
}

/// Derives the flat normal of every triangle of a finished vertex listing,
/// repeated once per vertex.
fn build_normals(positions: &Vec<FixedVec3>) -> (normals: Vec<FixedVec3>)
    requires
        positions@.len() % 3 == 0,
        forall|i: int, j: int|
            0 <= i < positions@.len() && 0 <= j < positions@.len() ==> {
                &&& -0x40000000 <= #[trigger] positions@[i].x - #[trigger] positions@[j].x
                    <= 0x40000000
                &&& -0x40000000 <= positions@[i].y - positions@[j].y <= 0x40000000
                &&& -0x40000000 <= positions@[i].z - positions@[j].z <= 0x40000000
            },
    ensures
        normals@ == flat_normals(positions@),
{
    let len = positions.len();
    let mut normals: Vec<FixedVec3> = Vec::new();
    let mut idx: usize = 0;
    while idx < len
        invariant
            idx <= len,
            idx % 3 == 0,
            len == positions@.len(),
            len % 3 == 0,
            normals@ == flat_normals(positions@).take(idx as int),
            forall|i: int, j: int|
                0 <= i < positions@.len() && 0 <= j < positions@.len() ==> {
                    &&& -0x40000000 <= #[trigger] positions@[i].x - #[trigger] positions@[j].x
                        <= 0x40000000
                    &&& -0x40000000 <= positions@[i].y - positions@[j].y <= 0x40000000
                    &&& -0x40000000 <= positions@[i].z - positions@[j].z <= 0x40000000
                },
        decreases len - idx,
    {
        proof {
            vstd::arithmetic::div_mod::lemma_fundamental_div_mod(len as int, 3);
            vstd::arithmetic::div_mod::lemma_fundamental_div_mod(idx as int, 3);
            assert(idx + 3 <= len);
            lemma_triangle_base(idx as int);
        }
        let value = polygon_normal(&positions[idx], &positions[idx + 1], &positions[idx + 2]);
        normals.push(value);
        normals.push(value);
        normals.push(value);
        proof {
            assert(normals@ =~= flat_normals(positions@).take(idx as int + 3));
        }
        idx = idx + 3;
    }
    proof {
        assert(normals@ =~= flat_normals(positions@));
    }
    normals
}

impl VoxelChunk {
    /// Builds this chunk's finished mesh at the given resolution: the density
    /// field sampled over the lattice, every interior unit cube marched,
    /// vertices carried into world space, one flat normal per triangle,
    /// placeholder texture coordinates and identity vertex indices.
    ///
    /// The result is a pure function of the chunk coordinate, the resolution
    /// and the field: meshing the same inputs twice gives bit-identical
    /// buffers.
    pub fn return_chunk_mesh<F: DensityField>(
        &mut self,
        generation_rules_for_the_grid: &F,
        resolution: ResolutionOfTheGrid,
    ) -> (mesh: Mesh)
        requires
            resolution.value_spec() <= MAX_MESH_RESOLUTION,
            forall|i: int|
                0 <= i < 3 ==> -COORD_LIMIT <= #[trigger] old(self).coordinates_spec()[i]
                    <= COORD_LIMIT,
        ensures
            final(self).coordinates_spec() == old(self).coordinates_spec(),
            mesh.positions@ == chunk_mesh_positions(
                generation_rules_for_the_grid,
                old(self).coordinates_spec(),
                resolution.value_spec() as int,
            ),
            mesh.positions@.len() % 3 == 0,
            mesh.normals@ == flat_normals(mesh.positions@),
            mesh.uvs@ == Seq::new(mesh.positions@.len(), |i: int| FixedVec2 { u: 0, v: 0 }),
            mesh.indices@ == Seq::new(mesh.positions@.len(), |i: int| i as u32),
    {
        let resolution = resolution.value();
        let voxel_grid = self.sample_grid(generation_rules_for_the_grid, resolution);
        self.mesh_from_grid(&voxel_grid)
    }

    /// Builds this chunk's mesh from a grid that has already been filled, in
    /// fill order, with one density sample per lattice point. This is the
    /// meshing path for density sources the library does not model: the
    /// caller samples them itself, in the same lattice order, and hands the
    /// finished grid over.
    pub fn mesh_from_grid(&self, voxel_grid: &VoxelGrid) -> (mesh: Mesh)
        requires
            voxel_grid.well_formed(),
            voxel_grid.is_full(),
            voxel_grid.resolution_spec() <= MAX_MESH_RESOLUTION,
            forall|i: int|
                0 <= i < 3 ==> -COORD_LIMIT <= #[trigger] self.coordinates_spec()[i]
                    <= COORD_LIMIT,
        ensures
            mesh.positions@ == grid_mesh_positions(
                self.coordinates_spec(),
                voxel_grid.contents(),
                voxel_grid.resolution_spec(),
            ),
            mesh.positions@.len() % 3 == 0,
            mesh.normals@ == flat_normals(mesh.positions@),
            mesh.uvs@ == Seq::new(mesh.positions@.len(), |i: int| FixedVec2 { u: 0, v: 0 }),
            mesh.indices@ == Seq::new(mesh.positions@.len(), |i: int| i as u32),
    {
        let ghost coords = self.coordinates_spec();
        let resolution = voxel_grid.resolution();
        let ghost res = resolution as int;
        let ghost data = voxel_grid.contents();
        let mut positions = extract_surface(voxel_grid);
        let resolution_size: usize = if resolution >= 2 {
            resolution - 1
        } else {
            1
        };
        proof {
            lemma_extracted_structure(data, res, (res - 1) * (res - 1) * (res - 1));
            if res >= 2 {
                lemma_extracted_bounds(data, res, (res - 1) * (res - 1) * (res - 1));
            } else {
                assert((res - 1) * (res - 1) * (res - 1) == 0) by (nonlinear_arith)
                    requires
                        res == 1,
                {
                }
                assert(extracted_all(data, res) =~= Seq::<FixedVec3>::empty());
                assert(transformed(extracted_all(data, res), coords, res - 1) =~= transformed(
                    extracted_all(data, res),
                    coords,
                    resolution_size as int,
                ));
            }
            assert((res - 1) * (res - 1) * (res - 1) <= 255 * 255 * 255) by (nonlinear_arith)
                requires
                    1 <= res <= 256,
            {
            }
        }
        self.get_transform_vertex(&mut positions, resolution_size);
        proof {
            let world = positions@;
            assert forall|i: int, j: int|
                0 <= i < world.len() && 0 <= j < world.len() implies {
                &&& -0x40000000 <= #[trigger] world[i].x - #[trigger] world[j].x <= 0x40000000
                &&& -0x40000000 <= world[i].y - world[j].y <= 0x40000000
                &&& -0x40000000 <= world[i].z - world[j].z <= 0x40000000
            } by {
                let local = extracted_all(data, res);
                assert(world[i] == transform_vertex(local[i], coords, resolution_size as int));
                assert(world[j] == transform_vertex(local[j], coords, resolution_size as int));
                lemma_transform_coord_bounds(
                    local[i].x as int,
                    coords[0] as int,
                    resolution_size as int,
                );
                lemma_transform_coord_bounds(
                    local[i].y as int,
                    coords[1] as int,
                    resolution_size as int,
                );
                lemma_transform_coord_bounds(
                    local[i].z as int,
                    coords[2] as int,
                    resolution_size as int,
                );
                lemma_transform_coord_bounds(
                    local[j].x as int,
                    coords[0] as int,
                    resolution_size as int,
                );
                lemma_transform_coord_bounds(
                    local[j].y as int,
                    coords[1] as int,
                    resolution_size as int,
                );
                lemma_transform_coord_bounds(
                    local[j].z as int,
                    coords[2] as int,
                    resolution_size as int,
                );
            }
        }
        let normals = build_normals(&positions);
        let len = positions.len();
        let mut uvs: Vec<FixedVec2> = Vec::new();
        let mut i: usize = 0;
        while i < len
            invariant
                i <= len,
                uvs@ =~= Seq::new(i as nat, |j: int| FixedVec2 { u: 0, v: 0 }),
            decreases len - i,
        {
            uvs.push(FixedVec2 { u: 0, v: 0 });
            i = i + 1;
        }
        let mut indices: Vec<u32> = Vec::new();
        let mut i: usize = 0;
        while i < len
            invariant
                i <= len,
                len <= 15 * 255 * 255 * 255,
                indices@ =~= Seq::new(i as nat, |j: int| j as u32),
            decreases len - i,
        {
            indices.push(i as u32);
            i = i + 1;
        }
        Mesh { positions, normals, uvs, indices }
    }
}

/// Meshing is deterministic: two meshes built from the same chunk
/// coordinate, the same resolution and the same density field have
/// bit-identical position, normal, texture and index buffers.
pub proof fn lemma_mesh_deterministic<F: DensityField>(
    first: Mesh,
    second: Mesh,
    field: &F,
    coords: [i128; 3],
    res: int,
)
    requires
        first.positions@ == chunk_mesh_positions(field, coords, res),
        first.normals@ == flat_normals(first.positions@),
        first.uvs@ == Seq::new(first.positions@.len(), |i: int| FixedVec2 { u: 0, v: 0 }),
        first.indices@ == Seq::new(first.positions@.len(), |i: int| i as u32),
        second.positions@ == chunk_mesh_positions(field, coords, res),
        second.normals@ == flat_normals(second.positions@),
        second.uvs@ == Seq::new(second.positions@.len(), |i: int| FixedVec2 { u: 0, v: 0 }),
        second.indices@ == Seq::new(second.positions@.len(), |i: int| i as u32),
    ensures
        first.positions@ == second.positions@,
        first.normals@ == second.normals@,
        first.uvs@ == second.uvs@,
        first.indices@ == second.indices@,
{
}

impl Default for VoxelChunk {
    /// The chunk at the lattice origin.
    fn default() -> (r: VoxelChunk)
        ensures
            r.coordinates_spec() == [0i128, 0i128, 0i128],
    {
        VoxelChunk { coordinates: [0, 0, 0] }
    }
}

} // verus!
