//! Marching cubes over one unit cube of the sampling grid.
//!
//! The 8 corner samples of a cube are turned into an 8-bit configuration
//! (bit `i` set when corner `i` is negative, that is, solid). The
//! triangulation table row for that configuration lists the cube edges
//! crossed by the surface, three per triangle; each listed edge contributes
//! one vertex, placed by exact fixed-point linear interpolation between the
//! edge's two corner samples.

use crate::grid::{flat_index, VoxelGrid, MAX_GRID_RESOLUTION};
use crate::math::{FixedVec3, FP_ONE};
use crate::tables::{
    lemma_edge_table_valid, lemma_tri_entry_range, lemma_tri_entry_value, read_tri_entry,
    tri_entry, ENTRY_PLACES, EDGES_FOR_MARCHING_CUBES, POINTS_FOR_MARCHING_CUBES,
    TRIANGULATIONS_FOR_MARCHING_CUBES,
};
use vstd::arithmetic::div_mod::{lemma_div_is_ordered, lemma_div_multiples_vanish};
use vstd::prelude::*;

verus! {

/// Where, in fixed-point units of the edge length, the surface crosses the
/// edge running from sample `a` to sample `b`: the exact rational
/// `a / (a - b)` rounded down to 16 fractional bits.
///
/// The triangulation table only lists edges whose two samples lie on
/// opposite sides of the surface, so the remaining case is degenerate by
/// construction; this crate pins it (in particular `a == b`, where the
/// original ratio is undefined) to the first endpoint.
pub open spec fn interp_param(a: i64, b: i64) -> int {
    if a < 0 && b >= 0 {
        ((-(a as int)) * FP_ONE) / ((-(a as int)) + b as int)
    } else if a >= 0 && b < 0 {
        ((a as int) * FP_ONE) / (a as int - b as int)
    } else {
        0
    }
}

/// The crossing parameter always lies within the edge.
pub proof fn lemma_interp_param_bounds(a: i64, b: i64)
    ensures
        0 <= interp_param(a, b) <= FP_ONE,
{
    if a < 0 && b >= 0 {
        let na = -(a as int);
        let den = na + b as int;
        assert(na * FP_ONE <= den * FP_ONE) by (nonlinear_arith)
            requires
                0 < na <= den,
        {
        }
        lemma_div_is_ordered(na * FP_ONE, den * FP_ONE, den);
        lemma_div_multiples_vanish(FP_ONE as int, den);
        assert((na * FP_ONE) / den >= 0) by (nonlinear_arith)
            requires
                0 < na,
                0 < den,
        {
        }
    } else if a >= 0 && b < 0 {
        let num = a as int;
        let den = a as int - b as int;
        assert(num * FP_ONE <= den * FP_ONE) by (nonlinear_arith)
            requires
                0 <= num <= den,
        {
        }
        lemma_div_is_ordered(num * FP_ONE, den * FP_ONE, den);
        lemma_div_multiples_vanish(FP_ONE as int, den);
        assert((num * FP_ONE) / den >= 0) by (nonlinear_arith)
            requires
                0 <= num,
                0 < den,
        {
        }
    }
}

/// Computes [`interp_param`] exactly, in wide intermediate arithmetic.
pub fn interpolation_parameter(a: i64, b: i64) -> (t: i64)
    ensures
        t == interp_param(a, b),
        0 <= t <= FP_ONE,
{
    proof {
        lemma_interp_param_bounds(a, b);
    }
    if a < 0 && b >= 0 {
        let na: u128 = (-(a as i128)) as u128;
        let num: u128 = na * (FP_ONE as u128);
        let den: u128 = na + (b as u128);
        (num / den) as i64
    } else if a >= 0 && b < 0 {
        let num: u128 = (a as u128) * (FP_ONE as u128);
        let den: u128 = (a as u128) + ((-(b as i128)) as u128);
        (num / den) as i64
    } else {
        0
    }
}

/// The sample stored at corner `i` of the unit cube whose lower corner is
/// `(x, y, z)`.
pub open spec fn corner_sample(
    data: Seq<i64>,
    res: int,
    x: int,
    y: int,
    z: int,
    i: int,
) -> i64 {
    data[flat_index(
        res,
        x + POINTS_FOR_MARCHING_CUBES[i][0],
        y + POINTS_FOR_MARCHING_CUBES[i][1],
        z + POINTS_FOR_MARCHING_CUBES[i][2],
    )]
}

/// 1 when corner `i` samples a negative (solid) value, else 0.
pub open spec fn corner_bit(data: Seq<i64>, res: int, x: int, y: int, z: int, i: int) -> int {
    if corner_sample(data, res, x, y, z, i) < 0 {
        1
    } else {
        0
    }
}

/// The 8-bit corner configuration of the cube at `(x, y, z)`: bit `i` is set
/// exactly when corner `i` is solid.
pub open spec fn config_index(data: Seq<i64>, res: int, x: int, y: int, z: int) -> int {
    corner_bit(data, res, x, y, z, 0) + 2 * corner_bit(data, res, x, y, z, 1) + 4 * corner_bit(
        data,
        res,
        x,
        y,
        z,
        2,
    ) + 8 * corner_bit(data, res, x, y, z, 3) + 16 * corner_bit(data, res, x, y, z, 4) + 32
        * corner_bit(data, res, x, y, z, 5) + 64 * corner_bit(data, res, x, y, z, 6) + 128
        * corner_bit(data, res, x, y, z, 7)
}

/// The vertex the surface places on cube edge `e`: starting at the edge's
/// first corner, moved [`interp_param`] of the way toward its second.
pub open spec fn edge_vertex(data: Seq<i64>, res: int, x: int, y: int, z: int, e: int) -> FixedVec3 {
    let c0 = EDGES_FOR_MARCHING_CUBES[e][0] as int;
    let c1 = EDGES_FOR_MARCHING_CUBES[e][1] as int;
    let a = corner_sample(data, res, x, y, z, c0);
    let b = corner_sample(data, res, x, y, z, c1);
    let t = interp_param(a, b);
    FixedVec3 {
        x: ((x + POINTS_FOR_MARCHING_CUBES[c0][0]) * FP_ONE + (POINTS_FOR_MARCHING_CUBES[c1][0]
            - POINTS_FOR_MARCHING_CUBES[c0][0]) * t) as i64,
        y: ((y + POINTS_FOR_MARCHING_CUBES[c0][1]) * FP_ONE + (POINTS_FOR_MARCHING_CUBES[c1][1]
            - POINTS_FOR_MARCHING_CUBES[c0][1]) * t) as i64,
        z: ((z + POINTS_FOR_MARCHING_CUBES[c0][2]) * FP_ONE + (POINTS_FOR_MARCHING_CUBES[c1][2]
            - POINTS_FOR_MARCHING_CUBES[c0][2]) * t) as i64,
    }
}

/// Triangle slot `k` of the row for `config` holds a whole triangle: all
/// three of its entries are cube-edge indices rather than the sentinel.
pub open spec fn triangle_live(config: int, k: int) -> bool {
    &&& tri_entry(config, 3 * k) < 12
    &&& tri_entry(config, 3 * k + 1) < 12
    &&& tri_entry(config, 3 * k + 2) < 12
}

/// The vertices the cube at `(x, y, z)` emits from triangle slot `k`
/// onward: three vertices per slot, in table order, stopping at the first
/// slot ended by the sentinel.
pub open spec fn emitted_from(
    data: Seq<i64>,
    res: int,
    x: int,
    y: int,
    z: int,
    k: int,
) -> Seq<FixedVec3>
    decreases 5 - k,
{
    if k < 0 || k >= 5 {
        Seq::empty()
    } else {
        let config = config_index(data, res, x, y, z);
        if triangle_live(config, k) {
            seq![
                edge_vertex(data, res, x, y, z, tri_entry(config, 3 * k)),
                edge_vertex(data, res, x, y, z, tri_entry(config, 3 * k + 1)),
                edge_vertex(data, res, x, y, z, tri_entry(config, 3 * k + 2)),
            ] + emitted_from(data, res, x, y, z, k + 1)
        } else {
            Seq::empty()
        }
    }
}

/// Every vertex the cube at `(x, y, z)` emits, in table order.
pub open spec fn march_cube_spec(data: Seq<i64>, res: int, x: int, y: int, z: int) -> Seq<
    FixedVec3,
> {
    emitted_from(data, res, x, y, z, 0)
}

/// Reads the sample at corner `i` of the cube at `(x, y, z)`.
fn read_corner(voxel_grid: &VoxelGrid, x: usize, y: usize, z: usize, i: usize) -> (v: i64)
    requires
        voxel_grid.well_formed(),
        voxel_grid.is_full(),
        x + 1 < voxel_grid.resolution_spec(),
        y + 1 < voxel_grid.resolution_spec(),
        z + 1 < voxel_grid.resolution_spec(),
        i < 8,
    ensures
        v == corner_sample(
            voxel_grid.contents(),
            voxel_grid.resolution_spec(),
            x as int,
            y as int,
            z as int,
            i as int,
        ),
{
    proof {
        lemma_edge_table_valid();
    }
    let p = POINTS_FOR_MARCHING_CUBES[i];
    match voxel_grid.read(x + p[0], y + p[1], z + p[2]) {
        Ok(v) => v,
        Err(_) => {
            proof {
                assert(false);
            }
            vstd::pervasive::unreached()
        },
    }
}

/// Looks up the packed triangulation row for the cube at `(x, y, z)`,
/// building its corner configuration from the 8 corner signs.
fn get_triangulation(voxel_grid: &VoxelGrid, cube: (usize, usize, usize)) -> (r: (u8, u64))
    requires
        voxel_grid.well_formed(),
        voxel_grid.is_full(),
        cube.0 + 1 < voxel_grid.resolution_spec(),
        cube.1 + 1 < voxel_grid.resolution_spec(),
        cube.2 + 1 < voxel_grid.resolution_spec(),
    ensures
        r.0 == config_index(
            voxel_grid.contents(),
            voxel_grid.resolution_spec(),
            cube.0 as int,
            cube.1 as int,
            cube.2 as int,
        ),
        r.1 == TRIANGULATIONS_FOR_MARCHING_CUBES[r.0 as int],
{
    let (x, y, z) = cube;
    let mut config: u8 = 0;
    if read_corner(voxel_grid, x, y, z, 0) < 0 {
        config = config + 1;
    }
    if read_corner(voxel_grid, x, y, z, 1) < 0 {
        config = config + 2;
    }
    if read_corner(voxel_grid, x, y, z, 2) < 0 {
        config = config + 4;
    }
    if read_corner(voxel_grid, x, y, z, 3) < 0 {
        config = config + 8;
    }
    if read_corner(voxel_grid, x, y, z, 4) < 0 {
        config = config + 16;
    }
    if read_corner(voxel_grid, x, y, z, 5) < 0 {
        config = config + 32;
    }
    if read_corner(voxel_grid, x, y, z, 6) < 0 {
        config = config + 64;
    }
    if read_corner(voxel_grid, x, y, z, 7) < 0 {
        config = config + 128;
    }
    let row: u64 = TRIANGULATIONS_FOR_MARCHING_CUBES[config as usize];
    (config, row)
}

/// Places the surface vertex on cube edge `e` of the cube at `(x, y, z)`.
fn edge_vertex_at(voxel_grid: &VoxelGrid, x: usize, y: usize, z: usize, e: usize) -> (v: FixedVec3)
    requires
        voxel_grid.well_formed(),
        voxel_grid.is_full(),
        x + 1 < voxel_grid.resolution_spec(),
        y + 1 < voxel_grid.resolution_spec(),
        z + 1 < voxel_grid.resolution_spec(),
        e < 12,
    ensures
        v == edge_vertex(
            voxel_grid.contents(),
            voxel_grid.resolution_spec(),
            x as int,
            y as int,
            z as int,
            e as int,
        ),
{
    proof {
        lemma_edge_table_valid();
    }
    let c0 = EDGES_FOR_MARCHING_CUBES[e][0];
    let c1 = EDGES_FOR_MARCHING_CUBES[e][1];
    let a = read_corner(voxel_grid, x, y, z, c0);
    let b = read_corner(voxel_grid, x, y, z, c1);
    let t = interpolation_parameter(a, b);
    let p0 = POINTS_FOR_MARCHING_CUBES[c0];
    let p1 = POINTS_FOR_MARCHING_CUBES[c1];
    proof {
        assert(POINTS_FOR_MARCHING_CUBES[c0 as int][0] <= 1);
        assert(POINTS_FOR_MARCHING_CUBES[c0 as int][1] <= 1);
        assert(POINTS_FOR_MARCHING_CUBES[c0 as int][2] <= 1);
        assert(POINTS_FOR_MARCHING_CUBES[c1 as int][0] <= 1);
        assert(POINTS_FOR_MARCHING_CUBES[c1 as int][1] <= 1);
        assert(POINTS_FOR_MARCHING_CUBES[c1 as int][2] <= 1);
    }
    let dx: i64 = (p1[0] as i64) - (p0[0] as i64);
    let dy: i64 = (p1[1] as i64) - (p0[1] as i64);
    let dz: i64 = (p1[2] as i64) - (p0[2] as i64);
    proof {
        assert(-65536 <= dx as int * t as int <= 65536 && -65536 <= dy as int * t as int <= 65536
            && -65536 <= dz as int * t as int <= 65536) by (nonlinear_arith)
            requires
                -1 <= dx as int <= 1,
                -1 <= dy as int <= 1,
                -1 <= dz as int <= 1,
                0 <= t as int <= 65536,
        {
        }
    }
    FixedVec3 {
        x: ((x + p0[0]) as i64) * FP_ONE + dx * t,
        y: ((y + p0[1]) as i64) * FP_ONE + dy * t,
        z: ((z + p0[2]) as i64) * FP_ONE + dz * t,
    }
}

/// Appends to `positions` every surface vertex of the unit cube whose lower
/// corner is `cube`, in table order: a whole number of triangles, wound so
/// their normals point out of the solid.
#[verifier::rlimit(100)]
pub fn march_cube(
    cube: (usize, usize, usize),
    voxel_grid: &VoxelGrid,
    positions: &mut Vec<FixedVec3>,
)
    requires
        voxel_grid.well_formed(),
        voxel_grid.is_full(),
        cube.0 + 1 < voxel_grid.resolution_spec(),
        cube.1 + 1 < voxel_grid.resolution_spec(),
        cube.2 + 1 < voxel_grid.resolution_spec(),
    ensures
        final(positions)@ == old(positions)@ + march_cube_spec(
            voxel_grid.contents(),
            voxel_grid.resolution_spec(),
            cube.0 as int,
            cube.1 as int,
            cube.2 as int,
        ),
{
    let (x, y, z) = cube;
    let ghost data = voxel_grid.contents();
    let ghost res = voxel_grid.resolution_spec();
    let ghost orig = positions@;
    let (config, row) = get_triangulation(voxel_grid, cube);
    let mut k: usize = 0;
    while k < 5
        invariant_except_break
            voxel_grid.well_formed(),
            voxel_grid.is_full(),
            data == voxel_grid.contents(),
            res == voxel_grid.resolution_spec(),
            x + 1 < res,
            y + 1 < res,
            z + 1 < res,
            config == config_index(data, res, x as int, y as int, z as int),
            k <= 5,
            orig.len() <= positions@.len(),
            positions@.take(orig.len() as int) == orig,
            orig + emitted_from(data, res, x as int, y as int, z as int, 0) == positions@
                + emitted_from(data, res, x as int, y as int, z as int, k as int),
        ensures
            positions@ == orig + emitted_from(data, res, x as int, y as int, z as int, 0),
        decreases 5 - k,
    {
        let e0 = read_tri_entry(config, 3 * k);
        let e1 = read_tri_entry(config, 3 * k + 1);
        let e2 = read_tri_entry(config, 3 * k + 2);
        if e0 >= 12 || e1 >= 12 || e2 >= 12 {
            proof {
                assert(!triangle_live(config as int, k as int));
                assert(emitted_from(data, res, x as int, y as int, z as int, k as int)
                    =~= Seq::<FixedVec3>::empty());
                assert(positions@ =~= orig + emitted_from(
                    data,
                    res,
                    x as int,
                    y as int,
                    z as int,
                    0,
                ));
            }
            break ;
        }
        let v0 = edge_vertex_at(voxel_grid, x, y, z, e0 as usize);
        let v1 = edge_vertex_at(voxel_grid, x, y, z, e1 as usize);
        let v2 = edge_vertex_at(voxel_grid, x, y, z, e2 as usize);
        positions.push(v0);
        positions.push(v1);
        positions.push(v2);
        proof {
            assert(triangle_live(config as int, k as int));
            assert(emitted_from(data, res, x as int, y as int, z as int, k as int) =~= seq![
                v0,
                v1,
                v2,
            ] + emitted_from(data, res, x as int, y as int, z as int, k as int + 1));
            assert(orig + emitted_from(data, res, x as int, y as int, z as int, 0) =~= positions@
                + emitted_from(data, res, x as int, y as int, z as int, k as int + 1));
            assert(positions@.take(orig.len() as int) =~= orig);
        }
        k = k + 1;
    }
    proof {
        assert(final(positions)@ == orig + march_cube_spec(data, res, x as int, y as int, z as int));
    }
}

/// The cross product `(v2 - v1) x (v3 - v1)`: the flat normal direction of
/// the triangle `(v1, v2, v3)`. It is not scaled to unit length, which would
/// leave the integers; the rendering layer may normalise it, since only its
/// direction is meaningful.
pub open spec fn cross_normal(v1: FixedVec3, v2: FixedVec3, v3: FixedVec3) -> FixedVec3 {
    FixedVec3 {
        x: ((v2.y - v1.y) * (v3.z - v1.z) - (v2.z - v1.z) * (v3.y - v1.y)) as i64,
        y: ((v2.z - v1.z) * (v3.x - v1.x) - (v2.x - v1.x) * (v3.z - v1.z)) as i64,
        z: ((v2.x - v1.x) * (v3.y - v1.y) - (v2.y - v1.y) * (v3.x - v1.x)) as i64,
    }
}

/// Computes [`cross_normal`] for a triangle whose vertices lie within
/// `2^30` fixed-point units of each other, as all triangles of one chunk do.
pub fn polygon_normal(vrtx1: &FixedVec3, vrtx2: &FixedVec3, vrtx3: &FixedVec3) -> (n: FixedVec3)
    requires
        -0x40000000 <= vrtx2.x - vrtx1.x <= 0x40000000,
        -0x40000000 <= vrtx2.y - vrtx1.y <= 0x40000000,
        -0x40000000 <= vrtx2.z - vrtx1.z <= 0x40000000,
        -0x40000000 <= vrtx3.x - vrtx1.x <= 0x40000000,
        -0x40000000 <= vrtx3.y - vrtx1.y <= 0x40000000,
        -0x40000000 <= vrtx3.z - vrtx1.z <= 0x40000000,
    ensures
        n == cross_normal(*vrtx1, *vrtx2, *vrtx3),
{
    let ux: i64 = vrtx2.x - vrtx1.x;
    let uy: i64 = vrtx2.y - vrtx1.y;
    let uz: i64 = vrtx2.z - vrtx1.z;
    let wx: i64 = vrtx3.x - vrtx1.x;
    let wy: i64 = vrtx3.y - vrtx1.y;
    let wz: i64 = vrtx3.z - vrtx1.z;
    proof {
        assert forall|p: int, q: int|
            -0x40000000 <= p <= 0x40000000 && -0x40000000 <= q <= 0x40000000
                implies -0x1000000000000000 <= #[trigger] (p * q) <= 0x1000000000000000 by {
            assert(-0x1000000000000000 <= p * q <= 0x1000000000000000) by (nonlinear_arith)
                requires
                    -0x40000000 <= p <= 0x40000000,
                    -0x40000000 <= q <= 0x40000000,
            {
            }
        }
    }
    FixedVec3 { x: uy * wz - uz * wy, y: uz * wx - ux * wz, z: ux * wy - uy * wx }
}

/// A cube's vertex listing always holds a whole number of triangles, and at
/// most five of them.
pub proof fn lemma_emitted_from_structure(
    data: Seq<i64>,
    res: int,
    x: int,
    y: int,
    z: int,
    k: int,
)
    requires
        0 <= k <= 5,
    ensures
        emitted_from(data, res, x, y, z, k).len() % 3 == 0,
        emitted_from(data, res, x, y, z, k).len() <= 3 * (5 - k),
    decreases 5 - k,
{
    if k < 5 {
        if triangle_live(config_index(data, res, x, y, z), k) {
            lemma_emitted_from_structure(data, res, x, y, z, k + 1);
        }
    }
}

/// Every vertex a cube emits lies on that cube: each coordinate stays
/// between the cube's own lattice planes.
pub proof fn lemma_edge_vertex_bounds(data: Seq<i64>, res: int, x: int, y: int, z: int, e: int)
    requires
        0 <= e < 12,
        0 <= x < MAX_GRID_RESOLUTION,
        0 <= y < MAX_GRID_RESOLUTION,
        0 <= z < MAX_GRID_RESOLUTION,
    ensures
        x * FP_ONE <= edge_vertex(data, res, x, y, z, e).x <= (x + 1) * FP_ONE,
        y * FP_ONE <= edge_vertex(data, res, x, y, z, e).y <= (y + 1) * FP_ONE,
        z * FP_ONE <= edge_vertex(data, res, x, y, z, e).z <= (z + 1) * FP_ONE,
{
    lemma_edge_table_valid();
    let c0 = EDGES_FOR_MARCHING_CUBES[e][0] as int;
    let c1 = EDGES_FOR_MARCHING_CUBES[e][1] as int;
    let a = corner_sample(data, res, x, y, z, c0);
    let b = corner_sample(data, res, x, y, z, c1);
    let t = interp_param(a, b);
    lemma_interp_param_bounds(a, b);
    assert(POINTS_FOR_MARCHING_CUBES[c0][0] <= POINTS_FOR_MARCHING_CUBES[c1][0]);
    assert(POINTS_FOR_MARCHING_CUBES[c0][1] <= POINTS_FOR_MARCHING_CUBES[c1][1]);
    assert(POINTS_FOR_MARCHING_CUBES[c0][2] <= POINTS_FOR_MARCHING_CUBES[c1][2]);
    let p00 = POINTS_FOR_MARCHING_CUBES[c0][0] as int;
    let p10 = POINTS_FOR_MARCHING_CUBES[c1][0] as int;
    let p01 = POINTS_FOR_MARCHING_CUBES[c0][1] as int;
    let p11 = POINTS_FOR_MARCHING_CUBES[c1][1] as int;
    let p02 = POINTS_FOR_MARCHING_CUBES[c0][2] as int;
    let p12 = POINTS_FOR_MARCHING_CUBES[c1][2] as int;
    assert(x * 65536 <= (x + p00) * 65536 + (p10 - p00) * t <= (x + 1) * 65536 && y * 65536 <= (y
        + p01) * 65536 + (p11 - p01) * t <= (y + 1) * 65536 && z * 65536 <= (z + p02) * 65536 + (
    p12 - p02) * t <= (z + 1) * 65536) by (nonlinear_arith)
        requires
            0 <= p00 <= p10 <= 1,
            0 <= p01 <= p11 <= 1,
            0 <= p02 <= p12 <= 1,
            0 <= t <= 65536,
            0 <= x,
            0 <= y,
            0 <= z,
    {
    }
}

/// A unit cube whose 8 corners all sample the same sign emits no
/// triangles: the surface does not pass through it.
pub proof fn lemma_uniform_sign_emits_nothing(data: Seq<i64>, res: int, x: int, y: int, z: int)
    requires
        (forall|i: int| 0 <= i < 8 ==> corner_sample(data, res, x, y, z, i) < 0) || (forall|i: int|
            0 <= i < 8 ==> corner_sample(data, res, x, y, z, i) >= 0),
    ensures
        march_cube_spec(data, res, x, y, z).len() == 0,
{
    let config = config_index(data, res, x, y, z);
    if forall|i: int| 0 <= i < 8 ==> corner_sample(data, res, x, y, z, i) < 0 {
        assert(corner_sample(data, res, x, y, z, 0) < 0);
        assert(corner_sample(data, res, x, y, z, 1) < 0);
        assert(corner_sample(data, res, x, y, z, 2) < 0);
        assert(corner_sample(data, res, x, y, z, 3) < 0);
        assert(corner_sample(data, res, x, y, z, 4) < 0);
        assert(corner_sample(data, res, x, y, z, 5) < 0);
        assert(corner_sample(data, res, x, y, z, 6) < 0);
        assert(corner_sample(data, res, x, y, z, 7) < 0);
        assert(config == 255);
        assert(tri_entry(255, 0) == 15);
    } else {
        assert(corner_sample(data, res, x, y, z, 0) >= 0);
        assert(corner_sample(data, res, x, y, z, 1) >= 0);
        assert(corner_sample(data, res, x, y, z, 2) >= 0);
        assert(corner_sample(data, res, x, y, z, 3) >= 0);
        assert(corner_sample(data, res, x, y, z, 4) >= 0);
        assert(corner_sample(data, res, x, y, z, 5) >= 0);
        assert(corner_sample(data, res, x, y, z, 6) >= 0);
        assert(corner_sample(data, res, x, y, z, 7) >= 0);
        assert(config == 0);
        assert(tri_entry(0, 0) == 15);
    }
    assert(!triangle_live(config, 0));
    assert(march_cube_spec(data, res, x, y, z) =~= Seq::<FixedVec3>::empty());
}

/// A cube whose first triangle slot is whole and whose second is already
/// ended emits exactly one triangle.
proof fn lemma_one_live_slot_emits_one_triangle(
    data: Seq<i64>,
    res: int,
    x: int,
    y: int,
    z: int,
)
    requires
        triangle_live(config_index(data, res, x, y, z), 0),
        !triangle_live(config_index(data, res, x, y, z), 1),
    ensures
        march_cube_spec(data, res, x, y, z).len() == 3,
{
    assert(emitted_from(data, res, x, y, z, 1) =~= Seq::<FixedVec3>::empty());
}

/// The eight one-solid-corner configurations all hold exactly one whole
/// triangle: their first slot is live and their second is ended.
proof fn lemma_solid_corner_rows(config: int)
    requires
        config == 1 || config == 2 || config == 4 || config == 8 || config == 16 || config == 32 || config == 64 || config == 128,
    ensures
        triangle_live(config, 0),
        !triangle_live(config, 1),
{
    if config == 1 {
        assert(TRIANGULATIONS_FOR_MARCHING_CUBES[1] as int == ENTRY_PLACES[0] as int * 1152921504606843656 + 0);
        lemma_tri_entry_value(1, 0, 1152921504606843656, 8, 0, 72057594037927728);
        assert(TRIANGULATIONS_FOR_MARCHING_CUBES[1] as int == ENTRY_PLACES[1] as int * 72057594037927728 + 8);
        lemma_tri_entry_value(1, 1, 72057594037927728, 0, 8, 4503599627370483);
        assert(TRIANGULATIONS_FOR_MARCHING_CUBES[1] as int == ENTRY_PLACES[2] as int * 4503599627370483 + 8);
        lemma_tri_entry_value(1, 2, 4503599627370483, 3, 8, 281474976710655);
        assert(TRIANGULATIONS_FOR_MARCHING_CUBES[1] as int == ENTRY_PLACES[3] as int * 281474976710655 + 776);
        lemma_tri_entry_value(1, 3, 281474976710655, 15, 776, 17592186044415);
    } else if config == 2 {
        assert(TRIANGULATIONS_FOR_MARCHING_CUBES[2] as int == ENTRY_PLACES[0] as int * 1152921504606843280 + 0);
        lemma_tri_entry_value(2, 0, 1152921504606843280, 0, 0, 72057594037927705);
        assert(TRIANGULATIONS_FOR_MARCHING_CUBES[2] as int == ENTRY_PLACES[1] as int * 72057594037927705 + 0);
        lemma_tri_entry_value(2, 1, 72057594037927705, 9, 0, 4503599627370481);
        assert(TRIANGULATIONS_FOR_MARCHING_CUBES[2] as int == ENTRY_PLACES[2] as int * 4503599627370481 + 144);
        lemma_tri_entry_value(2, 2, 4503599627370481, 1, 144, 281474976710655);
        assert(TRIANGULATIONS_FOR_MARCHING_CUBES[2] as int == ENTRY_PLACES[3] as int * 281474976710655 + 400);
        lemma_tri_entry_value(2, 3, 281474976710655, 15, 400, 17592186044415);
    } else if config == 4 {
        assert(TRIANGULATIONS_FOR_MARCHING_CUBES[4] as int == ENTRY_PLACES[0] as int * 1152921504606843178 + 0);
        lemma_tri_entry_value(4, 0, 1152921504606843178, 10, 0, 72057594037927698);
        assert(TRIANGULATIONS_FOR_MARCHING_CUBES[4] as int == ENTRY_PLACES[1] as int * 72057594037927698 + 10);
        lemma_tri_entry_value(4, 1, 72057594037927698, 2, 10, 4503599627370481);
        assert(TRIANGULATIONS_FOR_MARCHING_CUBES[4] as int == ENTRY_PLACES[2] as int * 4503599627370481 + 42);
        lemma_tri_entry_value(4, 2, 4503599627370481, 1, 42, 281474976710655);
        assert(TRIANGULATIONS_FOR_MARCHING_CUBES[4] as int == ENTRY_PLACES[3] as int * 281474976710655 + 298);
        lemma_tri_entry_value(4, 3, 281474976710655, 15, 298, 17592186044415);
    } else if config == 8 {
        assert(TRIANGULATIONS_FOR_MARCHING_CUBES[8] as int == ENTRY_PLACES[0] as int * 1152921504606843826 + 0);
        lemma_tri_entry_value(8, 0, 1152921504606843826, 2, 0, 72057594037927739);
        assert(TRIANGULATIONS_FOR_MARCHING_CUBES[8] as int == ENTRY_PLACES[1] as int * 72057594037927739 + 2);
        lemma_tri_entry_value(8, 1, 72057594037927739, 11, 2, 4503599627370483);
        assert(TRIANGULATIONS_FOR_MARCHING_CUBES[8] as int == ENTRY_PLACES[2] as int * 4503599627370483 + 178);
        lemma_tri_entry_value(8, 2, 4503599627370483, 3, 178, 281474976710655);
        assert(TRIANGULATIONS_FOR_MARCHING_CUBES[8] as int == ENTRY_PLACES[3] as int * 281474976710655 + 946);
        lemma_tri_entry_value(8, 3, 281474976710655, 15, 946, 17592186044415);
    } else if config == 16 {
        assert(TRIANGULATIONS_FOR_MARCHING_CUBES[16] as int == ENTRY_PLACES[0] as int * 1152921504606844804 + 0);
        lemma_tri_entry_value(16, 0, 1152921504606844804, 4, 0, 72057594037927800);
        assert(TRIANGULATIONS_FOR_MARCHING_CUBES[16] as int == ENTRY_PLACES[1] as int * 72057594037927800 + 4);
        lemma_tri_entry_value(16, 1, 72057594037927800, 8, 4, 4503599627370487);
        assert(TRIANGULATIONS_FOR_MARCHING_CUBES[16] as int == ENTRY_PLACES[2] as int * 4503599627370487 + 132);
        lemma_tri_entry_value(16, 2, 4503599627370487, 7, 132, 281474976710655);
        assert(TRIANGULATIONS_FOR_MARCHING_CUBES[16] as int == ENTRY_PLACES[3] as int * 281474976710655 + 1924);
        lemma_tri_entry_value(16, 3, 281474976710655, 15, 1924, 17592186044415);
    } else if config == 32 {
        assert(TRIANGULATIONS_FOR_MARCHING_CUBES[32] as int == ENTRY_PLACES[0] as int * 1152921504606844233 + 0);
        lemma_tri_entry_value(32, 0, 1152921504606844233, 9, 0, 72057594037927764);
        assert(TRIANGULATIONS_FOR_MARCHING_CUBES[32] as int == ENTRY_PLACES[1] as int * 72057594037927764 + 9);
        lemma_tri_entry_value(32, 1, 72057594037927764, 4, 9, 4503599627370485);
        assert(TRIANGULATIONS_FOR_MARCHING_CUBES[32] as int == ENTRY_PLACES[2] as int * 4503599627370485 + 73);
        lemma_tri_entry_value(32, 2, 4503599627370485, 5, 73, 281474976710655);
        assert(TRIANGULATIONS_FOR_MARCHING_CUBES[32] as int == ENTRY_PLACES[3] as int * 281474976710655 + 1353);
        lemma_tri_entry_value(32, 3, 281474976710655, 15, 1353, 17592186044415);
    } else if config == 64 {
        assert(TRIANGULATIONS_FOR_MARCHING_CUBES[64] as int == ENTRY_PLACES[0] as int * 1152921504606844326 + 0);
        lemma_tri_entry_value(64, 0, 1152921504606844326, 6, 0, 72057594037927770);
        assert(TRIANGULATIONS_FOR_MARCHING_CUBES[64] as int == ENTRY_PLACES[1] as int * 72057594037927770 + 6);
        lemma_tri_entry_value(64, 1, 72057594037927770, 10, 6, 4503599627370485);
        assert(TRIANGULATIONS_FOR_MARCHING_CUBES[64] as int == ENTRY_PLACES[2] as int * 4503599627370485 + 166);
        lemma_tri_entry_value(64, 2, 4503599627370485, 5, 166, 281474976710655);
        assert(TRIANGULATIONS_FOR_MARCHING_CUBES[64] as int == ENTRY_PLACES[3] as int * 281474976710655 + 1446);
        lemma_tri_entry_value(64, 3, 281474976710655, 15, 1446, 17592186044415);
    } else {
        assert(TRIANGULATIONS_FOR_MARCHING_CUBES[128] as int == ENTRY_PLACES[0] as int * 1152921504606844779 + 0);
        lemma_tri_entry_value(128, 0, 1152921504606844779, 11, 0, 72057594037927798);
        assert(TRIANGULATIONS_FOR_MARCHING_CUBES[128] as int == ENTRY_PLACES[1] as int * 72057594037927798 + 11);
        lemma_tri_entry_value(128, 1, 72057594037927798, 6, 11, 4503599627370487);
        assert(TRIANGULATIONS_FOR_MARCHING_CUBES[128] as int == ENTRY_PLACES[2] as int * 4503599627370487 + 107);
        lemma_tri_entry_value(128, 2, 4503599627370487, 7, 107, 281474976710655);
        assert(TRIANGULATIONS_FOR_MARCHING_CUBES[128] as int == ENTRY_PLACES[3] as int * 281474976710655 + 1899);
        lemma_tri_entry_value(128, 3, 281474976710655, 15, 1899, 17592186044415);
    }
}

/// The eight one-empty-corner configurations likewise hold exactly one
/// whole triangle.
proof fn lemma_empty_corner_rows(config: int)
    requires
        config == 254 || config == 253 || config == 251 || config == 247 || config == 239 || config == 223 || config == 191 || config == 127,
    ensures
        triangle_live(config, 0),
        !triangle_live(config, 1),
{
    if config == 254 {
        assert(TRIANGULATIONS_FOR_MARCHING_CUBES[254] as int == ENTRY_PLACES[0] as int * 1152921504606843776 + 0);
        lemma_tri_entry_value(254, 0, 1152921504606843776, 0, 0, 72057594037927736);
        assert(TRIANGULATIONS_FOR_MARCHING_CUBES[254] as int == ENTRY_PLACES[1] as int * 72057594037927736 + 0);
        lemma_tri_entry_value(254, 1, 72057594037927736, 8, 0, 4503599627370483);
        assert(TRIANGULATIONS_FOR_MARCHING_CUBES[254] as int == ENTRY_PLACES[2] as int * 4503599627370483 + 128);
        lemma_tri_entry_value(254, 2, 4503599627370483, 3, 128, 281474976710655);
        assert(TRIANGULATIONS_FOR_MARCHING_CUBES[254] as int == ENTRY_PLACES[3] as int * 281474976710655 + 896);
        lemma_tri_entry_value(254, 3, 281474976710655, 15, 896, 17592186044415);
    } else if config == 253 {
        assert(TRIANGULATIONS_FOR_MARCHING_CUBES[253] as int == ENTRY_PLACES[0] as int * 1152921504606843145 + 0);
        lemma_tri_entry_value(253, 0, 1152921504606843145, 9, 0, 72057594037927696);
        assert(TRIANGULATIONS_FOR_MARCHING_CUBES[253] as int == ENTRY_PLACES[1] as int * 72057594037927696 + 9);
        lemma_tri_entry_value(253, 1, 72057594037927696, 0, 9, 4503599627370481);
        assert(TRIANGULATIONS_FOR_MARCHING_CUBES[253] as int == ENTRY_PLACES[2] as int * 4503599627370481 + 9);
        lemma_tri_entry_value(253, 2, 4503599627370481, 1, 9, 281474976710655);
        assert(TRIANGULATIONS_FOR_MARCHING_CUBES[253] as int == ENTRY_PLACES[3] as int * 281474976710655 + 265);
        lemma_tri_entry_value(253, 3, 281474976710655, 15, 265, 17592186044415);
    } else if config == 251 {
        assert(TRIANGULATIONS_FOR_MARCHING_CUBES[251] as int == ENTRY_PLACES[0] as int * 1152921504606843298 + 0);
        lemma_tri_entry_value(251, 0, 1152921504606843298, 2, 0, 72057594037927706);
        assert(TRIANGULATIONS_FOR_MARCHING_CUBES[251] as int == ENTRY_PLACES[1] as int * 72057594037927706 + 2);
        lemma_tri_entry_value(251, 1, 72057594037927706, 10, 2, 4503599627370481);
        assert(TRIANGULATIONS_FOR_MARCHING_CUBES[251] as int == ENTRY_PLACES[2] as int * 4503599627370481 + 162);
        lemma_tri_entry_value(251, 2, 4503599627370481, 1, 162, 281474976710655);
        assert(TRIANGULATIONS_FOR_MARCHING_CUBES[251] as int == ENTRY_PLACES[3] as int * 281474976710655 + 418);
        lemma_tri_entry_value(251, 3, 281474976710655, 15, 418, 17592186044415);
    } else if config == 247 {
        assert(TRIANGULATIONS_FOR_MARCHING_CUBES[247] as int == ENTRY_PLACES[0] as int * 1152921504606843691 + 0);
        lemma_tri_entry_value(247, 0, 1152921504606843691, 11, 0, 72057594037927730);
        assert(TRIANGULATIONS_FOR_MARCHING_CUBES[247] as int == ENTRY_PLACES[1] as int * 72057594037927730 + 11);
        lemma_tri_entry_value(247, 1, 72057594037927730, 2, 11, 4503599627370483);
        assert(TRIANGULATIONS_FOR_MARCHING_CUBES[247] as int == ENTRY_PLACES[2] as int * 4503599627370483 + 43);
        lemma_tri_entry_value(247, 2, 4503599627370483, 3, 43, 281474976710655);
        assert(TRIANGULATIONS_FOR_MARCHING_CUBES[247] as int == ENTRY_PLACES[3] as int * 281474976710655 + 811);
        lemma_tri_entry_value(247, 3, 281474976710655, 15, 811, 17592186044415);
    } else if config == 239 {
        assert(TRIANGULATIONS_FOR_MARCHING_CUBES[239] as int == ENTRY_PLACES[0] as int * 1152921504606844744 + 0);
        lemma_tri_entry_value(239, 0, 1152921504606844744, 8, 0, 72057594037927796);
        assert(TRIANGULATIONS_FOR_MARCHING_CUBES[239] as int == ENTRY_PLACES[1] as int * 72057594037927796 + 8);
        lemma_tri_entry_value(239, 1, 72057594037927796, 4, 8, 4503599627370487);
        assert(TRIANGULATIONS_FOR_MARCHING_CUBES[239] as int == ENTRY_PLACES[2] as int * 4503599627370487 + 72);
        lemma_tri_entry_value(239, 2, 4503599627370487, 7, 72, 281474976710655);
        assert(TRIANGULATIONS_FOR_MARCHING_CUBES[239] as int == ENTRY_PLACES[3] as int * 281474976710655 + 1864);
        lemma_tri_entry_value(239, 3, 281474976710655, 15, 1864, 17592186044415);
    } else if config == 223 {
        assert(TRIANGULATIONS_FOR_MARCHING_CUBES[223] as int == ENTRY_PLACES[0] as int * 1152921504606844308 + 0);
        lemma_tri_entry_value(223, 0, 1152921504606844308, 4, 0, 72057594037927769);
        assert(TRIANGULATIONS_FOR_MARCHING_CUBES[223] as int == ENTRY_PLACES[1] as int * 72057594037927769 + 4);
        lemma_tri_entry_value(223, 1, 72057594037927769, 9, 4, 4503599627370485);
        assert(TRIANGULATIONS_FOR_MARCHING_CUBES[223] as int == ENTRY_PLACES[2] as int * 4503599627370485 + 148);
        lemma_tri_entry_value(223, 2, 4503599627370485, 5, 148, 281474976710655);
        assert(TRIANGULATIONS_FOR_MARCHING_CUBES[223] as int == ENTRY_PLACES[3] as int * 281474976710655 + 1428);
        lemma_tri_entry_value(223, 3, 281474976710655, 15, 1428, 17592186044415);
    } else if config == 191 {
        assert(TRIANGULATIONS_FOR_MARCHING_CUBES[191] as int == ENTRY_PLACES[0] as int * 1152921504606844266 + 0);
        lemma_tri_entry_value(191, 0, 1152921504606844266, 10, 0, 72057594037927766);
        assert(TRIANGULATIONS_FOR_MARCHING_CUBES[191] as int == ENTRY_PLACES[1] as int * 72057594037927766 + 10);
        lemma_tri_entry_value(191, 1, 72057594037927766, 6, 10, 4503599627370485);
        assert(TRIANGULATIONS_FOR_MARCHING_CUBES[191] as int == ENTRY_PLACES[2] as int * 4503599627370485 + 106);
        lemma_tri_entry_value(191, 2, 4503599627370485, 5, 106, 281474976710655);
        assert(TRIANGULATIONS_FOR_MARCHING_CUBES[191] as int == ENTRY_PLACES[3] as int * 281474976710655 + 1386);
        lemma_tri_entry_value(191, 3, 281474976710655, 15, 1386, 17592186044415);
    } else {
        assert(TRIANGULATIONS_FOR_MARCHING_CUBES[127] as int == ENTRY_PLACES[0] as int * 1152921504606844854 + 0);
        lemma_tri_entry_value(127, 0, 1152921504606844854, 6, 0, 72057594037927803);
        assert(TRIANGULATIONS_FOR_MARCHING_CUBES[127] as int == ENTRY_PLACES[1] as int * 72057594037927803 + 6);
        lemma_tri_entry_value(127, 1, 72057594037927803, 11, 6, 4503599627370487);
        assert(TRIANGULATIONS_FOR_MARCHING_CUBES[127] as int == ENTRY_PLACES[2] as int * 4503599627370487 + 182);
        lemma_tri_entry_value(127, 2, 4503599627370487, 7, 182, 281474976710655);
        assert(TRIANGULATIONS_FOR_MARCHING_CUBES[127] as int == ENTRY_PLACES[3] as int * 281474976710655 + 1974);
        lemma_tri_entry_value(127, 3, 281474976710655, 15, 1974, 17592186044415);
    }
}

/// A unit cube with exactly one corner on the other side of the surface
/// emits exactly one triangle: three vertices, in the consistent winding
/// the table lists.
#[verifier::rlimit(60)]
pub proof fn lemma_single_corner_emits_one_triangle(
    data: Seq<i64>,
    res: int,
    x: int,
    y: int,
    z: int,
    c: int,
)
    requires
        0 <= c < 8,
        forall|i: int|
            0 <= i < 8 && i != c ==> ((corner_sample(data, res, x, y, z, i) < 0) <==> !(
            corner_sample(data, res, x, y, z, c) < 0)),
    ensures
        march_cube_spec(data, res, x, y, z).len() == 3,
{
    let config = config_index(data, res, x, y, z);
    assert forall|i: int| 0 <= i < 8 implies corner_bit(data, res, x, y, z, i) == (if i == c {
        corner_bit(data, res, x, y, z, c)
    } else {
        1 - corner_bit(data, res, x, y, z, c)
    }) by {
        assert(0 <= i < 8);
    }
    if corner_sample(data, res, x, y, z, c) < 0 {
        // the lone solid corner sets exactly one bit
        assert(config == if c == 0 {
            1int
        } else if c == 1 {
            2int
        } else if c == 2 {
            4int
        } else if c == 3 {
            8int
        } else if c == 4 {
            16int
        } else if c == 5 {
            32int
        } else if c == 6 {
            64int
        } else {
            128int
        });
        lemma_solid_corner_rows(config);
    } else {
        // the lone empty corner clears exactly one bit
        assert(config == if c == 0 {
            254int
        } else if c == 1 {
            253int
        } else if c == 2 {
            251int
        } else if c == 3 {
            247int
        } else if c == 4 {
            239int
        } else if c == 5 {
            223int
        } else if c == 6 {
            191int
        } else {
            127int
        });
        lemma_empty_corner_rows(config);
    }
    lemma_one_live_slot_emits_one_triangle(data, res, x, y, z);
}

/// [`lemma_edge_vertex_bounds`], across a whole triangle listing: a cube's
/// vertices never leave the unit cube that emitted them.
pub proof fn lemma_emitted_from_bounds(data: Seq<i64>, res: int, x: int, y: int, z: int, k: int)
    requires
        0 <= k <= 5,
        0 <= x < MAX_GRID_RESOLUTION,
        0 <= y < MAX_GRID_RESOLUTION,
        0 <= z < MAX_GRID_RESOLUTION,
    ensures
        forall|i: int|
            0 <= i < emitted_from(data, res, x, y, z, k).len() ==> {
                let v = #[trigger] emitted_from(data, res, x, y, z, k)[i];
                &&& x * FP_ONE <= v.x <= (x + 1) * FP_ONE
                &&& y * FP_ONE <= v.y <= (y + 1) * FP_ONE
                &&& z * FP_ONE <= v.z <= (z + 1) * FP_ONE
            },
    decreases 5 - k,
{
    if k < 5 {
        let config = config_index(data, res, x, y, z);
        if triangle_live(config, k) {
            lemma_emitted_from_bounds(data, res, x, y, z, k + 1);
            lemma_tri_entry_range(config, 3 * k);
            lemma_tri_entry_range(config, 3 * k + 1);
            lemma_tri_entry_range(config, 3 * k + 2);
            lemma_edge_vertex_bounds(data, res, x, y, z, tri_entry(config, 3 * k));
            lemma_edge_vertex_bounds(data, res, x, y, z, tri_entry(config, 3 * k + 1));
            lemma_edge_vertex_bounds(data, res, x, y, z, tri_entry(config, 3 * k + 2));
            let cur = emitted_from(data, res, x, y, z, k);
            let rest = emitted_from(data, res, x, y, z, k + 1);
            assert forall|i: int| 0 <= i < cur.len() implies {
                let v = #[trigger] cur[i];
                &&& x * FP_ONE <= v.x <= (x + 1) * FP_ONE
                &&& y * FP_ONE <= v.y <= (y + 1) * FP_ONE
                &&& z * FP_ONE <= v.z <= (z + 1) * FP_ONE
            } by {
                if i >= 3 {
                    assert(cur[i] == rest[i - 3]);
                }
            }
        }
    }
}

} // verus!
