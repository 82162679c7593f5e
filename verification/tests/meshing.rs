//! End-to-end tests of the meshing pipeline: grids, single cubes, whole
//! chunk meshes and their watertightness.

use std::collections::HashMap;
use voxel_engine::chunk::{ResolutionOfTheGrid, VoxelChunk, SIZE_CHUNK_FP};
use voxel_engine::field::{DensityField, HalfSpaceField, SphereDensityField};
use voxel_engine::grid::{VoxelError, VoxelGrid};
use voxel_engine::marching::{interpolation_parameter, march_cube, polygon_normal};
use voxel_engine::math::{floor_div_i128, isqrt_u128, FixedVec3, FP_ONE};

fn filled_grid(resolution: usize, values: &[i64]) -> VoxelGrid {
    let mut grid = VoxelGrid::new(resolution).unwrap();
    for &v in values {
        grid.push(v);
    }
    grid
}

#[test]
fn zero_resolution_is_rejected() {
    assert_eq!(
        ResolutionOfTheGrid::new(0).err(),
        Some(VoxelError::InvalidResolution)
    );
    assert!(VoxelGrid::new(0).is_err());
    assert!(ResolutionOfTheGrid::new(8).is_ok());
}

#[test]
fn grid_read_matches_fill_order_and_rejects_out_of_range() {
    let grid = filled_grid(2, &[10, 11, 12, 13, 14, 15, 16, 17]);
    assert_eq!(grid.read(0, 0, 0).unwrap(), 10);
    assert_eq!(grid.read(1, 0, 0).unwrap(), 11);
    assert_eq!(grid.read(0, 1, 0).unwrap(), 12);
    assert_eq!(grid.read(0, 0, 1).unwrap(), 14);
    assert_eq!(grid.read(1, 1, 1).unwrap(), 17);
    assert_eq!(grid.read(2, 0, 0).err(), Some(VoxelError::IndexOutOfRange));
    assert_eq!(grid.read(0, 5, 0).err(), Some(VoxelError::IndexOutOfRange));
}

#[test]
fn uniform_sign_cube_emits_no_triangles() {
    let solid = filled_grid(2, &[-5; 8]);
    let empty = filled_grid(2, &[5; 8]);
    let mut positions: Vec<FixedVec3> = Vec::new();
    march_cube((0, 0, 0), &solid, &mut positions);
    assert!(positions.is_empty());
    march_cube((0, 0, 0), &empty, &mut positions);
    assert!(positions.is_empty());
}

#[test]
fn single_solid_corner_emits_one_triangle() {
    let grid = filled_grid(2, &[-1, 1, 1, 1, 1, 1, 1, 1]);
    let mut positions: Vec<FixedVec3> = Vec::new();
    march_cube((0, 0, 0), &grid, &mut positions);
    assert_eq!(
        positions,
        vec![
            FixedVec3 { x: 0, y: 32768, z: 0 },
            FixedVec3 { x: 0, y: 0, z: 32768 },
            FixedVec3 { x: 32768, y: 0, z: 0 },
        ]
    );
}

#[test]
fn single_empty_corner_emits_one_triangle() {
    let grid = filled_grid(2, &[1, -1, -1, -1, -1, -1, -1, -1]);
    let mut positions: Vec<FixedVec3> = Vec::new();
    march_cube((0, 0, 0), &grid, &mut positions);
    assert_eq!(positions.len(), 3);
}

#[test]
fn interpolation_parameter_is_exact() {
    assert_eq!(interpolation_parameter(-1, 1), 32768);
    assert_eq!(interpolation_parameter(-3, 1), 49152);
    assert_eq!(interpolation_parameter(5, -3), 40960);
    assert_eq!(interpolation_parameter(0, -5), 0);
    // degenerate edge: equal samples pin the crossing to the first endpoint
    assert_eq!(interpolation_parameter(2, 2), 0);
}

#[test]
fn polygon_normal_is_the_cross_product() {
    let v0 = FixedVec3 { x: 0, y: 0, z: 0 };
    let v1 = FixedVec3 { x: 1, y: 0, z: 0 };
    let v2 = FixedVec3 { x: 0, y: 1, z: 0 };
    assert_eq!(polygon_normal(&v0, &v1, &v2), FixedVec3 { x: 0, y: 0, z: 1 });
}

#[test]
fn integer_square_root_brackets() {
    assert_eq!(isqrt_u128(0), 0);
    assert_eq!(isqrt_u128(15), 3);
    assert_eq!(isqrt_u128(16), 4);
    assert_eq!(isqrt_u128(u128::MAX), u64::MAX);
}

#[test]
fn flooring_division_rounds_down() {
    assert_eq!(floor_div_i128(7, 2), 3);
    assert_eq!(floor_div_i128(-7, 2), -4);
    assert_eq!(floor_div_i128(-8, 2), -4);
    assert_eq!(floor_div_i128(0, 5), 0);
}

#[test]
fn world_positions_map_to_chunk_coordinates() {
    let v = FixedVec3 {
        x: -1,
        y: 32 * FP_ONE,
        z: 32 * FP_ONE - 1,
    };
    assert_eq!(VoxelChunk::get_chunk_coordinates_from_global(v), [-1, 1, 0]);
    assert_eq!(VoxelChunk::size_chunk(), 32);
}

#[test]
fn half_space_mesh_is_a_flat_quad_at_the_surface() {
    let field = HalfSpaceField { height: FP_ONE / 2 };
    let mut chunk = VoxelChunk::new([0, 0, 0]);
    let mesh = chunk.return_chunk_mesh(&field, ResolutionOfTheGrid::new(2).unwrap());
    assert_eq!(mesh.positions.len(), 6);
    for p in &mesh.positions {
        // the plane sits halfway up the chunk: world y = 16 of 32 units
        assert_eq!(p.y, 16 * FP_ONE);
        assert!(p.x == 0 || p.x == SIZE_CHUNK_FP);
        assert!(p.z == 0 || p.z == SIZE_CHUNK_FP);
    }
    // every normal points straight up, out of the solid half below
    for n in &mesh.normals {
        assert!(n.x == 0 && n.y > 0 && n.z == 0);
    }
}

#[test]
fn chunk_meshes_start_at_the_chunk_world_origin() {
    // a full-height solid floor in chunk (1, 0, 2): its quad's least corner
    // is the chunk's world origin, coordinate * chunk size
    let field = HalfSpaceField { height: FP_ONE / 2 };
    let mut chunk = VoxelChunk::new([1, 0, 2]);
    let mesh = chunk.return_chunk_mesh(&field, ResolutionOfTheGrid::new(2).unwrap());
    let min_x = mesh.positions.iter().map(|p| p.x).min().unwrap();
    let min_z = mesh.positions.iter().map(|p| p.z).min().unwrap();
    assert_eq!(min_x, 1 * SIZE_CHUNK_FP);
    assert_eq!(min_z, 2 * SIZE_CHUNK_FP);
}

#[test]
fn meshing_is_deterministic() {
    let field = SphereDensityField {
        center: FixedVec3 {
            x: 2 * FP_ONE + FP_ONE / 2,
            y: -FP_ONE + FP_ONE / 2,
            z: 3 * FP_ONE + FP_ONE / 2,
        },
        radius: 10 * FP_ONE / 32,
    };
    let mut chunk = VoxelChunk::new([2, -1, 3]);
    let first = chunk.return_chunk_mesh(&field, ResolutionOfTheGrid::new(8).unwrap());
    let second = chunk.return_chunk_mesh(&field, ResolutionOfTheGrid::new(8).unwrap());
    assert!(!first.positions.is_empty());
    assert_eq!(first.positions, second.positions);
    assert_eq!(first.normals, second.normals);
    assert_eq!(first.uvs, second.uvs);
    assert_eq!(first.indices, second.indices);
}

fn check_buffers(mesh: &voxel_engine::chunk::Mesh) {
    assert_eq!(mesh.positions.len() % 3, 0);
    assert_eq!(mesh.normals.len(), mesh.positions.len());
    assert_eq!(mesh.uvs.len(), mesh.positions.len());
    assert_eq!(mesh.indices.len(), mesh.positions.len());
    for (i, &ix) in mesh.indices.iter().enumerate() {
        assert_eq!(ix as usize, i);
    }
    for uv in &mesh.uvs {
        assert_eq!((uv.u, uv.v), (0, 0));
    }
}

fn count_edges(
    edges: &mut HashMap<((i64, i64, i64), (i64, i64, i64)), u32>,
    positions: &[FixedVec3],
) {
    for t in positions.chunks(3) {
        let a = (t[0].x, t[0].y, t[0].z);
        let b = (t[1].x, t[1].y, t[1].z);
        let c = (t[2].x, t[2].y, t[2].z);
        if a == b || b == c || a == c {
            continue;
        }
        for (u, v) in [(a, b), (b, c), (c, a)] {
            let key = if u < v { (u, v) } else { (v, u) };
            *edges.entry(key).or_insert(0) += 1;
        }
    }
}

#[test]
fn sphere_inside_one_chunk_meshes_closed() {
    // signed distance to a sphere of radius 10 world units (10/32 chunk
    // units), centred in the middle of chunk (0, 0, 0), meshed at tier 8
    let field = SphereDensityField {
        center: FixedVec3 { x: FP_ONE / 2, y: FP_ONE / 2, z: FP_ONE / 2 },
        radius: 10 * FP_ONE / 32,
    };
    let mut chunk = VoxelChunk::new([0, 0, 0]);
    let mesh = chunk.return_chunk_mesh(&field, ResolutionOfTheGrid::new(8).unwrap());
    assert_eq!(mesh.positions.len(), 564);
    check_buffers(&mesh);
    let mut edges = HashMap::new();
    count_edges(&mut edges, &mesh.positions);
    assert!(edges.values().all(|&n| n == 2));
    // flat normals point away from the solid interior
    let center = 16 * FP_ONE;
    for t in mesh.positions.chunks(3) {
        let n = polygon_normal(&t[0], &t[1], &t[2]);
        let cx = (t[0].x + t[1].x + t[2].x) / 3 - center;
        let cy = (t[0].y + t[1].y + t[2].y) / 3 - center;
        let cz = (t[0].z + t[1].z + t[2].z) / 3 - center;
        assert!((n.x as i128) * (cx as i128) + (n.y as i128) * (cy as i128)
            + (n.z as i128) * (cz as i128) > 0);
    }
}

#[test]
fn sphere_at_a_chunk_origin_meshes_closed_across_chunks() {
    // signed distance to a sphere of radius 10 world units centred at the
    // world origin of chunk (0, 0, 0); the eight chunks meeting that corner
    // together carry a closed surface because meshing is exact
    let field = SphereDensityField {
        center: FixedVec3 { x: 0, y: 0, z: 0 },
        radius: 10 * FP_ONE / 32,
    };
    let mut total = 0;
    let mut edges = HashMap::new();
    for cx in [-1, 0] {
        for cy in [-1, 0] {
            for cz in [-1, 0] {
                let mut chunk = VoxelChunk::new([cx, cy, cz]);
                let mesh = chunk.return_chunk_mesh(&field, ResolutionOfTheGrid::new(8).unwrap());
                check_buffers(&mesh);
                total += mesh.positions.len();
                count_edges(&mut edges, &mesh.positions);
            }
        }
    }
    assert_eq!(total, 456);
    assert!(edges.values().all(|&n| n == 2));
}

#[test]
fn chunk_coordinates_round_trip() {
    let mut chunk = VoxelChunk::new([7, -3, 11]);
    assert_eq!(chunk.coordinates(), &[7, -3, 11]);
    chunk.coordinates_set([-2, 0, 5]);
    assert_eq!(chunk.coordinates(), &[-2, 0, 5]);
    assert_eq!(VoxelChunk::default().coordinates(), &[0, 0, 0]);
    assert_eq!(ResolutionOfTheGrid::new(16).unwrap().value(), 16);
}

#[test]
fn density_field_sign_convention() {
    let field = SphereDensityField {
        center: FixedVec3 { x: 0, y: 0, z: 0 },
        radius: FP_ONE,
    };
    assert!(field.density(FixedVec3 { x: 0, y: 0, z: 0 }) < 0);
    assert!(field.density(FixedVec3 { x: 3 * FP_ONE, y: 0, z: 0 }) > 0);
    assert_eq!(field.density(FixedVec3 { x: FP_ONE, y: 0, z: 0 }), 0);
}
