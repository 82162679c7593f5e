//! The chunk streaming controller.
//!
//! The streamer owns a registry of tracked chunk coordinates, each in
//! exactly one state, and two tick accumulators. On a fixed cadence it
//! seeds the initial coordinate range, and then, sweep by sweep, decides
//! per chunk from its distance to the viewer whether its mesh should be
//! (re)generated at some resolution tier or torn down. The streamer never
//! holds mesh data: it hands build and evict commands to its caller, which
//! owns meshing and rendering.

use crate::chunk::{VoxelChunk, COORD_LIMIT, MAX_MESH_RESOLUTION, SIZE_CHUNK, SIZE_CHUNK_FP};
use crate::math::FixedVec3;
use vstd::prelude::*;

verus! {

/// The generation state of one tracked chunk: either no mesh, or a mesh
/// generated at some resolution tier.
#[derive(Clone, Copy, PartialEq, Eq, Structural, Debug)]
pub enum ChunkState {
    NotGenerated,
    Generated(u64),
}

/// One tracked chunk: a lattice coordinate and its current state.
#[derive(Clone, Copy, PartialEq, Eq, Debug)]
pub struct TrackedChunk {
    pub coordinates: [i128; 3],
    pub state: ChunkState,
}

/// What the caller must do for one chunk after a sweep: build its mesh at a
/// tier, or tear its mesh down.
#[derive(Clone, Copy, PartialEq, Eq, Debug)]
pub enum MeshCommand {
    Generate { coordinates: [i128; 3], resolution: u64 },
    Evict { coordinates: [i128; 3] },
}

/// The streamer's configuration surface, fixed at construction.
#[derive(Clone, Copy, PartialEq, Eq, Debug)]
pub struct StreamerConfig {
    /// World units per chunk.
    pub chunk_size: u16,
    /// How far, in world units, a chunk may be from the viewer and still
    /// carry a mesh.
    pub max_view_distance: u32,
    /// Resolution tier for the nearest band.
    pub high_resolution: u64,
    /// Resolution tier for the middle band.
    pub medium_resolution: u64,
    /// Resolution tier for the farthest band.
    pub low_resolution: u64,
    /// Fixed-point seconds between LOD/eviction sweeps.
    pub generation_interval: i64,
    /// Fixed-point seconds before the initial population.
    pub population_interval: i64,
    /// Smallest seeded chunk coordinate, per axis.
    pub seed_min: [i128; 3],
    /// Largest seeded chunk coordinate, per axis.
    pub seed_max: [i128; 3],
}

/// The largest seeded extent per axis.
pub const MAX_SEED_EXTENT: i128 = 1024;

impl StreamerConfig {
    /// What every configuration must satisfy: a positive chunk size and
    /// intervals, bounded tiers, distance and seed ranges.
    pub open spec fn well_formed(&self) -> bool {
        &&& 1 <= self.chunk_size
        &&& 1 <= self.max_view_distance
        &&& 1 <= self.high_resolution <= MAX_MESH_RESOLUTION
        &&& 1 <= self.medium_resolution <= MAX_MESH_RESOLUTION
        &&& 1 <= self.low_resolution <= MAX_MESH_RESOLUTION
        &&& 1 <= self.generation_interval <= 0x7fffffff
        &&& 1 <= self.population_interval <= 0x7fffffff
        &&& forall|i: int|
            0 <= i < 3 ==> {
                &&& -COORD_LIMIT <= #[trigger] self.seed_min[i] <= COORD_LIMIT
                &&& -COORD_LIMIT <= self.seed_max[i] <= COORD_LIMIT
                &&& self.seed_min[i] <= self.seed_max[i]
                &&& self.seed_max[i] - self.seed_min[i] < MAX_SEED_EXTENT
            }
    }
}

impl Default for StreamerConfig {
    /// The reference configuration: 32-unit chunks, a 3000-unit view
    /// distance, tiers 32/16/8, a sweep about every 25/60 s, population
    /// after 1 s, and a seeded slab 201 chunks wide and 11 chunks tall.
    fn default() -> (r: StreamerConfig)
        ensures
            r.chunk_size == SIZE_CHUNK,
            r.max_view_distance == 3000,
            r.high_resolution == 32,
            r.medium_resolution == 16,
            r.low_resolution == 8,
            r.generation_interval == 27307,
            r.population_interval == 65536,
            r.seed_min == [-100i128, -5i128, -100i128],
            r.seed_max == [100i128, 5i128, 100i128],
            r.well_formed(),
    {
        let r = StreamerConfig {
            chunk_size: SIZE_CHUNK,
            max_view_distance: 3000,
            high_resolution: 32,
            medium_resolution: 16,
            low_resolution: 8,
            generation_interval: 27307,
            population_interval: 65536,
            seed_min: [-100, -5, -100],
            seed_max: [100, 5, 100],
        };
        proof {
            assert(r.seed_min[0] == -100 && r.seed_min[1] == -5 && r.seed_min[2] == -100);
            assert(r.seed_max[0] == 100 && r.seed_max[1] == 5 && r.seed_max[2] == 100);
        }
        r
    }
}

/// The squared distance between two chunk coordinates, in chunk units.
pub open spec fn squared_chunk_distance(a: [i128; 3], b: [i128; 3]) -> int {
    (a[0] - b[0]) * (a[0] - b[0]) + (a[1] - b[1]) * (a[1] - b[1]) + (a[2] - b[2]) * (a[2] - b[2])
}

/// The resolution tier a chunk at squared chunk-unit distance `d_sq` from
/// the viewer should carry, or `None` when it is out of view and its mesh
/// is torn down.
///
/// With `D = max_view_distance / chunk_size` (the view distance in chunk
/// units) and `d` the true distance, the bands are `d <= D/4` (high tier),
/// `D/4 < d <= 3D/4` (medium), `3D/4 < d <= D` (low) and `d > D` (evict).
/// The comparisons below are those bands squared and cleared of fractions,
/// so they are exact over the integers.
pub open spec fn desired_resolution_spec(cfg: StreamerConfig, d_sq: int) -> Option<u64> {
    let cs = cfg.chunk_size as int;
    let mvd = cfg.max_view_distance as int;
    if 16 * d_sq * (cs * cs) <= mvd * mvd {
        Some(cfg.high_resolution)
    } else if 16 * d_sq * (cs * cs) <= 9 * (mvd * mvd) {
        Some(cfg.medium_resolution)
    } else if d_sq * (cs * cs) <= mvd * mvd {
        Some(cfg.low_resolution)
    } else {
        None
    }
}

/// The state a tracked chunk moves to under the policy.
pub open spec fn next_state(cfg: StreamerConfig, st: ChunkState, d_sq: int) -> ChunkState {
    match desired_resolution_spec(cfg, d_sq) {
        Some(t) => ChunkState::Generated(t),
        None => ChunkState::NotGenerated,
    }
}

/// What one sweep does to one tracked chunk.
pub open spec fn swept_chunk(cfg: StreamerConfig, chunk: TrackedChunk, viewer: [i128; 3]) -> TrackedChunk {
    TrackedChunk {
        coordinates: chunk.coordinates,
        state: next_state(cfg, chunk.state, squared_chunk_distance(viewer, chunk.coordinates)),
    }
}

/// The command one sweep emits for one tracked chunk: a build when its tier
/// changes (from nothing or from another tier), an evict when it leaves
/// view, nothing when its state already matches.
pub open spec fn command_for(cfg: StreamerConfig, chunk: TrackedChunk, viewer: [i128; 3]) -> Option<MeshCommand> {
    let d_sq = squared_chunk_distance(viewer, chunk.coordinates);
    match desired_resolution_spec(cfg, d_sq) {
        Some(t) => if chunk.state == ChunkState::Generated(t) {
            None
        } else {
            Some(MeshCommand::Generate { coordinates: chunk.coordinates, resolution: t })
        },
        None => match chunk.state {
            ChunkState::Generated(_) => Some(MeshCommand::Evict { coordinates: chunk.coordinates }),
            ChunkState::NotGenerated => None,
        },
    }
}

/// A whole sweep's new registry.
pub open spec fn swept_chunks(cfg: StreamerConfig, chunks: Seq<TrackedChunk>, viewer: [i128; 3]) -> Seq<TrackedChunk> {
    chunks.map_values(|c: TrackedChunk| swept_chunk(cfg, c, viewer))
}

/// A whole sweep's commands, in registry order.
pub open spec fn sweep_commands(cfg: StreamerConfig, chunks: Seq<TrackedChunk>, viewer: [i128; 3]) -> Seq<MeshCommand>
    decreases chunks.len(),
{
    if chunks.len() == 0 {
        Seq::empty()
    } else {
        sweep_commands(cfg, chunks.drop_last(), viewer) + match command_for(
            cfg,
            chunks.last(),
            viewer,
        ) {
            Some(c) => seq![c],
            None => Seq::empty(),
        }
    }
}

/// The viewer's world position floored to a chunk coordinate.
pub open spec fn viewer_chunk(viewer: FixedVec3) -> [i128; 3] {
    [
        (viewer.x as int / SIZE_CHUNK_FP as int) as i128,
        (viewer.y as int / SIZE_CHUNK_FP as int) as i128,
        (viewer.z as int / SIZE_CHUNK_FP as int) as i128,
    ]
}

/// A chunk in view keeps a mesh, a chunk out of view loses it: the policy
/// assigns some tier exactly when the chunk's true distance is within the
/// view distance (squared: `d_sq * chunk_size^2 <= max_view_distance^2`),
/// and eviction is exactly its complement.
pub proof fn lemma_eviction_boundary(cfg: StreamerConfig, d_sq: int)
    requires
        cfg.well_formed(),
        0 <= d_sq,
    ensures
        desired_resolution_spec(cfg, d_sq) is Some <==> d_sq * (cfg.chunk_size as int
            * cfg.chunk_size as int) <= cfg.max_view_distance as int
            * cfg.max_view_distance as int,
        desired_resolution_spec(cfg, d_sq) is None <==> d_sq * (cfg.chunk_size as int
            * cfg.chunk_size as int) > cfg.max_view_distance as int
            * cfg.max_view_distance as int,
{
    let cs = cfg.chunk_size as int;
    let mvd = cfg.max_view_distance as int;
    assert(16 * d_sq * (cs * cs) <= mvd * mvd ==> d_sq * (cs * cs) <= mvd * mvd)
        by (nonlinear_arith)
        requires
            0 <= d_sq,
            1 <= cs,
            1 <= mvd,
    {
    }
    assert(16 * d_sq * (cs * cs) <= 9 * (mvd * mvd) ==> d_sq * (cs * cs) <= mvd * mvd)
        by (nonlinear_arith)
        requires
            0 <= d_sq,
            1 <= cs,
            1 <= mvd,
    {
    }
}

/// Computes [`squared_chunk_distance`] exactly.
fn squared_chunk_distance_exec(a: [i128; 3], b: [i128; 3]) -> (d: i128)
    requires
        forall|i: int| 0 <= i < 3 ==> -0x40000000000 <= #[trigger] a[i] <= 0x40000000000,
        forall|i: int| 0 <= i < 3 ==> -0x40000000000 <= #[trigger] b[i] <= 0x40000000000,
    ensures
        d == squared_chunk_distance(a, b),
        0 <= d <= 0xc000000000000000000000,
{
    proof {
        assert(a[0] == a[0] && a[1] == a[1] && a[2] == a[2]);
        assert(b[0] == b[0] && b[1] == b[1] && b[2] == b[2]);
    }
    let dx: i128 = a[0] - b[0];
    let dy: i128 = a[1] - b[1];
    let dz: i128 = a[2] - b[2];
    proof {
        assert(0 <= dx * dx <= 0x4000000000000000000000 && 0 <= dy * dy
            <= 0x4000000000000000000000 && 0 <= dz * dz <= 0x4000000000000000000000)
            by (nonlinear_arith)
            requires
                -0x80000000000 <= dx <= 0x80000000000,
                -0x80000000000 <= dy <= 0x80000000000,
                -0x80000000000 <= dz <= 0x80000000000,
        {
        }
    }
    dx * dx + dy * dy + dz * dz
}

/// Computes [`desired_resolution_spec`] exactly.
fn desired_resolution(cfg: &StreamerConfig, d_sq: i128) -> (r: Option<u64>)
    requires
        cfg.well_formed(),
        0 <= d_sq <= 0xc000000000000000000000,
    ensures
        r == desired_resolution_spec(*cfg, d_sq as int),
{
    let cs: i128 = cfg.chunk_size as i128;
    let mvd: i128 = cfg.max_view_distance as i128;
    proof {
        assert(0 <= cs * cs <= 0x100000000 && 0 <= 16 * d_sq * (cs * cs)
            <= 0xc000000000000000000000 * 16 * 0x100000000 && 0 <= d_sq * (cs * cs)
            <= 0xc000000000000000000000 * 0x100000000 && 0 <= mvd * mvd <= 0x10000000000000000)
            by (nonlinear_arith)
            requires
                0 <= d_sq <= 0xc000000000000000000000,
                1 <= cs <= 0x10000,
                0 <= mvd <= 0x100000000,
        {
        }
    }
    let near: i128 = 16 * d_sq * (cs * cs);
    let limit: i128 = mvd * mvd;
    if near <= limit {
        Some(cfg.high_resolution)
    } else if near <= 9 * limit {
        Some(cfg.medium_resolution)
    } else if d_sq * (cs * cs) <= limit {
        Some(cfg.low_resolution)
    } else {
        None
    }
}

/// The seeded registry: every coordinate of the configured range, `x`
/// varying fastest, then `y`, then `z`, all `NotGenerated`.
pub open spec fn seeded_chunks(cfg: StreamerConfig) -> Seq<TrackedChunk> {
    let nx = cfg.seed_max[0] - cfg.seed_min[0] + 1;
    let ny = cfg.seed_max[1] - cfg.seed_min[1] + 1;
    let nz = cfg.seed_max[2] - cfg.seed_min[2] + 1;
    Seq::new(
        (nx * ny * nz) as nat,
        |n: int|
            TrackedChunk {
                coordinates: [
                    (cfg.seed_min[0] + n % nx) as i128,
                    (cfg.seed_min[1] + (n / nx) % ny) as i128,
                    (cfg.seed_min[2] + n / (nx * ny)) as i128,
                ],
                state: ChunkState::NotGenerated,
            },
    )
}

/// The seeded registry tracks every coordinate exactly once: the flat index
/// decomposition is injective over the configured box.
pub proof fn lemma_seeded_coordinates_distinct(cfg: StreamerConfig)
    requires
        cfg.well_formed(),
    ensures
        forall|i: int, j: int|
            0 <= i < j < seeded_chunks(cfg).len() ==> #[trigger] seeded_chunks(cfg)[i].coordinates
                != #[trigger] seeded_chunks(cfg)[j].coordinates,
{
    let nx = cfg.seed_max[0] - cfg.seed_min[0] + 1;
    let ny = cfg.seed_max[1] - cfg.seed_min[1] + 1;
    let nz = cfg.seed_max[2] - cfg.seed_min[2] + 1;
    assert(1 <= cfg.seed_max[0] - cfg.seed_min[0] + 1);
    assert(1 <= cfg.seed_max[1] - cfg.seed_min[1] + 1);
    assert(1 <= cfg.seed_max[2] - cfg.seed_min[2] + 1);
    assert forall|i: int, j: int|
        0 <= i < j < seeded_chunks(cfg).len() implies #[trigger] seeded_chunks(
        cfg,
    )[i].coordinates != #[trigger] seeded_chunks(cfg)[j].coordinates by {
        if seeded_chunks(cfg)[i].coordinates == seeded_chunks(cfg)[j].coordinates {
            assert(seeded_chunks(cfg)[i].coordinates[0] == seeded_chunks(cfg)[j].coordinates[0]);
            assert(seeded_chunks(cfg)[i].coordinates[1] == seeded_chunks(cfg)[j].coordinates[1]);
            assert(seeded_chunks(cfg)[i].coordinates[2] == seeded_chunks(cfg)[j].coordinates[2]);
            vstd::arithmetic::div_mod::lemma_mod_bound(i, nx);
            vstd::arithmetic::div_mod::lemma_mod_bound(j, nx);
            vstd::arithmetic::div_mod::lemma_mod_bound(i / nx, ny);
            vstd::arithmetic::div_mod::lemma_mod_bound(j / nx, ny);
            assert(1 <= nx * ny && nx * ny * nz <= 0x40000000 && (nx * ny) * nz == nx * ny * nz)
                by (nonlinear_arith)
                requires
                    1 <= nx <= 1024,
                    1 <= ny <= 1024,
                    1 <= nz <= 1024,
            {
            }
            vstd::arithmetic::div_mod::lemma_div_pos_is_pos(i, nx * ny);
            vstd::arithmetic::div_mod::lemma_div_pos_is_pos(j, nx * ny);
            vstd::arithmetic::div_mod::lemma_div_is_ordered(i, nx * ny * nz - 1, nx * ny);
            vstd::arithmetic::div_mod::lemma_div_is_ordered(j, nx * ny * nz - 1, nx * ny);
            assert((nx * ny * nz - 1) / (nx * ny) <= nz - 1) by (nonlinear_arith)
                requires
                    1 <= nx <= 1024,
                    1 <= ny <= 1024,
                    1 <= nz <= 1024,
            {
            }
            assert(i % nx == j % nx);
            assert((i / nx) % ny == (j / nx) % ny);
            assert(i / (nx * ny) == j / (nx * ny));
            vstd::arithmetic::div_mod::lemma_fundamental_div_mod(i, nx);
            vstd::arithmetic::div_mod::lemma_fundamental_div_mod(j, nx);
            vstd::arithmetic::div_mod::lemma_fundamental_div_mod(i / nx, ny);
            vstd::arithmetic::div_mod::lemma_fundamental_div_mod(j / nx, ny);
            vstd::arithmetic::div_mod::lemma_div_denominator(i, nx, ny);
            vstd::arithmetic::div_mod::lemma_div_denominator(j, nx, ny);
            assert(i == j) by (nonlinear_arith)
                requires
                    i == nx * (i / nx) + i % nx,
                    j == nx * (j / nx) + j % nx,
                    i / nx == ny * ((i / nx) / ny) + (i / nx) % ny,
                    j / nx == ny * ((j / nx) / ny) + (j / nx) % ny,
                    i % nx == j % nx,
                    (i / nx) % ny == (j / nx) % ny,
                    (i / nx) / ny == (j / nx) / ny,
            {
            }
        }
    }
}

/// A repeating timer's accumulator after a tick: reset when it fired, else
/// advanced.
pub open spec fn stepped_accumulator(acc: int, delta: int, interval: int) -> int {
    if acc + delta >= interval {
        0
    } else {
        acc + delta
    }
}

/// Whether a repeating timer fires on a tick of `delta`.
pub open spec fn timer_fires(acc: int, delta: int, interval: int) -> bool {
    acc + delta >= interval
}

/// The streaming controller: the registry of tracked chunks, its
/// configuration, and the two tick accumulators (initial population and
/// LOD/eviction sweeps).
pub struct ChunkStreamer {
    config: StreamerConfig,
    chunks: Vec<TrackedChunk>,
    populated: bool,
    population_accumulator: i64,
    generation_accumulator: i64,
}

impl ChunkStreamer {
    /// The configuration fixed at construction.
    pub closed spec fn config_spec(&self) -> StreamerConfig {
        self.config
    }

    /// The tracked chunks, in registry order.
    pub closed spec fn chunks_spec(&self) -> Seq<TrackedChunk> {
        self.chunks@
    }

    /// Whether the initial population has happened.
    pub closed spec fn populated_spec(&self) -> bool {
        self.populated
    }

    /// Time accumulated toward the initial population, in fixed-point
    /// seconds.
    pub closed spec fn population_accumulator_spec(&self) -> i64 {
        self.population_accumulator
    }

    /// Time accumulated toward the next LOD/eviction sweep, in fixed-point
    /// seconds.
    pub closed spec fn generation_accumulator_spec(&self) -> i64 {
        self.generation_accumulator
    }

    /// The streamer's invariant: a well-formed configuration, accumulators
    /// below their intervals, every tracked coordinate within the meshable
    /// range, and each coordinate tracked at most once, so a chunk is in
    /// exactly one state at any time.
    pub open spec fn well_formed(&self) -> bool {
        &&& self.config_spec().well_formed()
        &&& 0 <= self.population_accumulator_spec() < self.config_spec().population_interval
        &&& 0 <= self.generation_accumulator_spec() < self.config_spec().generation_interval
        &&& forall|i: int, j: int|
            0 <= i < self.chunks_spec().len() && 0 <= j < 3 ==> -COORD_LIMIT <= #[trigger] self
                .chunks_spec()[i].coordinates[j] <= COORD_LIMIT
        &&& forall|i: int, j: int|
            0 <= i < j < self.chunks_spec().len() ==> #[trigger] self.chunks_spec()[i].coordinates
                != #[trigger] self.chunks_spec()[j].coordinates
    }

    /// A streamer with no tracked chunks and idle timers.
    pub fn new(config: StreamerConfig) -> (r: ChunkStreamer)
        requires
            config.well_formed(),
        ensures
            r.well_formed(),
            r.config_spec() == config,
            r.chunks_spec() == Seq::<TrackedChunk>::empty(),
            !r.populated_spec(),
            r.population_accumulator_spec() == 0,
            r.generation_accumulator_spec() == 0,
    {
        let r = ChunkStreamer {
            config,
            chunks: Vec::new(),
            populated: false,
            population_accumulator: 0,
            generation_accumulator: 0,
        };
        proof {
            assert(r.chunks_spec() =~= Seq::<TrackedChunk>::empty());
        }
        r
    }

    /// The tracked chunks, for callers that render or inspect them.
    pub fn chunks(&self) -> (r: &Vec<TrackedChunk>)
        ensures
            r@ == self.chunks_spec(),
    {
        &self.chunks
    }

    /// Seeds the registry with the configured coordinate range, every chunk
    /// `NotGenerated`, and marks the initial population done.
    pub fn init_chunk_creation(&mut self)
        requires
            old(self).well_formed(),
        ensures
            final(self).well_formed(),
            final(self).config_spec() == old(self).config_spec(),
            final(self).chunks_spec() == seeded_chunks(old(self).config_spec()),
            final(self).populated_spec(),
            final(self).population_accumulator_spec() == old(self).population_accumulator_spec(),
            final(self).generation_accumulator_spec() == old(self).generation_accumulator_spec(),
    {
        let ghost cfg = self.config;
        let ghost goal = seeded_chunks(cfg);
        proof {
            assert(-COORD_LIMIT <= self.config.seed_min[0] <= COORD_LIMIT);
            assert(-COORD_LIMIT <= self.config.seed_min[1] <= COORD_LIMIT);
            assert(-COORD_LIMIT <= self.config.seed_min[2] <= COORD_LIMIT);
            assert(self.config.seed_max[0] - self.config.seed_min[0] < MAX_SEED_EXTENT);
            assert(self.config.seed_max[1] - self.config.seed_min[1] < MAX_SEED_EXTENT);
            assert(self.config.seed_max[2] - self.config.seed_min[2] < MAX_SEED_EXTENT);
        }
        let nx: usize = (self.config.seed_max[0] - self.config.seed_min[0] + 1) as usize;
        let ny: usize = (self.config.seed_max[1] - self.config.seed_min[1] + 1) as usize;
        let nz: usize = (self.config.seed_max[2] - self.config.seed_min[2] + 1) as usize;
        proof {
            assert(nx * ny <= 0x100000 && nx * ny * nz <= 0x40000000 && (nx * ny) * nz == nx * ny
                * nz && nx as int * (ny as int * nz as int) == nx as int * ny as int * nz as int)
                by (nonlinear_arith)
                requires
                    1 <= nx <= 1024,
                    1 <= ny <= 1024,
                    1 <= nz <= 1024,
            {
            }
        }
        let total: usize = nx * ny * nz;
        proof {
            assert(goal.len() == total);
        }
        let mut chunks: Vec<TrackedChunk> = Vec::new();
        let mut n: usize = 0;
        while n < total
            invariant
                n <= total,
                1 <= nx <= 1024,
                1 <= ny <= 1024,
                1 <= nz <= 1024,
                total == nx * ny * nz,
                cfg == self.config,
                cfg.well_formed(),
                nx == cfg.seed_max[0] - cfg.seed_min[0] + 1,
                ny == cfg.seed_max[1] - cfg.seed_min[1] + 1,
                nz == cfg.seed_max[2] - cfg.seed_min[2] + 1,
                goal == seeded_chunks(cfg),
                goal.len() == total,
                chunks@ == goal.take(n as int),
            decreases total - n,
        {
            proof {
                vstd::arithmetic::div_mod::lemma_mod_bound(n as int, nx as int);
                vstd::arithmetic::div_mod::lemma_mod_bound(n as int / nx as int, ny as int);
                vstd::arithmetic::div_mod::lemma_div_pos_is_pos(n as int, nx as int);
                vstd::arithmetic::div_mod::lemma_div_pos_is_pos(n as int, nx as int * ny as int);
                assert(nx * ny <= 0x100000) by (nonlinear_arith)
                    requires
                        1 <= nx <= 1024,
                        1 <= ny <= 1024,
                {
                }
                vstd::arithmetic::div_mod::lemma_div_is_ordered(
                    n as int,
                    nx as int * ny as int * nz as int - 1,
                    nx as int * ny as int,
                );
                assert((nx as int * ny as int * nz as int - 1) / (nx as int * ny as int) <= nz as int
                    - 1) by (nonlinear_arith)
                    requires
                        1 <= nx as int <= 1024,
                        1 <= ny as int <= 1024,
                        1 <= nz as int <= 1024,
                {
                }
            }
            let x: usize = n % nx;
            let y: usize = (n / nx) % ny;
            let z: usize = n / (nx * ny);
            let entry = TrackedChunk {
                coordinates: [
                    self.config.seed_min[0] + x as i128,
                    self.config.seed_min[1] + y as i128,
                    self.config.seed_min[2] + z as i128,
                ],
                state: ChunkState::NotGenerated,
            };
            chunks.push(entry);
            proof {
                assert(goal[n as int] == entry);
                assert(chunks@ =~= goal.take(n as int + 1));
            }
            n = n + 1;
        }
        proof {
            assert(chunks@ =~= goal);
        }
        self.chunks = chunks;
        self.populated = true;
        proof {
            lemma_seeded_coordinates_distinct(cfg);
            assert forall|i: int, j: int|
                0 <= i < self.chunks_spec().len() && 0 <= j < 3 implies -COORD_LIMIT
                <= #[trigger] self.chunks_spec()[i].coordinates[j] <= COORD_LIMIT by {
                assert(self.chunks_spec()[i] == goal[i]);
                assert(1 <= nx as int * ny as int <= 0x100000 && nx as int * ny as int * nz as int
                    <= 0x40000000) by (nonlinear_arith)
                    requires
                        1 <= nx as int <= 1024,
                        1 <= ny as int <= 1024,
                        1 <= nz as int <= 1024,
                {
                }
                vstd::arithmetic::div_mod::lemma_mod_bound(i, nx as int);
                vstd::arithmetic::div_mod::lemma_mod_bound(i / nx as int, ny as int);
                vstd::arithmetic::div_mod::lemma_div_pos_is_pos(i, nx as int);
                vstd::arithmetic::div_mod::lemma_div_pos_is_pos(i, nx as int * ny as int);
                vstd::arithmetic::div_mod::lemma_div_is_ordered(
                    i,
                    nx as int * ny as int * nz as int - 1,
                    nx as int * ny as int,
                );
                assert((nx as int * ny as int * nz as int - 1) / (nx as int * ny as int)
                    <= nz as int - 1) by (nonlinear_arith)
                    requires
                        1 <= nx as int <= 1024,
                        1 <= ny as int <= 1024,
                        1 <= nz as int <= 1024,
                {
                }
            }
        }
    }

    /// One LOD/eviction sweep against a viewer chunk coordinate: every
    /// tracked chunk moves to the state the distance bands assign, and a
    /// command is emitted for every chunk whose state had to change.
    fn sweep(&mut self, viewer: [i128; 3]) -> (commands: Vec<MeshCommand>)
        requires
            old(self).well_formed(),
            forall|i: int| 0 <= i < 3 ==> -0x40000000000 <= #[trigger] viewer[i] <= 0x40000000000,
        ensures
            final(self).well_formed(),
            final(self).config_spec() == old(self).config_spec(),
            final(self).populated_spec() == old(self).populated_spec(),
            final(self).population_accumulator_spec() == old(self).population_accumulator_spec(),
            final(self).generation_accumulator_spec() == old(self).generation_accumulator_spec(),
            final(self).chunks_spec() == swept_chunks(
                old(self).config_spec(),
                old(self).chunks_spec(),
                viewer,
            ),
            commands@ == sweep_commands(old(self).config_spec(), old(self).chunks_spec(), viewer),
    {
        let ghost cfg = self.config;
        let ghost orig = self.chunks@;
        let mut commands: Vec<MeshCommand> = Vec::new();
        let len = self.chunks.len();
        let mut i: usize = 0;
        while i < len
            invariant
                i <= len,
                len == self.chunks@.len(),
                len == orig.len(),
                cfg == self.config,
                cfg.well_formed(),
                self.populated == old(self).populated,
                self.population_accumulator == old(self).population_accumulator,
                self.generation_accumulator == old(self).generation_accumulator,
                forall|k: int| 0 <= k < 3 ==> -0x40000000000 <= #[trigger] viewer[k]
                    <= 0x40000000000,
                forall|k: int, j: int|
                    0 <= k < orig.len() && 0 <= j < 3 ==> -COORD_LIMIT <= #[trigger] orig[k]
                        .coordinates[j] <= COORD_LIMIT,
                forall|j: int| i <= j < len ==> self.chunks@[j] == #[trigger] orig[j],
                forall|j: int|
                    0 <= j < i ==> self.chunks@[j] == swept_chunk(cfg, #[trigger] orig[j], viewer),
                commands@ == sweep_commands(cfg, orig.take(i as int), viewer),
            decreases len - i,
        {
            let chunk = self.chunks[i];
            proof {
                assert(chunk == orig[i as int]);
                assert(-COORD_LIMIT <= orig[i as int].coordinates[0] <= COORD_LIMIT);
                assert(-COORD_LIMIT <= orig[i as int].coordinates[1] <= COORD_LIMIT);
                assert(-COORD_LIMIT <= orig[i as int].coordinates[2] <= COORD_LIMIT);
            }
            let d_sq = squared_chunk_distance_exec(viewer, chunk.coordinates);
            let desired = desired_resolution(&self.config, d_sq);
            match desired {
                Some(tier) => {
                    let already = match chunk.state {
                        ChunkState::Generated(current) => current == tier,
                        ChunkState::NotGenerated => false,
                    };
                    if !already {
                        self.chunks[i] = TrackedChunk {
                            coordinates: chunk.coordinates,
                            state: ChunkState::Generated(tier),
                        };
                        commands.push(
                            MeshCommand::Generate {
                                coordinates: chunk.coordinates,
                                resolution: tier,
                            },
                        );
                    } else {
                        self.chunks[i] = TrackedChunk {
                            coordinates: chunk.coordinates,
                            state: ChunkState::Generated(tier),
                        };
                    }
                },
                None => {
                    let was_generated = match chunk.state {
                        ChunkState::Generated(_) => true,
                        ChunkState::NotGenerated => false,
                    };
                    self.chunks[i] = TrackedChunk {
                        coordinates: chunk.coordinates,
                        state: ChunkState::NotGenerated,
                    };
                    if was_generated {
                        commands.push(MeshCommand::Evict { coordinates: chunk.coordinates });
                    }
                },
            }
            proof {
                assert(orig.take(i as int + 1).drop_last() =~= orig.take(i as int));
                assert(orig.take(i as int + 1).last() == orig[i as int]);
                assert(commands@ =~= sweep_commands(cfg, orig.take(i as int + 1), viewer));
            }
            i = i + 1;
        }
        proof {
            assert(orig.take(len as int) =~= orig);
            assert(self.chunks@ =~= swept_chunks(cfg, orig, viewer));
            assert forall|a: int, b: int|
                0 <= a < b < self.chunks@.len() implies #[trigger] self.chunks@[a].coordinates
                != #[trigger] self.chunks@[b].coordinates by {
                assert(self.chunks@[a].coordinates == orig[a].coordinates);
                assert(self.chunks@[b].coordinates == orig[b].coordinates);
            }
        }
        commands
    }

    /// Advances both timers by `delta_time` and runs whatever they make
    /// due: the one-time initial population when its timer fires, then an
    /// LOD/eviction sweep against the viewer's chunk when the sweep timer
    /// fires. Returns the sweep's commands, oldest chunk first.
    pub fn tick(&mut self, delta_time: i64, viewer_position: FixedVec3) -> (commands: Vec<
        MeshCommand,
    >)
        requires
            old(self).well_formed(),
            0 <= delta_time <= 0x7fffffff,
        ensures
            final(self).well_formed(),
            final(self).config_spec() == old(self).config_spec(),
            final(self).population_accumulator_spec() == stepped_accumulator(
                old(self).population_accumulator_spec() as int,
                delta_time as int,
                old(self).config_spec().population_interval as int,
            ),
            final(self).generation_accumulator_spec() == stepped_accumulator(
                old(self).generation_accumulator_spec() as int,
                delta_time as int,
                old(self).config_spec().generation_interval as int,
            ),
            final(self).populated_spec() == (old(self).populated_spec() || timer_fires(
                old(self).population_accumulator_spec() as int,
                delta_time as int,
                old(self).config_spec().population_interval as int,
            )),
            ({
                let cfg = old(self).config_spec();
                let base = if timer_fires(
                    old(self).population_accumulator_spec() as int,
                    delta_time as int,
                    cfg.population_interval as int,
                ) && !old(self).populated_spec() {
                    seeded_chunks(cfg)
                } else {
                    old(self).chunks_spec()
                };
                let vc = viewer_chunk(viewer_position);
                if timer_fires(
                    old(self).generation_accumulator_spec() as int,
                    delta_time as int,
                    cfg.generation_interval as int,
                ) {
                    final(self).chunks_spec() == swept_chunks(cfg, base, vc) && commands@
                        == sweep_commands(cfg, base, vc)
                } else {
                    final(self).chunks_spec() == base && commands@ == Seq::<MeshCommand>::empty()
                }
            }),
    {
        let population_fires = self.population_accumulator + delta_time
            >= self.config.population_interval;
        let generation_fires = self.generation_accumulator + delta_time
            >= self.config.generation_interval;
        self.population_accumulator = if population_fires {
            0
        } else {
            self.population_accumulator + delta_time
        };
        self.generation_accumulator = if generation_fires {
            0
        } else {
            self.generation_accumulator + delta_time
        };
        if population_fires && !self.populated {
            self.init_chunk_creation();
        } else if population_fires {
            self.populated = true;
        }
        if generation_fires {
            let vc = Self::viewer_chunk_exec(viewer_position);
            self.sweep(vc)
        } else {
            let commands: Vec<MeshCommand> = Vec::new();
            proof {
                assert(commands@ =~= Seq::<MeshCommand>::empty());
            }
            commands
        }
    }

    /// Floors the viewer's world position to its chunk coordinate, which is
    /// always within `2^42` of the origin because positions are `i64`.
    fn viewer_chunk_exec(viewer_position: FixedVec3) -> (vc: [i128; 3])
        ensures
            vc == viewer_chunk(viewer_position),
            forall|i: int| 0 <= i < 3 ==> -0x40000000000 <= #[trigger] vc[i] <= 0x40000000000,
    {
        let vc = VoxelChunk::get_chunk_coordinates_from_global(viewer_position);
        proof {
            lemma_world_quotient_bounds(viewer_position.x as int);
            lemma_world_quotient_bounds(viewer_position.y as int);
            lemma_world_quotient_bounds(viewer_position.z as int);
            assert(vc[0] == viewer_chunk(viewer_position)[0]);
            assert(vc[1] == viewer_chunk(viewer_position)[1]);
            assert(vc[2] == viewer_chunk(viewer_position)[2]);
            assert(vc =~= viewer_chunk(viewer_position));
        }
        vc
    }
}

/// An `i64` world coordinate divided by the chunk size stays within `2^42`.
proof fn lemma_world_quotient_bounds(a: int)
    requires
        i64::MIN <= a <= i64::MAX,
    ensures
        -0x40000000000 <= a / (SIZE_CHUNK_FP as int) <= 0x40000000000,
{
    let d = SIZE_CHUNK_FP as int;
    let q = a / d;
    let r = a % d;
    vstd::arithmetic::div_mod::lemma_fundamental_div_mod(a, d);
    vstd::arithmetic::div_mod::lemma_mod_bound(a, d);
    assert(-0x40000000000 <= q <= 0x40000000000) by (nonlinear_arith)
        requires
            a == d * q + r,
            0 <= r < d,
            d == 2097152,
            -0x8000000000000000 <= a <= 0x7fffffffffffffff,
    {
    }
}

} // verus!
