//! Tests of the streaming controller: seeding, the distance bands, the
//! eviction boundary, and the tick cadence.

use voxel_engine::math::FixedVec3;
use voxel_engine::streamer::{ChunkState, ChunkStreamer, MeshCommand, StreamerConfig};

fn one_chunk_config(coordinates: [i128; 3]) -> StreamerConfig {
    StreamerConfig {
        seed_min: coordinates,
        seed_max: coordinates,
        ..StreamerConfig::default()
    }
}

fn at_origin() -> FixedVec3 {
    FixedVec3 { x: 0, y: 0, z: 0 }
}

/// A tick long enough to fire both the population and the sweep timer.
const LONG_TICK: i64 = 65536;

#[test]
fn default_configuration_matches_the_reference() {
    let cfg = StreamerConfig::default();
    assert_eq!(cfg.chunk_size, 32);
    assert_eq!(cfg.max_view_distance, 3000);
    assert_eq!(
        (cfg.high_resolution, cfg.medium_resolution, cfg.low_resolution),
        (32, 16, 8)
    );
    assert_eq!(cfg.seed_min, [-100, -5, -100]);
    assert_eq!(cfg.seed_max, [100, 5, 100]);
}

#[test]
fn a_short_tick_does_nothing() {
    let mut streamer = ChunkStreamer::new(one_chunk_config([0, 0, 0]));
    let commands = streamer.tick(100, at_origin());
    assert!(commands.is_empty());
    assert!(streamer.chunks().is_empty());
}

#[test]
fn population_seeds_the_configured_range() {
    let cfg = StreamerConfig {
        seed_min: [0, 0, 0],
        seed_max: [1, 0, 0],
        ..StreamerConfig::default()
    };
    let mut streamer = ChunkStreamer::new(cfg);
    let commands = streamer.tick(LONG_TICK, at_origin());
    // both seeded chunks are in the nearest band: generated at the high tier
    let chunks = streamer.chunks();
    assert_eq!(chunks.len(), 2);
    assert_eq!(chunks[0].coordinates, [0, 0, 0]);
    assert_eq!(chunks[1].coordinates, [1, 0, 0]);
    assert!(chunks.iter().all(|c| c.state == ChunkState::Generated(32)));
    assert_eq!(
        commands,
        vec![
            MeshCommand::Generate { coordinates: [0, 0, 0], resolution: 32 },
            MeshCommand::Generate { coordinates: [1, 0, 0], resolution: 32 },
        ]
    );
}

#[test]
fn distance_bands_assign_the_three_tiers() {
    for (coordinates, tier) in [([0, 0, 0], 32), ([30, 0, 0], 16), ([80, 0, 0], 8)] {
        let mut streamer = ChunkStreamer::new(one_chunk_config(coordinates));
        streamer.tick(LONG_TICK, at_origin());
        assert_eq!(streamer.chunks()[0].state, ChunkState::Generated(tier));
    }
}

#[test]
fn the_view_distance_boundary_is_exact() {
    // with chunk size 32 and view distance 3000, the view radius is
    // D = 93.75 chunk units; squared chunk-distance 8789 is the last inside
    // (8789 * 32^2 <= 3000^2), 8790 is the first outside
    let mut inside = ChunkStreamer::new(one_chunk_config([1, 18, 92]));
    inside.tick(LONG_TICK, at_origin());
    assert_eq!(inside.chunks()[0].state, ChunkState::Generated(8));

    let mut outside = ChunkStreamer::new(one_chunk_config([5, 22, 91]));
    outside.tick(LONG_TICK, at_origin());
    assert_eq!(outside.chunks()[0].state, ChunkState::NotGenerated);
}

#[test]
fn a_chunk_beyond_the_view_distance_is_evicted() {
    let coordinates: [i128; 3] = [5, 22, 91];
    let mut streamer = ChunkStreamer::new(one_chunk_config(coordinates));
    // first sweep: the viewer stands on the chunk, so it generates
    let near = FixedVec3 {
        x: 5 * 32 * 65536,
        y: 22 * 32 * 65536,
        z: 91 * 32 * 65536,
    };
    let commands = streamer.tick(LONG_TICK, near);
    assert_eq!(
        commands,
        vec![MeshCommand::Generate { coordinates, resolution: 32 }]
    );
    // second sweep: the viewer is back at the origin, beyond D: evicted
    let commands = streamer.tick(LONG_TICK, at_origin());
    assert_eq!(commands, vec![MeshCommand::Evict { coordinates }]);
    assert_eq!(streamer.chunks()[0].state, ChunkState::NotGenerated);
}

#[test]
fn a_tier_change_regenerates_in_place() {
    let mut streamer = ChunkStreamer::new(one_chunk_config([0, 0, 0]));
    streamer.tick(LONG_TICK, at_origin());
    assert_eq!(streamer.chunks()[0].state, ChunkState::Generated(32));
    // the viewer walks 30 chunks away: the chunk drops to the medium tier
    let far = FixedVec3 { x: 30 * 32 * 65536, y: 0, z: 0 };
    let commands = streamer.tick(LONG_TICK, far);
    assert_eq!(
        commands,
        vec![MeshCommand::Generate { coordinates: [0, 0, 0], resolution: 16 }]
    );
    assert_eq!(streamer.chunks()[0].state, ChunkState::Generated(16));
    // staying put changes nothing
    let commands = streamer.tick(LONG_TICK, far);
    assert!(commands.is_empty());
}

#[test]
fn the_sweep_timer_accumulates_across_ticks() {
    // default sweep interval is 27307 fixed-point seconds (about 25/60 s)
    let mut streamer = ChunkStreamer::new(one_chunk_config([0, 0, 0]));
    streamer.tick(LONG_TICK, at_origin());
    assert_eq!(streamer.chunks()[0].state, ChunkState::Generated(32));
    let far = FixedVec3 { x: 30 * 32 * 65536, y: 0, z: 0 };
    // 20000 < 27307: no sweep yet, the state stays
    let commands = streamer.tick(20000, far);
    assert!(commands.is_empty());
    assert_eq!(streamer.chunks()[0].state, ChunkState::Generated(32));
    // 20000 + 20000 >= 27307: the sweep fires now
    let commands = streamer.tick(20000, far);
    assert_eq!(commands.len(), 1);
    assert_eq!(streamer.chunks()[0].state, ChunkState::Generated(16));
}
