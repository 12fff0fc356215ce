//! Unit tests of the library's pieces: errors, buffer layouts, cache
//! paths, terrain parsing, and the dispatch search.

use total_viewsheds::ascii::OutputASCII;
use total_viewsheds::cache::Cache;
use total_viewsheds::compute::Compute;
use total_viewsheds::config::ComputeType;
use total_viewsheds::dem::DEM;
use total_viewsheds::dispatch::find_dispatch_dimensions;
use total_viewsheds::kernel;
use total_viewsheds::terrain::{BinaryTerrain, DataType};
use total_viewsheds::Error;

#[test]
fn find_dispatches() {
    let (dispatches, invocations) = find_dispatch_dimensions(1_000_000, (8, 8, 4)).unwrap();
    assert_eq!(dispatches, (16, 16, 16));
    assert_eq!(invocations, (128, 128, 64));
}

#[test]
fn find_dispatches_minimal() {
    // One invocation is covered as soon as every dimension is non-zero.
    let (dispatches, invocations) = find_dispatch_dimensions(1, (8, 8, 4)).unwrap();
    assert_eq!(dispatches, (1, 1, 1));
    assert_eq!(invocations, (8, 8, 4));
}

#[test]
fn dem_rejects_oversized_line_of_sight() {
    // A line of sight beyond half the grid cannot be fully seen by any cell.
    assert_eq!(DEM::new(9, 5, 5).unwrap_err(), Error::ConfigInvalid);
    assert_eq!(DEM::new(0, 1, 1).unwrap_err(), Error::ConfigInvalid);
    assert!(DEM::new(9, 4, 4).is_ok());
}

#[test]
fn dem_derived_sizes() {
    let dem = DEM::new(9, 3, 3).unwrap();
    assert_eq!(dem.size, 81);
    assert_eq!(dem.band_size, 4);
    assert_eq!(dem.computable_points_count, 9);
    assert_eq!(dem.tvs_width, 3);
}

#[test]
fn pov_and_tvs_ids_round_trip() {
    let dem = DEM::new(9, 3, 3).unwrap();
    for tvs_id in 0..dem.computable_points_count {
        let pov_id = dem.tvs_id_to_pov_id(tvs_id);
        assert_eq!(dem.pov_id_to_tvs_id(pov_id), tvs_id);
    }
    assert_eq!(dem.tvs_id_to_pov_id(0), 30);
    assert_eq!(dem.tvs_id_to_pov_id(4), 40);
}

#[test]
fn compute_sizing() {
    let dem = DEM::new(9, 3, 3).unwrap();
    let compute = Compute::new(ComputeType::CPU, &dem, 5_000_000).unwrap();
    assert_eq!(compute.constants.total_bands, 18);
    assert_eq!(compute.constants.reserved_rings_per_band, 15);
    assert_eq!(compute.reserved_rings, 270);
    assert_eq!(Compute::ring_count_per_band(5_000_000, 3), 15);
    assert_eq!(Compute::ring_count_per_band(5_000, 1000), 5);
    assert_eq!(Compute::ring_count_per_band(5_000, 999), 4);
}

#[test]
fn cache_paths() {
    let cache = Cache::new("/var/state", 9, 45, true, true);
    assert_eq!(cache.base_directory, "/var/state/total-viewsheds/9");
    assert_eq!(
        cache.band_deltas_path,
        "/var/state/total-viewsheds/9/band_deltas/45.bin"
    );
    assert_eq!(
        cache.distances_path,
        "/var/state/total-viewsheds/9/distances/45.bin"
    );
    assert!(cache.is_cache_exists);
    let cold = Cache::new("/var/state", 1234, 179, true, false);
    assert_eq!(
        cold.band_deltas_path,
        "/var/state/total-viewsheds/1234/band_deltas/179.bin"
    );
    assert!(!cold.is_cache_exists);
    let zero = Cache::new("", 0, 0, false, false);
    assert_eq!(zero.distances_path, "/total-viewsheds/0/distances/0.bin");
}

#[test]
fn delta_steps() {
    assert_eq!(kernel::delta_add(30, -9), 21);
    assert_eq!(kernel::delta_add(30, 9), 39);
    assert_eq!(kernel::delta_subtract(30, -9), 39);
    assert_eq!(kernel::delta_subtract(30, 9), 21);
}

#[test]
fn band_walk_stays_inside_or_fails() {
    let deltas = vec![-9, -9, -9];
    let cells = kernel::band_cells_from(30, &deltas, true, 81).unwrap();
    assert_eq!(cells, [21, 12, 3]);
    let back = kernel::band_cells_from(30, &deltas, false, 81).unwrap();
    assert_eq!(back, [39, 48, 57]);
    // One more step forward would leave the grid through the top.
    let long = vec![-9, -9, -9, -9];
    assert!(kernel::band_cells_from(30, &long, true, 81).is_none());
}

#[test]
fn ring_recording() {
    // Visibility closes after two cells and reopens at the fourth.
    let cells = vec![21, 12, 3, 4, 5];
    let visible = vec![true, true, false, true, false];
    let mut ring_data = vec![0u32; 20];
    kernel::record_rings(30, &cells, &visible, &mut ring_data, 5, 10).unwrap();
    // Count, then: open at the PoV, close, open, close.
    assert_eq!(&ring_data[5..11], &[4, 30, 3, 4, 5, 0]);
    assert_eq!(&ring_data[0..5], &[0, 0, 0, 0, 0]);
}

#[test]
fn ring_recording_ends_visible() {
    let cells = vec![21, 12];
    let visible = vec![true, true];
    let mut ring_data = vec![0u32; 10];
    kernel::record_rings(30, &cells, &visible, &mut ring_data, 0, 10).unwrap();
    // The walk ends visible, so a synthetic closing at the last cell.
    assert_eq!(&ring_data[0..4], &[2, 30, 12, 0]);
}

#[test]
fn ring_recording_overruns() {
    let cells = vec![21, 12, 3, 4, 5];
    let visible = vec![true, false, true, false, true];
    let mut ring_data = vec![7u32; 6];
    let result = kernel::record_rings(30, &cells, &visible, &mut ring_data, 0, 6);
    assert_eq!(result.unwrap_err(), Error::BufferOverrun);
    // Nothing was written.
    assert_eq!(ring_data, [7, 7, 7, 7, 7, 7]);
}

#[test]
fn ring_counts_pair_up() {
    // Every band's entry count is even: the point-of-view opening, each
    // closing, and each reopening pair off.
    let cells = vec![1, 2, 3, 4, 5, 6];
    let patterns = [
        vec![true, true, true, false, false, true],
        vec![false, false, false, false, false, false],
        vec![true, false, true, false, true, false],
        vec![false, true, false, true, false, true],
    ];
    for visible in patterns {
        let mut ring_data = vec![0u32; 16];
        kernel::record_rings(0, &cells, &visible, &mut ring_data, 0, 16).unwrap();
        let count = ring_data[0];
        assert_eq!(count % 2, 0);
        // Excluding the leading count and the PoV opening, an odd run.
        assert_eq!((count - 1) % 2, 1);
    }
}

#[test]
fn terrain_parses_integer_samples() {
    let mut bytes = vec![0u8; 256 + 8];
    bytes[0..10].copy_from_slice(b"binterr1.3");
    bytes[10..14].copy_from_slice(&2u32.to_le_bytes()); // width
    bytes[14..18].copy_from_slice(&2u32.to_le_bytes()); // height
    bytes[18..20].copy_from_slice(&2u16.to_le_bytes()); // bytes per sample
    bytes[20..22].copy_from_slice(&0u16.to_le_bytes()); // integer samples
    bytes[26..28].copy_from_slice(&6326u16.to_le_bytes()); // datum
    bytes[256..258].copy_from_slice(&9i16.to_le_bytes());
    bytes[258..260].copy_from_slice(&(-3i16).to_le_bytes());
    bytes[260..262].copy_from_slice(&0i16.to_le_bytes());
    bytes[262..264].copy_from_slice(&1234i16.to_le_bytes());
    let terrain = BinaryTerrain::read(&bytes).unwrap();
    assert_eq!(terrain.header.width, 2);
    assert_eq!(terrain.header.height, 2);
    assert_eq!(terrain.header.datum, 6326);
    assert!(!terrain.header.is_float);
    match terrain.data {
        DataType::Int16(values) => assert_eq!(values, [9, -3, 0, 1234]),
        DataType::Float32(_) => panic!("expected integer samples"),
    }
}

#[test]
fn terrain_parses_float_samples() {
    let mut bytes = vec![0u8; 256 + 4];
    bytes[0..10].copy_from_slice(b"binterr1.3");
    bytes[10..14].copy_from_slice(&1u32.to_le_bytes());
    bytes[14..18].copy_from_slice(&1u32.to_le_bytes());
    bytes[18..20].copy_from_slice(&4u16.to_le_bytes());
    bytes[20..22].copy_from_slice(&1u16.to_le_bytes()); // float samples
    bytes[28..36].copy_from_slice(&(-3.5f64).to_le_bytes()); // left extent
    bytes[256..260].copy_from_slice(&12.25f32.to_le_bytes());
    let terrain = BinaryTerrain::read(&bytes).unwrap();
    assert!(terrain.header.is_float);
    assert_eq!(f64::from_bits(terrain.header.left_bits), -3.5);
    match terrain.data {
        DataType::Float32(values) => {
            assert_eq!(values.len(), 1);
            assert_eq!(f32::from_bits(values[0]), 12.25);
        },
        DataType::Int16(_) => panic!("expected float samples"),
    }
}

#[test]
fn terrain_rejects_bad_input() {
    assert_eq!(
        BinaryTerrain::read(&vec![0u8; 10]).unwrap_err(),
        Error::TerrainInvalid
    );
    let mut bytes = vec![0u8; 300];
    bytes[0..10].copy_from_slice(b"binterr2.0");
    assert_eq!(BinaryTerrain::read(&bytes).unwrap_err(), Error::TerrainInvalid);
    // Right magic, but the samples are cut off.
    let mut short = vec![0u8; 256 + 2];
    short[0..10].copy_from_slice(b"binterr1.3");
    short[10..14].copy_from_slice(&2u32.to_le_bytes());
    short[14..18].copy_from_slice(&2u32.to_le_bytes());
    short[18..20].copy_from_slice(&2u16.to_le_bytes());
    assert_eq!(BinaryTerrain::read(&short).unwrap_err(), Error::TerrainInvalid);
}

#[test]
fn viewshed_marks() {
    let mut output = OutputASCII { reserved_ring_size: 4, pov_id: 0, viewshed: vec![0u8; 6] };
    output.populate_viewshed(1, 3);
    assert_eq!(output.viewshed, [0, 1, 0, 2, 0, 0]);
    // A second ring over the same cells marks them as both.
    output.populate_viewshed(1, 3);
    assert_eq!(output.viewshed, [0, 3, 0, 3, 0, 0]);
    // An opening that is also a closing is marked as both at once.
    output.populate_viewshed(5, 5);
    assert_eq!(output.viewshed, [0, 3, 0, 3, 0, 3]);
}

#[test]
fn viewshed_rejects_truncated_ring_data() {
    let dem = DEM::new(9, 3, 3).unwrap();
    let ring_data = vec![vec![0u32; 7]];
    assert_eq!(
        OutputASCII::convert(&dem, 40, &ring_data, 15).unwrap_err(),
        Error::RingDataTruncated
    );
}
