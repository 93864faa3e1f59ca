use openroom::channels::{channels_from_len, expand_rgba_u16, expand_rgba_u8};
use openroom::models::{AssetSummary, FolderIndex, Metadata};
use openroom::demosaic::{demosaic, normalize_sample, SensorGrid};
use openroom::dims::{normalize_dimension, target_size};
use openroom::gpustate::GpuDisposition;
use openroom::registry::{cached_path, is_supported, AssetRegistry};
use openroom::render::placeholder_rgba;

#[test]
fn dimension_clamping_and_idempotence() {
    assert_eq!(normalize_dimension(100), 480);
    assert_eq!(normalize_dimension(480), 480);
    assert_eq!(normalize_dimension(1440), 1440);
    assert_eq!(normalize_dimension(3200), 3200);
    assert_eq!(normalize_dimension(5000), 3200);
    for d in [0u32, 1, 479, 480, 481, 1920, 3199, 3200, 3201, 60000] {
        assert_eq!(
            normalize_dimension(normalize_dimension(d)),
            normalize_dimension(d)
        );
    }
}

#[test]
fn target_size_maps_the_larger_side_to_the_request() {
    assert_eq!(target_size(4000, 3000, 1000), (1000, 750));
    assert_eq!(target_size(3000, 4000, 1000), (750, 1000));
    assert_eq!(target_size(100, 100, 500), (500, 500));
    assert_eq!(target_size(0, 50, 500), (1, 1));
    assert_eq!(target_size(50, 0, 500), (1, 1));
    // A very narrow source never collapses to a zero side.
    assert_eq!(target_size(10000, 1, 1000), (1000, 1));
}

#[test]
fn normalization_against_levels() {
    assert_eq!(normalize_sample(0, 0, 255), 0);
    assert_eq!(normalize_sample(255, 0, 255), 4096);
    assert_eq!(normalize_sample(100, 0, 255), 1606);
    // Degenerate level ranges normalize to zero.
    assert_eq!(normalize_sample(77, 200, 100), 0);
    assert_eq!(normalize_sample(77, 100, 100), 0);
    // Values below black clamp to zero, above white clamp to one.
    assert_eq!(normalize_sample(5, 10, 100), 0);
    assert_eq!(normalize_sample(200, 10, 100), 4096);
}

#[test]
fn demosaic_fills_unsampled_planes_from_neighbors() {
    let grid = SensorGrid {
        width: 2,
        height: 2,
        samples: vec![100, 200, 50, 250],
        cfa: vec![0, 1, 1, 1],
        black_r: 0,
        black_g: 0,
        black_b: 0,
        white_r: 255,
        white_g: 255,
        white_b: 255,
    };
    let img = demosaic(&grid);
    assert_eq!((img.width, img.height), (2, 2));
    // Red is sampled only at the first pixel; every pixel's red infill
    // averages to that one sample.
    assert_eq!(img.data[0], 99);
    assert_eq!(img.data[4], 99);
    // Green at the first pixel averages its three sampled neighbors.
    assert_eq!(img.data[1], 166);
    // Green at the second pixel is its own normalized sample.
    assert_eq!(img.data[5], 199);
    // Blue is never sampled: no neighbor exists, so it stays black.
    assert_eq!(img.data[2], 0);
    assert_eq!(img.data[6], 0);
    // Alpha is opaque everywhere.
    assert_eq!(img.data[3], 255);
    assert_eq!(img.data[7], 255);
}

#[test]
fn channel_count_inference() {
    assert_eq!(channels_from_len(12, 2, 2), Some(3));
    assert_eq!(channels_from_len(4, 2, 2), Some(1));
    assert_eq!(channels_from_len(7, 2, 2), None);
    assert_eq!(channels_from_len(0, 2, 2), None);
    assert_eq!(channels_from_len(5, 0, 5), None);
}

#[test]
fn sixteen_bit_expansion_keeps_the_high_byte() {
    let img = expand_rgba_u16(2, 1, &vec![0xFF00, 0x0100]).unwrap();
    assert_eq!(img.data, vec![255, 255, 255, 255, 1, 1, 1, 255]);
    let rgb = expand_rgba_u16(1, 1, &vec![0x1200, 0x3400, 0x5600]).unwrap();
    assert_eq!(rgb.data, vec![0x12, 0x34, 0x56, 255]);
    assert!(expand_rgba_u16(2, 1, &vec![1, 2, 3]).is_err());
}

#[test]
fn eight_bit_expansion_copies_channels() {
    let gray = expand_rgba_u8(2, 1, &vec![7, 9]).unwrap();
    assert_eq!(gray.data, vec![7, 7, 7, 255, 9, 9, 9, 255]);
    let rgba = expand_rgba_u8(1, 1, &vec![1, 2, 3, 4]).unwrap();
    assert_eq!(rgba.data, vec![1, 2, 3, 4]);
    assert!(expand_rgba_u8(2, 1, &vec![1]).is_err());
}

#[test]
fn registry_resolves_latest_registration() {
    let mut reg = AssetRegistry::new();
    reg.register_assets(vec![
        (String::from("a"), String::from("/one.dng")),
        (String::from("b"), String::from("/two.jpg")),
        (String::from("a"), String::from("/three.nef")),
    ]);
    assert_eq!(reg.path_for(&String::from("a")), Some(String::from("/three.nef")));
    assert_eq!(reg.path_for(&String::from("b")), Some(String::from("/two.jpg")));
    assert_eq!(reg.path_for(&String::from("c")), None);
    reg.register_assets(Vec::new());
    assert_eq!(reg.path_for(&String::from("a")), None);
}

#[test]
fn cache_file_naming() {
    assert_eq!(cached_path("/tmp/thumbs", "asset1", "png"), "/tmp/thumbs/asset1.png");
}

#[test]
fn supported_extensions_ignore_case() {
    assert!(is_supported(&b"dng".to_vec()));
    assert!(is_supported(&b"DNG".to_vec()));
    assert!(is_supported(&b"HeIc".to_vec()));
    assert!(is_supported(&b"jpeg".to_vec()));
    assert!(is_supported(&b"png".to_vec()));
    assert!(!is_supported(&b"txt".to_vec()));
    assert!(!is_supported(&b"jpg2".to_vec()));
    assert!(!is_supported(&b"".to_vec()));
}

#[test]
fn metadata_defaults_to_absent_fields() {
    let m = Metadata::default();
    assert!(m.camera.is_none());
    assert!(m.lens.is_none());
    assert!(m.iso.is_none());
    assert!(m.shutter.is_none());
    assert!(m.aperture.is_none());
    assert!(m.focal.is_none());
    assert!(m.date.is_none());
    let index = FolderIndex {
        id: String::from("f"),
        path: String::from("/photos"),
        assets: vec![AssetSummary {
            id: String::from("a"),
            file_name: String::from("one.dng"),
            extension: String::from("DNG"),
            path: String::from("/photos/one.dng"),
        }],
    };
    assert_eq!(index.assets.len(), 1);
}

#[test]
fn gpu_disposition_is_one_shot_with_guardrails() {
    let mut gpu = GpuDisposition::new();
    assert!(!gpu.available());
    assert!(!gpu.allows(100, 100));
    gpu.note_init_outcome(Some(20000));
    assert!(gpu.available());
    // The device limit is capped at the safe texture dimension.
    assert!(gpu.allows(8192, 8192));
    assert!(!gpu.allows(8193, 10));
    assert!(!gpu.allows(10, 8193));
    // The pixel-count ceiling bypasses the GPU for giant buffers.
    assert!(gpu.allows(8000, 8000));
    let mut failed = GpuDisposition::new();
    failed.note_init_outcome(None);
    assert!(!failed.available());
    assert!(!failed.allows(10, 10));
}

#[test]
fn placeholder_gradient_corners() {
    let ph = placeholder_rgba();
    assert_eq!((ph.width, ph.height), (480, 320));
    assert_eq!(&ph.data[0..4], &[220, 230, 245, 255]);
    // Bottom-right corner: x = 479, y = 319.
    let idx = 4 * (319 * 480 + 479);
    assert_eq!(ph.data[idx], 181);
    assert_eq!(ph.data[idx + 1], 171);
    assert_eq!(ph.data[idx + 2], 166);
}
