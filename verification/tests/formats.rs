//! Tests of scanning, decoding, reporting and the ancillary modules.

use duplicate_photo_cleaner::decode;
use duplicate_photo_cleaner::error::{CacheError, HashError, ScanError};
use duplicate_photo_cleaner::hasher::HasherConfig;
use duplicate_photo_cleaner::hashval::HashAlgorithmKind;
use duplicate_photo_cleaner::history::{ModuleType, ScanStatus};
use duplicate_photo_cleaner::reporter::{format_bytes, select_representative, KeepReason, PhotoInfo};
use duplicate_photo_cleaner::scanner::{ImageFilter, ImageFormat};
use duplicate_photo_cleaner::similar::SimilarConfig;
use duplicate_photo_cleaner::unorganized::{UnorganizedFile, UnorganizedReason};
use duplicate_photo_cleaner::visualization::HashVisualizer;
use duplicate_photo_cleaner::watcher::WatcherConfig;
use duplicate_photo_cleaner::grid::LumaGrid;
use duplicate_photo_cleaner::algorithms::{AverageHasher, DifferenceHasher};
use duplicate_photo_cleaner::error::CompareError;
use duplicate_photo_cleaner::cache::{CacheBackend, InMemoryCache};
use duplicate_photo_cleaner::channel::EventChannel;
use duplicate_photo_cleaner::pipeline::{run_on_loaded, CancelFlag};
use duplicate_photo_cleaner::scanner::{ImageFormat as ScanFormat, PhotoFile};
use duplicate_photo_cleaner::events::{Event as PipeEvent, PipelineEvent as PipeEventKind};
use duplicate_photo_cleaner::large_files::{get_file_type, is_media_file, LargeFileInfo, LargeFileScanner};

#[test]
fn image_format_from_extension_lowercase() {
    assert_eq!(ImageFormat::from_extension("jpg"), ImageFormat::Jpeg);
    assert_eq!(ImageFormat::from_extension("jpeg"), ImageFormat::Jpeg);
    assert_eq!(ImageFormat::from_extension("png"), ImageFormat::Png);
    assert_eq!(ImageFormat::from_extension("heic"), ImageFormat::Heic);
}

#[test]
fn image_format_from_extension_uppercase() {
    assert_eq!(ImageFormat::from_extension("JPG"), ImageFormat::Jpeg);
    assert_eq!(ImageFormat::from_extension("PNG"), ImageFormat::Png);
    assert_eq!(ImageFormat::from_extension("HEIC"), ImageFormat::Heic);
}

#[test]
fn unknown_extension_returns_unknown() {
    assert_eq!(ImageFormat::from_extension("txt"), ImageFormat::Unknown);
    assert_eq!(ImageFormat::from_extension("pdf"), ImageFormat::Unknown);
}

#[test]
fn unknown_format_is_not_supported() {
    assert!(!ImageFormat::Unknown.is_supported());
    assert!(ImageFormat::Jpeg.is_supported());
}

#[test]
fn filter_includes_jpeg() {
    let filter = ImageFilter::new();
    assert!(filter.should_include("/photos/image.jpg"));
    assert!(filter.should_include("/photos/image.JPEG"));
}

#[test]
fn filter_includes_heic() {
    let filter = ImageFilter::new();
    assert!(filter.should_include("/photos/IMG_1234.HEIC"));
}

#[test]
fn filter_excludes_non_images() {
    let filter = ImageFilter::new();
    assert!(!filter.should_include("/photos/document.pdf"));
    assert!(!filter.should_include("/photos/video.mp4"));
}

#[test]
fn filter_excludes_hidden_by_default() {
    let filter = ImageFilter::new();
    assert!(!filter.should_include("/photos/.hidden.jpg"));
}

#[test]
fn filter_can_include_hidden() {
    let filter = ImageFilter::new().with_hidden(true);
    assert!(filter.should_include("/photos/.hidden.jpg"));
}

#[test]
fn filter_handles_no_extension() {
    let filter = ImageFilter::new();
    assert!(!filter.should_include("/photos/no_extension"));
}

#[test]
fn validate_jpeg_header() {
    let jpeg_header = [0xFF, 0xD8, 0xFF, 0xE0, 0x00, 0x10, 0x4A, 0x46];
    assert!(decode::validate_image_header(&jpeg_header));
}

#[test]
fn validate_png_header() {
    let png_header = [0x89, 0x50, 0x4E, 0x47, 0x0D, 0x0A, 0x1A, 0x0A];
    assert!(decode::validate_image_header(&png_header));
}

#[test]
fn validate_gif_header() {
    let gif_header = [0x47, 0x49, 0x46, 0x38, 0x39, 0x61, 0x00, 0x00];
    assert!(decode::validate_image_header(&gif_header));
}

#[test]
fn validate_webp_header() {
    let webp_header = [
        0x52, 0x49, 0x46, 0x46, 0x00, 0x00, 0x00, 0x00, 0x57, 0x45, 0x42, 0x50,
    ];
    assert!(decode::validate_image_header(&webp_header));
}

#[test]
fn reject_invalid_header() {
    let invalid = [0x00, 0x01, 0x02, 0x03, 0x04, 0x05, 0x06, 0x07];
    assert!(!decode::validate_image_header(&invalid));
}

#[test]
fn reject_too_short() {
    let short = [0xFF, 0xD8];
    assert!(!decode::validate_image_header(&short));
}

#[test]
fn format_detection_jpeg() {
    assert_eq!(decode::ImageFormat::from_path("photo.jpg"), decode::ImageFormat::Jpeg);
    assert_eq!(decode::ImageFormat::from_path("photo.JPEG"), decode::ImageFormat::Jpeg);
    assert_eq!(decode::ImageFormat::from_path("photo.JPG"), decode::ImageFormat::Jpeg);
}

#[test]
fn format_detection_png() {
    assert_eq!(decode::ImageFormat::from_path("image.png"), decode::ImageFormat::Png);
    assert_eq!(decode::ImageFormat::from_path("image.PNG"), decode::ImageFormat::Png);
}

#[test]
fn format_detection_heic() {
    assert_eq!(decode::ImageFormat::from_path("photo.heic"), decode::ImageFormat::Heic);
    assert_eq!(decode::ImageFormat::from_path("photo.HEIF"), decode::ImageFormat::Heic);
}

#[test]
fn format_detection_other() {
    assert_eq!(decode::ImageFormat::from_path("photo.bmp"), decode::ImageFormat::Other);
    assert_eq!(decode::ImageFormat::from_path("photo.gif"), decode::ImageFormat::Other);
}

#[test]
fn config_defaults_to_dhash() {
    let config = HasherConfig::new();
    assert_eq!(config.algorithm, HashAlgorithmKind::Difference);
}

#[test]
fn config_builder_works() {
    let config = HasherConfig::new()
        .algorithm(HashAlgorithmKind::Average)
        .hash_size(16);
    assert_eq!(config.algorithm, HashAlgorithmKind::Average);
    assert_eq!(config.hash_size, 16);
}

#[test]
fn build_creates_hasher() {
    let hasher = HasherConfig::new().build();
    assert!(hasher.is_ok());
}

#[test]
fn kind_returns_average() {
    let hasher = HasherConfig::new()
        .algorithm(HashAlgorithmKind::Average)
        .build()
        .unwrap();
    assert_eq!(hasher.kind(), HashAlgorithmKind::Average);
}

#[test]
fn kind_returns_difference() {
    let hasher = HasherConfig::new().build().unwrap();
    assert_eq!(hasher.kind(), HashAlgorithmKind::Difference);
}

#[test]
fn test_module_type_roundtrip() {
    let module = ModuleType::Similar;
    let s = module.as_str();
    let parsed = ModuleType::from_str(s);
    assert_eq!(parsed, Some(module));
}

#[test]
fn test_scan_status_roundtrip() {
    let status = ScanStatus::Completed;
    assert_eq!(status.as_str(), "completed");
    let status = ScanStatus::Error("test error".to_string());
    assert_eq!(status.as_str(), "error");
}

fn create_photo_info(path: &str, size: u64, dims: Option<(u32, u32)>) -> PhotoInfo {
    PhotoInfo {
        path: path.to_string(),
        dimensions: dims,
        file_size: size,
        format: "JPEG".to_string(),
        created: None,
        modified: 1_700_000_000,
    }
}

#[test]
fn select_prefers_highest_resolution() {
    let photos = vec![
        create_photo_info("/small.jpg", 1000, Some((800, 600))),
        create_photo_info("/large.jpg", 900, Some((1920, 1080))),
    ];
    let (path, reason) = select_representative(&photos);
    assert_eq!(path, "/large.jpg".to_string());
    assert_eq!(reason, KeepReason::HighestResolution);
}

#[test]
fn select_falls_back_to_file_size() {
    let photos = vec![
        create_photo_info("/small.jpg", 1000, Some((800, 600))),
        create_photo_info("/large.jpg", 5000, Some((800, 600))),
    ];
    let (path, reason) = select_representative(&photos);
    assert_eq!(path, "/large.jpg".to_string());
    assert_eq!(reason, KeepReason::LargestFileSize);
}

#[test]
fn keep_reason_display() {
    assert!(KeepReason::HighestResolution.label().contains("resolution"));
    assert!(KeepReason::LargestFileSize.label().contains("quality"));
}

#[test]
fn format_bytes_handles_all_sizes() {
    assert_eq!(format_bytes(500), "500 B");
    assert_eq!(format_bytes(1024), "1.0 KB");
    assert_eq!(format_bytes(1024 * 1024), "1.0 MB");
    assert_eq!(format_bytes(1024 * 1024 * 1024), "1.0 GB");
    assert_eq!(format_bytes(5_000_000), "4.8 MB");
}

#[test]
fn visualize_identical_hashes() {
    let visualizer = HashVisualizer::new(8);
    let hash = vec![0xFF; 8];
    let output = visualizer.visualize_difference(&hash, &hash);
    assert!(output.contains('.'));
    let dot_count = output.chars().filter(|&c| c == '.').count();
    assert!(dot_count >= 64, "Expected at least 64 dots, got {}", dot_count);
}

#[test]
fn visualize_different_hashes() {
    let visualizer = HashVisualizer::new(8);
    let hash_a = vec![0xFF; 8];
    let hash_b = vec![0x00; 8];
    let output = visualizer.visualize_difference(&hash_a, &hash_b);
    assert!(output.contains('X'));
    let x_count = output.chars().filter(|&c| c == 'X').count();
    assert!(x_count >= 64, "Expected at least 64 X's, got {}", x_count);
}

#[test]
fn summarize_identical() {
    let visualizer = HashVisualizer::new(8);
    let hash = vec![0xFF; 8];
    let summary = visualizer.summarize_difference(&hash, &hash);
    assert!(summary.contains("0 of 64"));
    assert!(summary.contains("100"));
}

#[test]
fn summarize_different() {
    let visualizer = HashVisualizer::new(1);
    let hash_a = vec![0xFF];
    let hash_b = vec![0x00];
    let summary = visualizer.summarize_difference(&hash_a, &hash_b);
    assert!(summary.contains("8 of 8"));
    assert!(summary.contains("0"));
}

#[test]
fn test_default_config() {
    let config = SimilarConfig::default();
    assert_eq!(config.min_distance, 5);
    assert_eq!(config.max_distance, 15);
}

#[test]
fn test_reason_priority() {
    assert!(UnorganizedReason::InRoot.priority() > UnorganizedReason::NoDatePattern.priority());
    assert!(
        UnorganizedReason::GenericName.priority() > UnorganizedReason::ShallowFolder.priority()
    );
}

#[test]
fn test_primary_reason() {
    let file = UnorganizedFile {
        path: "/test/photo.jpg".to_string(),
        filename: "photo.jpg".to_string(),
        size_bytes: 1000,
        file_type: "jpg".to_string(),
        reasons: vec![UnorganizedReason::NoDatePattern, UnorganizedReason::InRoot],
        folder_depth: 0,
        parent_folder: "/test".to_string(),
    };
    assert_eq!(file.primary_reason(), Some(UnorganizedReason::InRoot));
}

#[test]
fn watcher_config_default() {
    let config = WatcherConfig::default();
    assert_eq!(config.debounce_millis, 500);
    assert!(config.recursive);
}

#[test]
fn scan_error_includes_path() {
    let error = ScanError::DirectoryNotFound {
        path: "/photos/vacation".to_string(),
    };
    let message = error.message();
    assert!(message.contains("/photos/vacation"));
}

#[test]
fn hash_error_includes_path() {
    let error = HashError::DecodeError {
        path: "/photos/broken.jpg".to_string(),
        reason: "invalid JPEG".to_string(),
    };
    let message = error.message();
    assert!(message.contains("/photos/broken.jpg"));
    assert!(message.contains("invalid JPEG"));
}

#[test]
fn cache_error_suggests_recovery() {
    let error = CacheError::Corrupted {
        path: "/cache/hashes.db".to_string(),
    };
    let message = error.message();
    assert!(message.contains("Delete this file"));
}

#[test]
fn invalid_threshold_message_names_value() {
    let error = CompareError::InvalidThreshold { value: 99 };
    assert!(error.message().contains("99"));
}

#[test]
fn ahash_kernel_of_known_grid() {
    // A two-by-two grid with mean 63: only the brightest pixel sets
    // its bit, at the most significant position of its row-major
    // index.
    let grid = LumaGrid::new(2, 2, vec![0, 0, 0, 255]).unwrap();
    let hash = AverageHasher::hash_grid(&grid);
    assert_eq!(hash.as_bytes(), &vec![0b0001_0000]);
    assert_eq!(hash.algorithm(), HashAlgorithmKind::Average);
}

#[test]
fn dhash_kernel_of_known_grid() {
    // A three-by-two grid: only the first row's first comparison has
    // a brighter left pixel.
    let grid = LumaGrid::new(3, 2, vec![9, 1, 1, 1, 1, 1]).unwrap();
    let hash = DifferenceHasher::hash_grid(&grid, 2);
    assert_eq!(hash.as_bytes(), &vec![0b1000_0000]);
    assert_eq!(hash.algorithm(), HashAlgorithmKind::Difference);
}

#[test]
fn hash_determinism_on_equal_buffers() {
    let g1 = LumaGrid::new(4, 4, (0u8..16).collect()).unwrap();
    let g2 = LumaGrid::new(4, 4, (0u8..16).collect()).unwrap();
    assert_eq!(
        AverageHasher::hash_grid(&g1).as_bytes(),
        AverageHasher::hash_grid(&g2).as_bytes()
    );
}

#[test]
fn select_breaks_age_ties_alphabetically() {
    let photos = vec![
        create_photo_info("/b.jpg", 100, None),
        create_photo_info("/a.jpg", 100, None),
    ];
    let (path, reason) = select_representative(&photos);
    assert_eq!(path, "/a.jpg".to_string());
    assert_eq!(reason, KeepReason::FirstAlphabetically);
}

#[test]
fn pipeline_empty_input_yields_zero_summary() {
    let (sender, receiver) = EventChannel::new();
    let hasher = HasherConfig::new().build().unwrap();
    let mut cache = InMemoryCache::new();
    let result = run_on_loaded(
        &vec![],
        &vec![],
        8,
        &hasher,
        &mut cache,
        &sender,
        &CancelFlag::new(),
        0,
        5,
    );
    assert_eq!(result.total_photos, 0);
    assert_eq!(result.photos_processed, 0);
    assert_eq!(result.groups.len(), 0);
    assert_eq!(result.cache_hits, 0);
    assert_eq!(result.duration_ms, 5);
    drop(sender);
    let mut completions = 0;
    while let Some(event) = receiver.try_recv() {
        if let PipeEvent::Pipeline(PipeEventKind::Completed { summary }) = event
        {
            completions += 1;
            assert_eq!(summary.total_photos, 0);
            assert_eq!(summary.duplicate_groups, 0);
            assert_eq!(summary.potential_savings_bytes, 0);
        }
    }
    assert_eq!(completions, 1);
}

#[test]
fn cancelled_run_returns_partial_result() {
    let (sender, _receiver) = EventChannel::new();
    let hasher = HasherConfig::new().build().unwrap();
    let mut cache = InMemoryCache::new();
    let photos = vec![PhotoFile {
        path: "/a.jpg".to_string(),
        size: 10,
        modified: 0,
        format: ScanFormat::Jpeg,
    }];
    let flag = CancelFlag::new();
    flag.cancel();
    let result = run_on_loaded(
        &photos,
        &vec![None],
        8,
        &hasher,
        &mut cache,
        &sender,
        &flag,
        0,
        1,
    );
    assert_eq!(result.total_photos, 1);
    assert_eq!(result.photos_processed, 0);
    assert_eq!(result.cache_hits, 0);
    assert_eq!(result.groups.len(), 0);
    assert_eq!(cache.stats().unwrap().total_entries, 0);
}

#[test]
fn pipeline_groups_photos_hashed_from_cache() {
    let (sender, _receiver) = EventChannel::new();
    let hasher = HasherConfig::new().build().unwrap();
    let mut cache = InMemoryCache::new();
    for path in ["/a.jpg", "/b.jpg"] {
        cache
            .set(duplicate_photo_cleaner::cache::CacheEntry {
                path: path.to_string(),
                hash: vec![0xAB, 0xCD],
                algorithm: HashAlgorithmKind::Difference,
                file_size: 10,
                file_modified: 7,
                cached_at: 1,
            })
            .unwrap();
    }
    let photos = vec![
        PhotoFile {
            path: "/a.jpg".to_string(),
            size: 10,
            modified: 7,
            format: ScanFormat::Jpeg,
        },
        PhotoFile {
            path: "/b.jpg".to_string(),
            size: 10,
            modified: 7,
            format: ScanFormat::Jpeg,
        },
        PhotoFile {
            path: "/c.jpg".to_string(),
            size: 3,
            modified: 7,
            format: ScanFormat::Jpeg,
        },
    ];
    let result = run_on_loaded(
        &photos,
        &vec![None, None, None],
        8,
        &hasher,
        &mut cache,
        &sender,
        &CancelFlag::new(),
        99,
        0,
    );
    // Both cached photos hash without touching their bytes; the
    // uncached one, with no bytes to decode, is excluded with an
    // error. The identical hashes land both photos in one group.
    assert_eq!(result.total_photos, 3);
    assert_eq!(result.photos_processed, 3);
    assert_eq!(result.cache_hits, 2);
    assert_eq!(result.errors.len(), 1);
    assert_eq!(result.groups.len(), 1);
    assert_eq!(result.groups[0].photos.len(), 2);
    assert_eq!(result.groups[0].representative, "/a.jpg".to_string());
    // Nothing was computed, so the cache rows are unchanged.
    assert_eq!(cache.stats().unwrap().total_entries, 2);
}

#[test]
fn test_default_settings() {
    let scanner = LargeFileScanner::default();
    assert_eq!(scanner.min_size_bytes, 10 * 1024 * 1024);
    assert_eq!(scanner.max_results, 50);
}

#[test]
fn test_custom_settings() {
    let scanner = LargeFileScanner::new(100, 25);
    assert_eq!(scanner.min_size_bytes, 100 * 1024 * 1024);
    assert_eq!(scanner.max_results, 25);
}

#[test]
fn scanner_test_is_media_file() {
    assert!(is_media_file("photo.jpg"));
    assert!(is_media_file("photo.jpeg"));
    assert!(is_media_file("photo.png"));
    assert!(is_media_file("photo.mp4"));
    assert!(is_media_file("photo.mov"));
    assert!(is_media_file("photo.raw"));
    assert!(is_media_file("photo.heic"));
    assert!(!is_media_file("document.txt"));
    assert!(!is_media_file("archive.zip"));
    assert!(!is_media_file("script.rs"));
    assert!(!is_media_file("noextension"));
}

#[test]
fn test_get_file_type() {
    assert_eq!(get_file_type("photo.JPG"), "jpg");
    assert_eq!(get_file_type("video.MP4"), "mp4");
    assert_eq!(get_file_type("image.HEIC"), "heic");
    assert_eq!(get_file_type("noextension"), "unknown");
}

#[test]
fn select_top_keeps_largest_media_over_threshold() {
    let scanner = LargeFileScanner::new(10, 2);
    let mb = 1024 * 1024;
    let file = |path: &str, size: u64| LargeFileInfo {
        path: path.to_string(),
        filename: path.trim_start_matches('/').to_string(),
        size_bytes: size,
        file_type: "jpg".to_string(),
        modified: 0,
    };
    let candidates = vec![
        file("/small.jpg", mb),
        file("/big.jpg", 30 * mb),
        file("/mid.jpg", 15 * mb),
        file("/huge.jpg", 40 * mb),
        file("/notes.txt", 50 * mb),
    ];
    let result = scanner.select_top(candidates, 5, 7);
    assert_eq!(result.files.len(), 2);
    assert_eq!(result.files[0].size_bytes, 40 * mb);
    assert_eq!(result.files[1].size_bytes, 30 * mb);
    assert_eq!(result.total_size_bytes, 85 * mb);
    assert_eq!(result.files_scanned, 5);
    assert_eq!(result.scan_duration_ms, 7);
}
