//! Tests of the comparison, grouping and fusion core.

use duplicate_photo_cleaner::comparator::{
    find_duplicate_pairs, DuplicateGroup, MatchResult, MatchType, ThresholdStrategy,
};
use duplicate_photo_cleaner::fusion::{FusionConfidence, FusionHash};
use duplicate_photo_cleaner::grouper::{TransitiveGrouper, UnionFind};
use duplicate_photo_cleaner::lsh::{LshConfig, LshIndex};
use duplicate_photo_cleaner::comparator::ComparisonStrategy;
use duplicate_photo_cleaner::hashval::{HashAlgorithmKind, ImageHashValue};
use duplicate_photo_cleaner::reporter::calculate_group_savings;
use duplicate_photo_cleaner::scanner::{ImageFormat as ScanFormat, PhotoFile};

fn hash_of(bytes: &[u8]) -> ImageHashValue {
    ImageHashValue::from_bytes(bytes, HashAlgorithmKind::Difference)
}

fn create_match(a: &str, b: &str, distance: u32) -> MatchResult {
    MatchResult {
        photo_a: a.to_string(),
        photo_b: b.to_string(),
        distance,
        similarity_percent: 100 - distance,
        match_type: MatchType::from_distance(distance),
    }
}

#[test]
fn match_type_from_distance() {
    assert_eq!(MatchType::from_distance(0), MatchType::Exact);
    assert_eq!(MatchType::from_distance(3), MatchType::NearExact);
    assert_eq!(MatchType::from_distance(7), MatchType::Similar);
    assert_eq!(MatchType::from_distance(15), MatchType::MaybeSimilar);
}

#[test]
fn match_type_is_duplicate() {
    assert!(MatchType::Exact.is_duplicate());
    assert!(MatchType::NearExact.is_duplicate());
    assert!(MatchType::Similar.is_duplicate());
    assert!(!MatchType::MaybeSimilar.is_duplicate());
}

#[test]
fn threshold_strategy_at_boundary() {
    let strategy = ThresholdStrategy::new(5);
    assert!(strategy.is_duplicate(4));
    assert!(strategy.is_duplicate(5));
    assert!(!strategy.is_duplicate(6));
}

#[test]
fn threshold_strategy_classifies_correctly() {
    let strategy = ThresholdStrategy::new(10);
    assert_eq!(strategy.classify(0), MatchType::Exact);
    assert_eq!(strategy.classify(3), MatchType::NearExact);
    assert_eq!(strategy.classify(7), MatchType::Similar);
    assert_eq!(strategy.classify(12), MatchType::MaybeSimilar);
}

#[test]
fn preset_strategies() {
    assert_eq!(ThresholdStrategy::conservative().threshold(), 5);
    assert_eq!(ThresholdStrategy::balanced().threshold(), 8);
    assert_eq!(ThresholdStrategy::permissive().threshold(), 10);
}

#[test]
fn description_includes_threshold() {
    let strategy = ThresholdStrategy::new(7);
    let desc = strategy.description();
    assert!(desc.contains("7"));
}

#[test]
fn find_duplicate_pairs_empty_input() {
    let strategy = ThresholdStrategy::new(10);
    let pairs = find_duplicate_pairs(&vec![], &strategy);
    assert!(pairs.is_empty());
}

#[test]
fn find_duplicate_pairs_single_photo() {
    let strategy = ThresholdStrategy::new(10);
    let photos = vec![("/photo.jpg".to_string(), hash_of(&[0xFF]))];
    let pairs = find_duplicate_pairs(&photos, &strategy);
    assert!(pairs.is_empty());
}

#[test]
fn find_duplicate_pairs_finds_matches() {
    let strategy = ThresholdStrategy::new(5);
    let photos = vec![
        ("/a.jpg".to_string(), hash_of(&[0xFF])),
        ("/b.jpg".to_string(), hash_of(&[0xFF])),
        ("/c.jpg".to_string(), hash_of(&[0x00])),
    ];
    let pairs = find_duplicate_pairs(&photos, &strategy);
    assert_eq!(pairs.len(), 1);
    assert_eq!(pairs[0].distance, 0);
    assert_eq!(pairs[0].match_type, MatchType::Exact);
}

#[test]
fn distance_to_self_is_zero() {
    let hash = hash_of(&[0xFF, 0x00, 0xAA, 0x55]);
    assert_eq!(hash.distance(&hash), 0);
}

#[test]
fn distance_is_symmetric() {
    let hash_a = hash_of(&[0xFF, 0x00]);
    let hash_b = hash_of(&[0x00, 0xFF]);
    assert_eq!(hash_a.distance(&hash_b), hash_b.distance(&hash_a));
}

#[test]
fn distance_counts_differing_bits() {
    let hash_a = hash_of(&[0b11111111]);
    let hash_b = hash_of(&[0b00000000]);
    assert_eq!(hash_a.distance(&hash_b), 8);
}

#[test]
fn algorithm_kind_display() {
    assert_eq!(HashAlgorithmKind::Average.label(), "aHash");
    assert_eq!(HashAlgorithmKind::Difference.label(), "dHash");
    assert_eq!(HashAlgorithmKind::Perceptual.label(), "pHash");
}

#[test]
fn to_hex_produces_correct_string() {
    let hash = hash_of(&[0xDE, 0xAD, 0xBE, 0xEF]);
    assert_eq!(hash.to_hex(), "deadbeef");
}

#[test]
fn empty_matches_returns_empty() {
    let grouper = TransitiveGrouper::new();
    let groups = grouper.group(&vec![]);
    assert!(groups.is_empty());
}

#[test]
fn single_pair_creates_single_group() {
    let grouper = TransitiveGrouper::new();
    let matches = vec![create_match("/a.jpg", "/b.jpg", 0)];
    let groups = grouper.group(&matches);
    assert_eq!(groups.len(), 1);
    assert_eq!(groups[0].photos.len(), 2);
}

#[test]
fn transitive_grouping() {
    let grouper = TransitiveGrouper::new();
    let matches = vec![
        create_match("/a.jpg", "/b.jpg", 2),
        create_match("/b.jpg", "/c.jpg", 3),
    ];
    let groups = grouper.group(&matches);
    assert_eq!(groups.len(), 1);
    assert_eq!(groups[0].photos.len(), 3);
}

#[test]
fn transitive_chain_average_distance() {
    // Pairwise distances 2 and 3 within threshold 5: one group of
    // three with mean distance 2.5.
    let grouper = TransitiveGrouper::new();
    let matches = vec![
        create_match("/a.jpg", "/b.jpg", 2),
        create_match("/b.jpg", "/c.jpg", 3),
    ];
    let groups = grouper.group(&matches);
    assert_eq!(groups.len(), 1);
    assert_eq!(groups[0].photos.len(), 3);
    assert_eq!(groups[0].match_type, MatchType::NearExact);
    assert_eq!(groups[0].average_distance_centi(), 250);
}

#[test]
fn disjoint_pairs_create_separate_groups() {
    let grouper = TransitiveGrouper::new();
    let matches = vec![
        create_match("/a.jpg", "/b.jpg", 0),
        create_match("/c.jpg", "/d.jpg", 0),
    ];
    let groups = grouper.group(&matches);
    assert_eq!(groups.len(), 2);
    assert!(groups.iter().all(|g| g.photos.len() == 2));
    for g1 in 0..groups.len() {
        for g2 in 0..groups.len() {
            if g1 != g2 {
                for p in &groups[g1].photos {
                    assert!(!groups[g2].photos.contains(p));
                }
            }
        }
    }
}

#[test]
fn group_has_representative() {
    let grouper = TransitiveGrouper::new();
    let matches = vec![create_match("/a.jpg", "/b.jpg", 0)];
    let groups = grouper.group(&matches);
    assert!(groups[0].photos.contains(&groups[0].representative));
}

#[test]
fn group_tracks_match_type() {
    let grouper = TransitiveGrouper::new();
    let matches = vec![create_match("/a.jpg", "/b.jpg", 0)];
    let groups = grouper.group(&matches);
    assert_eq!(groups[0].match_type, MatchType::Exact);
}

#[test]
fn duplicate_count_excludes_representative() {
    let grouper = TransitiveGrouper::new();
    let matches = vec![
        create_match("/a.jpg", "/b.jpg", 0),
        create_match("/b.jpg", "/c.jpg", 0),
    ];
    let groups = grouper.group(&matches);
    assert_eq!(groups[0].duplicate_count(), 2);
}

#[test]
fn union_find_basic_operations() {
    let a = "/a.jpg".to_string();
    let b = "/b.jpg".to_string();
    let c = "/c.jpg".to_string();
    let mut uf = UnionFind::new(vec![a.clone(), b.clone(), c.clone()]);
    assert_eq!(uf.find(&a), a);
    assert_eq!(uf.find(&b), b);
    uf.union(&a, &b);
    assert_eq!(uf.find(&a), uf.find(&b));
    assert_ne!(uf.find(&a), uf.find(&c));
    uf.union(&b, &c);
    assert_eq!(uf.find(&a), uf.find(&c));
}

#[test]
fn complex_transitive_chain() {
    let grouper = TransitiveGrouper::new();
    let matches = vec![
        create_match("/a.jpg", "/b.jpg", 1),
        create_match("/c.jpg", "/d.jpg", 2),
        create_match("/b.jpg", "/c.jpg", 3),
    ];
    let groups = grouper.group(&matches);
    assert_eq!(groups.len(), 1);
    assert_eq!(groups[0].photos.len(), 4);
}

#[test]
fn best_match_type_is_preserved() {
    let grouper = TransitiveGrouper::new();
    let matches = vec![
        create_match("/a.jpg", "/b.jpg", 0),
        create_match("/b.jpg", "/c.jpg", 10),
    ];
    let groups = grouper.group(&matches);
    assert_eq!(groups[0].match_type, MatchType::Exact);
}

#[test]
fn large_group_handling() {
    let grouper = TransitiveGrouper::new();
    let mut matches = Vec::new();
    for i in 1..100 {
        matches.push(create_match(
            &format!("/{}.jpg", i),
            &format!("/{}.jpg", i + 1),
            0,
        ));
    }
    let groups = grouper.group(&matches);
    assert_eq!(groups.len(), 1);
    assert_eq!(groups[0].photos.len(), 100);
}

#[test]
fn representative_is_lexicographically_first() {
    // Two byte-identical hashes: one exact group whose kept photo is
    // the lexicographically first path.
    let strategy = ThresholdStrategy::new(5);
    let photos = vec![
        ("/photos/B.jpg".to_string(), hash_of(&[0xAB, 0xCD])),
        ("/photos/A.jpg".to_string(), hash_of(&[0xAB, 0xCD])),
    ];
    let pairs = find_duplicate_pairs(&photos, &strategy);
    assert_eq!(pairs.len(), 1);
    assert_eq!(pairs[0].distance, 0);
    assert_eq!(pairs[0].similarity_percent, 100);
    let groups = TransitiveGrouper::new().group(&pairs);
    assert_eq!(groups.len(), 1);
    assert_eq!(groups[0].representative, "/photos/A.jpg".to_string());
}

#[test]
fn threshold_zero_accepts_identical_only() {
    let strategy = ThresholdStrategy::new(0);
    let same = hash_of(&[0x12, 0x34]);
    let other = hash_of(&[0x12, 0x35]);
    assert!(strategy.is_duplicate(same.distance(&same)));
    assert!(!strategy.is_duplicate(same.distance(&other)));
}

#[test]
fn threshold_bit_count_accepts_all() {
    let a = hash_of(&[0x00, 0x00]);
    let b = hash_of(&[0xFF, 0xFF]);
    let strategy = ThresholdStrategy::new(a.bit_count());
    assert!(strategy.is_duplicate(a.distance(&b)));
}

fn create_fusion_hash(a: u8, d: u8, p: u8) -> FusionHash {
    FusionHash::new(
        ImageHashValue::new(vec![a], HashAlgorithmKind::Average),
        ImageHashValue::new(vec![d], HashAlgorithmKind::Difference),
        ImageHashValue::new(vec![p], HashAlgorithmKind::Perceptual),
    )
}

#[test]
fn identical_hashes_have_high_confidence() {
    let hash1 = create_fusion_hash(0xFF, 0xFF, 0xFF);
    let hash2 = create_fusion_hash(0xFF, 0xFF, 0xFF);
    let result = hash1.compare(&hash2, 5);
    assert_eq!(result.votes, 3);
    assert_eq!(result.confidence, FusionConfidence::High);
    assert!(result.is_duplicate);
    assert_eq!(result.min_distance, 0);
}

#[test]
fn two_matching_has_medium_confidence() {
    let hash1 = create_fusion_hash(0xFF, 0xFF, 0xFF);
    let hash2 = create_fusion_hash(0xFF, 0xFF, 0x00);
    let result = hash1.compare(&hash2, 5);
    assert_eq!(result.votes, 2);
    assert_eq!(result.confidence, FusionConfidence::Medium);
    assert!(result.is_duplicate);
}

#[test]
fn one_matching_has_low_confidence() {
    let hash1 = create_fusion_hash(0xFF, 0xFF, 0xFF);
    let hash2 = create_fusion_hash(0xFF, 0x00, 0x00);
    let result = hash1.compare(&hash2, 5);
    assert_eq!(result.votes, 1);
    assert_eq!(result.confidence, FusionConfidence::Low);
    assert!(!result.is_duplicate);
}

#[test]
fn no_matching_has_no_confidence() {
    let hash1 = create_fusion_hash(0xFF, 0xFF, 0xFF);
    let hash2 = create_fusion_hash(0x00, 0x00, 0x00);
    let result = hash1.compare(&hash2, 5);
    assert_eq!(result.votes, 0);
    assert_eq!(result.confidence, FusionConfidence::NoMatch);
    assert!(!result.is_duplicate);
}

#[test]
fn bytes_roundtrip() {
    let hash = create_fusion_hash(0xDE, 0xAD, 0xBE);
    let bytes = hash.to_bytes();
    let restored = FusionHash::from_bytes(&bytes).unwrap();
    assert_eq!(hash.ahash.as_bytes(), restored.ahash.as_bytes());
    assert_eq!(hash.dhash.as_bytes(), restored.dhash.as_bytes());
    assert_eq!(hash.phash.as_bytes(), restored.phash.as_bytes());
}

#[test]
fn fusion_consensus_two_of_three() {
    // aHash distance 2, dHash distance 3, pHash distance 20 at
    // threshold 5: two of three agree, so a duplicate at the least
    // agreeing distance.
    let hash1 = FusionHash::new(
        ImageHashValue::new(vec![0b0000_0011, 0x00], HashAlgorithmKind::Average),
        ImageHashValue::new(vec![0b0000_0111, 0x00], HashAlgorithmKind::Difference),
        ImageHashValue::new(vec![0xFF, 0xFF, 0xF0], HashAlgorithmKind::Perceptual),
    );
    let hash2 = FusionHash::new(
        ImageHashValue::new(vec![0x00, 0x00], HashAlgorithmKind::Average),
        ImageHashValue::new(vec![0x00, 0x00], HashAlgorithmKind::Difference),
        ImageHashValue::new(vec![0x00, 0x00, 0x00], HashAlgorithmKind::Perceptual),
    );
    let result = hash1.compare(&hash2, 5);
    assert_eq!(result.ahash_distance, 2);
    assert_eq!(result.dhash_distance, 3);
    assert_eq!(result.phash_distance, 20);
    assert_eq!(result.votes, 2);
    assert_eq!(result.confidence, FusionConfidence::Medium);
    assert!(result.is_duplicate);
    assert_eq!(result.min_distance, 2);
}

#[test]
fn group_construction_defaults() {
    let g = DuplicateGroup::new(
        vec!["/a.jpg".to_string(), "/b.jpg".to_string()],
        "/a.jpg".to_string(),
        MatchType::Exact,
    );
    assert_eq!(g.duplicate_count(), 1);
    assert_eq!(g.average_distance_centi(), 0);
}

#[test]
fn savings_are_the_sizes_of_non_representatives() {
    let photos = vec![
        PhotoFile {
            path: "/a.jpg".to_string(),
            size: 1000,
            modified: 0,
            format: ScanFormat::Jpeg,
        },
        PhotoFile {
            path: "/b.jpg".to_string(),
            size: 700,
            modified: 0,
            format: ScanFormat::Jpeg,
        },
    ];
    let groups = TransitiveGrouper::new().group(&vec![create_match("/a.jpg", "/b.jpg", 0)]);
    let (groups, total) = calculate_group_savings(groups, &photos);
    assert_eq!(groups.len(), 1);
    assert_eq!(groups[0].representative, "/a.jpg".to_string());
    assert_eq!(groups[0].duplicate_size_bytes, 700);
    assert_eq!(total, 700);
}

#[test]
fn group_stats_follow_contributing_matches() {
    let matches = vec![
        create_match("/a.jpg", "/b.jpg", 2),
        create_match("/b.jpg", "/c.jpg", 3),
        create_match("/x.jpg", "/y.jpg", 7),
    ];
    let groups = TransitiveGrouper::new().group(&matches);
    assert_eq!(groups.len(), 2);
    let abc = groups.iter().find(|g| g.photos.contains(&"/a.jpg".to_string())).unwrap();
    assert_eq!(abc.distance_sum, 5);
    assert_eq!(abc.match_count, 2);
    assert_eq!(abc.match_type, MatchType::NearExact);
    let xy = groups.iter().find(|g| g.photos.contains(&"/x.jpg".to_string())).unwrap();
    assert_eq!(xy.distance_sum, 7);
    assert_eq!(xy.match_count, 1);
    assert_eq!(xy.match_type, MatchType::Similar);
}

#[test]
fn every_match_endpoint_is_grouped() {
    let matches = vec![
        create_match("/a.jpg", "/b.jpg", 1),
        create_match("/c.jpg", "/d.jpg", 2),
        create_match("/e.jpg", "/f.jpg", 3),
    ];
    let groups = TransitiveGrouper::new().group(&matches);
    for m in &matches {
        let holder = groups
            .iter()
            .filter(|g| g.photos.contains(&m.photo_a) && g.photos.contains(&m.photo_b))
            .count();
        assert_eq!(holder, 1);
    }
}

#[test]
fn empty_index() {
    let index = LshIndex::with_default_config();
    assert!(index.is_empty());
    assert_eq!(index.len(), 0);
    assert!(index.find_candidates().is_empty());
}

#[test]
fn single_photo_no_candidates() {
    let mut index = LshIndex::with_default_config();
    index.add("/a.jpg".to_string(), hash_of(&[0xFF, 0xFF, 0xFF, 0xFF]));
    assert_eq!(index.len(), 1);
    assert!(index.find_candidates().is_empty());
}

#[test]
fn identical_hashes_are_candidates() {
    let mut index = LshIndex::with_default_config();
    index.add("/a.jpg".to_string(), hash_of(&[0xFF, 0xFF, 0xFF, 0xFF]));
    index.add("/b.jpg".to_string(), hash_of(&[0xFF, 0xFF, 0xFF, 0xFF]));
    let candidates = index.find_candidates();
    assert_eq!(candidates.len(), 1);
    assert_eq!(candidates[0], (0, 1));
}

#[test]
fn similar_hashes_are_candidates() {
    let mut index = LshIndex::new(LshConfig::new(4));
    index.add("/a.jpg".to_string(), hash_of(&[0xFF, 0xFF, 0xFF, 0xFF]));
    index.add("/b.jpg".to_string(), hash_of(&[0xFE, 0xFF, 0xFF, 0xFF]));
    let candidates = index.find_candidates();
    assert!(!candidates.is_empty());
}

#[test]
fn very_different_hashes_not_candidates() {
    let mut index = LshIndex::new(LshConfig::new(4));
    index.add("/a.jpg".to_string(), hash_of(&[0xFF, 0xFF, 0xFF, 0xFF]));
    index.add("/b.jpg".to_string(), hash_of(&[0x00, 0x00, 0x00, 0x00]));
    let candidates = index.find_candidates();
    assert!(candidates.is_empty());
}

#[test]
fn stats_shows_reduction() {
    let mut index = LshIndex::with_default_config();
    for i in 0..10u8 {
        index.add(format!("/{}.jpg", i), hash_of(&[i, i, i, i]));
    }
    let stats = index.stats();
    assert_eq!(stats.total_photos, 10);
    assert_eq!(stats.naive_comparisons, 45);
}

#[test]
fn high_duplicate_density() {
    let mut index = LshIndex::with_default_config();
    for i in 0..5 {
        index.add(format!("/{}.jpg", i), hash_of(&[0xAA, 0xBB, 0xCC, 0xDD]));
    }
    let candidates = index.find_candidates();
    assert_eq!(candidates.len(), 10);
}

#[test]
fn min_matching_bands_filters() {
    let config = LshConfig::new(4).with_min_matching_bands(2);
    let mut index = LshIndex::new(config);
    index.add("/a.jpg".to_string(), hash_of(&[0xFF, 0xFF, 0xFF, 0xFF]));
    index.add("/b.jpg".to_string(), hash_of(&[0xFF, 0xFF, 0x00, 0x00]));
    let candidates = index.find_candidates();
    assert!(!candidates.is_empty());
}

#[test]
fn candidate_pairs_carry_their_photos() {
    let mut index = LshIndex::with_default_config();
    index.add("/a.jpg".to_string(), hash_of(&[0x12, 0x34, 0x56, 0x78]));
    index.add("/b.jpg".to_string(), hash_of(&[0x12, 0x34, 0x56, 0x78]));
    let pairs = index.find_candidate_pairs();
    assert_eq!(pairs.len(), 1);
    assert_eq!(pairs[0].0, "/a.jpg");
    assert_eq!(pairs[0].2, "/b.jpg");
    assert_eq!(pairs[0].1.as_bytes(), &vec![0x12, 0x34, 0x56, 0x78]);
}
