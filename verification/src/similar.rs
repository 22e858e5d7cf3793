//! Similar-photo detection: configuration and result types, and the
//! match filtering that keeps only the configured distance range.

use vstd::prelude::*;

use crate::comparator::{MatchResult, MatchType};

verus! {

/// Configuration for a similar-photo scan.
#[derive(Debug, Clone)]
pub struct SimilarConfig {
    /// Roots to scan.
    pub source_paths: Vec<String>,
    /// Minimum Hamming distance to include; excludes exact matches.
    pub min_distance: u32,
    /// Maximum Hamming distance to include.
    pub max_distance: u32,
    /// Hash algorithm name, if overridden.
    pub algorithm: Option<String>,
}

impl Default for SimilarConfig {
    /// The default range starts past the near-exact duplicates and
    /// reaches into the possibly-similar band.
    fn default() -> (r: SimilarConfig)
        ensures
            r.source_paths@.len() == 0,
            r.min_distance == 5,
            r.max_distance == 15,
            r.algorithm is None,
    {
        SimilarConfig {
            source_paths: Vec::new(),
            min_distance: 5,
            max_distance: 15,
            algorithm: None,
        }
    }
}

/// A photo similar to a group's reference photo.
#[derive(Debug, Clone)]
pub struct SimilarPhoto {
    /// Path of the photo.
    pub path: String,
    /// Distance to the reference.
    pub distance: u32,
    /// Similarity to the reference as a whole percentage.
    pub similarity_percent: u32,
    /// Classification of the match.
    pub match_type: MatchType,
    /// File size in bytes.
    pub size_bytes: u64,
}

/// A group of photos similar to one reference.
#[derive(Debug, Clone)]
pub struct SimilarGroup {
    /// Identifier of the group.
    pub id: String,
    /// The reference photo the others are compared against.
    pub reference: String,
    /// Size of the reference in bytes.
    pub reference_size_bytes: u64,
    /// The photos similar to the reference.
    pub similar_photos: Vec<SimilarPhoto>,
    /// Mean similarity within the group, in hundredths of a percent.
    pub average_similarity_centi: u64,
    /// Total size of all photos of the group.
    pub total_size_bytes: u64,
}

impl SimilarGroup {
    /// Number of similar photos, not counting the reference.
    pub fn similar_count(&self) -> (r: usize)
        ensures
            r == self.similar_photos@.len(),
    {
        self.similar_photos.len()
    }
}

/// Result of a similar-photo scan.
#[derive(Debug, Clone)]
pub struct SimilarResult {
    /// The groups found.
    pub groups: Vec<SimilarGroup>,
    /// Total photos examined.
    pub total_photos_scanned: usize,
    /// Number of groups found.
    pub similar_groups_found: usize,
    /// Number of similar photos found, over all groups.
    pub similar_photos_found: usize,
    /// Run duration in milliseconds.
    pub duration_ms: u64,
}

/// Summary of matches by classification.
#[derive(Debug, Clone)]
pub struct MatchTypeSummary {
    /// The classification.
    pub match_type: MatchType,
    /// How many matches fall in it.
    pub count: usize,
    /// Their total size in bytes.
    pub size_bytes: u64,
}

/// The matches whose distance falls inside the configured range, in
/// their original order.
pub open spec fn spec_range_filter(matches: Seq<MatchResult>, min: u32, max: u32) -> Seq<
    MatchResult,
>
    decreases matches.len(),
{
    if matches.len() == 0 {
        matches
    } else {
        let rest = spec_range_filter(matches.drop_last(), min, max);
        if min <= matches.last().distance <= max {
            rest.push(matches.last())
        } else {
            rest
        }
    }
}

/// Finds photos that are similar without being exact duplicates.
pub struct SimilarScanner {}

impl SimilarScanner {
    /// Keep only the matches whose distance lies in the configured
    /// range, preserving order; transitive grouping then runs on the
    /// result.
    pub fn filter_matches(matches: &Vec<MatchResult>, min_distance: u32, max_distance: u32) -> (r:
        Vec<MatchResult>)
        ensures
            r@ == spec_range_filter(matches@, min_distance, max_distance),
    {
        let mut r: Vec<MatchResult> = Vec::new();
        let mut k: usize = 0;
        proof {
            assert(matches@.take(0) =~= Seq::<MatchResult>::empty());
        }
        while k < matches.len()
            invariant
                k <= matches@.len(),
                r@ == spec_range_filter(matches@.take(k as int), min_distance, max_distance),
            decreases matches@.len() - k,
        {
            let m = &matches[k];
            proof {
                assert(matches@.take(k + 1).drop_last() =~= matches@.take(k as int));
                assert(matches@.take(k + 1).last() == matches@[k as int]);
            }
            if min_distance <= m.distance && m.distance <= max_distance {
                let copy = MatchResult {
                    photo_a: m.photo_a.clone(),
                    photo_b: m.photo_b.clone(),
                    distance: m.distance,
                    similarity_percent: m.similarity_percent,
                    match_type: m.match_type,
                };
                proof {
                    assert(copy == matches@[k as int]);
                }
                r.push(copy);
            }
            k = k + 1;
        }
        proof {
            assert(matches@.take(matches@.len() as int) =~= matches@);
        }
        r
    }
}

} // verus!
