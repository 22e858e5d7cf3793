//! Event types for progress reporting: tagged messages with small
//! immutable payloads, advisory only.

use vstd::prelude::*;

verus! {

/// Progress information during scanning.
#[derive(Debug, Clone)]
pub struct ScanProgress {
    /// Directories scanned so far.
    pub directories_scanned: usize,
    /// Photos found so far.
    pub photos_found: usize,
    /// Directory currently being scanned.
    pub current_path: String,
}

/// Events during the scanning phase.
#[derive(Debug, Clone)]
pub enum ScanEvent {
    /// Scanning has started over the given roots.
    Started { paths: Vec<String> },
    /// Periodic progress update.
    Progress(ScanProgress),
    /// An accepted photo was found.
    PhotoFound { path: String },
    /// A per-entry error; scanning continues.
    Error { path: String, message: String },
    /// Scanning completed.
    Completed { total_photos: usize },
}

/// Progress information during hashing.
#[derive(Debug, Clone)]
pub struct HashProgress {
    /// Photos hashed so far.
    pub completed: usize,
    /// Total photos to hash.
    pub total: usize,
    /// Photo currently being hashed.
    pub current_path: String,
    /// Cache hits so far.
    pub cache_hits: usize,
}

/// Events during the hashing phase.
#[derive(Debug, Clone)]
pub enum HashEvent {
    /// Hashing has started.
    Started { total_photos: usize },
    /// Periodic progress update.
    Progress(HashProgress),
    /// A photo was hashed.
    PhotoHashed { path: String },
    /// A photo's hash came from the cache.
    CacheHit { path: String },
    /// A per-photo error; hashing continues.
    Error { path: String, message: String },
    /// Hashing completed.
    Completed { total_hashed: usize, cache_hits: usize },
}

/// Progress information during comparison.
#[derive(Debug, Clone)]
pub struct CompareProgress {
    /// Comparisons completed so far.
    pub comparisons_completed: usize,
    /// Total comparisons needed.
    pub total_comparisons: usize,
    /// Duplicate groups found so far.
    pub groups_found: usize,
}

/// Events during the comparison phase.
#[derive(Debug, Clone)]
pub enum CompareEvent {
    /// Comparison has started.
    Started { total_photos: usize },
    /// Periodic progress update.
    Progress(CompareProgress),
    /// A duplicate group was found.
    DuplicateFound { group_id: String, photo_count: usize },
    /// Comparison completed.
    Completed { total_groups: usize, total_duplicates: usize },
}

/// Phases of the pipeline.
#[derive(Debug, Clone, Copy, PartialEq, Eq, Structural)]
pub enum PipelinePhase {
    Scanning,
    Hashing,
    Comparing,
    Reporting,
}

impl PipelinePhase {
    /// Human-readable label of the phase.
    pub fn label(&self) -> (r: &'static str)
        ensures
            *self == PipelinePhase::Scanning ==> r@ == "Scanning"@,
            *self == PipelinePhase::Hashing ==> r@ == "Hashing"@,
            *self == PipelinePhase::Comparing ==> r@ == "Comparing"@,
            *self == PipelinePhase::Reporting ==> r@ == "Reporting"@,
    {
        match self {
            PipelinePhase::Scanning => "Scanning",
            PipelinePhase::Hashing => "Hashing",
            PipelinePhase::Comparing => "Comparing",
            PipelinePhase::Reporting => "Reporting",
        }
    }
}

/// Summary of a pipeline run.
#[derive(Debug, Clone)]
pub struct PipelineSummary {
    /// Total photos scanned.
    pub total_photos: usize,
    /// Duplicate groups found.
    pub duplicate_groups: usize,
    /// Duplicate photos, not counting representatives.
    pub duplicate_count: usize,
    /// Potential space savings in bytes.
    pub potential_savings_bytes: u64,
    /// Run duration in milliseconds.
    pub duration_ms: u64,
}

/// Pipeline-level events.
#[derive(Debug, Clone)]
pub enum PipelineEvent {
    /// The pipeline has started.
    Started,
    /// The pipeline moved to a new phase.
    PhaseChanged { phase: PipelinePhase },
    /// The pipeline completed.
    Completed { summary: PipelineSummary },
    /// The pipeline was cancelled.
    Cancelled,
    /// The pipeline stopped with a fatal error.
    Error { message: String },
}

/// Events from the folder watcher.
#[derive(Debug, Clone)]
pub enum WatcherEvent {
    /// Monitoring of a folder started.
    Started { path: String },
    /// Monitoring of a folder stopped.
    Stopped { path: String },
    /// A new photo was detected.
    PhotoAdded { path: String },
    /// A photo was modified.
    PhotoModified { path: String },
    /// A photo was removed.
    PhotoRemoved { path: String },
    /// An error occurred while watching.
    Error { message: String },
}

/// All events emitted by the duplicate finder pipeline.
#[derive(Debug, Clone)]
pub enum Event {
    /// Scanning phase event.
    Scan(ScanEvent),
    /// Hashing phase event.
    Hash(HashEvent),
    /// Comparison phase event.
    Compare(CompareEvent),
    /// Pipeline-level event.
    Pipeline(PipelineEvent),
    /// File watcher event.
    Watcher(WatcherEvent),
}

} // verus!
