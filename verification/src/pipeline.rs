//! The pipeline orchestrator's decisions: per-photo hashing with the
//! cache, chunked cache flushes, comparison, grouping and the run
//! summary. The host performs the walking, the file reads and the
//! clock, and hands the plain values here.

use vstd::prelude::*;

use crate::cache::{batch_lookup, cache_lookup, CacheBackend, CacheEntry, InMemoryCache};
use crate::channel::EventSender;
use crate::comparator::{DuplicateGroup, ThresholdStrategy};
use crate::decode::{spec_chosen_decode, spec_path_format, FastDecoder, ImageFormat};
use crate::error::HashError;
use crate::events::{CompareEvent, Event, HashEvent, PipelineEvent, PipelineSummary};
use crate::grouper::TransitiveGrouper;
use crate::hasher::Hasher;
use crate::hashval::{HashAlgorithmKind, ImageHashValue, MAX_HASH_BYTES};
use crate::reporter::calculate_group_savings;
use crate::scanner::{PhotoFile, ScanConfig};

verus! {

/// How many cache entries are written per batch, bounding what a
/// crash or a cancellation can lose.
pub const CHUNK_SIZE: usize = 100;

/// Configuration for a pipeline run.
#[derive(Debug, Clone)]
pub struct PipelineConfig {
    /// Directories to scan.
    pub paths: Vec<String>,
    /// Hash algorithm to use.
    pub algorithm: HashAlgorithmKind,
    /// Comparison threshold; lower is stricter.
    pub threshold: u32,
    /// Scanner configuration.
    pub scan_config: ScanConfig,
}

impl Default for PipelineConfig {
    /// The default run: dHash at threshold eight with the default
    /// scan configuration.
    fn default() -> (r: PipelineConfig)
        ensures
            r.paths@.len() == 0,
            r.algorithm == HashAlgorithmKind::Difference,
            r.threshold == 8,
    {
        PipelineConfig {
            paths: Vec::new(),
            algorithm: HashAlgorithmKind::Difference,
            threshold: 8,
            scan_config: ScanConfig::default(),
        }
    }
}

/// Result of a pipeline run.
#[derive(Debug)]
pub struct PipelineResult {
    /// The duplicate groups found.
    pub groups: Vec<DuplicateGroup>,
    /// Total photos scanned.
    pub total_photos: usize,
    /// How many photos the hashing loop processed before a
    /// cancellation checkpoint stopped it; equal to `total_photos`
    /// on an uncancelled run.
    pub photos_processed: usize,
    /// How many hashes came from the cache.
    pub cache_hits: usize,
    /// Non-fatal errors, human readable.
    pub errors: Vec<String>,
    /// Run duration in milliseconds.
    pub duration_ms: u64,
}

/// A shared cancellation flag, checked at loop checkpoints. Writes
/// release, reads acquire.
pub struct CancelFlag {
    /// The shared flag.
    pub inner: std::sync::Arc<core::sync::atomic::AtomicBool>,
}

impl CancelFlag {
    /// Create an unset flag.
    /// Relies on AtomicBool::new inside a fresh Arc.
    #[verifier::external_body]
    pub fn new() -> (r: CancelFlag)
    {
        CancelFlag {
            inner: std::sync::Arc::new(core::sync::atomic::AtomicBool::new(false)),
        }
    }

    /// A second handle to the same flag.
    /// Relies on Arc::clone: both handles share one flag.
    #[verifier::external_body]
    pub fn clone_flag(&self) -> (r: CancelFlag) {
        CancelFlag { inner: self.inner.clone() }
    }

    /// Set the flag; every holder observes it at its next checkpoint.
    /// Relies on AtomicBool::store with release ordering.
    #[verifier::external_body]
    pub fn cancel(&self) {
        self.inner.store(true, core::sync::atomic::Ordering::Release);
    }

    /// Whether the flag is set. Another thread may set it at any
    /// moment, so no outcome is promised.
    #[verifier::external_body]
    pub fn is_cancelled(&self) -> (r: bool) {
        self.inner.load(core::sync::atomic::Ordering::Acquire)
    }
}

/// Outcome of hashing one photo.
pub enum HashStepOutcome {
    /// A fresh cache entry supplied the hash; nothing to write back.
    Hit(ImageHashValue),
    /// The hash was computed; the entry is queued for a batch write.
    Computed(ImageHashValue, CacheEntry),
    /// The photo is excluded from later phases with this error.
    Excluded(HashError),
}

/// Whether the cache holds a fresh, usable entry for the photo.
pub open spec fn spec_cache_hit(rows: Seq<CacheEntry>, photo: PhotoFile) -> bool {
    match cache_lookup(rows, photo.path@) {
        Some(e) => e.file_size == photo.size && e.file_modified == photo.modified && e.hash@.len()
            <= MAX_HASH_BYTES,
        None => false,
    }
}

/// Whether decoding the bytes and hashing the decoded grid succeeds.
pub open spec fn spec_compute_ok(bytes: Seq<u8>, path: Seq<char>, hasher: Hasher) -> bool {
    match spec_chosen_decode(bytes, spec_path_format(path)) {
        Some((w, h, px)) => hasher.spec_hash_ok(px, w as int, h as int),
        None => false,
    }
}

/// Hash one photo: a fresh cache entry wins; otherwise the file
/// bytes, when the host could read them, are decoded and hashed, and
/// the new entry is queued; anything else excludes the photo.
pub fn hash_step(
    cache: &InMemoryCache,
    photo: &PhotoFile,
    bytes: Option<&Vec<u8>>,
    hasher: &Hasher,
    now: u64,
) -> (r: HashStepOutcome)
    requires
        1 <= hasher.size_spec() <= 512,
    ensures
        r is Hit <==> spec_cache_hit(cache.rows(), *photo),
        r is Computed <==> (!spec_cache_hit(cache.rows(), *photo) && match bytes {
            Some(b) => spec_compute_ok(b@, photo.path@, *hasher),
            None => false,
        }),
        match r {
            HashStepOutcome::Hit(h) => match cache_lookup(cache.rows(), photo.path@) {
                Some(e) => h.bytes@ == e.hash@ && h.algorithm == e.algorithm && h.wf(),
                None => false,
            },
            HashStepOutcome::Computed(h, entry) => match bytes {
                Some(b) => match spec_chosen_decode(b@, spec_path_format(photo.path@)) {
                    Some((w, hh, px)) => {
                        &&& h.bytes@ == hasher.spec_hash_bytes(px, w as int, hh as int)
                        &&& h.algorithm == hasher.kind_spec()
                        &&& h.wf()
                        &&& entry.path@ == photo.path@
                        &&& entry.hash@ == h.bytes@
                        &&& entry.algorithm == h.algorithm
                        &&& entry.file_size == photo.size
                        &&& entry.file_modified == photo.modified
                        &&& entry.cached_at == now
                    },
                    None => false,
                },
                None => false,
            },
            HashStepOutcome::Excluded(e) => e is DecodeError || e is ComputationFailed || e
                is IoError,
        },
{
    match cache.get(&photo.path, photo.size, photo.modified) {
        Ok(Some(entry)) => {
            if entry.hash.len() <= MAX_HASH_BYTES {
                return HashStepOutcome::Hit(
                    ImageHashValue::from_bytes(entry.hash.as_slice(), entry.algorithm),
                );
            }
        },
        Ok(None) => {},
        Err(_) => {
            proof {
                assert(false);
            }
        },
    }
    proof {
        if spec_cache_hit(cache.rows(), *photo) {
            assert(false);
        }
    }
    let b = match bytes {
        Some(b) => b,
        None => {
            return HashStepOutcome::Excluded(
                HashError::IoError {
                    path: photo.path.clone(),
                    cause: String::from_str("the file could not be read"),
                },
            );
        },
    };
    let format = ImageFormat::from_path(photo.path.as_str());
    let grid = match FastDecoder::decode(b, format, &photo.path) {
        Ok(g) => g,
        Err(e) => {
            return HashStepOutcome::Excluded(e);
        },
    };
    match hasher.hash_image(&grid) {
        Ok(h) => {
            let entry = CacheEntry {
                path: photo.path.clone(),
                hash: crate::cache::clone_bytes_of(&h.bytes),
                algorithm: h.algorithm,
                file_size: photo.size,
                file_modified: photo.modified,
                cached_at: now,
            };
            HashStepOutcome::Computed(h, entry)
        },
        Err(e) => HashStepOutcome::Excluded(e),
    }
}

/// The zero-valued result for a run that found no photos.
pub fn empty_result(errors: Vec<String>, duration_ms: u64) -> (r: PipelineResult)
    ensures
        r.groups@.len() == 0,
        r.total_photos == 0,
        r.photos_processed == 0,
        r.cache_hits == 0,
        r.errors == errors,
        r.duration_ms == duration_ms,
{
    PipelineResult {
        groups: Vec::new(),
        total_photos: 0,
        photos_processed: 0,
        cache_hits: 0,
        errors,
        duration_ms,
    }
}

/// The determined view of one hash the run produces: the path and
/// the hash bytes.
pub struct HashRec {
    /// The photo's path.
    pub path: Seq<char>,
    /// The hash bytes: the cached ones on a hit, the kernel's
    /// otherwise.
    pub bytes: Seq<u8>,
}

/// The determined view of one cache entry the run computes.
pub struct EntryRec {
    /// The photo's path.
    pub path: Seq<char>,
    /// The computed hash bytes.
    pub hash: Seq<u8>,
    /// The hasher's algorithm.
    pub algorithm: HashAlgorithmKind,
    /// The photo's size.
    pub file_size: u64,
    /// The photo's modification time.
    pub file_modified: u64,
    /// The run's clock reading.
    pub cached_at: u64,
}

/// The bytes the host read for a photo, viewed.
pub open spec fn spec_opt_bytes(b: Option<Vec<u8>>) -> Option<Seq<u8>> {
    match b {
        Some(v) => Some(v@),
        None => None,
    }
}

/// Whether hashing photo `k` computes a fresh hash: no fresh cache
/// entry, readable bytes, and a decodable, hashable image.
pub open spec fn spec_is_computed(
    rows: Seq<CacheEntry>,
    photo: PhotoFile,
    b: Option<Vec<u8>>,
    hasher: Hasher,
) -> bool {
    !spec_cache_hit(rows, photo) && match spec_opt_bytes(b) {
        Some(bb) => spec_compute_ok(bb, photo.path@, hasher),
        None => false,
    }
}

/// The hash bytes a computed photo gets: the configured kernel over
/// the chosen decode of its file bytes.
pub open spec fn spec_computed_bytes(photo: PhotoFile, b: Option<Vec<u8>>, hasher: Hasher) -> Seq<
    u8,
> {
    match spec_chosen_decode(spec_opt_bytes(b).unwrap(), spec_path_format(photo.path@)) {
        Some((w, h, px)) => hasher.spec_hash_bytes(px, w as int, h as int),
        None => Seq::empty(),
    }
}

/// The hash list the run determines over its first `n` photos: the
/// cached bytes for fresh entries, the kernel's bytes for computed
/// ones; excluded photos contribute nothing.
pub open spec fn spec_hash_views(
    photos: Seq<PhotoFile>,
    bytes: Seq<Option<Vec<u8>>>,
    rows: Seq<CacheEntry>,
    hasher: Hasher,
    n: int,
) -> Seq<HashRec>
    decreases n,
{
    if n <= 0 {
        Seq::empty()
    } else {
        let rest = spec_hash_views(photos, bytes, rows, hasher, n - 1);
        let photo = photos[n - 1];
        if spec_cache_hit(rows, photo) {
            rest.push(
                HashRec {
                    path: photo.path@,
                    bytes: cache_lookup(rows, photo.path@).unwrap().hash@,
                },
            )
        } else if spec_is_computed(rows, photo, bytes[n - 1], hasher) {
            rest.push(
                HashRec {
                    path: photo.path@,
                    bytes: spec_computed_bytes(photo, bytes[n - 1], hasher),
                },
            )
        } else {
            rest
        }
    }
}

/// How many of the first `n` photos have a fresh cache entry.
pub open spec fn spec_hits(photos: Seq<PhotoFile>, rows: Seq<CacheEntry>, n: int) -> int
    decreases n,
{
    if n <= 0 {
        0
    } else {
        spec_hits(photos, rows, n - 1) + (if spec_cache_hit(rows, photos[n - 1]) {
            1int
        } else {
            0
        })
    }
}

/// How many of the first `n` photos are excluded: neither fresh in
/// the cache nor readable, decodable and hashable.
pub open spec fn spec_errs(
    photos: Seq<PhotoFile>,
    bytes: Seq<Option<Vec<u8>>>,
    rows: Seq<CacheEntry>,
    hasher: Hasher,
    n: int,
) -> int
    decreases n,
{
    if n <= 0 {
        0
    } else {
        spec_errs(photos, bytes, rows, hasher, n - 1) + (if !spec_cache_hit(rows, photos[n - 1])
            && !spec_is_computed(rows, photos[n - 1], bytes[n - 1], hasher) {
            1int
        } else {
            0
        })
    }
}

/// The cache entries the run computes over its first `n` photos, in
/// order.
pub open spec fn spec_computed_entries(
    photos: Seq<PhotoFile>,
    bytes: Seq<Option<Vec<u8>>>,
    rows: Seq<CacheEntry>,
    hasher: Hasher,
    now: u64,
    n: int,
) -> Seq<EntryRec>
    decreases n,
{
    if n <= 0 {
        Seq::empty()
    } else {
        let rest = spec_computed_entries(photos, bytes, rows, hasher, now, n - 1);
        let photo = photos[n - 1];
        if spec_is_computed(rows, photo, bytes[n - 1], hasher) {
            rest.push(
                EntryRec {
                    path: photo.path@,
                    hash: spec_computed_bytes(photo, bytes[n - 1], hasher),
                    algorithm: hasher.kind_spec(),
                    file_size: photo.size,
                    file_modified: photo.modified,
                    cached_at: now,
                },
            )
        } else {
            rest
        }
    }
}

/// Whether a hash list's values carry exactly the determined views.
pub open spec fn hash_list_matches(hl: Seq<(String, ImageHashValue)>, views: Seq<HashRec>) -> bool {
    hl.len() == views.len() && forall|i: int|
        0 <= i < hl.len() ==> (#[trigger] hl[i]).0@ == views[i].path && hl[i].1.bytes@
            == views[i].bytes
}

/// Whether entry values carry exactly the determined entry views.
pub open spec fn entry_list_matches(es: Seq<CacheEntry>, views: Seq<EntryRec>) -> bool {
    es.len() == views.len() && forall|i: int|
        0 <= i < es.len() ==> {
            &&& (#[trigger] es[i]).path@ == views[i].path
            &&& es[i].hash@ == views[i].hash
            &&& es[i].algorithm == views[i].algorithm
            &&& es[i].file_size == views[i].file_size
            &&& es[i].file_modified == views[i].file_modified
            &&& es[i].cached_at == views[i].cached_at
        }
}

/// Whether a looked-up entry carries an entry view's data.
pub open spec fn opt_entry_view_eq(a: Option<CacheEntry>, b: Option<EntryRec>) -> bool {
    match (a, b) {
        (Some(x), Some(y)) => x.path@ == y.path && x.hash@ == y.hash && x.algorithm == y.algorithm
            && x.file_size == y.file_size && x.file_modified == y.file_modified && x.cached_at
            == y.cached_at,
        (None, None) => true,
        _ => false,
    }
}

/// The entry stored under a path after upserting the determined
/// entries onto the initial rows: the latest computed entry for the
/// path wins, else the stored row.
pub open spec fn ventry_lookup(
    rows: Seq<CacheEntry>,
    comp: Seq<EntryRec>,
    p: Seq<char>,
) -> Option<EntryRec>
    decreases comp.len(),
{
    if comp.len() == 0 {
        match cache_lookup(rows, p) {
            Some(e) => Some(
                EntryRec {
                    path: e.path@,
                    hash: e.hash@,
                    algorithm: e.algorithm,
                    file_size: e.file_size,
                    file_modified: e.file_modified,
                    cached_at: e.cached_at,
                },
            ),
            None => None,
        }
    } else if comp.last().path == p {
        Some(comp.last())
    } else {
        ventry_lookup(rows, comp.drop_last(), p)
    }
}

/// Batch lookup against concatenated entry lists splits at the
/// boundary.
proof fn lemma_batch_concat(
    rows0: Seq<CacheEntry>,
    rows_mid: Seq<CacheEntry>,
    a: Seq<CacheEntry>,
    b: Seq<CacheEntry>,
    p: Seq<char>,
)
    requires
        forall|p2: Seq<char>| #[trigger] crate::cache::opt_entry_eq(
            cache_lookup(rows_mid, p2),
            batch_lookup(rows0, a, p2),
        ),
    ensures
        crate::cache::opt_entry_eq(batch_lookup(rows_mid, b, p), batch_lookup(rows0, a + b, p)),
    decreases b.len(),
{
    if b.len() == 0 {
        assert(a + b =~= a);
    } else {
        assert((a + b).last() == b.last());
        if b.last().path@ == p {
        } else {
            assert((a + b).drop_last() =~= a + b.drop_last());
            lemma_batch_concat(rows0, rows_mid, a, b.drop_last(), p);
        }
    }
}

/// Batch lookup over entries equals the view-level lookup over their
/// views.
proof fn lemma_batch_view(
    rows: Seq<CacheEntry>,
    es: Seq<CacheEntry>,
    views: Seq<EntryRec>,
    p: Seq<char>,
)
    requires
        entry_list_matches(es, views),
    ensures
        opt_entry_view_eq(batch_lookup(rows, es, p), ventry_lookup(rows, views, p)),
    decreases es.len(),
{
    if es.len() == 0 {
    } else {
        assert(es[es.len() - 1].path@ == views[views.len() - 1].path);
        if es.last().path@ == p {
        } else {
            assert(entry_list_matches(es.drop_last(), views.drop_last())) by {
                assert(forall|i: int|
                    0 <= i < es.len() - 1 ==> #[trigger] es.drop_last()[i] == es[i]
                        && views.drop_last()[i] == views[i]);
            }
            lemma_batch_view(rows, es.drop_last(), views.drop_last(), p);
        }
    }
}

/// Whether the groups are the grouper's output over the matches of
/// some hash list carrying exactly the determined views: every group
/// is pairwise connected under those matches, every match with
/// distinct endpoint paths lands in one group, and each group's
/// statistics are those of its own matches.
pub open spec fn spec_groups_ok(
    groups: Seq<DuplicateGroup>,
    photos: Seq<PhotoFile>,
    views: Seq<HashRec>,
    threshold: u32,
) -> bool {
    exists|hl: Seq<(String, ImageHashValue)>|
        {
            let ms = crate::comparator::spec_find_pairs(hl, &ThresholdStrategy { threshold });
            &&& #[trigger] hash_list_matches(hl, views)
            &&& forall|g: int, i: int, j: int|
                0 <= g < groups.len() && 0 <= i < groups[g].photos@.len() && 0 <= j < groups[
                    g
                ].photos@.len() ==> crate::grouper::spec_connected(
                    ms,
                    (#[trigger] groups[g].photos@[i])@,
                    (#[trigger] groups[g].photos@[j])@,
                )
            &&& forall|k: int|
                0 <= k < ms.len() && (#[trigger] ms[k]).photo_a@ != ms[k].photo_b@
                    ==> exists|g: int|
                    0 <= g < groups.len() && crate::grouper::contains_view(
                        (#[trigger] groups[g]).photos@,
                        ms[k].photo_a@,
                    ) && crate::grouper::contains_view(groups[g].photos@, ms[k].photo_b@)
            &&& forall|g: int|
                0 <= g < groups.len() ==> (#[trigger] groups[g]).distance_sum as int
                    == crate::grouper::spec_group_dsum(ms, groups[g].photos@) && groups[
                    g
                ].match_count as int == crate::grouper::spec_group_dcount(ms, groups[g].photos@)
                    && groups[g].match_type == crate::grouper::spec_group_best(
                    ms,
                    groups[g].photos@,
                )
        }
}

/// Run the hashing, comparison, grouping and reporting phases over
/// the scanned photos and their file bytes (`None` where the host
/// could not read a file). The whole outcome is a function of the
/// inputs and of how many photos the cancellation checkpoints let
/// through, which the result reports:
/// over the processed prefix, `cache_hits` counts exactly the photos
/// with a fresh cache entry, `errors` carries one message per
/// excluded photo, the cache afterwards holds exactly the upsert of
/// the computed entries onto its old rows (flushed in batches of
/// `CHUNK_SIZE`), and — when nothing was cancelled — the groups are
/// the grouper's verified output over the determined hash list, with
/// their savings filled in.
#[verifier::rlimit(100)]
pub fn run_on_loaded(
    photos: &Vec<PhotoFile>,
    bytes: &Vec<Option<Vec<u8>>>,
    threshold: u32,
    hasher: &Hasher,
    cache: &mut InMemoryCache,
    events: &EventSender,
    cancelled: &CancelFlag,
    now: u64,
    duration_ms: u64,
) -> (r: PipelineResult)
    requires
        bytes@.len() == photos@.len(),
        photos@.len() <= 0xFFFF,
        1 <= hasher.size_spec() <= 512,
    ensures
        r.total_photos == photos@.len(),
        r.duration_ms == duration_ms,
        r.photos_processed <= photos@.len(),
        photos@.len() == 0 ==> r.groups@.len() == 0 && r.cache_hits == 0 && r.errors@.len() == 0,
        r.cache_hits as int == spec_hits(photos@, old(cache).rows(), r.photos_processed as int),
        r.errors@.len() == spec_errs(
            photos@,
            bytes@,
            old(cache).rows(),
            *hasher,
            r.photos_processed as int,
        ),
        forall|p: Seq<char>| #[trigger] opt_entry_view_eq(
            cache_lookup(final(cache).rows(), p),
            ventry_lookup(
                old(cache).rows(),
                spec_computed_entries(
                    photos@,
                    bytes@,
                    old(cache).rows(),
                    *hasher,
                    now,
                    r.photos_processed as int,
                ),
                p,
            ),
        ),
        r.photos_processed < photos@.len() ==> r.groups@.len() == 0,
        r.photos_processed == photos@.len() ==> spec_groups_ok(
            r.groups@,
            photos@,
            spec_hash_views(photos@, bytes@, old(cache).rows(), *hasher, photos@.len() as int),
            threshold,
        ),
        forall|g: int|
            0 <= g < r.groups@.len() ==> (#[trigger] r.groups@[g]).duplicate_size_bytes as int
                == crate::reporter::spec_sat_u64(
                crate::reporter::spec_group_savings(
                    photos@,
                    r.groups@[g].photos@,
                    r.groups@[g].representative@,
                ),
            ),
        forall|g: int| 0 <= g < r.groups@.len() ==> (#[trigger] r.groups@[g]).photos@.len() >= 2,
        forall|g: int, i: int, j: int|
            0 <= g < r.groups@.len() && 0 <= i < j < r.groups@[g].photos@.len() ==> (
            #[trigger] r.groups@[g].photos@[i])@ != (#[trigger] r.groups@[g].photos@[j])@,
        forall|g1: int, g2: int, i1: int, i2: int|
            0 <= g1 < r.groups@.len() && 0 <= g2 < r.groups@.len() && g1 != g2 && 0 <= i1
                < r.groups@[g1].photos@.len() && 0 <= i2 < r.groups@[g2].photos@.len() ==> (
            #[trigger] r.groups@[g1].photos@[i1])@ != (#[trigger] r.groups@[g2].photos@[i2])@,
        forall|g: int|
            0 <= g < r.groups@.len() ==> (#[trigger] r.groups@[g]).representative
                == r.groups@[g].photos@[0],
{
    let ghost rows0 = cache.rows();
    if photos.len() == 0 {
        events.send(
            Event::Pipeline(
                PipelineEvent::Completed {
                    summary: PipelineSummary {
                        total_photos: 0,
                        duplicate_groups: 0,
                        duplicate_count: 0,
                        potential_savings_bytes: 0,
                        duration_ms,
                    },
                },
            ),
        );
        proof {
            let views = spec_hash_views(photos@, bytes@, rows0, *hasher, 0);
            let hl = Seq::<(String, ImageHashValue)>::empty();
            assert(hash_list_matches(hl, views));
            let ms = crate::comparator::spec_find_pairs(hl, &ThresholdStrategy { threshold });
            assert(ms.len() == 0);
            assert(spec_groups_ok(Seq::<DuplicateGroup>::empty(), photos@, views, threshold));
        }
        let r = empty_result(Vec::new(), duration_ms);
        proof {
            assert(r.groups@ =~= Seq::<DuplicateGroup>::empty());
        }
        return r;
    }
    events.send(Event::Pipeline(PipelineEvent::PhaseChanged { phase: crate::events::PipelinePhase::Hashing }));
    events.send(Event::Hash(HashEvent::Started { total_photos: photos.len() }));
    // Decide every photo against the initial cache rows; nothing is
    // written during this pass.
    let mut hashes: Vec<(String, ImageHashValue)> = Vec::new();
    let mut computed: Vec<CacheEntry> = Vec::new();
    let mut errors: Vec<String> = Vec::new();
    let mut cache_hits: usize = 0;
    let mut k: usize = 0;
    while k < photos.len()
        invariant
            bytes@.len() == photos@.len(),
            k <= photos@.len(),
            1 <= hasher.size_spec() <= 512,
            cache == old(cache),
            rows0 == cache.rows(),
            cache_hits <= k,
            hashes@.len() <= k,
            cache_hits as int == spec_hits(photos@, rows0, k as int),
            errors@.len() == spec_errs(photos@, bytes@, rows0, *hasher, k as int),
            hash_list_matches(hashes@, spec_hash_views(photos@, bytes@, rows0, *hasher, k as int)),
            entry_list_matches(
                computed@,
                spec_computed_entries(photos@, bytes@, rows0, *hasher, now, k as int),
            ),
            forall|j: int| 0 <= j < hashes@.len() ==> (#[trigger] hashes@[j].1).wf(),
        decreases photos@.len() - k,
    {
        // Cancellation checkpoint before each photo.
        if cancelled.is_cancelled() {
            break ;
        }
        let photo = &photos[k];
        let b = match &bytes[k] {
            Some(b) => Some(b),
            None => None,
        };
        events.send(
            Event::Hash(
                HashEvent::Progress(
                    crate::events::HashProgress {
                        completed: k,
                        total: photos.len(),
                        current_path: photo.path.clone(),
                        cache_hits,
                    },
                ),
            ),
        );
        match hash_step(cache, photo, b, hasher, now) {
            HashStepOutcome::Hit(h) => {
                cache_hits = cache_hits + 1;
                events.send(Event::Hash(HashEvent::CacheHit { path: photo.path.clone() }));
                hashes.push((photo.path.clone(), h));
            },
            HashStepOutcome::Computed(h, entry) => {
                events.send(Event::Hash(HashEvent::PhotoHashed { path: photo.path.clone() }));
                computed.push(entry);
                hashes.push((photo.path.clone(), h));
            },
            HashStepOutcome::Excluded(e) => {
                let msg = e.message();
                events.send(
                    Event::Hash(
                        HashEvent::Error { path: photo.path.clone(), message: msg.clone() },
                    ),
                );
                errors.push(msg);
            },
        }
        k = k + 1;
    }
    let processed = k;
    // Flush the computed entries in batches of CHUNK_SIZE.
    let ghost comp_views = spec_computed_entries(
        photos@,
        bytes@,
        rows0,
        *hasher,
        now,
        processed as int,
    );
    let ghost all_entries = computed@;
    let mut remaining = computed;
    let ghost done: int = 0;
    proof {
        assert(all_entries.take(0) =~= Seq::<CacheEntry>::empty());
        assert forall|p: Seq<char>| #[trigger] crate::cache::opt_entry_eq(
            cache_lookup(cache.rows(), p),
            batch_lookup(rows0, all_entries.take(0), p),
        ) by {}
        assert(remaining@ =~= all_entries.skip(0));
    }
    while remaining.len() > 0
        invariant
            0 <= done <= all_entries.len(),
            remaining@ =~= all_entries.skip(done),
            forall|p: Seq<char>| #[trigger] crate::cache::opt_entry_eq(
                cache_lookup(cache.rows(), p),
                batch_lookup(rows0, all_entries.take(done), p),
            ),
        decreases remaining@.len(),
    {
        let take_n = if CHUNK_SIZE <= remaining.len() {
            CHUNK_SIZE
        } else {
            remaining.len()
        };
        let tail = remaining.split_off(take_n);
        let ghost rows_mid = cache.rows();
        let res = cache.set_batch(&remaining);
        proof {
            assert(res is Ok);
            assert(remaining@ =~= all_entries.subrange(done, done + take_n as int));
            assert forall|p: Seq<char>| #[trigger] crate::cache::opt_entry_eq(
                cache_lookup(cache.rows(), p),
                batch_lookup(rows0, all_entries.take(done + take_n as int), p),
            ) by {
                assert(crate::cache::opt_entry_eq(
                    cache_lookup(cache.rows(), p),
                    batch_lookup(rows_mid, remaining@, p),
                ));
                lemma_batch_concat(rows0, rows_mid, all_entries.take(done), remaining@, p);
                assert(all_entries.take(done) + remaining@ =~= all_entries.take(
                    done + take_n as int,
                ));
            }
            done = done + take_n as int;
            assert(tail@ =~= all_entries.skip(done));
        }
        remaining = tail;
    }
    proof {
        assert(done == all_entries.len());
        assert(all_entries.take(all_entries.len() as int) =~= all_entries);
        assert(entry_list_matches(all_entries, comp_views));
        assert forall|p: Seq<char>| #[trigger] opt_entry_view_eq(
            cache_lookup(cache.rows(), p),
            ventry_lookup(rows0, comp_views, p),
        ) by {
            assert(crate::cache::opt_entry_eq(
                cache_lookup(cache.rows(), p),
                batch_lookup(rows0, all_entries, p),
            ));
            lemma_batch_view(rows0, all_entries, comp_views, p);
        }
    }
    events.send(
        Event::Hash(HashEvent::Completed { total_hashed: hashes.len(), cache_hits }),
    );
    if processed < photos.len() {
        events.send(Event::Pipeline(PipelineEvent::Cancelled));
        return PipelineResult {
            groups: Vec::new(),
            total_photos: photos.len(),
            photos_processed: processed,
            cache_hits,
            errors,
            duration_ms,
        };
    }
    // Comparison and grouping.
    events.send(Event::Pipeline(PipelineEvent::PhaseChanged { phase: crate::events::PipelinePhase::Comparing }));
    let strategy = ThresholdStrategy::new(threshold);
    let matches = crate::comparator::find_duplicate_pairs_with_events(&hashes, &strategy, events);
    proof {
        crate::comparator::lemma_pairs_len(hashes@, &strategy, 0, 1);
        assert((hashes@.len() as int) * (hashes@.len() as int + 1)
            < 0x1_0000_0000) by (nonlinear_arith)
            requires
                hashes@.len() <= 0xFFFF,
        ;
    }
    let groups1 = TransitiveGrouper::new().group(&matches);
    let ghost groups0 = groups1@;
    let pair = calculate_group_savings(groups1, photos);
    let (groups, savings) = pair;
    proof {
        let views = spec_hash_views(photos@, bytes@, rows0, *hasher, photos@.len() as int);
        let ms = crate::comparator::spec_find_pairs(hashes@, &ThresholdStrategy { threshold });
        assert(strategy == (ThresholdStrategy { threshold }));
        assert(ms == matches@);
        assert(hash_list_matches(hashes@, views));
        assert forall|g: int| 0 <= g < groups@.len() implies (#[trigger] groups@[g]).photos@
            == groups0[g].photos@ && groups@[g].distance_sum == groups0[g].distance_sum
            && groups@[g].match_count == groups0[g].match_count && groups@[g].match_type
            == groups0[g].match_type && groups@[g].representative
            == groups0[g].representative by {}
        assert forall|g: int, i: int, j: int|
            0 <= g < groups@.len() && 0 <= i < groups@[g].photos@.len() && 0 <= j < groups@[
                g
            ].photos@.len() implies crate::grouper::spec_connected(
            ms,
            (#[trigger] groups@[g].photos@[i])@,
            (#[trigger] groups@[g].photos@[j])@,
        ) by {
            assert(groups@[g].photos@ == groups0[g].photos@);
        }
        assert forall|k2: int|
            0 <= k2 < ms.len() && (#[trigger] ms[k2]).photo_a@ != ms[k2].photo_b@ implies exists|
                g: int,
            |
                0 <= g < groups@.len() && crate::grouper::contains_view(
                    (#[trigger] groups@[g]).photos@,
                    ms[k2].photo_a@,
                ) && crate::grouper::contains_view(groups@[g].photos@, ms[k2].photo_b@) by {
            let gw = choose|g: int|
                0 <= g < groups0.len() && crate::grouper::contains_view(
                    (#[trigger] groups0[g]).photos@,
                    matches@[k2].photo_a@,
                ) && crate::grouper::contains_view(groups0[g].photos@, matches@[k2].photo_b@);
            assert(groups@[gw].photos@ == groups0[gw].photos@);
            assert(crate::grouper::contains_view(groups@[gw].photos@, ms[k2].photo_a@));
        }
        assert forall|g: int|
            0 <= g < groups@.len() implies (#[trigger] groups@[g]).distance_sum as int
            == crate::grouper::spec_group_dsum(ms, groups@[g].photos@) && groups@[
            g
        ].match_count as int == crate::grouper::spec_group_dcount(ms, groups@[g].photos@)
            && groups@[g].match_type == crate::grouper::spec_group_best(
            ms,
            groups@[g].photos@,
        ) by {
            assert(groups@[g].photos@ == groups0[g].photos@);
        }
        assert(spec_groups_ok(groups@, photos@, views, threshold));
    }
    let mut duplicate_count: usize = 0;
    let mut g: usize = 0;
    while g < groups.len()
        invariant
            g <= groups@.len(),
        decreases groups@.len() - g,
    {
        let c = groups[g].duplicate_count();
        duplicate_count = if duplicate_count <= usize::MAX - c {
            duplicate_count + c
        } else {
            usize::MAX
        };
        g = g + 1;
    }
    events.send(
        Event::Compare(
            CompareEvent::Completed { total_groups: groups.len(), total_duplicates: duplicate_count },
        ),
    );
    events.send(Event::Pipeline(PipelineEvent::PhaseChanged { phase: crate::events::PipelinePhase::Reporting }));
    events.send(
        Event::Pipeline(
            PipelineEvent::Completed {
                summary: PipelineSummary {
                    total_photos: photos.len(),
                    duplicate_groups: groups.len(),
                    duplicate_count,
                    potential_savings_bytes: savings,
                    duration_ms,
                },
            },
        ),
    );
    PipelineResult {
        groups,
        total_photos: photos.len(),
        photos_processed: processed,
        cache_hits,
        errors,
        duration_ms,
    }
}

} // verus!
