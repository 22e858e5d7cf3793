//! Pairwise comparison of perceptual hashes: distance classification,
//! the tunable duplicate threshold, and exhaustive pair search.

use vstd::prelude::*;

use crate::hashval::{
    spec_distance, spec_distance_upto, spec_similarity_percent, lemma_distance_upto_bound,
    similarity_percent, ImageHashValue,
};
use crate::text::{spec_dec, push_u64};

verus! {

/// Classification of a match by Hamming distance.
#[derive(Debug, Clone, Copy, PartialEq, Eq, Structural)]
pub enum MatchType {
    /// Distance 0: identical perceptual content.
    Exact,
    /// Distance 1 to 4: virtually identical.
    NearExact,
    /// Distance 5 to 10: likely duplicates.
    Similar,
    /// Distance 11 and up: possibly related.
    MaybeSimilar,
}

impl MatchType {
    /// The classification of a Hamming distance.
    pub open spec fn spec_from_distance(distance: u32) -> MatchType {
        if distance == 0 {
            MatchType::Exact
        } else if distance <= 4 {
            MatchType::NearExact
        } else if distance <= 10 {
            MatchType::Similar
        } else {
            MatchType::MaybeSimilar
        }
    }

    /// Classify a Hamming distance.
    pub fn from_distance(distance: u32) -> (r: MatchType)
        ensures
            r == MatchType::spec_from_distance(distance),
    {
        if distance == 0 {
            MatchType::Exact
        } else if distance <= 4 {
            MatchType::NearExact
        } else if distance <= 10 {
            MatchType::Similar
        } else {
            MatchType::MaybeSimilar
        }
    }

    /// Position of the classification on the exact-to-vague scale;
    /// lower means more exact.
    pub open spec fn spec_ordinal(self) -> int {
        match self {
            MatchType::Exact => 0,
            MatchType::NearExact => 1,
            MatchType::Similar => 2,
            MatchType::MaybeSimilar => 3,
        }
    }

    /// Position of the classification on the exact-to-vague scale.
    pub fn ordinal(&self) -> (r: u8)
        ensures
            r as int == self.spec_ordinal(),
    {
        match self {
            MatchType::Exact => 0,
            MatchType::NearExact => 1,
            MatchType::Similar => 2,
            MatchType::MaybeSimilar => 3,
        }
    }

    /// Whether this match type is treated as a duplicate by the
    /// default comparison strategy.
    pub open spec fn spec_is_duplicate(self) -> bool {
        self != MatchType::MaybeSimilar
    }

    /// Whether this match type is treated as a duplicate.
    pub fn is_duplicate(&self) -> (r: bool)
        ensures
            r == self.spec_is_duplicate(),
    {
        match self {
            MatchType::Exact => true,
            MatchType::NearExact => true,
            MatchType::Similar => true,
            MatchType::MaybeSimilar => false,
        }
    }

    /// Human-readable label of the classification.
    pub fn label(&self) -> (r: &'static str)
        ensures
            *self == MatchType::Exact ==> r@ == "Exact Match"@,
            *self == MatchType::NearExact ==> r@ == "Near-Exact Match"@,
            *self == MatchType::Similar ==> r@ == "Similar"@,
            *self == MatchType::MaybeSimilar ==> r@ == "Possibly Similar"@,
    {
        match self {
            MatchType::Exact => "Exact Match",
            MatchType::NearExact => "Near-Exact Match",
            MatchType::Similar => "Similar",
            MatchType::MaybeSimilar => "Possibly Similar",
        }
    }
}

/// The classification never gets more exact as the distance grows.
pub proof fn lemma_classification_monotonic(d1: u32, d2: u32)
    requires
        d1 <= d2,
    ensures
        MatchType::spec_from_distance(d1).spec_ordinal() <= MatchType::spec_from_distance(
            d2,
        ).spec_ordinal(),
{
}

/// Strategy for deciding whether a distance makes a duplicate.
pub trait ComparisonStrategy: Sized {
    /// Which distances this strategy accepts as duplicates.
    spec fn spec_is_duplicate(&self, distance: u32) -> bool;

    /// Decide whether two photos at this distance are duplicates.
    fn is_duplicate(&self, distance: u32) -> (r: bool)
        ensures
            r == self.spec_is_duplicate(distance),
    ;

    /// Classify the match type of a distance; this classification is
    /// fixed and independent of the tunable duplicate threshold.
    fn classify(&self, distance: u32) -> (r: MatchType)
        ensures
            r == MatchType::spec_from_distance(distance),
    ;
}

/// Duplicate decision by a single distance threshold.
#[derive(Debug, Clone, PartialEq, Eq, Structural)]
pub struct ThresholdStrategy {
    /// Maximum distance still considered a duplicate.
    pub threshold: u32,
}

impl ThresholdStrategy {
    /// Create a strategy with the given threshold.
    pub fn new(threshold: u32) -> (r: ThresholdStrategy)
        ensures
            r.threshold == threshold,
    {
        ThresholdStrategy { threshold }
    }

    /// Conservative strategy: threshold 5, few false positives.
    pub fn conservative() -> (r: ThresholdStrategy)
        ensures
            r.threshold == 5,
    {
        ThresholdStrategy::new(5)
    }

    /// Balanced strategy: threshold 8, the default.
    pub fn balanced() -> (r: ThresholdStrategy)
        ensures
            r.threshold == 8,
    {
        ThresholdStrategy::new(8)
    }

    /// Permissive strategy: threshold 10, catches more near-duplicates.
    pub fn permissive() -> (r: ThresholdStrategy)
        ensures
            r.threshold == 10,
    {
        ThresholdStrategy::new(10)
    }

    /// The threshold in use.
    pub fn threshold(&self) -> (r: u32)
        ensures
            r == self.threshold,
    {
        self.threshold
    }

    /// Human-readable description of the strategy.
    pub fn description(&self) -> (r: String)
        ensures
            r@ == "Threshold strategy: photos with distance <= "@ + spec_dec(
                self.threshold as nat,
            ) + " are considered duplicates"@,
    {
        let mut s = String::new();
        s.append("Threshold strategy: photos with distance <= ");
        push_u64(&mut s, self.threshold as u64);
        s.append(" are considered duplicates");
        proof {
            assert(s@ =~= "Threshold strategy: photos with distance <= "@ + spec_dec(
                self.threshold as nat,
            ) + " are considered duplicates"@);
        }
        s
    }
}

impl ComparisonStrategy for ThresholdStrategy {
    open spec fn spec_is_duplicate(&self, distance: u32) -> bool {
        distance <= self.threshold
    }

    fn is_duplicate(&self, distance: u32) -> (r: bool) {
        distance <= self.threshold
    }

    fn classify(&self, distance: u32) -> (r: MatchType) {
        MatchType::from_distance(distance)
    }
}

/// With threshold zero, only byte-identical hashes of equal length
/// are accepted as duplicates.
pub proof fn lemma_threshold_zero_exact(s: ThresholdStrategy, a: Seq<u8>, b: Seq<u8>)
    requires
        s.threshold == 0,
        a.len() == b.len(),
        a.len() <= crate::hashval::MAX_HASH_BYTES,
    ensures
        s.spec_is_duplicate(spec_distance(a, b) as u32) <==> a == b,
{
    lemma_distance_upto_bound(a, b, a.len() as int);
    if spec_distance(a, b) == 0 {
        lemma_zero_distance_equal(a, b, a.len() as int);
        assert(a =~= b);
    } else {
        if a == b {
            lemma_self_distance_zero(a, a.len() as int);
        }
    }
}

/// With the threshold at the full bit count, every pair of hashes of
/// that length is accepted as a duplicate.
pub proof fn lemma_threshold_bitcount_all(s: ThresholdStrategy, a: Seq<u8>, b: Seq<u8>)
    requires
        a.len() == b.len(),
        a.len() <= crate::hashval::MAX_HASH_BYTES,
        s.threshold == 8 * a.len(),
    ensures
        s.spec_is_duplicate(spec_distance(a, b) as u32),
{
    lemma_distance_upto_bound(a, b, a.len() as int);
}

/// A prefix with distance zero is equal pointwise.
proof fn lemma_zero_distance_equal(a: Seq<u8>, b: Seq<u8>, n: int)
    requires
        0 <= n <= a.len(),
        n <= b.len(),
        spec_distance_upto(a, b, n) == 0,
    ensures
        forall|i: int| 0 <= i < n ==> a[i] == b[i],
    decreases n,
{
    if n > 0 {
        lemma_distance_upto_bound(a, b, n - 1);
        lemma_zero_distance_equal(a, b, n - 1);
        let x = a[n - 1];
        let y = b[n - 1];
        assert(x ^ y == 0 ==> x == y) by (bit_vector);
        assert((x ^ y) as int % 2 + ((x ^ y) as int / 2) % 2 + ((x ^ y) as int / 4) % 2 + ((x
            ^ y) as int / 8) % 2 + ((x ^ y) as int / 16) % 2 + ((x ^ y) as int / 32) % 2 + ((x
            ^ y) as int / 64) % 2 + ((x ^ y) as int / 128) % 2 == 0 ==> x ^ y == 0) by (bit_vector);
    }
}

/// A byte string is at distance zero from itself.
proof fn lemma_self_distance_zero(a: Seq<u8>, n: int)
    requires
        0 <= n <= a.len(),
    ensures
        spec_distance_upto(a, a, n) == 0,
    decreases n,
{
    if n > 0 {
        lemma_self_distance_zero(a, n - 1);
        let x = a[n - 1];
        assert(x ^ x == 0) by (bit_vector);
    }
}

/// Result of comparing two photos.
#[derive(Debug, Clone)]
pub struct MatchResult {
    /// Path of the first photo.
    pub photo_a: String,
    /// Path of the second photo.
    pub photo_b: String,
    /// Hamming distance between the two hashes.
    pub distance: u32,
    /// Similarity as a whole percentage, `100 * (1 - distance / bits)`
    /// rounded half up.
    pub similarity_percent: u32,
    /// Classification of the match.
    pub match_type: MatchType,
}

/// A cluster of photos judged to be the same image.
#[derive(Debug, Clone)]
pub struct DuplicateGroup {
    /// Stable identifier of the group, assigned in output order.
    pub id: u64,
    /// All photos of the group, sorted by path.
    pub photos: Vec<String>,
    /// The recommended photo to keep.
    pub representative: String,
    /// The most exact match type seen among the group's matches.
    pub match_type: MatchType,
    /// Sum of the distances of the matches contributing to the group.
    pub distance_sum: u64,
    /// Number of matches contributing to the group.
    pub match_count: u64,
    /// Total size of the members other than the representative.
    pub duplicate_size_bytes: u64,
}

impl DuplicateGroup {
    /// Create a new group with empty statistics.
    pub fn new(photos: Vec<String>, representative: String, match_type: MatchType) -> (r:
        DuplicateGroup)
        ensures
            r.id == 0,
            r.photos == photos,
            r.representative == representative,
            r.match_type == match_type,
            r.distance_sum == 0,
            r.match_count == 0,
            r.duplicate_size_bytes == 0,
    {
        DuplicateGroup {
            id: 0,
            photos,
            representative,
            match_type,
            distance_sum: 0,
            match_count: 0,
            duplicate_size_bytes: 0,
        }
    }

    /// Number of duplicates, not counting the representative.
    pub fn duplicate_count(&self) -> (r: usize)
        ensures
            r == if self.photos@.len() > 0 {
                self.photos@.len() - 1
            } else {
                0
            },
    {
        if self.photos.len() > 0 {
            self.photos.len() - 1
        } else {
            0
        }
    }

    /// Mean distance of the group's matches, in hundredths;
    /// zero when the group has no recorded matches.
    pub fn average_distance_centi(&self) -> (r: u64)
        requires
            self.distance_sum <= 0xFFFF_FFFF_FFFF,
        ensures
            self.match_count == 0 ==> r == 0,
            self.match_count > 0 ==> r as int == 100 * self.distance_sum as int
                / self.match_count as int,
    {
        if self.match_count == 0 {
            0
        } else {
            100 * self.distance_sum / self.match_count
        }
    }
}

/// The match record for photos `i` and `j` of the list.
pub open spec fn spec_match_of(
    photos: Seq<(String, ImageHashValue)>,
    i: int,
    j: int,
) -> MatchResult {
    let d = spec_distance(photos[i].1.bytes@, photos[j].1.bytes@) as u32;
    MatchResult {
        photo_a: photos[i].0,
        photo_b: photos[j].0,
        distance: d,
        similarity_percent: spec_similarity_percent(
            d as int,
            8 * photos[i].1.bytes@.len() as int,
        ) as u32,
        match_type: MatchType::spec_from_distance(d),
    }
}

/// The matches emitted from pair `(i, j)` onward, scanning `j` then `i`,
/// exactly as the exhaustive comparison emits them.
pub open spec fn spec_pairs_from<T: ComparisonStrategy>(
    photos: Seq<(String, ImageHashValue)>,
    strategy: &T,
    i: int,
    j: int,
) -> Seq<MatchResult>
    decreases photos.len() - i, photos.len() + 1 - j,
    when 0 <= i && i < j && photos.len() + 1 - j >= 0
{
    if i >= photos.len() || j > photos.len() {
        Seq::empty()
    } else if j == photos.len() {
        spec_pairs_from(photos, strategy, i + 1, i + 2)
    } else {
        let rest = spec_pairs_from(photos, strategy, i, j + 1);
        if strategy.spec_is_duplicate(
            spec_distance(photos[i].1.bytes@, photos[j].1.bytes@) as u32,
        ) {
            seq![spec_match_of(photos, i, j)] + rest
        } else {
            rest
        }
    }
}

/// All duplicate matches of the photo list under the strategy,
/// in the stable scan order.
pub open spec fn spec_find_pairs<T: ComparisonStrategy>(
    photos: Seq<(String, ImageHashValue)>,
    strategy: &T,
) -> Seq<MatchResult> {
    spec_pairs_from(photos, strategy, 0, 1)
}

/// Compare every pair of photos and return the matches the strategy
/// accepts as duplicates, in a stable order that depends only on the
/// order of the photo list.
pub fn find_duplicate_pairs<T: ComparisonStrategy>(
    photos: &Vec<(String, ImageHashValue)>,
    strategy: &T,
) -> (r: Vec<MatchResult>)
    requires
        forall|k: int| 0 <= k < photos@.len() ==> (#[trigger] photos@[k].1).wf(),
    ensures
        r@ == spec_find_pairs(photos@, strategy),
{
    let n = photos.len();
    let mut r: Vec<MatchResult> = Vec::new();
    let mut i: usize = 0;
    while i < n
        invariant
            forall|k: int| 0 <= k < photos@.len() ==> (#[trigger] photos@[k].1).wf(),
            n == photos@.len(),
            i <= n,
            r@ + spec_pairs_from(photos@, strategy, i as int, i + 1 as int) == spec_find_pairs(
                photos@,
                strategy,
            ),
        decreases n - i,
    {
        let mut j: usize = i + 1;
        while j < n
            invariant
                forall|k: int| 0 <= k < photos@.len() ==> (#[trigger] photos@[k].1).wf(),
                n == photos@.len(),
                i < j,
                j <= n || j == i + 1,
                i < n,
                r@ + spec_pairs_from(photos@, strategy, i as int, j as int) == spec_find_pairs(
                    photos@,
                    strategy,
                ),
            decreases n - j,
        {
            let (path_a, hash_a) = (&photos[i].0, &photos[i].1);
            let (path_b, hash_b) = (&photos[j].0, &photos[j].1);
            let distance = hash_a.distance(hash_b);

            if strategy.is_duplicate(distance) {
                proof {
                    lemma_distance_upto_bound(
                        hash_a.bytes@,
                        hash_b.bytes@,
                        if hash_a.bytes@.len() <= hash_b.bytes@.len() {
                            hash_a.bytes@.len() as int
                        } else {
                            hash_b.bytes@.len() as int
                        },
                    );
                }
                let similarity = similarity_percent(distance, hash_a.bit_count());
                let match_type = strategy.classify(distance);
                let m = MatchResult {
                    photo_a: path_a.clone(),
                    photo_b: path_b.clone(),
                    distance,
                    similarity_percent: similarity,
                    match_type,
                };
                proof {
                    assert(m == spec_match_of(photos@, i as int, j as int));
                }
                let ghost r_old = r@;
                r.push(m);
                proof {
                    assert(r@ + spec_pairs_from(photos@, strategy, i as int, j + 1 as int) =~= r_old
                        + spec_pairs_from(photos@, strategy, i as int, j as int));
                }
            }
            j = j + 1;
        }
        i = i + 1;
    }
    r
}

/// Compare every pair of photos with progress events: the same
/// matches as `find_duplicate_pairs`, with `Compare.Started`, a
/// throttled `Compare.Progress` and `Compare.Completed` sent along
/// the way. The events do not affect the result.
pub fn find_duplicate_pairs_with_events<T: ComparisonStrategy>(
    photos: &Vec<(String, ImageHashValue)>,
    strategy: &T,
    events: &crate::channel::EventSender,
) -> (r: Vec<MatchResult>)
    requires
        forall|k: int| 0 <= k < photos@.len() ==> (#[trigger] photos@[k].1).wf(),
    ensures
        r@ == spec_find_pairs(photos@, strategy),
{
    let n = photos.len();
    events.send(
        crate::events::Event::Compare(crate::events::CompareEvent::Started { total_photos: n }),
    );
    let nb: u64 = if n < 0xFFFF_FFFF {
        n as u64
    } else {
        0xFFFF_FFFF
    };
    let total: u64 = if nb > 0 {
        proof {
            assert(nb * (nb - 1) <= 0xFFFF_FFFFu64 * 0xFFFF_FFFEu64) by (nonlinear_arith)
                requires
                    0 < nb <= 0xFFFF_FFFFu64,
            ;
        }
        nb * (nb - 1) / 2
    } else {
        0
    };
    let interval: u64 = if total / 50 > 1 {
        if total / 50 < 1000 {
            total / 50
        } else {
            1000
        }
    } else {
        1
    };
    let mut done: u64 = 0;
    let mut last_sent: u64 = 0;
    let mut r: Vec<MatchResult> = Vec::new();
    let mut i: usize = 0;
    while i < n
        invariant
            forall|k: int| 0 <= k < photos@.len() ==> (#[trigger] photos@[k].1).wf(),
            n == photos@.len(),
            i <= n,
            interval >= 1,
            last_sent <= done,
            done <= 0xFFFF_FFFF_FFFF_FFFE,
            r@ + spec_pairs_from(photos@, strategy, i as int, i + 1 as int) == spec_find_pairs(
                photos@,
                strategy,
            ),
        decreases n - i,
    {
        let mut j: usize = i + 1;
        while j < n
            invariant
                forall|k: int| 0 <= k < photos@.len() ==> (#[trigger] photos@[k].1).wf(),
                n == photos@.len(),
                i < j,
                j <= n || j == i + 1,
                i < n,
                interval >= 1,
                last_sent <= done,
                done <= 0xFFFF_FFFF_FFFF_FFFE,
                r@ + spec_pairs_from(photos@, strategy, i as int, j as int) == spec_find_pairs(
                    photos@,
                    strategy,
                ),
            decreases n - j,
        {
            let (path_a, hash_a) = (&photos[i].0, &photos[i].1);
            let (path_b, hash_b) = (&photos[j].0, &photos[j].1);
            let distance = hash_a.distance(hash_b);

            if strategy.is_duplicate(distance) {
                proof {
                    lemma_distance_upto_bound(
                        hash_a.bytes@,
                        hash_b.bytes@,
                        if hash_a.bytes@.len() <= hash_b.bytes@.len() {
                            hash_a.bytes@.len() as int
                        } else {
                            hash_b.bytes@.len() as int
                        },
                    );
                }
                let similarity = similarity_percent(distance, hash_a.bit_count());
                let match_type = strategy.classify(distance);
                let m = MatchResult {
                    photo_a: path_a.clone(),
                    photo_b: path_b.clone(),
                    distance,
                    similarity_percent: similarity,
                    match_type,
                };
                proof {
                    assert(m == spec_match_of(photos@, i as int, j as int));
                }
                let ghost r_old = r@;
                r.push(m);
                proof {
                    assert(r@ + spec_pairs_from(photos@, strategy, i as int, j + 1 as int) =~= r_old
                        + spec_pairs_from(photos@, strategy, i as int, j as int));
                }
            }
            if done < 0xFFFF_FFFF_FFFF_FFFE {
                done = done + 1;
            }
            if done - last_sent >= interval || done == total {
                last_sent = done;
                events.send(
                    crate::events::Event::Compare(
                        crate::events::CompareEvent::Progress(
                            crate::events::CompareProgress {
                                comparisons_completed: #[verifier::truncate] (done as usize),
                                total_comparisons: #[verifier::truncate] (total as usize),
                                groups_found: 0,
                            },
                        ),
                    ),
                );
            }
            j = j + 1;
        }
        i = i + 1;
    }
    events.send(
        crate::events::Event::Compare(
            crate::events::CompareEvent::Completed { total_groups: 0, total_duplicates: r.len() },
        ),
    );
    r
}

/// The scan emits at most `n * (n + 1)` matches.
pub proof fn lemma_pairs_len<T: ComparisonStrategy>(
    photos: Seq<(String, ImageHashValue)>,
    strategy: &T,
    i: int,
    j: int,
)
    requires
        0 <= i <= photos.len(),
        i < j,
        photos.len() + 1 - j >= 0,
    ensures
        spec_pairs_from(photos, strategy, i, j).len() <= (photos.len() - i) * (photos.len() + 1) - (
        j - i - 1),
    decreases photos.len() - i, photos.len() + 1 - j,
{
    let n = photos.len() as int;
    if i >= n || j > n {
        assert((n - i) * (n + 1) - (j - i - 1) >= 0) by (nonlinear_arith)
            requires
                0 <= i <= n,
                i < j <= n + 1,
        ;
    } else if j == n {
        lemma_pairs_len(photos, strategy, i + 1, i + 2);
        assert((n - i - 1) * (n + 1) + (n - i - 1) <= (n - i) * (n + 1)) by (nonlinear_arith)
            requires
                0 <= i < n,
        ;
    } else {
        lemma_pairs_len(photos, strategy, i, j + 1);
    }
}

} // verus!
