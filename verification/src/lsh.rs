//! The locality-sensitive index: each hash is split into equal-width
//! bit bands, and two hashes sharing at least the configured number
//! of bands become a candidate pair, so the exact Hamming check runs
//! only on plausibly close pairs.

use vstd::prelude::*;

use crate::algorithms::{lemma_p2_mono, lemma_p2_pos, spec_p2};
use crate::hashval::ImageHashValue;

verus! {

/// Configuration of the index.
#[derive(Debug, Clone)]
pub struct LshConfig {
    /// Number of bands each hash is divided into.
    pub bands: usize,
    /// How many bands two hashes must share to become candidates.
    pub min_matching_bands: usize,
}

impl Default for LshConfig {
    /// The default index: four bands, one shared band suffices.
    fn default() -> (r: LshConfig)
        ensures
            r.bands == 4,
            r.min_matching_bands == 1,
    {
        LshConfig { bands: 4, min_matching_bands: 1 }
    }
}

impl LshConfig {
    /// An index with the given number of bands; one shared band
    /// suffices.
    pub fn new(bands: usize) -> (r: LshConfig)
        ensures
            r.bands == bands,
            r.min_matching_bands == 1,
    {
        LshConfig { bands, min_matching_bands: 1 }
    }

    /// Require more shared bands: fewer candidates, possibly missing
    /// some duplicates.
    pub fn with_min_matching_bands(self, min: usize) -> (r: LshConfig)
        ensures
            r.bands == self.bands,
            r.min_matching_bands == min,
    {
        LshConfig { bands: self.bands, min_matching_bands: min }
    }
}

/// The bit of a hash at `idx`, least significant bit first within
/// each byte; bits past the end read as zero.
pub open spec fn spec_lsh_bit(bytes: Seq<u8>, idx: int) -> int {
    if 0 <= idx && idx / 8 < bytes.len() {
        ((bytes[idx / 8] >> ((idx % 8) as u8)) & 1) as int
    } else {
        0
    }
}

/// The value of `count` band bits starting at `start`, least
/// significant first.
pub open spec fn spec_band_val(bytes: Seq<u8>, start: int, count: int) -> int
    decreases count,
{
    if count <= 0 {
        0
    } else {
        spec_lsh_bit(bytes, start) + 2 * spec_band_val(bytes, start + 1, count - 1)
    }
}

/// A band value of `count` bits stays below two to the `count`.
proof fn lemma_band_val_bound(bytes: Seq<u8>, start: int, count: int)
    requires
        count >= 0,
    ensures
        0 <= spec_band_val(bytes, start, count) < spec_p2(count),
    decreases count,
{
    if count > 0 {
        lemma_band_val_bound(bytes, start + 1, count - 1);
        lemma_bit01(bytes, start);
    } else {
        lemma_p2_pos(count);
    }
}

/// A single bit is zero or one.
proof fn lemma_bit01(bytes: Seq<u8>, idx: int)
    ensures
        0 <= spec_lsh_bit(bytes, idx) <= 1,
{
    if 0 <= idx && idx / 8 < bytes.len() {
        let b = bytes[idx / 8];
        let k = (idx % 8) as u8;
        assert((b >> k) & 1 <= 1) by (bit_vector);
    }
}

/// How many of the `bands` bands of width `bpb` two hashes share.
pub open spec fn spec_shared_bands(a: Seq<u8>, b: Seq<u8>, bpb: int, bands: int) -> int
    decreases bands,
{
    if bands <= 0 {
        0
    } else {
        spec_shared_bands(a, b, bpb, bands - 1) + (if spec_band_val(
            a,
            (bands - 1) * bpb,
            if bpb <= 63 {
                bpb
            } else {
                63
            },
        ) == spec_band_val(
            b,
            (bands - 1) * bpb,
            if bpb <= 63 {
                bpb
            } else {
                63
            },
        ) {
            1int
        } else {
            0
        })
    }
}

/// The width a hash's bands get under a configuration: its bit count
/// divided by the band count, at least one.
pub open spec fn spec_band_width(hash_bits: int, bands: int) -> int {
    if bands > 0 && hash_bits / bands > 0 {
        hash_bits / bands
    } else {
        1
    }
}

/// The candidate pairs from pair `(i, j)` onward, scanning `j` then
/// `i`: every pair sharing at least `min` of the `bands` bands.
pub open spec fn spec_cands_from(
    photos: Seq<(String, ImageHashValue)>,
    bpb: int,
    bands: int,
    min: int,
    i: int,
    j: int,
) -> Seq<(usize, usize)>
    decreases photos.len() - i, photos.len() + 1 - j,
    when 0 <= i && i < j && photos.len() + 1 - j >= 0
{
    if i >= photos.len() || j > photos.len() {
        Seq::empty()
    } else if j == photos.len() {
        spec_cands_from(photos, bpb, bands, min, i + 1, i + 2)
    } else {
        let rest = spec_cands_from(photos, bpb, bands, min, i, j + 1);
        if spec_shared_bands(photos[i].1.bytes@, photos[j].1.bytes@, bpb, bands) >= min {
            seq![(i as usize, j as usize)] + rest
        } else {
            rest
        }
    }
}

/// All candidate pairs of the index, in scan order.
pub open spec fn spec_find_cands(
    photos: Seq<(String, ImageHashValue)>,
    bpb: int,
    bands: int,
    min: int,
) -> Seq<(usize, usize)> {
    spec_cands_from(photos, bpb, bands, min, 0, 1)
}

/// The value of one band of a hash.
fn band_of(bytes: &Vec<u8>, start: usize, count: usize) -> (r: u64)
    requires
        count <= 63,
        start + count <= 0x1_0000_0000,
    ensures
        r as int == spec_band_val(bytes@, start as int, count as int),
{
    let mut v: u64 = 0;
    let mut off: usize = count;
    while off > 0
        invariant
            off <= count,
            count <= 63,
            start + count <= 0x1_0000_0000,
            v as int == spec_band_val(bytes@, start + off as int, count - off as int),
            v < 0x8000_0000_0000_0000u64,
        decreases off,
    {
        off = off - 1;
        let idx = start + off;
        let bit: u64 = if idx / 8 < bytes.len() {
            ((bytes[idx / 8] >> ((idx % 8) as u8)) & 1) as u64
        } else {
            0
        };
        proof {
            lemma_bit01(bytes@, idx as int);
            assert(bit as int == spec_lsh_bit(bytes@, idx as int));
            lemma_band_val_bound(bytes@, start + off as int + 1, count - off as int - 1);
            lemma_p2_mono(count - off as int - 1, 62);
            reveal_with_fuel(spec_p2, 64);
            assert(spec_p2(62) == 0x4000_0000_0000_0000);
        }
        v = v * 2 + bit;
    }
    v
}

/// Statistics about the index.
#[derive(Debug, Clone)]
pub struct LshIndexStats {
    /// Number of photos indexed.
    pub total_photos: usize,
    /// Number of bands.
    pub bands: usize,
    /// Bits per band.
    pub bits_per_band: usize,
    /// Number of candidate pairs.
    pub candidate_pairs: usize,
    /// Comparisons a full pairwise scan would make.
    pub naive_comparisons: usize,
}

/// The index: photos with their hashes, banded at the width fixed by
/// the first hash added.
pub struct LshIndex {
    /// Configuration in use.
    pub config: LshConfig,
    /// Bits per band; fixed when the first photo is added.
    pub bits_per_band: usize,
    /// The indexed photos.
    pub photos: Vec<(String, ImageHashValue)>,
}

impl LshIndex {
    /// Create an empty index with the given configuration.
    pub fn new(config: LshConfig) -> (r: LshIndex)
        ensures
            r.config == config,
            r.bits_per_band == 0,
            r.photos@.len() == 0,
    {
        LshIndex { config, bits_per_band: 0, photos: Vec::new() }
    }

    /// Create an empty index with the default configuration.
    pub fn with_default_config() -> (r: LshIndex)
        ensures
            r.config.bands == 4,
            r.config.min_matching_bands == 1,
            r.bits_per_band == 0,
            r.photos@.len() == 0,
    {
        LshIndex::new(LshConfig::default())
    }

    /// Add a photo to the index; the first photo fixes the band
    /// width at its bit count divided by the band count, at least
    /// one bit.
    pub fn add(&mut self, path: String, hash: ImageHashValue)
        requires
            hash.wf(),
        ensures
            final(self).photos@ == old(self).photos@.push((path, hash)),
            final(self).config == old(self).config,
            old(self).photos@.len() == 0 ==> final(self).bits_per_band as int == spec_band_width(
                8 * hash.bytes@.len() as int,
                old(self).config.bands as int,
            ),
            old(self).photos@.len() > 0 ==> final(self).bits_per_band == old(self).bits_per_band,
    {
        if self.photos.len() == 0 {
            let hash_bits = hash.bit_count() as usize;
            self.bits_per_band = if self.config.bands > 0 && hash_bits / self.config.bands > 0 {
                hash_bits / self.config.bands
            } else {
                1
            };
        }
        self.photos.push((path, hash));
    }

    /// Build an index from a collection of photos.
    pub fn build(config: LshConfig, photos: Vec<(String, ImageHashValue)>) -> (r: LshIndex)
        requires
            forall|k: int| 0 <= k < photos@.len() ==> (#[trigger] photos@[k].1).wf(),
        ensures
            r.config == config,
            r.photos@ == photos@,
    {
        let ghost photos0 = photos@;
        let mut rest = photos;
        let mut index = LshIndex::new(config);
        while rest.len() > 0
            invariant
                index.config == config,
                index.photos@ + rest@ =~= photos0,
                forall|k2: int| 0 <= k2 < rest@.len() ==> (#[trigger] rest@[k2].1).wf(),
            decreases rest@.len(),
        {
            let ghost rest_pre = rest@;
            let (path, hash) = rest.remove(0);
            index.add(path, hash);
            proof {
                assert(index.photos@ + rest@ =~= photos0);
            }
        }
        proof {
            assert(index.photos@ =~= photos0);
        }
        index
    }

    /// Number of indexed photos.
    pub fn len(&self) -> (r: usize)
        ensures
            r == self.photos@.len(),
    {
        self.photos.len()
    }

    /// Whether the index is empty.
    pub fn is_empty(&self) -> (r: bool)
        ensures
            r == (self.photos@.len() == 0),
    {
        self.photos.len() == 0
    }

    /// The indexed photos.
    pub fn photos(&self) -> (r: &Vec<(String, ImageHashValue)>)
        ensures
            r == &self.photos,
    {
        &self.photos
    }

    /// Consume the index and return the photos.
    pub fn into_photos(self) -> (r: Vec<(String, ImageHashValue)>)
        ensures
            r == self.photos,
    {
        self.photos
    }

    /// How many bands two hashes share.
    fn shared_bands(&self, a: &Vec<u8>, b: &Vec<u8>) -> (r: usize)
        requires
            self.bits_per_band as int * self.config.bands as int <= 0x1000_0000,
            self.config.bands <= 0x100_0000,
        ensures
            r as int == spec_shared_bands(
                a@,
                b@,
                self.bits_per_band as int,
                self.config.bands as int,
            ),
    {
        let bpb = self.bits_per_band;
        let width = if bpb <= 63 {
            bpb
        } else {
            63
        };
        let mut count: usize = 0;
        let mut t: usize = 0;
        while t < self.config.bands
            invariant
                t <= self.config.bands,
                self.config.bands <= 0x100_0000,
                bpb == self.bits_per_band,
                width == if bpb <= 63 {
                    bpb as int
                } else {
                    63
                },
                self.bits_per_band as int * self.config.bands as int <= 0x1000_0000,
                count <= t,
                count as int == spec_shared_bands(a@, b@, bpb as int, t as int),
            decreases self.config.bands - t,
        {
            proof {
                let tt = t as int;
                let bb = bpb as int;
                let nb = self.config.bands as int;
                assert(tt * bb + bb <= 0x1000_0000) by (nonlinear_arith)
                    requires
                        0 <= tt,
                        tt < nb,
                        0 <= bb,
                        bb * nb <= 0x1000_0000,
                ;
            }
            let start = t * bpb;
            let va = band_of(a, start, width);
            let vb = band_of(b, start, width);
            if va == vb {
                count = count + 1;
            }
            t = t + 1;
        }
        count
    }

    /// The candidate pairs: every pair of photo indices whose hashes
    /// share at least the configured number of bands, in a stable
    /// order that depends only on the photo list's ordering.
    #[verifier::rlimit(100)]
    pub fn find_candidates(&self) -> (r: Vec<(usize, usize)>)
        requires
            self.bits_per_band as int * self.config.bands as int <= 0x1000_0000,
            self.config.bands <= 0x100_0000,
        ensures
            r@ == spec_find_cands(
                self.photos@,
                self.bits_per_band as int,
                self.config.bands as int,
                self.config.min_matching_bands as int,
            ),
    {
        let n = self.photos.len();
        let ghost bpb = self.bits_per_band as int;
        let ghost bands = self.config.bands as int;
        let ghost min = self.config.min_matching_bands as int;
        let mut r: Vec<(usize, usize)> = Vec::new();
        let mut i: usize = 0;
        while i < n
            invariant
                n == self.photos@.len(),
                i <= n,
                self.bits_per_band as int * self.config.bands as int <= 0x1000_0000,
                self.config.bands <= 0x100_0000,
                bpb == self.bits_per_band as int,
                bands == self.config.bands as int,
                min == self.config.min_matching_bands as int,
                r@ + spec_cands_from(self.photos@, bpb, bands, min, i as int, i + 1 as int)
                    == spec_find_cands(self.photos@, bpb, bands, min),
            decreases n - i,
        {
            let mut j: usize = i + 1;
            while j < n
                invariant
                    n == self.photos@.len(),
                    i < j,
                    j <= n || j == i + 1,
                    i < n,
                    self.bits_per_band as int * self.config.bands as int <= 0x1000_0000,
                    self.config.bands <= 0x100_0000,
                    bpb == self.bits_per_band as int,
                    bands == self.config.bands as int,
                    min == self.config.min_matching_bands as int,
                    r@ + spec_cands_from(self.photos@, bpb, bands, min, i as int, j as int)
                        == spec_find_cands(self.photos@, bpb, bands, min),
                decreases n - j,
            {
                let shared = self.shared_bands(&self.photos[i].1.bytes, &self.photos[j].1.bytes);
                if shared >= self.config.min_matching_bands {
                    let ghost r_old = r@;
                    r.push((i, j));
                    proof {
                        assert(r@ + spec_cands_from(self.photos@, bpb, bands, min, i as int, j + 1)
                            =~= r_old + spec_cands_from(
                            self.photos@,
                            bpb,
                            bands,
                            min,
                            i as int,
                            j as int,
                        ));
                    }
                }
                j = j + 1;
            }
            i = i + 1;
        }
        r
    }

    /// The candidate pairs with their photos: for each candidate
    /// index pair, the two paths and hashes.
    pub fn find_candidate_pairs(&self) -> (r: Vec<(String, ImageHashValue, String, ImageHashValue)>)
        requires
            self.bits_per_band as int * self.config.bands as int <= 0x1000_0000,
            self.config.bands <= 0x100_0000,
            forall|k: int| 0 <= k < self.photos@.len() ==> (#[trigger] self.photos@[k].1).wf(),
        ensures
            ({
                let cands = spec_find_cands(
                    self.photos@,
                    self.bits_per_band as int,
                    self.config.bands as int,
                    self.config.min_matching_bands as int,
                );
                &&& r@.len() == cands.len()
                &&& forall|k: int|
                    0 <= k < cands.len() ==> {
                        let (i, j) = #[trigger] cands[k];
                        &&& i < self.photos@.len()
                        &&& j < self.photos@.len()
                        &&& r@[k].0@ == self.photos@[i as int].0@
                        &&& r@[k].1.bytes@ == self.photos@[i as int].1.bytes@
                        &&& r@[k].2@ == self.photos@[j as int].0@
                        &&& r@[k].3.bytes@ == self.photos@[j as int].1.bytes@
                    }
            }),
    {
        let n = self.photos.len();
        let cands = self.find_candidates();
        proof {
            assert(self.photos@.len() == n);
            lemma_cands_in_range(
                self.photos@,
                self.bits_per_band as int,
                self.config.bands as int,
                self.config.min_matching_bands as int,
                0,
                1,
            );
        }
        let mut r: Vec<(String, ImageHashValue, String, ImageHashValue)> = Vec::new();
        let mut k: usize = 0;
        while k < cands.len()
            invariant
                cands@ == spec_find_cands(
                    self.photos@,
                    self.bits_per_band as int,
                    self.config.bands as int,
                    self.config.min_matching_bands as int,
                ),
                forall|k2: int|
                    0 <= k2 < cands@.len() ==> (#[trigger] cands@[k2]).0 < self.photos@.len()
                        && cands@[k2].1 < self.photos@.len(),
                forall|k2: int|
                    0 <= k2 < self.photos@.len() ==> (#[trigger] self.photos@[k2].1).wf(),
                k <= cands@.len(),
                r@.len() == k,
                forall|k2: int|
                    0 <= k2 < k ==> {
                        let (i, j) = #[trigger] cands@[k2];
                        &&& r@[k2].0@ == self.photos@[i as int].0@
                        &&& r@[k2].1.bytes@ == self.photos@[i as int].1.bytes@
                        &&& r@[k2].2@ == self.photos@[j as int].0@
                        &&& r@[k2].3.bytes@ == self.photos@[j as int].1.bytes@
                    },
            decreases cands@.len() - k,
        {
            let (i, j) = cands[k];
            let pa = self.photos[i].0.clone();
            let ha = ImageHashValue::from_bytes(
                self.photos[i].1.bytes.as_slice(),
                self.photos[i].1.algorithm,
            );
            let pb = self.photos[j].0.clone();
            let hb = ImageHashValue::from_bytes(
                self.photos[j].1.bytes.as_slice(),
                self.photos[j].1.algorithm,
            );
            r.push((pa, ha, pb, hb));
            k = k + 1;
        }
        r
    }

    /// Statistics about the index.
    pub fn stats(&self) -> (r: LshIndexStats)
        requires
            self.bits_per_band as int * self.config.bands as int <= 0x1000_0000,
            self.config.bands <= 0x100_0000,
            self.photos@.len() <= 0xFFFF,
        ensures
            r.total_photos == self.photos@.len(),
            r.bands == self.config.bands,
            r.bits_per_band == self.bits_per_band,
            r.naive_comparisons as int == self.photos@.len() as int * (self.photos@.len() as int
                - 1) / 2,
            r.candidate_pairs as int == spec_find_cands(
                self.photos@,
                self.bits_per_band as int,
                self.config.bands as int,
                self.config.min_matching_bands as int,
            ).len(),
    {
        let n = self.photos.len();
        proof {
            assert(n as int * (n as int - 1) <= 0xFFFF * 0xFFFF) by (nonlinear_arith)
                requires
                    0 <= n <= 0xFFFF,
            ;
        }
        let naive = if n > 0 {
            n * (n - 1) / 2
        } else {
            0
        };
        proof {
            if n == 0 {
                assert(n as int * (n as int - 1) / 2 == 0) by (nonlinear_arith)
                    requires
                        n == 0,
                ;
            }
        }
        let cands = self.find_candidates();
        LshIndexStats {
            total_photos: n,
            bands: self.config.bands,
            bits_per_band: self.bits_per_band,
            candidate_pairs: cands.len(),
            naive_comparisons: naive,
        }
    }
}

/// Every candidate pair indexes into the photo list, with the first
/// index below the second.
proof fn lemma_cands_in_range(
    photos: Seq<(String, ImageHashValue)>,
    bpb: int,
    bands: int,
    min: int,
    i: int,
    j: int,
)
    requires
        0 <= i,
        i < j,
        photos.len() + 1 - j >= 0,
        photos.len() <= usize::MAX,
    ensures
        forall|k: int|
            0 <= k < spec_cands_from(photos, bpb, bands, min, i, j).len() ==> (
            #[trigger] spec_cands_from(photos, bpb, bands, min, i, j)[k]).0 < photos.len()
                && spec_cands_from(photos, bpb, bands, min, i, j)[k].1 < photos.len(),
    decreases photos.len() - i, photos.len() + 1 - j,
{
    if i >= photos.len() || j > photos.len() {
        assert(spec_cands_from(photos, bpb, bands, min, i, j) =~= Seq::<(usize, usize)>::empty());
    } else if j == photos.len() {
        lemma_cands_in_range(photos, bpb, bands, min, i + 1, i + 2);
        let cur = spec_cands_from(photos, bpb, bands, min, i, j);
        let rec = spec_cands_from(photos, bpb, bands, min, i + 1, i + 2);
        assert(cur =~= rec);
        assert forall|k: int| 0 <= k < cur.len() implies (#[trigger] cur[k]).0 < photos.len()
            && cur[k].1 < photos.len() by {
            assert(cur[k] == rec[k]);
        }
    } else {
        lemma_cands_in_range(photos, bpb, bands, min, i, j + 1);
        let cur = spec_cands_from(photos, bpb, bands, min, i, j);
        let rest = spec_cands_from(photos, bpb, bands, min, i, j + 1);
        assert forall|k: int| 0 <= k < cur.len() implies (#[trigger] cur[k]).0 < photos.len()
            && cur[k].1 < photos.len() by {
            if spec_shared_bands(photos[i].1.bytes@, photos[j].1.bytes@, bpb, bands) >= min {
                assert(cur =~= seq![(i as usize, j as usize)] + rest);
                if k == 0 {
                    assert(cur[0] == (i as usize, j as usize));
                    assert((i as usize) < photos.len());
                    assert((j as usize) < photos.len());
                } else {
                    assert(cur[k] == rest[k - 1]);
                }
            } else {
                assert(cur =~= rest);
                assert(cur[k] == rest[k]);
            }
        }
    }
}

} // verus!
