//! Fusion hashes: a bundle of aHash, dHash and pHash compared by
//! majority agreement, with a fixed byte layout for caching.

use vstd::prelude::*;

use crate::hashval::{spec_distance, HashAlgorithmKind, ImageHashValue, MAX_HASH_BYTES};

verus! {

/// A fusion hash carrying the results of all three algorithms.
#[derive(Debug, Clone)]
pub struct FusionHash {
    /// Average hash (aHash).
    pub ahash: ImageHashValue,
    /// Difference hash (dHash).
    pub dhash: ImageHashValue,
    /// Perceptual hash (pHash).
    pub phash: ImageHashValue,
}

/// Result of comparing two fusion hashes.
#[derive(Debug, Clone)]
pub struct FusionCompareResult {
    /// Distance of the aHash pair.
    pub ahash_distance: u32,
    /// Distance of the dHash pair.
    pub dhash_distance: u32,
    /// Distance of the pHash pair.
    pub phash_distance: u32,
    /// How many of the three algorithms agree (distance within threshold).
    pub votes: u8,
    /// Confidence level derived from the agreement count.
    pub confidence: FusionConfidence,
    /// Minimum distance among the agreeing algorithms; the maximum
    /// `u32` when none agree.
    pub min_distance: u32,
    /// Whether this counts as a duplicate: at least two must agree.
    pub is_duplicate: bool,
}

/// Confidence level by number of agreeing algorithms.
#[derive(Debug, Clone, Copy, PartialEq, Eq, Structural)]
pub enum FusionConfidence {
    /// All three algorithms agree.
    High,
    /// Two algorithms agree.
    Medium,
    /// One algorithm agrees; not a duplicate.
    Low,
    /// No algorithm agrees.
    NoMatch,
}

impl FusionConfidence {
    /// Human-readable label of the confidence level.
    pub fn label(&self) -> (r: &'static str)
        ensures
            *self == FusionConfidence::High ==> r@ == "High (3/3)"@,
            *self == FusionConfidence::Medium ==> r@ == "Medium (2/3)"@,
            *self == FusionConfidence::Low ==> r@ == "Low (1/3)"@,
            *self == FusionConfidence::NoMatch ==> r@ == "No match"@,
    {
        match self {
            FusionConfidence::High => "High (3/3)",
            FusionConfidence::Medium => "Medium (2/3)",
            FusionConfidence::Low => "Low (1/3)",
            FusionConfidence::NoMatch => "No match",
        }
    }
}

/// A 16-bit length, little endian.
pub open spec fn spec_u16_le(n: int) -> Seq<u8> {
    seq![(n % 256) as u8, (n / 256) as u8]
}

/// The fixed cache layout of a fusion hash: each of the three hashes
/// in the order aHash, dHash, pHash, prefixed by its 16-bit
/// little-endian length.
pub open spec fn spec_fusion_bytes(a: Seq<u8>, d: Seq<u8>, p: Seq<u8>) -> Seq<u8> {
    spec_u16_le(a.len() as int) + a + spec_u16_le(d.len() as int) + d + spec_u16_le(
        p.len() as int,
    ) + p
}

/// Read one length-prefixed section at `off`: the section bytes and
/// the offset after it, or nothing if the bytes are too short.
pub open spec fn spec_take_section(bytes: Seq<u8>, off: int) -> Option<(Seq<u8>, int)> {
    if bytes.len() - off < 2 {
        None
    } else {
        let l = bytes[off] as int + 256 * (bytes[off + 1] as int);
        if bytes.len() - off - 2 < l {
            None
        } else {
            Some((bytes.subrange(off + 2, off + 2 + l), off + 2 + l))
        }
    }
}

/// Parse the fixed fusion layout: three length-prefixed sections.
/// Trailing bytes after the third section are ignored.
pub open spec fn spec_parse_fusion(bytes: Seq<u8>) -> Option<(Seq<u8>, Seq<u8>, Seq<u8>)> {
    match spec_take_section(bytes, 0) {
        None => None,
        Some((a, o1)) => match spec_take_section(bytes, o1) {
            None => None,
            Some((d, o2)) => match spec_take_section(bytes, o2) {
                None => None,
                Some((p, _o3)) => Some((a, d, p)),
            },
        },
    }
}

/// Serialising a fusion hash with the fixed layout and parsing it
/// back yields the identical sub-hashes.
pub proof fn lemma_fusion_round_trip(a: Seq<u8>, d: Seq<u8>, p: Seq<u8>)
    requires
        a.len() <= 0xFFFF,
        d.len() <= 0xFFFF,
        p.len() <= 0xFFFF,
    ensures
        spec_parse_fusion(spec_fusion_bytes(a, d, p)) == Some((a, d, p)),
{
    let bytes = spec_fusion_bytes(a, d, p);
    let al = a.len() as int;
    let dl = d.len() as int;
    let pl = p.len() as int;
    assert(bytes.len() == 6 + al + dl + pl);
    assert(bytes[0] == (al % 256) as u8);
    assert(bytes[1] == (al / 256) as u8);
    assert(bytes[0] as int + 256 * (bytes[1] as int) == al);
    assert(bytes.subrange(2, 2 + al) =~= a);
    let o1 = 2 + al;
    assert(bytes[o1] == (dl % 256) as u8);
    assert(bytes[o1 + 1] == (dl / 256) as u8);
    assert(bytes[o1] as int + 256 * (bytes[o1 + 1] as int) == dl);
    assert(bytes.subrange(o1 + 2, o1 + 2 + dl) =~= d);
    let o2 = o1 + 2 + dl;
    assert(bytes[o2] == (pl % 256) as u8);
    assert(bytes[o2 + 1] == (pl / 256) as u8);
    assert(bytes[o2] as int + 256 * (bytes[o2 + 1] as int) == pl);
    assert(bytes.subrange(o2 + 2, o2 + 2 + pl) =~= p);
}

/// Copy a byte range out of a slice.
fn copy_range(bytes: &[u8], start: usize, end: usize) -> (r: Vec<u8>)
    requires
        start <= end <= bytes@.len(),
    ensures
        r@ == bytes@.subrange(start as int, end as int),
{
    let mut r: Vec<u8> = Vec::new();
    let mut i: usize = start;
    while i < end
        invariant
            start <= i <= end <= bytes@.len(),
            r@ =~= bytes@.subrange(start as int, i as int),
        decreases end - i,
    {
        let b = bytes[i];
        r.push(b);
        proof {
            assert(r@ =~= bytes@.subrange(start as int, i + 1 as int));
        }
        i = i + 1;
    }
    r
}

impl FusionHash {
    /// The three hashes are small enough for the fixed layout's
    /// 16-bit length prefixes.
    pub open spec fn wf(&self) -> bool {
        &&& self.ahash.bytes@.len() <= 0xFFFF
        &&& self.dhash.bytes@.len() <= 0xFFFF
        &&& self.phash.bytes@.len() <= 0xFFFF
    }

    /// Create a fusion hash from the three individual hashes.
    pub fn new(ahash: ImageHashValue, dhash: ImageHashValue, phash: ImageHashValue) -> (r:
        FusionHash)
        ensures
            r.ahash == ahash,
            r.dhash == dhash,
            r.phash == phash,
    {
        FusionHash { ahash, dhash, phash }
    }

    /// Compare two fusion hashes: each algorithm votes when its
    /// distance is within the threshold; a duplicate needs at least
    /// two votes, and the reported distance is the least distance
    /// among the agreeing algorithms.
    pub fn compare(&self, other: &FusionHash, threshold: u32) -> (r: FusionCompareResult)
        requires
            self.wf(),
        ensures
            r.ahash_distance == spec_distance(self.ahash.bytes@, other.ahash.bytes@),
            r.dhash_distance == spec_distance(self.dhash.bytes@, other.dhash.bytes@),
            r.phash_distance == spec_distance(self.phash.bytes@, other.phash.bytes@),
            r.votes == (if r.ahash_distance <= threshold {
                1int
            } else {
                0int
            }) + (if r.dhash_distance <= threshold {
                1int
            } else {
                0int
            }) + (if r.phash_distance <= threshold {
                1int
            } else {
                0int
            }),
            r.confidence == (if r.votes == 3 {
                FusionConfidence::High
            } else if r.votes == 2 {
                FusionConfidence::Medium
            } else if r.votes == 1 {
                FusionConfidence::Low
            } else {
                FusionConfidence::NoMatch
            }),
            r.is_duplicate == (r.votes >= 2),
            r.min_distance == spec_min_agreeing(
                r.ahash_distance,
                r.dhash_distance,
                r.phash_distance,
                threshold,
            ),
    {
        let ahash_dist = self.ahash.distance(&other.ahash);
        let dhash_dist = self.dhash.distance(&other.dhash);
        let phash_dist = self.phash.distance(&other.phash);

        let ahash_match = ahash_dist <= threshold;
        let dhash_match = dhash_dist <= threshold;
        let phash_match = phash_dist <= threshold;

        let votes: u8 = (if ahash_match {
            1u8
        } else {
            0u8
        }) + (if dhash_match {
            1u8
        } else {
            0u8
        }) + (if phash_match {
            1u8
        } else {
            0u8
        });

        let confidence = if votes == 3 {
            FusionConfidence::High
        } else if votes == 2 {
            FusionConfidence::Medium
        } else if votes == 1 {
            FusionConfidence::Low
        } else {
            FusionConfidence::NoMatch
        };

        let mut min_distance: u32 = 0xFFFF_FFFF;
        if ahash_match && ahash_dist < min_distance {
            min_distance = ahash_dist;
        }
        if dhash_match && dhash_dist < min_distance {
            min_distance = dhash_dist;
        }
        if phash_match && phash_dist < min_distance {
            min_distance = phash_dist;
        }

        FusionCompareResult {
            ahash_distance: ahash_dist,
            dhash_distance: dhash_dist,
            phash_distance: phash_dist,
            votes,
            confidence,
            min_distance,
            is_duplicate: votes >= 2,
        }
    }

    /// Quick duplicate check: at least two of the three algorithms
    /// must agree within the threshold.
    pub fn is_duplicate_of(&self, other: &FusionHash, threshold: u32) -> (r: bool)
        requires
            self.wf(),
        ensures
            r == ((if spec_distance(self.ahash.bytes@, other.ahash.bytes@) <= threshold {
                1int
            } else {
                0int
            }) + (if spec_distance(self.dhash.bytes@, other.dhash.bytes@) <= threshold {
                1int
            } else {
                0int
            }) + (if spec_distance(self.phash.bytes@, other.phash.bytes@) <= threshold {
                1int
            } else {
                0int
            }) >= 2),
    {
        self.compare(other, threshold).is_duplicate
    }

    /// Serialise into the fixed cache layout.
    pub fn to_bytes(&self) -> (r: Vec<u8>)
        requires
            self.wf(),
        ensures
            r@ == spec_fusion_bytes(self.ahash.bytes@, self.dhash.bytes@, self.phash.bytes@),
    {
        let mut r: Vec<u8> = Vec::new();
        let alen = self.ahash.bytes.len();
        r.push((alen % 256) as u8);
        r.push((alen / 256) as u8);
        r.extend_from_slice(self.ahash.bytes.as_slice());
        let dlen = self.dhash.bytes.len();
        r.push((dlen % 256) as u8);
        r.push((dlen / 256) as u8);
        r.extend_from_slice(self.dhash.bytes.as_slice());
        let plen = self.phash.bytes.len();
        r.push((plen % 256) as u8);
        r.push((plen / 256) as u8);
        r.extend_from_slice(self.phash.bytes.as_slice());
        proof {
            assert(r@ =~= spec_fusion_bytes(
                self.ahash.bytes@,
                self.dhash.bytes@,
                self.phash.bytes@,
            ));
        }
        r
    }

    /// Restore a fusion hash from the fixed cache layout; `None` when
    /// the bytes are too short for the three declared sections.
    pub fn from_bytes(bytes: &[u8]) -> (r: Option<FusionHash>)
        ensures
            match spec_parse_fusion(bytes@) {
                Some((a, d, p)) => match r {
                    Some(f) => {
                        &&& f.ahash.bytes@ == a
                        &&& f.dhash.bytes@ == d
                        &&& f.phash.bytes@ == p
                        &&& f.ahash.algorithm == HashAlgorithmKind::Average
                        &&& f.dhash.algorithm == HashAlgorithmKind::Difference
                        &&& f.phash.algorithm == HashAlgorithmKind::Perceptual
                        &&& f.wf()
                    },
                    None => false,
                },
                None => r is None,
            },
    {
        let n = bytes.len();
        if n < 2 {
            return None;
        }
        let alen = bytes[0] as usize + 256 * (bytes[1] as usize);
        if n - 2 < alen {
            return None;
        }
        let a = copy_range(bytes, 2, 2 + alen);
        let o1 = 2 + alen;

        if n - o1 < 2 {
            return None;
        }
        let dlen = bytes[o1] as usize + 256 * (bytes[o1 + 1] as usize);
        if n - o1 - 2 < dlen {
            return None;
        }
        let d = copy_range(bytes, o1 + 2, o1 + 2 + dlen);
        let o2 = o1 + 2 + dlen;

        if n - o2 < 2 {
            return None;
        }
        let plen = bytes[o2] as usize + 256 * (bytes[o2 + 1] as usize);
        if n - o2 - 2 < plen {
            return None;
        }
        let p = copy_range(bytes, o2 + 2, o2 + 2 + plen);

        proof {
            assert(alen <= 0xFFFF && dlen <= 0xFFFF && plen <= 0xFFFF);
            assert(MAX_HASH_BYTES >= 0xFFFF);
        }
        Some(
            FusionHash {
                ahash: ImageHashValue::new(a, HashAlgorithmKind::Average),
                dhash: ImageHashValue::new(d, HashAlgorithmKind::Difference),
                phash: ImageHashValue::new(p, HashAlgorithmKind::Perceptual),
            },
        )
    }
}

/// The least of the distances whose algorithm agrees within the
/// threshold; the maximum `u32` when none agree.
pub open spec fn spec_min_agreeing(da: u32, dd: u32, dp: u32, threshold: u32) -> u32 {
    let m0 = 0xFFFF_FFFFu32;
    let m1 = if da <= threshold && da < m0 {
        da
    } else {
        m0
    };
    let m2 = if dd <= threshold && dd < m1 {
        dd
    } else {
        m1
    };
    if dp <= threshold && dp < m2 {
        dp
    } else {
        m2
    }
}

} // verus!
