//! Perceptual hash values: the algorithm tag, the raw bit string,
//! Hamming distance, and hex rendering.

use vstd::prelude::*;

use crate::text::{spec_eq_lower, eq_ignore_ascii_case};

verus! {

/// Upper bound on the byte length of a hash value; keeps the Hamming
/// distance representable in a `u32`.
pub const MAX_HASH_BYTES: usize = 0x0800_0000;

/// Available hash algorithms.
#[derive(Debug, Clone, Copy, PartialEq, Eq, Hash, Structural)]
pub enum HashAlgorithmKind {
    /// Average hash: fast, good for exact duplicates.
    Average,
    /// Difference hash: good balance of speed and accuracy.
    Difference,
    /// Perceptual hash: most robust, handles edits well.
    Perceptual,
    /// All three at once, compared by majority agreement.
    Fusion,
}

impl HashAlgorithmKind {
    /// Human-readable description of the algorithm.
    pub fn description(&self) -> (r: &'static str)
        ensures
            *self == HashAlgorithmKind::Average ==> r@ == "Average Hash (aHash) - Fast comparison based on average brightness"@,
            *self == HashAlgorithmKind::Difference ==> r@ == "Difference Hash (dHash) - Compares brightness gradients between pixels"@,
            *self == HashAlgorithmKind::Perceptual ==> r@ == "Perceptual Hash (pHash) - DCT-based, robust to edits and transformations"@,
            *self == HashAlgorithmKind::Fusion ==> r@ == "Fusion - Combines aHash, dHash and pHash by majority agreement"@,
    {
        match self {
            HashAlgorithmKind::Average => {
                "Average Hash (aHash) - Fast comparison based on average brightness"
            },
            HashAlgorithmKind::Difference => {
                "Difference Hash (dHash) - Compares brightness gradients between pixels"
            },
            HashAlgorithmKind::Perceptual => {
                "Perceptual Hash (pHash) - DCT-based, robust to edits and transformations"
            },
            HashAlgorithmKind::Fusion => {
                "Fusion - Combines aHash, dHash and pHash by majority agreement"
            },
        }
    }

    /// Short label of the algorithm, as shown in reports.
    pub fn label(&self) -> (r: &'static str)
        ensures
            *self == HashAlgorithmKind::Average ==> r@ == "aHash"@,
            *self == HashAlgorithmKind::Difference ==> r@ == "dHash"@,
            *self == HashAlgorithmKind::Perceptual ==> r@ == "pHash"@,
            *self == HashAlgorithmKind::Fusion ==> r@ == "Fusion"@,
    {
        match self {
            HashAlgorithmKind::Average => "aHash",
            HashAlgorithmKind::Difference => "dHash",
            HashAlgorithmKind::Perceptual => "pHash",
            HashAlgorithmKind::Fusion => "Fusion",
        }
    }

    /// Canonical lower-case name used in the persistent cache.
    pub fn storage_name(&self) -> (r: &'static str)
        ensures
            *self == HashAlgorithmKind::Average ==> r@ == "average"@,
            *self == HashAlgorithmKind::Difference ==> r@ == "difference"@,
            *self == HashAlgorithmKind::Perceptual ==> r@ == "perceptual"@,
            *self == HashAlgorithmKind::Fusion ==> r@ == "fusion"@,
    {
        match self {
            HashAlgorithmKind::Average => "average",
            HashAlgorithmKind::Difference => "difference",
            HashAlgorithmKind::Perceptual => "perceptual",
            HashAlgorithmKind::Fusion => "fusion",
        }
    }

    /// Decode a stored algorithm name; unknown names decode to
    /// `Difference` so that the store stays forward-compatible.
    pub fn from_storage_name(s: &str) -> (r: HashAlgorithmKind)
        ensures
            r == HashAlgorithmKind::spec_from_storage_name(s@),
    {
        proof {
            reveal_strlit("average");
            reveal_strlit("perceptual");
            reveal_strlit("fusion");
        }
        if eq_ignore_ascii_case(s, "average") {
            HashAlgorithmKind::Average
        } else if eq_ignore_ascii_case(s, "perceptual") {
            HashAlgorithmKind::Perceptual
        } else if eq_ignore_ascii_case(s, "fusion") {
            HashAlgorithmKind::Fusion
        } else {
            HashAlgorithmKind::Difference
        }
    }

    /// Which algorithm a stored name decodes to.
    pub open spec fn spec_from_storage_name(s: Seq<char>) -> HashAlgorithmKind {
        if spec_eq_lower(s, "average"@) {
            HashAlgorithmKind::Average
        } else if spec_eq_lower(s, "perceptual"@) {
            HashAlgorithmKind::Perceptual
        } else if spec_eq_lower(s, "fusion"@) {
            HashAlgorithmKind::Fusion
        } else {
            HashAlgorithmKind::Difference
        }
    }
}

/// Number of one bits in a byte.
pub open spec fn spec_popcount(b: u8) -> int {
    (b as int) % 2 + (b as int / 2) % 2 + (b as int / 4) % 2 + (b as int / 8) % 2 + (b as int / 16)
        % 2 + (b as int / 32) % 2 + (b as int / 64) % 2 + (b as int / 128) % 2
}

/// Count the one bits of a byte.
pub fn popcount(b: u8) -> (r: u8)
    ensures
        r as int == spec_popcount(b),
        r <= 8,
{
    let r = b % 2 + (b / 2) % 2 + (b / 4) % 2 + (b / 8) % 2 + (b / 16) % 2 + (b / 32) % 2 + (b
        / 64) % 2 + (b / 128) % 2;
    r
}

/// Hamming distance of the first `n` byte pairs.
pub open spec fn spec_distance_upto(a: Seq<u8>, b: Seq<u8>, n: int) -> int
    decreases n,
{
    if n <= 0 {
        0
    } else {
        spec_distance_upto(a, b, n - 1) + spec_popcount(a[n - 1] ^ b[n - 1])
    }
}

/// Hamming distance of two byte strings: differing bits over the
/// common prefix of the two (they have equal length whenever the
/// algorithm tags match).
pub open spec fn spec_distance(a: Seq<u8>, b: Seq<u8>) -> int {
    spec_distance_upto(a, b, if a.len() <= b.len() { a.len() as int } else { b.len() as int })
}

/// The distance over a prefix is bounded by eight bits per byte.
pub proof fn lemma_distance_upto_bound(a: Seq<u8>, b: Seq<u8>, n: int)
    requires
        n >= 0,
    ensures
        0 <= spec_distance_upto(a, b, n) <= 8 * n,
    decreases n,
{
    if n > 0 {
        lemma_distance_upto_bound(a, b, n - 1);
    }
}

/// A computed perceptual hash.
#[derive(Debug, Clone)]
pub struct ImageHashValue {
    /// The raw hash bytes, row-major, most significant bit first.
    pub bytes: Vec<u8>,
    /// The algorithm that produced this hash.
    pub algorithm: HashAlgorithmKind,
}

impl ImageHashValue {
    /// The hash is small enough for its bit count and distances to fit in `u32`.
    pub open spec fn wf(&self) -> bool {
        self.bytes@.len() <= MAX_HASH_BYTES
    }

    /// Create a new hash value.
    pub fn new(bytes: Vec<u8>, algorithm: HashAlgorithmKind) -> (r: ImageHashValue)
        requires
            bytes@.len() <= MAX_HASH_BYTES,
        ensures
            r.bytes == bytes,
            r.algorithm == algorithm,
            r.wf(),
    {
        ImageHashValue { bytes, algorithm }
    }

    /// Restore a hash value from raw bytes (cache restoration).
    pub fn from_bytes(bytes: &[u8], algorithm: HashAlgorithmKind) -> (r: ImageHashValue)
        requires
            bytes@.len() <= MAX_HASH_BYTES,
        ensures
            r.bytes@ == bytes@,
            r.algorithm == algorithm,
            r.wf(),
    {
        ImageHashValue { bytes: vstd::slice::slice_to_vec(bytes), algorithm }
    }

    /// The algorithm that produced this hash.
    pub fn algorithm(&self) -> (r: HashAlgorithmKind)
        ensures
            r == self.algorithm,
    {
        self.algorithm
    }

    /// The raw hash bytes.
    pub fn as_bytes(&self) -> (r: &Vec<u8>)
        ensures
            r == &self.bytes,
    {
        &self.bytes
    }

    /// Total number of bits in this hash.
    pub fn bit_count(&self) -> (r: u32)
        requires
            self.wf(),
        ensures
            r == 8 * self.bytes@.len(),
    {
        (self.bytes.len() * 8) as u32
    }

    /// Hamming distance to another hash: the number of differing bits.
    pub fn distance(&self, other: &ImageHashValue) -> (r: u32)
        requires
            self.wf(),
        ensures
            r == spec_distance(self.bytes@, other.bytes@),
    {
        let a = &self.bytes;
        let b = &other.bytes;
        let n = if a.len() <= b.len() {
            a.len()
        } else {
            b.len()
        };
        let mut acc: u32 = 0;
        let mut i: usize = 0;
        proof {
            lemma_distance_upto_bound(a@, b@, n as int);
        }
        while i < n
            invariant
                i <= n,
                n <= a@.len(),
                n <= b@.len(),
                n <= MAX_HASH_BYTES,
                acc == spec_distance_upto(a@, b@, i as int),
                acc <= 8 * i,
            decreases n - i,
        {
            let d = popcount(a[i] ^ b[i]);
            acc = acc + d as u32;
            i = i + 1;
        }
        acc
    }
}

/// Hex digit characters for values below sixteen.
pub open spec fn spec_hex_digit(d: nat) -> char {
    if d == 0 {
        '0'
    } else if d == 1 {
        '1'
    } else if d == 2 {
        '2'
    } else if d == 3 {
        '3'
    } else if d == 4 {
        '4'
    } else if d == 5 {
        '5'
    } else if d == 6 {
        '6'
    } else if d == 7 {
        '7'
    } else if d == 8 {
        '8'
    } else if d == 9 {
        '9'
    } else if d == 10 {
        'a'
    } else if d == 11 {
        'b'
    } else if d == 12 {
        'c'
    } else if d == 13 {
        'd'
    } else if d == 14 {
        'e'
    } else {
        'f'
    }
}

/// Lowercase hex rendering of a byte string, two digits per byte.
pub open spec fn spec_hex(bytes: Seq<u8>) -> Seq<char>
    decreases bytes.len(),
{
    if bytes.len() == 0 {
        Seq::<char>::empty()
    } else {
        spec_hex(bytes.drop_last()) + seq![
            spec_hex_digit((bytes.last() / 16) as nat),
            spec_hex_digit((bytes.last() % 16) as nat),
        ]
    }
}

/// One hex digit character for a value below sixteen.
fn hex_digit(d: u8) -> (r: char)
    requires
        d < 16,
    ensures
        r == spec_hex_digit(d as nat),
{
    if d == 0 {
        '0'
    } else if d == 1 {
        '1'
    } else if d == 2 {
        '2'
    } else if d == 3 {
        '3'
    } else if d == 4 {
        '4'
    } else if d == 5 {
        '5'
    } else if d == 6 {
        '6'
    } else if d == 7 {
        '7'
    } else if d == 8 {
        '8'
    } else if d == 9 {
        '9'
    } else if d == 10 {
        'a'
    } else if d == 11 {
        'b'
    } else if d == 12 {
        'c'
    } else if d == 13 {
        'd'
    } else if d == 14 {
        'e'
    } else {
        'f'
    }
}

/// Lowercase hex string of a byte string.
pub fn to_hex(bytes: &Vec<u8>) -> (r: String)
    ensures
        r@ == spec_hex(bytes@),
{
    let mut r = String::new();
    let mut i: usize = 0;
    while i < bytes.len()
        invariant
            i <= bytes@.len(),
            r@ == spec_hex(bytes@.take(i as int)),
        decreases bytes@.len() - i,
    {
        let b = bytes[i];
        r.push(hex_digit(b / 16));
        r.push(hex_digit(b % 16));
        proof {
            let t = bytes@.take(i + 1 as int);
            assert(t.drop_last() =~= bytes@.take(i as int));
            assert(t.last() == bytes@[i as int]);
            assert(r@ =~= spec_hex(t.drop_last()) + seq![
                spec_hex_digit((t.last() / 16) as nat),
                spec_hex_digit((t.last() % 16) as nat),
            ]);
        }
        i = i + 1;
    }
    proof {
        assert(bytes@.take(bytes@.len() as int) =~= bytes@);
    }
    r
}

impl ImageHashValue {
    /// The hash as a lowercase hexadecimal string.
    pub fn to_hex(&self) -> (r: String)
        ensures
            r@ == spec_hex(self.bytes@),
    {
        to_hex(&self.bytes)
    }
}

/// Rounded similarity percentage: `100 * (1 - distance / total_bits)`,
/// rounded half up.
pub open spec fn spec_similarity_percent(distance: int, total_bits: int) -> int {
    if total_bits == 0 {
        100
    } else {
        ((total_bits - distance) * 200 + total_bits) / (2 * total_bits)
    }
}

/// Similarity of two hashes as a whole percentage.
pub fn similarity_percent(distance: u32, total_bits: u32) -> (r: u32)
    requires
        distance <= total_bits,
    ensures
        r == spec_similarity_percent(distance as int, total_bits as int),
        r <= 100,
{
    if total_bits == 0 {
        100
    } else {
        let num = (total_bits - distance) as u64 * 200 + total_bits as u64;
        let den = 2 * total_bits as u64;
        let r = (num / den) as u32;
        proof {
            let t = total_bits as int;
            let d = distance as int;
            assert(((t - d) * 200 + t) / (2 * t) <= 100) by (nonlinear_arith)
                requires
                    0 <= d <= t,
                    t > 0,
            ;
            assert(num as int == (t - d) * 200 + t) by (nonlinear_arith)
                requires
                    num == (total_bits - distance) as u64 * 200 + total_bits as u64,
                    d == distance as int,
                    t == total_bits as int,
                    0 <= d <= t < 0x1_0000_0000,
            ;
        }
        r
    }
}

} // verus!
