//! The hash kernels: aHash over the mean luma, dHash over horizontal
//! gradients, and the DCT-based pHash, all emitting row-major,
//! MSB-first bit strings padded to whole bytes.

use vstd::prelude::*;

use crate::error::HashError;
use crate::grid::LumaGrid;
use crate::hashval::{HashAlgorithmKind, ImageHashValue, MAX_HASH_BYTES};
use crate::resize::{resize_to_grayscale, resized_luma};

verus! {

/// Sum of the first `n` pixels.
pub open spec fn spec_sum(pixels: Seq<u8>, n: int) -> int
    decreases n,
{
    if n <= 0 {
        0
    } else {
        spec_sum(pixels, n - 1) + pixels[n - 1]
    }
}

/// Mean luma of a pixel buffer, rounded down.
pub open spec fn spec_mean(pixels: Seq<u8>) -> int {
    if pixels.len() == 0 {
        0
    } else {
        spec_sum(pixels, pixels.len() as int) / pixels.len() as int
    }
}

/// The sum of `n` bytes is below `256 * n`.
proof fn lemma_sum_bound(pixels: Seq<u8>, n: int)
    requires
        0 <= n <= pixels.len(),
    ensures
        0 <= spec_sum(pixels, n) <= 255 * n,
    decreases n,
{
    if n > 0 {
        lemma_sum_bound(pixels, n - 1);
    }
}

/// The aHash bits: one per pixel, set when the pixel is brighter
/// than the mean.
pub open spec fn spec_ahash_bits(pixels: Seq<u8>, mean: int) -> Seq<bool> {
    Seq::new(pixels.len(), |i: int| pixels[i] > mean)
}

/// The dHash bits for a `(s+1) x s` grid: one per cell of the `s x s`
/// comparison grid, set when a pixel is brighter than its right
/// neighbour.
pub open spec fn spec_dhash_bits(pixels: Seq<u8>, s: int) -> Seq<bool> {
    Seq::new((s * s) as nat, |b: int| pixels[(b / s) * (s + 1) + (b % s)] > pixels[(b / s) * (s + 1) + (b
        % s) + 1])
}

/// The value of `count` bits starting at `start`, most significant
/// first; positions past the end count as zero.
pub open spec fn spec_byte_val(bits: Seq<bool>, start: int, count: int) -> int
    decreases count,
{
    if count <= 0 {
        0
    } else {
        spec_byte_val(bits, start, count - 1) * 2 + (if start + count - 1 < bits.len() && bits[
            start + count - 1
        ] {
            1int
        } else {
            0int
        })
    }
}

/// Powers of two.
pub open spec fn spec_p2(n: int) -> int
    decreases n,
{
    if n <= 0 {
        1
    } else {
        2 * spec_p2(n - 1)
    }
}

/// Powers of two are at least one.
pub proof fn lemma_p2_pos(n: int)
    ensures
        spec_p2(n) >= 1,
    decreases n,
{
    if n > 0 {
        lemma_p2_pos(n - 1);
    }
}

/// Powers of two grow with the exponent.
pub proof fn lemma_p2_mono(m: int, n: int)
    requires
        m <= n,
    ensures
        spec_p2(m) <= spec_p2(n),
    decreases n,
{
    if m < n && n > 0 {
        lemma_p2_mono(m, n - 1);
        lemma_p2_pos(n - 1);
    }
}

/// A byte value of `count` bits stays below two to the `count`.
proof fn lemma_byte_val_bound(bits: Seq<bool>, start: int, count: int)
    requires
        count >= 0,
    ensures
        0 <= spec_byte_val(bits, start, count) < spec_p2(count),
    decreases count,
{
    if count > 0 {
        lemma_byte_val_bound(bits, start, count - 1);
    }
}

/// Bits packed row-major into bytes, most significant bit first,
/// the last byte padded with zeros.
pub open spec fn spec_pack_bits(bits: Seq<bool>) -> Seq<u8> {
    Seq::new((bits.len() + 7) / 8, |j: int| spec_byte_val(bits, 8 * j, 8) as u8)
}

/// Pack a bit vector into bytes, MSB first, zero padded.
pub fn pack_bits(bits: &Vec<bool>) -> (r: Vec<u8>)
    requires
        bits@.len() <= 0x1000_0000,
    ensures
        r@ == spec_pack_bits(bits@),
        r@.len() == (bits@.len() + 7) / 8,
{
    let n = bits.len();
    let total_bytes = (n + 7) / 8;
    let mut r: Vec<u8> = Vec::new();
    let mut j: usize = 0;
    while j < total_bytes
        invariant
            n == bits@.len(),
            n <= 0x1000_0000,
            total_bytes == (n + 7) / 8,
            j <= total_bytes,
            r@.len() == j,
            forall|j0: int| 0 <= j0 < j ==> r@[j0] == spec_byte_val(bits@, 8 * j0, 8) as u8,
        decreases total_bytes - j,
    {
        let mut cur: u8 = 0;
        let mut p: usize = 0;
        while p < 8
            invariant
                n == bits@.len(),
                j < total_bytes,
                total_bytes == (n + 7) / 8,
                n <= 0x1000_0000,
                p <= 8,
                cur as int == spec_byte_val(bits@, 8 * j as int, p as int),
            decreases 8 - p,
        {
            proof {
                lemma_byte_val_bound(bits@, 8 * j as int, p as int);
                lemma_p2_mono(p as int, 7);
                reveal_with_fuel(spec_p2, 10);
                assert(spec_p2(7) == 128);
            }
            let idx = 8 * j + p;
            let b: u8 = if idx < n {
                if bits[idx] {
                    1
                } else {
                    0
                }
            } else {
                0
            };
            cur = cur * 2 + b;
            p = p + 1;
        }
        r.push(cur);
        j = j + 1;
    }
    proof {
        assert(r@ =~= spec_pack_bits(bits@));
    }
    r
}

/// Mean luma of a grid's pixels.
pub fn mean_luma(pixels: &Vec<u8>) -> (r: u8)
    requires
        pixels@.len() <= 0x1000_0000,
    ensures
        r as int == spec_mean(pixels@),
{
    if pixels.len() == 0 {
        return 0;
    }
    let mut total: u64 = 0;
    let mut i: usize = 0;
    while i < pixels.len()
        invariant
            i <= pixels@.len(),
            pixels@.len() <= 0x1000_0000,
            total == spec_sum(pixels@, i as int),
        decreases pixels@.len() - i,
    {
        proof {
            lemma_sum_bound(pixels@, i as int);
        }
        total = total + pixels[i] as u64;
        i = i + 1;
    }
    proof {
        lemma_sum_bound(pixels@, pixels@.len() as int);
        let l = pixels@.len() as int;
        assert(spec_sum(pixels@, l) / l <= 255) by (nonlinear_arith)
            requires
                l >= 1,
                0 <= spec_sum(pixels@, l) <= 255 * l,
        ;
    }
    (total / pixels.len() as u64) as u8
}

/// Average hash: brighter than the mean.
#[derive(Debug, Clone)]
pub struct AverageHasher {
    /// Side length of the square comparison grid.
    pub hash_size: u32,
}

impl AverageHasher {
    /// Create an aHash hasher with the given grid side.
    pub fn new(hash_size: u32) -> (r: AverageHasher)
        ensures
            r.hash_size == hash_size,
    {
        AverageHasher { hash_size }
    }

    /// The aHash of an already-resized square grid: bit `i` is set
    /// exactly when pixel `i` is brighter than the mean, packed
    /// MSB-first.
    pub fn hash_grid(grid: &LumaGrid) -> (r: ImageHashValue)
        requires
            grid.wf(),
            grid.pixels@.len() <= 0x1000_0000,
        ensures
            r.algorithm == HashAlgorithmKind::Average,
            r.bytes@ == spec_pack_bits(spec_ahash_bits(grid.pixels@, spec_mean(grid.pixels@))),
            r.bytes@.len() == (grid.pixels@.len() + 7) / 8,
            r.wf(),
    {
        let mean = mean_luma(&grid.pixels);
        let mut bits: Vec<bool> = Vec::new();
        let mut i: usize = 0;
        while i < grid.pixels.len()
            invariant
                i <= grid.pixels@.len(),
                mean as int == spec_mean(grid.pixels@),
                bits@.len() == i,
                forall|i0: int|
                    0 <= i0 < i ==> bits@[i0] == (grid.pixels@[i0] > spec_mean(grid.pixels@)),
            decreases grid.pixels@.len() - i,
        {
            bits.push(grid.pixels[i] > mean);
            i = i + 1;
        }
        proof {
            assert(bits@ =~= spec_ahash_bits(grid.pixels@, spec_mean(grid.pixels@)));
        }
        let bytes = pack_bits(&bits);
        proof {
            assert(bytes@.len() <= MAX_HASH_BYTES);
        }
        ImageHashValue::new(bytes, HashAlgorithmKind::Average)
    }

    /// Hash an image: resize it to the square grid, then apply the
    /// kernel. It succeeds exactly when the image has positive
    /// dimensions, and the hash is a function of the pixels and the
    /// grid side alone.
    pub fn hash_image(&self, image: &LumaGrid) -> (r: Result<ImageHashValue, HashError>)
        requires
            image.wf(),
            1 <= self.hash_size <= 512,
        ensures
            r is Ok <==> (image.width > 0 && image.height > 0),
            match r {
                Ok(h) => {
                    &&& h.algorithm == HashAlgorithmKind::Average
                    &&& h.wf()
                    &&& h.bytes@.len() <= 0xFFFF
                    &&& {
                        let px = resized_luma(
                            image.pixels@,
                            image.width as int,
                            image.height as int,
                            self.hash_size as int,
                            self.hash_size as int,
                        );
                        h.bytes@ == spec_pack_bits(spec_ahash_bits(px, spec_mean(px)))
                    }
                },
                Err(e) => e is DecodeError,
            },
    {
        let resized = resize_to_grayscale(image, self.hash_size, self.hash_size)?;
        proof {
            assert(resized.pixels@.len() <= 0x4_0000) by (nonlinear_arith)
                requires
                    resized.pixels@.len() == self.hash_size as int * self.hash_size as int,
                    self.hash_size <= 512,
            ;
        }
        let h = AverageHasher::hash_grid(&resized);
        proof {
            assert(h.bytes@.len() == (resized.pixels@.len() + 7) / 8);
            assert(h.bytes@.len() <= 0xFFFF);
        }
        Ok(h)
    }
}

/// Difference hash: brighter than the right neighbour.
#[derive(Debug, Clone)]
pub struct DifferenceHasher {
    /// Side length of the square comparison grid.
    pub hash_size: u32,
}

impl DifferenceHasher {
    /// Create a dHash hasher with the given grid side.
    pub fn new(hash_size: u32) -> (r: DifferenceHasher)
        ensures
            r.hash_size == hash_size,
    {
        DifferenceHasher { hash_size }
    }

    /// The dHash of an already-resized `(s+1) x s` grid: the bit for
    /// cell `(x, y)` is set exactly when the pixel is brighter than
    /// its right neighbour, packed MSB-first.
    pub fn hash_grid(grid: &LumaGrid, s: u32) -> (r: ImageHashValue)
        requires
            grid.wf(),
            1 <= s <= 512,
            grid.width == s + 1,
            grid.height == s,
        ensures
            r.algorithm == HashAlgorithmKind::Difference,
            r.bytes@ == spec_pack_bits(spec_dhash_bits(grid.pixels@, s as int)),
            r.bytes@.len() == (s as int * s as int + 7) / 8,
            r.wf(),
    {
        let mut bits: Vec<bool> = Vec::new();
        let mut y: u32 = 0;
        proof {
            assert(s as int * s as int <= 0x1000_0000) by (nonlinear_arith)
                requires
                    1 <= s <= 512,
            ;
        }
        while y < s
            invariant
                grid.wf(),
                1 <= s <= 512,
                grid.width == s + 1,
                grid.height == s,
                y <= s,
                bits@.len() == y as int * s as int,
                forall|b: int|
                    0 <= b < y as int * s as int ==> bits@[b] == spec_dhash_bits(
                        grid.pixels@,
                        s as int,
                    )[b],
            decreases s - y,
        {
            let mut x: u32 = 0;
            while x < s
                invariant
                    grid.wf(),
                    1 <= s <= 512,
                    grid.width == s + 1,
                    grid.height == s,
                    y < s,
                    x <= s,
                    bits@.len() == y as int * s as int + x as int,
                    forall|b: int|
                        0 <= b < y as int * s as int + x as int ==> bits@[b] == spec_dhash_bits(
                            grid.pixels@,
                            s as int,
                        )[b],
                decreases s - x,
            {
                let left = grid.get(x, y);
                let right = grid.get(x + 1, y);
                let ghost b = y as int * s as int + x as int;
                proof {
                    assert(b / s as int == y as int && b % s as int == x as int)
                        by (nonlinear_arith)
                        requires
                            b == y as int * s as int + x as int,
                            0 <= x < s,
                            0 <= y < s,
                    ;
                    assert(0 <= b < s as int * s as int) by (nonlinear_arith)
                        requires
                            b == y as int * s as int + x as int,
                            0 <= x < s,
                            0 <= y < s,
                    ;
                }
                bits.push(left > right);
                proof {
                    assert(bits@[b] == spec_dhash_bits(grid.pixels@, s as int)[b]);
                }
                x = x + 1;
            }
            y = y + 1;
            proof {
                assert(y as int * s as int == (y - 1) as int * s as int + s as int)
                    by (nonlinear_arith)
                    requires
                        y >= 1,
                ;
            }
        }
        proof {
            assert(bits@ =~= spec_dhash_bits(grid.pixels@, s as int));
            assert(bits@.len() <= 0x1000_0000);
        }
        let bytes = pack_bits(&bits);
        proof {
            assert(bytes@.len() <= MAX_HASH_BYTES);
        }
        ImageHashValue::new(bytes, HashAlgorithmKind::Difference)
    }

    /// Hash an image: resize it to the `(s+1) x s` grid, then apply
    /// the kernel. It succeeds exactly when the image has positive
    /// dimensions, and the hash is a function of the pixels and the
    /// grid side alone.
    pub fn hash_image(&self, image: &LumaGrid) -> (r: Result<ImageHashValue, HashError>)
        requires
            image.wf(),
            1 <= self.hash_size <= 512,
        ensures
            r is Ok <==> (image.width > 0 && image.height > 0),
            match r {
                Ok(h) => {
                    &&& h.algorithm == HashAlgorithmKind::Difference
                    &&& h.wf()
                    &&& h.bytes@.len() <= 0xFFFF
                    &&& {
                        let px = resized_luma(
                            image.pixels@,
                            image.width as int,
                            image.height as int,
                            self.hash_size as int + 1,
                            self.hash_size as int,
                        );
                        h.bytes@ == spec_pack_bits(spec_dhash_bits(px, self.hash_size as int))
                    }
                },
                Err(e) => e is DecodeError,
            },
    {
        let resized = resize_to_grayscale(image, self.hash_size + 1, self.hash_size)?;
        let h = DifferenceHasher::hash_grid(&resized, self.hash_size);
        proof {
            assert(self.hash_size as int * self.hash_size as int <= 0x4_0000) by (nonlinear_arith)
                requires
                    self.hash_size <= 512,
            ;
            assert(spec_dhash_bits(resized.pixels@, self.hash_size as int).len()
                == self.hash_size as int * self.hash_size as int);
            assert(h.bytes@.len() <= 0xFFFF);
        }
        Ok(h)
    }
}

/// Hashes of equal pixel buffers are equal, bit for bit: the kernels
/// are functions of the decoded, resized pixels alone.
pub proof fn lemma_hash_determinism(p1: Seq<u8>, p2: Seq<u8>, s: int)
    requires
        p1 == p2,
    ensures
        spec_pack_bits(spec_ahash_bits(p1, spec_mean(p1))) == spec_pack_bits(
            spec_ahash_bits(p2, spec_mean(p2)),
        ),
        spec_pack_bits(spec_dhash_bits(p1, s)) == spec_pack_bits(spec_dhash_bits(p2, s)),
{
}

/// What the DCT-based hash yields on a luma grid at a given hash
/// size. The result depends on the pixels, the dimensions and the
/// size alone.
pub uninterp spec fn phash_of(pixels: Seq<u8>, w: int, h: int, size: int) -> Seq<u8>;

/// Perceptual hash: DCT-based double-gradient, most robust to edits.
#[derive(Debug, Clone)]
pub struct PerceptualHasher {
    /// Side length of the hash grid.
    pub hash_size: u32,
}

/// Relies on image_hasher's Hasher::hash_image with the
/// double-gradient algorithm at the configured hash size, over a
/// grayscale image rebuilt from the grid: a pure function of the
/// pixels, the dimensions and the size. Building the image cannot
/// fail with one byte per pixel, and the bounded size keeps the
/// crate's internal `u32` bit-count arithmetic in range.
#[verifier::external_body]
fn phash_bytes(pixels: &Vec<u8>, w: u32, h: u32, size: u32) -> (r: Vec<u8>)
    requires
        pixels@.len() == w as int * h as int,
        w > 0,
        h > 0,
        1 <= size <= 512,
    ensures
        r@ == phash_of(pixels@, w as int, h as int, size as int),
{
    let img = image::GrayImage::from_raw(w, h, pixels.clone()).expect("one byte per pixel");
    let hasher = image_hasher::HasherConfig::new().hash_size(size, size).hash_alg(
        image_hasher::HashAlg::DoubleGradient,
    ).to_hasher();
    hasher.hash_image(&img).as_bytes().to_vec()
}

impl PerceptualHasher {
    /// Create a pHash hasher with the given grid side.
    pub fn new(hash_size: u32) -> (r: PerceptualHasher)
        ensures
            r.hash_size == hash_size,
    {
        PerceptualHasher { hash_size }
    }

    /// Whether the DCT-based hash of this image fits the fixed cache
    /// layout; everything else about the hash is a function of the
    /// pixels and the size.
    pub open spec fn spec_phash_fits(&self, image: LumaGrid) -> bool {
        phash_of(
            image.pixels@,
            image.width as int,
            image.height as int,
            self.hash_size as int,
        ).len() <= 0xFFFF
    }

    /// Hash an image with the DCT-based kernel. It succeeds exactly
    /// when the image has positive dimensions and the hash fits the
    /// fixed cache layout; the hash bytes are a function of the
    /// pixels and the size alone.
    pub fn hash_image(&self, image: &LumaGrid) -> (r: Result<ImageHashValue, HashError>)
        requires
            image.wf(),
            1 <= self.hash_size <= 512,
        ensures
            r is Ok <==> (image.width > 0 && image.height > 0 && self.spec_phash_fits(*image)),
            match r {
                Ok(h) => {
                    &&& h.algorithm == HashAlgorithmKind::Perceptual
                    &&& h.wf()
                    &&& h.bytes@ == phash_of(
                        image.pixels@,
                        image.width as int,
                        image.height as int,
                        self.hash_size as int,
                    )
                    &&& h.bytes@.len() <= 0xFFFF
                },
                Err(e) => e is DecodeError || e is ComputationFailed,
            },
    {
        if image.width == 0 || image.height == 0 {
            return Err(
                HashError::DecodeError {
                    path: String::new(),
                    reason: String::from_str("Invalid source dimensions"),
                },
            );
        }
        let px = phash_bytes(&image.pixels, image.width, image.height, self.hash_size);
        if px.len() <= 0xFFFF {
            Ok(ImageHashValue::new(px, HashAlgorithmKind::Perceptual))
        } else {
            Err(
                HashError::ComputationFailed {
                    reason: String::from_str("hash too large for the cache layout"),
                },
            )
        }
    }
}

} // verus!
