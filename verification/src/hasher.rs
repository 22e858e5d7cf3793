//! Hasher configuration and dispatch over the four algorithms.

use vstd::prelude::*;

use crate::algorithms::{
    phash_of, spec_ahash_bits, spec_dhash_bits, spec_mean, spec_pack_bits, AverageHasher,
    DifferenceHasher, PerceptualHasher,
};
use crate::fusion::spec_fusion_bytes;
use crate::resize::resized_luma;
use crate::error::HashError;
use crate::fusion::FusionHash;
use crate::grid::LumaGrid;
use crate::hashval::{HashAlgorithmKind, ImageHashValue};

verus! {

/// Configuration builder for hashers.
#[derive(Debug, Clone)]
pub struct HasherConfig {
    /// Side length of the hash grid.
    pub hash_size: u32,
    /// Algorithm to use.
    pub algorithm: HashAlgorithmKind,
}

impl HasherConfig {
    /// The default configuration: dHash on an eight-by-eight grid.
    pub fn new() -> (r: HasherConfig)
        ensures
            r.hash_size == 8,
            r.algorithm == HashAlgorithmKind::Difference,
    {
        HasherConfig { hash_size: 8, algorithm: HashAlgorithmKind::Difference }
    }

    /// Set the hash grid side; larger is more accurate and slower.
    pub fn hash_size(self, size: u32) -> (r: HasherConfig)
        ensures
            r.hash_size == size,
            r.algorithm == self.algorithm,
    {
        HasherConfig { hash_size: size, algorithm: self.algorithm }
    }

    /// Set the hash algorithm.
    pub fn algorithm(self, algorithm: HashAlgorithmKind) -> (r: HasherConfig)
        ensures
            r.hash_size == self.hash_size,
            r.algorithm == algorithm,
    {
        HasherConfig { hash_size: self.hash_size, algorithm }
    }

    /// Build the hasher; a grid side of zero or above 512 cannot be
    /// packed into the fixed cache layout and is a computation error.
    pub fn build(self) -> (r: Result<Hasher, HashError>)
        ensures
            match r {
                Ok(h) => 1 <= self.hash_size <= 512 && h.kind_spec() == self.algorithm
                    && h.size_spec() == self.hash_size,
                Err(_) => self.hash_size == 0 || self.hash_size > 512,
            },
    {
        if self.hash_size == 0 || self.hash_size > 512 {
            return Err(
                HashError::ComputationFailed {
                    reason: String::from_str("hash size out of range"),
                },
            );
        }
        match self.algorithm {
            HashAlgorithmKind::Average => Ok(Hasher::Average(AverageHasher::new(self.hash_size))),
            HashAlgorithmKind::Difference => Ok(
                Hasher::Difference(DifferenceHasher::new(self.hash_size)),
            ),
            HashAlgorithmKind::Perceptual => Ok(
                Hasher::Perceptual(PerceptualHasher::new(self.hash_size)),
            ),
            HashAlgorithmKind::Fusion => Ok(Hasher::Fusion(FusionHasher::with_size(self.hash_size))),
        }
    }
}

/// A built hasher: one of the four algorithms.
#[derive(Debug, Clone)]
pub enum Hasher {
    /// Average hash.
    Average(AverageHasher),
    /// Difference hash.
    Difference(DifferenceHasher),
    /// Perceptual hash.
    Perceptual(PerceptualHasher),
    /// All three combined.
    Fusion(FusionHasher),
}

impl Hasher {
    /// The algorithm this hasher computes.
    pub open spec fn kind_spec(&self) -> HashAlgorithmKind {
        match self {
            Hasher::Average(_) => HashAlgorithmKind::Average,
            Hasher::Difference(_) => HashAlgorithmKind::Difference,
            Hasher::Perceptual(_) => HashAlgorithmKind::Perceptual,
            Hasher::Fusion(_) => HashAlgorithmKind::Fusion,
        }
    }

    /// The configured hash grid side.
    pub open spec fn size_spec(&self) -> u32 {
        match self {
            Hasher::Average(h) => h.hash_size,
            Hasher::Difference(h) => h.hash_size,
            Hasher::Perceptual(h) => h.hash_size,
            Hasher::Fusion(h) => h.hash_size,
        }
    }

    /// The algorithm this hasher computes.
    pub fn kind(&self) -> (r: HashAlgorithmKind)
        ensures
            r == self.kind_spec(),
    {
        match self {
            Hasher::Average(_) => HashAlgorithmKind::Average,
            Hasher::Difference(_) => HashAlgorithmKind::Difference,
            Hasher::Perceptual(_) => HashAlgorithmKind::Perceptual,
            Hasher::Fusion(_) => HashAlgorithmKind::Fusion,
        }
    }

    /// The hash byte string this hasher computes for an image: the
    /// kernel output of the configured algorithm, or the fixed fusion
    /// layout of all three. A function of the pixels and the
    /// configuration alone.
    pub open spec fn spec_hash_bytes(&self, pixels: Seq<u8>, w: int, h: int) -> Seq<u8> {
        let f = FusionHasher { hash_size: self.size_spec() };
        match self {
            Hasher::Average(_) => f.spec_ahash_bytes(pixels, w, h),
            Hasher::Difference(_) => f.spec_dhash_bytes(pixels, w, h),
            Hasher::Perceptual(_) => f.spec_phash_bytes(pixels, w, h),
            Hasher::Fusion(_) => spec_fusion_bytes(
                f.spec_ahash_bytes(pixels, w, h),
                f.spec_dhash_bytes(pixels, w, h),
                f.spec_phash_bytes(pixels, w, h),
            ),
        }
    }

    /// Whether hashing the image succeeds: its dimensions must be
    /// positive, and the DCT-based variants additionally need their
    /// hash to fit the fixed cache layout.
    pub open spec fn spec_hash_ok(&self, pixels: Seq<u8>, w: int, h: int) -> bool {
        let f = FusionHasher { hash_size: self.size_spec() };
        w > 0 && h > 0 && match self {
            Hasher::Average(_) => true,
            Hasher::Difference(_) => true,
            Hasher::Perceptual(_) => f.spec_phash_bytes(pixels, w, h).len() <= 0xFFFF,
            Hasher::Fusion(_) => f.spec_phash_bytes(pixels, w, h).len() <= 0xFFFF,
        }
    }

    /// Hash a decoded image with the configured algorithm. It
    /// succeeds exactly when `spec_hash_ok` holds, and the hash bytes
    /// equal `spec_hash_bytes`: a function of the image's pixels and
    /// the configuration alone, under the configured algorithm tag.
    pub fn hash_image(&self, image: &LumaGrid) -> (r: Result<ImageHashValue, HashError>)
        requires
            image.wf(),
            1 <= self.size_spec() <= 512,
        ensures
            r is Ok <==> self.spec_hash_ok(image.pixels@, image.width as int, image.height as int),
            match r {
                Ok(h) => h.wf() && h.algorithm == self.kind_spec() && h.bytes@
                    == self.spec_hash_bytes(image.pixels@, image.width as int, image.height as int),
                Err(e) => e is DecodeError || e is ComputationFailed,
            },
    {
        match self {
            Hasher::Average(h) => h.hash_image(image),
            Hasher::Difference(h) => h.hash_image(image),
            Hasher::Perceptual(h) => h.hash_image(image),
            Hasher::Fusion(h) => {
                let fusion = h.hash_image(image)?;
                let bytes = fusion.to_bytes();
                proof {
                    assert(bytes@.len() <= 3 * 0xFFFF + 6);
                }
                Ok(ImageHashValue::new(bytes, HashAlgorithmKind::Fusion))
            },
        }
    }
}

/// Computes fusion hashes: all three algorithms from one decode.
#[derive(Debug, Clone)]
pub struct FusionHasher {
    /// Side length of the hash grids.
    pub hash_size: u32,
}

impl FusionHasher {
    /// Create a fusion hasher with the default grid side of eight.
    pub fn new() -> (r: FusionHasher)
        ensures
            r.hash_size == 8,
    {
        FusionHasher { hash_size: 8 }
    }

    /// Create a fusion hasher with a specific grid side.
    pub fn with_size(size: u32) -> (r: FusionHasher)
        ensures
            r.hash_size == size,
    {
        FusionHasher { hash_size: size }
    }

    /// The aHash byte string this hasher computes for an image's
    /// pixels: a function of the pixels, the dimensions and the grid
    /// side alone.
    pub open spec fn spec_ahash_bytes(&self, pixels: Seq<u8>, w: int, h: int) -> Seq<u8> {
        let px = resized_luma(pixels, w, h, self.hash_size as int, self.hash_size as int);
        spec_pack_bits(spec_ahash_bits(px, spec_mean(px)))
    }

    /// The dHash byte string this hasher computes.
    pub open spec fn spec_dhash_bytes(&self, pixels: Seq<u8>, w: int, h: int) -> Seq<u8> {
        let px = resized_luma(pixels, w, h, self.hash_size as int + 1, self.hash_size as int);
        spec_pack_bits(spec_dhash_bits(px, self.hash_size as int))
    }

    /// The pHash byte string this hasher computes.
    pub open spec fn spec_phash_bytes(&self, pixels: Seq<u8>, w: int, h: int) -> Seq<u8> {
        phash_of(pixels, w, h, self.hash_size as int)
    }

    /// Compute all three hashes of one decoded image. It succeeds
    /// exactly when the image has positive dimensions and the
    /// DCT-based hash fits the fixed cache layout; each sub-hash is
    /// pinned to its kernel, a function of the pixels and the grid
    /// side alone.
    pub fn hash_image(&self, image: &LumaGrid) -> (r: Result<FusionHash, HashError>)
        requires
            image.wf(),
            1 <= self.hash_size <= 512,
        ensures
            r is Ok <==> (image.width > 0 && image.height > 0 && self.spec_phash_bytes(
                image.pixels@,
                image.width as int,
                image.height as int,
            ).len() <= 0xFFFF),
            match r {
                Ok(f) => {
                    &&& f.wf()
                    &&& f.ahash.algorithm == HashAlgorithmKind::Average
                    &&& f.dhash.algorithm == HashAlgorithmKind::Difference
                    &&& f.phash.algorithm == HashAlgorithmKind::Perceptual
                    &&& f.ahash.bytes@ == self.spec_ahash_bytes(
                        image.pixels@,
                        image.width as int,
                        image.height as int,
                    )
                    &&& f.dhash.bytes@ == self.spec_dhash_bytes(
                        image.pixels@,
                        image.width as int,
                        image.height as int,
                    )
                    &&& f.phash.bytes@ == self.spec_phash_bytes(
                        image.pixels@,
                        image.width as int,
                        image.height as int,
                    )
                },
                Err(e) => e is DecodeError || e is ComputationFailed,
            },
    {
        let ahasher = AverageHasher::new(self.hash_size);
        let dhasher = DifferenceHasher::new(self.hash_size);
        let phasher = PerceptualHasher::new(self.hash_size);
        let ahash = ahasher.hash_image(image)?;
        let dhash = dhasher.hash_image(image)?;
        let phash = phasher.hash_image(image)?;
        Ok(FusionHash::new(ahash, dhash, phash))
    }
}

} // verus!
