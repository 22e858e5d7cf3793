//! Large-file detection: the record the host's walk produces for
//! each file, and the verified selection of the largest media files.

use vstd::prelude::*;
use vstd::multiset::Multiset;

use crate::scanner::{extension_part, file_name_part, spec_file_name, spec_last_dot};
use crate::text::{spec_lower, str_eq, to_lowercase};

verus! {

/// Information about one large file.
#[derive(Debug, Clone)]
pub struct LargeFileInfo {
    /// Full path of the file.
    pub path: String,
    /// Just the file name.
    pub filename: String,
    /// File size in bytes.
    pub size_bytes: u64,
    /// Lower-case file type, from the extension.
    pub file_type: String,
    /// Last modification time, seconds since the epoch.
    pub modified: u64,
}

/// Result of a large-file scan.
#[derive(Debug, Clone)]
pub struct LargeFileScanResult {
    /// The large files, largest first.
    pub files: Vec<LargeFileInfo>,
    /// Total size of every file over the threshold, saturating.
    pub total_size_bytes: u64,
    /// How many files the walk examined.
    pub files_scanned: u64,
    /// Scan duration in milliseconds.
    pub scan_duration_ms: u128,
}

/// Scanner for the largest media files under a size threshold.
#[derive(Debug, Clone)]
pub struct LargeFileScanner {
    /// Minimum file size in bytes.
    pub min_size_bytes: u64,
    /// Maximum number of results returned.
    pub max_results: usize,
}

impl Default for LargeFileScanner {
    /// The default scanner: ten megabytes and at most fifty results.
    fn default() -> (r: LargeFileScanner)
        ensures
            r.min_size_bytes == 10 * 1024 * 1024,
            r.max_results == 50,
    {
        LargeFileScanner { min_size_bytes: 10 * 1024 * 1024, max_results: 50 }
    }
}

/// The media extensions the large-file scan accepts, lower case.
pub open spec fn spec_is_large_media_ext(e: Seq<char>) -> bool {
    e == "jpg"@ || e == "jpeg"@ || e == "png"@ || e == "gif"@ || e == "webp"@ || e == "bmp"@ || e
        == "tiff"@ || e == "tif"@ || e == "mp4"@ || e == "mov"@ || e == "avi"@ || e == "mkv"@ || e
        == "flv"@ || e == "wmv"@ || e == "webm"@ || e == "m4v"@ || e == "heic"@ || e == "heif"@
        || e == "raw"@ || e == "cr2"@ || e == "nef"@ || e == "dng"@ || e == "arw"@ || e == "raf"@
}

/// Whether a path names a media file, by its extension.
pub open spec fn spec_is_media_path(p: Seq<char>) -> bool {
    let name = spec_file_name(p);
    let k = spec_last_dot(name);
    k >= 1 && spec_is_large_media_ext(spec_lower(name.skip(k + 1)))
}

/// Whether a path names a media file, by its extension.
pub fn is_media_file(path: &str) -> (r: bool)
    ensures
        r == spec_is_media_path(path@),
{
    let name = file_name_part(path);
    match extension_part(name.as_str()) {
        Some(ext) => {
            let e = to_lowercase(ext.as_str());
            proof {
                reveal_strlit("jpg");
                reveal_strlit("jpeg");
                reveal_strlit("png");
                reveal_strlit("gif");
                reveal_strlit("webp");
                reveal_strlit("bmp");
                reveal_strlit("tiff");
                reveal_strlit("tif");
                reveal_strlit("mp4");
                reveal_strlit("mov");
                reveal_strlit("avi");
                reveal_strlit("mkv");
                reveal_strlit("flv");
                reveal_strlit("wmv");
                reveal_strlit("webm");
                reveal_strlit("m4v");
                reveal_strlit("heic");
                reveal_strlit("heif");
                reveal_strlit("raw");
                reveal_strlit("cr2");
                reveal_strlit("nef");
                reveal_strlit("dng");
                reveal_strlit("arw");
                reveal_strlit("raf");
            }
            let s = e.as_str();
            str_eq(s, "jpg") || str_eq(s, "jpeg") || str_eq(s, "png") || str_eq(s, "gif")
                || str_eq(s, "webp") || str_eq(s, "bmp") || str_eq(s, "tiff") || str_eq(s, "tif")
                || str_eq(s, "mp4") || str_eq(s, "mov") || str_eq(s, "avi") || str_eq(s, "mkv")
                || str_eq(s, "flv") || str_eq(s, "wmv") || str_eq(s, "webm") || str_eq(s, "m4v")
                || str_eq(s, "heic") || str_eq(s, "heif") || str_eq(s, "raw") || str_eq(s, "cr2")
                || str_eq(s, "nef") || str_eq(s, "dng") || str_eq(s, "arw") || str_eq(s, "raf")
        },
        None => false,
    }
}

/// The lower-case extension of a path, or `unknown` without one.
pub fn get_file_type(path: &str) -> (r: String)
    ensures
        ({
            let name = spec_file_name(path@);
            let k = spec_last_dot(name);
            if k >= 1 {
                r@ == spec_lower(name.skip(k + 1))
            } else {
                r@ == "unknown"@
            }
        }),
{
    let name = file_name_part(path);
    match extension_part(name.as_str()) {
        Some(ext) => to_lowercase(ext.as_str()),
        None => String::from_str("unknown"),
    }
}

impl LargeFileScanner {
    /// Create a scanner with the given threshold in megabytes and
    /// result cap.
    pub fn new(min_size_mb: u64, max_results: usize) -> (r: LargeFileScanner)
        requires
            min_size_mb <= 0xFFFF_FFFF,
        ensures
            r.min_size_bytes == min_size_mb * 1024 * 1024,
            r.max_results == max_results,
    {
        LargeFileScanner { min_size_bytes: min_size_mb * 1024 * 1024, max_results }
    }
}

/// The candidates at or over the threshold whose path names a media
/// file, in their original order.
pub open spec fn spec_filter_large(
    candidates: Seq<LargeFileInfo>,
    min_size: u64,
) -> Seq<LargeFileInfo>
    decreases candidates.len(),
{
    if candidates.len() == 0 {
        candidates
    } else {
        let rest = spec_filter_large(candidates.drop_last(), min_size);
        if candidates.last().size_bytes >= min_size && spec_is_media_path(
            candidates.last().path@,
        ) {
            rest.push(candidates.last())
        } else {
            rest
        }
    }
}

/// Total size of a file list, saturating.
pub open spec fn spec_size_total(files: Seq<LargeFileInfo>) -> int
    decreases files.len(),
{
    if files.len() == 0 {
        0
    } else {
        spec_size_total(files.drop_last()) + files.last().size_bytes
    }
}

/// Saturation at the largest `u64`.
pub open spec fn spec_sat(x: int) -> int {
    if x <= 0xFFFF_FFFF_FFFF_FFFF {
        x
    } else {
        0xFFFF_FFFF_FFFF_FFFF
    }
}

/// Whether `files` is a size-ordered prefix of some ordering of
/// `kept`.
pub open spec fn spec_sorted_prefix_of(files: Seq<LargeFileInfo>, kept: Seq<LargeFileInfo>) -> bool {
    exists|sorted: Seq<LargeFileInfo>|
        sorted.to_multiset() == kept.to_multiset() && #[trigger] sorted.take(files.len() as int)
            == files
}

/// Sort files by size, largest first; a permutation of the input.
#[verifier::rlimit(100)]
fn sort_by_size_desc(v: Vec<LargeFileInfo>) -> (r: Vec<LargeFileInfo>)
    ensures
        r@.len() == v@.len(),
        r@.to_multiset() == v@.to_multiset(),
        forall|i: int, j: int|
            0 <= i < j < r@.len() ==> (#[trigger] r@[i]).size_bytes >= (
            #[trigger] r@[j]).size_bytes,
{
    broadcast use vstd::seq_lib::group_to_multiset_ensures;

    let mut src = v;
    let mut r: Vec<LargeFileInfo> = Vec::new();
    proof {
        assert(r@.to_multiset().add(src@.to_multiset()) =~= v@.to_multiset());
    }
    while src.len() > 0
        invariant
            r@.len() + src@.len() == v@.len(),
            r@.to_multiset().add(src@.to_multiset()) =~= v@.to_multiset(),
            forall|i: int, j: int|
                0 <= i < j < r@.len() ==> (#[trigger] r@[i]).size_bytes >= (
                #[trigger] r@[j]).size_bytes,
            forall|i: int, j: int|
                0 <= i < src@.len() && 0 <= j < r@.len() ==> (#[trigger] r@[j]).size_bytes >= (
                #[trigger] src@[i]).size_bytes,
        decreases src@.len(),
    {
        let mut m: usize = 0;
        let mut i: usize = 1;
        while i < src.len()
            invariant
                m < src@.len(),
                i <= src@.len(),
                forall|k: int|
                    0 <= k < i ==> (#[trigger] src@[k]).size_bytes <= src@[m as int].size_bytes,
            decreases src@.len() - i,
        {
            if src[i].size_bytes > src[m].size_bytes {
                m = i;
            }
            i = i + 1;
        }
        let ghost src_pre = src@;
        let ghost r_pre = r@;
        let s = src.remove(m);
        proof {
            src_pre.to_multiset_ensures();
            r_pre.to_multiset_ensures();
            assert(src_pre[m as int] == s);
            assert(src_pre.contains(s));
            assert(src_pre.to_multiset().count(s) > 0);
        }
        r.push(s);
        proof {
            assert(r@.to_multiset() =~= r_pre.to_multiset().insert(s));
            assert(src@.to_multiset() =~= src_pre.to_multiset().remove(s));
            assert(r@.to_multiset().add(src@.to_multiset()) =~= r_pre.to_multiset().add(
                src_pre.to_multiset(),
            ));
            assert forall|i2: int, j2: int| 0 <= i2 < j2 < r@.len() implies (
            #[trigger] r@[i2]).size_bytes >= (#[trigger] r@[j2]).size_bytes by {
                if j2 == r@.len() - 1 {
                    assert(r@[i2] == r_pre[i2]);
                    assert(r@[j2] == s);
                }
            }
            assert forall|i2: int, j2: int|
                0 <= i2 < src@.len() && 0 <= j2 < r@.len() implies (#[trigger] r@[j2]).size_bytes
                >= (#[trigger] src@[i2]).size_bytes by {
                assert(src@ == src_pre.remove(m as int));
                if i2 < m {
                    assert(src@[i2] == src_pre[i2]);
                } else {
                    assert(src@[i2] == src_pre[i2 + 1]);
                }
                if j2 < r@.len() - 1 {
                    assert(r@[j2] == r_pre[j2]);
                } else {
                    assert(r@[j2] == src_pre[m as int]);
                }
            }
        }
    }
    proof {
        src@.to_multiset_ensures();
        assert(src@.to_multiset() =~= Multiset::<LargeFileInfo>::empty());
        assert(r@.to_multiset() =~= v@.to_multiset());
    }
    r
}

impl LargeFileScanner {
    /// Select the scan result from the walked candidates: keep the
    /// media files at or over the threshold, total their sizes
    /// (saturating), and return the largest first, capped at the
    /// result limit.
    #[verifier::rlimit(100)]
    pub fn select_top(
        &self,
        candidates: Vec<LargeFileInfo>,
        files_scanned: u64,
        scan_duration_ms: u128,
    ) -> (r: LargeFileScanResult)
        ensures
            ({
                let kept = spec_filter_large(candidates@, self.min_size_bytes);
                &&& r.total_size_bytes as int == spec_sat(spec_size_total(kept))
                &&& r.files_scanned == files_scanned
                &&& r.scan_duration_ms == scan_duration_ms
                &&& r.files@.len() == if kept.len() <= self.max_results as int {
                    kept.len() as int
                } else {
                    self.max_results as int
                }
                &&& forall|i: int, j: int|
                    0 <= i < j < r.files@.len() ==> (#[trigger] r.files@[i]).size_bytes >= (
                    #[trigger] r.files@[j]).size_bytes
                &&& spec_sorted_prefix_of(r.files@, kept)
            }),
    {
        let ghost cands0 = candidates@;
        let mut kept: Vec<LargeFileInfo> = Vec::new();
        let mut total: u64 = 0;
        let mut src = candidates;
        let mut k: usize = 0;
        proof {
            assert(cands0.take(0) =~= Seq::<LargeFileInfo>::empty());
        }
        while k < src.len()
            invariant
                src@ == cands0,
                k <= cands0.len(),
                kept@ == spec_filter_large(cands0.take(k as int), self.min_size_bytes),
                total as int == spec_sat(
                    spec_size_total(spec_filter_large(cands0.take(k as int), self.min_size_bytes)),
                ),
            decreases cands0.len() - k,
        {
            proof {
                assert(cands0.take(k + 1).drop_last() =~= cands0.take(k as int));
                assert(cands0.take(k + 1).last() == cands0[k as int]);
            }
            let c = &src[k];
            if c.size_bytes >= self.min_size_bytes && is_media_file(c.path.as_str()) {
                let item = LargeFileInfo {
                    path: c.path.clone(),
                    filename: c.filename.clone(),
                    size_bytes: c.size_bytes,
                    file_type: c.file_type.clone(),
                    modified: c.modified,
                };
                proof {
                    assert(item == cands0[k as int]);
                }
                total = if total <= u64::MAX - c.size_bytes {
                    total + c.size_bytes
                } else {
                    u64::MAX
                };
                kept.push(item);
                proof {
                    assert(kept@ =~= spec_filter_large(
                        cands0.take(k + 1),
                        self.min_size_bytes,
                    ));
                    assert(spec_filter_large(cands0.take(k + 1), self.min_size_bytes).drop_last()
                        =~= spec_filter_large(cands0.take(k as int), self.min_size_bytes));
                }
            } else {
                proof {
                    assert(spec_filter_large(cands0.take(k + 1), self.min_size_bytes)
                        =~= spec_filter_large(cands0.take(k as int), self.min_size_bytes));
                }
            }
            k = k + 1;
        }
        proof {
            assert(cands0.take(cands0.len() as int) =~= cands0);
        }
        let sorted = sort_by_size_desc(kept);
        let ghost sorted0 = sorted@;
        let mut files = sorted;
        if files.len() > self.max_results {
            files.truncate(self.max_results);
            proof {
                assert(files@ =~= sorted0.take(self.max_results as int));
            }
        } else {
            proof {
                assert(files@ =~= sorted0.take(files@.len() as int));
            }
        }
        proof {
            let kepts = spec_filter_large(cands0, self.min_size_bytes);
            assert(sorted0.to_multiset() == kepts.to_multiset());
            assert(sorted0.take(files@.len() as int) == files@);
            assert(sorted0.len() == kepts.len());
            assert(files@.len() == if kepts.len() <= self.max_results as int {
                kepts.len() as int
            } else {
                self.max_results as int
            });
            assert forall|i: int, j: int| 0 <= i < j < files@.len() implies (
            #[trigger] files@[i]).size_bytes >= (#[trigger] files@[j]).size_bytes by {
                assert(files@[i] == sorted0[i]);
                assert(files@[j] == sorted0[j]);
            }
            assert(spec_sorted_prefix_of(files@, kepts));
        }
        LargeFileScanResult {
            files,
            total_size_bytes: total,
            files_scanned,
            scan_duration_ms,
        }
    }
}

} // verus!
