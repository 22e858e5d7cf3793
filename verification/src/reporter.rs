//! Group reporting: the representative ("keep") choice with its
//! reason, and byte formatting for summaries.

use vstd::prelude::*;

use crate::text::{push_u64, spec_dec, spec_digit, spec_str_le, str_le, str_eq};
use crate::comparator::DuplicateGroup;
use crate::scanner::PhotoFile;

verus! {

/// Metadata about one photo of a group.
#[derive(Debug, Clone)]
pub struct PhotoInfo {
    /// Path of the photo.
    pub path: String,
    /// Pixel dimensions, when known.
    pub dimensions: Option<(u32, u32)>,
    /// File size in bytes.
    pub file_size: u64,
    /// Image format name.
    pub format: String,
    /// Creation time in seconds since the epoch, when known.
    pub created: Option<u64>,
    /// Modification time in seconds since the epoch.
    pub modified: u64,
}

/// Why a photo is recommended as the one to keep.
#[derive(Debug, Clone, Copy, PartialEq, Eq, Structural)]
pub enum KeepReason {
    /// Largest pixel count.
    HighestResolution,
    /// Largest file size, hence usually least compression.
    LargestFileSize,
    /// Original format.
    OriginalFormat,
    /// Oldest timestamp, likely the original.
    OldestTimestamp,
    /// Most complete metadata.
    BestMetadata,
    /// First in path order, the fallback.
    FirstAlphabetically,
}

impl KeepReason {
    /// Human-readable label of the reason.
    pub fn label(&self) -> (r: &'static str)
        ensures
            *self == KeepReason::HighestResolution ==> r@ == "Highest resolution"@,
            *self == KeepReason::LargestFileSize ==> r@ == "Largest file size (best quality)"@,
            *self == KeepReason::OriginalFormat ==> r@ == "Original format"@,
            *self == KeepReason::OldestTimestamp ==> r@ == "Oldest file (likely original)"@,
            *self == KeepReason::BestMetadata ==> r@ == "Most complete metadata"@,
            *self == KeepReason::FirstAlphabetically ==> r@ == "First alphabetically"@,
    {
        match self {
            KeepReason::HighestResolution => "Highest resolution",
            KeepReason::LargestFileSize => "Largest file size (best quality)",
            KeepReason::OriginalFormat => "Original format",
            KeepReason::OldestTimestamp => "Oldest file (likely original)",
            KeepReason::BestMetadata => "Most complete metadata",
            KeepReason::FirstAlphabetically => "First alphabetically",
        }
    }
}

/// Pixel count of a photo, when its dimensions are known.
pub open spec fn spec_resolution(p: PhotoInfo) -> Option<int> {
    match p.dimensions {
        Some((w, h)) => Some(w as int * h as int),
        None => None,
    }
}

/// The timestamp the age rule uses: creation time when known, else
/// modification time.
pub open spec fn spec_age(p: PhotoInfo) -> int {
    match p.created {
        Some(c) => c as int,
        None => p.modified as int,
    }
}

/// Whether photo `i` has the unique largest known resolution.
pub open spec fn spec_unique_max_res(photos: Seq<PhotoInfo>, i: int) -> bool {
    &&& 0 <= i < photos.len()
    &&& spec_resolution(photos[i]) is Some
    &&& forall|j: int|
        0 <= j < photos.len() && j != i ==> match spec_resolution(#[trigger] photos[j]) {
            Some(res) => res < spec_resolution(photos[i]).unwrap(),
            None => true,
        }
}

/// Whether photo `i` is more than ten percent larger than every
/// other photo.
pub open spec fn spec_size_rule(photos: Seq<PhotoInfo>, i: int) -> bool {
    &&& 0 <= i < photos.len()
    &&& forall|j: int|
        0 <= j < photos.len() && j != i ==> photos[i].file_size > (
        #[trigger] photos[j]).file_size as int * 110 / 100
}

/// Whether photo `i` is strictly older than every other photo.
pub open spec fn spec_unique_oldest(photos: Seq<PhotoInfo>, i: int) -> bool {
    &&& 0 <= i < photos.len()
    &&& forall|j: int|
        0 <= j < photos.len() && j != i ==> spec_age(photos[i]) < spec_age(#[trigger] photos[j])
}

/// Scaling by ten percent is monotone.
proof fn lemma_bar_monotone(a: int, b: int)
    requires
        0 <= a <= b,
    ensures
        a * 110 / 100 <= b * 110 / 100,
{
    assert(a * 110 <= b * 110) by (nonlinear_arith)
        requires
            0 <= a <= b,
    ;
    assert(a * 110 / 100 <= b * 110 / 100) by (nonlinear_arith)
        requires
            a * 110 <= b * 110,
    ;
}

/// Select the photo to keep from a group, by precedence, each rule
/// breaking the previous rule's ties: the unique largest known
/// resolution; else the photo more than ten percent larger than the
/// runner-up; else the unique oldest timestamp (creation time,
/// falling back to modification time); else the lexicographically
/// first path among the oldest.
#[verifier::rlimit(100)]
pub fn select_representative(photos: &Vec<PhotoInfo>) -> (r: (String, KeepReason))
    requires
        photos@.len() > 0,
    ensures
        exists|i: int| 0 <= i < photos@.len() && (#[trigger] photos@[i]).path@ == r.0@,
        (exists|i: int| #[trigger] spec_unique_max_res(photos@, i)) ==> r.1
            == KeepReason::HighestResolution && exists|i: int|
            #[trigger] spec_unique_max_res(photos@, i) && photos@[i].path@ == r.0@,
        !(exists|i: int| #[trigger] spec_unique_max_res(photos@, i)) && (exists|i: int|
            #[trigger] spec_size_rule(photos@, i)) ==> r.1 == KeepReason::LargestFileSize
            && exists|i: int| #[trigger] spec_size_rule(photos@, i) && photos@[i].path@ == r.0@,
        !(exists|i: int| #[trigger] spec_unique_max_res(photos@, i)) && !(exists|i: int|
            #[trigger] spec_size_rule(photos@, i)) && (exists|i: int|
            #[trigger] spec_unique_oldest(photos@, i)) ==> r.1 == KeepReason::OldestTimestamp
            && exists|i: int|
            #[trigger] spec_unique_oldest(photos@, i) && photos@[i].path@ == r.0@,
        !(exists|i: int| #[trigger] spec_unique_max_res(photos@, i)) && !(exists|i: int|
            #[trigger] spec_size_rule(photos@, i)) && !(exists|i: int|
            #[trigger] spec_unique_oldest(photos@, i)) ==> r.1 == KeepReason::FirstAlphabetically
            && exists|i: int|
            0 <= i < photos@.len() && (#[trigger] photos@[i]).path@ == r.0@ && (forall|j: int|
                0 <= j < photos@.len() ==> spec_age(photos@[i]) <= spec_age(
                    #[trigger] photos@[j],
                )) && forall|j: int|
                0 <= j < photos@.len() && spec_age(#[trigger] photos@[j]) == spec_age(photos@[i])
                    ==> spec_str_le(photos@[i].path@, photos@[j].path@),
{
    // Rule one: the unique largest known resolution.
    let mut best_res: u64 = 0;
    let mut best_at: usize = 0;
    let mut have_res = false;
    let mut unique = false;
    let mut i: usize = 0;
    while i < photos.len()
        invariant
            i <= photos@.len(),
            best_at < photos@.len() || !have_res,
            have_res ==> best_at < i && spec_resolution(photos@[best_at as int]) == Some(
                best_res as int,
            ),
            have_res ==> forall|j: int|
                0 <= j < i ==> match spec_resolution(#[trigger] photos@[j]) {
                    Some(res) => res <= best_res as int,
                    None => true,
                },
            !have_res ==> forall|j: int|
                0 <= j < i ==> spec_resolution(#[trigger] photos@[j]) is None,
            have_res ==> (unique <==> forall|j: int|
                0 <= j < i && j != best_at ==> match spec_resolution(#[trigger] photos@[j]) {
                    Some(res) => res < best_res as int,
                    None => true,
                }),
        decreases photos@.len() - i,
    {
        match photos[i].dimensions {
            Some((w, h)) => {
                proof {
                    assert(w as int * h as int <= 0xFFFF_FFFE_0000_0001) by (nonlinear_arith)
                        requires
                            w <= 0xFFFF_FFFFu32,
                            h <= 0xFFFF_FFFFu32,
                    ;
                }
                let res = (w as u64) * (h as u64);
                if !have_res || res > best_res {
                    best_res = res;
                    best_at = i;
                    have_res = true;
                    unique = true;
                } else if res == best_res {
                    unique = false;
                }
            },
            None => {},
        }
        i = i + 1;
    }
    if have_res && unique {
        proof {
            assert(spec_unique_max_res(photos@, best_at as int));
        }
        return (photos[best_at].path.clone(), KeepReason::HighestResolution);
    }
    proof {
        // No photo has the unique largest resolution.
        assert forall|i2: int| !(#[trigger] spec_unique_max_res(photos@, i2)) by {
            if spec_unique_max_res(photos@, i2) {
                assert(have_res);
                if i2 != best_at {
                    assert(spec_resolution(photos@[best_at as int]).unwrap() < spec_resolution(
                        photos@[i2],
                    ).unwrap());
                    assert(spec_resolution(photos@[i2]).unwrap() <= best_res as int);
                    assert(false);
                } else {
                    assert(!unique);
                    let j = choose|j: int|
                        0 <= j < photos@.len() && j != best_at && match spec_resolution(
                            #[trigger] photos@[j],
                        ) {
                            Some(res) => res >= best_res as int,
                            None => false,
                        };
                    assert(false);
                }
            }
        }
    }
    // Rule two: more than ten percent larger than the runner-up.
    let mut largest_at: usize = 0;
    let mut i: usize = 1;
    while i < photos.len()
        invariant
            photos@.len() > 0,
            1 <= i || i == 1,
            i <= photos@.len(),
            largest_at < i || largest_at == 0,
            largest_at < photos@.len(),
            forall|j: int|
                0 <= j < i ==> (#[trigger] photos@[j]).file_size
                    <= photos@[largest_at as int].file_size,
        decreases photos@.len() - i,
    {
        if photos[i].file_size > photos[largest_at].file_size {
            largest_at = i;
        }
        i = i + 1;
    }
    if photos.len() == 1 {
        proof {
            assert(spec_size_rule(photos@, 0));
        }
        return (photos[0].path.clone(), KeepReason::LargestFileSize);
    }
    let mut second: u64 = 0;
    let mut i: usize = 0;
    while i < photos.len()
        invariant
            photos@.len() >= 2,
            i <= photos@.len(),
            largest_at < photos@.len(),
            forall|j: int|
                0 <= j < i && j != largest_at ==> (#[trigger] photos@[j]).file_size <= second,
            second == 0 || exists|j: int|
                0 <= j < i && j != largest_at && (#[trigger] photos@[j]).file_size == second,
        decreases photos@.len() - i,
    {
        if i != largest_at && photos[i].file_size > second {
            second = photos[i].file_size;
        }
        i = i + 1;
    }
    let bar: u128 = (second as u128) * 110 / 100;
    if (photos[largest_at].file_size as u128) > bar {
        proof {
            assert forall|j: int|
                0 <= j < photos@.len() && j != largest_at implies photos@[
                largest_at as int
            ].file_size > (#[trigger] photos@[j]).file_size as int * 110 / 100 by {
                lemma_bar_monotone(photos@[j].file_size as int, second as int);
                assert(second as int * 110 / 100 == bar as int);
            }
            assert(spec_size_rule(photos@, largest_at as int));
        }
        return (photos[largest_at].path.clone(), KeepReason::LargestFileSize);
    }
    proof {
        // No photo clears the ten-percent bar over every other.
        assert forall|i2: int| !(#[trigger] spec_size_rule(photos@, i2)) by {
            if spec_size_rule(photos@, i2) {
                assert forall|j: int|
                    0 <= j < photos@.len() && j != i2 implies (#[trigger] photos@[j]).file_size
                    < photos@[i2].file_size by {
                    assert(photos@[i2].file_size > photos@[j].file_size as int * 110 / 100);
                    assert(photos@[j].file_size as int * 110 / 100
                        >= photos@[j].file_size as int) by (nonlinear_arith)
                        requires
                            photos@[j].file_size >= 0,
                    ;
                }
                assert(photos@[largest_at as int].file_size <= photos@[i2].file_size);
                assert(i2 == largest_at);
                if second == 0 {
                    let j0: int = if largest_at == 0 {
                        1
                    } else {
                        0
                    };
                    assert(photos@[j0].file_size <= second);
                    assert(photos@[i2].file_size > photos@[j0].file_size as int * 110 / 100);
                    assert(photos@[i2].file_size as u128 > bar);
                } else {
                    let j = choose|j: int|
                        0 <= j < photos@.len() && j != largest_at && (
                        #[trigger] photos@[j]).file_size == second;
                    assert(photos@[i2].file_size > second as int * 110 / 100);
                    assert(photos@[i2].file_size as u128 > bar);
                }
                assert(false);
            }
        }
    }
    // Rule three: the unique oldest timestamp.
    let mut oldest_at: usize = 0;
    let mut unique_old = true;
    let mut i: usize = 1;
    while i < photos.len()
        invariant
            photos@.len() > 0,
            1 <= i,
            i <= photos@.len(),
            oldest_at < i,
            forall|j: int|
                0 <= j < i ==> spec_age(photos@[oldest_at as int]) <= spec_age(
                    #[trigger] photos@[j],
                ),
            unique_old <==> forall|j: int|
                0 <= j < i && j != oldest_at ==> spec_age(photos@[oldest_at as int]) < spec_age(
                    #[trigger] photos@[j],
                ),
        decreases photos@.len() - i,
    {
        let age_i = match photos[i].created {
            Some(c) => c,
            None => photos[i].modified,
        };
        let age_best = match photos[oldest_at].created {
            Some(c) => c,
            None => photos[oldest_at].modified,
        };
        if age_i < age_best {
            oldest_at = i;
            unique_old = true;
        } else if age_i == age_best {
            unique_old = false;
        }
        i = i + 1;
    }
    if unique_old {
        proof {
            assert(spec_unique_oldest(photos@, oldest_at as int));
        }
        return (photos[oldest_at].path.clone(), KeepReason::OldestTimestamp);
    }
    proof {
        assert forall|i2: int| !(#[trigger] spec_unique_oldest(photos@, i2)) by {
            if spec_unique_oldest(photos@, i2) {
                if i2 != oldest_at {
                    assert(spec_age(photos@[i2]) < spec_age(photos@[oldest_at as int]));
                    assert(spec_age(photos@[oldest_at as int]) <= spec_age(photos@[i2]));
                    assert(false);
                } else {
                    let j = choose|j: int|
                        0 <= j < photos@.len() && j != oldest_at && spec_age(
                            photos@[oldest_at as int],
                        ) >= spec_age(#[trigger] photos@[j]);
                    assert(false);
                }
            }
        }
    }
    // Rule four: ties in age fall to the lexicographically first path.
    let mut cand = oldest_at;
    let mut i: usize = 0;
    while i < photos.len()
        invariant
            photos@.len() > 0,
            i <= photos@.len(),
            cand < photos@.len(),
            forall|j: int|
                0 <= j < photos@.len() ==> spec_age(photos@[cand as int]) <= spec_age(
                    #[trigger] photos@[j],
                ),
            forall|j: int|
                0 <= j < i && spec_age(#[trigger] photos@[j]) == spec_age(photos@[cand as int])
                    ==> spec_str_le(photos@[cand as int].path@, photos@[j].path@),
        decreases photos@.len() - i,
    {
        let age_i = match photos[i].created {
            Some(c) => c,
            None => photos[i].modified,
        };
        let age_cand = match photos[cand].created {
            Some(c) => c,
            None => photos[cand].modified,
        };
        if age_i == age_cand {
            let le_ic = str_le(photos[i].path.as_str(), photos[cand].path.as_str());
            let le_ci = str_le(photos[cand].path.as_str(), photos[i].path.as_str());
            if le_ic && !le_ci {
                let ghost old_cand = cand as int;
                cand = i;
                proof {
                    assert forall|j: int|
                        0 <= j < i + 1 && spec_age(#[trigger] photos@[j]) == spec_age(
                            photos@[cand as int],
                        ) implies spec_str_le(photos@[cand as int].path@, photos@[j].path@) by {
                        if j < i {
                            crate::grouper::lemma_str_le_trans(
                                photos@[cand as int].path@,
                                photos@[old_cand].path@,
                                photos@[j].path@,
                            );
                        } else {
                            crate::text::lemma_str_le_total(
                                photos@[cand as int].path@,
                                photos@[cand as int].path@,
                            );
                        }
                    }
                }
            } else {
                proof {
                    crate::text::lemma_str_le_total(
                        photos@[cand as int].path@,
                        photos@[i as int].path@,
                    );
                }
            }
        }
        i = i + 1;
    }
    (photos[cand].path.clone(), KeepReason::FirstAlphabetically)
}

/// Export format options.
#[derive(Debug, Clone, Copy, PartialEq, Eq, Structural)]
pub enum ExportFormat {
    Csv,
    Html,
}

/// One decimal digit after the point of a byte quantity over a unit:
/// `round(bytes * 10 / unit)` split into whole part and tenths.
pub open spec fn spec_unit_tenths(bytes: int, unit: int) -> int {
    (bytes * 10 + unit / 2) / unit
}

/// A byte count rendered human-readably: whole bytes below a
/// kilobyte, else one decimal of the matching power-of-1024 unit,
/// rounded half up.
pub open spec fn spec_format_bytes(bytes: int) -> Seq<char> {
    let kb = 1024int;
    let mb = 1024int * 1024;
    let gb = 1024int * 1024 * 1024;
    if bytes >= gb {
        let t = spec_unit_tenths(bytes, gb);
        spec_dec((t / 10) as nat) + seq!['.', spec_digit((t % 10) as nat)] + " GB"@
    } else if bytes >= mb {
        let t = spec_unit_tenths(bytes, mb);
        spec_dec((t / 10) as nat) + seq!['.', spec_digit((t % 10) as nat)] + " MB"@
    } else if bytes >= kb {
        let t = spec_unit_tenths(bytes, kb);
        spec_dec((t / 10) as nat) + seq!['.', spec_digit((t % 10) as nat)] + " KB"@
    } else {
        spec_dec(bytes as nat) + " B"@
    }
}

/// Push one decimal digit character.
fn push_tenth(s: &mut String, d: u64)
    requires
        d < 10,
    ensures
        final(s)@ == old(s)@.push(spec_digit(d as nat)),
{
    crate::text::push_u64(s, d);
    proof {
        assert(old(s)@ + spec_dec(d as nat) =~= old(s)@.push(spec_digit(d as nat)));
    }
}

/// Format a byte count human-readably.
pub fn format_bytes(bytes: u64) -> (r: String)
    requires
        bytes < 0x1000_0000_0000_0000,
    ensures
        r@ == spec_format_bytes(bytes as int),
{
    let kb: u64 = 1024;
    let mb: u64 = 1024 * 1024;
    let gb: u64 = 1024 * 1024 * 1024;
    let mut s = String::new();
    if bytes >= gb {
        let t = (bytes * 10 + gb / 2) / gb;
        push_u64(&mut s, t / 10);
        s.push('.');
        push_tenth(&mut s, t % 10);
        s.append(" GB");
        proof {
            assert(s@ =~= spec_format_bytes(bytes as int));
        }
        s
    } else if bytes >= mb {
        let t = (bytes * 10 + mb / 2) / mb;
        push_u64(&mut s, t / 10);
        s.push('.');
        push_tenth(&mut s, t % 10);
        s.append(" MB");
        proof {
            assert(s@ =~= spec_format_bytes(bytes as int));
        }
        s
    } else if bytes >= kb {
        let t = (bytes * 10 + kb / 2) / kb;
        push_u64(&mut s, t / 10);
        s.push('.');
        push_tenth(&mut s, t % 10);
        s.append(" KB");
        proof {
            assert(s@ =~= spec_format_bytes(bytes as int));
        }
        s
    } else {
        push_u64(&mut s, bytes);
        s.append(" B");
        proof {
            assert(s@ =~= spec_format_bytes(bytes as int));
        }
        s
    }
}

/// Size of the photo stored under a path in the run's photo table;
/// zero when the path is not there. Later rows win.
pub open spec fn spec_photo_size(photos: Seq<PhotoFile>, path: Seq<char>) -> int
    decreases photos.len(),
{
    if photos.len() == 0 {
        0
    } else if photos.last().path@ == path {
        photos.last().size as int
    } else {
        spec_photo_size(photos.drop_last(), path)
    }
}

/// Sum of the sizes of a group's members other than the
/// representative, looked up in the photo table.
pub open spec fn spec_group_savings(
    photos: Seq<PhotoFile>,
    members: Seq<String>,
    representative: Seq<char>,
) -> int
    decreases members.len(),
{
    if members.len() == 0 {
        0
    } else {
        spec_group_savings(photos, members.drop_last(), representative) + (if members.last()@
            != representative {
            spec_photo_size(photos, members.last()@)
        } else {
            0
        })
    }
}

/// Saturation at the largest `u64`.
pub open spec fn spec_sat_u64(x: int) -> int {
    if x <= 0xFFFF_FFFF_FFFF_FFFF {
        x
    } else {
        0xFFFF_FFFF_FFFF_FFFF
    }
}

/// Total savings over all groups.
pub open spec fn spec_total_savings(photos: Seq<PhotoFile>, groups: Seq<DuplicateGroup>) -> int
    decreases groups.len(),
{
    if groups.len() == 0 {
        0
    } else {
        spec_total_savings(photos, groups.drop_last()) + spec_sat_u64(
            spec_group_savings(photos, groups.last().photos@, groups.last().representative@),
        )
    }
}

/// Size of the photo stored under a path; zero when absent.
fn photo_size_of(photos: &Vec<PhotoFile>, path: &String) -> (r: u64)
    ensures
        r as int == spec_photo_size(photos@, path@),
{
    let mut i: usize = photos.len();
    proof {
        assert(photos@.take(photos@.len() as int) =~= photos@);
    }
    while i > 0
        invariant
            i <= photos@.len(),
            spec_photo_size(photos@, path@) == spec_photo_size(photos@.take(i as int), path@),
        decreases i,
    {
        proof {
            assert(photos@.take(i as int).drop_last() =~= photos@.take(i - 1 as int));
            assert(photos@.take(i as int).last() == photos@[i - 1 as int]);
        }
        i = i - 1;
        if str_eq(photos[i].path.as_str(), path.as_str()) {
            return photos[i].size;
        }
    }
    proof {
        assert(photos@.take(0) =~= Seq::<PhotoFile>::empty());
    }
    0
}

/// Fill each group's duplicate size: the sum of the sizes of its
/// members other than the representative, looked up in the run's
/// photo table, saturating; returns the groups and the run-level
/// total of those sums, saturating. No other group field changes.
#[verifier::rlimit(100)]
pub fn calculate_group_savings(groups: Vec<DuplicateGroup>, photos: &Vec<PhotoFile>) -> (r: (
    Vec<DuplicateGroup>,
    u64,
))
    ensures
        r.0@.len() == groups@.len(),
        forall|g: int|
            0 <= g < groups@.len() ==> {
                &&& (#[trigger] r.0@[g]).duplicate_size_bytes as int == spec_sat_u64(
                    spec_group_savings(
                        photos@,
                        groups@[g].photos@,
                        groups@[g].representative@,
                    ),
                )
                &&& r.0@[g].photos@ == groups@[g].photos@
                &&& r.0@[g].representative == groups@[g].representative
                &&& r.0@[g].id == groups@[g].id
                &&& r.0@[g].match_type == groups@[g].match_type
                &&& r.0@[g].distance_sum == groups@[g].distance_sum
                &&& r.0@[g].match_count == groups@[g].match_count
            },
        r.1 as int == spec_sat_u64(spec_total_savings(photos@, groups@)),
{
    let mut out: Vec<DuplicateGroup> = Vec::new();
    let mut total: u64 = 0;
    let mut src = groups;
    let ghost groups0 = src@;
    let mut g: usize = 0;
    proof {
        assert(groups0.take(0) =~= Seq::<DuplicateGroup>::empty());
    }
    while out.len() < src.len()
        invariant
            out@.len() <= src@.len(),
            src@ == groups0,
            total as int == spec_sat_u64(spec_total_savings(photos@, groups0.take(out@.len() as int))),
            forall|g2: int|
                0 <= g2 < out@.len() ==> {
                    &&& (#[trigger] out@[g2]).duplicate_size_bytes as int == spec_sat_u64(
                        spec_group_savings(
                            photos@,
                            groups0[g2].photos@,
                            groups0[g2].representative@,
                        ),
                    )
                    &&& out@[g2].photos@ == groups0[g2].photos@
                    &&& out@[g2].representative == groups0[g2].representative
                    &&& out@[g2].id == groups0[g2].id
                    &&& out@[g2].match_type == groups0[g2].match_type
                    &&& out@[g2].distance_sum == groups0[g2].distance_sum
                    &&& out@[g2].match_count == groups0[g2].match_count
                },
        decreases src@.len() - out@.len(),
    {
        let gi = out.len();
        let grp = &src[gi];
        let mut sum: u64 = 0;
        let mut u: usize = 0;
        proof {
            assert(grp.photos@.take(0) =~= Seq::<String>::empty());
        }
        while u < grp.photos.len()
            invariant
                u <= grp.photos@.len(),
                gi < src@.len(),
                src@ == groups0,
                grp == &src[gi as int],
                sum as int == spec_sat_u64(
                    spec_group_savings(photos@, grp.photos@.take(u as int), grp.representative@),
                ),
            decreases grp.photos@.len() - u,
        {
            proof {
                assert(grp.photos@.take(u + 1).drop_last() =~= grp.photos@.take(u as int));
                assert(grp.photos@.take(u + 1).last() == grp.photos@[u as int]);
            }
            if !str_eq(grp.photos[u].as_str(), grp.representative.as_str()) {
                let sz = photo_size_of(photos, &grp.photos[u]);
                sum = if sum <= u64::MAX - sz {
                    sum + sz
                } else {
                    u64::MAX
                };
            }
            u = u + 1;
        }
        proof {
            assert(grp.photos@.take(grp.photos@.len() as int) =~= grp.photos@);
            assert(groups0.take(gi + 1).drop_last() =~= groups0.take(gi as int));
            assert(groups0.take(gi + 1).last() == groups0[gi as int]);
        }
        let updated = DuplicateGroup {
            id: grp.id,
            photos: crate::scanner::clone_string_vec(&grp.photos),
            representative: grp.representative.clone(),
            match_type: grp.match_type,
            distance_sum: grp.distance_sum,
            match_count: grp.match_count,
            duplicate_size_bytes: sum,
        };
        proof {
            assert(updated.photos@ =~= groups0[gi as int].photos@);
        }
        total = if total <= u64::MAX - sum {
            total + sum
        } else {
            u64::MAX
        };
        out.push(updated);
    }
    proof {
        assert(groups0.take(groups0.len() as int) =~= groups0);
    }
    (out, total)
}

} // verus!
