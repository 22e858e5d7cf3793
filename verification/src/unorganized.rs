//! Unorganized-file detection: why a file counts as unorganized, and
//! the pure classification rules over paths. The host walks the
//! directories and classifies each media file here.

use vstd::prelude::*;

use crate::text::spec_lower;
use crate::scanner::{spec_file_name, spec_last_dot, file_name_part, extension_part};

verus! {

/// Why a file is considered unorganized.
#[derive(Debug, Clone, Copy, PartialEq, Eq, Structural)]
pub enum UnorganizedReason {
    /// The file sits in the root of a scanned folder.
    InRoot,
    /// The file sits in a shallow folder.
    ShallowFolder,
    /// The folder does not follow a date pattern.
    NoDatePattern,
    /// The file has a generic, meaningless name.
    GenericName,
}

impl UnorganizedReason {
    /// Human-readable description of the reason.
    pub fn description(&self) -> (r: &'static str)
        ensures
            *self == UnorganizedReason::InRoot ==> r@ == "In root folder"@,
            *self == UnorganizedReason::ShallowFolder ==> r@ == "In shallow folder"@,
            *self == UnorganizedReason::NoDatePattern ==> r@ == "Not in date folder"@,
            *self == UnorganizedReason::GenericName ==> r@ == "Generic filename"@,
    {
        match self {
            UnorganizedReason::InRoot => "In root folder",
            UnorganizedReason::ShallowFolder => "In shallow folder",
            UnorganizedReason::NoDatePattern => "Not in date folder",
            UnorganizedReason::GenericName => "Generic filename",
        }
    }

    /// Priority of the reason; higher means more unorganized.
    pub open spec fn spec_priority(self) -> u8 {
        match self {
            UnorganizedReason::InRoot => 4,
            UnorganizedReason::GenericName => 3,
            UnorganizedReason::ShallowFolder => 2,
            UnorganizedReason::NoDatePattern => 1,
        }
    }

    /// Priority of the reason; higher means more unorganized.
    pub fn priority(&self) -> (r: u8)
        ensures
            r == self.spec_priority(),
    {
        match self {
            UnorganizedReason::InRoot => 4,
            UnorganizedReason::GenericName => 3,
            UnorganizedReason::ShallowFolder => 2,
            UnorganizedReason::NoDatePattern => 1,
        }
    }
}

/// A file identified as unorganized.
#[derive(Debug, Clone)]
pub struct UnorganizedFile {
    /// Path of the file.
    pub path: String,
    /// Its file name.
    pub filename: String,
    /// File size in bytes.
    pub size_bytes: u64,
    /// Lower-case extension.
    pub file_type: String,
    /// Every reason that applies.
    pub reasons: Vec<UnorganizedReason>,
    /// Depth of the folder below the scan root.
    pub folder_depth: usize,
    /// Name of the parent folder.
    pub parent_folder: String,
}

impl UnorganizedFile {
    /// The reason with the highest priority; with equal priorities
    /// the later one wins.
    pub fn primary_reason(&self) -> (r: Option<UnorganizedReason>)
        ensures
            match r {
                Some(x) => exists|i: int|
                    0 <= i < self.reasons@.len() && self.reasons@[i] == x && forall|j: int|
                        0 <= j < self.reasons@.len() ==> (
                        #[trigger] self.reasons@[j]).spec_priority() <= x.spec_priority(),
                None => self.reasons@.len() == 0,
            },
    {
        if self.reasons.len() == 0 {
            return None;
        }
        let mut best = self.reasons[0];
        let ghost mut bi: int = 0;
        let mut i: usize = 1;
        while i < self.reasons.len()
            invariant
                1 <= i <= self.reasons@.len(),
                self.reasons@.len() > 0,
                0 <= bi < i,
                self.reasons@[bi] == best,
                forall|j: int|
                    0 <= j < i ==> (#[trigger] self.reasons@[j]).spec_priority()
                        <= best.spec_priority(),
            decreases self.reasons@.len() - i,
        {
            if self.reasons[i].priority() >= best.priority() {
                best = self.reasons[i];
                proof {
                    bi = i as int;
                }
            }
            i = i + 1;
        }
        proof {
            assert(self.reasons@[bi] == best);
        }
        Some(best)
    }
}

/// Configuration for the unorganized scan.
#[derive(Debug, Clone)]
pub struct UnorganizedConfig {
    /// Roots to scan.
    pub source_paths: Vec<String>,
    /// Flag files sitting in a scan root.
    pub check_root: bool,
    /// Flag files outside date-patterned folders.
    pub check_date_pattern: bool,
    /// Flag generic file names.
    pub check_generic_names: bool,
    /// Minimum folder depth that counts as organized.
    pub min_depth: usize,
}

impl Default for UnorganizedConfig {
    /// The default configuration: all checks on, depth two counts as
    /// organized.
    fn default() -> (r: UnorganizedConfig)
        ensures
            r.source_paths@.len() == 0,
            r.check_root,
            r.check_date_pattern,
            r.check_generic_names,
            r.min_depth == 2,
    {
        UnorganizedConfig {
            source_paths: Vec::new(),
            check_root: true,
            check_date_pattern: true,
            check_generic_names: true,
            min_depth: 2,
        }
    }
}

/// Result of an unorganized scan.
#[derive(Debug, Clone)]
pub struct UnorganizedResult {
    /// The flagged files.
    pub files: Vec<UnorganizedFile>,
    /// How many files were flagged.
    pub total_files: usize,
    /// Their total size in bytes.
    pub total_size_bytes: u64,
    /// Summary per reason.
    pub by_reason: Vec<ReasonSummary>,
    /// Run duration in milliseconds.
    pub duration_ms: u64,
}

/// Summary of flagged files sharing one reason.
#[derive(Debug, Clone)]
pub struct ReasonSummary {
    /// The reason.
    pub reason: UnorganizedReason,
    /// How many files carry it.
    pub count: usize,
    /// Their total size in bytes.
    pub size_bytes: u64,
}

/// Whether a decimal digit character.
pub open spec fn spec_is_digit(c: char) -> bool {
    c == '0' || c == '1' || c == '2' || c == '3' || c == '4' || c == '5' || c == '6' || c == '7'
        || c == '8' || c == '9'
}

/// Whether the path holds a year-like date pattern: `19` or `20`
/// followed by two more digits somewhere in it.
pub open spec fn spec_has_date_pattern(s: Seq<char>) -> bool {
    exists|k: int|
        0 <= k && k + 4 <= s.len() && ((s[k] == '1' && s[k + 1] == '9') || (s[k] == '2' && s[k + 1]
            == '0')) && spec_is_digit(#[trigger] s[k + 2]) && spec_is_digit(s[k + 3])
}

/// Whether a decimal digit character.
fn is_digit(c: char) -> (r: bool)
    ensures
        r == spec_is_digit(c),
{
    c == '0' || c == '1' || c == '2' || c == '3' || c == '4' || c == '5' || c == '6' || c == '7'
        || c == '8' || c == '9'
}

/// Whether the path holds a year-like date pattern.
pub fn has_date_pattern(s: &str) -> (r: bool)
    ensures
        r == spec_has_date_pattern(s@),
{
    let n = s.unicode_len();
    if n < 4 {
        return false;
    }
    let mut k: usize = 0;
    while k <= n - 4
        invariant
            n == s@.len(),
            n >= 4,
            k <= n - 3,
            forall|k0: int|
                0 <= k0 < k ==> !(((s@[k0] == '1' && s@[k0 + 1] == '9') || (s@[k0] == '2'
                    && s@[k0 + 1] == '0')) && spec_is_digit(#[trigger] s@[k0 + 2]) && spec_is_digit(
                    s@[k0 + 3],
                )),
        decreases n - k,
    {
        let c0 = s.get_char(k);
        let c1 = s.get_char(k + 1);
        if (c0 == '1' && c1 == '9') || (c0 == '2' && c1 == '0') {
            if is_digit(s.get_char(k + 2)) && is_digit(s.get_char(k + 3)) {
                return true;
            }
        }
        k = k + 1;
    }
    false
}

/// The generic file-name prefixes, already lower case.
pub open spec fn spec_generic_prefixes() -> Seq<Seq<char>> {
    seq![
        "img"@,
        "dsc"@,
        "dcim"@,
        "p"@,
        "dscn"@,
        "dscf"@,
        "sam"@,
        "mov"@,
        "vid"@,
        "mvi"@,
        "screenshot"@,
        "screen shot"@,
        "untitled"@,
        "photo"@,
        "image"@,
        "picture"@,
    ]
}

/// Whether the name, case folded, starts with one of the generic
/// prefixes.
pub open spec fn spec_is_generic_name(name: Seq<char>) -> bool {
    exists|k: int|
        0 <= k < spec_generic_prefixes().len() && crate::text::spec_starts_with(
            spec_lower(name),
            #[trigger] spec_generic_prefixes()[k],
        )
}

/// Case-insensitive prefix test against an already lower-case prefix.
fn starts_with_lower(name: &str, prefix: &str) -> (r: bool)
    ensures
        r == crate::text::spec_starts_with(spec_lower(name@), prefix@),
{
    let lowered = crate::text::to_lowercase(name);
    crate::text::starts_with(lowered.as_str(), prefix)
}

/// Whether the name, case folded, starts with one of the generic
/// prefixes.
pub fn is_generic_name(name: &str) -> (r: bool)
    ensures
        r == spec_is_generic_name(name@),
{
    proof {
        reveal_strlit("img");
        reveal_strlit("dsc");
        reveal_strlit("dcim");
        reveal_strlit("p");
        reveal_strlit("dscn");
        reveal_strlit("dscf");
        reveal_strlit("sam");
        reveal_strlit("mov");
        reveal_strlit("vid");
        reveal_strlit("mvi");
        reveal_strlit("screenshot");
        reveal_strlit("screen shot");
        reveal_strlit("untitled");
        reveal_strlit("photo");
        reveal_strlit("image");
        reveal_strlit("picture");
    }
    if starts_with_lower(name, "img") {
        proof {
            assert(spec_generic_prefixes()[0] == "img"@);
        }
        return true;
    }
    if starts_with_lower(name, "dsc") {
        proof {
            assert(spec_generic_prefixes()[1] == "dsc"@);
        }
        return true;
    }
    if starts_with_lower(name, "dcim") {
        proof {
            assert(spec_generic_prefixes()[2] == "dcim"@);
        }
        return true;
    }
    if starts_with_lower(name, "p") {
        proof {
            assert(spec_generic_prefixes()[3] == "p"@);
        }
        return true;
    }
    if starts_with_lower(name, "dscn") {
        proof {
            assert(spec_generic_prefixes()[4] == "dscn"@);
        }
        return true;
    }
    if starts_with_lower(name, "dscf") {
        proof {
            assert(spec_generic_prefixes()[5] == "dscf"@);
        }
        return true;
    }
    if starts_with_lower(name, "sam") {
        proof {
            assert(spec_generic_prefixes()[6] == "sam"@);
        }
        return true;
    }
    if starts_with_lower(name, "mov") {
        proof {
            assert(spec_generic_prefixes()[7] == "mov"@);
        }
        return true;
    }
    if starts_with_lower(name, "vid") {
        proof {
            assert(spec_generic_prefixes()[8] == "vid"@);
        }
        return true;
    }
    if starts_with_lower(name, "mvi") {
        proof {
            assert(spec_generic_prefixes()[9] == "mvi"@);
        }
        return true;
    }
    if starts_with_lower(name, "screenshot") {
        proof {
            assert(spec_generic_prefixes()[10] == "screenshot"@);
        }
        return true;
    }
    if starts_with_lower(name, "screen shot") {
        proof {
            assert(spec_generic_prefixes()[11] == "screen shot"@);
        }
        return true;
    }
    if starts_with_lower(name, "untitled") {
        proof {
            assert(spec_generic_prefixes()[12] == "untitled"@);
        }
        return true;
    }
    if starts_with_lower(name, "photo") {
        proof {
            assert(spec_generic_prefixes()[13] == "photo"@);
        }
        return true;
    }
    if starts_with_lower(name, "image") {
        proof {
            assert(spec_generic_prefixes()[14] == "image"@);
        }
        return true;
    }
    if starts_with_lower(name, "picture") {
        proof {
            assert(spec_generic_prefixes()[15] == "picture"@);
        }
        return true;
    }
    proof {
        if spec_is_generic_name(name@) {
            let k = choose|k: int|
                0 <= k < spec_generic_prefixes().len() && crate::text::spec_starts_with(
                    spec_lower(name@),
                    #[trigger] spec_generic_prefixes()[k],
                );
            assert(false);
        }
    }
    false
}

/// The reasons that apply to a media file, in the order the scan
/// records them: depth first, then the date pattern of the relative
/// path, then the generic name.
pub open spec fn spec_reasons(
    check_root: bool,
    check_date_pattern: bool,
    check_generic_names: bool,
    min_depth: int,
    depth: int,
    relative_path: Seq<char>,
    stem: Seq<char>,
) -> Seq<UnorganizedReason> {
    let r0 = Seq::<UnorganizedReason>::empty();
    let r1 = if check_root && depth == 0 {
        r0.push(UnorganizedReason::InRoot)
    } else if depth < min_depth {
        r0.push(UnorganizedReason::ShallowFolder)
    } else {
        r0
    };
    let r2 = if check_date_pattern && !spec_has_date_pattern(relative_path) {
        r1.push(UnorganizedReason::NoDatePattern)
    } else {
        r1
    };
    if check_generic_names && spec_is_generic_name(stem) {
        r2.push(UnorganizedReason::GenericName)
    } else {
        r2
    }
}

/// Classifies media files as unorganized.
pub struct UnorganizedScanner {}

impl UnorganizedScanner {
    /// The reasons a file is unorganized: `relative_path` is the path
    /// below the scan root, `depth` the folder depth below it, `stem`
    /// the file name without its extension.
    pub fn classify(
        config: &UnorganizedConfig,
        depth: usize,
        relative_path: &str,
        stem: &str,
    ) -> (r: Vec<UnorganizedReason>)
        ensures
            r@ == spec_reasons(
                config.check_root,
                config.check_date_pattern,
                config.check_generic_names,
                config.min_depth as int,
                depth as int,
                relative_path@,
                stem@,
            ),
    {
        let mut r: Vec<UnorganizedReason> = Vec::new();
        if config.check_root && depth == 0 {
            r.push(UnorganizedReason::InRoot);
        } else if depth < config.min_depth {
            r.push(UnorganizedReason::ShallowFolder);
        }
        if config.check_date_pattern && !has_date_pattern(relative_path) {
            r.push(UnorganizedReason::NoDatePattern);
        }
        if config.check_generic_names && is_generic_name(stem) {
            r.push(UnorganizedReason::GenericName);
        }
        proof {
            assert(r@ =~= spec_reasons(
                config.check_root,
                config.check_date_pattern,
                config.check_generic_names,
                config.min_depth as int,
                depth as int,
                relative_path@,
                stem@,
            ));
        }
        r
    }

    /// Whether a path names a media file, by extension.
    pub fn is_media_file(path: &str) -> (r: bool)
        ensures
            r == {
                let name = spec_file_name(path@);
                let k = spec_last_dot(name);
                k >= 1 && spec_is_media_ext(spec_lower(name.skip(k + 1)))
            },
    {
        media_ext_of(path)
    }
}

/// The media extensions recognised by the ancillary scanners,
/// lower case.
pub open spec fn spec_is_media_ext(e: Seq<char>) -> bool {
    e == "jpg"@ || e == "jpeg"@ || e == "png"@ || e == "gif"@ || e == "webp"@ || e == "bmp"@ || e
        == "tiff"@ || e == "tif"@ || e == "heic"@ || e == "heif"@ || e == "raw"@ || e == "cr2"@
        || e == "nef"@ || e == "dng"@ || e == "arw"@ || e == "raf"@ || e == "mp4"@ || e == "mov"@
        || e == "avi"@ || e == "mkv"@ || e == "flv"@ || e == "wmv"@ || e == "webm"@ || e == "m4v"@
}

/// Whether the path's extension, case folded, is a media extension.
pub fn media_ext_of(path: &str) -> (r: bool)
    ensures
        r == {
            let name = spec_file_name(path@);
            let k = spec_last_dot(name);
            k >= 1 && spec_is_media_ext(spec_lower(name.skip(k + 1)))
        },
{
    let name = file_name_part(path);
    match extension_part(name.as_str()) {
        Some(ext) => {
            let e = crate::text::to_lowercase(ext.as_str());
            proof {
                reveal_strlit("jpg");
                reveal_strlit("jpeg");
                reveal_strlit("png");
                reveal_strlit("gif");
                reveal_strlit("webp");
                reveal_strlit("bmp");
                reveal_strlit("tiff");
                reveal_strlit("tif");
                reveal_strlit("heic");
                reveal_strlit("heif");
                reveal_strlit("raw");
                reveal_strlit("cr2");
                reveal_strlit("nef");
                reveal_strlit("dng");
                reveal_strlit("arw");
                reveal_strlit("raf");
                reveal_strlit("mp4");
                reveal_strlit("mov");
                reveal_strlit("avi");
                reveal_strlit("mkv");
                reveal_strlit("flv");
                reveal_strlit("wmv");
                reveal_strlit("webm");
                reveal_strlit("m4v");
            }
            let s = e.as_str();
            crate::text::str_eq(s, "jpg") || crate::text::str_eq(s, "jpeg") || crate::text::str_eq(
                s,
                "png",
            ) || crate::text::str_eq(s, "gif") || crate::text::str_eq(s, "webp")
                || crate::text::str_eq(s, "bmp") || crate::text::str_eq(s, "tiff")
                || crate::text::str_eq(s, "tif") || crate::text::str_eq(s, "heic")
                || crate::text::str_eq(s, "heif") || crate::text::str_eq(s, "raw")
                || crate::text::str_eq(s, "cr2") || crate::text::str_eq(s, "nef")
                || crate::text::str_eq(s, "dng") || crate::text::str_eq(s, "arw")
                || crate::text::str_eq(s, "raf") || crate::text::str_eq(s, "mp4")
                || crate::text::str_eq(s, "mov") || crate::text::str_eq(s, "avi")
                || crate::text::str_eq(s, "mkv") || crate::text::str_eq(s, "flv")
                || crate::text::str_eq(s, "wmv") || crate::text::str_eq(s, "webm")
                || crate::text::str_eq(s, "m4v")
        },
        None => false,
    }
}

} // verus!
