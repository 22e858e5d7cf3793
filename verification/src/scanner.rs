//! Candidate discovery: the image filter that decides, by extension
//! and hidden-file policy, whether a filesystem entry is a candidate,
//! the photo record the walker emits, and the walker's decision
//! logic. The walk itself is driven by the host, which hands each
//! entry to these functions.

use vstd::prelude::*;

use crate::error::ScanError;
use crate::grouper::contains_view;
use crate::text::{
    eq_ignore_ascii_case, spec_eq_lower, spec_lower, spec_starts_with, starts_with, to_lowercase,
};

verus! {

/// Supported image formats.
#[derive(Debug, Clone, Copy, PartialEq, Eq, Structural)]
pub enum ImageFormat {
    Jpeg,
    Png,
    WebP,
    Heic,
    Gif,
    Bmp,
    Tiff,
    Unknown,
}

/// The format an extension names, compared case-insensitively.
pub open spec fn spec_format_of(e: Seq<char>) -> ImageFormat {
    if spec_eq_lower(e, "jpg"@) || spec_eq_lower(e, "jpeg"@) {
        ImageFormat::Jpeg
    } else if spec_eq_lower(e, "png"@) {
        ImageFormat::Png
    } else if spec_eq_lower(e, "webp"@) {
        ImageFormat::WebP
    } else if spec_eq_lower(e, "heic"@) || spec_eq_lower(e, "heif"@) {
        ImageFormat::Heic
    } else if spec_eq_lower(e, "gif"@) {
        ImageFormat::Gif
    } else if spec_eq_lower(e, "bmp"@) {
        ImageFormat::Bmp
    } else if spec_eq_lower(e, "tiff"@) || spec_eq_lower(e, "tif"@) {
        ImageFormat::Tiff
    } else {
        ImageFormat::Unknown
    }
}

impl ImageFormat {
    /// Detect the format from a file extension, case-insensitively.
    pub fn from_extension(ext: &str) -> (r: ImageFormat)
        ensures
            r == spec_format_of(ext@),
    {
        proof {
            reveal_strlit("jpg");
            reveal_strlit("jpeg");
            reveal_strlit("png");
            reveal_strlit("webp");
            reveal_strlit("heic");
            reveal_strlit("heif");
            reveal_strlit("gif");
            reveal_strlit("bmp");
            reveal_strlit("tiff");
            reveal_strlit("tif");
        }
        if eq_ignore_ascii_case(ext, "jpg") || eq_ignore_ascii_case(ext, "jpeg") {
            ImageFormat::Jpeg
        } else if eq_ignore_ascii_case(ext, "png") {
            ImageFormat::Png
        } else if eq_ignore_ascii_case(ext, "webp") {
            ImageFormat::WebP
        } else if eq_ignore_ascii_case(ext, "heic") || eq_ignore_ascii_case(ext, "heif") {
            ImageFormat::Heic
        } else if eq_ignore_ascii_case(ext, "gif") {
            ImageFormat::Gif
        } else if eq_ignore_ascii_case(ext, "bmp") {
            ImageFormat::Bmp
        } else if eq_ignore_ascii_case(ext, "tiff") || eq_ignore_ascii_case(ext, "tif") {
            ImageFormat::Tiff
        } else {
            ImageFormat::Unknown
        }
    }

    /// Whether the format is one the pipeline can hash.
    pub fn is_supported(&self) -> (r: bool)
        ensures
            r == (*self != ImageFormat::Unknown),
    {
        match self {
            ImageFormat::Unknown => false,
            _ => true,
        }
    }
}

/// A discovered photo file: its path, size in bytes, modification
/// time in whole seconds since the epoch, and detected format.
#[derive(Debug, Clone)]
pub struct PhotoFile {
    /// Path of the photo file.
    pub path: String,
    /// File size in bytes.
    pub size: u64,
    /// Last modification time, seconds since the epoch.
    pub modified: u64,
    /// Detected image format.
    pub format: ImageFormat,
}

/// Result of a scan: the accepted photos and the non-fatal errors.
#[derive(Debug)]
pub struct ScanResult {
    /// Successfully discovered photos.
    pub photos: Vec<PhotoFile>,
    /// Errors that occurred during scanning.
    pub errors: Vec<ScanError>,
}

/// The file name of a path: what follows the last `/`.
pub open spec fn spec_file_name(p: Seq<char>) -> Seq<char>
    decreases p.len(),
{
    if p.len() == 0 {
        p
    } else if p.last() == '/' {
        Seq::empty()
    } else {
        spec_file_name(p.drop_last()) + seq![p.last()]
    }
}

/// Index of the last `.` in a name, counting only positions past the
/// first character; `-1` when there is none. A leading dot marks a
/// hidden file, not an extension.
pub open spec fn spec_last_dot(name: Seq<char>) -> int
    decreases name.len(),
{
    if name.len() <= 1 {
        -1
    } else if name.last() == '.' {
        name.len() - 1
    } else {
        spec_last_dot(name.drop_last())
    }
}

/// Whether the filter accepts a path: a non-hidden (or permitted)
/// file name whose extension, case-folded, is one of the accepted
/// extensions.
pub open spec fn spec_should_include(
    extensions: Seq<String>,
    include_hidden: bool,
    p: Seq<char>,
) -> bool {
    let name = spec_file_name(p);
    if !include_hidden && name.len() > 0 && name.first() == '.' {
        false
    } else {
        let k = spec_last_dot(name);
        if k >= 1 {
            contains_view(extensions, spec_lower(name.skip(k + 1)))
        } else {
            false
        }
    }
}

/// The file name part of a path.
pub fn file_name_part(path: &str) -> (r: String)
    ensures
        r@ == spec_file_name(path@),
{
    let n = path.unicode_len();
    let mut start: usize = n;
    while start > 0
        invariant
            start <= n,
            n == path@.len(),
            forall|j: int| start <= j < n ==> path@[j] != '/',
        decreases start,
    {
        if path.get_char(start - 1) == '/' {
            proof {
                lemma_file_name_after(path@, start - 1 as int);
            }
            let mut r = String::new();
            let mut i: usize = start;
            while i < n
                invariant
                    start <= i <= n,
                    n == path@.len(),
                    r@ =~= path@.subrange(start as int, i as int),
                decreases n - i,
            {
                r.push(path.get_char(i));
                proof {
                    assert(r@ =~= path@.subrange(start as int, i + 1 as int));
                }
                i = i + 1;
            }
            return r;
        }
        start = start - 1;
    }
    proof {
        lemma_file_name_whole(path@);
    }
    let mut r = String::new();
    let mut i: usize = 0;
    while i < n
        invariant
            i <= n,
            n == path@.len(),
            r@ =~= path@.subrange(0, i as int),
        decreases n - i,
    {
        r.push(path.get_char(i));
        proof {
            assert(r@ =~= path@.subrange(0, i + 1 as int));
        }
        i = i + 1;
    }
    proof {
        assert(path@.subrange(0, n as int) =~= path@);
    }
    r
}

/// When the last slash sits at `k`, the file name is the suffix.
proof fn lemma_file_name_after(p: Seq<char>, k: int)
    requires
        0 <= k < p.len(),
        p[k] == '/',
        forall|j: int| k < j < p.len() ==> p[j] != '/',
    ensures
        spec_file_name(p) =~= p.subrange(k + 1, p.len() as int),
    decreases p.len(),
{
    if k == p.len() - 1 {
    } else {
        assert(p.last() != '/');
        assert(p.drop_last()[k] == p[k]);
        lemma_file_name_after(p.drop_last(), k);
        assert(spec_file_name(p) =~= p.drop_last().subrange(k + 1, p.len() - 1) + seq![p.last()]);
    }
}

/// Without a slash the whole path is the file name.
proof fn lemma_file_name_whole(p: Seq<char>)
    requires
        forall|j: int| 0 <= j < p.len() ==> p[j] != '/',
    ensures
        spec_file_name(p) =~= p,
    decreases p.len(),
{
    if p.len() > 0 {
        lemma_file_name_whole(p.drop_last());
    }
}

/// When the last countable dot sits at `k`, that is the extension
/// boundary.
proof fn lemma_last_dot_at(p: Seq<char>, k: int)
    requires
        1 <= k < p.len(),
        p[k] == '.',
        forall|j: int| k < j < p.len() ==> p[j] != '.',
    ensures
        spec_last_dot(p) == k,
    decreases p.len(),
{
    if k == p.len() - 1 {
    } else {
        assert(p.last() != '.');
        assert(p.drop_last()[k] == p[k]);
        lemma_last_dot_at(p.drop_last(), k);
    }
}

/// With no countable dot there is no extension.
proof fn lemma_last_dot_none(p: Seq<char>)
    requires
        forall|j: int| 1 <= j < p.len() ==> p[j] != '.',
    ensures
        spec_last_dot(p) == -1,
    decreases p.len(),
{
    if p.len() > 1 {
        lemma_last_dot_none(p.drop_last());
    }
}

/// The extension of a file name: what follows the last dot, if any
/// dot stands past the first character.
pub fn extension_part(name: &str) -> (r: Option<String>)
    ensures
        match r {
            Some(e) => spec_last_dot(name@) >= 1 && e@ == name@.skip(spec_last_dot(name@) + 1),
            None => spec_last_dot(name@) == -1,
        },
{
    let n = name.unicode_len();
    let mut k: usize = n;
    while k > 1
        invariant
            k <= n,
            n == name@.len(),
            forall|j: int| k <= j < n ==> name@[j] != '.',
        decreases k,
    {
        if name.get_char(k - 1) == '.' {
            proof {
                lemma_last_dot_at(name@, k - 1 as int);
            }
            let mut r = String::new();
            let mut i: usize = k;
            while i < n
                invariant
                    k <= i <= n,
                    n == name@.len(),
                    r@ =~= name@.subrange(k as int, i as int),
                decreases n - i,
            {
                r.push(name.get_char(i));
                proof {
                    assert(r@ =~= name@.subrange(k as int, i + 1 as int));
                }
                i = i + 1;
            }
            proof {
                assert(name@.subrange(k as int, n as int) =~= name@.skip(k as int));
            }
            return Some(r);
        }
        k = k - 1;
    }
    proof {
        lemma_last_dot_none(name@);
    }
    None
}

/// Filters files to the supported image formats, with a hidden-file
/// policy.
#[derive(Debug, Clone)]
pub struct ImageFilter {
    /// Accepted extensions, lower case.
    pub extensions: Vec<String>,
    /// Whether to include hidden (leading-dot) files.
    pub include_hidden: bool,
}

/// Copy of a string list.
pub fn clone_string_vec(v: &Vec<String>) -> (r: Vec<String>)
    ensures
        r@ =~= v@,
{
    let mut r: Vec<String> = Vec::new();
    let mut i: usize = 0;
    while i < v.len()
        invariant
            i <= v@.len(),
            r@ =~= v@.take(i as int),
        decreases v@.len() - i,
    {
        r.push(v[i].clone());
        proof {
            assert(r@ =~= v@.take(i + 1 as int));
        }
        i = i + 1;
    }
    proof {
        assert(v@.take(v@.len() as int) =~= v@);
    }
    r
}

impl ImageFilter {
    /// The default accepted extensions.
    pub open spec fn spec_default_extensions(&self) -> bool {
        &&& self.extensions@.len() == 10
        &&& self.extensions@[0]@ == "jpg"@
        &&& self.extensions@[1]@ == "jpeg"@
        &&& self.extensions@[2]@ == "png"@
        &&& self.extensions@[3]@ == "webp"@
        &&& self.extensions@[4]@ == "heic"@
        &&& self.extensions@[5]@ == "heif"@
        &&& self.extensions@[6]@ == "gif"@
        &&& self.extensions@[7]@ == "bmp"@
        &&& self.extensions@[8]@ == "tiff"@
        &&& self.extensions@[9]@ == "tif"@
    }

    /// Create a filter with the default supported extensions, hidden
    /// files excluded.
    pub fn new() -> (r: ImageFilter)
        ensures
            r.spec_default_extensions(),
            !r.include_hidden,
    {
        let mut extensions: Vec<String> = Vec::new();
        extensions.push(String::from_str("jpg"));
        extensions.push(String::from_str("jpeg"));
        extensions.push(String::from_str("png"));
        extensions.push(String::from_str("webp"));
        extensions.push(String::from_str("heic"));
        extensions.push(String::from_str("heif"));
        extensions.push(String::from_str("gif"));
        extensions.push(String::from_str("bmp"));
        extensions.push(String::from_str("tiff"));
        extensions.push(String::from_str("tif"));
        ImageFilter { extensions, include_hidden: false }
    }

    /// Include hidden files (names starting with a dot).
    pub fn with_hidden(self, allow: bool) -> (r: ImageFilter)
        ensures
            r.extensions == self.extensions,
            r.include_hidden == allow,
    {
        ImageFilter { extensions: self.extensions, include_hidden: allow }
    }

    /// Replace the accepted extensions.
    pub fn with_extensions(self, extensions: Vec<String>) -> (r: ImageFilter)
        ensures
            r.extensions == extensions,
            r.include_hidden == self.include_hidden,
    {
        ImageFilter { extensions, include_hidden: self.include_hidden }
    }

    /// Whether a file should be included: not hidden (unless
    /// permitted), and its extension, case-folded, is accepted.
    pub fn should_include(&self, path: &str) -> (r: bool)
        ensures
            r == spec_should_include(self.extensions@, self.include_hidden, path@),
    {
        let name = file_name_part(path);
        if !self.include_hidden && name.unicode_len() > 0 {
            if name.as_str().get_char(0) == '.' {
                return false;
            }
        }
        proof {
            assert(name@ == spec_file_name(path@));
        }
        match extension_part(name.as_str()) {
            Some(ext) => {
                proof {
                    assert(ext@ == spec_file_name(path@).skip(
                        spec_last_dot(spec_file_name(path@)) + 1,
                    ));
                }
                let ext_lower = to_lowercase(ext.as_str());
                proof {
                    assert(ext_lower@ =~= spec_lower(
                        spec_file_name(path@).skip(spec_last_dot(spec_file_name(path@)) + 1),
                    ));
                }
                let mut i: usize = 0;
                while i < self.extensions.len()
                    invariant
                        i <= self.extensions@.len(),
                        !(!self.include_hidden && spec_file_name(path@).len() > 0
                            && spec_file_name(path@).first() == '.'),
                        spec_last_dot(spec_file_name(path@)) >= 1,
                        ext_lower@ == spec_lower(
                            spec_file_name(path@).skip(spec_last_dot(spec_file_name(path@)) + 1),
                        ),
                        forall|j: int|
                            0 <= j < i ==> (#[trigger] self.extensions@[j])@ != ext_lower@,
                    decreases self.extensions@.len() - i,
                {
                    if self.extensions[i] == ext_lower {
                        proof {
                            assert((self.extensions@[i as int])@ == ext_lower@);
                            assert(contains_view(self.extensions@, ext_lower@));
                            assert(ext_lower@ =~= spec_lower(
                                spec_file_name(path@).skip(spec_last_dot(spec_file_name(path@))
                                    + 1),
                            ));
                        }
                        return true;
                    }
                    i = i + 1;
                }
                proof {
                    if contains_view(self.extensions@, ext_lower@) {
                        let j = choose|j: int|
                            0 <= j < self.extensions@.len() && (#[trigger] self.extensions@[j])@
                                == ext_lower@;
                        assert(false);
                    }
                }
                false
            },
            None => false,
        }
    }

    /// The image format for a path, by its extension.
    pub fn get_format(&self, path: &str) -> (r: ImageFormat)
        ensures
            r == {
                let name = spec_file_name(path@);
                let k = spec_last_dot(name);
                if k >= 1 {
                    spec_format_of(name.skip(k + 1))
                } else {
                    ImageFormat::Unknown
                }
            },
    {
        let name = file_name_part(path);
        match extension_part(name.as_str()) {
            Some(ext) => ImageFormat::from_extension(ext.as_str()),
            None => ImageFormat::Unknown,
        }
    }
}

/// Configuration for the directory scanner.
#[derive(Debug, Clone)]
pub struct ScanConfig {
    /// Whether to follow symbolic links.
    pub follow_symlinks: bool,
    /// Whether to include hidden files and directories.
    pub include_hidden: bool,
    /// Maximum directory depth; `None` is unlimited.
    pub max_depth: Option<usize>,
    /// Accepted extensions; `None` uses the defaults.
    pub extensions: Option<Vec<String>>,
    /// Whether to track per-directory scan state for faster rescans.
    pub incremental: bool,
}

impl Default for ScanConfig {
    /// The default scan configuration: do not follow symlinks, skip
    /// hidden files, no depth limit, default extensions.
    fn default() -> (r: ScanConfig)
        ensures
            !r.follow_symlinks,
            !r.include_hidden,
            r.max_depth is None,
            r.extensions is None,
            !r.incremental,
    {
        ScanConfig {
            follow_symlinks: false,
            include_hidden: false,
            max_depth: None,
            extensions: None,
            incremental: false,
        }
    }
}

/// The scanner's per-entry decision logic. The host walks the
/// directories and hands each entry here.
pub struct WalkDirScanner {
    /// The scan configuration.
    pub config: ScanConfig,
    /// The filter built from it.
    pub filter: ImageFilter,
}

impl WalkDirScanner {
    /// Create a scanner: the filter takes the configured hidden-file
    /// policy and extension list.
    pub fn new(config: ScanConfig) -> (r: WalkDirScanner)
        ensures
            r.filter.include_hidden == config.include_hidden,
            match config.extensions {
                Some(e) => r.filter.extensions@ =~= e@,
                None => r.filter.spec_default_extensions(),
            },
            r.config == config,
    {
        let filter0 = ImageFilter::new().with_hidden(config.include_hidden);
        let filter = match &config.extensions {
            Some(e) => {
                let c = clone_string_vec(e);
                filter0.with_extensions(c)
            },
            None => filter0,
        };
        WalkDirScanner { config, filter }
    }

    /// Whether a directory is skipped: hidden directories are, unless
    /// permitted, except the scan root itself.
    pub fn should_skip_directory(&self, path: &str, root: &str) -> (r: bool)
        ensures
            r == (!self.config.include_hidden && spec_starts_with(spec_file_name(path@), "."@)
                && path@ != root@),
    {
        if self.config.include_hidden {
            return false;
        }
        let name = file_name_part(path);
        proof {
            reveal_strlit(".");
        }
        let hidden = starts_with(name.as_str(), ".");
        if !hidden {
            return false;
        }
        !crate::text::str_eq(path, root)
    }

    /// The photo record for an accepted file entry; `None` when the
    /// filter rejects it.
    pub fn process_file(&self, path: &String, size: u64, modified: u64) -> (r: Option<PhotoFile>)
        ensures
            match r {
                Some(photo) => {
                    &&& spec_should_include(
                        self.filter.extensions@,
                        self.filter.include_hidden,
                        path@,
                    )
                    &&& photo.path@ == path@
                    &&& photo.size == size
                    &&& photo.modified == modified
                },
                None => !spec_should_include(
                    self.filter.extensions@,
                    self.filter.include_hidden,
                    path@,
                ),
            },
    {
        if !self.filter.should_include(path.as_str()) {
            return None;
        }
        let format = self.filter.get_format(path.as_str());
        Some(PhotoFile { path: path.clone(), size, modified, format })
    }
}

} // verus!
