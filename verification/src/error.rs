//! Error taxonomy of the library. Every error names its subject so
//! the user can act on it; `message` renders the user-facing text.

use vstd::prelude::*;

use crate::text::{push_u64, spec_dec};

verus! {

/// Errors during photo scanning.
#[derive(Debug, Clone)]
pub enum ScanError {
    /// The root directory does not exist.
    DirectoryNotFound { path: String },
    /// Access to a path was denied.
    PermissionDenied { path: String },
    /// A directory could not be read.
    ReadDirectory { path: String, cause: String },
    /// The scan was cancelled.
    Cancelled,
}

impl ScanError {
    /// The user-facing message.
    pub fn message(&self) -> (r: String)
        ensures
            r@ == match self {
                ScanError::DirectoryNotFound { path } => "Directory not found: "@ + path@,
                ScanError::PermissionDenied { path } => "Permission denied accessing: "@ + path@,
                ScanError::ReadDirectory { path, cause } => "Failed to read directory "@ + path@
                    + ": "@ + cause@,
                ScanError::Cancelled => "Scan was cancelled"@,
            },
    {
        match self {
            ScanError::DirectoryNotFound { path } => {
                let mut s = String::new();
                s.append("Directory not found: ");
                s.append(path.as_str());
                s
            },
            ScanError::PermissionDenied { path } => {
                let mut s = String::new();
                s.append("Permission denied accessing: ");
                s.append(path.as_str());
                s
            },
            ScanError::ReadDirectory { path, cause } => {
                let mut s = String::new();
                s.append("Failed to read directory ");
                s.append(path.as_str());
                s.append(": ");
                s.append(cause.as_str());
                s
            },
            ScanError::Cancelled => {
                let mut s = String::new();
                s.append("Scan was cancelled");
                s
            },
        }
    }
}

/// Errors during image hashing.
#[derive(Debug, Clone)]
pub enum HashError {
    /// The image format is not supported.
    UnsupportedFormat { format: String },
    /// The image could not be decoded.
    DecodeError { path: String, reason: String },
    /// The image is empty or corrupted.
    EmptyImage { path: String },
    /// Computing the hash failed.
    ComputationFailed { reason: String },
    /// The file could not be opened or read.
    IoError { path: String, cause: String },
}

impl HashError {
    /// The user-facing message.
    pub fn message(&self) -> (r: String)
        ensures
            r@ == match self {
                HashError::UnsupportedFormat { format } => "Unsupported image format: "@ + format@,
                HashError::DecodeError { path, reason } => "Failed to decode image "@ + path@
                    + ": "@ + reason@,
                HashError::EmptyImage { path } => "Image is empty or corrupted: "@ + path@,
                HashError::ComputationFailed { reason } => "Hash computation failed: "@ + reason@,
                HashError::IoError { path, cause } => "Failed to open image file "@ + path@ + ": "@
                    + cause@,
            },
    {
        match self {
            HashError::UnsupportedFormat { format } => {
                let mut s = String::new();
                s.append("Unsupported image format: ");
                s.append(format.as_str());
                s
            },
            HashError::DecodeError { path, reason } => {
                let mut s = String::new();
                s.append("Failed to decode image ");
                s.append(path.as_str());
                s.append(": ");
                s.append(reason.as_str());
                s
            },
            HashError::EmptyImage { path } => {
                let mut s = String::new();
                s.append("Image is empty or corrupted: ");
                s.append(path.as_str());
                s
            },
            HashError::ComputationFailed { reason } => {
                let mut s = String::new();
                s.append("Hash computation failed: ");
                s.append(reason.as_str());
                s
            },
            HashError::IoError { path, cause } => {
                let mut s = String::new();
                s.append("Failed to open image file ");
                s.append(path.as_str());
                s.append(": ");
                s.append(cause.as_str());
                s
            },
        }
    }
}

/// Errors during duplicate comparison.
#[derive(Debug, Clone)]
pub enum CompareError {
    /// There are no photos to compare.
    NoPhotos,
    /// The threshold is outside the valid range.
    InvalidThreshold { value: u32 },
    /// The comparison was cancelled.
    Cancelled,
}

impl CompareError {
    /// The user-facing message.
    pub fn message(&self) -> (r: String)
        ensures
            r@ == match self {
                CompareError::NoPhotos => "No photos to compare"@,
                CompareError::InvalidThreshold { value } => "Invalid threshold: "@ + spec_dec(
                    *value as nat,
                ) + " (must be 0-64)"@,
                CompareError::Cancelled => "Comparison was cancelled"@,
            },
    {
        match self {
            CompareError::NoPhotos => {
                let mut s = String::new();
                s.append("No photos to compare");
                s
            },
            CompareError::InvalidThreshold { value } => {
                let mut s = String::new();
                s.append("Invalid threshold: ");
                push_u64(&mut s, *value as u64);
                s.append(" (must be 0-64)");
                s
            },
            CompareError::Cancelled => {
                let mut s = String::new();
                s.append("Comparison was cancelled");
                s
            },
        }
    }
}

/// Errors of the hash cache.
#[derive(Debug, Clone)]
pub enum CacheError {
    /// The cache database could not be opened.
    OpenFailed { path: String, reason: String },
    /// A query against the store failed.
    QueryFailed { reason: String },
    /// The store is corrupted; deleting the file is the remedy.
    Corrupted { path: String },
    /// Hash data could not be serialised.
    SerializationFailed { reason: String },
}

impl CacheError {
    /// The user-facing message.
    pub fn message(&self) -> (r: String)
        ensures
            r@ == match self {
                CacheError::OpenFailed { path, reason } => "Failed to open cache database at "@
                    + path@ + ": "@ + reason@,
                CacheError::QueryFailed { reason } => "Database query failed: "@ + reason@,
                CacheError::Corrupted { path } => "Cache corruption detected at "@ + path@
                    + ". Delete this file and try again."@,
                CacheError::SerializationFailed { reason } => "Failed to serialize hash data: "@
                    + reason@,
            },
    {
        match self {
            CacheError::OpenFailed { path, reason } => {
                let mut s = String::new();
                s.append("Failed to open cache database at ");
                s.append(path.as_str());
                s.append(": ");
                s.append(reason.as_str());
                s
            },
            CacheError::QueryFailed { reason } => {
                let mut s = String::new();
                s.append("Database query failed: ");
                s.append(reason.as_str());
                s
            },
            CacheError::Corrupted { path } => {
                let mut s = String::new();
                s.append("Cache corruption detected at ");
                s.append(path.as_str());
                s.append(". Delete this file and try again.");
                s
            },
            CacheError::SerializationFailed { reason } => {
                let mut s = String::new();
                s.append("Failed to serialize hash data: ");
                s.append(reason.as_str());
                s
            },
        }
    }
}

/// Errors during report generation.
#[derive(Debug, Clone)]
pub enum ReportError {
    /// A photo named by a group is not in the run's photo table.
    PhotoNotFound { path: String },
    /// Metadata for a photo could not be read.
    MetadataError { path: String, reason: String },
    /// The report could not be generated.
    GenerationFailed { reason: String },
}

impl ReportError {
    /// The user-facing message.
    pub fn message(&self) -> (r: String)
        ensures
            r@ == match self {
                ReportError::PhotoNotFound { path } => "Photo not found: "@ + path@,
                ReportError::MetadataError { path, reason } => "Failed to read photo metadata for "@
                    + path@ + ": "@ + reason@,
                ReportError::GenerationFailed { reason } => "Failed to generate report: "@
                    + reason@,
            },
    {
        match self {
            ReportError::PhotoNotFound { path } => {
                let mut s = String::new();
                s.append("Photo not found: ");
                s.append(path.as_str());
                s
            },
            ReportError::MetadataError { path, reason } => {
                let mut s = String::new();
                s.append("Failed to read photo metadata for ");
                s.append(path.as_str());
                s.append(": ");
                s.append(reason.as_str());
                s
            },
            ReportError::GenerationFailed { reason } => {
                let mut s = String::new();
                s.append("Failed to generate report: ");
                s.append(reason.as_str());
                s
            },
        }
    }
}

/// Top-level application error.
#[derive(Debug, Clone)]
pub enum DuplicateFinderError {
    /// A scanning error.
    Scan(ScanError),
    /// A hashing error.
    Hash(HashError),
    /// A comparison error.
    Compare(CompareError),
    /// A cache error.
    Cache(CacheError),
    /// A report generation error.
    Report(ReportError),
    /// A configuration error.
    Config(String),
}

impl DuplicateFinderError {
    /// The user-facing message, with the failing stage named first.
    pub fn message(&self) -> (r: String)
        ensures
            r@ == match self {
                DuplicateFinderError::Scan(e) => "Scanning error: "@ + e.message_spec(),
                DuplicateFinderError::Hash(e) => "Hashing error: "@ + e.message_spec(),
                DuplicateFinderError::Compare(e) => "Comparison error: "@ + e.message_spec(),
                DuplicateFinderError::Cache(e) => "Cache error: "@ + e.message_spec(),
                DuplicateFinderError::Report(e) => "Report generation error: "@ + e.message_spec(),
                DuplicateFinderError::Config(m) => "Configuration error: "@ + m@,
            },
    {
        match self {
            DuplicateFinderError::Scan(e) => {
                let mut s = String::new();
                s.append("Scanning error: ");
                let m = e.message();
                s.append(m.as_str());
                s
            },
            DuplicateFinderError::Hash(e) => {
                let mut s = String::new();
                s.append("Hashing error: ");
                let m = e.message();
                s.append(m.as_str());
                s
            },
            DuplicateFinderError::Compare(e) => {
                let mut s = String::new();
                s.append("Comparison error: ");
                let m = e.message();
                s.append(m.as_str());
                s
            },
            DuplicateFinderError::Cache(e) => {
                let mut s = String::new();
                s.append("Cache error: ");
                let m = e.message();
                s.append(m.as_str());
                s
            },
            DuplicateFinderError::Report(e) => {
                let mut s = String::new();
                s.append("Report generation error: ");
                let m = e.message();
                s.append(m.as_str());
                s
            },
            DuplicateFinderError::Config(m) => {
                let mut s = String::new();
                s.append("Configuration error: ");
                s.append(m.as_str());
                s
            },
        }
    }
}

impl ScanError {
    /// The message as a character sequence.
    pub open spec fn message_spec(&self) -> Seq<char> {
        match self {
            ScanError::DirectoryNotFound { path } => "Directory not found: "@ + path@,
            ScanError::PermissionDenied { path } => "Permission denied accessing: "@ + path@,
            ScanError::ReadDirectory { path, cause } => "Failed to read directory "@ + path@ + ": "@
                + cause@,
            ScanError::Cancelled => "Scan was cancelled"@,
        }
    }
}

impl HashError {
    /// The message as a character sequence.
    pub open spec fn message_spec(&self) -> Seq<char> {
        match self {
            HashError::UnsupportedFormat { format } => "Unsupported image format: "@ + format@,
            HashError::DecodeError { path, reason } => "Failed to decode image "@ + path@ + ": "@
                + reason@,
            HashError::EmptyImage { path } => "Image is empty or corrupted: "@ + path@,
            HashError::ComputationFailed { reason } => "Hash computation failed: "@ + reason@,
            HashError::IoError { path, cause } => "Failed to open image file "@ + path@ + ": "@
                + cause@,
        }
    }
}

impl CompareError {
    /// The message as a character sequence.
    pub open spec fn message_spec(&self) -> Seq<char> {
        match self {
            CompareError::NoPhotos => "No photos to compare"@,
            CompareError::InvalidThreshold { value } => "Invalid threshold: "@ + spec_dec(
                *value as nat,
            ) + " (must be 0-64)"@,
            CompareError::Cancelled => "Comparison was cancelled"@,
        }
    }
}

impl CacheError {
    /// The message as a character sequence.
    pub open spec fn message_spec(&self) -> Seq<char> {
        match self {
            CacheError::OpenFailed { path, reason } => "Failed to open cache database at "@ + path@
                + ": "@ + reason@,
            CacheError::QueryFailed { reason } => "Database query failed: "@ + reason@,
            CacheError::Corrupted { path } => "Cache corruption detected at "@ + path@
                + ". Delete this file and try again."@,
            CacheError::SerializationFailed { reason } => "Failed to serialize hash data: "@
                + reason@,
        }
    }
}

impl ReportError {
    /// The message as a character sequence.
    pub open spec fn message_spec(&self) -> Seq<char> {
        match self {
            ReportError::PhotoNotFound { path } => "Photo not found: "@ + path@,
            ReportError::MetadataError { path, reason } => "Failed to read photo metadata for "@
                + path@ + ": "@ + reason@,
            ReportError::GenerationFailed { reason } => "Failed to generate report: "@ + reason@,
        }
    }
}

} // verus!
