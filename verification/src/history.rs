//! Types for scan history storage.

use vstd::prelude::*;

use crate::text::str_eq;

verus! {

/// Which scanning module produced an entry.
#[derive(Debug, Clone, Copy, PartialEq, Eq, Structural)]
pub enum ModuleType {
    Duplicates,
    Screenshots,
    Similar,
    LargeFiles,
    Unorganized,
}

impl ModuleType {
    /// Canonical storage name of the module.
    pub fn as_str(&self) -> (r: &'static str)
        ensures
            *self == ModuleType::Duplicates ==> r@ == "duplicates"@,
            *self == ModuleType::Screenshots ==> r@ == "screenshots"@,
            *self == ModuleType::Similar ==> r@ == "similar"@,
            *self == ModuleType::LargeFiles ==> r@ == "large_files"@,
            *self == ModuleType::Unorganized ==> r@ == "unorganized"@,
    {
        match self {
            ModuleType::Duplicates => "duplicates",
            ModuleType::Screenshots => "screenshots",
            ModuleType::Similar => "similar",
            ModuleType::LargeFiles => "large_files",
            ModuleType::Unorganized => "unorganized",
        }
    }

    /// Decode a storage name; unknown names decode to nothing.
    pub fn from_str(s: &str) -> (r: Option<ModuleType>)
        ensures
            r == (if s@ == "duplicates"@ {
                Some(ModuleType::Duplicates)
            } else if s@ == "screenshots"@ {
                Some(ModuleType::Screenshots)
            } else if s@ == "similar"@ {
                Some(ModuleType::Similar)
            } else if s@ == "large_files"@ {
                Some(ModuleType::LargeFiles)
            } else if s@ == "unorganized"@ {
                Some(ModuleType::Unorganized)
            } else {
                None
            }),
    {
        proof {
            reveal_strlit("duplicates");
            reveal_strlit("screenshots");
            reveal_strlit("similar");
            reveal_strlit("large_files");
            reveal_strlit("unorganized");
        }
        if str_eq(s, "duplicates") {
            Some(ModuleType::Duplicates)
        } else if str_eq(s, "screenshots") {
            Some(ModuleType::Screenshots)
        } else if str_eq(s, "similar") {
            Some(ModuleType::Similar)
        } else if str_eq(s, "large_files") {
            Some(ModuleType::LargeFiles)
        } else if str_eq(s, "unorganized") {
            Some(ModuleType::Unorganized)
        } else {
            None
        }
    }

    /// Human-readable name of the module.
    pub fn display_name(&self) -> (r: &'static str)
        ensures
            *self == ModuleType::Duplicates ==> r@ == "Duplicates"@,
            *self == ModuleType::Screenshots ==> r@ == "Screenshots"@,
            *self == ModuleType::Similar ==> r@ == "Similar Photos"@,
            *self == ModuleType::LargeFiles ==> r@ == "Large Files"@,
            *self == ModuleType::Unorganized ==> r@ == "Unorganized"@,
    {
        match self {
            ModuleType::Duplicates => "Duplicates",
            ModuleType::Screenshots => "Screenshots",
            ModuleType::Similar => "Similar Photos",
            ModuleType::LargeFiles => "Large Files",
            ModuleType::Unorganized => "Unorganized",
        }
    }
}

/// Outcome of a recorded scan.
#[derive(Debug, Clone, PartialEq, Eq)]
pub enum ScanStatus {
    Completed,
    Cancelled,
    Error(String),
}

impl ScanStatus {
    /// Canonical storage name of the status.
    pub fn as_str(&self) -> (r: &'static str)
        ensures
            *self == ScanStatus::Completed ==> r@ == "completed"@,
            *self == ScanStatus::Cancelled ==> r@ == "cancelled"@,
            self is Error ==> r@ == "error"@,
    {
        match self {
            ScanStatus::Completed => "completed",
            ScanStatus::Cancelled => "cancelled",
            ScanStatus::Error(_) => "error",
        }
    }

    /// Decode a storage name, taking the message for error statuses:
    /// unknown names decode to an error naming the unknown status.
    pub fn from_str(s: &str, error_msg: Option<&str>) -> (r: ScanStatus)
        ensures
            ({
                if s@ == "completed"@ {
                    r == ScanStatus::Completed
                } else if s@ == "cancelled"@ {
                    r == ScanStatus::Cancelled
                } else if s@ == "error"@ {
                    match r {
                        ScanStatus::Error(m) => m@ == match error_msg {
                            Some(em) => em@,
                            None => "Unknown error"@,
                        },
                        _ => false,
                    }
                } else {
                    match r {
                        ScanStatus::Error(m) => m@ == "Unknown status: "@ + s@,
                        _ => false,
                    }
                }
            }),
    {
        proof {
            reveal_strlit("completed");
            reveal_strlit("cancelled");
            reveal_strlit("error");
        }
        if str_eq(s, "completed") {
            ScanStatus::Completed
        } else if str_eq(s, "cancelled") {
            ScanStatus::Cancelled
        } else if str_eq(s, "error") {
            match error_msg {
                Some(m) => ScanStatus::Error(String::from_str(m)),
                None => ScanStatus::Error(String::from_str("Unknown error")),
            }
        } else {
            let mut msg = String::new();
            msg.append("Unknown status: ");
            msg.append(s);
            ScanStatus::Error(msg)
        }
    }
}

/// One recorded scan.
#[derive(Debug, Clone)]
pub struct ScanHistoryEntry {
    /// Identifier of the entry.
    pub id: String,
    /// Which module ran.
    pub module_type: ModuleType,
    /// When the scan ran, seconds since the epoch.
    pub scan_time: i64,
    /// The scanned roots.
    pub paths: Vec<String>,
    /// Serialised settings of the run.
    pub settings: String,
    /// Total files examined.
    pub total_files: usize,
    /// Groups found, for grouping modules.
    pub groups_found: Option<usize>,
    /// Duplicates found, for grouping modules.
    pub duplicates_found: Option<usize>,
    /// Potential savings in bytes.
    pub potential_savings: Option<u64>,
    /// Run duration in milliseconds.
    pub duration_ms: u64,
    /// Outcome of the scan.
    pub status: ScanStatus,
}

/// Result of listing the scan history.
#[derive(Debug, Clone)]
pub struct ScanHistoryResult {
    /// The listed entries.
    pub entries: Vec<ScanHistoryEntry>,
    /// Total number of recorded entries.
    pub total_count: usize,
}

} // verus!
