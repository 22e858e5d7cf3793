//! Configuration, events and errors of the folder watcher. The
//! monitoring itself is platform work the host performs; these types
//! carry its decisions and outcomes.

use vstd::prelude::*;

verus! {

/// Configuration for the folder watcher.
#[derive(Debug, Clone)]
pub struct WatcherConfig {
    /// Debounce window for rapid file changes, in milliseconds.
    pub debounce_millis: u64,
    /// Whether to watch subdirectories recursively.
    pub recursive: bool,
}

impl Default for WatcherConfig {
    /// The default watcher configuration: half a second of debounce,
    /// recursive.
    fn default() -> (r: WatcherConfig)
        ensures
            r.debounce_millis == 500,
            r.recursive,
    {
        WatcherConfig { debounce_millis: 500, recursive: true }
    }
}

/// Events emitted when photos change on disk.
#[derive(Debug, Clone)]
pub enum WatcherEvent {
    /// A new photo was added.
    PhotoAdded(String),
    /// A photo was modified.
    PhotoModified(String),
    /// A photo was removed.
    PhotoRemoved(String),
    /// An error occurred while watching.
    Error(String),
}

/// Errors of the folder watcher.
#[derive(Debug, Clone)]
pub enum WatcherError {
    /// The watcher could not be initialised.
    InitFailed(String),
    /// The path to watch does not exist.
    PathNotFound(String),
    /// A path could not be watched.
    WatchFailed { path: String, reason: String },
    /// A path could not be unwatched.
    UnwatchFailed { path: String, reason: String },
}

impl WatcherError {
    /// The user-facing message.
    pub fn message(&self) -> (r: String)
        ensures
            r@ == match self {
                WatcherError::InitFailed(reason) => "Failed to initialize watcher: "@ + reason@,
                WatcherError::PathNotFound(path) => "Path not found: "@ + path@,
                WatcherError::WatchFailed { path, reason } => "Failed to watch "@ + path@ + ": "@
                    + reason@,
                WatcherError::UnwatchFailed { path, reason } => "Failed to unwatch "@ + path@
                    + ": "@ + reason@,
            },
    {
        match self {
            WatcherError::InitFailed(reason) => {
                let mut s = String::new();
                s.append("Failed to initialize watcher: ");
                s.append(reason.as_str());
                s
            },
            WatcherError::PathNotFound(path) => {
                let mut s = String::new();
                s.append("Path not found: ");
                s.append(path.as_str());
                s
            },
            WatcherError::WatchFailed { path, reason } => {
                let mut s = String::new();
                s.append("Failed to watch ");
                s.append(path.as_str());
                s.append(": ");
                s.append(reason.as_str());
                s
            },
            WatcherError::UnwatchFailed { path, reason } => {
                let mut s = String::new();
                s.append("Failed to unwatch ");
                s.append(path.as_str());
                s.append(": ");
                s.append(reason.as_str());
                s
            },
        }
    }
}

} // verus!
