//! Core engine of a duplicate-photo finder.
//!
//! The library discovers candidate image files, computes perceptual
//! fingerprints for them, compares fingerprints by Hamming distance,
//! unions matching pairs into duplicate groups, and explains each group.
//! A persistent hash cache and an event stream support the pipeline.

pub mod algorithms;
pub mod decode;
pub mod grid;
pub mod resize;
pub mod cache;
pub mod channel;
pub mod comparator;
pub mod error;
pub mod events;
pub mod fusion;
pub mod grouper;
pub mod hashval;
pub mod scanner;
pub mod history;
pub mod watcher;
pub mod similar;
pub mod unorganized;
pub mod hasher;
pub mod large_files;
pub mod lsh;
pub mod pipeline;
pub mod reporter;
pub mod visualization;
pub mod text;

use vstd::prelude::*;

verus! {

} // verus!
