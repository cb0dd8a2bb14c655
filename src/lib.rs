//! Scans files, sniffs their leading bytes for an image format and tallies
//! what was found. This crate holds the decisions of the scan: the header
//! a file is judged by, the statistics, the batching buffer in front of a
//! slow path producer, the law of the shared cursor and the command line.
pub mod batch;
pub mod cursor;
pub mod format;
pub mod mode;
pub mod scan;
pub mod stats;

use vstd::prelude::*;

verus! {

} // verus!
