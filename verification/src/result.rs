//! The error taxonomy used throughout this crate.

use vstd::prelude::*;

verus! {

/// Error type used throughout this crate.
#[derive(Debug, Clone)]
pub enum Error {
    /// An error caused by I/O, carrying its message
    Io(String),
    /// This file is not a valid archive
    InvalidArchive(String),
    /// This archive is not supported
    UnsupportedArchive(String),
    /// The requested file could not be found in the archive
    FileNotFound,
    /// The URL to the archive is invalid
    InvalidUrl(String),
    /// An error occurred when downloading an archive
    InvalidRequest(String),
}

} // verus!
