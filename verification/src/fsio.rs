//! Trusted access to the filesystem. All file handling goes through
//! the `fs_err` crate; each item here states only what that crate's
//! documentation promises.

use vstd::prelude::*;

use crate::result::Error;

verus! {

#[verifier::external_type_specification]
#[verifier::external_body]
/// An open file handle, as `fs_err` provides it.
pub struct ExFile(fs_err::File);

#[verifier::external_type_specification]
#[verifier::external_body]
/// A temporary directory that is removed when the value is dropped.
pub struct ExTempDir(tempfile::TempDir);

/// Relies on fs_err::File::open: opens the file at `path` for reading.
#[verifier::external_body]
pub(crate) fn open_file(path: &str) -> (r: Result<fs_err::File, Error>)
    ensures
        r matches Err(e) ==> e is Io,
{
    fs_err::File::open(path).map_err(|e| Error::Io(e.to_string()))
}

/// Relies on fs_err::File::create: creates or truncates the file at
/// `path` for writing.
#[verifier::external_body]
pub(crate) fn create_file(path: &str) -> (r: Result<fs_err::File, Error>)
    ensures
        r matches Err(e) ==> e is Io,
{
    fs_err::File::create(path).map_err(|e| Error::Io(e.to_string()))
}

/// Relies on fs_err::create_dir_all: creates the directory at `path`
/// and any missing parent of it.
#[verifier::external_body]
pub(crate) fn create_dir_all(path: &str) -> (r: Result<(), Error>)
    ensures
        r matches Err(e) ==> e is Io,
{
    fs_err::create_dir_all(path).map_err(|e| Error::Io(e.to_string()))
}

/// Relies on std::path::Path::parent and fs_err::create_dir_all:
/// creates the directory that will hold `path`, with any missing
/// parent of it.
#[verifier::external_body]
pub(crate) fn create_parent_dirs(path: &str) -> (r: Result<(), Error>)
    ensures
        r matches Err(e) ==> e is Io,
{
    match std::path::Path::new(path).parent() {
        Some(p) => fs_err::create_dir_all(p).map_err(|e| Error::Io(e.to_string())),
        None => Ok(()),
    }
}

/// Relies on std::io::Write::write_all: writes the first `n` bytes of
/// `buf` to `f`.
#[verifier::external_body]
pub(crate) fn write_chunk(f: &mut fs_err::File, buf: &Vec<u8>, n: usize) -> (r: Result<
    (),
    Error,
>)
    requires
        n <= buf@.len(),
    ensures
        r matches Err(e) ==> e is Io,
{
    std::io::Write::write_all(f, &buf[..n]).map_err(|e| Error::Io(e.to_string()))
}

/// Relies on tempfile::tempdir: creates a fresh temporary directory,
/// removed when the returned value is dropped.
#[verifier::external_body]
pub(crate) fn temp_dir() -> (r: Result<tempfile::TempDir, Error>)
    ensures
        r matches Err(e) ==> e is Io,
{
    tempfile::tempdir().map_err(|e| Error::Io(e.to_string()))
}

/// Relies on tempfile::TempDir::path: the directory's location, as a
/// string.
#[verifier::external_body]
pub(crate) fn temp_dir_path(t: &tempfile::TempDir) -> (r: String) {
    t.path().to_string_lossy().into_owned()
}

} // verus!
