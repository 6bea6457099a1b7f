//! Trusted access to the `tar` crate, over whichever decompression
//! codec the format calls for. A tar stream is forward-only: each
//! handle supports exactly one pass, so every operation here consumes
//! its backend.

use vstd::prelude::*;

use crate::entry::{kind_of, Entry};
use crate::result::Error;

verus! {

/// A one-pass reader over a tar container, possibly behind a
/// decompression codec. Opaque to verification; the entries the
/// handle would yield are named by [`tar_entries_of`].
#[verifier::external_body]
pub struct TarBackend {
    inner: tar::Archive<Box<dyn std::io::Read>>,
}

/// The entries that the pass over `b` yields, in the order the tar
/// stream holds them, converted as [`tar_list`] converts them.
pub uninterp spec fn tar_entries_of(b: TarBackend) -> Seq<Entry>;

/// Relies on tar::Archive::new: a backend over a plain tar file.
#[verifier::external_body]
pub(crate) fn tar_from_file(f: fs_err::File) -> (r: TarBackend) {
    let reader: Box<dyn std::io::Read> = Box::new(f);
    TarBackend { inner: tar::Archive::new(reader) }
}

/// Relies on flate2::read::GzDecoder::new and tar::Archive::new: a
/// backend over a gzip-compressed tar file.
#[verifier::external_body]
pub(crate) fn tar_from_gz(f: fs_err::File) -> (r: TarBackend) {
    let reader: Box<dyn std::io::Read> = Box::new(flate2::read::GzDecoder::new(f));
    TarBackend { inner: tar::Archive::new(reader) }
}

/// Relies on bzip2::read::BzDecoder::new and tar::Archive::new: a
/// backend over a bzip2-compressed tar file.
#[verifier::external_body]
pub(crate) fn tar_from_bz2(f: fs_err::File) -> (r: TarBackend) {
    let reader: Box<dyn std::io::Read> = Box::new(bzip2::read::BzDecoder::new(f));
    TarBackend { inner: tar::Archive::new(reader) }
}

/// Relies on xz2::read::XzDecoder::new and tar::Archive::new: a
/// backend over an xz-compressed tar file.
#[verifier::external_body]
pub(crate) fn tar_from_xz(f: fs_err::File) -> (r: TarBackend) {
    let reader: Box<dyn std::io::Read> = Box::new(xz2::read::XzDecoder::new(f));
    TarBackend { inner: tar::Archive::new(reader) }
}

/// Relies on zstd::stream::Decoder::new and tar::Archive::new: a
/// backend over a zstd-compressed tar file.
#[verifier::external_body]
pub(crate) fn tar_from_zstd(f: fs_err::File) -> (r: Result<TarBackend, Error>)
    ensures
        r matches Err(e) ==> e is Io,
{
    let dec = zstd::stream::Decoder::new(f).map_err(|e| Error::Io(e.to_string()))?;
    let reader: Box<dyn std::io::Read> = Box::new(dec);
    Ok(TarBackend { inner: tar::Archive::new(reader) })
}

/// Relies on tar::Archive::unpack: extracts every entry of the pass
/// into `dest`, creating directories as needed and restoring recorded
/// permission bits.
#[verifier::external_body]
pub(crate) fn tar_unpack_all(b: TarBackend, dest: &str) -> (r: Result<(), Error>)
    ensures
        r matches Err(e) ==> e is Io,
{
    let mut a = b.inner;
    a.unpack(std::path::Path::new(dest)).map_err(|e| Error::Io(e.to_string()))
}

/// Relies on tar::Archive::entries and the accessors of tar::Entry:
/// drains the pass, converting each entry's path, size and type. The
/// entries read before any error are exactly a front part of what the
/// pass holds, each indexed by its position.
#[verifier::external_body]
pub(crate) fn tar_list(b: TarBackend) -> (r: (Vec<Entry>, Option<Error>))
    ensures
        r.0@.len() <= tar_entries_of(b).len(),
        r.0@ == tar_entries_of(b).take(r.0@.len() as int),
        r.1 is None ==> r.0@ == tar_entries_of(b),
        forall|i: int| 0 <= i < r.0@.len() ==> r.0@[i]@.index == i,
        r.1 matches Some(e) ==> e is Io,
{
    let mut a = b.inner;
    let it = match a.entries() {
        Ok(it) => it,
        Err(e) => return (vec![], Some(Error::Io(e.to_string()))),
    };
    let mut out: Vec<Entry> = vec![];
    for (index, ent) in it.enumerate() {
        match ent.and_then(|e| Ok((e.path()?.to_string_lossy().into_owned(), e.size(), e.header().entry_type()))) {
            Ok((path, size, t)) => out.push(Entry { path, size, index, entry_type: kind_of(t.is_dir(), t.is_file()) }),
            Err(e) => return (out, Some(Error::Io(e.to_string()))),
        }
    }
    (out, None)
}

/// Relies on Iterator::nth over tar::Archive::entries and on
/// tar::Entry::unpack: extracts the entry at position `n` of the pass
/// to the exact path `dest`, restoring recorded permission bits.
/// Returns `Ok(false)` exactly when the pass holds no position `n`.
#[verifier::external_body]
pub(crate) fn tar_unpack_nth(b: TarBackend, n: usize, dest: &str) -> (r: Result<bool, Error>)
    ensures
        r matches Ok(found) ==> (found || n >= tar_entries_of(b).len()),
        r matches Err(e) ==> e is Io,
{
    let mut a = b.inner;
    let mut it = match a.entries() {
        Ok(it) => it,
        Err(e) => return Err(Error::Io(e.to_string())),
    };
    match it.nth(n) {
        Some(Ok(mut ent)) => {
            ent.unpack(std::path::Path::new(dest)).map_err(|e| Error::Io(e.to_string()))?;
            Ok(true)
        },
        Some(Err(e)) => Err(Error::Io(e.to_string())),
        None => Ok(false),
    }
}

} // verus!
