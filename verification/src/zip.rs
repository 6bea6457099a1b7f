//! Trusted access to the `zip` crate. A zip archive is random-access:
//! one handle supports any number of lookups by position.

use vstd::prelude::*;

use crate::entry::{Entry, EntryType};
use crate::result::Error;

verus! {

#[verifier::external_type_specification]
#[verifier::external_body]
#[verifier::reject_recursive_types(R)]
/// A zip archive read from a seekable byte source.
pub struct ExZipArchive<R>(zip::ZipArchive<R>);

#[verifier::external_type_specification]
#[verifier::external_body]
/// The error type of the `zip` crate.
pub struct ExZipError(zip::result::ZipError);

/// The entries of the archive `a`, in central-directory order,
/// converted as [`zip_entry_at`] converts them.
pub uninterp spec fn zip_entries_of(a: zip::ZipArchive<fs_err::File>) -> Seq<Entry>;

/// Relies on zip::ZipArchive::new: reads the central directory of
/// `f`.
#[verifier::external_body]
pub(crate) fn zip_from_file(f: fs_err::File) -> (r: Result<
    zip::ZipArchive<fs_err::File>,
    zip::result::ZipError,
>) {
    zip::ZipArchive::new(f)
}

/// Relies on zip::ZipArchive::len: how many entries the archive
/// holds.
#[verifier::external_body]
pub(crate) fn zip_len(a: &zip::ZipArchive<fs_err::File>) -> (r: usize)
    ensures
        r == zip_entries_of(*a).len(),
{
    a.len()
}

/// Relies on zip::ZipArchive::by_index and the accessors of
/// zip::read::ZipFile: the entry at position `i`, with its name, size
/// and kind; an entry whose name does not enclose within the archive
/// root is refused as invalid.
#[verifier::external_body]
pub(crate) fn zip_entry_at(a: &mut zip::ZipArchive<fs_err::File>, i: usize) -> (r: Result<
    Entry,
    zip::result::ZipError,
>)
    ensures
        zip_entries_of(*final(a)) == zip_entries_of(*old(a)),
        r matches Ok(e) ==> {
            &&& i < zip_entries_of(*old(a)).len()
            &&& e@ == zip_entries_of(*old(a))[i as int]@
            &&& e@.index == i
        },
{
    let f = a.by_index(i)?;
    let path = match f.enclosed_name() {
        Some(_) => f.name().to_string(),
        None => return Err(zip::result::ZipError::InvalidArchive("invalid filename".into())),
    };
    let entry_type = if f.is_dir() { EntryType::Directory } else { EntryType::File };
    Ok(Entry { path, size: f.size(), entry_type, index: i })
}

/// Relies on zip::ZipArchive::extract: extracts every entry into
/// `dest`, creating directories as needed and restoring recorded
/// permission bits.
#[verifier::external_body]
pub(crate) fn zip_extract_all(a: &mut zip::ZipArchive<fs_err::File>, dest: &str) -> (r: Result<
    (),
    zip::result::ZipError,
>)
    ensures
        zip_entries_of(*final(a)) == zip_entries_of(*old(a)),
{
    a.extract(std::path::Path::new(dest))
}

/// Relies on zip::ZipArchive::by_index, std::io::copy and
/// rustix::fs::fchmod: streams the bytes of the entry at position `i`
/// into the open file `out`, then restores the entry's recorded unix
/// mode bits on it, when the archive recorded any.
#[verifier::external_body]
pub(crate) fn zip_copy_entry(
    a: &mut zip::ZipArchive<fs_err::File>,
    i: usize,
    out: &mut fs_err::File,
) -> (r: Result<u64, zip::result::ZipError>)
    ensures
        zip_entries_of(*final(a)) == zip_entries_of(*old(a)),
{
    let mut f = a.by_index(i)?;
    let n = std::io::copy(&mut f, out).map_err(zip::result::ZipError::Io)?;
    if let Some(m) = f.unix_mode() {
        rustix::fs::fchmod(&*out, rustix::fs::Mode::from_raw_mode(m))
            .map_err(|e| zip::result::ZipError::Io(e.into()))?;
    }
    Ok(n)
}

/// Relies on the variants of zip::result::ZipError: translates each
/// into this crate's error taxonomy, as far as it has a counterpart.
/// Only the four kinds below ever come out of it.
#[verifier::external_body]
pub(crate) fn zip_error(e: zip::result::ZipError) -> (r: Error)
    ensures
        r is Io || r is InvalidArchive || r is UnsupportedArchive || r is FileNotFound,
{
    match e {
        zip::result::ZipError::Io(err) => Error::Io(err.to_string()),
        zip::result::ZipError::InvalidArchive(msg) => Error::InvalidArchive(msg.into_owned()),
        zip::result::ZipError::UnsupportedArchive(msg) => Error::UnsupportedArchive(
            msg.to_string(),
        ),
        zip::result::ZipError::FileNotFound => Error::FileNotFound,
        zip::result::ZipError::InvalidPassword => Error::UnsupportedArchive(
            "archive is password protected".to_string(),
        ),
        zip::result::ZipError::CompressionMethodNotSupported(m) => Error::UnsupportedArchive(
            format!("compression method {m} is not supported"),
        ),
        other => Error::InvalidArchive(other.to_string()),
    }
}

/// One full pass over the entries of a zip archive, by ascending
/// position. The entries read before any error are exactly the front
/// of the archive's entry list.
pub(crate) fn zip_list(a: &mut zip::ZipArchive<fs_err::File>) -> (r: (Vec<Entry>, Option<Error>))
    ensures
        zip_entries_of(*final(a)) == zip_entries_of(*old(a)),
        r.0@.len() <= zip_entries_of(*old(a)).len(),
        forall|j: int|
            0 <= j < r.0@.len() ==> r.0@[j]@ == zip_entries_of(*old(a))[j]@ && r.0@[j]@.index == j,
        r.1 is None ==> r.0@.len() == zip_entries_of(*old(a)).len(),
        r.1 matches Some(e) ==> (e is Io || e is InvalidArchive || e is UnsupportedArchive
            || e is FileNotFound),
{
    let n = zip_len(a);
    let mut out: Vec<Entry> = Vec::new();
    let mut i: usize = 0;
    while i < n
        invariant
            zip_entries_of(*a) == zip_entries_of(*old(a)),
            n == zip_entries_of(*old(a)).len(),
            i <= n,
            out@.len() == i,
            forall|j: int|
                0 <= j < i ==> out@[j]@ == zip_entries_of(*old(a))[j]@ && out@[j]@.index == j,
        decreases n - i,
    {
        match zip_entry_at(a, i) {
            Ok(e) => out.push(e),
            Err(e) => {
                return (out, Some(zip_error(e)));
            },
        }
        i += 1;
    }
    (out, None)
}

} // verus!
