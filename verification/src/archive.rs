//! The archive façade: owns a storage location and an inferred
//! format, and runs every operation over a backend freshly opened
//! from the byte source. Several codec layers cannot seek backward,
//! so a second pass is always obtained by reopening the source and
//! rebuilding the backend, never by rewinding it.

use vstd::pervasive::unreached;
use vstd::prelude::*;
use vstd::string::*;

use crate::entry::{Entries, Entry, EntryType, FindEntries};
use crate::format::{spec_infer, Format};
use crate::fsio::{create_dir_all, create_file, create_parent_dirs, open_file};
use crate::result::Error;
use crate::tar::{
    tar_from_bz2, tar_from_file, tar_from_gz, tar_from_xz, tar_from_zstd, tar_list,
    tar_unpack_all, tar_unpack_nth, TarBackend,
};
use crate::zip::{zip_copy_entry, zip_error, zip_extract_all, zip_from_file, zip_list};

verus! {

/// Where the archive's bytes live: at a fixed path on disk, or in a
/// file inside a temporary directory whose lifetime this value owns.
pub(crate) enum Storage {
    /// A file at a fixed path on disk
    FileOnDisk { path: String },
    /// A file inside a temporary directory; the directory is removed
    /// when this value is dropped
    FileInTempDirectory { temp: tempfile::TempDir, path: String },
}

impl Storage {
    /// The path the archive's bytes are read from; it never changes
    /// over the storage's lifetime.
    pub(crate) open spec fn spec_path(&self) -> Seq<char> {
        match self {
            Storage::FileOnDisk { path } => path@,
            Storage::FileInTempDirectory { path, .. } => path@,
        }
    }

    /// The stored path, as a string.
    pub(crate) fn as_path(&self) -> (r: &str)
        ensures
            r@ == self.spec_path(),
    {
        match self {
            Storage::FileOnDisk { path } => path.as_str(),
            Storage::FileInTempDirectory { path, .. } => path.as_str(),
        }
    }
}

/// `dir` and `name`, joined with a single `/`.
pub open spec fn spec_join(dir: Seq<char>, name: Seq<char>) -> Seq<char> {
    dir + seq!['/'] + name
}

/// Joins a directory path and a relative path with a `/`.
pub(crate) fn join_path(dir: &str, name: &str) -> (r: String)
    ensures
        r@ == spec_join(dir@, name@),
{
    let mut s = dir.to_owned();
    s.append("/");
    s.append(name);
    proof {
        reveal_strlit("/");
        assert(s@ =~= dir@ + seq!['/'] + name@);
    }
    s
}

/// The display paths of the given entries, in order.
pub(crate) fn paths_of(items: &Vec<Entry>) -> (r: Vec<String>)
    ensures
        r@.len() == items@.len(),
        forall|i: int| 0 <= i < items@.len() ==> r@[i]@ == (#[trigger] items@[i])@.path,
{
    let mut r: Vec<String> = Vec::new();
    let mut i: usize = 0;
    while i < items.len()
        invariant
            i <= items@.len(),
            r@.len() == i,
            forall|j: int| 0 <= j < i ==> r@[j]@ == (#[trigger] items@[j])@.path,
        decreases items@.len() - i,
    {
        r.push(items[i].path.clone());
        i += 1;
    }
    r
}

/// The position of the first entry whose path equals `target`, if
/// any.
pub(crate) fn find_by_path(items: &Vec<Entry>, target: &str) -> (r: Option<usize>)
    ensures
        match r {
            Some(i) => i < items@.len() && items@[i as int]@.path == target@ && forall|j: int|
                0 <= j < i ==> (#[trigger] items@[j])@.path != target@,
            None => forall|j: int|
                0 <= j < items@.len() ==> (#[trigger] items@[j])@.path != target@,
        },
{
    let t: String = target.to_owned();
    let mut i: usize = 0;
    while i < items.len()
        invariant
            t@ == target@,
            i <= items@.len(),
            forall|j: int| 0 <= j < i ==> (#[trigger] items@[j])@.path != target@,
        decreases items@.len() - i,
    {
        if items[i].path == t {
            return Some(i);
        }
        i += 1;
    }
    None
}

/// True when some entry of `items` has exactly the path `target`.
pub open spec fn has_path_match(items: Seq<Entry>, target: Seq<char>) -> bool {
    exists|j: int| 0 <= j < items.len() && (#[trigger] items[j])@.path == target
}

/// `i` is the position of the first entry of `items` whose path is
/// exactly `target`.
pub open spec fn is_first_match(items: Seq<Entry>, target: Seq<char>, i: int) -> bool {
    &&& 0 <= i < items.len()
    &&& items[i]@.path == target
    &&& forall|j: int| 0 <= j < i ==> (#[trigger] items[j])@.path != target
}

/// The outcome of looking a name up in one finished pass: the first
/// entry whose path equals `target` exactly; failing that, the error
/// that cut the pass short; failing that, the name has no match.
pub(crate) fn select_by_path(items: &Vec<Entry>, err: Option<Error>, target: &str) -> (r: Result<
    Entry,
    Error,
>)
    ensures
        has_path_match(items@, target@) ==> (r matches Ok(e) && exists|i: int|
            #[trigger] is_first_match(items@, target@, i) && e@ == items@[i]@),
        !has_path_match(items@, target@) ==> match err {
            Some(e0) => r == Err::<Entry, Error>(e0),
            None => r == Err::<Entry, Error>(Error::FileNotFound),
        },
{
    match find_by_path(items, target) {
        Some(i) => {
            proof {
                assert(is_first_match(items@, target@, i as int));
            }
            Ok(items[i].duplicate())
        },
        None => match err {
            Some(e) => Err(e),
            None => Err(Error::FileNotFound),
        },
    }
}

/// The outcome of the listing convenience over one finished pass: the
/// pass's entry paths in order when the pass ran to its end, and
/// otherwise the error that cut the pass short.
pub(crate) fn render_paths(items: &Vec<Entry>, err: Option<Error>) -> (r: Result<
    Vec<String>,
    Error,
>)
    ensures
        match err {
            Some(e0) => r == Err::<Vec<String>, Error>(e0),
            None => (r matches Ok(v) && v@.len() == items@.len() && forall|i: int|
                0 <= i < items@.len() ==> v@[i]@ == (#[trigger] items@[i])@.path),
        },
{
    match err {
        Some(e) => Err(e),
        None => Ok(paths_of(items)),
    }
}

/// A backend bound to one fresh pass over the byte source.
pub(crate) enum Backend {
    /// Random access over a zip archive
    Zip(zip::ZipArchive<fs_err::File>),
    /// One forward pass over a tar stream
    Tar(TarBackend),
}

/// A collection of files, possibly compressed (e.g. `tar`, `tar.gz`,
/// `zip`, ...).
///
/// Supported formats: `zip`, `tar`, `tgz`/`tar.gz`, `tar.xz`,
/// `tar.bz2`, and `tar.zstd`/`tar.zst`.
pub struct Archive {
    format: Format,
    storage: Storage,
}

impl Archive {
    /// The format inferred when the archive was opened.
    pub closed spec fn spec_format(&self) -> Format {
        self.format
    }

    /// The path of the archive's byte source.
    pub closed spec fn spec_path(&self) -> Seq<char> {
        self.storage.spec_path()
    }

    /// Wraps a storage location, inferring the format from its path
    /// and refusing any format that is not an archive.
    pub(crate) fn new(storage: Storage) -> (r: Result<Archive, Error>)
        ensures
            r is Ok <==> spec_infer(storage.spec_path()).spec_is_archive(),
            r matches Ok(a) ==> a.spec_format() == spec_infer(storage.spec_path())
                && a.spec_path() == storage.spec_path(),
            r matches Err(e) ==> e is UnsupportedArchive,
    {
        let format = Format::infer_from_file_extension(storage.as_path());
        if !format.is_archive() {
            return Err(
                Error::UnsupportedArchive(
                    "unsupported format, did you enable the proper feature?".to_owned(),
                ),
            );
        }
        Ok(Archive { format, storage })
    }

    /// Opens an archive stored on the filesystem. The format is
    /// inferred from the file extension; a name that does not resolve
    /// to an archive-shaped format is refused. The byte source is not
    /// touched yet.
    pub fn open(path: &str) -> (r: Result<Archive, Error>)
        ensures
            r is Ok <==> spec_infer(path@).spec_is_archive(),
            r matches Ok(a) ==> a.spec_format() == spec_infer(path@) && a.spec_path() == path@,
            r matches Err(e) ==> e is UnsupportedArchive,
    {
        let storage = Storage::FileOnDisk { path: path.to_owned() };
        Archive::new(storage)
    }

    /// Downloads an archive to a temporary directory and opens it: a
    /// convenience wrapper around the
    /// [`Downloader`](crate::download::Downloader), which offers more
    /// choices.
    pub fn download(url: &str) -> (r: Result<Archive, Error>)
        ensures
            r matches Ok(a) ==> a.spec_format().spec_is_archive(),
            r matches Err(e) ==> (e is InvalidRequest || e is InvalidUrl || e is Io
                || e is UnsupportedArchive),
    {
        crate::download::Downloader::new().url(url).to_temp().download()
    }

    /// Returns the format of the archive.
    pub fn format(&self) -> (r: &Format)
        ensures
            *r == self.spec_format(),
    {
        &self.format
    }

    /// Returns the path of the archive.
    pub fn path(&self) -> (r: &str)
        ensures
            r@ == self.spec_path(),
    {
        self.storage.as_path()
    }

    /// Opens a brand-new backend over a freshly reopened byte source.
    fn open_backend(&self) -> (r: Result<Backend, Error>)
        ensures
            r matches Ok(b) ==> ((b is Zip) <==> (self.spec_format() is Zip)),
            !self.spec_format().spec_is_archive() ==> (r matches Err(e) && e is UnsupportedArchive),
            r matches Err(e) ==> (e is Io || e is InvalidArchive || e is UnsupportedArchive
                || e is FileNotFound),
    {
        let path = self.storage.as_path();
        match &self.format {
            Format::Zip => {
                let f = open_file(path)?;
                match zip_from_file(f) {
                    Ok(a) => Ok(Backend::Zip(a)),
                    Err(e) => Err(zip_error(e)),
                }
            },
            Format::Tar => Ok(Backend::Tar(tar_from_file(open_file(path)?))),
            Format::TarGzip => Ok(Backend::Tar(tar_from_gz(open_file(path)?))),
            Format::TarBzip2 => Ok(Backend::Tar(tar_from_bz2(open_file(path)?))),
            Format::TarXz2 => Ok(Backend::Tar(tar_from_xz(open_file(path)?))),
            Format::TarZstd => Ok(Backend::Tar(tar_from_zstd(open_file(path)?)?)),
            _ => Err(
                Error::UnsupportedArchive(
                    "unsupported format, did you enable the proper feature?".to_owned(),
                ),
            ),
        }
    }

    /// One fresh pass over the archive: the entries read in order, and
    /// the error that cut the pass short, if one did. Each entry is
    /// indexed by its position in the pass.
    fn read_pass(&self) -> (r: Result<(Vec<Entry>, Option<Error>), Error>)
        ensures
            r matches Ok(p) ==> forall|j: int|
                0 <= j < p.0@.len() ==> (#[trigger] p.0@[j])@.index == j,
            r matches Ok(p) ==> (p.1 matches Some(e) ==> (e is Io || e is InvalidArchive
                || e is UnsupportedArchive || e is FileNotFound)),
            r matches Err(e) ==> (e is Io || e is InvalidArchive || e is UnsupportedArchive
                || e is FileNotFound),
    {
        match self.open_backend()? {
            Backend::Zip(mut a) => Ok(zip_list(&mut a)),
            Backend::Tar(b) => Ok(tar_list(b)),
        }
    }

    /// Returns the list of entry paths stored within the archive, from
    /// one full fresh pass: each entry's path in the pass's own order
    /// when it runs to its end, and the error that cut it short
    /// otherwise. The whole list is collected in memory;
    /// [`entries_iter`](Self::entries_iter) hands the same pass out
    /// entry by entry, with each entry's metadata.
    pub fn entries(&mut self) -> (r: Result<Vec<String>, Error>)
        ensures
            *final(self) == *old(self),
            r matches Err(e) ==> (e is Io || e is InvalidArchive || e is UnsupportedArchive
                || e is FileNotFound),
    {
        let (items, err) = self.read_pass()?;
        render_paths(&items, err)
    }

    /// Obtains a fresh pass over the archive and returns its entries
    /// as a forward-only sequence. Any previous pass is independent:
    /// each call reopens the byte source from the start.
    pub fn entries_iter(&mut self) -> (r: Result<Entries, Error>)
        ensures
            *final(self) == *old(self),
            r matches Ok(it) ==> it.pos == 0 && forall|j: int|
                0 <= j < it.items@.len() ==> (#[trigger] it.items@[j])@.index == j,
            r matches Ok(it) ==> (it.err matches Some(e) ==> (e is Io || e is InvalidArchive || e is UnsupportedArchive
                || e is FileNotFound)),
            r matches Err(e) ==> (e is Io || e is InvalidArchive || e is UnsupportedArchive
                || e is FileNotFound),
    {
        let (items, err) = self.read_pass()?;
        Ok(Entries { items, err, pos: 0 })
    }

    /// Unpacks the whole contents of the archive into `dest` from one
    /// fresh pass, creating directories as needed.
    pub fn unpack(&mut self, dest: &str) -> (r: Result<(), Error>)
        ensures
            *final(self) == *old(self),
            r matches Err(e) ==> (e is Io || e is InvalidArchive || e is UnsupportedArchive
                || e is FileNotFound),
    {
        match self.open_backend()? {
            Backend::Zip(mut a) => match zip_extract_all(&mut a, dest) {
                Ok(_) => Ok(()),
                Err(e) => Err(zip_error(e)),
            },
            Backend::Tar(b) => tar_unpack_all(b, dest),
        }
    }

    /// Returns the first entry of a fresh pass whose path equals
    /// `entry_path` exactly; when the pass holds none, the error that
    /// cut the pass short if there was one, and `FileNotFound`
    /// otherwise — exactly as [`select_by_path`] decides it.
    pub fn entry_by_name(&mut self, entry_path: &str) -> (r: Result<Entry, Error>)
        ensures
            *final(self) == *old(self),
            r matches Ok(e) ==> e@.path == entry_path@,
            r matches Err(e) ==> (e is Io || e is InvalidArchive || e is UnsupportedArchive
                || e is FileNotFound),
    {
        let (items, err) = self.read_pass()?;
        select_by_path(&items, err, entry_path)
    }

    /// Returns the entries of a fresh pass that match `predicate`, as
    /// a lazy, forward-only sequence.
    pub fn find<P: Fn(&Entry) -> bool>(&mut self, predicate: P) -> (r: Result<
        FindEntries<P>,
        Error,
    >)
        ensures
            *final(self) == *old(self),
            r matches Ok(f) ==> f.inner.pos == 0 && f.predicate == predicate,
            r matches Ok(f) ==> (f.inner.err matches Some(e) ==> (e is Io || e is InvalidArchive || e is UnsupportedArchive
                || e is FileNotFound)),
            r matches Err(e) ==> (e is Io || e is InvalidArchive || e is UnsupportedArchive
                || e is FileNotFound),
    {
        let inner = self.entries_iter()?;
        Ok(FindEntries { predicate, inner })
    }

    /// Extracts one previously-enumerated entry into `dest`. A
    /// directory entry is created as a directory; a file entry is
    /// extracted to its own path under `dest`, with parent directories
    /// created as needed and recorded mode bits restored. An entry
    /// that is neither is decided without touching the byte source:
    /// a zip archive holds no such entries, so the call is a no-op,
    /// while a tar pass reports the entry as not found. The backend is
    /// rebuilt from the byte source, so the entry may lie anywhere in
    /// the archive.
    pub fn unpack_entry(&mut self, entry: &Entry, dest: &str) -> (r: Result<(), Error>)
        ensures
            *final(self) == *old(self),
            entry@.entry_type == EntryType::Other ==> ((old(self).spec_format() is Zip ==> r is Ok)
                && (!(old(self).spec_format() is Zip) ==> r == Err::<(), Error>(
                Error::FileNotFound,
            ))),
            entry@.entry_type == EntryType::Directory ==> (r is Ok || (r matches Err(e)
                && e is Io)),
            r matches Err(e) ==> (e is Io || e is InvalidArchive || e is UnsupportedArchive
                || e is FileNotFound),
    {
        let outpath = join_path(dest, entry.path());
        if entry.is_dir() {
            return create_dir_all(outpath.as_str());
        }
        if !entry.is_file() {
            // Mirrors the per-backend handling of entries that are
            // neither files nor directories: zip knows no such
            // entries; a tar pass reports the entry as not found.
            return match &self.format {
                Format::Zip => Ok(()),
                _ => Err(Error::FileNotFound),
            };
        }
        create_parent_dirs(outpath.as_str())?;
        match self.open_backend()? {
            Backend::Zip(mut a) => {
                let mut f = create_file(outpath.as_str())?;
                match zip_copy_entry(&mut a, entry.index, &mut f) {
                    Ok(_) => Ok(()),
                    Err(e) => Err(zip_error(e)),
                }
            },
            Backend::Tar(b) => {
                // A tar stream has no random access: scan a fresh pass
                // for the entry's path, then extract that position
                // from a second fresh pass.
                let (items, err) = tar_list(b);
                match find_by_path(&items, entry.path()) {
                    Some(i) => match self.open_backend()? {
                        Backend::Tar(b2) => match tar_unpack_nth(b2, i, outpath.as_str()) {
                            Ok(true) => Ok(()),
                            Ok(false) => Err(Error::FileNotFound),
                            Err(e) => Err(e),
                        },
                        Backend::Zip(_) => {
                            proof {
                                assert(false);
                            }
                            unreached()
                        },
                    },
                    None => match err {
                        Some(e) => Err(e),
                        None => Err(Error::FileNotFound),
                    },
                }
            },
        }
    }
}

} // verus!
