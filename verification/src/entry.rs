//! The entry model: one item of an archive, and sequences of such
//! items produced by a single pass over a backend.

use vstd::prelude::*;

use crate::result::Error;

verus! {

/// The type of an entry within an archive.
#[derive(Debug, PartialEq, Eq, Clone, Copy, Structural)]
pub enum EntryType {
    /// The entry is a directory
    Directory,
    /// The entry is a file
    File,
    /// The entry is neither a directory nor a regular file
    Other,
}

/// A descriptor of one entry in an archive: its archive-internal path,
/// its size in bytes, its type, and its position in the pass that
/// produced it.
#[derive(Debug, Clone)]
pub struct Entry {
    /// The archive-internal path of the entry
    pub path: String,
    /// The size of the entry, in bytes
    pub size: u64,
    /// Whether the entry is a file, a directory, or something else
    pub entry_type: EntryType,
    /// The position of the entry in the pass that produced it
    pub index: usize,
}

/// The mathematical value of an [`Entry`].
pub ghost struct EntryV {
    /// The characters of the path
    pub path: Seq<char>,
    /// The size in bytes
    pub size: u64,
    /// The entry's type
    pub entry_type: EntryType,
    /// The position in the producing pass
    pub index: int,
}

impl View for Entry {
    type V = EntryV;

    open spec fn view(&self) -> EntryV {
        EntryV {
            path: self.path@,
            size: self.size,
            entry_type: self.entry_type,
            index: self.index as int,
        }
    }
}

impl Entry {
    /// Returns the path of the entry.
    pub fn path(&self) -> (r: &str)
        ensures
            r@ == self@.path,
    {
        self.path.as_str()
    }

    /// Returns the size of the entry.
    pub fn size(&self) -> (r: u64)
        ensures
            r == self@.size,
    {
        self.size
    }

    /// Returns `true` if the entry corresponds to a directory.
    pub fn is_dir(&self) -> (r: bool)
        ensures
            r == (self@.entry_type == EntryType::Directory),
    {
        self.entry_type == EntryType::Directory
    }

    /// Returns `true` if the entry corresponds to a file.
    pub fn is_file(&self) -> (r: bool)
        ensures
            r == (self@.entry_type == EntryType::File),
    {
        self.entry_type == EntryType::File
    }

    /// An exact copy of the entry.
    pub fn duplicate(&self) -> (r: Entry)
        ensures
            r@ == self@,
    {
        Entry {
            path: self.path.clone(),
            size: self.size,
            entry_type: self.entry_type,
            index: self.index,
        }
    }
}

/// The entry type encoded by the two flags a container exposes:
/// a directory flag wins, then a regular-file flag, and anything
/// else is neither.
pub(crate) fn kind_of(is_dir: bool, is_file: bool) -> (r: EntryType)
    ensures
        is_dir ==> r == EntryType::Directory,
        (!is_dir && is_file) ==> r == EntryType::File,
        (!is_dir && !is_file) ==> r == EntryType::Other,
{
    if is_dir {
        EntryType::Directory
    } else if is_file {
        EntryType::File
    } else {
        EntryType::Other
    }
}

/// One pass over the entries of an archive. The items were read in
/// order from a fresh backend; when the pass ended early, the error
/// that stopped it follows the items.
pub struct Entries {
    /// The entries the pass yielded, in the order the backend yielded
    /// them
    pub items: Vec<Entry>,
    /// The error that cut the pass short, if one did
    pub err: Option<Error>,
    /// How many outcomes have been handed out so far
    pub pos: usize,
}

impl Entries {
    /// The next outcome of the pass: each entry in order, then the
    /// terminating error if there is one, then nothing.
    pub fn next(&mut self) -> (r: Option<Result<Entry, Error>>)
        ensures
            final(self).items == old(self).items,
            old(self).pos < old(self).items.len() ==> {
                &&& final(self).pos == old(self).pos + 1
                &&& final(self).err == old(self).err
                &&& match r {
                    Some(Result::<Entry, Error>::Ok(e)) => e@ == old(self).items[
                        old(self).pos as int
                    ]@,
                    _ => false,
                }
            },
            old(self).pos >= old(self).items.len() ==> {
                &&& final(self).pos == old(self).pos
                &&& final(self).err is None
                &&& match old(self).err {
                    Some(e) => r == Some(Result::<Entry, Error>::Err(e)),
                    None => r is None,
                }
            },
    {
        if self.pos < self.items.len() {
            let e = self.items[self.pos].duplicate();
            self.pos = self.pos + 1;
            Some(Ok(e))
        } else {
            match self.err.take() {
                Some(e) => Some(Err(e)),
                None => None,
            }
        }
    }
}

/// A filtered view of a pass: yields only the entries matching a
/// boolean predicate, passing any error through at once.
pub struct FindEntries<P: Fn(&Entry) -> bool> {
    /// The predicate that selects entries
    pub predicate: P,
    /// The underlying pass
    pub inner: Entries,
}

impl<P: Fn(&Entry) -> bool> FindEntries<P> {
    /// The next matching outcome: skips entries the predicate refuses,
    /// hands any error on immediately, and ends when the pass does.
    pub fn next(&mut self) -> (r: Option<Result<Entry, Error>>)
        requires
            forall|e: &Entry| #[trigger] call_requires(old(self).predicate, (e,)),
        ensures
            final(self).predicate == old(self).predicate,
            final(self).inner.items == old(self).inner.items,
            old(self).inner.pos <= final(self).inner.pos,
            match r {
                Some(Result::<Entry, Error>::Ok(e)) => {
                    let jm = final(self).inner.pos - 1;
                    &&& old(self).inner.pos <= jm < old(self).inner.items.len()
                    &&& e@ == old(self).inner.items[jm]@
                    &&& call_ensures(old(self).predicate, (&old(self).inner.items[jm],), true)
                    &&& forall|j: int|
                        old(self).inner.pos <= j < jm ==> call_ensures(
                            old(self).predicate,
                            (&old(self).inner.items[j],),
                            false,
                        )
                    &&& final(self).inner.err == old(self).inner.err
                },
                Some(Result::<Entry, Error>::Err(e2)) => {
                    &&& old(self).inner.err == Some(e2)
                    &&& final(self).inner.err is None
                    &&& forall|j: int|
                        old(self).inner.pos <= j < old(self).inner.items.len()
                            ==> call_ensures(
                            old(self).predicate,
                            (&old(self).inner.items[j],),
                            false,
                        )
                },
                None => {
                    &&& old(self).inner.err is None
                    &&& final(self).inner.err is None
                    &&& forall|j: int|
                        old(self).inner.pos <= j < old(self).inner.items.len()
                            ==> call_ensures(
                            old(self).predicate,
                            (&old(self).inner.items[j],),
                            false,
                        )
                },
            },
    {
        loop
            invariant
                forall|e: &Entry| #[trigger] call_requires(self.predicate, (e,)),
                self.predicate == old(self).predicate,
                self.inner.items == old(self).inner.items,
                self.inner.err == old(self).inner.err,
                old(self).inner.pos <= self.inner.pos,
                forall|j: int|
                    old(self).inner.pos <= j < self.inner.pos && j < self.inner.items.len()
                        ==> call_ensures(self.predicate, (&self.inner.items[j],), false),
            decreases self.inner.items.len() + 1 - self.inner.pos,
        {
            if self.inner.pos < self.inner.items.len() {
                let j = self.inner.pos;
                let matched = (self.predicate)(&self.inner.items[j]);
                self.inner.pos = j + 1;
                if matched {
                    return Some(Ok(self.inner.items[j].duplicate()));
                }
            } else {
                match self.inner.err.take() {
                    Some(e) => {
                        return Some(Err(e));
                    },
                    None => {
                        return None;
                    },
                }
            }
        }
    }
}

} // verus!
