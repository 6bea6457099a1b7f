//! Inference of an archive's format from its file name.

use vstd::prelude::*;
use vstd::string::*;

verus! {

/// Available archive file formats.
#[derive(Debug, PartialEq, Eq, Clone, Structural)]
pub enum Format {
    /// Compressed zip archive
    Zip,
    /// Uncompressed tar archive
    Tar,
    /// File compressed with Gzip
    Gzip,
    /// File compressed with Zstd
    Zstd,
    /// File compressed with Bzip2
    Bzip2,
    /// File compressed with Xz2
    Xz2,
    /// Tar archive compressed with Gzip
    TarGzip,
    /// Tar archive compressed with Bzip2
    TarBzip2,
    /// Tar archive compressed with Xz2
    TarXz2,
    /// Tar archive compressed with Zstd
    TarZstd,
    /// Unknown archive format
    Unknown,
}

/// ASCII lower-casing of a single character; anything outside `A..=Z`
/// is left unchanged.
pub open spec fn lower_char(c: char) -> char {
    if 65 <= c as u32 && c as u32 <= 90 {
        (((c as u32) + 32) as u8) as char
    } else {
        c
    }
}

/// ASCII lower-casing of a character sequence.
pub open spec fn lower_seq(s: Seq<char>) -> Seq<char> {
    Seq::new(s.len(), |i: int| lower_char(s[i]))
}

/// The final path component of `s`: the characters after the last `/`
/// (all of `s` when it holds no `/`, empty when `s` ends in `/`).
pub open spec fn file_part(s: Seq<char>) -> Seq<char>
    decreases s.len(),
{
    if s.len() == 0 {
        s
    } else if s.last() == '/' {
        Seq::empty()
    } else {
        file_part(s.drop_last()).push(s.last())
    }
}

/// Splits a file name at its last dot into a stem and an extension.
/// There is no split when the name holds no dot past its first
/// character: a lone leading dot marks a hidden file, not an extension.
pub open spec fn dot_split(name: Seq<char>) -> Option<(Seq<char>, Seq<char>)>
    decreases name.len(),
{
    if name.len() <= 1 {
        None
    } else if name.last() == '.' {
        Some((name.drop_last(), Seq::empty()))
    } else {
        match dot_split(name.drop_last()) {
            Some(p) => Some((p.0, p.1.push(name.last()))),
            None => None,
        }
    }
}

/// True when the file name `name` has extension `ext`, compared after
/// ASCII lower-casing (`ext` is given already in lower case).
pub open spec fn has_ext(name: Seq<char>, ext: Seq<char>) -> bool {
    match dot_split(name) {
        Some(p) => lower_seq(p.1) == ext,
        None => false,
    }
}

/// True when the file name `name` ends in the two extensions
/// `.inner.outer` (for example `.tar.gz`), compared case-insensitively.
pub open spec fn has_double_ext(name: Seq<char>, inner: Seq<char>, outer: Seq<char>) -> bool {
    match dot_split(name) {
        Some(p) => lower_seq(p.1) == outer && has_ext(p.0, inner),
        None => false,
    }
}

/// The format inferred from a path, by its final one or two
/// dot-separated suffixes, case-insensitively.
pub open spec fn spec_infer(path: Seq<char>) -> Format {
    let name = file_part(path);
    if has_ext(name, "zip"@) {
        Format::Zip
    } else if has_ext(name, "tar"@) {
        Format::Tar
    } else if has_ext(name, "tgz"@) || has_double_ext(name, "tar"@, "gz"@) {
        Format::TarGzip
    } else if has_double_ext(name, "tar"@, "xz"@) {
        Format::TarXz2
    } else if has_double_ext(name, "tar"@, "bz2"@) {
        Format::TarBzip2
    } else if has_double_ext(name, "tar"@, "zstd"@) || has_double_ext(name, "tar"@, "zst"@) {
        Format::TarZstd
    } else if has_ext(name, "gz"@) {
        Format::Gzip
    } else if has_ext(name, "xz"@) {
        Format::Xz2
    } else if has_ext(name, "bz2"@) {
        Format::Bzip2
    } else if has_ext(name, "zstd"@) || has_ext(name, "zst"@) {
        Format::Zstd
    } else {
        Format::Unknown
    }
}

impl Format {
    /// What `is_archive` returns: only the container-bearing formats.
    pub open spec fn spec_is_archive(&self) -> bool {
        match self {
            Format::Zip => true,
            Format::Tar => true,
            Format::TarGzip => true,
            Format::TarBzip2 => true,
            Format::TarXz2 => true,
            Format::TarZstd => true,
            _ => false,
        }
    }

    /// What `is_compressed` returns: everything but plain tar.
    pub open spec fn spec_is_compressed(&self) -> bool {
        !(self is Tar)
    }

    /// Infers the archive format from the file extension of a provided
    /// path.
    pub fn infer_from_file_extension(path: &str) -> (r: Format)
        ensures
            r == spec_infer(path@),
    {
        let v = chars_of(path);
        let start = name_start(&v);
        let n = v.len();
        let ghost name = v@.skip(start as int);
        match last_dot(&v, start, n) {
            None => {
                proof {
                    assert forall|m: int| 1 <= m < name.len() implies name[m] != '.' by {
                        assert(v@[start + m] != '.');
                    }
                    lemma_dot_split_none(name);
                }
                Format::Unknown
            },
            Some(d) => {
                proof {
                    let k = d - start;
                    assert(name[k] == '.');
                    assert forall|m: int| k < m < name.len() implies name[m] != '.' by {
                        assert(v@[start + m] != '.');
                    }
                    lemma_dot_split_some(name, k);
                    assert(name.take(k) =~= v@.subrange(start as int, d as int));
                    assert(name.skip(k + 1) =~= v@.subrange(d + 1, n as int));
                }
                if region_eq_lower(&v, d + 1, n, "zip") {
                    Format::Zip
                } else if region_eq_lower(&v, d + 1, n, "tar") {
                    Format::Tar
                } else if region_eq_lower(&v, d + 1, n, "tgz") {
                    Format::TarGzip
                } else {
                    let ghost stem = v@.subrange(start as int, d as int);
                    let stem_tar = match last_dot(&v, start, d) {
                        Some(d2) => {
                            proof {
                                let k2 = d2 - start;
                                assert(stem[k2] == '.');
                                assert forall|m: int| k2 < m < stem.len() implies stem[m] != '.' by {
                                    assert(v@[start + m] != '.');
                                }
                                lemma_dot_split_some(stem, k2);
                                assert(stem.take(k2) =~= v@.subrange(start as int, d2 as int));
                                assert(stem.skip(k2 + 1) =~= v@.subrange(d2 + 1, d as int));
                            }
                            region_eq_lower(&v, d2 + 1, d, "tar")
                        },
                        None => {
                            proof {
                                assert forall|m: int| 1 <= m < stem.len() implies stem[m] != '.' by {
                                    assert(v@[start + m] != '.');
                                }
                                lemma_dot_split_none(stem);
                            }
                            false
                        },
                    };
                    if stem_tar && region_eq_lower(&v, d + 1, n, "gz") {
                        Format::TarGzip
                    } else if stem_tar && region_eq_lower(&v, d + 1, n, "xz") {
                        Format::TarXz2
                    } else if stem_tar && region_eq_lower(&v, d + 1, n, "bz2") {
                        Format::TarBzip2
                    } else if stem_tar
                        && (region_eq_lower(&v, d + 1, n, "zstd") || region_eq_lower(&v, d + 1, n, "zst")) {
                        Format::TarZstd
                    } else if region_eq_lower(&v, d + 1, n, "gz") {
                        Format::Gzip
                    } else if region_eq_lower(&v, d + 1, n, "xz") {
                        Format::Xz2
                    } else if region_eq_lower(&v, d + 1, n, "bz2") {
                        Format::Bzip2
                    } else if region_eq_lower(&v, d + 1, n, "zstd") || region_eq_lower(&v, d + 1, n, "zst") {
                        Format::Zstd
                    } else {
                        Format::Unknown
                    }
                }
            },
        }
    }

    /// Returns `true` if the format is compressed.
    pub fn is_compressed(&self) -> (r: bool)
        ensures
            r == self.spec_is_compressed(),
    {
        !matches!(self, Format::Tar)
    }

    /// Returns `true` if the format is an archive (as opposed to a
    /// single compressed file).
    pub fn is_archive(&self) -> (r: bool)
        ensures
            r == self.spec_is_archive(),
    {
        match self {
            Format::Zip => true,
            Format::Tar => true,
            Format::Gzip => false,
            Format::Zstd => false,
            Format::Bzip2 => false,
            Format::Xz2 => false,
            Format::TarGzip => true,
            Format::TarBzip2 => true,
            Format::TarXz2 => true,
            Format::TarZstd => true,
            Format::Unknown => false,
        }
    }
}

/// The characters of `s`, collected into a vector.
pub(crate) fn chars_of(s: &str) -> (r: Vec<char>)
    ensures
        r@ == s@,
{
    let n = s.unicode_len();
    let mut v: Vec<char> = Vec::new();
    let mut i: usize = 0;
    while i < n
        invariant
            i <= n,
            n == s@.len(),
            v@ == s@.take(i as int),
        decreases n - i,
    {
        v.push(s.get_char(i));
        proof {
            assert(s@.take(i + 1) =~= s@.take(i as int).push(s@[i as int]));
        }
        i += 1;
    }
    proof {
        assert(s@.take(n as int) =~= s@);
    }
    v
}

/// ASCII lower-casing of one character.
fn lower(c: char) -> (r: char)
    ensures
        r == lower_char(c),
{
    let u = c as u32;
    if 65 <= u && u <= 90 {
        ((u + 32) as u8) as char
    } else {
        c
    }
}

/// The index where the final path component of `v` begins: just past
/// the last `/`, or zero when there is none.
fn name_start(v: &Vec<char>) -> (i: usize)
    ensures
        i <= v@.len(),
        v@.skip(i as int) == file_part(v@),
{
    let mut i = v.len();
    proof {
        assert(v@.take(i as int) =~= v@);
        assert(file_part(v@) + v@.skip(i as int) =~= file_part(v@));
    }
    while i > 0
        invariant
            i <= v@.len(),
            file_part(v@) == file_part(v@.take(i as int)) + v@.skip(i as int),
        decreases i,
    {
        if v[i - 1] == '/' {
            proof {
                assert(file_part(v@.take(i as int)) =~= Seq::<char>::empty());
                assert(Seq::<char>::empty() + v@.skip(i as int) =~= v@.skip(i as int));
            }
            return i;
        }
        proof {
            let t = v@.take(i as int);
            assert(t.drop_last() =~= v@.take(i - 1));
            assert(file_part(t) == file_part(v@.take(i - 1)).push(v@[i - 1]));
            assert(file_part(v@.take(i - 1)) + v@.skip(i - 1) =~= file_part(v@.take(i as int))
                + v@.skip(i as int));
        }
        i = i - 1;
    }
    proof {
        assert(v@.take(0) =~= Seq::<char>::empty());
        assert(file_part(Seq::<char>::empty()) + v@.skip(0) =~= v@.skip(0));
    }
    i
}

/// The index of the last `.` strictly between `lo` and `hi` in `v`,
/// if any.
fn last_dot(v: &Vec<char>, lo: usize, hi: usize) -> (r: Option<usize>)
    requires
        lo <= hi <= v@.len(),
    ensures
        match r {
            Some(j) => lo < j < hi && v@[j as int] == '.' && forall|m: int|
                j < m < hi ==> v@[m] != '.',
            None => forall|m: int| lo < m < hi ==> v@[m] != '.',
        },
{
    let mut j = hi;
    while j > 0 && j - 1 > lo
        invariant
            lo <= hi <= v@.len(),
            j <= hi,
            forall|m: int| j <= m < hi ==> v@[m] != '.',
        decreases j,
    {
        let jj = j - 1;
        if v[jj] == '.' {
            return Some(jj);
        }
        j = jj;
    }
    None
}

/// Compares the region `v[lo..hi]`, lower-cased, against the literal
/// `lit` (itself already lower case).
fn region_eq_lower(v: &Vec<char>, lo: usize, hi: usize, lit: &str) -> (b: bool)
    requires
        lo <= hi <= v@.len(),
    ensures
        b == (lower_seq(v@.subrange(lo as int, hi as int)) == lit@),
{
    let len = lit.unicode_len();
    if hi - lo != len {
        proof {
            assert(lower_seq(v@.subrange(lo as int, hi as int)).len() == hi - lo);
        }
        return false;
    }
    let mut m: usize = 0;
    while m < len
        invariant
            lo <= hi <= v@.len(),
            hi - lo == len,
            len == lit@.len(),
            m <= len,
            forall|t: int| 0 <= t < m ==> lower_char(v@[lo + t]) == lit@[t],
        decreases len - m,
    {
        if lower(v[lo + m]) != lit.get_char(m) {
            proof {
                assert(lower_seq(v@.subrange(lo as int, hi as int))[m as int] != lit@[m as int]);
            }
            return false;
        }
        m += 1;
    }
    proof {
        assert(lower_seq(v@.subrange(lo as int, hi as int)) =~= lit@);
    }
    true
}

/// Lower-casing a character twice is the same as doing it once.
proof fn lemma_lower_char_idem(c: char)
    ensures
        lower_char(lower_char(c)) == lower_char(c),
{
}

/// Lower-casing a sequence twice is the same as doing it once.
proof fn lemma_lower_seq_idem(s: Seq<char>)
    ensures
        lower_seq(lower_seq(s)) == lower_seq(s),
{
    assert forall|i: int| 0 <= i < s.len() implies lower_char(lower_char(s[i])) == lower_char(
        s[i],
    ) by {
        lemma_lower_char_idem(s[i]);
    }
    assert(lower_seq(lower_seq(s)) =~= lower_seq(s));
}

/// Lower-casing touches no `/`, and maps nothing else onto one, so it
/// commutes with taking the final path component.
proof fn lemma_file_part_lower(s: Seq<char>)
    ensures
        file_part(lower_seq(s)) == lower_seq(file_part(s)),
    decreases s.len(),
{
    let l = lower_seq(s);
    if s.len() == 0 {
        assert(l =~= s);
    } else if s.last() == '/' {
        assert(l.last() == lower_char(s.last()));
        assert(lower_seq(Seq::<char>::empty()) =~= Seq::<char>::empty());
    } else {
        assert(l.last() == lower_char(s.last()));
        assert(l.last() != '/');
        lemma_file_part_lower(s.drop_last());
        assert(l.drop_last() =~= lower_seq(s.drop_last()));
        assert(lower_seq(file_part(s.drop_last())).push(lower_char(s.last())) =~= lower_seq(
            file_part(s.drop_last()).push(s.last()),
        ));
    }
}

/// Lower-casing touches no dot, and maps nothing else onto one, so it
/// commutes with the stem/extension split.
proof fn lemma_dot_split_lower(name: Seq<char>)
    ensures
        match dot_split(name) {
            Some(p) => dot_split(lower_seq(name)) == Some(
                (lower_seq(p.0), lower_seq(p.1)),
            ),
            None => dot_split(lower_seq(name)) is None,
        },
    decreases name.len(),
{
    let l = lower_seq(name);
    if name.len() <= 1 {
    } else if name.last() == '.' {
        assert(l.last() == lower_char(name.last()));
        assert(l.drop_last() =~= lower_seq(name.drop_last()));
        assert(lower_seq(Seq::<char>::empty()) =~= Seq::<char>::empty());
    } else {
        assert(l.last() == lower_char(name.last()));
        assert(l.last() != '.');
        lemma_dot_split_lower(name.drop_last());
        assert(l.drop_last() =~= lower_seq(name.drop_last()));
        match dot_split(name.drop_last()) {
            Some(p) => {
                assert(lower_seq(p.1).push(lower_char(name.last())) =~= lower_seq(
                    p.1.push(name.last()),
                ));
            },
            None => {},
        }
    }
}

/// Lower-casing a name does not change whether it carries a given
/// (lower-case) extension.
proof fn lemma_has_ext_lower(name: Seq<char>, ext: Seq<char>)
    ensures
        has_ext(lower_seq(name), ext) == has_ext(name, ext),
{
    lemma_dot_split_lower(name);
    match dot_split(name) {
        Some(p) => {
            lemma_lower_seq_idem(p.1);
        },
        None => {},
    }
}

/// The same, for a double extension such as `.tar.gz`.
proof fn lemma_has_double_ext_lower(name: Seq<char>, inner: Seq<char>, outer: Seq<char>)
    ensures
        has_double_ext(lower_seq(name), inner, outer) == has_double_ext(name, inner, outer),
{
    lemma_dot_split_lower(name);
    match dot_split(name) {
        Some(p) => {
            lemma_lower_seq_idem(p.1);
            lemma_has_ext_lower(p.0, inner);
        },
        None => {},
    }
}

/// Lower-casing a whole path does not change the inferred format.
proof fn lemma_infer_lower(s: Seq<char>)
    ensures
        spec_infer(lower_seq(s)) == spec_infer(s),
{
    lemma_file_part_lower(s);
    let name = file_part(s);
    lemma_has_ext_lower(name, "zip"@);
    lemma_has_ext_lower(name, "tar"@);
    lemma_has_ext_lower(name, "tgz"@);
    lemma_has_ext_lower(name, "gz"@);
    lemma_has_ext_lower(name, "xz"@);
    lemma_has_ext_lower(name, "bz2"@);
    lemma_has_ext_lower(name, "zstd"@);
    lemma_has_ext_lower(name, "zst"@);
    lemma_has_double_ext_lower(name, "tar"@, "gz"@);
    lemma_has_double_ext_lower(name, "tar"@, "xz"@);
    lemma_has_double_ext_lower(name, "tar"@, "bz2"@);
    lemma_has_double_ext_lower(name, "tar"@, "zstd"@);
    lemma_has_double_ext_lower(name, "tar"@, "zst"@);
}

/// Format inference is case-insensitive: two paths that agree up to
/// ASCII case infer the same format.
pub proof fn lemma_infer_case_insensitive(s: Seq<char>, t: Seq<char>)
    requires
        lower_seq(s) == lower_seq(t),
    ensures
        spec_infer(s) == spec_infer(t),
{
    lemma_infer_lower(s);
    lemma_infer_lower(t);
}

/// When the only dots of `name` sit at its head, there is no
/// stem/extension split.
proof fn lemma_dot_split_none(name: Seq<char>)
    requires
        forall|m: int| 1 <= m < name.len() ==> name[m] != '.',
    ensures
        dot_split(name) is None,
    decreases name.len(),
{
    if name.len() <= 1 {
    } else {
        lemma_dot_split_none(name.drop_last());
    }
}

/// A last dot at index `k` splits `name` into `name[..k]` and
/// `name[k+1..]`.
proof fn lemma_dot_split_some(name: Seq<char>, k: int)
    requires
        1 <= k < name.len(),
        name[k] == '.',
        forall|m: int| k < m < name.len() ==> name[m] != '.',
    ensures
        dot_split(name) == Some((name.take(k), name.skip(k + 1))),
    decreases name.len(),
{
    if k == name.len() - 1 {
        assert(name.take(k) =~= name.drop_last());
        assert(name.skip(k + 1) =~= Seq::<char>::empty());
    } else {
        lemma_dot_split_some(name.drop_last(), k);
        assert(name.drop_last().take(k) =~= name.take(k));
        assert(name.drop_last().skip(k + 1).push(name.last()) =~= name.skip(k + 1));
    }
}

} // verus!
