//! Downloading an archive over HTTP and opening it. The builder uses
//! one marker type per configuration slot, so that `download` exists
//! only once a URL and a destination are both set; a progress
//! callback is always optional.

use vstd::prelude::*;
use vstd::string::*;

use crate::archive::{join_path, spec_join, Archive, Storage};
use crate::format::{chars_of, file_part};
use crate::fsio::{create_dir_all, create_file, temp_dir, temp_dir_path, write_chunk};
use crate::result::Error;

verus! {

/// URL is missing in [`Downloader`].
pub struct UrlMissing;

/// URL is provided in [`Downloader`].
pub struct UrlProvided(pub String);

/// Download destination is missing in [`Downloader`].
pub struct DestMissing;

/// Download destination is provided in [`Downloader`].
pub enum DestProvided {
    /// Archive file will be downloaded into a temporary directory
    TempDir,
    /// Archive file will be downloaded into a specific directory
    Dir(String),
}

/// Progress callback is not provided in [`Downloader`].
pub struct OnProgressNotProvided;

/// Progress callback is provided in [`Downloader`].
pub struct OnProgressProvided<F: Fn(u64, u64)>(pub F);

/// Downloads an archive file and opens it. Compared with
/// [`Archive::download`], this builder also allows a fixed
/// destination directory and a progress callback.
pub struct Downloader<U, D, O> {
    /// The URL to fetch, once provided
    pub url: U,
    /// Where to store the fetched file, once provided
    pub dest: D,
    /// The progress callback, if any
    pub on_progress: O,
}

impl Downloader<UrlMissing, DestMissing, OnProgressNotProvided> {
    /// Returns a new `Downloader`.
    pub fn new() -> Self {
        Self::default()
    }
}

impl Default for Downloader<UrlMissing, DestMissing, OnProgressNotProvided> {
    /// Returns a default `Downloader`: no URL, no destination, no
    /// progress callback.
    fn default() -> Self {
        Downloader { url: UrlMissing, dest: DestMissing, on_progress: OnProgressNotProvided }
    }
}

impl<D, O> Downloader<UrlMissing, D, O> {
    /// Sets the URL to the archive that should be downloaded.
    pub fn url(self, url: &str) -> (r: Downloader<UrlProvided, D, O>)
        ensures
            r.url.0@ == url@,
            r.dest == self.dest,
            r.on_progress == self.on_progress,
    {
        let url = UrlProvided(url.to_owned());
        let dest = self.dest;
        let on_progress = self.on_progress;
        Downloader { url, dest, on_progress }
    }
}

impl<U, O> Downloader<U, DestMissing, O> {
    /// The downloaded archive file will be stored in a temporary
    /// directory, removed when the archive is dropped.
    pub fn to_temp(self) -> (r: Downloader<U, DestProvided, O>)
        ensures
            r.url == self.url,
            r.dest is TempDir,
            r.on_progress == self.on_progress,
    {
        let url = self.url;
        let dest = DestProvided::TempDir;
        let on_progress = self.on_progress;
        Downloader { url, dest, on_progress }
    }

    /// The downloaded archive file will be stored in the given
    /// directory, created when the archive is downloaded if absent.
    pub fn to_directory(self, dest: &str) -> (r: Downloader<U, DestProvided, O>)
        ensures
            r.url == self.url,
            (r.dest matches DestProvided::Dir(d) && d@ == dest@),
            r.on_progress == self.on_progress,
    {
        let url = self.url;
        let dest = DestProvided::Dir(dest.to_owned());
        let on_progress = self.on_progress;
        Downloader { url, dest, on_progress }
    }
}

impl<U, D> Downloader<U, D, OnProgressNotProvided> {
    /// Sets a callback that is called during the download with the
    /// number of bytes already written and the total announced by the
    /// server.
    pub fn on_progress<F: Fn(u64, u64)>(self, callback: F) -> (r: Downloader<
        U,
        D,
        OnProgressProvided<F>,
    >)
        ensures
            r.url == self.url,
            r.dest == self.dest,
            r.on_progress.0 == callback,
    {
        let url = self.url;
        let dest = self.dest;
        let on_progress = OnProgressProvided(callback);
        Downloader { url, dest, on_progress }
    }
}

/// `s` with every trailing `/` removed.
pub open spec fn drop_trailing_slashes(s: Seq<char>) -> Seq<char>
    decreases s.len(),
{
    if s.len() > 0 && s.last() == '/' {
        drop_trailing_slashes(s.drop_last())
    } else {
        s
    }
}

/// The file name that a download at `url` is stored under: the final
/// path segment of the URL. There is none when the URL ends in
/// separators only, or its last segment is a parent reference.
pub open spec fn spec_url_file_name(url: Seq<char>) -> Option<Seq<char>> {
    let name = file_part(drop_trailing_slashes(url));
    if name.len() == 0 || name == seq!['.', '.'] {
        None
    } else {
        Some(name)
    }
}

/// The final path segment of `url`, if it has one.
fn url_file_name(url: &str) -> (r: Option<String>)
    ensures
        match r {
            Some(name) => spec_url_file_name(url@) == Some(name@),
            None => spec_url_file_name(url@) is None,
        },
{
    let v = chars_of(url);
    let mut end = v.len();
    proof {
        assert(v@.take(end as int) =~= v@);
    }
    while end > 0 && v[end - 1] == '/'
        invariant
            end <= v@.len(),
            v@ == url@,
            drop_trailing_slashes(url@) == drop_trailing_slashes(v@.take(end as int)),
        decreases end,
    {
        proof {
            let t = v@.take(end as int);
            assert(t.drop_last() =~= v@.take(end - 1));
        }
        end = end - 1;
    }
    let ghost t = v@.take(end as int);
    proof {
        if end == 0 {
            assert(t =~= Seq::<char>::empty());
        }
        assert(drop_trailing_slashes(url@) == t);
    }
    let mut j = end;
    proof {
        assert(t.take(end as int) =~= t);
        assert(file_part(t) + t.skip(end as int) =~= file_part(t));
    }
    while j > 0 && v[j - 1] != '/'
        invariant
            j <= end <= v@.len(),
            v@ == url@,
            t == v@.take(end as int),
            file_part(t) == file_part(t.take(j as int)) + t.skip(j as int),
        decreases j,
    {
        proof {
            let p = t.take(j as int);
            assert(p.last() == v@[j - 1]);
            assert(p.drop_last() =~= t.take(j - 1));
            assert(file_part(t.take(j - 1)) + t.skip(j - 1) =~= file_part(t.take(j as int))
                + t.skip(j as int));
        }
        j = j - 1;
    }
    proof {
        if j == 0 {
            assert(t.take(0) =~= Seq::<char>::empty());
            assert(file_part(Seq::<char>::empty()) + t.skip(0) =~= t.skip(0));
        } else {
            assert(t.take(j as int).last() == v@[j - 1]);
            assert(file_part(t.take(j as int)) =~= Seq::<char>::empty());
            assert(Seq::<char>::empty() + t.skip(j as int) =~= t.skip(j as int));
        }
        assert(file_part(t) == t.skip(j as int));
        assert(t.skip(j as int) =~= url@.subrange(j as int, end as int));
    }
    if j == end {
        return None;
    }
    if end - j == 2 && v[j] == '.' && v[j + 1] == '.' {
        proof {
            assert(file_part(t) =~= seq!['.', '.']);
        }
        return None;
    }
    proof {
        if file_part(t) == seq!['.', '.'] {
            assert(v@[j as int] == '.' && v@[j + 1] == '.');
        }
    }
    let s = url.substring_char(j, end);
    Some(s.to_owned())
}

/// True of an ASCII decimal digit.
pub open spec fn is_digit(c: char) -> bool {
    48 <= c as u32 <= 57
}

/// The numeric value of an ASCII decimal digit.
pub open spec fn digit_val(c: char) -> int {
    c as u32 - 48
}

/// True when every character of `s` is an ASCII decimal digit.
pub open spec fn all_digits(s: Seq<char>) -> bool {
    forall|i: int| 0 <= i < s.len() ==> is_digit(#[trigger] s[i])
}

/// The number that the digit string `s` denotes, most significant
/// digit first.
pub open spec fn digits_value(s: Seq<char>) -> int
    decreases s.len(),
{
    if s.len() == 0 {
        0
    } else {
        digits_value(s.drop_last()) * 10 + digit_val(s.last())
    }
}

/// What parsing `s` as a `u64` yields: an optional leading `+`, then
/// one or more digits, whose value fits.
pub open spec fn spec_parse_u64(s: Seq<char>) -> Option<u64> {
    let d = if s.len() > 0 && s[0] == '+' {
        s.skip(1)
    } else {
        s
    };
    if d.len() > 0 && all_digits(d) && digits_value(d) <= u64::MAX {
        Some(digits_value(d) as u64)
    } else {
        None
    }
}

/// A digit string denotes a non-negative number.
proof fn lemma_digits_value_nonneg(s: Seq<char>)
    requires
        all_digits(s),
    ensures
        digits_value(s) >= 0,
    decreases s.len(),
{
    if s.len() > 0 {
        assert(all_digits(s.drop_last())) by {
            assert(forall|i: int|
                0 <= i < s.len() - 1 ==> #[trigger] s.drop_last()[i] == s[i]);
        }
        lemma_digits_value_nonneg(s.drop_last());
    }
}

/// Extending a digit string never shrinks its value.
proof fn lemma_digits_value_mono(s: Seq<char>, k: int)
    requires
        all_digits(s),
        0 <= k <= s.len(),
    ensures
        digits_value(s) >= digits_value(s.take(k)),
    decreases s.len() - k,
{
    if k < s.len() {
        assert(all_digits(s.take(k))) by {
            assert(forall|i: int| 0 <= i < k ==> #[trigger] s.take(k)[i] == s[i]);
        }
        lemma_digits_value_nonneg(s.take(k));
        assert(s.take(k + 1).drop_last() =~= s.take(k));
        assert(s.take(k + 1).last() == s[k]);
        lemma_digits_value_mono(s, k + 1);
    } else {
        assert(s.take(k) =~= s);
    }
}

/// Parses a decimal `u64`, as the `content-length` header uses it.
pub(crate) fn parse_u64(s: &str) -> (r: Option<u64>)
    ensures
        r == spec_parse_u64(s@),
{
    let n = s.unicode_len();
    let st: usize = if n > 0 && s.get_char(0) == '+' {
        1
    } else {
        0
    };
    let ghost d = if s@.len() > 0 && s@[0] == '+' {
        s@.skip(1)
    } else {
        s@
    };
    proof {
        assert(d =~= s@.skip(st as int));
    }
    if st >= n {
        return None;
    }
    let mut i: usize = st;
    let mut acc: u64 = 0;
    while i < n
        invariant
            st <= i <= n,
            st <= 1,
            n == s@.len(),
            (st == 1) == (s@.len() > 0 && s@[0] == '+'),
            d == s@.skip(st as int),
            d.len() == n - st,
            all_digits(d.take(i - st)),
            acc == digits_value(d.take(i - st)),
        decreases n - i,
    {
        let c = s.get_char(i);
        let u = c as u32;
        proof {
            assert(d[i - st] == s@[i as int]);
        }
        if u < 48 || u > 57 {
            proof {
                assert(s@.skip(0) =~= s@);
                assert(0 <= i - st < d.len());
                assert(!is_digit(d[i - st]));
                assert(!all_digits(d));
            }
            return None;
        }
        let dig = (u - 48) as u64;
        proof {
            assert(d.take(i - st + 1).drop_last() =~= d.take(i - st));
            assert(d.take(i - st + 1).last() == d[i - st]);
            assert(all_digits(d.take(i - st + 1))) by {
                assert(forall|m: int|
                    0 <= m < i - st ==> #[trigger] d.take(i - st + 1)[m] == d.take(i - st)[m]);
            }
        }
        if acc > u64::MAX / 10 || (acc == u64::MAX / 10 && dig > u64::MAX % 10) {
            proof {
                assert(digits_value(d.take(i - st + 1)) == acc * 10 + dig);
                assert(digits_value(d.take(i - st + 1)) > u64::MAX);
                if all_digits(d) {
                    lemma_digits_value_mono(d, i - st + 1);
                    assert(digits_value(d) > u64::MAX);
                }
                assert(s@.skip(0) =~= s@);
            }
            return None;
        }
        acc = acc * 10 + dig;
        i += 1;
    }
    proof {
        assert(d.take(d.len() as int) =~= d);
        lemma_digits_value_nonneg(d);
    }
    Some(acc)
}

#[verifier::external_type_specification]
#[verifier::external_body]
/// A received HTTP response.
pub struct ExResponse(ureq::Response);

/// The body of a response: a forward-only byte stream.
#[verifier::external_body]
pub struct BodyReader {
    inner: Box<dyn std::io::Read + Send + Sync + 'static>,
}

/// Relies on ureq::get and ureq::Request::call: one blocking GET.
/// Both a transport failure and a response status of 400 or above
/// come back as errors, and every error is an invalid request here.
#[verifier::external_body]
pub(crate) fn http_get(url: &str) -> (r: Result<ureq::Response, Error>)
    ensures
        r matches Err(e) ==> e is InvalidRequest,
{
    ureq::get(url).call().map_err(|e| Error::InvalidRequest(e.to_string()))
}

/// Relies on ureq::Response::header: the value of the named response
/// header, if the response carries one.
#[verifier::external_body]
pub(crate) fn response_header(r: &ureq::Response, name: &str) -> (h: Option<String>) {
    r.header(name).map(|v| v.to_string())
}

/// Relies on ureq::Response::into_reader: the response body as a
/// byte stream.
#[verifier::external_body]
pub(crate) fn response_reader(r: ureq::Response) -> (b: BodyReader) {
    BodyReader { inner: r.into_reader() }
}

/// Relies on std::io::Read::read: reads at most `buf.len()` bytes
/// into the front of `buf`; zero bytes mean the stream is exhausted.
/// A read that the OS interrupted is retried at once, as
/// std::io::copy retries it.
#[verifier::external_body]
pub(crate) fn read_step(src: &mut BodyReader, buf: &mut Vec<u8>) -> (r: Result<usize, Error>)
    ensures
        final(buf)@.len() == old(buf)@.len(),
        r matches Ok(n) ==> n <= old(buf)@.len(),
        r matches Err(e) ==> e is Io,
{
    loop {
        match src.inner.read(buf.as_mut_slice()) {
            Ok(n) => return Ok(n),
            Err(e) if e.kind() == std::io::ErrorKind::Interrupted => continue,
            Err(e) => return Err(Error::Io(e.to_string())),
        }
    }
}

/// A fresh transfer buffer.
fn make_buf() -> (r: Vec<u8>)
    ensures
        r@.len() == 16384,
{
    let mut buf: Vec<u8> = Vec::new();
    let mut k: usize = 0;
    while k < 16384
        invariant
            buf@.len() == k,
            k <= 16384,
        decreases 16384 - k,
    {
        buf.push(0u8);
        k += 1;
    }
    buf
}

/// Copies a whole byte stream into `dst` in fixed-size chunks,
/// retrying interrupted reads, and returns how many bytes arrived.
pub(crate) fn copy_stream(src: &mut BodyReader, dst: &mut fs_err::File) -> (r: Result<u64, Error>)
    ensures
        r matches Err(e) ==> e is Io,
{
    let mut buf = make_buf();
    let mut written: u64 = 0;
    loop
        invariant
            buf@.len() == 16384,
        decreases u64::MAX - written,
    {
        let n = read_step(src, &mut buf)?;
        if n == 0 {
            return Ok(written);
        }
        write_chunk(dst, &buf, n)?;
        written = match written.checked_add(n as u64) {
            Some(w) => w,
            None => {
                return Err(Error::Io("the stream exceeds the supported size".to_owned()));
            },
        };
    }
}

/// Copies a whole byte stream into `dst` in fixed-size chunks,
/// calling `cb` before each read with how many bytes are written so
/// far and the announced total. The returned ghost sequence records,
/// in order, every argument pair passed to `cb`: the first is always
/// `(0, total)`, the written counts never decrease and never grow by
/// more than the 16 KiB chunk from one call to the next, and on
/// success the last is `(w, total)` where `w` is the byte count
/// returned — so a stream that delivers exactly `total` bytes ends
/// with a call of `(total, total)`.
pub fn copy_stream_reporting<F: Fn(u64, u64)>(
    src: &mut BodyReader,
    dst: &mut fs_err::File,
    total: u64,
    cb: F,
) -> (r: (Result<u64, Error>, Ghost<Seq<(u64, u64)>>))
    requires
        forall|a: u64, b: u64| #[trigger] call_requires(cb, (a, b)),
    ensures
        r.1@.len() >= 1 ==> r.1@[0] == (0u64, total),
        forall|i: int| 0 <= i < r.1@.len() ==> (#[trigger] r.1@[i]).1 == total,
        forall|i: int| 0 <= i < r.1@.len() - 1 ==> (#[trigger] r.1@[i]).0 <= r.1@[i + 1].0,
        forall|i: int| 0 <= i < r.1@.len() - 1 ==> r.1@[i + 1].0 <= (#[trigger] r.1@[i]).0 + 16384,
        r.0 matches Ok(w) ==> r.1@.len() >= 1 && r.1@.last() == (w, total),
        r.0 matches Err(e) ==> e is Io,
{
    let mut buf = make_buf();
    let mut written: u64 = 0;
    let ghost mut log: Seq<(u64, u64)> = Seq::empty();
    loop
        invariant
            buf@.len() == 16384,
            forall|a: u64, b: u64| #[trigger] call_requires(cb, (a, b)),
            log.len() == 0 ==> written == 0,
            log.len() >= 1 ==> log[0] == (0u64, total),
            forall|i: int| 0 <= i < log.len() ==> (#[trigger] log[i]).1 == total,
            forall|i: int| 0 <= i < log.len() - 1 ==> (#[trigger] log[i]).0 <= log[i + 1].0,
            forall|i: int| 0 <= i < log.len() - 1 ==> log[i + 1].0 <= (#[trigger] log[i]).0
                + 16384,
            log.len() >= 1 ==> log.last().0 <= written <= log.last().0 + 16384,
        decreases u64::MAX - written,
    {
        cb(written, total);
        proof {
            log = log.push((written, total));
        }
        let n = match read_step(src, &mut buf) {
            Ok(n) => n,
            Err(e) => {
                return (Err(e), Ghost(log));
            },
        };
        if n == 0 {
            return (Ok(written), Ghost(log));
        }
        match write_chunk(dst, &buf, n) {
            Ok(_) => {},
            Err(e) => {
                return (Err(e), Ghost(log));
            },
        }
        written = match written.checked_add(n as u64) {
            Some(w) => w,
            None => {
                return (
                    Err(Error::Io("the stream exceeds the supported size".to_owned())),
                    Ghost(log),
                );
            },
        };
    }
}

impl<O> Downloader<UrlProvided, DestProvided, O> {
    /// Builds the storage location for the download: the URL's final
    /// path segment, inside either a fresh temporary directory or the
    /// chosen destination directory.
    fn storage(&self) -> (r: Result<Storage, Error>)
        ensures
            r is Ok ==> spec_url_file_name(self.url.0@) is Some,
            spec_url_file_name(self.url.0@) is None ==> (r matches Err(e) && e matches
                Error::InvalidUrl(u) && u@ == self.url.0@),
            r matches Err(e) ==> (e is InvalidUrl || e is Io),
            r matches Ok(s) ==> (self.dest matches DestProvided::Dir(d) ==> s.spec_path()
                == spec_join(d@, spec_url_file_name(self.url.0@).unwrap())),
    {
        match url_file_name(self.url.0.as_str()) {
            None => Err(Error::InvalidUrl(self.url.0.clone())),
            Some(name) => match &self.dest {
                DestProvided::TempDir => {
                    let t = temp_dir()?;
                    let base = temp_dir_path(&t);
                    let path = join_path(base.as_str(), name.as_str());
                    Ok(Storage::FileInTempDirectory { temp: t, path })
                },
                DestProvided::Dir(dir) => {
                    Ok(Storage::FileOnDisk { path: join_path(dir.as_str(), name.as_str()) })
                },
            },
        }
    }
}

impl<D, O> Downloader<UrlProvided, D, O> {
    /// One blocking GET for the configured URL.
    fn get(&self) -> (r: Result<ureq::Response, Error>)
        ensures
            r matches Err(e) ==> e is InvalidRequest,
    {
        http_get(self.url.0.as_str())
    }
}

impl Downloader<UrlProvided, DestProvided, OnProgressNotProvided> {
    /// Downloads the archive and opens it. If the archive file was
    /// downloaded to a temporary directory, the file is deleted once
    /// the [`Archive`] is dropped.
    pub fn download(self) -> (r: Result<Archive, Error>)
        ensures
            spec_url_file_name(self.url.0@) is None ==> r is Err,
            r matches Ok(a) ==> a.spec_format().spec_is_archive(),
            r matches Ok(a) ==> (self.dest matches DestProvided::Dir(d) ==> a.spec_path()
                == spec_join(d@, spec_url_file_name(self.url.0@).unwrap())),
            r matches Err(e) ==> (e is InvalidRequest || e is InvalidUrl || e is Io
                || e is UnsupportedArchive),
    {
        let response = self.get()?;
        let storage = self.storage()?;
        if let DestProvided::Dir(d) = &self.dest {
            create_dir_all(d.as_str())?;
        }
        let mut dst = create_file(storage.as_path())?;
        let mut src = response_reader(response);
        copy_stream(&mut src, &mut dst)?;
        Archive::new(storage)
    }
}

impl<F: Fn(u64, u64)> Downloader<UrlProvided, DestProvided, OnProgressProvided<F>> {
    /// Downloads the archive and opens it, reporting progress. The
    /// response must announce its length in a `content-length`
    /// header; the callback is then called as
    /// [`copy_stream_reporting`] describes: first with `(0, total)`,
    /// and, when the stream delivers exactly `total` bytes, last with
    /// `(total, total)`.
    pub fn download(self) -> (r: Result<Archive, Error>)
        requires
            forall|a: u64, b: u64| #[trigger] call_requires(self.on_progress.0, (a, b)),
        ensures
            spec_url_file_name(self.url.0@) is None ==> r is Err,
            r matches Ok(a) ==> a.spec_format().spec_is_archive(),
            r matches Ok(a) ==> (self.dest matches DestProvided::Dir(d) ==> a.spec_path()
                == spec_join(d@, spec_url_file_name(self.url.0@).unwrap())),
            r matches Err(e) ==> (e is InvalidRequest || e is InvalidUrl || e is Io
                || e is UnsupportedArchive),
    {
        let response = self.get()?;
        let header = match response_header(&response, "content-length") {
            Some(h) => h,
            None => {
                return Err(
                    Error::InvalidRequest(
                        "response does not contain 'content-length' header".to_owned(),
                    ),
                );
            },
        };
        let total = match parse_u64(header.as_str()) {
            Some(t) => t,
            None => {
                return Err(
                    Error::InvalidRequest(
                        "'content-length' in the response header could not be parsed".to_owned(),
                    ),
                );
            },
        };
        let storage = self.storage()?;
        if let DestProvided::Dir(d) = &self.dest {
            create_dir_all(d.as_str())?;
        }
        let mut dst = create_file(storage.as_path())?;
        let mut src = response_reader(response);
        let OnProgressProvided(cb) = self.on_progress;
        let (res, _log) = copy_stream_reporting(&mut src, &mut dst, total, cb);
        match res {
            Ok(_) => Archive::new(storage),
            Err(e) => Err(e),
        }
    }
}

} // verus!
