//! Downloads: what is asked of the registry, where it goes in the mirror
//! tree, how a worker proceeds, and how the outcome is counted.

use crate::checksum::Checksum;
use crate::error::{ErrorKind, ErrorSpec, IntError};
use crate::metadata::package_index::{sentinel, spec_strip_path, TarballSpec, TarballUrl};
use crate::metadata::{local_metadata_path, spec_local_metadata_path};
use crate::metadata::{trim_leading_slash, trim_trailing_slash, without_leading_slash, without_trailing_slash};
use crate::options::CliOpts;
use crate::progress::{wrapped, Progress};
use crate::text::{chars_of, find_first, find_last, find_last_char, has_prefix, lemma_find_from};
use crate::text::{matches_at, occurs_at, push_all, text_of};
use vstd::prelude::*;

verus! {

/// One download.
#[derive(Debug)]
pub enum Download {
    /// The metadata document of a package.
    Metadata { url: String, package: String, target_path: String },
    /// A tarball, with the checksum that it must have, if one is known.
    Tarball { url: String, target_path: String, checksum: Option<Checksum> },
}

/// The URL of a package's metadata document.
pub open spec fn spec_metadata_url(registry: Seq<char>, package: Seq<char>) -> Seq<char> {
    without_trailing_slash(registry) + seq!['/'] + package
}

/// The URL that a tarball entry of an index stands for.
pub open spec fn spec_tarball_url(registry: Seq<char>, package: Seq<char>, tarball: TarballSpec) -> Seq<
    char,
> {
    match tarball {
        TarballSpec::Short(short) => without_leading_slash(registry) + seq!['/'] + package + "/-/"@
            + short,
        TarballSpec::Full(url) => url,
    }
}

/// What follows the last slash of a text; the text where it has none.
pub open spec fn last_segment(s: Seq<char>) -> Seq<char> {
    match find_last_char(s, '/', s.len() as int) {
        Some(i) => s.skip(i + 1),
        None => s,
    }
}

/// Where a tarball goes in the mirror tree: a URL of the registry keeps
/// its path below `output`; any other goes by its last segment to the
/// package's directory.
pub open spec fn spec_tarball_target(
    output: Seq<char>,
    registry: Seq<char>,
    package: Seq<char>,
    url: Seq<char>,
) -> Seq<char> {
    if has_prefix(url, registry) {
        without_trailing_slash(output) + seq!['/'] + without_leading_slash(url.skip(registry.len() as int))
    } else {
        without_trailing_slash(output) + seq!['/'] + package + "/-/"@ + last_segment(url)
    }
}

/// Short and long form agree: a tarball URL that is shortened stands for
/// itself again, where its short form was cut right behind the registry's
/// URL and a slash. The registry's URL is taken not to begin with a slash.
pub proof fn law_short_long_parity(url: Seq<char>, package: Seq<char>, registry: Seq<char>)
    requires
        !(registry.len() > 0 && registry[0] == '/'),
        spec_strip_path(url, package, registry) is Short ==> find_first(
            url.skip(registry.len() as int),
            sentinel(package),
        ) == Some(1int) && url[registry.len() as int] == '/',
    ensures
        spec_tarball_url(registry, package, spec_strip_path(url, package, registry)) == url,
{
    if spec_strip_path(url, package, registry) is Short {
        let rest = url.skip(registry.len() as int);
        let mark = sentinel(package);
        lemma_find_from(rest, mark, 0);
        assert(occurs_at(rest, 1, mark));
        let short = rest.skip(1 + mark.len() as int);
        let rebuilt = registry + seq!['/'] + package + "/-/"@ + short;
        assert(url.subrange(0, registry.len() as int) == registry);
        assert(rest.subrange(1, 1 + mark.len() as int) == mark);
        assert forall|i: int| 0 <= i < url.len() implies url[i] == rebuilt[i] by {
            let r = registry.len() as int;
            if i < r {
                assert(url.subrange(0, r)[i] == url[i]);
            } else if i == r {
            } else if i < r + 1 + mark.len() {
                assert(rest.subrange(1, 1 + mark.len() as int)[i - r - 1] == rest[i - r]);
                assert(mark[i - r - 1] == rebuilt[i]);
            } else {
                assert(short[i - r - 1 - mark.len()] == rest[i - r]);
            }
        }
        assert(url =~= rebuilt);
    }
}

/// Elsewhere they do not agree: a short form that was cut at another
/// place, or not behind a slash, stands for another URL.
pub proof fn law_parity_fails_elsewhere(url: Seq<char>, package: Seq<char>, registry: Seq<char>)
    requires
        !(registry.len() > 0 && registry[0] == '/'),
        spec_strip_path(url, package, registry) is Short,
        !(find_first(url.skip(registry.len() as int), sentinel(package)) == Some(1int)
            && url[registry.len() as int] == '/'),
    ensures
        spec_tarball_url(registry, package, spec_strip_path(url, package, registry)) != url,
{
    let rest = url.skip(registry.len() as int);
    let mark = sentinel(package);
    lemma_find_from(rest, mark, 0);
    let at = find_first(rest, mark).unwrap();
    let short = rest.skip(at + mark.len());
    let rebuilt = registry + seq!['/'] + package + "/-/"@ + short;
    assert(spec_tarball_url(registry, package, spec_strip_path(url, package, registry)) =~= rebuilt);
    if at == 1 {
        assert(rebuilt[registry.len() as int] == '/');
    } else {
        assert(rebuilt.len() != url.len());
    }
}

/// `<output>/<tail>`, with one trailing slash of `output` dropped.
fn below(output: &str, tail: &Vec<char>) -> (r: String)
    ensures
        r@ == without_trailing_slash(output@) + seq!['/'] + tail@,
{
    let mut out = trim_trailing_slash(output);
    out.push('/');
    push_all(&mut out, tail);
    let n = out.len();
    let r = text_of(&out, 0, n);
    assert(out@.subrange(0, n as int) =~= out@);
    r
}

/// What follows the last slash of a text.
fn segment_after_last_slash(s: &Vec<char>) -> (r: Vec<char>)
    ensures
        r@ == last_segment(s@),
{
    let n = s.len();
    let start = match find_last(s, '/') {
        Some(i) => i + 1,
        None => 0,
    };
    let mut out: Vec<char> = Vec::new();
    let mut k: usize = start;
    assert(s@.skip(start as int).take(0) =~= Seq::<char>::empty());
    while k < n
        invariant
            n == s@.len(),
            start <= k <= n,
            out@ == s@.skip(start as int).take(k - start),
        decreases n - k,
    {
        out.push(s[k]);
        assert(s@.skip(start as int).take(k + 1 - start) =~= s@.skip(start as int).take(k - start).push(
            s@[k as int],
        ));
        k += 1;
    }
    assert(s@.skip(start as int).take(n - start) =~= s@.skip(start as int));
    assert(s@.skip(0) =~= s@);
    out
}

impl Download {
    /// The download of a package's metadata document.
    pub fn metadata(opts: &CliOpts, package: &str) -> (r: Download)
        ensures
            r matches Download::Metadata { url, package: p, target_path } && url@ == spec_metadata_url(
                opts.registry_url@,
                package@,
            ) && p@ == package@ && target_path@ == spec_local_metadata_path(opts.output@, package@),
    {
        let mut url = trim_trailing_slash(opts.registry_url.as_str());
        url.push('/');
        let p = chars_of(package);
        push_all(&mut url, &p);
        let n = url.len();
        let url_text = text_of(&url, 0, n);
        assert(url@.subrange(0, n as int) =~= url@);
        Download::Metadata {
            package: String::from_str(package),
            url: url_text,
            target_path: local_metadata_path(opts, package),
        }
    }

    /// The download of a tarball that an index names. No checksum is
    /// asked of it.
    pub fn tarball(opts: &CliOpts, package: &str, url: &TarballUrl) -> (r: Download)
        ensures
            r matches Download::Tarball { url: u, target_path, checksum } && checksum is None && u@
                == spec_tarball_url(opts.registry_url@, package@, url@) && target_path@
                == spec_tarball_target(opts.output@, opts.registry_url@, package@, u@),
    {
        let registry = chars_of(opts.registry_url.as_str());
        let name = chars_of(package);
        let mark = chars_of("/-/");
        let full: Vec<char> = match url {
            TarballUrl::Short(short) => {
                let mut out = trim_leading_slash(&registry);
                out.push('/');
                push_all(&mut out, &name);
                push_all(&mut out, &mark);
                let s = chars_of(short.as_str());
                push_all(&mut out, &s);
                out
            },
            TarballUrl::Full(v) => chars_of(v.as_str()),
        };
        assert(full@ =~= spec_tarball_url(opts.registry_url@, package@, url@));
        let n = full.len();
        let target_path = if matches_at(&full, 0, &registry) {
            let last_part = chars_of(text_of(&full, registry.len(), n).as_str());
            assert(last_part@ =~= full@.skip(registry@.len() as int));
            let path_part = trim_leading_slash(&last_part);
            below(opts.output.as_str(), &path_part)
        } else {
            let mut tail: Vec<char> = Vec::new();
            push_all(&mut tail, &name);
            push_all(&mut tail, &mark);
            let last = segment_after_last_slash(&full);
            push_all(&mut tail, &last);
            assert(tail@ =~= package@ + "/-/"@ + last_segment(full@));
            let r = below(opts.output.as_str(), &tail);
            assert(r@ =~= without_trailing_slash(opts.output@) + seq!['/'] + package@ + "/-/"@
                + last_segment(full@));
            r
        };
        let url_text = text_of(&full, 0, n);
        assert(full@.subrange(0, n as int) =~= full@);
        Download::Tarball { url: url_text, checksum: None, target_path }
    }
}

/// An entity tag without the quotes around it; as it is where it has
/// none.
pub open spec fn unquoted(raw: Seq<char>) -> Seq<char> {
    if raw.len() >= 2 && raw[0] == '"' && raw.last() == '"' {
        raw.subrange(1, raw.len() - 1)
    } else {
        raw
    }
}

/// The entity tag that a response carries, without the quotes around it.
pub fn get_etag(header: Option<&str>) -> (r: Option<String>)
    ensures
        r is Some <==> header is Some,
        r matches Some(tag) ==> tag@ == unquoted(header.unwrap()@),
{
    match header {
        Some(raw) => {
            let chars = chars_of(raw);
            let n = chars.len();
            if n >= 2 && chars[0] == '"' && chars[n - 1] == '"' {
                Some(text_of(&chars, 1, n - 1))
            } else {
                Some(String::from_str(raw))
            }
        },
        None => None,
    }
}

/// The path of a file beside another: `name` in the directory of `path`.
pub open spec fn spec_sibling(path: Seq<char>, name: Seq<char>) -> Seq<char> {
    match find_last_char(path, '/', path.len() as int) {
        Some(i) => path.take(i) + seq!['/'] + name,
        None => name,
    }
}

/// The path of a file beside another.
pub fn sibling(path: &str, name: &str) -> (r: String)
    ensures
        r@ == spec_sibling(path@, name@),
{
    let chars = chars_of(path);
    match find_last(&chars, '/') {
        Some(i) => {
            let mut out = chars_of(text_of(&chars, 0, i).as_str());
            assert(out@ =~= path@.take(i as int));
            out.push('/');
            let tail = chars_of(name);
            push_all(&mut out, &tail);
            let n = out.len();
            let r = text_of(&out, 0, n);
            assert(out@.subrange(0, n as int) =~= out@);
            r
        },
        None => String::from_str(name),
    }
}

/// Whether a status code stands for success.
pub open spec fn spec_is_success(status: u16) -> bool {
    200 <= status < 300
}

/// Whether a status code stands for success.
pub fn is_success(status: u16) -> (r: bool)
    ensures
        r == spec_is_success(status),
{
    200 <= status && status < 300
}

/// The value of a decimal digit.
pub open spec fn digit_value(c: char) -> Option<u64> {
    if '0' <= c <= '9' {
        Some((c as u64 - '0' as u64) as u64)
    } else {
        None
    }
}

/// Reading digits from the left: the number read so far is `acc`, and
/// `digits` are still to come. The first character that is no digit, or
/// the first digit with which the number no longer fits, ends it.
pub open spec fn read_digits(digits: Seq<char>, acc: u64) -> Result<u64, IntError>
    decreases digits.len(),
{
    if digits.len() == 0 {
        Ok(acc)
    } else {
        match digit_value(digits[0]) {
            None => Err(IntError::InvalidDigit),
            Some(d) => if acc * 10 + d > u64::MAX {
                Err(IntError::PosOverflow)
            } else {
                read_digits(digits.drop_first(), (acc * 10 + d) as u64)
            },
        }
    }
}

/// The number that a text stands for: decimal digits, after a plus sign
/// or without one.
pub open spec fn spec_parse_u64(s: Seq<char>) -> Result<u64, IntError> {
    if s.len() == 0 {
        Err(IntError::Empty)
    } else if s[0] == '+' {
        if s.len() == 1 {
            Err(IntError::InvalidDigit)
        } else {
            read_digits(s.drop_first(), 0)
        }
    } else {
        read_digits(s, 0)
    }
}

/// Reads a `Content-Length`.
pub fn parse_content_length(value: &str) -> (r: Result<u64, ErrorKind>)
    ensures
        r matches Ok(n) ==> (spec_parse_u64(value@) matches Ok(m) && m == n),
        r matches Err(e) ==> (e matches ErrorKind::ParseInt(k) && spec_parse_u64(value@) matches Err(x)
            && x == k),
{
    let chars = chars_of(value);
    let n = chars.len();
    if n == 0 {
        return Err(ErrorKind::ParseInt(IntError::Empty));
    }
    let start: usize = if chars[0] == '+' {
        1
    } else {
        0
    };
    if start == n {
        return Err(ErrorKind::ParseInt(IntError::InvalidDigit));
    }
    assert(chars@.skip(0) =~= chars@);
    assert(chars@.skip(1) =~= chars@.drop_first());
    let mut acc: u64 = 0;
    let mut i: usize = start;
    while i < n
        invariant
            n == chars@.len(),
            start <= i <= n,
            chars@ == value@,
            spec_parse_u64(value@) == read_digits(chars@.skip(i as int), acc),
        decreases n - i,
    {
        let c = chars[i];
        assert(chars@.skip(i as int)[0] == c);
        assert(chars@.skip(i as int).drop_first() =~= chars@.skip(i + 1));
        if c < '0' || c > '9' {
            return Err(ErrorKind::ParseInt(IntError::InvalidDigit));
        }
        let d: u64 = c as u64 - '0' as u64;
        if acc > (u64::MAX - d) / 10 {
            return Err(ErrorKind::ParseInt(IntError::PosOverflow));
        }
        acc = acc * 10 + d;
        i += 1;
    }
    Ok(acc)
}

/// How the outcome of a download is counted.
#[derive(Debug, Clone, Copy, PartialEq, Eq, Structural)]
pub enum FileOutcome {
    Success,
    Skipped,
    Failed,
}

/// How a download's result is counted: a file that was received is a
/// success; one that was already there is skipped; a status 404 is
/// skipped; any other status, and a wrong checksum, is a failure; every
/// other error is skipped.
pub open spec fn spec_outcome(result: Result<bool, ErrorSpec>) -> FileOutcome {
    match result {
        Ok(true) => FileOutcome::Success,
        Ok(false) => FileOutcome::Skipped,
        Err(ErrorSpec::Download { url, status_code }) => if status_code == 404 {
            FileOutcome::Skipped
        } else {
            FileOutcome::Failed
        },
        Err(ErrorSpec::Checksum { url, expected, hash }) => FileOutcome::Failed,
        Err(_) => FileOutcome::Skipped,
    }
}

/// The result of a download as a value.
pub open spec fn result_view(result: Result<bool, ErrorKind>) -> Result<bool, ErrorSpec> {
    match result {
        Ok(b) => Ok(b),
        Err(e) => Err(e@),
    }
}

/// How a download's result is counted.
pub fn outcome_of(result: &Result<bool, ErrorKind>) -> (r: FileOutcome)
    ensures
        r == spec_outcome(result_view(*result)),
{
    match result {
        Ok(true) => FileOutcome::Success,
        Ok(false) => FileOutcome::Skipped,
        Err(ErrorKind::Download { url: _, status_code }) => if *status_code == 404 {
            FileOutcome::Skipped
        } else {
            FileOutcome::Failed
        },
        Err(ErrorKind::Checksum { .. }) => FileOutcome::Failed,
        Err(_) => FileOutcome::Skipped,
    }
}

/// Counts the result of one download among the files.
pub fn download_and_track(progress: &mut Progress, result: &Result<bool, ErrorKind>)
    ensures
        final(progress).files.spec_total() == old(progress).files.spec_total(),
        final(progress).files.spec_success() == (if spec_outcome(result_view(*result)) == FileOutcome::Success {
            wrapped(old(progress).files.spec_success(), 1)
        } else {
            old(progress).files.spec_success()
        }),
        final(progress).files.spec_skipped() == (if spec_outcome(result_view(*result)) == FileOutcome::Skipped {
            wrapped(old(progress).files.spec_skipped(), 1)
        } else {
            old(progress).files.spec_skipped()
        }),
        final(progress).files.spec_failed() == (if spec_outcome(result_view(*result)) == FileOutcome::Failed {
            wrapped(old(progress).files.spec_failed(), 1)
        } else {
            old(progress).files.spec_failed()
        }),
        final(progress).bytes == old(progress).bytes,
        final(progress).step == old(progress).step,
        final(progress).step_name == old(progress).step_name,
        final(progress).total_bytes == old(progress).total_bytes,
        final(progress).total_steps == old(progress).total_steps,
{
    match outcome_of(result) {
        FileOutcome::Success => progress.files.inc_success(1),
        FileOutcome::Skipped => progress.files.inc_skipped(1),
        FileOutcome::Failed => progress.files.inc_failed(1),
    }
}

/// A download as a mathematical value.
pub enum DownloadSpec {
    Metadata { url: Seq<char>, package: Seq<char>, target_path: Seq<char> },
    Tarball { url: Seq<char>, target_path: Seq<char>, checksum: Option<Seq<u8>> },
}

impl View for Download {
    type V = DownloadSpec;

    open spec fn view(&self) -> DownloadSpec {
        match self {
            Download::Metadata { url, package, target_path } => DownloadSpec::Metadata {
                url: url@,
                package: package@,
                target_path: target_path@,
            },
            Download::Tarball { url, target_path, checksum } => DownloadSpec::Tarball {
                url: url@,
                target_path: target_path@,
                checksum: match checksum {
                    Some(c) => Some(c@),
                    None => None,
                },
            },
        }
    }
}

/// The download of a package's metadata document, as a value.
pub open spec fn spec_metadata_download(opts: &CliOpts, package: Seq<char>) -> DownloadSpec {
    DownloadSpec::Metadata {
        url: spec_metadata_url(opts.registry_url@, package),
        package,
        target_path: spec_local_metadata_path(opts.output@, package),
    }
}

/// The download of a tarball that an index names, as a value.
pub open spec fn spec_tarball_download(opts: &CliOpts, package: Seq<char>, tarball: TarballSpec) -> DownloadSpec {
    DownloadSpec::Tarball {
        url: spec_tarball_url(opts.registry_url@, package, tarball),
        target_path: spec_tarball_target(
            opts.output@,
            opts.registry_url@,
            package,
            spec_tarball_url(opts.registry_url@, package, tarball),
        ),
        checksum: None,
    }
}

/// The downloads of a list, as values.
pub open spec fn download_views(list: Seq<Download>) -> Seq<DownloadSpec> {
    list.map_values(|d: Download| d@)
}

/// The download queue as a mathematical value: what is queued, how many
/// files are expected, and whether the queue is closed.
pub struct QueueSpec {
    pub pending: Seq<DownloadSpec>,
    pub expected: u64,
    pub closed: bool,
}

impl QueueSpec {
    /// The queue after a download was offered to it: one more file is
    /// expected, and the download is queued unless the queue is closed.
    pub open spec fn enqueue(self, download: DownloadSpec) -> QueueSpec {
        QueueSpec {
            pending: if self.closed {
                self.pending
            } else {
                self.pending.push(download)
            },
            expected: wrapped(self.expected, 1),
            closed: self.closed,
        }
    }
}

/// How many downloads the queue between the traversal and the workers
/// holds at most.
pub const QUEUE_CAPACITY: usize = 1024;

/// How many bytes a worker's buffer holds at first.
pub const WORKER_BUFFER: usize = 1048576;

/// The traversal's side of the download queue: the downloads that were
/// queued and not yet handed to the workers, and the progress of the
/// current step.
pub struct Downloader {
    pub pending: Vec<Download>,
    pub closed: bool,
    pub progress: Progress,
}

impl Downloader {
    /// The downloads queued and not yet handed on, as values.
    pub open spec fn spec_pending(&self) -> Seq<DownloadSpec> {
        download_views(self.pending@)
    }

    /// The queue as a value.
    pub open spec fn model(&self) -> QueueSpec {
        QueueSpec {
            pending: self.spec_pending(),
            expected: self.progress.files.spec_total(),
            closed: self.closed,
        }
    }

    /// Whether two downloaders differ at most in what is queued and in
    /// how many files are expected.
    pub open spec fn same_besides_queue(&self, other: &Downloader) -> bool {
        &&& self.progress.files.spec_success() == other.progress.files.spec_success()
        &&& self.progress.files.spec_skipped() == other.progress.files.spec_skipped()
        &&& self.progress.files.spec_failed() == other.progress.files.spec_failed()
        &&& self.progress.bytes == other.progress.bytes
        &&& self.progress.step == other.progress.step
        &&& self.progress.step_name == other.progress.step_name
        &&& self.progress.total_bytes == other.progress.total_bytes
        &&& self.progress.total_steps == other.progress.total_steps
    }

    /// A downloader with nothing queued, before the first step.
    pub fn build(opts: &CliOpts) -> (r: Self)
        ensures
            r.spec_pending() == Seq::<DownloadSpec>::empty(),
            r.model() == (QueueSpec { pending: Seq::empty(), expected: 0, closed: false }),
            !r.closed,
            r.progress.step == 0,
            r.progress.files == crate::progress::ProgressPart::zero(),
            r.progress.bytes == crate::progress::ProgressPart::zero(),
            r.progress.total_bytes == 0,
            r.progress.total_steps == 4,
    {
        let r = Downloader { pending: Vec::new(), closed: false, progress: Progress::new() };
        assert(r.spec_pending() =~= Seq::<DownloadSpec>::empty());
        proof {
            crate::progress::ProgressPart::lemma_zero();
        }
        r
    }

    /// Queues a download. One more file is expected from then on, whether
    /// or not the queue takes the download; a closed queue refuses it.
    pub fn queue(&mut self, download_entry: Download) -> (r: Result<(), ErrorKind>)
        ensures
            r is Ok <==> !old(self).closed,
            r matches Err(e) ==> e is AsyncChannelSend,
            final(self).model() == old(self).model().enqueue(download_entry@),
            final(self).same_besides_queue(old(self)),
    {
        self.progress.files.inc_total(1);
        if self.closed {
            return Err(ErrorKind::AsyncChannelSend);
        }
        let ghost before = self.pending@;
        self.pending.push(download_entry);
        assert(download_views(self.pending@) =~= download_views(before).push(download_entry@));
        Ok(())
    }

    /// The progress of the current step.
    pub fn progress(&self) -> (r: Progress)
        ensures
            r.step == self.progress.step,
            r.step_name@ == self.progress.step_name@,
            r.files == self.progress.files,
            r.bytes == self.progress.bytes,
            r.total_bytes == self.progress.total_bytes,
            r.total_steps == self.progress.total_steps,
    {
        self.progress.clone()
    }

    /// Closes the queue: from now on it refuses every download.
    pub fn close(&mut self)
        ensures
            final(self).closed,
            final(self).pending == old(self).pending,
            final(self).progress == old(self).progress,
    {
        self.closed = true;
    }

    /// Hands the queued downloads on, oldest first, and leaves none
    /// queued.
    pub fn take_pending(&mut self) -> (r: Vec<Download>)
        ensures
            r == old(self).pending,
            final(self).pending@.len() == 0,
            final(self).closed == old(self).closed,
            final(self).progress == old(self).progress,
    {
        let mut out: Vec<Download> = Vec::new();
        std::mem::swap(&mut out, &mut self.pending);
        out
    }
}

} // verus!
