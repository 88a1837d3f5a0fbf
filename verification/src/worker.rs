//! How a worker carries out one download: a machine that is told what
//! happened and says what to do next. The worker does the transfers and
//! the file operations; every decision is taken here.

use crate::checksum::{hex_encoded, Checksum};
use crate::downloader::{get_etag, is_success, parse_content_length, sibling, spec_is_success};
use crate::downloader::{result_view, spec_outcome, spec_parse_u64, spec_sibling, unquoted};
use crate::downloader::{Download, FileOutcome};
use crate::error::{ErrorKind, ErrorSpec};
use crate::metadata::{local_metadata_idx_path, spec_local_metadata_idx_path};
use crate::options::CliOpts;
use vstd::prelude::*;

verus! {

/// What happened.
#[derive(Debug)]
pub enum Event {
    /// The download is taken up.
    Begin,
    /// The HEAD request failed, or its status was no success.
    HeadFailed,
    /// The HEAD request succeeded; the entity tag of the response.
    Head { etag: Option<String> },
    /// Whether the path asked about exists.
    Exists(bool),
    /// The GET request was answered.
    Response { status: u16, etag: Option<String>, content_length: Option<String> },
    /// The body was written to the file; the digest of its bytes, where
    /// one was asked for.
    Streamed { digest: Option<Checksum> },
    /// The action asked for was carried out.
    Done,
    /// The action asked for failed.
    Failed(ErrorKind),
}

/// What to do next.
#[derive(Debug)]
pub enum Action {
    /// Send a HEAD request.
    Head { url: String },
    /// Say whether the path exists.
    Exists { path: String },
    /// Send a GET request.
    Get { url: String },
    /// Receive the document into memory and check that it parses.
    Receive { expect_bytes: Option<u64> },
    /// Write the document received to `path`, store its index in the
    /// cache and at `idx_path`, and where `link` is given, renew the link
    /// beside `path` that points to it.
    Store { path: String, link: Option<String>, idx_path: String },
    /// Read the index at `idx_path` and put it into the cache under
    /// `package`.
    Load { idx_path: String, package: String },
    /// Write the body to `path`, and hash it where `hash` is set.
    Stream { path: String, expect_bytes: Option<u64>, hash: bool },
    /// Delete the file at `path`.
    Discard { path: String },
    /// The download is over: whether a file was received, or what went
    /// wrong.
    Finish(Result<bool, ErrorKind>),
}

/// Where a download stands.
#[derive(Debug)]
pub enum State {
    Start,
    Heading,
    Probing,
    Getting,
    Receiving { path: String, link: Option<String>, idx_path: String },
    Storing,
    Loading,
    Streaming,
    Discarding { expected: String, hash: String },
    Finished,
}

/// An optional text as a value.
pub open spec fn opt_text(t: Option<String>) -> Option<Seq<char>> {
    match t {
        Some(s) => Some(s@),
        None => None,
    }
}

/// An event as a mathematical value.
pub enum EventSpec {
    Begin,
    HeadFailed,
    Head { etag: Option<Seq<char>> },
    Exists(bool),
    Response { status: u16, etag: Option<Seq<char>>, content_length: Option<Seq<char>> },
    Streamed { digest: Option<Seq<u8>> },
    Done,
    Failed(ErrorSpec),
}

/// An action as a mathematical value.
pub enum ActionSpec {
    Head { url: Seq<char> },
    Exists { path: Seq<char> },
    Get { url: Seq<char> },
    Receive { expect_bytes: Option<u64> },
    Store { path: Seq<char>, link: Option<Seq<char>>, idx_path: Seq<char> },
    Load { idx_path: Seq<char>, package: Seq<char> },
    Stream { path: Seq<char>, expect_bytes: Option<u64>, hash: bool },
    Discard { path: Seq<char> },
    Finish(Result<bool, ErrorSpec>),
}

/// A state as a mathematical value.
pub enum StateSpec {
    Start,
    Heading,
    Probing,
    Getting,
    Receiving { path: Seq<char>, link: Option<Seq<char>>, idx_path: Seq<char> },
    Storing,
    Loading,
    Streaming,
    Discarding { expected: Seq<char>, hash: Seq<char> },
    Finished,
}

impl View for Event {
    type V = EventSpec;

    open spec fn view(&self) -> EventSpec {
        match self {
            Event::Begin => EventSpec::Begin,
            Event::HeadFailed => EventSpec::HeadFailed,
            Event::Head { etag } => EventSpec::Head { etag: opt_text(*etag) },
            Event::Exists(b) => EventSpec::Exists(*b),
            Event::Response { status, etag, content_length } => EventSpec::Response {
                status: *status,
                etag: opt_text(*etag),
                content_length: opt_text(*content_length),
            },
            Event::Streamed { digest } => EventSpec::Streamed {
                digest: match digest {
                    Some(c) => Some(c@),
                    None => None,
                },
            },
            Event::Done => EventSpec::Done,
            Event::Failed(e) => EventSpec::Failed(e@),
        }
    }
}

impl View for Action {
    type V = ActionSpec;

    open spec fn view(&self) -> ActionSpec {
        match self {
            Action::Head { url } => ActionSpec::Head { url: url@ },
            Action::Exists { path } => ActionSpec::Exists { path: path@ },
            Action::Get { url } => ActionSpec::Get { url: url@ },
            Action::Receive { expect_bytes } => ActionSpec::Receive { expect_bytes: *expect_bytes },
            Action::Store { path, link, idx_path } => ActionSpec::Store {
                path: path@,
                link: opt_text(*link),
                idx_path: idx_path@,
            },
            Action::Load { idx_path, package } => ActionSpec::Load { idx_path: idx_path@, package: package@ },
            Action::Stream { path, expect_bytes, hash } => ActionSpec::Stream {
                path: path@,
                expect_bytes: *expect_bytes,
                hash: *hash,
            },
            Action::Discard { path } => ActionSpec::Discard { path: path@ },
            Action::Finish(r) => ActionSpec::Finish(result_view(*r)),
        }
    }
}

impl View for State {
    type V = StateSpec;

    open spec fn view(&self) -> StateSpec {
        match self {
            State::Start => StateSpec::Start,
            State::Heading => StateSpec::Heading,
            State::Probing => StateSpec::Probing,
            State::Getting => StateSpec::Getting,
            State::Receiving { path, link, idx_path } => StateSpec::Receiving {
                path: path@,
                link: opt_text(*link),
                idx_path: idx_path@,
            },
            State::Storing => StateSpec::Storing,
            State::Loading => StateSpec::Loading,
            State::Streaming => StateSpec::Streaming,
            State::Discarding { expected, hash } => StateSpec::Discarding { expected: expected@, hash: hash@ },
            State::Finished => StateSpec::Finished,
        }
    }
}

/// The end of a download with a result.
pub open spec fn finish(result: Result<bool, ErrorSpec>) -> (StateSpec, ActionSpec) {
    (StateSpec::Finished, ActionSpec::Finish(result))
}

/// The end of a download that was told something that cannot happen
/// where it stands.
pub open spec fn unexpected() -> (StateSpec, ActionSpec) {
    finish(Err(ErrorSpec::Io("unexpected event"@)))
}

/// What a response allows: nothing where its status is no success or its
/// `Content-Length` is no number, else the number of bytes to expect,
/// where it says so.
pub open spec fn spec_accept(url: Seq<char>, status: u16, content_length: Option<Seq<char>>) -> Result<
    Option<u64>,
    ErrorSpec,
> {
    if !spec_is_success(status) {
        Err(ErrorSpec::Download { url, status_code: status })
    } else {
        match content_length {
            None => Ok(None),
            Some(text) => match spec_parse_u64(text) {
                Ok(n) => Ok(Some(n)),
                Err(k) => Err(ErrorSpec::ParseInt(k)),
            },
        }
    }
}

/// Whether a document must be fetched: not where the HEAD request gave an
/// entity tag and the file named by it is there.
pub open spec fn spec_needs_downloading(head_etag: Option<Seq<char>>, etag_file_exists: bool) -> bool {
    !(head_etag is Some && etag_file_exists)
}

/// One step of a metadata download.
pub open spec fn spec_metadata_step(
    output: Seq<char>,
    url: Seq<char>,
    package: Seq<char>,
    target_path: Seq<char>,
    state: StateSpec,
    event: EventSpec,
) -> (StateSpec, ActionSpec) {
    match (state, event) {
        (StateSpec::Start, EventSpec::Begin) => (StateSpec::Heading, ActionSpec::Head { url }),
        (StateSpec::Heading, EventSpec::Head { etag: Some(raw) }) => (
            StateSpec::Probing,
            ActionSpec::Exists { path: spec_sibling(target_path, unquoted(raw)) },
        ),
        (StateSpec::Heading, EventSpec::Head { etag: None }) => (StateSpec::Getting, ActionSpec::Get { url }),
        (StateSpec::Heading, EventSpec::HeadFailed) => (StateSpec::Getting, ActionSpec::Get { url }),
        (StateSpec::Probing, EventSpec::Exists(exists)) => if spec_needs_downloading(
            Some(Seq::empty()),
            exists,
        ) {
            (StateSpec::Getting, ActionSpec::Get { url })
        } else {
            (
                StateSpec::Loading,
                ActionSpec::Load { idx_path: spec_local_metadata_idx_path(output, package), package },
            )
        },
        (StateSpec::Getting, EventSpec::Response { status, etag, content_length }) => match spec_accept(
            url,
            status,
            content_length,
        ) {
            Err(e) => finish(Err(e)),
            Ok(expect_bytes) => (
                StateSpec::Receiving {
                    path: match etag {
                        Some(raw) => spec_sibling(target_path, unquoted(raw)),
                        None => target_path,
                    },
                    link: match etag {
                        Some(raw) => Some(unquoted(raw)),
                        None => None,
                    },
                    idx_path: spec_sibling(target_path, "index.json.idx"@),
                },
                ActionSpec::Receive { expect_bytes },
            ),
        },
        (StateSpec::Receiving { path, link, idx_path }, EventSpec::Done) => (
            StateSpec::Storing,
            ActionSpec::Store { path, link, idx_path },
        ),
        (StateSpec::Receiving { path, link, idx_path }, EventSpec::Failed(e)) => finish(Err(e)),
        (StateSpec::Storing, EventSpec::Done) => finish(Ok(true)),
        (StateSpec::Loading, EventSpec::Done) => finish(Ok(false)),
        (StateSpec::Heading, EventSpec::Failed(e)) => finish(Err(e)),
        (StateSpec::Probing, EventSpec::Failed(e)) => finish(Err(e)),
        (StateSpec::Getting, EventSpec::Failed(e)) => finish(Err(e)),
        (StateSpec::Storing, EventSpec::Failed(e)) => finish(Err(e)),
        (StateSpec::Loading, EventSpec::Failed(e)) => finish(Err(e)),
        _ => unexpected(),
    }
}

/// One step of a tarball download.
pub open spec fn spec_tarball_step(
    url: Seq<char>,
    target_path: Seq<char>,
    checksum: Option<Seq<u8>>,
    state: StateSpec,
    event: EventSpec,
) -> (StateSpec, ActionSpec) {
    match (state, event) {
        (StateSpec::Start, EventSpec::Begin) => (StateSpec::Probing, ActionSpec::Exists { path: target_path }),
        (StateSpec::Probing, EventSpec::Exists(exists)) => if exists {
            finish(Ok(false))
        } else {
            (StateSpec::Getting, ActionSpec::Get { url })
        },
        (StateSpec::Getting, EventSpec::Response { status, etag, content_length }) => match spec_accept(
            url,
            status,
            content_length,
        ) {
            Err(e) => finish(Err(e)),
            Ok(expect_bytes) => (
                StateSpec::Streaming,
                ActionSpec::Stream { path: target_path, expect_bytes, hash: checksum is Some },
            ),
        },
        (StateSpec::Streaming, EventSpec::Streamed { digest }) => match checksum {
            None => finish(Ok(true)),
            Some(expected) => match digest {
                Some(got) => if got == expected {
                    finish(Ok(true))
                } else {
                    (
                        StateSpec::Discarding { expected: hex_encoded(expected), hash: hex_encoded(got) },
                        ActionSpec::Discard { path: target_path },
                    )
                },
                None => unexpected(),
            },
        },
        (StateSpec::Discarding { expected, hash }, EventSpec::Done) => finish(
            Err(ErrorSpec::Checksum { url, expected, hash }),
        ),
        (StateSpec::Probing, EventSpec::Failed(e)) => finish(Err(e)),
        (StateSpec::Getting, EventSpec::Failed(e)) => finish(Err(e)),
        (StateSpec::Streaming, EventSpec::Failed(e)) => finish(Err(e)),
        (StateSpec::Discarding { expected, hash }, EventSpec::Failed(e)) => finish(Err(e)),
        _ => unexpected(),
    }
}

/// Checksum integrity: a tarball download with an expected checksum ends
/// as received only when the body was streamed and its digest is the
/// expected one. A digest that differs has the file deleted, and the
/// download then ends with the checksum error that names both digests.
pub proof fn law_checksum_integrity(
    url: Seq<char>,
    target_path: Seq<char>,
    expected: Seq<u8>,
    state: StateSpec,
    event: EventSpec,
)
    ensures
        spec_tarball_step(url, target_path, Some(expected), state, event).1 == ActionSpec::Finish(Ok(true))
            <==> state is Streaming && event == (EventSpec::Streamed { digest: Some(expected) }),
        forall|got: Seq<u8>|
            got != expected ==> {
                let (next, action) = #[trigger] spec_tarball_step(
                    url,
                    target_path,
                    Some(expected),
                    StateSpec::Streaming,
                    EventSpec::Streamed { digest: Some(got) },
                );
                &&& action == ActionSpec::Discard { path: target_path }
                &&& spec_tarball_step(url, target_path, Some(expected), next, EventSpec::Done) == finish(
                    Err(
                        ErrorSpec::Checksum {
                            url,
                            expected: hex_encoded(expected),
                            hash: hex_encoded(got),
                        },
                    ),
                )
                &&& spec_outcome(
                    Err(
                        ErrorSpec::Checksum {
                            url,
                            expected: hex_encoded(expected),
                            hash: hex_encoded(got),
                        },
                    ),
                ) == FileOutcome::Failed
            },
{
}

/// Nothing is stored of a document before it was received and found to
/// parse: storing is asked for only when receiving is done, and a
/// document that was not received or does not parse ends the download
/// with that error.
pub proof fn law_store_follows_receive(
    output: Seq<char>,
    url: Seq<char>,
    package: Seq<char>,
    target_path: Seq<char>,
    state: StateSpec,
    event: EventSpec,
)
    ensures
        spec_metadata_step(output, url, package, target_path, state, event).1 is Store ==> state is Receiving
            && event is Done,
        state is Receiving ==> (event matches EventSpec::Failed(e) ==> spec_metadata_step(
            output,
            url,
            package,
            target_path,
            state,
            event,
        ) == finish(Err(e))),
{
}

/// Content-addressed metadata: where the HEAD request gives an entity tag
/// and the file named by it is there, the download asks for the stored
/// index to be loaded, sends no GET request, stores nothing, and ends as
/// skipped.
pub proof fn law_cached_metadata_is_skipped(
    output: Seq<char>,
    url: Seq<char>,
    package: Seq<char>,
    target_path: Seq<char>,
    raw_etag: Seq<char>,
)
    ensures
        ({
            let (s1, a1) = spec_metadata_step(
                output,
                url,
                package,
                target_path,
                StateSpec::Start,
                EventSpec::Begin,
            );
            let (s2, a2) = spec_metadata_step(
                output,
                url,
                package,
                target_path,
                s1,
                EventSpec::Head { etag: Some(raw_etag) },
            );
            let (s3, a3) = spec_metadata_step(output, url, package, target_path, s2, EventSpec::Exists(true));
            let (s4, a4) = spec_metadata_step(output, url, package, target_path, s3, EventSpec::Done);
            &&& a1 == ActionSpec::Head { url }
            &&& a2 == ActionSpec::Exists { path: spec_sibling(target_path, unquoted(raw_etag)) }
            &&& a3 == ActionSpec::Load {
                idx_path: spec_local_metadata_idx_path(output, package),
                package,
            }
            &&& a4 == ActionSpec::Finish(Ok(false))
            &&& s4 is Finished
            &&& spec_outcome(Ok(false)) == FileOutcome::Skipped
        }),
{
}

/// What a response allows.
pub fn accept(url: &str, status: u16, content_length: &Option<String>) -> (r: Result<Option<u64>, ErrorKind>)
    ensures
        r matches Ok(n) ==> (spec_accept(url@, status, opt_text(*content_length)) matches Ok(m) && m == n),
        r matches Err(e) ==> (spec_accept(url@, status, opt_text(*content_length)) matches Err(x) && x
            == e@),
{
    if !is_success(status) {
        return Err(ErrorKind::Download { url: String::from_str(url), status_code: status });
    }
    match content_length {
        None => Ok(None),
        Some(text) => match parse_content_length(text.as_str()) {
            Ok(n) => Ok(Some(n)),
            Err(e) => Err(e),
        },
    }
}

/// Whether a document must be fetched, given the entity tag of the HEAD
/// response and whether the file named by it is there.
pub fn needs_downloading(head_etag: &Option<String>, etag_file_exists: bool) -> (r: bool)
    ensures
        r == spec_needs_downloading(opt_text(*head_etag), etag_file_exists),
{
    !(head_etag.is_some() && etag_file_exists)
}

/// The end of a download that was told something that cannot happen
/// where it stands.
fn give_up() -> (r: (State, Action))
    ensures
        (r.0@, r.1@) == unexpected(),
{
    (State::Finished, Action::Finish(Err(ErrorKind::Io(String::from_str("unexpected event")))))
}

/// One step of a metadata download: from where it stands and what
/// happened to where it stands then and what to do next.
pub fn download_metadata(
    opts: &CliOpts,
    url: &str,
    package: &str,
    target_path: &str,
    state: State,
    event: Event,
) -> (r: (State, Action))
    ensures
        (r.0@, r.1@) == spec_metadata_step(opts.output@, url@, package@, target_path@, state@, event@),
{
    match (state, event) {
        (State::Start, Event::Begin) => (State::Heading, Action::Head { url: String::from_str(url) }),
        (State::Heading, Event::Head { etag: Some(raw) }) => {
            let tag = get_etag(Some(raw.as_str())).unwrap();
            (State::Probing, Action::Exists { path: sibling(target_path, tag.as_str()) })
        },
        (State::Heading, Event::Head { etag: None }) => (
            State::Getting,
            Action::Get { url: String::from_str(url) },
        ),
        (State::Heading, Event::HeadFailed) => (State::Getting, Action::Get { url: String::from_str(url) }),
        (State::Probing, Event::Exists(exists)) => {
            let tagged = Some(String::new());
            if needs_downloading(&tagged, exists) {
                (State::Getting, Action::Get { url: String::from_str(url) })
            } else {
                (
                    State::Loading,
                    Action::Load {
                        idx_path: local_metadata_idx_path(opts, package),
                        package: String::from_str(package),
                    },
                )
            }
        },
        (State::Getting, Event::Response { status, etag, content_length }) => {
            match accept(url, status, &content_length) {
                Err(e) => (State::Finished, Action::Finish(Err(e))),
                Ok(expect_bytes) => {
                    let link = match &etag {
                        Some(raw) => get_etag(Some(raw.as_str())),
                        None => None,
                    };
                    let path = match &link {
                        Some(tag) => sibling(target_path, tag.as_str()),
                        None => String::from_str(target_path),
                    };
                    (
                        State::Receiving { path, link, idx_path: sibling(target_path, "index.json.idx") },
                        Action::Receive { expect_bytes },
                    )
                },
            }
        },
        (State::Receiving { path, link, idx_path }, Event::Done) => (
            State::Storing,
            Action::Store { path, link, idx_path },
        ),
        (State::Receiving { path, link, idx_path }, Event::Failed(e)) => (
            State::Finished,
            Action::Finish(Err(e)),
        ),
        (State::Storing, Event::Done) => (State::Finished, Action::Finish(Ok(true))),
        (State::Loading, Event::Done) => (State::Finished, Action::Finish(Ok(false))),
        (State::Heading, Event::Failed(e)) => (State::Finished, Action::Finish(Err(e))),
        (State::Probing, Event::Failed(e)) => (State::Finished, Action::Finish(Err(e))),
        (State::Getting, Event::Failed(e)) => (State::Finished, Action::Finish(Err(e))),
        (State::Storing, Event::Failed(e)) => (State::Finished, Action::Finish(Err(e))),
        (State::Loading, Event::Failed(e)) => (State::Finished, Action::Finish(Err(e))),
        _ => give_up(),
    }
}

/// One step of a tarball download.
pub fn download_tarball(
    url: &str,
    target_path: &str,
    checksum: &Option<Checksum>,
    state: State,
    event: Event,
) -> (r: (State, Action))
    ensures
        (r.0@, r.1@) == spec_tarball_step(
            url@,
            target_path@,
            match *checksum {
                Some(c) => Some(c@),
                None => None,
            },
            state@,
            event@,
        ),
{
    match (state, event) {
        (State::Start, Event::Begin) => (State::Probing, Action::Exists { path: String::from_str(target_path) }),
        (State::Probing, Event::Exists(exists)) => if exists {
            (State::Finished, Action::Finish(Ok(false)))
        } else {
            (State::Getting, Action::Get { url: String::from_str(url) })
        },
        (State::Getting, Event::Response { status, etag, content_length }) => {
            match accept(url, status, &content_length) {
                Err(e) => (State::Finished, Action::Finish(Err(e))),
                Ok(expect_bytes) => (
                    State::Streaming,
                    Action::Stream {
                        path: String::from_str(target_path),
                        expect_bytes,
                        hash: checksum.is_some(),
                    },
                ),
            }
        },
        (State::Streaming, Event::Streamed { digest }) => match checksum {
            None => (State::Finished, Action::Finish(Ok(true))),
            Some(expected) => match digest {
                Some(got) => if got.same(expected) {
                    (State::Finished, Action::Finish(Ok(true)))
                } else {
                    (
                        State::Discarding { expected: expected.to_string(), hash: got.to_string() },
                        Action::Discard { path: String::from_str(target_path) },
                    )
                },
                None => give_up(),
            },
        },
        (State::Discarding { expected, hash }, Event::Done) => (
            State::Finished,
            Action::Finish(Err(ErrorKind::Checksum { url: String::from_str(url), expected, hash })),
        ),
        (State::Probing, Event::Failed(e)) => (State::Finished, Action::Finish(Err(e))),
        (State::Getting, Event::Failed(e)) => (State::Finished, Action::Finish(Err(e))),
        (State::Streaming, Event::Failed(e)) => (State::Finished, Action::Finish(Err(e))),
        (State::Discarding { expected, hash }, Event::Failed(e)) => (
            State::Finished,
            Action::Finish(Err(e)),
        ),
        _ => give_up(),
    }
}

/// One step of a download, metadata or tarball.
pub open spec fn spec_step(opts: &CliOpts, dl: Download, state: StateSpec, event: EventSpec) -> (
    StateSpec,
    ActionSpec,
) {
    match dl {
        Download::Metadata { url, package, target_path } => spec_metadata_step(
            opts.output@,
            url@,
            package@,
            target_path@,
            state,
            event,
        ),
        Download::Tarball { url, target_path, checksum } => spec_tarball_step(
            url@,
            target_path@,
            match checksum {
                Some(c) => Some(c@),
                None => None,
            },
            state,
            event,
        ),
    }
}

/// One step of a download, metadata or tarball.
pub fn download(opts: &CliOpts, dl: &Download, state: State, event: Event) -> (r: (State, Action))
    ensures
        (r.0@, r.1@) == spec_step(opts, *dl, state@, event@),
{
    match dl {
        Download::Metadata { url, package, target_path } => download_metadata(
            opts,
            url.as_str(),
            package.as_str(),
            target_path.as_str(),
            state,
            event,
        ),
        Download::Tarball { url, target_path, checksum } => download_tarball(
            url.as_str(),
            target_path.as_str(),
            checksum,
            state,
            event,
        ),
    }
}

/// A worker's hold on one download: the settings, the download, and where
/// it stands.
pub struct DownloadTask {
    pub opts: CliOpts,
    pub download: Download,
    pub state: State,
}

impl DownloadTask {
    /// The task for a download that was not taken up yet.
    pub fn new(opts: &CliOpts, download: Download) -> (r: Self)
        ensures
            r.download == download,
            r.state@ == StateSpec::Start,
            r.opts.same_settings(opts),
    {
        DownloadTask { opts: opts.clone(), download, state: State::Start }
    }

    /// Takes one step: the task is told what happened, and says what to
    /// do next.
    pub fn advance(&mut self, event: Event) -> (r: Action)
        ensures
            final(self).download == old(self).download,
            final(self).opts == old(self).opts,
            (final(self).state@, r@) == spec_step(&old(self).opts, old(self).download, old(self).state@, event@),
    {
        let mut state = State::Finished;
        std::mem::swap(&mut state, &mut self.state);
        let (next, action) = download(&self.opts, &self.download, state, event);
        self.state = next;
        action
    }

    /// Whether the download is over.
    pub fn is_finished(&self) -> (r: bool)
        ensures
            r == (self.state@ is Finished),
    {
        match self.state {
            State::Finished => true,
            _ => false,
        }
    }
}

} // verus!
