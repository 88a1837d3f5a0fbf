use npm_mirror::checksum::{Checksum, Hasher, Sha512Hasher};
use npm_mirror::downloader::{download_and_track, outcome_of, Download, FileOutcome};
use npm_mirror::error::{ErrorKind, IntError};
use npm_mirror::options::CliOpts;
use npm_mirror::progress::Progress;
use npm_mirror::worker::{accept, download, needs_downloading, Action, DownloadTask, Event, State};

fn metadata_task(package: &str) -> DownloadTask {
    let opts = CliOpts::default();
    DownloadTask::new(&opts, Download::metadata(&opts, package))
}

fn tarball_task(checksum: Option<Checksum>) -> DownloadTask {
    let opts = CliOpts::default();
    DownloadTask::new(
        &opts,
        Download::Tarball {
            url: "https://registry.npmjs.org/leaf/-/leaf-1.0.0.tgz".to_string(),
            target_path: "./output/leaf/-/leaf-1.0.0.tgz".to_string(),
            checksum,
        },
    )
}

fn digest_of(body: &[u8]) -> Checksum {
    let mut hasher = Sha512Hasher::new();
    hasher.consume(body);
    hasher.compute()
}

fn response(status: u16, etag: Option<&str>, content_length: Option<&str>) -> Event {
    Event::Response {
        status,
        etag: etag.map(|s| s.to_string()),
        content_length: content_length.map(|s| s.to_string()),
    }
}

#[test]
fn cached_metadata_is_loaded_and_skipped() {
    let mut task = metadata_task("x");
    assert!(matches!(task.advance(Event::Begin), Action::Head { url } if url == "https://registry.npmjs.org/x"));
    let probe = task.advance(Event::Head { etag: Some("\"abc\"".to_string()) });
    assert!(matches!(probe, Action::Exists { path } if path == "./output/x/abc"));
    let load = task.advance(Event::Exists(true));
    assert!(matches!(load, Action::Load { idx_path, package }
        if idx_path == "./output/x/index.json.idx" && package == "x"));
    assert!(!task.is_finished());
    let end = task.advance(Event::Done);
    assert!(task.is_finished());
    match end {
        Action::Finish(result) => {
            assert!(matches!(result, Ok(false)));
            assert_eq!(outcome_of(&result), FileOutcome::Skipped);
            let mut progress = Progress::new();
            progress.files.inc_total(1);
            download_and_track(&mut progress, &result);
            assert_eq!(progress.files.success(), 0);
            assert_eq!(progress.files.skipped(), 1);
        },
        other => panic!("{:?}", other),
    }
}

#[test]
fn fresh_metadata_with_an_etag_is_stored_under_the_tag() {
    let mut task = metadata_task("x");
    task.advance(Event::Begin);
    task.advance(Event::Head { etag: Some("\"abc\"".to_string()) });
    assert!(matches!(task.advance(Event::Exists(false)), Action::Get { url } if url == "https://registry.npmjs.org/x"));
    let receive = task.advance(response(200, Some("\"abc\""), Some("42")));
    assert!(matches!(receive, Action::Receive { expect_bytes: Some(42) }));
    match task.advance(Event::Done) {
        Action::Store { path, link, idx_path } => {
            assert_eq!(path, "./output/x/abc");
            assert_eq!(link, Some("abc".to_string()));
            assert_eq!(idx_path, "./output/x/index.json.idx");
        },
        other => panic!("{:?}", other),
    }
    assert!(!task.is_finished());
    assert!(matches!(task.advance(Event::Done), Action::Finish(Ok(true))));
    assert!(task.is_finished());
}

#[test]
fn metadata_without_an_etag_is_stored_at_the_target() {
    let mut task = metadata_task("x");
    task.advance(Event::Begin);
    assert!(matches!(task.advance(Event::Head { etag: None }), Action::Get { .. }));
    assert!(matches!(task.advance(response(200, None, None)), Action::Receive { expect_bytes: None }));
    match task.advance(Event::Done) {
        Action::Store { path, link, idx_path } => {
            assert_eq!(path, "./output/x/index.json");
            assert_eq!(link, None);
            assert_eq!(idx_path, "./output/x/index.json.idx");
        },
        other => panic!("{:?}", other),
    }
}

#[test]
fn a_failed_head_request_goes_on_to_get() {
    let mut task = metadata_task("x");
    task.advance(Event::Begin);
    assert!(matches!(task.advance(Event::HeadFailed), Action::Get { url } if url == "https://registry.npmjs.org/x"));
}

#[test]
fn a_missing_document_is_skipped() {
    let mut task = metadata_task("x");
    task.advance(Event::Begin);
    task.advance(Event::HeadFailed);
    match task.advance(response(404, None, None)) {
        Action::Finish(result) => {
            assert!(matches!(&result, Err(ErrorKind::Download { url, status_code: 404 })
                if url == "https://registry.npmjs.org/x"));
            assert_eq!(outcome_of(&result), FileOutcome::Skipped);
        },
        other => panic!("{:?}", other),
    }
    assert!(task.is_finished());
}

#[test]
fn a_server_error_is_a_failure() {
    let mut task = metadata_task("x");
    task.advance(Event::Begin);
    task.advance(Event::HeadFailed);
    match task.advance(response(500, None, Some("junk"))) {
        Action::Finish(result) => {
            assert!(matches!(&result, Err(ErrorKind::Download { status_code: 500, .. })));
            assert_eq!(outcome_of(&result), FileOutcome::Failed);
        },
        other => panic!("{:?}", other),
    }
}

#[test]
fn a_content_length_that_is_no_number_ends_the_download() {
    let mut task = metadata_task("x");
    task.advance(Event::Begin);
    task.advance(Event::HeadFailed);
    match task.advance(response(200, None, Some("12x"))) {
        Action::Finish(result) => {
            assert!(matches!(&result, Err(ErrorKind::ParseInt(IntError::InvalidDigit))));
            assert_eq!(outcome_of(&result), FileOutcome::Skipped);
        },
        other => panic!("{:?}", other),
    }
}

#[test]
fn a_failed_action_ends_the_download_with_its_error() {
    let mut task = metadata_task("x");
    task.advance(Event::Begin);
    task.advance(Event::HeadFailed);
    task.advance(response(200, None, None));
    match task.advance(Event::Failed(ErrorKind::Serde("no json".to_string()))) {
        Action::Finish(Err(ErrorKind::Serde(m))) => assert_eq!(m, "no json"),
        other => panic!("{:?}", other),
    }
    let mut task = metadata_task("x");
    task.advance(Event::Begin);
    task.advance(Event::Head { etag: Some("t".to_string()) });
    task.advance(Event::Exists(true));
    assert!(matches!(task.advance(Event::Failed(ErrorKind::Io("gone".to_string()))), Action::Finish(Err(ErrorKind::Io(_)))));
}

#[test]
fn an_event_out_of_place_ends_the_download() {
    let mut task = metadata_task("x");
    assert!(matches!(task.advance(Event::Done), Action::Finish(Err(ErrorKind::Io(_)))));
    assert!(task.is_finished());
    assert!(matches!(task.advance(Event::Begin), Action::Finish(Err(ErrorKind::Io(_)))));
    let mut task = tarball_task(None);
    task.advance(Event::Begin);
    assert!(matches!(task.advance(Event::Head { etag: None }), Action::Finish(Err(ErrorKind::Io(_)))));
}

#[test]
fn a_tarball_that_is_there_is_skipped() {
    let mut task = tarball_task(None);
    assert!(matches!(task.advance(Event::Begin), Action::Exists { path } if path == "./output/leaf/-/leaf-1.0.0.tgz"));
    assert!(matches!(task.advance(Event::Exists(true)), Action::Finish(Ok(false))));
}

#[test]
fn a_tarball_without_a_checksum_is_streamed() {
    let mut task = tarball_task(None);
    task.advance(Event::Begin);
    assert!(matches!(task.advance(Event::Exists(false)), Action::Get { url }
        if url == "https://registry.npmjs.org/leaf/-/leaf-1.0.0.tgz"));
    match task.advance(response(200, None, Some("128"))) {
        Action::Stream { path, expect_bytes, hash } => {
            assert_eq!(path, "./output/leaf/-/leaf-1.0.0.tgz");
            assert_eq!(expect_bytes, Some(128));
            assert!(!hash);
        },
        other => panic!("{:?}", other),
    }
    assert!(matches!(task.advance(Event::Streamed { digest: None }), Action::Finish(Ok(true))));
}

#[test]
fn a_tarball_with_the_right_checksum_is_received() {
    let body = [7u8; 128];
    let mut task = tarball_task(Some(digest_of(&body)));
    task.advance(Event::Begin);
    task.advance(Event::Exists(false));
    assert!(matches!(task.advance(response(200, None, None)), Action::Stream { hash: true, expect_bytes: None, .. }));
    let mut hasher = digest_of(&body).create_hasher();
    hasher.consume(&body[..100]);
    hasher.consume(&body[100..]);
    let end = task.advance(Event::Streamed { digest: Some(hasher.compute()) });
    assert!(matches!(end, Action::Finish(Ok(true))));
}

#[test]
fn a_tarball_with_a_wrong_checksum_is_deleted_and_fails() {
    let expected = digest_of(b"what was promised");
    let got = digest_of(b"what was served");
    let mut task = tarball_task(Some(expected.clone()));
    task.advance(Event::Begin);
    task.advance(Event::Exists(false));
    task.advance(response(200, None, Some("15")));
    let discard = task.advance(Event::Streamed { digest: Some(got.clone()) });
    assert!(matches!(discard, Action::Discard { path } if path == "./output/leaf/-/leaf-1.0.0.tgz"));
    assert!(!task.is_finished());
    match task.advance(Event::Done) {
        Action::Finish(result) => {
            match &result {
                Err(ErrorKind::Checksum { url, expected: e, hash }) => {
                    assert_eq!(url, "https://registry.npmjs.org/leaf/-/leaf-1.0.0.tgz");
                    assert_eq!(e, &expected.to_string());
                    assert_eq!(hash, &got.to_string());
                },
                other => panic!("{:?}", other),
            }
            let mut progress = Progress::new();
            progress.files.inc_total(2);
            download_and_track(&mut progress, &result);
            assert_eq!(progress.files.failed(), 1);
            let mut sibling = tarball_task(None);
            sibling.advance(Event::Begin);
            sibling.advance(Event::Exists(false));
            sibling.advance(response(200, None, None));
            match sibling.advance(Event::Streamed { digest: None }) {
                Action::Finish(ok) => download_and_track(&mut progress, &ok),
                other => panic!("{:?}", other),
            }
            assert_eq!(progress.files.success(), 1);
            assert_eq!(progress.files.failed(), 1);
            assert_eq!(progress.files.remaining(), 0);
        },
        other => panic!("{:?}", other),
    }
}

#[test]
fn a_checksum_without_a_digest_ends_the_download() {
    let mut task = tarball_task(Some(digest_of(b"x")));
    task.advance(Event::Begin);
    task.advance(Event::Exists(false));
    task.advance(response(200, None, None));
    assert!(matches!(task.advance(Event::Streamed { digest: None }), Action::Finish(Err(ErrorKind::Io(_)))));
}

#[test]
fn a_failed_deletion_is_reported() {
    let mut task = tarball_task(Some(digest_of(b"a")));
    task.advance(Event::Begin);
    task.advance(Event::Exists(false));
    task.advance(response(200, None, None));
    task.advance(Event::Streamed { digest: Some(digest_of(b"b")) });
    assert!(matches!(
        task.advance(Event::Failed(ErrorKind::Io("busy".to_string()))),
        Action::Finish(Err(ErrorKind::Io(m))) if m == "busy"
    ));
}

#[test]
fn a_missing_tarball_is_skipped_and_a_refused_one_fails() {
    for (status, outcome) in [(404u16, FileOutcome::Skipped), (403u16, FileOutcome::Failed)] {
        let mut task = tarball_task(None);
        task.advance(Event::Begin);
        task.advance(Event::Exists(false));
        match task.advance(response(status, None, None)) {
            Action::Finish(result) => assert_eq!(outcome_of(&result), outcome),
            other => panic!("{:?}", other),
        }
    }
}

#[test]
fn accept_reads_status_and_length() {
    assert!(matches!(accept("u", 200, &None), Ok(None)));
    assert!(matches!(accept("u", 201, &Some("7".to_string())), Ok(Some(7))));
    assert!(matches!(accept("u", 301, &None), Err(ErrorKind::Download { status_code: 301, .. })));
    assert!(matches!(accept("u", 200, &Some(String::new())), Err(ErrorKind::ParseInt(IntError::Empty))));
}

#[test]
fn only_a_tag_whose_file_is_there_spares_the_download() {
    assert!(!needs_downloading(&Some("abc".to_string()), true));
    assert!(needs_downloading(&Some("abc".to_string()), false));
    assert!(needs_downloading(&None, true));
    assert!(needs_downloading(&None, false));
}

#[test]
fn the_step_function_goes_by_the_kind_of_download() {
    let opts = CliOpts::default();
    let meta = Download::metadata(&opts, "x");
    let (state, action) = download(&opts, &meta, State::Start, Event::Begin);
    assert!(matches!(state, State::Heading));
    assert!(matches!(action, Action::Head { .. }));
    let tarball = Download::Tarball { url: "u".to_string(), target_path: "t".to_string(), checksum: None };
    let (state, action) = download(&opts, &tarball, State::Start, Event::Begin);
    assert!(matches!(state, State::Probing));
    assert!(matches!(action, Action::Exists { path } if path == "t"));
}

#[test]
fn a_task_keeps_the_settings_and_the_download() {
    let mut opts = CliOpts::default();
    opts.output = "/srv/out".to_string();
    opts.registry_url = "https://r.example".to_string();
    opts.manifests_path = "/m".to_string();
    opts.dl_threads = 3;
    opts.verbose = true;
    opts.greedy = true;
    opts.no_dev_deps = true;
    let task = DownloadTask::new(&opts, Download::metadata(&opts, "x"));
    assert_eq!(task.opts.output, "/srv/out");
    assert_eq!(task.opts.registry_url, "https://r.example");
    assert_eq!(task.opts.manifests_path, "/m");
    assert_eq!(task.opts.dl_threads, 3);
    assert!(task.opts.verbose && task.opts.greedy && task.opts.no_dev_deps);
    assert!(!task.opts.no_optional_deps && !task.opts.no_peer_deps);
    assert!(matches!(&task.download, Download::Metadata { url, .. } if url == "https://r.example/x"));
    assert!(matches!(task.state, State::Start));
}

#[test]
fn a_document_that_does_not_parse_is_not_stored() {
    let mut task = metadata_task("x");
    task.advance(Event::Begin);
    task.advance(Event::HeadFailed);
    assert!(matches!(task.advance(response(200, Some("\"abc\""), None)), Action::Receive { .. }));
    match task.advance(Event::Failed(ErrorKind::Serde("expected value".to_string()))) {
        Action::Finish(result) => {
            assert!(matches!(&result, Err(ErrorKind::Serde(m)) if m == "expected value"));
            assert_eq!(outcome_of(&result), FileOutcome::Skipped);
        },
        other => panic!("{:?}", other),
    }
    assert!(task.is_finished());
}

#[test]
fn a_failed_store_ends_the_download() {
    let mut task = metadata_task("x");
    task.advance(Event::Begin);
    task.advance(Event::HeadFailed);
    task.advance(response(200, None, None));
    assert!(matches!(task.advance(Event::Done), Action::Store { .. }));
    assert!(matches!(
        task.advance(Event::Failed(ErrorKind::Io("disk full".to_string()))),
        Action::Finish(Err(ErrorKind::Io(m))) if m == "disk full"
    ));
}
