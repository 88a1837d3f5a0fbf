use npm_mirror::downloader::{
    download_and_track, get_etag, is_success, outcome_of, parse_content_length, sibling, Download, Downloader,
    FileOutcome, QUEUE_CAPACITY, WORKER_BUFFER,
};
use npm_mirror::error::{ErrorKind, IntError};
use npm_mirror::metadata::package_index::{strip_path, TarballUrl};
use npm_mirror::options::CliOpts;
use npm_mirror::progress::Progress;

fn tarball_parts(d: Download) -> (String, String, bool) {
    match d {
        Download::Tarball { url, target_path, checksum } => (url, target_path, checksum.is_some()),
        other => panic!("{:?}", other),
    }
}

#[test]
fn metadata_download_names_url_and_path() {
    let opts = CliOpts::default();
    match Download::metadata(&opts, "leaf") {
        Download::Metadata { url, package, target_path } => {
            assert_eq!(url, "https://registry.npmjs.org/leaf");
            assert_eq!(package, "leaf");
            assert_eq!(target_path, "./output/leaf/index.json");
        },
        other => panic!("{:?}", other),
    }
}

#[test]
fn metadata_download_drops_one_trailing_slash() {
    let mut opts = CliOpts::default();
    opts.registry_url = "https://r.example/".to_string();
    opts.output = "/out/".to_string();
    match Download::metadata(&opts, "@s/p") {
        Download::Metadata { url, package, target_path } => {
            assert_eq!(url, "https://r.example/@s/p");
            assert_eq!(package, "@s/p");
            assert_eq!(target_path, "/out/@s/p/index.json");
        },
        other => panic!("{:?}", other),
    }
}

#[test]
fn tarball_download_of_a_short_url() {
    let opts = CliOpts::default();
    let (url, target, has_checksum) =
        tarball_parts(Download::tarball(&opts, "leaf", &TarballUrl::Short("leaf-1.0.0.tgz".to_string())));
    assert_eq!(url, "https://registry.npmjs.org/leaf/-/leaf-1.0.0.tgz");
    assert_eq!(target, "./output/leaf/-/leaf-1.0.0.tgz");
    assert!(!has_checksum);
}

#[test]
fn tarball_download_of_a_full_url_of_the_registry_keeps_its_path() {
    let opts = CliOpts::default();
    let full = TarballUrl::Full("https://registry.npmjs.org/some/where/x.tgz".to_string());
    let (url, target, _) = tarball_parts(Download::tarball(&opts, "leaf", &full));
    assert_eq!(url, "https://registry.npmjs.org/some/where/x.tgz");
    assert_eq!(target, "./output/some/where/x.tgz");
}

#[test]
fn tarball_download_of_a_foreign_url_goes_by_its_last_segment() {
    let mut opts = CliOpts::default();
    opts.output = "out/".to_string();
    let full = TarballUrl::Full("https://elsewhere.example/a/b/leaf-1.0.0.tgz".to_string());
    let (url, target, _) = tarball_parts(Download::tarball(&opts, "leaf", &full));
    assert_eq!(url, "https://elsewhere.example/a/b/leaf-1.0.0.tgz");
    assert_eq!(target, "out/leaf/-/leaf-1.0.0.tgz");
    let bare = TarballUrl::Full("bare.tgz".to_string());
    let (_, target, _) = tarball_parts(Download::tarball(&opts, "leaf", &bare));
    assert_eq!(target, "out/leaf/-/bare.tgz");
}

#[test]
fn short_and_long_form_agree() {
    let opts = CliOpts::default();
    for (package, url) in [
        ("leaf", "https://registry.npmjs.org/leaf/-/leaf-1.0.0.tgz"),
        ("@scope/pkg", "https://registry.npmjs.org/@scope/pkg/-/pkg-2.0.0.tgz"),
        ("leaf", "https://elsewhere.example/leaf/-/leaf-1.0.0.tgz"),
        ("leaf", "https://registry.npmjs.org/leaf/leaf-1.0.0.tgz"),
    ] {
        let stripped = strip_path(url, package, &opts.registry_url);
        let (rebuilt, _, _) = tarball_parts(Download::tarball(&opts, package, &stripped));
        assert_eq!(rebuilt, url);
    }
}

#[test]
fn short_and_long_form_differ_for_a_name_earlier_in_the_path() {
    let opts = CliOpts::default();
    let url = "https://registry.npmjs.org/xfoo/-/a.tgz";
    let stripped = strip_path(url, "foo", &opts.registry_url);
    let (rebuilt, _, _) = tarball_parts(Download::tarball(&opts, "foo", &stripped));
    assert_eq!(rebuilt, "https://registry.npmjs.org/foo/-/a.tgz");
}

#[test]
fn etag_loses_its_quotes() {
    assert_eq!(get_etag(Some("\"abc\"")), Some("abc".to_string()));
    assert_eq!(get_etag(Some("\"\"")), Some(String::new()));
    assert_eq!(get_etag(Some("abc")), Some("abc".to_string()));
    assert_eq!(get_etag(None), None);
}

#[test]
fn etag_with_one_quote_stays_as_it_is() {
    assert_eq!(get_etag(Some("\"abc")), Some("\"abc".to_string()));
    assert_eq!(get_etag(Some("abc\"")), Some("abc\"".to_string()));
    assert_eq!(get_etag(Some("\"")), Some("\"".to_string()));
    assert_eq!(get_etag(Some("W/\"abc\"")), Some("W/\"abc\"".to_string()));
}

#[test]
fn sibling_lies_in_the_same_directory() {
    assert_eq!(sibling("./output/x/index.json", "abc"), "./output/x/abc");
    assert_eq!(sibling("/index.json", "abc"), "/abc");
    assert_eq!(sibling("index.json", "abc"), "abc");
    assert_eq!(sibling("a/b/c", "index.json.idx"), "a/b/index.json.idx");
}

#[test]
fn status_codes_of_success() {
    assert!(is_success(200));
    assert!(is_success(204));
    assert!(is_success(299));
    assert!(!is_success(199));
    assert!(!is_success(300));
    assert!(!is_success(404));
    assert!(!is_success(500));
}

#[test]
fn content_length_is_a_decimal_number() {
    assert_eq!(parse_content_length("128").unwrap(), 128);
    assert_eq!(parse_content_length("0").unwrap(), 0);
    assert_eq!(parse_content_length("007").unwrap(), 7);
    assert_eq!(parse_content_length("+5").unwrap(), 5);
    assert_eq!(parse_content_length("18446744073709551615").unwrap(), u64::MAX);
}

#[test]
fn content_length_errors_are_those_of_the_standard_parser() {
    for text in ["", "+", "12a", "-1", " 1", "1 ", "18446744073709551616", "99999999999999999999999", "+", "++1"] {
        assert_eq!(parse_content_length(text).is_ok(), text.parse::<u64>().is_ok(), "{:?}", text);
    }
    assert!(matches!(parse_content_length(""), Err(ErrorKind::ParseInt(IntError::Empty))));
    assert!(matches!(parse_content_length("+"), Err(ErrorKind::ParseInt(IntError::InvalidDigit))));
    assert!(matches!(parse_content_length("12a"), Err(ErrorKind::ParseInt(IntError::InvalidDigit))));
    assert!(matches!(parse_content_length("-1"), Err(ErrorKind::ParseInt(IntError::InvalidDigit))));
    assert!(matches!(
        parse_content_length("18446744073709551616"),
        Err(ErrorKind::ParseInt(IntError::PosOverflow))
    ));
    assert!(matches!(
        parse_content_length("184467440737095516150"),
        Err(ErrorKind::ParseInt(IntError::PosOverflow))
    ));
}

fn download_error(status: u16) -> Result<bool, ErrorKind> {
    Err(ErrorKind::Download { url: "u".to_string(), status_code: status })
}

#[test]
fn outcomes_follow_the_policy() {
    assert_eq!(outcome_of(&Ok(true)), FileOutcome::Success);
    assert_eq!(outcome_of(&Ok(false)), FileOutcome::Skipped);
    assert_eq!(outcome_of(&download_error(404)), FileOutcome::Skipped);
    assert_eq!(outcome_of(&download_error(500)), FileOutcome::Failed);
    assert_eq!(outcome_of(&download_error(403)), FileOutcome::Failed);
    let checksum = ErrorKind::Checksum { url: "u".to_string(), expected: "a".to_string(), hash: "b".to_string() };
    assert_eq!(outcome_of(&Err(checksum)), FileOutcome::Failed);
    for other in [
        ErrorKind::AsyncChannelSend,
        ErrorKind::IntoChecksum { value: "x".to_string() },
        ErrorKind::Io("gone".to_string()),
        ErrorKind::Reqwest("timeout".to_string()),
        ErrorKind::ParseInt(IntError::Empty),
        ErrorKind::Walkdir("w".to_string()),
        ErrorKind::Serde("s".to_string()),
        ErrorKind::Bitcode("b".to_string()),
        ErrorKind::SemVer,
    ] {
        assert_eq!(outcome_of(&Err(other)), FileOutcome::Skipped);
    }
}

#[test]
fn tracking_counts_each_outcome_once() {
    let mut progress = Progress::new();
    progress.files.inc_total(4);
    download_and_track(&mut progress, &Ok(true));
    download_and_track(&mut progress, &Ok(false));
    download_and_track(&mut progress, &download_error(404));
    download_and_track(&mut progress, &download_error(500));
    assert_eq!(progress.files.success(), 1);
    assert_eq!(progress.files.skipped(), 2);
    assert_eq!(progress.files.failed(), 1);
    assert_eq!(progress.files.total(), 4);
    assert_eq!(progress.files.remaining(), 0);
    assert_eq!(progress.bytes.total(), 0);
}

#[test]
fn queue_expects_one_more_file_and_keeps_the_order() {
    let opts = CliOpts::default();
    let mut downloader = Downloader::build(&opts);
    assert!(downloader.queue(Download::metadata(&opts, "a")).is_ok());
    assert!(downloader.queue(Download::metadata(&opts, "b")).is_ok());
    assert_eq!(downloader.progress().files.total(), 2);
    assert_eq!(downloader.pending.len(), 2);
    let handed = downloader.take_pending();
    assert!(matches!(&handed[0], Download::Metadata { package, .. } if package == "a"));
    assert!(matches!(&handed[1], Download::Metadata { package, .. } if package == "b"));
    assert!(downloader.pending.is_empty());
    assert_eq!(downloader.progress().files.total(), 2);
}

#[test]
fn a_closed_queue_refuses_but_still_counts() {
    let opts = CliOpts::default();
    let mut downloader = Downloader::build(&opts);
    downloader.close();
    assert!(matches!(downloader.queue(Download::metadata(&opts, "a")), Err(ErrorKind::AsyncChannelSend)));
    assert!(downloader.pending.is_empty());
    assert_eq!(downloader.progress().files.total(), 1);
}

#[test]
fn a_new_downloader_stands_before_the_first_step() {
    let downloader = Downloader::build(&CliOpts::default());
    let progress = downloader.progress();
    assert_eq!(progress.step, 0);
    assert_eq!(progress.total_steps(), 4);
    assert_eq!(progress.files.total(), 0);
    assert!(!downloader.closed);
    assert_eq!(QUEUE_CAPACITY, 1024);
    assert_eq!(WORKER_BUFFER, 1024 * 1024);
}
