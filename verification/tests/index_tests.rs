use npm_mirror::metadata::package_index::{IdxDep, IdxDepVersion, PackageIndex, TarballUrl, strip_path};
use npm_mirror::metadata::sparse_metadata::{Dep, DepVersion, Dist, DistTag, SparseMetadata, VersionEntry, VersionInfo};
use npm_mirror::metadata::{local_metadata_idx_path, local_metadata_path};
use npm_mirror::options::CliOpts;
use npm_mirror::semver::Version;

fn v(text: &str) -> Version {
    Version::parse(text).unwrap()
}

fn dep(package: &str, raw: &str) -> Dep {
    Dep { package: package.to_string(), range: DepVersion::classify(raw) }
}

fn info(tarball: &str) -> VersionInfo {
    VersionInfo {
        dist: Dist { tarball: tarball.to_string() },
        dependencies: None,
        dev_dependencies: None,
        optional_dependencies: None,
        peer_dependencies: None,
    }
}

fn shown(d: &IdxDep) -> String {
    match &d.range {
        IdxDepVersion::Tag(t) => format!("{} tag {}", d.package, t),
        IdxDepVersion::Range(r) => format!("{} range {}", d.package, r.as_str()),
        IdxDepVersion::SubDep(s) => format!("{} alias {} {}", d.package, s.package, s.range.as_str()),
        IdxDepVersion::Other(o) => format!("{} other {}", d.package, o),
    }
}

fn kind(raw: &str) -> String {
    match DepVersion::classify(raw) {
        DepVersion::Tag(t) => format!("tag {}", t),
        DepVersion::Range(r) => format!("range {}", r.as_str()),
        DepVersion::SubDep(s) => format!("alias {} {}", s.package, s.range.as_str()),
        DepVersion::Other(o) => format!("other {}", o),
    }
}

#[test]
fn classify_reads_a_range() {
    assert_eq!(kind("^1.0.0"), "range ^1.0.0");
    assert_eq!(kind("1.2.3"), "range 1.2.3");
    assert_eq!(kind(">=1.0.0 <2.0.0 || ^3.1.0"), "range >=1.0.0 <2.0.0 || ^3.1.0");
    assert_eq!(kind("*"), "range *");
}

#[test]
fn classify_reads_a_tag() {
    assert_eq!(kind("latest"), "tag latest");
    assert_eq!(kind("next"), "tag next");
    assert_eq!(kind("beta-channel"), "tag beta-channel");
}

#[test]
fn classify_does_not_follow_reserved_prefixes() {
    assert_eq!(kind("link:../sibling"), "other link:../sibling");
    assert_eq!(kind("git+https://example.org/a.git"), "other git+https://example.org/a.git");
    assert_eq!(kind("github:user/repo"), "other github:user/repo");
    assert_eq!(kind("gist:11081aaa281"), "other gist:11081aaa281");
    assert_eq!(kind("workspace:^"), "other workspace:^");
    assert_eq!(kind("https://example.org/a.tgz"), "other https://example.org/a.tgz");
    assert_eq!(kind("http://example.org/a.tgz"), "other http://example.org/a.tgz");
    assert_eq!(kind("file:../a"), "other file:../a");
    assert_eq!(kind("./local"), "other ./local");
    assert_eq!(kind("../local"), "other ../local");
    assert_eq!(kind("/abs/path"), "other /abs/path");
}

#[test]
fn classify_reads_an_alias() {
    assert_eq!(kind("npm:foo@^1.0.0"), "alias foo ^1.0.0");
    assert_eq!(kind("npm:foo@1.2.3"), "alias foo 1.2.3");
}

#[test]
fn classify_splits_an_alias_at_its_last_at_sign() {
    assert_eq!(kind("npm:@scope/foo@^1.2.0"), "alias @scope/foo ^1.2.0");
}

#[test]
fn classify_falls_back_to_a_tag_for_a_bad_alias() {
    assert_eq!(kind("npm:foo"), "tag npm:foo");
    assert_eq!(kind("npm:foo@latest"), "tag npm:foo@latest");
}

#[test]
fn strip_path_shortens_the_usual_shape() {
    let t = strip_path(
        "https://registry.npmjs.org/leaf/-/leaf-1.0.0.tgz",
        "leaf",
        "https://registry.npmjs.org",
    );
    assert!(matches!(t, TarballUrl::Short(ref s) if s == "leaf-1.0.0.tgz"));
}

#[test]
fn strip_path_shortens_a_scoped_package() {
    let t = strip_path(
        "https://registry.npmjs.org/@scope/pkg/-/pkg-2.0.0.tgz",
        "@scope/pkg",
        "https://registry.npmjs.org",
    );
    assert!(matches!(t, TarballUrl::Short(ref s) if s == "pkg-2.0.0.tgz"));
}

#[test]
fn strip_path_keeps_a_url_of_another_host() {
    let url = "https://elsewhere.example/leaf/-/leaf-1.0.0.tgz";
    let t = strip_path(url, "leaf", "https://registry.npmjs.org");
    assert!(matches!(t, TarballUrl::Full(ref s) if s == url));
}

#[test]
fn strip_path_keeps_a_url_without_the_sentinel() {
    let url = "https://registry.npmjs.org/leaf/leaf-1.0.0.tgz";
    let t = strip_path(url, "leaf", "https://registry.npmjs.org");
    assert!(matches!(t, TarballUrl::Full(ref s) if s == url));
    let other = "https://registry.npmjs.org/other/-/leaf-1.0.0.tgz";
    let t = strip_path(other, "leaf", "https://registry.npmjs.org");
    assert!(matches!(t, TarballUrl::Full(ref s) if s == other));
}

#[test]
fn strip_path_cuts_behind_the_first_sentinel() {
    let t = strip_path("https://r.example/p/-/a/p/-/b.tgz", "p", "https://r.example");
    assert!(matches!(t, TarballUrl::Short(ref s) if s == "a/p/-/b.tgz"));
}

#[test]
fn strip_path_tolerates_the_name_earlier_in_the_path() {
    let t = strip_path("https://r.example/xfoo/-/a.tgz", "foo", "https://r.example");
    assert!(matches!(t, TarballUrl::Short(ref s) if s == "a.tgz"));
}

#[test]
fn strip_path_may_give_an_empty_short_form() {
    let t = strip_path("https://r.example/p/-/", "p", "https://r.example");
    assert!(matches!(t, TarballUrl::Short(ref s) if s.is_empty()));
}

fn sample() -> SparseMetadata {
    let mut first = info("https://registry.npmjs.org/pkg/-/pkg-1.0.0.tgz");
    first.dependencies = Some(vec![dep("a", "^1.0.0"), dep("b", "latest")]);
    first.dev_dependencies = Some(vec![dep("dev", "~2.0.0")]);
    first.optional_dependencies = Some(vec![dep("opt", "npm:real@^3.0.0")]);
    first.peer_dependencies = Some(vec![dep("peer", "file:../peer")]);
    let second = info("https://mirror.example/pkg-1.1.0.tgz");
    SparseMetadata {
        name: "pkg".to_string(),
        dist_tags: Some(vec![
            DistTag { label: "gone".to_string(), version: v("9.9.9") },
            DistTag { label: "latest".to_string(), version: v("1.1.0") },
            DistTag { label: "old".to_string(), version: v("1.0.0") },
        ]),
        versions: Some(vec![
            VersionEntry { version: v("1.0.0"), info: Some(first) },
            VersionEntry { version: v("1.1.0"), info: Some(second) },
            VersionEntry { version: v("2.0.0"), info: None },
        ]),
    }
}

#[test]
fn from_sparse_without_versions_is_empty() {
    let meta = SparseMetadata {
        name: "pkg".to_string(),
        dist_tags: Some(vec![DistTag { label: "latest".to_string(), version: v("1.0.0") }]),
        versions: None,
    };
    let idx = PackageIndex::from_sparse(&CliOpts::default(), meta);
    assert!(idx.versions.is_empty());
    assert!(idx.tarballs.is_empty());
    assert!(idx.deps.is_empty());
    assert!(idx.dist_tags.is_empty());
}

#[test]
fn from_sparse_keeps_the_versions_in_order() {
    let idx = PackageIndex::from_sparse(&CliOpts::default(), sample());
    let versions: Vec<&str> = idx.versions.iter().map(|x| x.as_str()).collect();
    assert_eq!(versions, vec!["1.0.0", "1.1.0", "2.0.0"]);
    assert_eq!(idx.tarballs.len(), 3);
    assert_eq!(idx.deps.len(), 3);
}

#[test]
fn from_sparse_shortens_the_tarballs() {
    let idx = PackageIndex::from_sparse(&CliOpts::default(), sample());
    assert!(matches!(idx.tarballs[0], Some(TarballUrl::Short(ref s)) if s == "pkg-1.0.0.tgz"));
    assert!(matches!(idx.tarballs[1], Some(TarballUrl::Full(ref s)) if s == "https://mirror.example/pkg-1.1.0.tgz"));
    assert!(idx.tarballs[2].is_none());
}

#[test]
fn from_sparse_joins_the_tables_in_their_order() {
    let idx = PackageIndex::from_sparse(&CliOpts::default(), sample());
    let deps: Vec<String> = idx.deps[0].iter().map(shown).collect();
    assert_eq!(
        deps,
        vec![
            "a range ^1.0.0",
            "b tag latest",
            "dev range ~2.0.0",
            "opt alias real ^3.0.0",
            "peer other file:../peer",
        ]
    );
    assert!(idx.deps[1].is_empty());
    assert!(idx.deps[2].is_empty());
}

#[test]
fn from_sparse_leaves_out_what_is_switched_off() {
    let mut opts = CliOpts::default();
    opts.no_dev_deps = true;
    let idx = PackageIndex::from_sparse(&opts, sample());
    let deps: Vec<String> = idx.deps[0].iter().map(shown).collect();
    assert_eq!(deps, vec!["a range ^1.0.0", "b tag latest", "opt alias real ^3.0.0", "peer other file:../peer"]);

    let mut opts = CliOpts::default();
    opts.no_optional_deps = true;
    opts.no_peer_deps = true;
    let idx = PackageIndex::from_sparse(&opts, sample());
    let deps: Vec<String> = idx.deps[0].iter().map(shown).collect();
    assert_eq!(deps, vec!["a range ^1.0.0", "b tag latest", "dev range ~2.0.0"]);
}

#[test]
fn from_sparse_drops_tags_of_unknown_versions() {
    let idx = PackageIndex::from_sparse(&CliOpts::default(), sample());
    assert_eq!(idx.dist_tags, vec![("latest".to_string(), 1usize), ("old".to_string(), 0usize)]);
}

#[test]
fn from_sparse_uses_the_registry_of_the_settings() {
    let mut opts = CliOpts::default();
    opts.registry_url = "https://mirror.example".to_string();
    let idx = PackageIndex::from_sparse(&opts, sample());
    assert!(matches!(idx.tarballs[0], Some(TarballUrl::Full(_))));
    assert!(matches!(idx.tarballs[1], Some(TarballUrl::Full(_))));
}

#[test]
fn index_lookups_go_by_the_version() {
    let idx = PackageIndex::from_sparse(&CliOpts::default(), sample());
    assert_eq!(idx.pos_by_version(&v("1.1.0")), Some(1));
    assert_eq!(idx.pos_by_version(&v("1.1.0+build")), Some(1));
    assert_eq!(idx.pos_by_version(&v("3.0.0")), None);
    assert!(matches!(idx.tarball_by_version(&v("1.0.0")), Some(TarballUrl::Short(s)) if s == "pkg-1.0.0.tgz"));
    assert!(idx.tarball_by_version(&v("2.0.0")).is_none());
    assert!(idx.tarball_by_version(&v("3.0.0")).is_none());
    assert!(idx.tarball_by_pos(1).is_some());
    assert!(idx.tarball_by_pos(2).is_none());
    assert!(idx.tarball_by_pos(3).is_none());
    assert_eq!(idx.deps_by_version(&v("1.0.0")).unwrap().len(), 5);
    assert_eq!(idx.deps_by_version(&v("2.0.0")).unwrap().len(), 0);
    assert!(idx.deps_by_version(&v("3.0.0")).is_none());
}

#[test]
fn index_lookups_go_by_the_tag() {
    let idx = PackageIndex::from_sparse(&CliOpts::default(), sample());
    assert_eq!(idx.version_by_tag("latest").unwrap().as_str(), "1.1.0");
    assert_eq!(idx.version_by_tag("old").unwrap().as_str(), "1.0.0");
    assert!(idx.version_by_tag("gone").is_none());
    assert!(idx.version_by_tag("next").is_none());
}

#[test]
fn a_tag_that_points_nowhere_gives_nothing() {
    let mut idx = PackageIndex::default();
    idx.versions.push(v("1.0.0"));
    idx.dist_tags.push(("wild".to_string(), 5));
    assert!(idx.version_by_tag("wild").is_none());
}

#[test]
fn idx_dep_version_keeps_the_variant() {
    assert!(matches!(IdxDepVersion::of(&DepVersion::classify("latest")), IdxDepVersion::Tag(ref t) if t == "latest"));
    assert!(matches!(IdxDepVersion::of(&DepVersion::classify("^1.0.0")), IdxDepVersion::Range(ref r) if r.as_str() == "^1.0.0"));
    assert!(matches!(IdxDepVersion::of(&DepVersion::classify("npm:x@1.0.0")), IdxDepVersion::SubDep(ref s) if s.package == "x"));
    assert!(matches!(IdxDepVersion::of(&DepVersion::classify("link:x")), IdxDepVersion::Other(ref o) if o == "link:x"));
}

#[test]
fn metadata_paths_lie_below_the_output() {
    let mut opts = CliOpts::default();
    assert_eq!(local_metadata_path(&opts, "leaf"), "./output/leaf/index.json");
    assert_eq!(local_metadata_idx_path(&opts, "leaf"), "./output/leaf/index.json.idx");
    opts.output = "/srv/mirror/".to_string();
    assert_eq!(local_metadata_path(&opts, "@scope/pkg"), "/srv/mirror/@scope/pkg/index.json");
    assert_eq!(local_metadata_idx_path(&opts, "@scope/pkg"), "/srv/mirror/@scope/pkg/index.json.idx");
    opts.output = "out//".to_string();
    assert_eq!(local_metadata_path(&opts, "a"), "out//a/index.json");
}

#[test]
fn settings_have_their_defaults() {
    let opts = CliOpts::default();
    assert_eq!(opts.manifests_path, "./manifests");
    assert_eq!(opts.output, "./output");
    assert_eq!(opts.dl_threads, 8);
    assert_eq!(opts.registry_url, "https://registry.npmjs.org");
    assert!(!opts.verbose && !opts.greedy);
    assert!(!opts.no_optional_deps && !opts.no_dev_deps && !opts.no_peer_deps);
    let copy = opts.clone();
    assert_eq!(copy.output, "./output");
    assert_eq!(copy.dl_threads, 8);
}
