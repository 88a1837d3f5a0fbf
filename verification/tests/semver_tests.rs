use npm_mirror::semver::{Version, VersionRange};

fn v(text: &str) -> Version {
    Version::parse(text).unwrap()
}

fn r(text: &str) -> VersionRange {
    VersionRange::parse(text).unwrap()
}

#[test]
fn version_parse_accepts_a_plain_version() {
    assert_eq!(v("1.2.3").as_str(), "1.2.3");
    assert_eq!(v("1.2.3").to_text(), "1.2.3".to_string());
}

#[test]
fn version_parse_keeps_pre_release_and_build() {
    assert_eq!(v("1.2.3-alpha.1+build.7").as_str(), "1.2.3-alpha.1+build.7");
}

#[test]
fn version_parse_renders_canonically() {
    assert_eq!(v("  1.2.3  ").as_str(), "1.2.3");
}

#[test]
fn version_parse_refuses_what_is_no_version() {
    assert!(Version::parse("latest").is_none());
    assert!(Version::parse("").is_none());
    assert!(Version::parse("1.2").is_none());
}

#[test]
fn version_same_ignores_build_metadata() {
    assert!(v("1.0.0+a").same(&v("1.0.0+b")));
    assert!(v("1.0.0").same(&v("1.0.0")));
}

#[test]
fn version_same_tells_versions_apart() {
    assert!(!v("1.0.0").same(&v("1.0.1")));
    assert!(!v("1.0.0-alpha").same(&v("1.0.0")));
}

#[test]
fn range_parse_keeps_the_text() {
    assert_eq!(r("^1.0.0").as_str(), "^1.0.0");
}

#[test]
fn range_parse_refuses_a_tag() {
    assert!(VersionRange::parse("latest").is_none());
    assert!(VersionRange::parse("npm:foo@^1.0.0").is_none());
}

#[test]
fn range_satisfies_by_the_caret_rule() {
    assert!(r("^1.0.0").satisfies(&v("1.5.3")));
    assert!(r("^1.0.0").satisfies(&v("1.0.0")));
    assert!(!r("^1.0.0").satisfies(&v("2.0.0")));
    assert!(!r("^1.0.0").satisfies(&v("0.9.9")));
}

#[test]
fn range_allows_all_is_a_superset_test() {
    assert!(r("^1.0.0").allows_all(&r("^1.2.0")));
    assert!(!r("^1.2.0").allows_all(&r("^1.0.0")));
    assert!(r("^1.0.0").allows_all(&r("^1.0.0")));
}

#[test]
fn range_max_satisfying_picks_the_highest() {
    let versions = vec![v("1.0.0"), v("1.5.3"), v("1.2.0"), v("2.0.0")];
    let pick = r("^1.0.0").max_satisfying(&versions).unwrap();
    assert_eq!(pick.as_str(), "1.5.3");
}

#[test]
fn range_max_satisfying_picks_nothing_where_nothing_fits() {
    let versions = vec![v("1.0.0"), v("1.5.3")];
    assert!(r("^2.0.0").max_satisfying(&versions).is_none());
    assert!(r("^2.0.0").max_satisfying(&Vec::new()).is_none());
}

#[test]
fn range_exactly_admits_that_version_alone() {
    let range = VersionRange::exactly(&v("2.3.4")).unwrap();
    assert_eq!(range.as_str(), "2.3.4");
    assert!(range.satisfies(&v("2.3.4")));
    assert!(!range.satisfies(&v("2.3.5")));
    assert!(!range.satisfies(&v("1.0.0")));
}

#[test]
fn clones_keep_the_text() {
    assert_eq!(v("1.2.3").clone().as_str(), "1.2.3");
    assert_eq!(r(">=1.0.0 <2.0.0").clone().as_str(), ">=1.0.0 <2.0.0");
}
