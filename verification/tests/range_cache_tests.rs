use npm_mirror::range_cache::{PackageRangeCache, RangeCacheResult, Ranges};
use npm_mirror::semver::{Version, VersionRange};

fn v(text: &str) -> Version {
    Version::parse(text).unwrap()
}

fn r(text: &str) -> VersionRange {
    VersionRange::parse(text).unwrap()
}

fn texts(versions: &Vec<Version>) -> Vec<String> {
    versions.iter().map(|x| x.to_text()).collect()
}

const NOTHING: RangeCacheResult = RangeCacheResult { package_is_new: false, range_is_new: false };
const RANGE_ONLY: RangeCacheResult = RangeCacheResult { package_is_new: false, range_is_new: true };
const BOTH: RangeCacheResult = RangeCacheResult { package_is_new: true, range_is_new: true };

#[test]
fn ranges_satisfies_where_one_range_does() {
    let ranges = Ranges { inner: vec![r("^1.0.0"), r("^3.0.0")] };
    assert!(ranges.satisfies(&v("1.4.0")));
    assert!(ranges.satisfies(&v("3.0.1")));
    assert!(!ranges.satisfies(&v("2.0.0")));
}

#[test]
fn ranges_without_a_range_satisfy_nothing() {
    let ranges = Ranges { inner: Vec::new() };
    assert!(!ranges.satisfies(&v("1.0.0")));
    assert!(ranges.max_satisfying(&vec![v("1.0.0")]).is_empty());
}

#[test]
fn ranges_max_satisfying_gives_one_pick_per_range() {
    let ranges = Ranges { inner: vec![r("^1.0.0"), r("^9.0.0"), r("^2.0.0"), r(">=1.0.0 <2.0.0")] };
    let versions = vec![v("1.0.0"), v("1.2.0"), v("2.1.0"), v("2.0.0")];
    let picks = ranges.max_satisfying(&versions);
    assert_eq!(texts(&picks), vec!["1.2.0", "2.1.0", "1.2.0"]);
}

#[test]
fn insert_of_an_unseen_package_reports_both_new() {
    let mut cache = PackageRangeCache::new();
    assert_eq!(cache.insert("a", &r("^1.0.0")), BOTH);
    assert_eq!(cache.packages(), vec!["a".to_string()]);
}

#[test]
fn insert_of_another_range_reports_the_range_new() {
    let mut cache = PackageRangeCache::new();
    assert_eq!(cache.insert("a", &r("^1.0.0")), BOTH);
    assert_eq!(cache.insert("a", &r("^2.0.0")), RANGE_ONLY);
    let ranges = cache.ranges_of("a").unwrap();
    assert_eq!(ranges.inner.len(), 2);
    assert_eq!(ranges.inner[0].as_str(), "^1.0.0");
    assert_eq!(ranges.inner[1].as_str(), "^2.0.0");
}

#[test]
fn insert_of_a_covering_range_reports_nothing_new() {
    let mut cache = PackageRangeCache::new();
    assert_eq!(cache.insert("a", &r("^1.2.0")), BOTH);
    assert_eq!(cache.insert("a", &r("^1.0.0")), NOTHING);
    assert_eq!(cache.insert("a", &r("^1.2.0")), NOTHING);
    assert_eq!(cache.ranges_of("a").unwrap().inner.len(), 1);
    assert!(!cache.satisifies("a", &v("1.1.0")));
}

#[test]
fn insert_of_a_narrower_range_is_recorded() {
    let mut cache = PackageRangeCache::new();
    assert_eq!(cache.insert("a", &r("^1.0.0")), BOTH);
    assert_eq!(cache.insert("a", &r("^1.2.0")), RANGE_ONLY);
}

#[test]
fn package_is_new_implies_range_is_new() {
    let mut cache = PackageRangeCache::new();
    for (package, range) in [("a", "^1.0.0"), ("b", "*"), ("a", "^1.0.0"), ("c", "1.2.3"), ("b", "^2")] {
        let res = cache.insert(package, &r(range));
        assert!(!res.package_is_new || res.range_is_new);
    }
}

#[test]
fn recorded_ranges_stay_covered() {
    let mut cache = PackageRangeCache::new();
    assert!(cache.insert("a", &r("^1.0.0")).range_is_new);
    assert!(cache.insert("b", &r("^5.0.0")).range_is_new);
    assert!(cache.insert("a", &r("^2.0.0")).range_is_new);
    assert!(!cache.insert("a", &r("*")).range_is_new);
    assert!(cache.satisifies("a", &v("1.9.0")));
    assert!(cache.satisifies("a", &v("2.0.5")));
    assert!(cache.satisifies("b", &v("5.1.0")));
    assert!(!cache.satisifies("a", &v("5.1.0")));
}

#[test]
fn package_is_new_comes_once_per_package() {
    let mut cache = PackageRangeCache::new();
    let mut new_a = 0;
    let mut new_c = 0;
    if cache.insert("a", &r("^1.0.0")).package_is_new {
        new_a += 1;
    }
    if cache.insert("c", &r("^1.0.0")).package_is_new {
        new_c += 1;
    }
    if cache.insert("a", &r("^2.0.0")).package_is_new {
        new_a += 1;
    }
    cache.remove("a");
    if cache.insert("a", &r("^3.0.0")).package_is_new {
        new_a += 1;
    }
    if cache.insert("c", &r("^1.0.0")).package_is_new {
        new_c += 1;
    }
    assert_eq!(new_a, 1);
    assert_eq!(new_c, 1);
}

#[test]
fn a_removed_package_absorbs_everything() {
    let mut cache = PackageRangeCache::new();
    assert_eq!(cache.insert("a", &r("^1.0.0")), BOTH);
    assert!(cache.satisifies("a", &v("1.0.0")));
    cache.remove("a");
    assert!(cache.is_removed("a"));
    assert!(!cache.satisifies("a", &v("1.0.0")));
    assert_eq!(cache.insert("a", &r("^1.0.0")), NOTHING);
    assert_eq!(cache.insert("a", &r("^7.0.0")), NOTHING);
    assert_eq!(cache.insert("b", &r("^7.0.0")), BOTH);
    assert!(!cache.satisifies("a", &v("7.0.0")));
    assert!(cache.max_satisfying("a", &vec![v("1.0.0"), v("7.0.0")]).is_empty());
    assert!(cache.ranges_of("a").is_none());
    assert_eq!(cache.packages(), vec!["b".to_string()]);
}

#[test]
fn remove_of_an_unseen_package_makes_it_a_tombstone() {
    let mut cache = PackageRangeCache::new();
    cache.remove("ghost");
    assert!(cache.is_removed("ghost"));
    assert_eq!(cache.insert("ghost", &r("*")), NOTHING);
    assert!(cache.packages().is_empty());
}

#[test]
fn remove_keeps_the_other_packages() {
    let mut cache = PackageRangeCache::new();
    cache.insert("a", &r("^1.0.0"));
    cache.insert("b", &r("^2.0.0"));
    cache.insert("c", &r("^3.0.0"));
    cache.remove("b");
    assert_eq!(cache.packages(), vec!["a".to_string(), "c".to_string()]);
    assert!(cache.satisifies("a", &v("1.0.0")));
    assert!(cache.satisifies("c", &v("3.0.0")));
    assert_eq!(cache.ranges_of("c").unwrap().inner[0].as_str(), "^3.0.0");
}

#[test]
fn an_unknown_package_satisfies_nothing() {
    let cache = PackageRangeCache::new();
    assert!(!cache.satisifies("a", &v("1.0.0")));
    assert!(cache.max_satisfying("a", &vec![v("1.0.0")]).is_empty());
    assert!(!cache.is_removed("a"));
}

#[test]
fn cache_max_satisfying_follows_the_ranges() {
    let mut cache = PackageRangeCache::new();
    cache.insert("foo", &r("^1.0.0"));
    cache.insert("foo", &r("~1.2.0"));
    let versions = vec![v("1.0.0"), v("1.2.0"), v("1.2.9"), v("1.5.3")];
    assert_eq!(texts(&cache.max_satisfying("foo", &versions)), vec!["1.5.3", "1.2.9"]);
}
