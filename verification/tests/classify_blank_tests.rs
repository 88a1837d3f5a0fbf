use npm_mirror::metadata::sparse_metadata::DepVersion;

#[test]
fn classify_tries_the_range_first() {
    assert!(matches!(DepVersion::classify(""), DepVersion::Range(ref r) if r.as_str().is_empty()));
    assert!(matches!(DepVersion::classify("1.x"), DepVersion::Range(_)));
}

#[test]
fn classify_of_white_space_is_never_a_tag() {
    for raw in ["   ", "\t", " \n "] {
        assert!(!matches!(DepVersion::classify(raw), DepVersion::Tag(_) | DepVersion::SubDep(_)));
    }
}
