use pulsar_hub::version::{installed_satisfies, parse_version, required_min_version, version_major};

#[test]
fn parse_version_reads_leading_triple() {
    assert_eq!(parse_version("v0.1.23"), Some((0, 1, 23)));
    assert_eq!(parse_version("  >=1.2.3 extra"), Some((1, 2, 3)));
    assert_eq!(parse_version("V2"), Some((2, 0, 0)));
    assert_eq!(parse_version("1.4"), Some((1, 4, 0)));
    assert_eq!(parse_version("1.2.3-beta"), Some((1, 2, 3)));
    assert_eq!(parse_version("1.x.3"), Some((1, 0, 3)));
    assert_eq!(parse_version("nightly-2024"), None);
    assert_eq!(parse_version(""), None);
    assert_eq!(parse_version("18446744073709551616"), None);
}

#[test]
fn version_major_reads_leading_digits() {
    assert_eq!(version_major("v1.2.3"), Some(1));
    assert_eq!(version_major(" V 0.9"), Some(0));
    assert_eq!(version_major("nightly"), None);
    assert_eq!(version_major("99999999999999999999"), None);
}

#[test]
fn required_min_version_examples() {
    assert_eq!(required_min_version(">0.1.0"), Some((0, 1, 0)));
    assert_eq!(required_min_version(" Nightly-2024-01-01 "), None);
    assert_eq!(required_min_version("0.1.23"), Some((0, 1, 23)));
}

#[test]
fn engine_version_semantics() {
    assert!(installed_satisfies("src", "SRC"));
    assert!(!installed_satisfies("0.1.23", "src"));
    assert!(installed_satisfies("nightly-2024-05-01", " nightly-2024-05-01 "));
    assert!(!installed_satisfies("nightly-2024-05-02", "nightly-2024-05-01"));
    assert!(installed_satisfies("v0.1.24", "0.1.23"));
    assert!(installed_satisfies("0.1.23", "0.1.23"));
    assert!(installed_satisfies("1.0.0", ">=0.9"));
    assert!(!installed_satisfies("0.1.22", "0.1.23"));
    assert!(!installed_satisfies("nightly-x", "0.1.0"));
    assert!(!installed_satisfies("1.0.0", "not a version"));
}

#[test]
fn version_markers_do_not_change_the_version() {
    for s in ["1.2.3", "0.4", "10.0.1-beta", "x1"] {
        assert_eq!(parse_version(&format!("v{}", s)), parse_version(s));
        assert_eq!(parse_version(&format!(">={}", s)), parse_version(s));
        assert_eq!(parse_version(&format!("V{}", s)), parse_version(s));
        assert_eq!(parse_version(&format!("<{}", s)), parse_version(s));
    }
}
