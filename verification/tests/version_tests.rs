//! Runtime checks of version-requirement parsing and matching.
use irust_core::version::{Version, VersionReq, parse_version_req, req_matches};

#[test]
fn parses_the_adapter_requirement() {
    let r = parse_version_req(b">=1.30.6").unwrap();
    assert_eq!(r.min, Version { major: 1, minor: 30, patch: 6 });
}

#[test]
fn rejects_text_without_the_prefix() {
    assert_eq!(parse_version_req(b"1.30.6"), None);
    assert_eq!(parse_version_req(b""), None);
    assert_eq!(parse_version_req(b"=1.30.6"), None);
}

#[test]
fn rejects_missing_or_empty_components() {
    assert_eq!(parse_version_req(b">=1.30"), None);
    assert_eq!(parse_version_req(b">=1..6"), None);
    assert_eq!(parse_version_req(b">=.30.6"), None);
    assert_eq!(parse_version_req(b">=1.30."), None);
}

#[test]
fn rejects_non_digit_components() {
    assert_eq!(parse_version_req(b">=a.b.c"), None);
    assert_eq!(parse_version_req(b">=1.30.6x"), None);
    assert_eq!(parse_version_req(b">=1.3 0.6"), None);
}

#[test]
fn largest_component_parses_and_one_more_overflows() {
    let r = parse_version_req(b">=18446744073709551615.0.0").unwrap();
    assert_eq!(r.min.major, u64::MAX);
    assert_eq!(parse_version_req(b">=18446744073709551616.0.0"), None);
}

#[test]
fn matching_is_lexicographic_on_the_minimum() {
    let req = VersionReq { min: Version { major: 1, minor: 30, patch: 6 } };
    let yes = [
        Version { major: 1, minor: 30, patch: 6 },
        Version { major: 1, minor: 30, patch: 7 },
        Version { major: 1, minor: 31, patch: 0 },
        Version { major: 2, minor: 0, patch: 0 },
    ];
    let no = [
        Version { major: 1, minor: 30, patch: 5 },
        Version { major: 1, minor: 29, patch: 9 },
        Version { major: 0, minor: 99, patch: 99 },
    ];
    for v in yes {
        assert!(req_matches(&v, &req));
    }
    for v in no {
        assert!(!req_matches(&v, &req));
    }
}
