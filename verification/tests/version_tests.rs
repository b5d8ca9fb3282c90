use hop_cli::{UpdateError, Version};

fn v(major: u64, minor: u64, patch: u64) -> Version {
    Version { major, minor, patch, suffix: String::new() }
}

#[test]
fn parse_plain_triple() {
    let p = Version::from_string("1.2.3").unwrap();
    assert_eq!(p.major, 1);
    assert_eq!(p.minor, 2);
    assert_eq!(p.patch, 3);
    assert_eq!(p.suffix, "");
}

#[test]
fn parse_strips_leading_prefix() {
    let p = Version::from_string("v1.9.0").unwrap();
    assert_eq!((p.major, p.minor, p.patch), (1, 9, 0));
}

#[test]
fn parse_keeps_suffix() {
    let p = Version::from_string("v2.0.0-beta.1").unwrap();
    assert_eq!((p.major, p.minor, p.patch), (2, 0, 0));
    assert_eq!(p.suffix, "-beta.1");
}

#[test]
fn parse_rejects_non_numeric_segments() {
    assert_eq!(Version::from_string("x.y.z").unwrap_err(), UpdateError::Parse);
    assert_eq!(Version::from_string("1.two.3").unwrap_err(), UpdateError::Parse);
}

#[test]
fn parse_rejects_missing_segments() {
    assert_eq!(Version::from_string("").unwrap_err(), UpdateError::Parse);
    assert_eq!(Version::from_string("1.2").unwrap_err(), UpdateError::Parse);
    assert_eq!(Version::from_string("1..2").unwrap_err(), UpdateError::Parse);
    assert_eq!(Version::from_string("v").unwrap_err(), UpdateError::Parse);
}

#[test]
fn parse_rejects_oversized_segment() {
    // one more than u64::MAX
    assert_eq!(
        Version::from_string("18446744073709551616.0.0").unwrap_err(),
        UpdateError::Parse
    );
}

#[test]
fn parse_accepts_u64_max_segment() {
    let p = Version::from_string("18446744073709551615.0.1").unwrap();
    assert_eq!(p.major, u64::MAX);
    assert_eq!((p.minor, p.patch), (0, 1));
}

#[test]
fn to_string_is_canonical_triple() {
    assert_eq!(v(1, 2, 3).to_string(), "1.2.3");
    assert_eq!(v(0, 0, 0).to_string(), "0.0.0");
    assert_eq!(v(10, 0, 305).to_string(), "10.0.305");
}

#[test]
fn to_string_drops_suffix() {
    let p = Version::from_string("v2.0.0-beta").unwrap();
    assert_eq!(p.to_string(), "2.0.0");
}

#[test]
fn round_trip_preserves_triple() {
    for s in ["1.2.3", "v4.5.6", "0.0.1", "release-12.0.7-rc1", "18446744073709551615.3.9"] {
        let first = Version::from_string(s).unwrap();
        let again = Version::from_string(first.to_string().as_str()).unwrap();
        assert_eq!(first.major, again.major);
        assert_eq!(first.minor, again.minor);
        assert_eq!(first.patch, again.patch);
        assert_eq!(again.suffix, "");
    }
}

#[test]
fn newer_is_lexicographic() {
    assert!(v(2, 0, 0).is_newer_than(&v(1, 9, 9)));
    assert!(!v(1, 2, 3).is_newer_than(&v(1, 2, 3)));
    assert!(v(1, 3, 0).is_newer_than(&v(1, 2, 9)));
    assert!(v(1, 2, 4).is_newer_than(&v(1, 2, 3)));
    assert!(!v(1, 2, 3).is_newer_than(&v(1, 2, 4)));
    assert!(!v(1, 9, 9).is_newer_than(&v(2, 0, 0)));
}

#[test]
fn newer_ignores_suffix() {
    let plain = Version::from_string("1.2.3").unwrap();
    let tagged = Version::from_string("1.2.3-alpha").unwrap();
    assert!(!plain.is_newer_than(&tagged));
    assert!(!tagged.is_newer_than(&plain));
}
