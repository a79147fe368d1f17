use k3dev::version::{is_newer, parse_semver, release_version};

#[test]
fn parses_versions_with_optional_prefix_and_suffix() {
    assert_eq!(parse_semver("0.1.0"), Some((0, 1, 0)));
    assert_eq!(parse_semver("v1.2.3"), Some((1, 2, 3)));
    assert_eq!(parse_semver("v2.0"), Some((2, 0, 0)));
    assert_eq!(parse_semver("1.4.0-rc.1"), Some((1, 4, 0)));
    assert_eq!(parse_semver("not-a-version"), None);
}

#[test]
fn detects_newer_releases() {
    assert!(is_newer("0.2.0", "0.1.0"));
    assert!(is_newer("v1.0.0", "0.9.9"));
    assert!(is_newer("0.1.1", "0.1.0"));
    assert!(!is_newer("0.1.0", "0.1.0"));
    assert!(!is_newer("0.1.0", "0.2.0"));
    assert!(!is_newer("garbage", "0.1.0"));
}

#[test]
fn release_tags_lose_their_prefix() {
    assert_eq!(release_version("v1.2.3"), "1.2.3");
    assert_eq!(release_version("vv1.2.3 "), "1.2.3");
    assert_eq!(release_version("1.2.3"), "1.2.3");
}

#[test]
fn parts_beyond_32_bits_are_no_versions() {
    assert_eq!(parse_semver("4294967295.0.0"), Some((4294967295, 0, 0)));
    assert_eq!(parse_semver("4294967296.0.0"), None);
}
