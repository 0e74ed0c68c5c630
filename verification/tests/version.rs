use mafold_cli::update::current_version;
use mafold_cli::version::{is_newer, parse_semver};

#[test]
fn plain_versions_are_read() {
    assert_eq!(parse_semver("1.2.3"), (1, 2, 3));
    assert_eq!(parse_semver("0.10.200"), (0, 10, 200));
    assert_eq!(parse_semver("18446744073709551615.0.1"), (u64::MAX, 0, 1));
}

#[test]
fn prefix_and_white_space_are_passed_over() {
    assert_eq!(parse_semver("v1.2.3"), (1, 2, 3));
    assert_eq!(parse_semver("vv1.2.3"), (1, 2, 3));
    assert_eq!(parse_semver("  v1.2.3\n"), (1, 2, 3));
    assert_eq!(parse_semver("\u{a0}\u{3000}1.2.3\u{2028}"), (1, 2, 3));
    // The white space is gone before the `v` is looked for, not after.
    assert_eq!(parse_semver("v 1.2.3"), (0, 2, 3));
}

#[test]
fn what_is_missing_or_odd_counts_as_zero() {
    assert_eq!(parse_semver(""), (0, 0, 0));
    assert_eq!(parse_semver("7"), (7, 0, 0));
    assert_eq!(parse_semver("7."), (7, 0, 0));
    assert_eq!(parse_semver("7.8"), (7, 8, 0));
    assert_eq!(parse_semver("7..9"), (7, 0, 9));
    assert_eq!(parse_semver("7.8.9.10"), (7, 8, 9));
    assert_eq!(parse_semver("1.2.3-rc1"), (1, 2, 3));
    assert_eq!(parse_semver("1.x2.3"), (1, 0, 3));
    assert_eq!(parse_semver("+1.-2.3"), (0, 0, 3));
    assert_eq!(parse_semver("\u{661}.2"), (0, 2, 0));
}

#[test]
fn numbers_beyond_64_bits_count_as_zero() {
    assert_eq!(parse_semver("18446744073709551616.1.2"), (0, 1, 2));
    assert_eq!(parse_semver("1.99999999999999999999999999.2"), (1, 0, 2));
    assert_eq!(parse_semver("1.2.000000000000000000000000000003"), (1, 2, 3));
}

#[test]
fn newer_compares_from_the_left() {
    assert!(is_newer("1.0.1", "1.0.0"));
    assert!(is_newer("1.1.0", "1.0.9"));
    assert!(is_newer("2.0.0", "1.9.9"));
    assert!(is_newer("0.10.0", "0.9.0"));
    assert!(!is_newer("1.0.0", "1.0.1"));
    assert!(!is_newer("1.9.9", "2.0.0"));
}

#[test]
fn newer_is_a_strict_order() {
    let versions = ["0.0.1", "0.1.0", "v0.1.1", "1.0.0", "1.0.1-beta", "v2"];
    for (i, a) in versions.iter().enumerate() {
        for (j, b) in versions.iter().enumerate() {
            assert_eq!(is_newer(a, b), i > j);
        }
    }
    assert!(!is_newer("v1.2.3", "1.2.3"));
}

#[test]
fn a_tag_is_not_newer_than_the_version_in_it() {
    for tag in ["v1.2.3", "vv2", "3.4", "v"] {
        let version = tag.trim_start_matches('v');
        assert!(!is_newer(tag, version));
        assert_eq!(parse_semver(tag), parse_semver(version));
    }
}

#[test]
fn this_build_has_a_version() {
    assert_eq!(current_version(), "0.1.0");
    assert_eq!(parse_semver(current_version()), (0, 1, 0));
}

#[test]
fn odd_tags_are_not_newer_than_the_version_in_them() {
    for tag in ["", "v", "v v9", "v 0.9", "vv\t1.2", "v \n vv3.4.5 ", " v1", "v.v.v", "v  "] {
        let version = tag.trim_start_matches('v');
        assert!(!is_newer(tag, version), "{tag:?}");
        assert!(is_newer(version, "0.0.0") || !is_newer(tag, "0.0.0"), "{tag:?}");
    }
    // White space after the `v` is where the two differ.
    assert_eq!(parse_semver("v 2.9"), (0, 9, 0));
    assert_eq!(parse_semver(" 2.9"), (2, 9, 0));
}
