use bctop::release::{
    all_versions_parse, is_other_release, newest_release, parse_version, Version,
};

fn v(major: i32, minor: i32, patch: i32) -> Option<Version> {
    Some(Version { major, minor, patch })
}

fn names(texts: &[&str]) -> Vec<String> {
    texts.iter().map(|t| t.to_string()).collect()
}

#[test]
fn a_release_name_has_three_numbers_behind_a_v() {
    assert_eq!(parse_version("v1.2.3"), v(1, 2, 3));
    assert_eq!(parse_version("v0.1.0"), v(0, 1, 0));
    assert_eq!(parse_version("v10.20.30"), v(10, 20, 30));
    assert_eq!(parse_version("v007.08.0009"), v(7, 8, 9));
}

#[test]
fn pieces_behind_the_third_do_not_count() {
    assert_eq!(parse_version("v1.2.3.4"), v(1, 2, 3));
    assert_eq!(parse_version("v1.2.3.beta"), v(1, 2, 3));
    assert_eq!(parse_version("v1.2.3."), v(1, 2, 3));
}

#[test]
fn the_major_number_stands_behind_the_first_v() {
    assert_eq!(parse_version("release-v2.0.1"), v(2, 0, 1));
    assert_eq!(parse_version("v1v9.2.3"), v(1, 2, 3));
    assert_eq!(parse_version("vv1.0.0"), None);
    assert_eq!(parse_version("1.2.3"), None);
    assert_eq!(parse_version("V1.2.3"), None);
    assert_eq!(parse_version("v.2.3"), None);
    assert_eq!(parse_version("1.v2.3"), None);
}

#[test]
fn names_with_too_few_or_broken_numbers_are_no_versions() {
    assert_eq!(parse_version(""), None);
    assert_eq!(parse_version("v"), None);
    assert_eq!(parse_version("v1"), None);
    assert_eq!(parse_version("v1.2"), None);
    assert_eq!(parse_version("v1..3"), None);
    assert_eq!(parse_version("v1.2."), None);
    assert_eq!(parse_version("v1.2.x"), None);
    assert_eq!(parse_version("v1.2.3x"), None);
    assert_eq!(parse_version("v1. 2.3"), None);
    assert_eq!(parse_version("v1.2.３"), None);
}

#[test]
fn numbers_may_carry_a_sign() {
    assert_eq!(parse_version("v-1.2.3"), v(-1, 2, 3));
    assert_eq!(parse_version("v+1.+2.-3"), v(1, 2, -3));
    assert_eq!(parse_version("v-0.0.0"), v(0, 0, 0));
    assert_eq!(parse_version("v-.0.0"), None);
    assert_eq!(parse_version("v+.0.0"), None);
    assert_eq!(parse_version("v1.--2.0"), None);
    assert_eq!(parse_version("v1.+-2.0"), None);
}

#[test]
fn numbers_stay_within_thirty_two_bits() {
    assert_eq!(parse_version("v2147483647.0.0"), v(i32::MAX, 0, 0));
    assert_eq!(parse_version("v2147483648.0.0"), None);
    assert_eq!(parse_version("v0.-2147483648.0"), v(0, i32::MIN, 0));
    assert_eq!(parse_version("v0.-2147483649.0"), None);
    assert_eq!(parse_version("v0.0.99999999999999999999999999"), None);
    assert_eq!(parse_version("v0.0.00000000000000000000000001"), v(0, 0, 1));
}

#[test]
fn versions_are_ordered_number_by_number() {
    let a = Version { major: 1, minor: 2, patch: 3 };
    assert!(a.is_older_than(&Version { major: 2, minor: 0, patch: 0 }));
    assert!(a.is_older_than(&Version { major: 1, minor: 3, patch: 0 }));
    assert!(a.is_older_than(&Version { major: 1, minor: 2, patch: 4 }));
    assert!(!a.is_older_than(&a.clone()));
    assert!(!a.is_older_than(&Version { major: 1, minor: 2, patch: 2 }));
    assert!(!a.is_older_than(&Version { major: 1, minor: 1, patch: 9 }));
    assert!(!a.is_older_than(&Version { major: 0, minor: 9, patch: 9 }));
}

#[test]
fn the_newest_release_is_found() {
    assert_eq!(newest_release(&names(&["v1.0.0", "v1.2.0", "v1.1.9"])), Some(1));
    assert_eq!(newest_release(&names(&["v2.0.0", "v1.9.9", "v1.10.0"])), Some(0));
    assert_eq!(newest_release(&names(&["v0.0.1", "v0.0.2", "v0.0.10"])), Some(2));
    assert_eq!(newest_release(&names(&["v1.0.0", "v0.9.0"])), Some(0));
}

#[test]
fn among_equally_new_releases_the_first_is_taken() {
    assert_eq!(newest_release(&names(&["v1.0.0", "v1.2.0", "v01.02.00", "v1.2.0"])), Some(1));
    assert_eq!(newest_release(&names(&["v1.0.0", "v1.0.0"])), Some(0));
}

#[test]
fn a_single_release_is_not_read_and_no_release_gives_none() {
    assert_eq!(newest_release(&names(&["nightly"])), Some(0));
    assert_eq!(newest_release(&names(&["v1.0.0"])), Some(0));
    assert_eq!(newest_release(&Vec::new()), None);
}

#[test]
fn lists_are_checked_name_by_name() {
    assert!(all_versions_parse(&names(&["v1.0.0", "v1.2.0"])));
    assert!(all_versions_parse(&Vec::new()));
    assert!(!all_versions_parse(&names(&["v1.0.0", "nightly", "v1.2.0"])));
    assert!(!all_versions_parse(&names(&["nightly"])));
}

#[test]
fn the_running_release_is_recognised_by_its_name() {
    assert!(!is_other_release("v1.0.0", "1.0.0"));
    assert!(is_other_release("v1.0.1", "1.0.0"));
    assert!(is_other_release("1.0.0", "1.0.0"));
    assert!(is_other_release("v1.0.0", "v1.0.0"));
    assert!(!is_other_release("v", ""));
}
