use std::cmp::Ordering;
use wasm_builder::version::Version;

fn v(major: u32, minor: u32, patch: u32, is_nightly: bool) -> Version {
    Version::new(major, minor, patch, is_nightly)
}

fn same(a: Option<Version>, b: Option<Version>) -> bool {
    match (a, b) {
        (Some(a), Some(b)) => {
            a.major == b.major
                && a.minor == b.minor
                && a.patch == b.patch
                && a.is_nightly == b.is_nightly
        }
        (None, None) => true,
        _ => false,
    }
}

#[test]
fn extract_stable_version() {
    let version = Version::extract("cargo 1.68.0 (abcdef 2023-01-01)");
    assert!(same(version, Some(v(1, 68, 0, false))));
}

#[test]
fn extract_nightly_version() {
    let version = Version::extract("cargo 1.70.0-nightly (...)");
    assert!(same(version, Some(v(1, 70, 0, true))));
}

#[test]
fn extract_full_nightly_line() {
    let version = Version::extract("cargo 1.43.0-nightly (3c53211c3 2020-02-20)\n");
    assert!(same(version, Some(v(1, 43, 0, true))));
}

#[test]
fn extract_rustc_line() {
    let version = Version::extract("rustc 1.75.0 (82e1608df 2023-12-21)");
    assert!(same(version, Some(v(1, 75, 0, false))));
}

#[test]
fn extract_nothing_from_empty_text() {
    assert!(Version::extract("").is_none());
}

#[test]
fn extract_nothing_from_garbage() {
    assert!(Version::extract("garbage").is_none());
}

#[test]
fn extract_nothing_from_two_numbers() {
    assert!(Version::extract("cargo 1.68 (abcdef 2023-01-01)").is_none());
    assert!(Version::extract("1.68.").is_none());
    assert!(Version::extract("1..68.0").is_none());
    assert!(Version::extract(".1.2").is_none());
}

#[test]
fn extract_bare_release() {
    assert!(same(Version::extract("1.2.3"), Some(v(1, 2, 3, false))));
    assert!(same(Version::extract("0.0.0"), Some(v(0, 0, 0, false))));
}

#[test]
fn extract_takes_the_first_release() {
    let version = Version::extract("cargo 1.68.0 and rustc 1.70.1");
    assert!(same(version, Some(v(1, 68, 0, false))));
}

#[test]
fn extract_skips_what_is_no_release() {
    assert!(same(Version::extract("2 1.x 3.4.5"), Some(v(3, 4, 5, false))));
    assert!(same(Version::extract("1.2.x 7.8.9"), Some(v(7, 8, 9, false))));
    assert!(same(Version::extract("v10.20.30"), Some(v(10, 20, 30, false))));
}

#[test]
fn extract_takes_runs_of_digits_whole() {
    assert!(same(Version::extract("11.22.33"), Some(v(11, 22, 33, false))));
    assert!(same(Version::extract("1.2.3.4"), Some(v(1, 2, 3, false))));
    assert!(same(Version::extract("1.68.007"), Some(v(1, 68, 7, false))));
}

#[test]
fn extract_largest_numbers() {
    let version = Version::extract("4294967295.4294967295.4294967295");
    assert!(same(version, Some(v(u32::MAX, u32::MAX, u32::MAX, false))));
}

#[test]
fn extract_passes_over_numbers_too_large() {
    assert!(Version::extract("4294967296.0.0").is_none());
    assert!(Version::extract("1.99999999999999999999.0").is_none());
    assert!(Version::extract("1.0.4294967296").is_none());
    let version = Version::extract("99999999999.1.2 then 1.68.0");
    assert!(same(version, Some(v(1, 68, 0, false))));
}

#[test]
fn extract_sees_nightly_anywhere() {
    assert!(same(Version::extract("nightly cargo 1.60.0"), Some(v(1, 60, 0, true))));
    assert!(same(Version::extract("cargo 1.60.0 (nightly)"), Some(v(1, 60, 0, true))));
    assert!(same(Version::extract("cargo 1.60.0-beta.1"), Some(v(1, 60, 0, false))));
    assert!(same(Version::extract("cargo 1.60.0 (nightl y)"), Some(v(1, 60, 0, false))));
}

#[test]
fn extract_sees_a_date_behind_the_release() {
    assert!(same(Version::extract("cargo 1.60.0-2022-03-01"), Some(v(1, 60, 0, true))));
    assert!(same(Version::extract("cargo 1.60.0-2022-03-0"), Some(v(1, 60, 0, false))));
    assert!(same(Version::extract("cargo 1.60.0 2022-03-01"), Some(v(1, 60, 0, false))));
    assert!(same(Version::extract("cargo 1.60.0-2022/03/01"), Some(v(1, 60, 0, false))));
}

#[test]
fn extract_reads_text_that_is_not_ascii() {
    let version = Version::extract("каргo 1.68.0 \u{2028}nightly");
    assert!(same(version, Some(v(1, 68, 0, true))));
}

#[test]
fn order_ignores_the_nightly_flag() {
    for (a, b, c) in [(1, 68, 0), (0, 0, 0), (u32::MAX, 7, 9)] {
        for first in [false, true] {
            for second in [false, true] {
                let x = v(a, b, c, first);
                let y = v(a, b, c, second);
                assert!(x == y);
                assert!(!(x < y));
                assert!(!(x > y));
                assert!(x <= y);
                assert!(x >= y);
                assert_eq!(x.partial_cmp(&y), Some(Ordering::Equal));
            }
        }
    }
}

#[test]
fn order_is_by_major_then_minor_then_patch() {
    assert!(v(1, 68, 0, false) < v(1, 68, 1, false));
    assert!(v(1, 68, 9, false) < v(1, 69, 0, false));
    assert!(v(1, 99, 99, false) < v(2, 0, 0, false));
    assert!(v(2, 0, 0, false) > v(1, 99, 99, true));
    assert!(v(1, 70, 0, true) > v(1, 68, 0, false));
    assert!(v(1, 66, 0, false) < v(1, 70, 0, true));
    assert!(v(1, 68, 0, false) != v(1, 68, 1, false));
    assert_eq!(v(1, 2, 3, true).partial_cmp(&v(1, 2, 4, false)), Some(Ordering::Less));
    assert_eq!(v(1, 3, 0, false).partial_cmp(&v(1, 2, 4, true)), Some(Ordering::Greater));
}

#[test]
fn is_at_least_compares_releases() {
    assert!(v(1, 68, 0, false).is_at_least(&v(1, 68, 0, true)));
    assert!(v(1, 68, 1, false).is_at_least(&v(1, 68, 0, false)));
    assert!(v(2, 0, 0, false).is_at_least(&v(1, 68, 0, false)));
    assert!(!v(1, 67, 9, true).is_at_least(&v(1, 68, 0, false)));
    assert!(!v(0, 99, 0, false).is_at_least(&v(1, 0, 0, false)));
}

#[test]
fn is_stable_is_not_nightly() {
    assert!(v(1, 68, 0, false).is_stable());
    assert!(!v(1, 68, 0, true).is_stable());
}
