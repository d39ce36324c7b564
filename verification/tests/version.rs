use wcapp::text::chars_of;
use wcapp::version::{is_newer_version, parse_part, parse_version};

#[test]
fn a_larger_part_is_newer() {
    assert!(is_newer_version("1.2.0", "1.1.9"));
    assert!(is_newer_version("2.0.0", "1.9.9"));
    assert!(is_newer_version("1.0.1", "1.0.0"));
    assert!(is_newer_version("0.10.0", "0.9.0"));
}

#[test]
fn a_smaller_or_equal_version_is_not_newer() {
    assert!(!is_newer_version("1.1.9", "1.2.0"));
    assert!(!is_newer_version("1.2.3", "1.2.3"));
    assert!(!is_newer_version("0.9.0", "0.10.0"));
    assert!(!is_newer_version("", ""));
}

#[test]
fn missing_parts_count_as_zero() {
    assert!(!is_newer_version("1.2", "1.2.0"));
    assert!(!is_newer_version("1.2.0", "1.2"));
    assert!(is_newer_version("1.2.1", "1.2"));
    assert!(!is_newer_version("1.2", "1.2.1"));
    assert!(is_newer_version("1", ""));
    assert!(!is_newer_version("0.0.0", ""));
}

#[test]
fn parts_that_are_no_numbers_are_passed_over() {
    assert_eq!(parse_version("1.x.3"), vec![1, 3]);
    assert_eq!(parse_version("1.2.3-beta"), vec![1, 2]);
    assert_eq!(parse_version("v1.2.3"), vec![2, 3]);
    assert_eq!(parse_version("1..2"), vec![1, 2]);
    assert_eq!(parse_version("."), Vec::<u32>::new());
    assert_eq!(parse_version(""), Vec::<u32>::new());
    assert_eq!(parse_version("abc"), Vec::<u32>::new());
    assert!(is_newer_version("1.x.3", "1.2"));
}

#[test]
fn versions_parse_into_their_numbers() {
    assert_eq!(parse_version("1.2.3"), vec![1, 2, 3]);
    assert_eq!(parse_version("10.020.0003"), vec![10, 20, 3]);
    assert_eq!(parse_version("7"), vec![7]);
    assert_eq!(parse_version("4294967295.0"), vec![4294967295, 0]);
}

#[test]
fn a_part_parses_as_an_unsigned_number() {
    for word in ["0", "7", "007", "+5", "4294967295", "4294967296", "99999999999999999999", "", "+",
        "-1", "1 ", " 1", "1a", "++1", "\u{664}", "0x10", "+0"] {
        assert_eq!(parse_part(&chars_of(word)), word.parse::<u32>().ok(), "{:?}", word);
    }
}

#[test]
fn versions_parse_as_split_and_parse_do() {
    for version in ["1.2.3", "", ".", "..", "1.", ".1", "a.b", "1.+2.-3", "3.4294967296.5", "v2.0"] {
        let expected: Vec<u32> = version.split('.').filter_map(|s| s.parse::<u32>().ok()).collect();
        assert_eq!(parse_version(version), expected, "{:?}", version);
    }
}
