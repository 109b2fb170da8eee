use binary_grep::error::ScanError;
use binary_grep::filter::{filter, shown_matches};

fn parse_buffer(buffer: &str) -> Vec<u8> {
    buffer
        .split_whitespace()
        .filter(|v| !v.is_empty())
        .map(|v| u8::from_str_radix(v, 16).unwrap())
        .collect()
}

#[test]
fn no_unicode() {
    let pattern = r"\x01.{31}\x02.{31}";
    let buffer = parse_buffer(
        "
        00 00 00 00  00 00 00 00  00 00 00 00  00 00 00 00
        00 00 00 00  00 00 00 00  00 00 00 00  00 00 00 00
        01 00 00 00  00 00 00 00  00 00 00 00  00 00 00 00
        00 00 00 00  00 00 00 00  00 00 00 00  86 18 45 00
        02 00 00 00  00 00 00 00  00 00 00 00  00 00 00 00
        00 00 00 00  00 00 00 00  00 00 00 00  87 19 46 01
    ",
    );

    let &(start, stop) = filter(pattern, &buffer).unwrap().first().unwrap();

    assert_eq!(start, 32);
    assert_eq!(stop, 96);
}

#[test]
fn newline() {
    let pattern = r"\x01.*";
    let buffer = parse_buffer(
        "
        01 00 00 00  00 00 00 00  00 00 00 00  00 00 00 0a
        02 00 00 00  00 00 00 00  00 00 00 00  00 00 00 00
    ",
    );

    let &(start, stop) = filter(pattern, &buffer).unwrap().first().unwrap();

    assert_eq!(start, 0);
    assert_eq!(stop, 32);
}

#[test]
fn empty_buffer_has_no_match() {
    assert_eq!(filter(r"\xff", &[]).unwrap(), vec![]);
    assert_eq!(filter(r"\x01.*", &[]).unwrap(), vec![]);
}

#[test]
fn empty_buffer_empty_pattern_no_match() {
    assert_eq!(filter(r"\x00*", &[]).unwrap(), vec![]);
    assert_eq!(filter("", &[]).unwrap(), vec![]);
    assert!(matches!(filter("(", &[]), Err(ScanError::PatternError { .. })));
}

#[test]
fn all_matches_in_order() {
    let buffer = [0xffu8, 0, 0xff, 0xff, 1];
    assert_eq!(filter(r"\xff", &buffer).unwrap(), vec![(0, 1), (2, 3), (3, 4)]);
    assert_eq!(filter(r"\xff+", &buffer).unwrap(), vec![(0, 1), (2, 4)]);
}

#[test]
fn invalid_utf8_bytes_match() {
    let buffer = [0xc3u8, 0x28, 0x00, 0xfe];
    assert_eq!(filter(r"\x28.\xfe", &buffer).unwrap(), vec![(1, 4)]);
}

#[test]
fn unbalanced_pattern_is_refused() {
    assert!(matches!(filter("[ab", &[1, 2, 3]), Err(ScanError::PatternError { .. })));
    assert!(matches!(filter(r"\xde(\xad", &[]), Err(ScanError::PatternError { .. })));
}

#[test]
fn limit_truncates() {
    assert_eq!(shown_matches(5, Some(2)), (2, true));
    assert_eq!(shown_matches(5, Some(5)), (5, false));
    assert_eq!(shown_matches(5, None), (5, false));
    assert_eq!(shown_matches(0, Some(0)), (0, false));
}

#[test]
fn empty_matches_start_in_order() {
    assert_eq!(filter(r"\x01*", &[2u8, 1, 1, 2]).unwrap(), vec![(0, 0), (1, 3), (4, 4)]);
}
