use binary_grep::error::ScanError;
use binary_grep::parser::{normalize_pattern, parse_binary_syntax, parse_hex_bytes, PatternSyntax};

#[test]
fn spaced_test() {
    let pattern = "ff 26 15 d3";

    let raw = parse_binary_syntax(pattern);

    assert_eq!(raw, r"\xff\x26\x15\xd3");
}

#[test]
fn dot_test() {
    let pattern = "53 44 .";

    let raw = parse_binary_syntax(pattern);

    assert_eq!(raw, r"\x53\x44.");
}

#[test]
fn xxd_test() {
    let pattern = "ff26 15d3 a91b 53e5";

    let raw = parse_binary_syntax(pattern);

    assert_eq!(raw, r"\xff\x26\x15\xd3\xa9\x1b\x53\xe5");
}

#[test]
fn not_xxd_test() {
    let pattern = "ff26 1Zd3 a91b 53e5";

    let raw = parse_binary_syntax(pattern);

    assert_eq!(raw, r"\xff\x261Z\xd3\xa9\x1b\x53\xe5");
}

#[test]
fn last_char_hex_test() {
    let pattern = "ab5";

    let raw = parse_binary_syntax(pattern);

    assert_eq!(raw, r"\xab5");
}

#[test]
fn last_char_test() {
    let pattern = "az5";

    let raw = parse_binary_syntax(pattern);

    assert_eq!(raw, r"az5");
}

#[test]
fn or_test() {
    let pattern = "dead be [ef|ed]";

    let raw = parse_binary_syntax(pattern);

    assert_eq!(raw, r"\xde\xad\xbe[\xef|\xed]");
}

#[test]
fn binary_empty_pattern() {
    assert_eq!(parse_binary_syntax(""), "");
}

#[test]
fn binary_drops_tabs_and_newlines() {
    assert_eq!(parse_binary_syntax("de\tad\nbe"), r"\xde\xad\xbe");
}

#[test]
fn binary_pending_digit_before_operator() {
    assert_eq!(parse_binary_syntax("a.b"), "a.b");
    assert_eq!(parse_binary_syntax("abc(d)"), r"\xabc(d)");
}

#[test]
fn binary_non_hex_kept_in_order() {
    let out = parse_binary_syntax("ff(26|.)*d3");
    assert_eq!(out, r"\xff(\x26|.)*\xd3");
    let kept: String = out.chars().filter(|c| "()|.*".contains(*c)).collect();
    assert_eq!(kept, "(|.)*");
}

#[test]
fn hex_bytes_spaced() {
    assert_eq!(parse_hex_bytes("ff 26 15 d3"), Ok(r"\xff\x26\x15\xd3".to_string()));
}

#[test]
fn hex_bytes_matches_packed_binary() {
    assert_eq!(parse_hex_bytes("ff 26 15 d3").unwrap(), parse_binary_syntax("ff2615d3"));
}

#[test]
fn hex_bytes_keeps_case_and_extra_space() {
    assert_eq!(parse_hex_bytes("  AB\tcD  "), Ok(r"\xAB\xcD".to_string()));
    assert_eq!(parse_hex_bytes(""), Ok(String::new()));
}

#[test]
fn hex_bytes_invalid_token() {
    assert_eq!(
        parse_hex_bytes("ff 26 1Z d3"),
        Err(ScanError::InvalidBytePattern { offset: 6 })
    );
}

#[test]
fn hex_bytes_odd_token() {
    assert_eq!(parse_hex_bytes("ff 2"), Err(ScanError::InvalidBytePattern { offset: 3 }));
    assert_eq!(parse_hex_bytes("ff261"), Err(ScanError::InvalidBytePattern { offset: 0 }));
}

#[test]
fn normalize_each_syntax() {
    assert_eq!(normalize_pattern(r"\x01.*", PatternSyntax::Regex), Ok(r"\x01.*".to_string()));
    assert_eq!(normalize_pattern("01 ff", PatternSyntax::HexBytes), Ok(r"\x01\xff".to_string()));
    assert_eq!(
        normalize_pattern("dead be [ef|ed]", PatternSyntax::Binary),
        Ok(r"\xde\xad\xbe[\xef|\xed]".to_string())
    );
    assert_eq!(
        normalize_pattern("zz", PatternSyntax::HexBytes),
        Err(ScanError::InvalidBytePattern { offset: 0 })
    );
}

#[test]
fn binary_literal_backslash_x_kept() {
    assert_eq!(parse_binary_syntax(r"\x5."), r"\x5.");
    assert_eq!(parse_binary_syntax(r"\xff"), r"\x\xff");
}
