use bingrep::error::BingrepError;
use bingrep::pcre2_processor::Pcre2Processor;

#[test]
fn test_pcre2_compile_pattern_simple() {
    let result = Pcre2Processor::compile_pattern("\\x00\\x01\\x02");
    assert!(result.is_ok());
}

#[test]
fn test_pcre2_compile_pattern_with_quantifier() {
    let result = Pcre2Processor::compile_pattern("\\x58{2,3}");
    assert!(result.is_ok());
}

#[test]
fn test_pcre2_parse_hex_pattern_basic() {
    let pattern = "\\x00\\x01\\x02\\xFF";
    let result = Pcre2Processor::parse_hex_pattern(pattern).unwrap();
    assert_eq!(result, vec![0x00, 0x01, 0x02, 0xFF]);
}

#[test]
fn test_pcre2_find_matches() {
    let regex = Pcre2Processor::compile_pattern("\\x41\\x42").unwrap(); // "AB"
    let data = b"XABCABDEFAB";
    let matches = Pcre2Processor::find_matches(&regex, data).unwrap();

    // Should find "AB" matches at positions 1, 4, and 9
    assert_eq!(matches.len(), 3);
    assert_eq!(matches[0], (1, 3));
    assert_eq!(matches[1], (4, 6));
    assert_eq!(matches[2], (9, 11));
}

#[test]
fn test_pcre2_parse_hex_pattern_drops_malformed_tokens() {
    // Literal-byte mode silently discards everything outside a
    // well-formed token, for either engine alike.
    assert_eq!(Pcre2Processor::parse_hex_pattern("\\xG1\\x41").unwrap(), vec![0x41]);
    assert_eq!(Pcre2Processor::parse_hex_pattern("abc\\x").unwrap(), Vec::<u8>::new());
}

#[test]
fn test_pcre2_compile_empty_hex_is_invalid_pattern() {
    match Pcre2Processor::compile_pattern("\\xG1") {
        Err(BingrepError::InvalidPattern(msg)) => {
            assert_eq!(msg, "No valid hex pattern found");
        }
        _ => panic!("expected InvalidPattern"),
    }
}

#[test]
fn test_pcre2_convert_hex_escapes_reports_bad_escape() {
    match Pcre2Processor::convert_hex_escapes_in_pattern("(\\xZZ)") {
        Err(BingrepError::InvalidPattern(msg)) => {
            assert_eq!(msg, "Invalid hex sequence in regex pattern: \\xZZ");
        }
        _ => panic!("expected InvalidPattern"),
    }
    let ok = Pcre2Processor::convert_hex_escapes_in_pattern("\\x41{2,3}").unwrap();
    assert_eq!(ok, "\\x41{2,3}");
}

#[test]
fn test_pcre2_quantifier_matches_two_or_three() {
    let regex = Pcre2Processor::compile_pattern("^\\x41{2,3}$").unwrap();
    assert_eq!(Pcre2Processor::find_matches(&regex, b"A").unwrap().len(), 0);
    assert_eq!(Pcre2Processor::find_matches(&regex, b"AA").unwrap(), vec![(0, 2)]);
    assert_eq!(Pcre2Processor::find_matches(&regex, b"AAA").unwrap(), vec![(0, 3)]);
    assert_eq!(Pcre2Processor::find_matches(&regex, b"AAAA").unwrap().len(), 0);
}

#[test]
fn test_pcre2_escape_bytes_for_regex() {
    let bytes = vec![0x00, 0x01, 0x41, 0xFF];
    let result = Pcre2Processor::escape_bytes_for_regex(&bytes);
    assert_eq!(result, "\\x00\\x01\\x41\\xff");
}
