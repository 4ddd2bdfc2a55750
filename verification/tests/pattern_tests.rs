use bingrep::error::BingrepError;
use bingrep::regex_processor::RegexProcessor;

#[test]
fn test_parse_hex_pattern_basic() {
    let pattern = "\\x00\\x01\\x02\\xFF";
    let result = RegexProcessor::parse_hex_pattern(pattern);
    assert_eq!(result, vec![0x00, 0x01, 0x02, 0xFF]);
}

#[test]
fn test_parse_hex_pattern_mixed_case() {
    let pattern = "\\x0a\\x0B\\xfF\\xAA";
    let result = RegexProcessor::parse_hex_pattern(pattern);
    assert_eq!(result, vec![0x0a, 0x0B, 0xFF, 0xAA]);
}

#[test]
fn test_parse_hex_pattern_with_text() {
    let pattern = "prefix\\x41\\x42\\x43suffix";
    let result = RegexProcessor::parse_hex_pattern(pattern);
    assert_eq!(result, vec![0x41, 0x42, 0x43]);
}

#[test]
fn test_escape_bytes_for_regex_basic() {
    let bytes = vec![0x00, 0x01, 0x41, 0xFF];
    let result = RegexProcessor::escape_bytes_for_regex(&bytes);
    assert_eq!(result, "\\x00\\x01\\x41\\xff");
}

#[test]
fn test_compile_pattern_simple() {
    let result = RegexProcessor::compile_pattern("\\x00\\x01\\x02");
    assert!(result.is_ok());
}

#[test]
fn test_compile_pattern_with_quantifier() {
    let result = RegexProcessor::compile_pattern("\\x58{2,3}");
    assert!(result.is_ok());
}

#[test]
fn test_has_regex_metacharacters() {
    assert!(RegexProcessor::has_regex_metacharacters("\\x58{2}"));
    assert!(RegexProcessor::has_regex_metacharacters("\\x58+"));
    assert!(!RegexProcessor::has_regex_metacharacters("\\x58\\x59"));
}

#[test]
fn test_escape_then_parse_round_trips() {
    // Decoding inverts encoding for any byte sequence.
    let bytes = vec![0x00, 0x10, 0x41, 0x7F, 0x80, 0xAB, 0xFF];
    let escaped = RegexProcessor::escape_bytes_for_regex(&bytes);
    let parsed = RegexProcessor::parse_hex_pattern(&escaped);
    assert_eq!(parsed, bytes);
}

#[test]
fn test_convert_hex_escapes_preserves_quantifier() {
    let converted = RegexProcessor::convert_hex_escapes_in_pattern("\\x41{2,3}").unwrap();
    assert_eq!(converted, "\\x41{2,3}");
    let converted_upper = RegexProcessor::convert_hex_escapes_in_pattern("\\X4A+\\d").unwrap();
    assert_eq!(converted_upper, "\\x4a+\\d");
}

#[test]
fn test_convert_hex_escapes_rejects_malformed_token() {
    // Mixed mode names the offending fragment instead of passing it on.
    match RegexProcessor::convert_hex_escapes_in_pattern("\\xZZ(a)") {
        Err(BingrepError::InvalidPattern(msg)) => {
            assert_eq!(msg, "Invalid hex sequence in regex pattern: \\xZZ");
        }
        _ => panic!("expected InvalidPattern"),
    }
    match RegexProcessor::compile_pattern("\\x4(a)") {
        Err(BingrepError::InvalidPattern(msg)) => {
            assert_eq!(msg, "Invalid hex sequence in regex pattern: \\x4(");
        }
        _ => panic!("expected InvalidPattern"),
    }
}

#[test]
fn test_compile_pattern_empty_hex_is_invalid_pattern() {
    // Literal-byte mode with nothing decodable is rejected.
    let result = RegexProcessor::compile_pattern("ab\\x");
    match result {
        Err(BingrepError::InvalidPattern(_)) => {}
        _ => panic!("expected InvalidPattern"),
    }
    let rejected = RegexProcessor::compile_pattern("\\xG1");
    match rejected {
        Err(BingrepError::InvalidPattern(msg)) => {
            assert_eq!(msg, "No valid hex pattern found");
        }
        _ => panic!("expected InvalidPattern"),
    }
}

#[test]
fn test_compile_pattern_engine_rejection_is_regex_compilation() {
    let result = RegexProcessor::compile_pattern("\\x41{2,");
    match result {
        Err(BingrepError::RegexCompilation(_)) => {}
        _ => panic!("expected RegexCompilation"),
    }
}

#[test]
fn test_compile_pattern_literal_mode_drops_plain_text() {
    // "AB\x41" compiles and matches only byte 0x41; the plain text is
    // silently discarded in literal-byte mode.
    let matcher = RegexProcessor::compile_pattern("AB\\x41").unwrap();
    assert_eq!(matcher.source_text().as_str(), "\\x41");
}

#[test]
fn test_error_variants_carry_their_context() {
    let io = BingrepError::Io(String::from("broken pipe"));
    assert!(matches!(io, BingrepError::Io(_)));
    let width = BingrepError::InvalidWidth(9000);
    assert!(matches!(width, BingrepError::InvalidWidth(9000)));
}
