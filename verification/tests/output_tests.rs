use bingrep::output::OutputFormatter;

#[test]
fn test_format_bytes_as_hex() {
    let bytes = vec![0x48, 0x65, 0x6C, 0x6C, 0x6F]; // "Hello"
    let result = OutputFormatter::format_bytes_as_hex(&bytes, " ");
    assert_eq!(result, "48 65 6C 6C 6F");
}

#[test]
fn test_format_bytes_with_different_separators() {
    let bytes = vec![0x00, 0xFF, 0x42];

    let with_space = OutputFormatter::format_bytes_as_hex(&bytes, " ");
    assert_eq!(with_space, "00 FF 42");

    let with_dash = OutputFormatter::format_bytes_as_hex(&bytes, "-");
    assert_eq!(with_dash, "00-FF-42");

    let no_separator = OutputFormatter::format_bytes_as_hex(&bytes, "");
    assert_eq!(no_separator, "00FF42");
}

#[test]
fn test_format_offset() {
    let result = OutputFormatter::format_offset(0x1234, 6);
    assert_eq!(result, "001234h");
}

#[test]
fn test_calculate_hex_offset_length() {
    assert_eq!(OutputFormatter::calculate_hex_offset_length(0xFF), 2);
    assert_eq!(OutputFormatter::calculate_hex_offset_length(0x1000), 4);
    assert_eq!(OutputFormatter::calculate_hex_offset_length(0x100000), 6);
}

#[test]
fn test_format_offset_wide_value_keeps_all_digits() {
    // A value needing more digits than the column width is not truncated.
    let result = OutputFormatter::format_offset(0x186A0, 2);
    assert_eq!(result, "186A0h");
    assert_eq!(OutputFormatter::format_offset(0, 1), "0h");
}

#[test]
fn test_format_line_with_offset() {
    let line = OutputFormatter::format_line_with_offset(0x10, "41 42", 4);
    assert_eq!(line, "0010h : 41 42");
}

#[test]
fn test_hex_text_length_matches_byte_count() {
    // Two digits per byte plus one separator between adjacent bytes: a
    // short record renders short output, with no padding bytes invented.
    let bytes = vec![0xDE, 0xAD];
    let text = OutputFormatter::format_bytes_as_hex(&bytes, " ");
    assert_eq!(text.len(), 2 * 2 + 1);
    let one = OutputFormatter::format_bytes_as_hex(&bytes[..1], " ");
    assert_eq!(one.len(), 2);
    let none = OutputFormatter::format_bytes_as_hex(&bytes[..0], " ");
    assert_eq!(none.len(), 0);
}
