use bingrep::byte_stream::MemStream;
use bingrep::cli::Cli;
use bingrep::config::Config;
use bingrep::regex_processor::RegexProcessor;
use bingrep::stream::{process_stdin_hex_dump, process_stdin_with_regex, FileProcessor};

fn cli_for(width: usize, limit: usize, separator: &str, hide_offset: bool) -> Cli {
    Cli {
        file_path: None,
        expression: None,
        line_width: width,
        limit,
        position: 0,
        separator: String::from(separator),
        hide_offset,
    }
}

#[test]
fn test_file_processor_creation() {
    let config = Config::default();
    let processor = FileProcessor::new(config);
    assert_eq!(processor.config.buffer_size, 64 * 1024);
}

#[test]
fn test_process_file_stream() {
    let config = Config::default();
    let mut processor = FileProcessor::new(config);

    let data = b"Hello World!".to_vec();
    let file_size = data.len() as u64;
    let mut file = MemStream::new(data);

    let mut out: Vec<String> = Vec::new();
    let result = processor.process_file_stream(&mut file, 16, 1, " ", false, file_size, &mut out);
    assert!(result.is_ok());
}

#[test]
fn test_hex_dump_hello() {
    // A pure hex dump of "Hello" with width 16 yields exactly one line.
    let cli = cli_for(16, 0, " ", true);
    let data = b"Hello";
    let mut out: Vec<String> = Vec::new();
    process_stdin_hex_dump(data, &cli, data.len() as u64, &mut out).unwrap();
    assert_eq!(out, vec!["48 65 6C 6C 6F".to_string()]);
}

#[test]
fn test_hex_dump_chunks_and_limit() {
    let cli = cli_for(4, 2, " ", true);
    let data = b"abcdefghij";
    let mut out: Vec<String> = Vec::new();
    process_stdin_hex_dump(data, &cli, data.len() as u64, &mut out).unwrap();
    assert_eq!(out.len(), 2);
    assert_eq!(out[0], "61 62 63 64");
    assert_eq!(out[1], "65 66 67 68");
}

#[test]
fn test_hex_dump_offsets_short_tail() {
    let cli = cli_for(4, 0, " ", false);
    let data = b"abcdef";
    let mut out: Vec<String> = Vec::new();
    process_stdin_hex_dump(data, &cli, data.len() as u64, &mut out).unwrap();
    assert_eq!(out, vec!["0h : 61 62 63 64".to_string(), "4h : 65 66".to_string()]);
}

#[test]
fn test_compile_twice_matches_alike() {
    // Compiling the same literal pattern twice yields matchers with
    // identical behavior on identical input.
    let m1 = RegexProcessor::compile_pattern("\\x41\\x42").unwrap();
    let m2 = RegexProcessor::compile_pattern("\\x41\\x42").unwrap();
    assert_eq!(m1.source_text(), m2.source_text());
    let cli = cli_for(2, 0, " ", false);
    let data = b"xxAByyABzz";
    let mut out1: Vec<String> = Vec::new();
    let mut out2: Vec<String> = Vec::new();
    process_stdin_with_regex(data, &m1, &cli, data.len() as u64, &mut out1).unwrap();
    process_stdin_with_regex(data, &m2, &cli, data.len() as u64, &mut out2).unwrap();
    assert_eq!(out1, out2);
    assert_eq!(out1.len(), 2);
}

#[test]
fn test_mixed_mode_quantifier_survives() {
    // The quantifier written by the user survives transliteration: the
    // anchored pattern matches two or three A bytes, nothing else.
    let m = RegexProcessor::compile_pattern("^\\x41{2,3}$").unwrap();
    assert_eq!(m.source_text().as_str(), "^\\x41{2,3}$");
    let cli = cli_for(4, 0, " ", true);
    let cases: &[(&[u8], usize)] = &[
        (b"A", 0),
        (b"AA", 1),
        (b"AAA", 1),
        (b"AAAA", 0),
    ];
    for (data, expected) in cases {
        let mut out: Vec<String> = Vec::new();
        process_stdin_with_regex(data, &m, &cli, data.len() as u64, &mut out).unwrap();
        assert_eq!(out.len(), *expected);
    }
}

#[test]
fn test_windowed_scan_equals_whole_buffer_scan() {
    // Streaming through small windows with overlap emits exactly the
    // lines a one-shot scan over the whole buffer emits: nothing is
    // duplicated by the overlap and nothing is missed at the seams.
    let m = RegexProcessor::compile_pattern("\\x41\\x42").unwrap();
    let mut data = vec![0u8; 10000];
    for pos in [0usize, 1999, 4090, 5000, 9998] {
        data[pos] = b'A';
        data[pos + 1] = b'B';
    }
    let cli = cli_for(5, 0, " ", false);
    let mut oneshot: Vec<String> = Vec::new();
    process_stdin_with_regex(&data, &m, &cli, data.len() as u64, &mut oneshot).unwrap();
    assert_eq!(oneshot.len(), 5);

    let mut processor = FileProcessor::new(Config::default());
    let mut file = MemStream::new(data);
    let mut windowed: Vec<String> = Vec::new();
    processor
        .process_stream_by_regex(&mut file, &m, 5, 0, " ", true, &mut windowed)
        .unwrap();
    assert_eq!(windowed, oneshot);
}

#[test]
fn test_boundary_spanning_match_found_once() {
    // The only occurrence straddles the first window boundary (the
    // window is 4096 bytes for small display widths); the overlap rewind
    // re-offers it whole, and it is reported exactly once.
    let m = RegexProcessor::compile_pattern("\\x41\\x42\\x43\\x44").unwrap();
    let mut data = vec![0u8; 8192];
    data[4094..4098].copy_from_slice(b"ABCD");
    let mut processor = FileProcessor::new(Config::default());
    let mut file = MemStream::new(data);
    let mut out: Vec<String> = Vec::new();
    processor
        .process_stream_by_regex(&mut file, &m, 4, 0, " ", true, &mut out)
        .unwrap();
    assert_eq!(out, vec!["0FFEh : 41 42 43 44".to_string()]);
}

#[test]
fn test_match_near_end_of_file_renders_short() {
    // A match within the display width of the end of the stream renders
    // only the bytes that exist: no error, no fabricated padding.
    let m = RegexProcessor::compile_pattern("\\x41\\x42").unwrap();
    let mut data = vec![0u8; 30];
    data[28] = b'A';
    data[29] = b'B';
    let mut processor = FileProcessor::new(Config::default());
    let mut file = MemStream::new(data);
    let mut out: Vec<String> = Vec::new();
    processor
        .process_stream_by_regex(&mut file, &m, 16, 0, " ", false, &mut out)
        .unwrap();
    assert_eq!(out, vec!["41 42".to_string()]);
}

#[test]
fn test_two_far_apart_matches_report_both_offsets() {
    // The pattern sits at offsets 0 and 100000; the scan reports exactly
    // two lines, at hex offsets 0 and 186A0, each rendering the bytes.
    let m = RegexProcessor::compile_pattern("\\x00\\x00\\x00\\x01\\x67").unwrap();
    let mut data = vec![0xEEu8; 100005];
    data[0..5].copy_from_slice(&[0x00, 0x00, 0x00, 0x01, 0x67]);
    data[100000..100005].copy_from_slice(&[0x00, 0x00, 0x00, 0x01, 0x67]);
    let mut processor = FileProcessor::new(Config::default());
    let mut file = MemStream::new(data);
    let mut out: Vec<String> = Vec::new();
    processor
        .process_stream_by_regex(&mut file, &m, 5, 0, " ", true, &mut out)
        .unwrap();
    assert_eq!(
        out,
        vec![
            "00000h : 00 00 00 01 67".to_string(),
            "186A0h : 00 00 00 01 67".to_string(),
        ]
    );
}

#[test]
fn test_windowed_scan_respects_limit() {
    let m = RegexProcessor::compile_pattern("\\x41").unwrap();
    let data = vec![b'A'; 5000];
    let mut processor = FileProcessor::new(Config::default());
    let mut file = MemStream::new(data);
    let mut out: Vec<String> = Vec::new();
    processor
        .process_stream_by_regex(&mut file, &m, 1, 3, " ", true, &mut out)
        .unwrap();
    assert_eq!(out.len(), 3);
    assert_eq!(out[0], "0000h : 41");
}

#[test]
fn test_display_spilling_past_full_window_restarts_scan() {
    // A match whose display bytes would run past a full window makes the
    // scan restart reading at the match and marks its offset as handled;
    // the scan then goes on and reports the later occurrences.
    let m = RegexProcessor::compile_pattern("\\x41\\x42").unwrap();
    let mut data = vec![0u8; 8192];
    data[4090] = b'A';
    data[4091] = b'B';
    data[5000] = b'A';
    data[5001] = b'B';
    let mut processor = FileProcessor::new(Config::default());
    let mut file = MemStream::new(data);
    let mut out: Vec<String> = Vec::new();
    processor
        .process_stream_by_regex(&mut file, &m, 16, 0, " ", true, &mut out)
        .unwrap();
    assert_eq!(out.len(), 1);
    assert!(out[0].starts_with("1388h : 41 42"));
}

#[test]
fn test_generate_binary_file_data_size() {
    let data = bingrep::benchmark_utils::BenchmarkUtils::generate_binary_file_data(5000);
    assert_eq!(data.len(), 5000);
    // The first planted header is the PE signature.
    assert_eq!(&data[0..2], b"MZ");
}

#[test]
fn test_get_test_patterns_names() {
    let patterns = bingrep::benchmark_utils::BenchmarkUtils::get_test_patterns();
    assert_eq!(patterns.len(), 10);
    assert!(patterns.contains(&("h264_sps", "\\x00\\x00\\x00\\x01\\x67")));
    assert!(patterns.contains(&("alternation", "\\x41|\\x42|\\x43")));
}

#[test]
fn test_config_width_bounds() {
    let config = Config::default();
    assert!(config.validate_width(1));
    assert!(config.validate_width(8192));
    assert!(!config.validate_width(0));
    assert!(!config.validate_width(8193));
    assert_eq!(config.get_buffer_size(16), 4096);
    assert_eq!(config.get_buffer_size(2048), 64 * 1024);
}
