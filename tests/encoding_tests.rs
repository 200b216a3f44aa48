use rustmerger::converter::EncodingConverter;
use rustmerger::detector::EncodingDetector;
use rustmerger::encoding::{default_wordlist_encoding, common_wordlist_encodings, EncodingKind};
use rustmerger::handler::EncodingHandler;
use rustmerger::ingest::split_lines;
use rustmerger::strategies::{
    EncodingStrategy, ErrorContext, ErrorRecoveryPolicy, RecoveryAction,
};

#[test]
fn test_utf8_passthrough() {
    let content = "password123\ncafé\n".as_bytes();
    let (text, had_errors) = EncodingConverter::convert_bytes_to_utf8(content, EncodingKind::Utf8);
    assert!(!had_errors);
    let lines = split_lines(&text);
    assert_eq!(lines[0].trim(), "password123");
}

#[test]
fn test_byte_conversion() {
    let windows1252_bytes = b"caf\xE9";
    let (converted, had_errors) =
        EncodingConverter::convert_bytes_to_utf8(windows1252_bytes, EncodingKind::Windows1252);
    assert_eq!(converted, "café");
    assert!(!had_errors);
}

#[test]
fn test_line_conversion() {
    let line_with_newline = b"password\r\n";
    let converted = EncodingConverter::convert_line_to_utf8(line_with_newline, EncodingKind::Utf8);
    assert_eq!(converted, "password");
}

#[test]
fn test_conversion_analysis() {
    let sample = b"test\xE9data";
    let analysis = EncodingConverter::analyze_conversion(sample, EncodingKind::Windows1252);
    assert!(!analysis.had_errors);
    assert_eq!(analysis.replacement_characters, 0);
    assert!(analysis.is_successful());
}

#[test]
fn test_newline_trimming() {
    assert_eq!(EncodingConverter::trim_newline_bytes(b"test\r\n"), b"test");
    assert_eq!(EncodingConverter::trim_newline_bytes(b"test\n"), b"test");
    assert_eq!(EncodingConverter::trim_newline_bytes(b"test\r"), b"test");
    assert_eq!(EncodingConverter::trim_newline_bytes(b"test"), b"test");
}

#[test]
fn test_detect_utf8_file() {
    let content = "password123\ncafé\nnaïve\n".as_bytes();
    let sample = EncodingDetector::sample_of(content);
    let encoding = EncodingDetector::detect_file(content.len() as u64, sample);
    assert_eq!(encoding.name(), "UTF-8");
}

#[test]
fn test_detect_empty_file() {
    let encoding = EncodingDetector::detect_file(0, b"");
    assert_eq!(encoding.name(), "UTF-8");
}

#[test]
fn test_encoding_handler_creation() {
    let handler = EncodingHandler::new(true);
    assert!(matches!(handler.strategy(), EncodingStrategy::AutoDetect));
    assert_eq!(handler.get_stats().files_processed(), 0);
}

#[test]
fn test_default_wordlist_encoding() {
    let encoding = default_wordlist_encoding();
    assert_eq!(encoding.name(), "windows-1252");
}

#[test]
fn test_encoding_strategy_display() {
    let auto = EncodingStrategy::AutoDetect;
    assert_eq!(auto.to_string(), "auto-detect");

    let force = EncodingStrategy::ForceEncoding(EncodingKind::Utf8);
    assert_eq!(force.to_string(), "force UTF-8");

    let sequence =
        EncodingStrategy::TrySequence(vec![EncodingKind::Utf8, EncodingKind::Windows1252]);
    assert!(sequence.to_string().contains("UTF-8"));
    assert!(sequence.to_string().contains("windows-1252"));
}

#[test]
fn test_recovery_actions() {
    let policy = ErrorRecoveryPolicy::permissive_wordlist_policy();
    assert!(!policy.strict_mode);
    assert_eq!(policy.max_fallback_attempts, 3);

    let strict_policy = ErrorRecoveryPolicy::strict_policy();
    assert!(strict_policy.strict_mode);
    assert_eq!(strict_policy.max_fallback_attempts, 0);
}

#[test]
fn test_fallback_encoding_sequence() {
    let policy = ErrorRecoveryPolicy::default_policy();

    assert_eq!(
        policy.get_fallback_encoding(EncodingKind::Utf8),
        Some(EncodingKind::Windows1252)
    );
    assert_eq!(
        policy.get_fallback_encoding(EncodingKind::Windows1252),
        Some(EncodingKind::Iso8859_15)
    );
    assert_eq!(policy.get_fallback_encoding(EncodingKind::Iso8859_2), None);
}

#[test]
fn test_error_context_formatting() {
    let context = ErrorContext::new(
        "test.txt".to_string(),
        Some(42),
        "invalid sequence".to_string(),
        "utf-8".to_string(),
    );

    let formatted = context.format_error();
    assert!(formatted.contains("test.txt"));
    assert!(formatted.contains("42"));
    assert!(formatted.contains("invalid sequence"));
    assert!(formatted.contains("utf-8"));
}

#[test]
fn error_context_exact_text() {
    let with_line = ErrorContext::new(
        "a.txt".to_string(),
        Some(7),
        "bad byte".to_string(),
        "UTF-8".to_string(),
    );
    assert_eq!(
        with_line.format_error(),
        "Encoding error in a.txt at line 7: bad byte (tried UTF-8)"
    );
    let without_line =
        ErrorContext::new("a.txt".to_string(), None, "bad byte".to_string(), "UTF-8".to_string());
    assert_eq!(without_line.format_error(), "Encoding error in a.txt: bad byte (tried UTF-8)");
}

#[test]
fn strategy_sequence_text_is_exact() {
    let s = EncodingStrategy::default_wordlist_strategy();
    assert_eq!(
        s.to_string(),
        "try sequence: UTF-8 → windows-1252 → ISO-8859-15 → ISO-8859-2"
    );
    assert_eq!(EncodingStrategy::force_windows1252().to_string(), "force windows-1252");
}

#[test]
fn recovery_policy_actions_by_message() {
    let policy = ErrorRecoveryPolicy::default_policy();
    let ctx = |m: &str| ErrorContext::new("f".to_string(), None, m.to_string(), "x".to_string());
    assert_eq!(
        policy.determine_action(&ctx("encoding detection failed"), 0),
        RecoveryAction::Fallback(EncodingKind::Windows1252)
    );
    assert_eq!(policy.determine_action(&ctx("conversion error"), 1), RecoveryAction::Replace);
    assert_eq!(policy.determine_action(&ctx("binary file"), 0), RecoveryAction::Skip);
    assert_eq!(policy.determine_action(&ctx("other"), 0), RecoveryAction::Replace);
    assert_eq!(policy.determine_action(&ctx("binary file"), 2), RecoveryAction::Replace);
    let strict = ErrorRecoveryPolicy::strict_policy();
    assert_eq!(strict.determine_action(&ctx("binary file"), 0), RecoveryAction::Abort);
    assert_eq!(RecoveryAction::Skip.description(), "skip invalid content");
}

#[test]
fn ascii_decodes_identically_under_every_encoding() {
    let bytes = b"hello world 123 !?\n";
    for enc in common_wordlist_encodings() {
        let (text, had_errors) = EncodingConverter::convert_bytes_to_utf8(bytes, enc);
        assert_eq!(text, "hello world 123 !?\n");
        assert!(!had_errors);
    }
}

#[test]
fn latin1_bytes_decode_cleanly_only_in_legacy_encoding() {
    let bytes = b"caf\xE9 na\xEFve";
    let (legacy, legacy_errors) =
        EncodingConverter::convert_bytes_to_utf8(bytes, EncodingKind::Windows1252);
    assert_eq!(legacy, "café naïve");
    assert!(!legacy_errors);
    assert!(!legacy.contains('\u{FFFD}'));
    let (forced, forced_errors) = EncodingConverter::convert_bytes_to_utf8(bytes, EncodingKind::Utf8);
    assert!(forced_errors);
    assert!(forced.contains('\u{FFFD}'));
    let analysis = EncodingConverter::analyze_conversion(bytes, EncodingKind::Utf8);
    assert!(analysis.had_errors);
    assert_eq!(analysis.replacement_characters, 2);
    assert!(!analysis.is_successful());
    assert_eq!(analysis.encoding_used, "UTF-8");
}

#[test]
fn iso_8859_decoders_map_high_bytes() {
    let (t15, _) = EncodingConverter::convert_bytes_to_utf8(b"\xA4", EncodingKind::Iso8859_15);
    assert_eq!(t15, "€");
    let (t2, _) = EncodingConverter::convert_bytes_to_utf8(b"\xA3", EncodingKind::Iso8859_2);
    assert_eq!(t2, "Ł");
    assert!(!EncodingConverter::test_conversion_safety(b"\xFF\x41", EncodingKind::Utf8));
    assert!(EncodingConverter::test_conversion_safety(b"\xFF\x41", EncodingKind::Windows1252));
}

#[test]
fn heuristic_detection_rules() {
    assert_eq!(EncodingDetector::heuristic_detection(b""), EncodingKind::Utf8);
    assert_eq!(EncodingDetector::heuristic_detection(b"\xEF\xBB\xBFabc"), EncodingKind::Utf8);
    assert_eq!(EncodingDetector::heuristic_detection("café".as_bytes()), EncodingKind::Utf8);
    assert_eq!(EncodingDetector::heuristic_detection(b"caf\xE9"), EncodingKind::Windows1252);
    assert_eq!(EncodingDetector::heuristic_detection(b"plain"), EncodingKind::Utf8);
}

#[test]
fn detection_decision_chain() {
    let big = 200 * 1024 * 1024;
    assert_eq!(
        EncodingDetector::resolve_detection(big, b"abc", Some(EncodingKind::Utf8), true),
        EncodingKind::Windows1252
    );
    assert_eq!(
        EncodingDetector::resolve_detection(0, b"", Some(EncodingKind::Iso8859_2), true),
        EncodingKind::Utf8
    );
    assert_eq!(
        EncodingDetector::resolve_detection(4, b"caf\xE9", Some(EncodingKind::Iso8859_2), true),
        EncodingKind::Iso8859_2
    );
    assert_eq!(
        EncodingDetector::resolve_detection(4, b"caf\xE9", Some(EncodingKind::Utf8), false),
        EncodingKind::Windows1252
    );
    assert_eq!(EncodingDetector::detect_file(big, b"abc"), EncodingKind::Windows1252);
}

#[test]
fn plausibility_of_sample_text() {
    assert!(EncodingDetector::is_plausible_text("password", false));
    assert!(!EncodingDetector::is_plausible_text("password", true));
    assert!(!EncodingDetector::is_plausible_text("", false));
    assert!(!EncodingDetector::is_plausible_text("a\0\0", false));
    assert!(EncodingDetector::is_plausible_text("abcdefghijklmnopqrs\0", false));
    assert!(EncodingDetector::validate_encoding_with_sample(b"hello", EncodingKind::Utf8));
    assert!(!EncodingDetector::validate_encoding_with_sample(b"caf\xE9", EncodingKind::Utf8));
    assert!(EncodingDetector::is_likely_binary(b"\0\0a"));
    assert!(!EncodingDetector::is_likely_binary(b"abcdefghij\0"));
    assert!(!EncodingDetector::is_likely_binary(b""));
}

#[test]
fn handler_strategies_and_statistics() {
    let mut forced = EncodingHandler::with_strategy(EncodingStrategy::force_utf8(), false);
    assert_eq!(forced.detect_or_default(4, b"caf\xE9"), EncodingKind::Utf8);
    assert_eq!(forced.get_stats().files_processed(), 1);

    let mut seq = EncodingHandler::with_strategy(EncodingStrategy::default_wordlist_strategy(), false);
    assert_eq!(seq.detect_or_default(4, b"caf\xE9"), EncodingKind::Windows1252);
    assert_eq!(seq.detect_or_default(5, b"hello"), EncodingKind::Utf8);
    assert_eq!(seq.get_stats().get_most_common_encoding(), "windows-1252 (1)");
    assert_eq!(seq.get_stats().unique_encodings_count(), 2);

    let mut only_utf8 =
        EncodingHandler::with_strategy(EncodingStrategy::TrySequence(vec![EncodingKind::Utf8]), false);
    assert_eq!(only_utf8.detect_or_default(4, b"caf\xE9"), EncodingKind::Windows1252);
    let fallbacks = only_utf8.get_stats().fallback_entries();
    assert_eq!(fallbacks, vec![("windows-1252".to_string(), 1)]);

    let mut auto = EncodingHandler::new(false);
    let (_, text) = auto.decode_content(b"caf\xE9\n");
    assert_eq!(text, "café\n");
    assert_eq!(auto.get_stats().bytes_processed(), 5);
    assert_eq!(auto.get_stats().conversion_errors(), 0);
}

#[test]
fn test_confidence_calculation() {
    let sample = b"password123\nadmin\n";
    let (had_errors, printable, total) =
        EncodingDetector::confidence_counts(sample, EncodingKind::Utf8);
    assert!(!had_errors);
    assert_eq!((printable, total), (18, 18));
    let confidence = printable as f32 / total as f32;
    assert!(confidence > 0.8);
}

#[test]
fn analysis_counts_utf8_bytes_of_the_result() {
    let analysis = EncodingConverter::analyze_conversion(b"caf\xE9", EncodingKind::Windows1252);
    assert_eq!(analysis.original_bytes, 4);
    assert_eq!(analysis.converted_bytes, 5);
}

#[test]
fn windows_1252_high_bytes_keep_their_value() {
    let bytes: Vec<u8> = (0xA0u8..=0xFF).collect();
    let (text, errors) = EncodingConverter::convert_bytes_to_utf8(&bytes, EncodingKind::Windows1252);
    assert!(!errors);
    let expected: String = (0xA0u8..=0xFF).map(char::from).collect();
    assert_eq!(text, expected);
}
