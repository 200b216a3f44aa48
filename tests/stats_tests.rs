use rustmerger::display::StatusDisplay;
use rustmerger::progress::{ProcessingMetrics, ShutdownCoordinator, ShutdownState};
use rustmerger::stats::{format_bytes, EncodingStats};

#[test]
fn test_stats_collection() {
    let mut stats = EncodingStats::new();

    stats.record_file_processed();
    stats.record_encoding_detected("utf-8");
    stats.record_bytes_processed(1024);

    assert_eq!(stats.files_processed(), 1);
    assert_eq!(stats.bytes_processed(), 1024);
    assert_eq!(stats.conversion_errors(), 0);
    assert!(stats.is_fully_successful());
}

#[test]
fn test_success_rate() {
    let mut stats = EncodingStats::new();

    stats.record_file_processed();
    stats.record_file_processed();
    stats.record_conversion_error();

    assert_eq!(stats.success_rate_tenths() as f64 / 10.0, 50.0);
}

#[test]
fn test_format_bytes() {
    assert_eq!(format_bytes(0), "0 B");
    assert_eq!(format_bytes(512), "512 B");
    assert_eq!(format_bytes(1024), "1.0 KB");
    assert_eq!(format_bytes(1_048_576), "1.0 MB");
    assert_eq!(format_bytes(1_073_741_824), "1.1 GB");
}

#[test]
fn test_most_common_encoding() {
    let mut stats = EncodingStats::new();

    stats.record_encoding_detected("utf-8");
    stats.record_encoding_detected("utf-8");
    stats.record_encoding_detected("windows-1252");

    let common = stats.get_most_common_encoding();
    assert!(common.contains("utf-8"));
    assert!(common.contains("2"));
}

#[test]
fn format_bytes_more_values() {
    assert_eq!(format_bytes(999), "999 B");
    assert_eq!(format_bytes(1000), "1.0 KB");
    assert_eq!(format_bytes(1_500), "1.5 KB");
    assert_eq!(format_bytes(1_250), "1.2 KB");
    assert_eq!(format_bytes(5_000_000_000_000_000), "5000.0 TB");
    assert_eq!(format_bytes(u64::MAX), "18446744.1 TB");
}

#[test]
fn most_common_counts_all_three_tallies() {
    let mut stats = EncodingStats::new();
    assert_eq!(stats.get_most_common_encoding(), "none");
    stats.record_encoding_detected("UTF-8");
    stats.record_encoding_forced("windows-1252");
    stats.record_encoding_fallback("windows-1252");
    assert_eq!(stats.get_most_common_encoding(), "windows-1252 (2)");
    assert_eq!(stats.unique_encodings_count(), 2);
}

#[test]
fn log_summary_text() {
    let mut stats = EncodingStats::new();
    assert_eq!(
        stats.log_summary(),
        "Encoding stats: 0 files, 0 encoding(s), 0 errors, 100.0% success rate"
    );
    stats.record_file_processed();
    stats.record_file_processed();
    stats.record_file_processed();
    stats.record_conversion_error();
    stats.record_encoding_detected("UTF-8");
    assert_eq!(
        stats.log_summary(),
        "Encoding stats: 3 files, 1 encoding(s), 1 errors, 66.7% success rate"
    );
    assert!(!stats.is_fully_successful());
}

#[test]
fn merge_adds_counts() {
    let mut a = EncodingStats::new();
    a.record_file_processed();
    a.record_encoding_detected("UTF-8");
    let mut b = EncodingStats::new();
    b.record_file_processed();
    b.record_bytes_processed(10);
    b.record_conversion_error();
    b.record_encoding_detected("UTF-8");
    b.record_encoding_detected("ISO-8859-2");
    a.merge(&b);
    assert_eq!(a.files_processed(), 2);
    assert_eq!(a.bytes_processed(), 10);
    assert_eq!(a.conversion_errors(), 1);
    assert_eq!(
        a.detected_entries(),
        vec![("UTF-8".to_string(), 2), ("ISO-8859-2".to_string(), 1)]
    );
    assert_eq!(a.processing_nanos(), 0);
    b.start_timing();
    b.stop_timing();
    let mut c = EncodingStats::new();
    c.merge(&b);
    assert_eq!(c.processing_nanos(), b.processing_nanos());
    assert_eq!(c.processing_time(), b.processing_time());
}

#[test]
fn metrics_count() {
    let mut m = ProcessingMetrics::new();
    m.increment_files();
    m.add_lines(5);
    m.add_lines(2);
    let s = m.get_summary();
    assert_eq!(s.files_processed, 1);
    assert_eq!(s.lines_processed, 7);
    assert_eq!(s.errors_count, 0);
    assert_eq!(s.memory_usage, 0);
}

#[test]
fn shutdown_is_requested_once() {
    let mut c = ShutdownCoordinator::new();
    assert!(!c.should_shutdown());
    assert!(c.request_shutdown());
    assert!(!c.request_shutdown());
    assert!(c.should_shutdown());
    c.mark_stopped();
    assert_eq!(c.state(), ShutdownState::Stopped);
}

#[test]
fn status_display_text() {
    let mut d = StatusDisplay::new(80);
    assert_eq!(d.update_status("abc"), "\r\rabc");
    assert_eq!(d.update_status("x"), "\r   \rx");
    let bar = d.update_progress(1, 2, "go");
    assert_eq!(
        bar,
        "\r \r[===============               ] 1/2 (50%) go"
    );
    d.update_status("é");
    assert_eq!(d.update_status("z"), "\r  \rz");
    let narrow = StatusDisplay::new(10);
    assert_eq!(narrow.truncate_message("0123456789abc"), "0123456...");
    assert_eq!(narrow.truncate_message("short"), "short");
    assert_eq!(d.finish(), "\n");
}
