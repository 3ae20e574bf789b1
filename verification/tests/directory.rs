use ttlog_view::system_info_widget::{InfoColor, SystemInfoWidget, TextStyle};
use ttlog_view::logs::{
    check_directory_changes, create_empty_logs_info, extract_metadata, line_is_blank, logs_info_from_tally, DirTally,
    FileInfo, LineTally,
};

#[test]
fn metadata_from_file_name() {
    let (ts, pid) = extract_metadata("ttlog-1580331-20251007215735-flush_and_exit.bin");
    assert_eq!(ts.as_deref(), Some("2025-10-07 21:57:35"));
    assert_eq!(pid.as_deref(), Some("1580331"));
}

#[test]
fn metadata_absent_parts() {
    let (ts, pid) = extract_metadata("other-1-2.log");
    assert_eq!(ts, None);
    assert_eq!(pid, None);
    let (ts, pid) = extract_metadata("ttlog-42");
    assert_eq!(ts, None);
    assert_eq!(pid.as_deref(), Some("42"));
    let (ts, _) = extract_metadata("ttlog-42-2025-x");
    assert_eq!(ts, None);
}

#[test]
fn describe_keeps_counts_of_log_files_only() {
    let log = FileInfo::describe("ttlog.log".to_string(), 2048, Some((10, 8)));
    assert_eq!(log.size_formatted, "2.00 KB");
    assert_eq!(log.line_count, Some(10));
    assert_eq!(log.event_count, Some(8));
    let bin = FileInfo::describe("ttlog-7-20250101120000-x.bin".to_string(), 10, Some((10, 8)));
    assert_eq!(bin.line_count, None);
    assert_eq!(bin.event_count, None);
    assert_eq!(bin.process_id.as_deref(), Some("7"));
    assert_eq!(bin.timestamp.as_deref(), Some("2025-01-01 12:00:00"));
}

#[test]
fn tally_and_summary() {
    let mut t = DirTally::new();
    t.record_file("ttlog-1-20250101000000-a.bin".to_string(), 100, None);
    t.record_file("ttlog-2-20250101000001-b.bin".to_string(), 300, None);
    t.record_file("ttlog.log".to_string(), 2048, Some((5, 4)));
    t.record_file("notes.txt".to_string(), 7, None);
    assert_eq!(t.total_files, 4);
    assert_eq!(t.total_size, 2455);
    assert_eq!(t.total_lines, 5);
    assert_eq!(t.total_events, 4);
    let info = logs_info_from_tally(t, "./tmp".to_string());
    assert_eq!(info.total_size_formatted, "2.40 KB");
    assert_eq!(info.bin_files.count, 2);
    assert_eq!(info.bin_files.total_size, 400);
    assert_eq!(info.bin_files.min_size, Some(100));
    assert_eq!(info.bin_files.max_size, Some(300));
    assert_eq!(info.bin_files.avg_size, 200);
    assert_eq!(info.bin_files.min_size_formatted.as_deref(), Some("100 bytes"));
    assert_eq!(info.bin_files.avg_size_formatted, "200 bytes");
    assert_eq!(info.log_files.count, 1);
    assert_eq!(info.log_files.total_size, 2048);
    assert_eq!(info.log_files.total_lines, 5);
    assert_eq!(info.log_files.total_events, 4);
    assert_eq!(info.directory_path, "./tmp");
}

#[test]
fn summary_without_bin_files() {
    let info = logs_info_from_tally(DirTally::new(), "d".to_string());
    assert_eq!(info.bin_files.min_size, None);
    assert_eq!(info.bin_files.max_size_formatted, None);
    assert_eq!(info.bin_files.avg_size, 0);
    assert_eq!(info.total_size_formatted, "0 bytes");
}

#[test]
fn empty_summary() {
    let info = create_empty_logs_info();
    assert_eq!(info.total_size_formatted, "0 B");
    assert_eq!(info.bin_files.avg_size_formatted, "0 B");
    assert_eq!(info.log_files.total_size_formatted, "0 B");
    assert_eq!(info.directory_path, "./tmp");
    assert!(info.bin_files.files.is_empty());
}

#[test]
fn line_tally_counts_parsed_non_blank_lines() {
    let mut t = LineTally::new();
    t.record_line("{\"a\":1}", true);
    t.record_line("   \t", true);
    t.record_line("garbage", false);
    t.record_line("\u{3000}", true);
    assert_eq!(t.lines, 4);
    assert_eq!(t.events, 1);
    assert!(line_is_blank(""));
    assert!(!line_is_blank(" x "));
}

#[test]
fn directory_change_detection() {
    assert_eq!(check_directory_changes(Some(10), 5), Some(10));
    assert_eq!(check_directory_changes(Some(5), 5), None);
    assert_eq!(check_directory_changes(None, 5), None);
}

#[test]
fn system_info_columns() {
    use_columns();
}

fn use_columns() {
    let mut t = DirTally::new();
    t.record_file("ttlog-1-20250101000000-a.bin".to_string(), 2048, None);
    t.record_file("ttlog.log".to_string(), 10, Some((1, 1)));
    let info = logs_info_from_tally(t, "./tmp".to_string());
    let w = SystemInfoWidget::new(&info);
    let (c1, c2, c3) = w.create_column_sections();
    let texts = |c: &Vec<Vec<(String, TextStyle)>>| -> Vec<String> {
        c.iter().map(|l| l.iter().map(|s| s.0.clone()).collect::<Vec<_>>().join("")).collect()
    };
    assert_eq!(texts(&c1), vec!["Directory: ", "./tmp", "", "Overall Statistics", "Files:  2", "Size:   2.01 KB"]);
    assert_eq!(
        texts(&c2),
        vec!["Binary Files (.bin)", "Count:    1", "Size:     2.00 KB", "Min:      2.00 KB", "Max:      2.00 KB", "Avg:      2.00 KB"]
    );
    assert_eq!(texts(&c3), vec!["Log Files (.log)", "Count:    1", "Size:     10 bytes", "", "• ttlog.log", "  10 bytes"]);
    assert_eq!(c2[3][1].1, TextStyle { color: Some(InfoColor::Blue), bold: false });
    assert_eq!(c1[0][0].1, TextStyle { color: Some(InfoColor::Cyan), bold: true });
}

fn entry(name: &str) -> (String, String) {
    (name.to_string(), format!("./tmp/{}", name))
}

#[test]
fn log_files_in_listing_order_with_main_log() {
    let entries = vec![entry("b.log"), entry("snap.bin"), entry("a.log"), entry("notes.txt")];
    let r = ttlog_view::files::log_file_paths(&entries, "./tmp/ttlog.log", true);
    assert_eq!(r, vec!["./tmp/b.log", "./tmp/a.log", "./tmp/ttlog.log"]);
    let r = ttlog_view::files::log_file_paths(&entries, "./tmp/ttlog.log", false);
    assert_eq!(r, vec!["./tmp/b.log", "./tmp/a.log"]);
    let with_main = vec![entry("ttlog.log"), entry("a.log")];
    let r = ttlog_view::files::log_file_paths(&with_main, "./tmp/ttlog.log", true);
    assert_eq!(r, vec!["./tmp/ttlog.log", "./tmp/a.log"]);
}

#[test]
fn all_files_sorted_by_kind() {
    let entries = vec![entry("z.bin"), entry("b.log"), entry("a.bin"), entry("a.log"), entry("x.txt")];
    let (logs, bins) = ttlog_view::files::all_file_paths(&entries, "./tmp/ttlog.log", true);
    assert_eq!(logs, vec!["./tmp/a.log", "./tmp/b.log", "./tmp/ttlog.log"]);
    assert_eq!(bins, vec!["./tmp/a.bin", "./tmp/z.bin"]);
}

#[test]
fn sort_texts_orders_like_string_ord() {
    let v: Vec<String> = vec!["é".into(), "b".into(), "B".into(), "ab".into(), "a".into(), "b".into()];
    let r = ttlog_view::files::sort_texts(&v);
    let mut expected = v.clone();
    expected.sort();
    assert_eq!(r, expected);
}
