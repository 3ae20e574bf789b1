use ttlog_view::event::LogLevel;
use ttlog_view::layout::{Constraint, KeyCode};
use ttlog_view::logs::ResolvedLog;
use ttlog_view::logs_widget::{LogsWidget, SortBy, SortOrder, ViewState};

fn rec(level: LogLevel, ts: &str, msg: &str) -> ResolvedLog {
    ResolvedLog {
        level,
        timestamp: ts.to_string(),
        thread_id: 1,
        message: msg.to_string(),
        target: "app::core".to_string(),
        kv: "{}".to_string(),
        file: "main.rs".to_string(),
        position: (1, 1),
    }
}

fn sample() -> Vec<ResolvedLog> {
    vec![
        rec(LogLevel::INFO, "2025-01-01 10:00:00.000", "server started"),
        rec(LogLevel::ERROR, "2025-01-01 10:00:02.000", "disk full"),
        rec(LogLevel::WARN, "2025-01-01 10:00:01.000", "slow request"),
    ]
}

fn ids(w: &LogsWidget) -> Vec<usize> {
    w.filtered_and_sorted_logs().iter().map(|(i, _)| *i).collect()
}

#[test]
fn newest_first_by_default() {
    let logs = sample();
    let w = LogsWidget::new(&logs);
    assert_eq!(w.sort_by, SortBy::Time);
    assert_eq!(w.sort_order, SortOrder::Descending);
    assert_eq!(ids(&w), vec![1, 2, 0]);
    assert_eq!(w.get_filtered_count(), 3);
}

#[test]
fn search_and_level_filters() {
    let logs = sample();
    let mut w = LogsWidget::new(&logs);
    w.set_search_query("DISK".to_string());
    assert_eq!(ids(&w), vec![1]);
    w.clear_all_filters();
    w.cycle_level_filter();
    assert_eq!(w.level_filter.as_deref(), Some("ERROR"));
    assert_eq!(ids(&w), vec![1]);
    for _ in 0..6 {
        w.cycle_level_filter();
    }
    assert_eq!(w.level_filter, None);
    assert_eq!(ids(&w), vec![1, 2, 0]);
}

#[test]
fn sort_by_message_ascending() {
    let logs = sample();
    let mut w = LogsWidget::new(&logs);
    w.cycle_sort_column();
    w.cycle_sort_column();
    assert_eq!(w.sort_by, SortBy::Message);
    w.toggle_sort_order();
    assert_eq!(ids(&w), vec![1, 0, 2]);
    assert_eq!(w.get_sort_indicator(SortBy::Message), "↑");
    assert_eq!(w.get_sort_indicator(SortBy::Time), "");
}

#[test]
fn bookmarks_toggle_and_jump() {
    let logs = sample();
    let mut w = LogsWidget::new(&logs);
    w.toggle_bookmark();
    assert_eq!(w.bookmarks, vec![1]);
    w.toggle_bookmark();
    assert!(w.bookmarks.is_empty());
    w.selected_row = 2;
    w.toggle_bookmark();
    w.selected_row = 0;
    w.jump_to_next_bookmark();
    assert_eq!(w.selected_row, 2);
}

#[test]
fn keys_route_by_view() {
    let logs = sample();
    let mut w = LogsWidget::new(&logs);
    w.on_key(KeyCode::Down, None);
    assert_eq!(w.selected_row, 0, "an unfocused table ignores keys");
    w.focused = true;
    w.on_key(KeyCode::Down, None);
    assert_eq!(w.selected_row, 1);
    w.on_key(KeyCode::Char('/'), None);
    assert_eq!(w.view_state, ViewState::Search);
    w.on_key(KeyCode::Char('s'), None);
    w.on_key(KeyCode::Char('l'), None);
    w.on_key(KeyCode::Char('o'), None);
    w.on_key(KeyCode::Backspace, None);
    w.on_key(KeyCode::Enter, None);
    assert_eq!(w.search_query, "sl");
    assert_eq!(w.view_state, ViewState::Normal);
    w.on_key(KeyCode::Enter, None);
    assert_eq!(w.view_state, ViewState::LogDetail);
    w.on_key(KeyCode::End, Some(12));
    assert_eq!(w.scroll_offset, 11);
    w.on_key(KeyCode::Esc, Some(12));
    assert_eq!(w.view_state, ViewState::Normal);
    assert_eq!(w.scroll_offset, 0);
    w.on_key(KeyCode::Char('?'), None);
    assert_eq!(w.view_state, ViewState::Help);
    w.on_key(KeyCode::Char('q'), None);
    assert_eq!(w.view_state, ViewState::Normal);
}

#[test]
fn status_and_columns() {
    let logs = sample();
    let mut w = LogsWidget::new(&logs);
    let cols = w.build_table_constraints();
    assert_eq!(
        cols,
        vec![
            Constraint::Length(20),
            Constraint::Length(7),
            Constraint::Length(6),
            Constraint::Min(20),
            Constraint::Length(15)
        ]
    );
    assert_eq!(w.get_status_indicators(), vec!["📜"]);
    assert_eq!(w.get_status_text(), "3 logs (sample - press 'L' to load all)");
    w.set_search_query("disk".to_string());
    assert_eq!(w.get_status_text(), "1 of 3 logs (sample - press 'L' to load all)");
    w.set_loading_state(true);
    assert!(w.is_processing());
}

#[test]
fn control_and_header_texts() {
    let logs = sample();
    let mut w = LogsWidget::new(&logs);
    let (search, sort, filter) = w.build_control_texts();
    assert_eq!(search, "Search: None");
    assert_eq!(sort, "Sort: Time↓");
    assert_eq!(filter, "Filter: All");
    w.view_state = ViewState::Search;
    w.search_query = "disk".to_string();
    w.level_filter = Some("ERROR".to_string());
    let (search, _, filter) = w.build_control_texts();
    assert_eq!(search, "🔍 disk_");
    assert_eq!(filter, "Filter: ERROR");
    assert_eq!(w.build_table_header(), vec!["Time↓", "Level", "Thread", "Message", "Target"]);
    w.bookmarks.push(0);
    assert_eq!(
        w.build_title_line(),
        (" ~ System Logs ~──".to_string(), " ~ 📜 🔖 ~".to_string())
    );
}

fn many(n: usize) -> Vec<ResolvedLog> {
    (0..n)
        .map(|i| {
            let level = if i % 3 == 0 { LogLevel::ERROR } else { LogLevel::INFO };
            let ts = format!("2025-01-01 {:02}:{:02}:{:02}.000", (i / 3600) % 24, (i / 60) % 60, i % 60);
            rec(level, &ts, &format!("message {}", i))
        })
        .collect()
}

#[test]
fn cached_path_shows_first_page_of_full_result() {
    let logs = many(1500);
    let mut w = LogsWidget::new(&logs);
    let before = ids(&w);
    assert_eq!(before.len(), 100);
    w.update_cache();
    assert!(w.cached_filtered_logs.is_some());
    assert_eq!(ids(&w), before);
    assert_eq!(w.get_total_filtered_count(), 1500);
    w.cycle_level_filter();
    w.update_cache();
    let errors = ids(&w);
    assert_eq!(errors.len(), 100);
    assert!(errors.iter().all(|i| i % 3 == 0));
    assert_eq!(errors[0], 1497, "newest error first");
}

#[test]
fn virtual_window_for_large_sets() {
    let logs = many(10_001);
    let mut w = LogsWidget::new(&logs);
    assert_eq!(w.get_total_filtered_count(), 10_001);
    let first = ids(&w);
    assert_eq!(first.len(), 20);
    assert_eq!(first[0], 19, "the window holds records 0..20, newest first");
    w.virtual_scroll_down(5);
    assert_eq!(w.get_virtual_scroll_info(), (6, 25, 10_001));
}

#[test]
fn row_cells_show_toggled_columns() {
    let mut long = rec(LogLevel::ERROR, "2025-01-01 10:00:02.000", "");
    long.message = "x".repeat(60);
    long.position = (12, 7);
    long.thread_id = 9;
    let logs = vec![long];
    let mut w = LogsWidget::new(&logs);
    w.show_line_numbers = true;
    w.show_timestamps = true;
    w.show_levels = true;
    w.wrap_lines = true;
    w.bookmarks = vec![0];
    let rows = w.build_table_rows();
    assert_eq!(rows.len(), 1);
    let expected_msg = format!("main.rs:12:7 {}...", "x".repeat(47));
    assert_eq!(
        rows[0],
        vec![
            "🔖1".to_string(),
            "2025-01-01 10:00:02.000".to_string(),
            "🔖ERROR".to_string(),
            "9".to_string(),
            expected_msg,
            "app::core".to_string(),
        ]
    );
    w.wrap_lines = false;
    w.show_timestamps = false;
    w.show_line_numbers = false;
    w.bookmarks.clear();
    let rows = w.build_table_rows();
    assert_eq!(
        rows[0],
        vec![
            "ERROR".to_string(),
            "9".to_string(),
            format!("main.rs:12:7 {}", "x".repeat(60)),
            "app::core".to_string(),
        ]
    );
}

#[test]
fn short_messages_are_not_cut() {
    let logs = vec![rec(LogLevel::INFO, "2025-01-01 10:00:00.000", "server started")];
    let mut w = LogsWidget::new(&logs);
    w.wrap_lines = true;
    let cells = w.build_row_cells(4, &logs[0]);
    assert_eq!(cells[cells.len() - 2], "main.rs:1:1 server started");
}

#[test]
fn toggles_work_whatever_the_window() {
    let logs = sample();
    let mut w = LogsWidget::new(&logs);
    w.focused = true;
    w.virtual_scroll_offset = usize::MAX;
    assert!(w.accepts_key(KeyCode::Char('t')));
    assert!(!w.accepts_key(KeyCode::Down));
    assert!(!w.accepts_key(KeyCode::Enter));
    let before = w.show_timestamps;
    w.on_key(KeyCode::Char('t'), None);
    assert_eq!(w.show_timestamps, !before);
    w.on_key(KeyCode::Char('/'), None);
    assert_eq!(w.view_state, ViewState::Search);
    w.virtual_scroll_offset = 0;
    w.view_state = ViewState::Normal;
    assert!(w.accepts_key(KeyCode::Down));
}
