use ttlog_view::app_state::{AppState, GlobalAction};
use ttlog_view::bench::{MemoryEfficiencyTester, PerformanceConfig};
use ttlog_view::dashboard::{format_duration as uptime, LogEntry, LogLevel, LogView};
use ttlog_view::layout::{KeyCode, MouseEvent, MouseKind, Rect};
use ttlog_view::main_widget::MainWidget;
use ttlog_view::monitor::RefreshState;
use ttlog_view::rand::{next_u64, random, random_u16, random_u32, random_u64, random_usize};
use ttlog_view::services::{process_user_request, ServiceRegistry, ServiceStatus};
use ttlog_view::tabs_widget::{ListWidget, ViewMode};
use ttlog_view::times::format_duration;

fn xorshift(mut s: u64) -> u64 {
    s ^= s << 13;
    s ^= s >> 7;
    s ^= s << 17;
    s
}

#[test]
fn xorshift_sequence() {
    let mut seed: u64 = 1;
    let a = next_u64(&mut seed);
    assert_eq!(a, xorshift(1));
    assert_eq!(seed, a);
    let b = random_u64(&mut seed);
    assert_eq!(b, xorshift(a));
    let c = random_u32(&mut seed);
    assert_eq!(c as u64, xorshift(b) & 0xFFFF_FFFF);
    let d = random_u16(&mut seed);
    assert_eq!(d as u64, xorshift(xorshift(b)) & 0xFFFF);
    let e = random_usize(&mut seed);
    assert_eq!(e, seed as usize);
    let f: u64 = random(&mut seed);
    assert_eq!(f, seed);
    let mut zero = 0u64;
    assert_eq!(next_u64(&mut zero), 0);
}

#[test]
fn duration_parts() {
    assert_eq!(format_duration(0), (0, 0, 0, 0));
    assert_eq!(format_duration(90061), (1, 1, 1, 1));
    assert_eq!(format_duration(-90061), (-1, -1, -1, -1));
    assert_eq!(format_duration(3599), (0, 0, 59, 59));
    let (d, h, m, s) = format_duration(i64::MIN);
    assert_eq!(d * 86400 + h * 3600 + m * 60 + s, i64::MIN);
}

#[test]
fn uptime_text() {
    assert_eq!(uptime(0), "00:00");
    assert_eq!(uptime(75), "01:15");
    assert_eq!(uptime(3661), "01:01:01");
    assert_eq!(uptime(360000), "100:00:00");
}

#[test]
fn bytes_text_matches_float_formatting() {
    assert_eq!(MemoryEfficiencyTester::format_bytes(0), "0.00 B");
    assert_eq!(MemoryEfficiencyTester::format_bytes(1536), "1.50 KB");
    for &n in [1023usize, 1024, 1152, 1048575, 1073741824, 5_000_000_000].iter() {
        let units = ["B", "KB", "MB", "GB"];
        let mut size = n as f64;
        let mut k = 0;
        while size >= 1024.0 && k < units.len() - 1 {
            size /= 1024.0;
            k += 1;
        }
        assert_eq!(MemoryEfficiencyTester::format_bytes(n), format!("{:.2} {}", size, units[k]));
    }
}

#[test]
fn performance_presets() {
    let d = PerformanceConfig::default();
    assert_eq!(d.buffer_capacity, 65536);
    assert_eq!(d.flush_interval_secs, 30);
    assert_eq!(PerformanceConfig::maximum_performance().channel_capacity, 16384);
    assert!(!PerformanceConfig::memory_optimized().use_batching);
}

#[test]
fn service_registry() {
    let mut r = ServiceRegistry::new();
    r.register_service("api".to_string());
    r.register_service("db".to_string());
    r.services[0].request_count = 5;
    r.register_service("api".to_string());
    assert_eq!(r.services.len(), 2);
    assert_eq!(r.services[0].id, "api");
    assert_eq!(r.services[0].request_count, 0);
    assert_eq!(r.services[0].status, ServiceStatus::Healthy);
    let before = r.services[1].last_heartbeat;
    r.update_heartbeat("db");
    assert!(r.services[1].last_heartbeat >= before);
    r.update_heartbeat("unknown");
    assert_eq!(r.services.len(), 2);
}

#[test]
fn user_requests() {
    assert_eq!(process_user_request(0), Err("Invalid user ID"));
    assert_eq!(process_user_request(12345), Ok("User 12345 data processed".to_string()));
}

#[test]
fn refresh_needs_change_and_gap() {
    let mut s = RefreshState::new();
    assert!(!s.update_file_counts(0, 0, 0, 10_000));
    assert!(!s.update_file_counts(1, 0, 1, 100));
    assert!(!s.dashboard_needs_refresh);
    assert_eq!(s.last_log_file_count, 1);
    assert!(s.update_file_counts(2, 0, 2, 500));
    assert!(s.check_and_reset_dashboard_refresh());
    assert!(!s.check_and_reset_dashboard_refresh());
}

#[test]
fn tab_bar_keys_and_clicks() {
    let mut t = ListWidget::new();
    t.on_key(KeyCode::Tab);
    assert_eq!(t.selected, 1);
    t.on_key(KeyCode::Tab);
    assert_eq!(t.selected, 0);
    t.on_key(KeyCode::BackTab);
    assert_eq!(t.selected, 1);
    t.area = Some(Rect { x: 0, y: 3, width: 40, height: 3 });
    t.on_mouse(MouseEvent { kind: MouseKind::Down, column: 5, row: 3 });
    assert_eq!(t.selected, 0);
    t.on_mouse(MouseEvent { kind: MouseKind::Down, column: 12, row: 3 });
    assert_eq!(t.selected, 1);
    t.on_mouse(MouseEvent { kind: MouseKind::Down, column: 5, row: 4 });
    assert_eq!(t.selected, 1);
    t.on_mouse(MouseEvent { kind: MouseKind::Down, column: 30, row: 3 });
    assert_eq!(t.selected, 1);
    assert_eq!(ViewMode::Performance.as_str(), "Performance");
    assert_eq!(MainWidget::new().title, "");
}

fn entry(level: LogLevel, component: &str, message: &str) -> LogEntry {
    LogEntry {
        id: 0,
        timestamp: "2025-08-23 10:00:00".to_string(),
        level,
        component: component.to_string(),
        message: message.to_string(),
        duration_ms: None,
        memory_kb: None,
        thread_id: 1,
        source_file: "src/api.rs".to_string(),
        line_number: 1,
    }
}

#[test]
fn dashboard_filters_and_cursor() {
    let mut v = LogView::new(vec![
        entry(LogLevel::Info, "Auth", "login ok"),
        entry(LogLevel::Error, "Database", "Query failed"),
        entry(LogLevel::Debug, "Cache", "miss"),
    ]);
    assert_eq!(v.filtered_logs.len(), 3);
    v.cycle_log_level_filter();
    assert_eq!(v.log_level_filter, Some(LogLevel::Debug));
    assert_eq!(v.filtered_logs.len(), 3);
    v.cycle_log_level_filter();
    v.cycle_log_level_filter();
    assert_eq!(v.log_level_filter, Some(LogLevel::Warn));
    assert_eq!(v.filtered_logs.len(), 1);
    v.log_level_filter = None;
    v.component_filter = "DATA".to_string();
    v.filter_logs();
    assert_eq!(v.filtered_logs.len(), 1);
    v.component_filter.clear();
    v.log_filter = "i".to_string();
    v.filter_logs();
    assert_eq!(v.filtered_logs.len(), 3);
    v.next_log();
    assert_eq!(v.selected_log, Some(0));
    v.previous_log();
    assert_eq!(v.selected_log, Some(2));
    v.next_log();
    assert_eq!(v.selected_log, Some(0));
    v.previous_tab();
    assert_eq!(v.selected_tab, 5);
    assert_eq!(v.current_view, ViewMode::Network);
    v.next_tab();
    assert_eq!(v.current_view, ViewMode::Overview);
    assert_eq!(LogLevel::Fatal.priority(), 5);
    assert_eq!(LogLevel::Warn.as_str(), "WARN");
    v.add_log(entry(LogLevel::Trace, "Worker", "tick"));
    assert_eq!(v.logs.len(), 4);
    assert_eq!(v.logs[0].message, "tick");
}

#[test]
fn global_keys_and_focus() {
    let mut s = AppState::new();
    assert_eq!(s.handle_global_key(KeyCode::Tab), GlobalAction::Continue);
    assert_eq!(s.focused_widget, 1);
    s.handle_global_key(KeyCode::BackTab);
    assert_eq!(s.focused_widget, 0);
    s.handle_global_key(KeyCode::BackTab);
    assert_eq!(s.focused_widget, 5);
    assert!(!s.needs_refresh);
    s.handle_global_key(KeyCode::F(5));
    assert!(s.needs_refresh);
    assert_eq!(s.handle_global_key(KeyCode::Char('q')), GlobalAction::Quit);
    s.refreshed();
    assert!(!s.needs_refresh);
    s.note_changes(false, true);
    assert!(s.needs_refresh);
}

#[test]
fn nonzero_seeds_stay_nonzero() {
    for start in [1u64, 2, 0x8000_0000_0000_0000, u64::MAX, 0xDEAD_BEEF] {
        let mut seed = start;
        for _ in 0..1000 {
            assert_ne!(next_u64(&mut seed), 0);
        }
    }
}

#[test]
fn example_service_config() {
    let c = ttlog_view::services::AppConfig::default();
    assert_eq!(c.log_buffer_size, 10_000);
    assert_eq!(c.log_channel_size, 5_000);
    assert_eq!(c.service_name, "my_app");
}

#[test]
fn dashboard_statistics() {
    let mut v = LogView::new(vec![
        entry(LogLevel::Info, "Auth", "a"),
        entry(LogLevel::Error, "Database", "b"),
        entry(LogLevel::Info, "Auth", "c"),
    ]);
    assert_eq!(v.log_stats, vec![0, 0, 2, 0, 1, 0]);
    assert_eq!(v.component_stats, vec![("Auth".to_string(), 2), ("Database".to_string(), 1)]);
    v.add_log(entry(LogLevel::Fatal, "Cache", "d"));
    v.update_statistics();
    assert_eq!(v.log_stats, vec![0, 0, 2, 0, 1, 1]);
    assert_eq!(v.component_stats[0], ("Cache".to_string(), 1));
    assert_eq!(v.component_stats.len(), 3);
}

#[test]
fn recent_lines_window() {
    let sec: u128 = 1_000_000_000;
    let mut f = ttlog_view::monitor::FileLines::new(10);
    assert_eq!(f.record_count(0, 15), 5);
    assert_eq!(f.record_count(2 * sec, 12), 0);
    assert_eq!(f.line_count, 12);
    assert_eq!(f.record_count(5 * sec, 20), 8);
    assert_eq!(f.recent_additions, vec![(0, 5), (5 * sec, 8)]);
    assert_eq!(f.recent_total(), 13);
    assert_eq!(f.record_count(10 * sec + sec / 2, 20), 0);
    assert_eq!(f.recent_additions.len(), 2);
    assert_eq!(f.record_count(11 * sec, 21), 1);
    assert_eq!(f.recent_additions, vec![(5 * sec, 8), (11 * sec, 1)]);
    assert_eq!(f.recent_total(), 9);
}

#[test]
fn refresh_on_added_lines() {
    let mut r = RefreshState::new();
    assert!(!r.note_lines_added(0, 10_000));
    assert!(!r.note_lines_added(3, 499));
    assert!(!r.dashboard_needs_refresh);
    assert!(r.note_lines_added(3, 500));
    assert!(r.check_and_reset_dashboard_refresh());
}

#[test]
fn heartbeat_recorded_at_given_instant() {
    let mut r = ServiceRegistry::new();
    r.register_service("api".to_string());
    r.register_service("db".to_string());
    let api_before = r.services[0].last_heartbeat;
    let at = std::time::Instant::now() + std::time::Duration::from_secs(60);
    r.record_heartbeat("db", at);
    assert_eq!(r.services[1].last_heartbeat, at);
    assert_eq!(r.services[1].id, "db");
    assert_eq!(r.services[0].last_heartbeat, api_before);
    r.record_heartbeat("nobody", at);
    assert_eq!(r.services.len(), 2);
    assert_eq!(r.services[0].last_heartbeat, api_before);
}

#[test]
fn dashboard_keys() {
    let mut v = LogView::new(Vec::new());
    assert_eq!(v.on_key(KeyCode::Char('q')), ttlog_view::dashboard::DashboardAction::Quit);
    assert_eq!(v.on_key(KeyCode::F(1)), ttlog_view::dashboard::DashboardAction::Continue);
    assert!(v.show_help);
    v.on_key(KeyCode::Esc);
    assert!(!v.show_help);
    v.on_key(KeyCode::BackTab);
    assert_eq!(v.selected_tab, 5);
    assert_eq!(v.current_view, ViewMode::Network);
    v.on_key(KeyCode::Tab);
    assert_eq!(v.current_view, ViewMode::Overview);
    v.on_key(KeyCode::Char('f'));
    assert_eq!(v.log_level_filter, Some(LogLevel::Debug));
    v.on_key(KeyCode::Char('j'));
    assert_eq!(v.selected_log, Some(0));
    v.on_key(KeyCode::Char('r'));
    assert_eq!(v.log_stats, vec![0, 0, 0, 0, 0, 0]);
}

#[test]
fn rate_series_keeps_last_points() {
    let mut s = ttlog_view::events_graph::RateSeries::new();
    for i in 0..130usize {
        s.on_tick(i * 2);
    }
    assert_eq!(s.points.len(), 120);
    assert_eq!(s.points[0], (10, 20));
    assert_eq!(s.points[119], (129, 258));
    assert_eq!(s.events_per_sec, 258);
    assert_eq!(s.tick, 130);
}

#[test]
fn rate_series_tick_stops_at_max() {
    let mut s = ttlog_view::events_graph::RateSeries::new();
    s.tick = u64::MAX;
    s.on_tick(3);
    assert_eq!(s.tick, u64::MAX);
    assert_eq!(s.points, vec![(u64::MAX, 3)]);
}
