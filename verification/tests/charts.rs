use ttlog_view::event::{LogEvent, LogLevel};
use ttlog_view::layout::{KeyCode, Rect};
use ttlog_view::logs::ResolvedLog;
use ttlog_view::logs_chart_widget::{bar_width, count_levels, inner_area, BarColor, LogsChartWidget, TimeRange};
use ttlog_view::logs_graph_widget::LogsGraphWidget;
use ttlog_view::snapshots::ResolvedEvent;

fn rec(level: LogLevel) -> ResolvedLog {
    ResolvedLog {
        level,
        timestamp: "2025-01-01 00:00:00.000".to_string(),
        thread_id: 0,
        message: String::new(),
        target: String::new(),
        kv: String::new(),
        file: String::new(),
        position: (0, 0),
    }
}

#[test]
fn chart_counts_by_level() {
    let logs = vec![rec(LogLevel::ERROR), rec(LogLevel::ERROR), rec(LogLevel::INFO), rec(LogLevel::FATAL)];
    assert_eq!(count_levels(&logs), (4, 1, 2, 0, 1, 0, 0));
    let mut w = LogsChartWidget::new(&logs);
    let bars = w.build_bars();
    let labels: Vec<&str> = bars.iter().map(|b| b.0).collect();
    assert_eq!(labels, vec!["Fatal", "Errors", "Warns", "Info", "Debug", "Trace"]);
    assert_eq!(bars[1].1, 2);
    assert_eq!(bars[1].2.color, BarColor::Magenta);
    assert!(w.cached_counts.is_some());
    assert_eq!(w.get_status_text(), "4 logs");
}

#[test]
fn chart_keys_toggle_and_clear_cache() {
    let logs = vec![rec(LogLevel::WARN)];
    let mut w = LogsChartWidget::new(&logs);
    let _ = w.aggregate_counts();
    w.on_key(KeyCode::Char('v'));
    assert!(!w.show_total, "an unfocused chart ignores keys");
    w.focused = true;
    w.on_key(KeyCode::Char('v'));
    assert!(w.show_total);
    assert!(w.cached_counts.is_none());
    for _ in 0..7 {
        w.on_key(KeyCode::Char('t'));
    }
    assert_eq!(w.time_range, TimeRange::All);
    w.on_key(KeyCode::Char('t'));
    assert_eq!(w.format_time_range_label(), "Last 5m");
    for k in ['v', 'f', 'e', 'w', 'i', 'd', 'r'] {
        w.on_key(KeyCode::Char(k));
    }
    let bars = w.build_bars();
    assert_eq!(bars.len(), 1);
    assert_eq!(bars[0].0, "No data");
}

#[test]
fn graph_demo_events_and_counts() {
    let g = LogsGraphWidget::new();
    assert_eq!(g.events.len(), 50);
    assert_eq!(g.events[0].message, "[ERROR] Simulated log message 0");
    assert_eq!(g.events[7].target, "controller::module1");
    assert_eq!(g.events[5].file, "fatales.rs");
    assert_eq!(LogsGraphWidget::event_level(&g.events[3]), LogLevel::DEBUG);
    let c = g.aggregate_counts(1_000_000);
    assert_eq!(c, (50, 8, 9, 9, 8, 8, 8));
}

#[test]
fn graph_time_window() {
    let ev = |ms: u64, level: LogLevel| ResolvedEvent {
        packed_meta: LogEvent::pack_meta(ms, level, 0),
        message: String::new(),
        target: String::new(),
        kv: None,
        file: String::new(),
        position: (0, 0),
    };
    let mut g = LogsGraphWidget::new().with_events(vec![
        ev(1_000_000, LogLevel::ERROR),
        ev(1_299_000, LogLevel::WARN),
        ev(1_300_000, LogLevel::INFO),
    ]);
    g.on_key(KeyCode::Char('t'));
    assert_eq!(g.time_range, TimeRange::Last5Min);
    assert_eq!(g.cutoff_secs(1600), 1300);
    assert_eq!(g.aggregate_counts(1600), (1, 0, 0, 0, 1, 0, 0));
    g.on_key(KeyCode::Char('f'));
    let bars = g.build_bars(1600);
    assert_eq!(bars[0].0, "Errors");
}

#[test]
fn centred_text() {
    assert_eq!(LogsGraphWidget::center_pad("ab", 6), "  ab  ");
    assert_eq!(LogsGraphWidget::center_pad("abc", 6), " abc  ");
    assert_eq!(LogsGraphWidget::center_pad("abcdef", 3), "abc");
}

#[test]
fn bar_layout() {
    assert_eq!(bar_width(100, 6), 8);
    assert_eq!(bar_width(53, 6), 8);
    assert_eq!(bar_width(52, 6), 7);
    assert_eq!(bar_width(3, 6), 1);
    assert_eq!(bar_width(0, 1), 1);
    let r = inner_area(Rect { x: 2, y: 3, width: 10, height: 1 });
    assert_eq!(r, Rect { x: 3, y: 4, width: 8, height: 0 });
}
