use ttlog_view::dashboard::{LogLevel, LogView};
use ttlog_view::demo::{
    clock_string, fill_template, initial_entry, initial_level_for, live_entry, live_level_for,
    newest_first, EntryDraws,
};

fn draws(now: u64, age: u64) -> EntryDraws {
    EntryDraws {
        now_secs: now,
        level_roll: 97,
        component_pick: 13,
        message_pick: 16,
        number: 1234,
        age,
        duration: Some(2500),
        memory: None,
        thread_roll: 45,
        line_roll: 999,
    }
}

#[test]
fn level_rolls() {
    assert_eq!(initial_level_for(0), LogLevel::Info);
    assert_eq!(initial_level_for(60), LogLevel::Info);
    assert_eq!(initial_level_for(61), LogLevel::Debug);
    assert_eq!(initial_level_for(85), LogLevel::Warn);
    assert_eq!(initial_level_for(86), LogLevel::Trace);
    assert_eq!(initial_level_for(196), LogLevel::Error);
    assert_eq!(initial_level_for(99), LogLevel::Fatal);
    assert_eq!(live_level_for(65), LogLevel::Info);
    assert_eq!(live_level_for(80), LogLevel::Debug);
    assert_eq!(live_level_for(90), LogLevel::Warn);
    assert_eq!(live_level_for(97), LogLevel::Error);
    assert_eq!(live_level_for(99), LogLevel::Trace);
}

#[test]
fn clock_and_templates() {
    assert_eq!(clock_string(3 * 86400 + 5 * 3600 + 7 * 60 + 9), "2025-08-23 05:07:09");
    assert_eq!(fill_template("Query executed in {}ms", 42), "Query executed in 42ms");
    assert_eq!(fill_template("{}{}", 7), "77");
    assert_eq!(fill_template("no number", 7), "no number");
    assert_eq!(fill_template("{ }", 7), "{ }");
}

#[test]
fn initial_entry_from_draws() {
    let e = initial_entry(3, &draws(100_000, 86_400 + 40));
    assert_eq!(e.id, 3);
    assert_eq!(e.level, LogLevel::Error);
    assert_eq!(e.component, "API");
    assert_eq!(e.message, "Query executed in 234ms");
    assert_eq!(e.timestamp, clock_string(100_000 - 40));
    assert_eq!(e.duration_ms, Some(500));
    assert_eq!(e.memory_kb, None);
    assert_eq!(e.thread_id, 6);
    assert_eq!(e.line_number, 500);
    assert_eq!(e.source_file, "src/api.rs");
    let mut d = draws(10, 50);
    d.message_pick = 3;
    d.component_pick = 9;
    let e = initial_entry(0, &d);
    assert_eq!(e.message, "Request processed");
    assert_eq!(e.source_file, "src/monitoring.rs");
    assert_eq!(e.timestamp, "2025-08-23 00:00:00");
}

#[test]
fn live_entry_from_draws() {
    let e = live_entry(9, &draws(3661, 0));
    assert_eq!(e.level, LogLevel::Error);
    assert_eq!(e.component, "API");
    assert_eq!(e.message, "Request processed successfully");
    assert_eq!(e.timestamp, "2025-08-23 01:01:01");
    assert_eq!(e.duration_ms, Some(0));
    assert_eq!(e.source_file, "src/api.rs");
}

#[test]
fn initial_log_newest_first_stable() {
    let ds = vec![draws(100, 0), draws(300, 0), draws(200, 0), draws(300, 0)];
    let mut v = LogView::new(Vec::new());
    v.generate_initial_logs(&ds);
    let ids: Vec<u64> = v.logs.iter().map(|e| e.id).collect();
    assert_eq!(ids, vec![1, 3, 2, 0]);
    let again = newest_first(v.logs.clone());
    let ids: Vec<u64> = again.iter().map(|e| e.id).collect();
    assert_eq!(ids, vec![1, 3, 2, 0]);
}

#[test]
fn initial_logs_join_the_held_ones() {
    let mut v = LogView::new(Vec::new());
    v.generate_initial_logs(&vec![draws(250, 0)]);
    v.generate_initial_logs(&vec![draws(100, 0), draws(400, 0)]);
    let stamps: Vec<(u64, String)> = v.logs.iter().map(|e| (e.id, e.timestamp.clone())).collect();
    assert_eq!(
        stamps,
        vec![
            (1, clock_string(400)),
            (0, clock_string(250)),
            (0, clock_string(100)),
        ]
    );
}

#[test]
fn random_log_goes_first() {
    let mut v = LogView::new(Vec::new());
    v.generate_initial_logs(&vec![draws(100, 0)]);
    v.add_random_log(&draws(200, 0));
    assert_eq!(v.logs.len(), 2);
    assert_eq!(v.logs[0].id, 1);
    assert_eq!(v.logs[0].timestamp, "2025-08-23 00:03:20");
    assert_eq!(v.logs[1].id, 0);
}
