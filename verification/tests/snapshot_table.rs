use ttlog_view::layout::KeyCode;
use ttlog_view::snapshot_widget::{PopupHeights, SnapshotWidget, SortBy, SortOrder, ViewState};
use ttlog_view::snapshots::{ResolvedEvent, SnapShot, SnapshotFile};

fn event(i: u64) -> ResolvedEvent {
    ResolvedEvent {
        packed_meta: i << 12,
        message: format!("event {}", i),
        target: "t".to_string(),
        kv: None,
        file: "f.rs".to_string(),
        position: (1, 2),
    }
}

fn snap(name: &str, stamp: &str, n: u64) -> SnapshotFile {
    SnapshotFile {
        name: name.to_string(),
        path: format!("./tmp/{}.bin", name),
        create_at: stamp.to_string(),
        data: SnapShot { events: (0..n).map(event).collect() },
    }
}

fn files() -> Vec<SnapshotFile> {
    vec![
        snap("ttlog-1-20250101000000-a", "20250101000000", 0),
        snap("ttlog-2-20250301000000-b", "20250301000000", 3),
        snap("ttlog-3-20250201000000-c", "20250201000000", 1),
    ]
}

const NO_HEIGHTS: PopupHeights = PopupHeights { snapshot_detail: None, event_detail: None, log_detail: None };

fn names(w: &SnapshotWidget) -> Vec<usize> {
    w.filtered_and_sorted_snapshots().iter().map(|(i, _)| *i).collect()
}

#[test]
fn newest_snapshot_first() {
    let f = files();
    let w = SnapshotWidget::new(&f);
    assert_eq!(w.sort_by, SortBy::CreateTime);
    assert_eq!(w.sort_order, SortOrder::Descending);
    assert_eq!(names(&w), vec![1, 2, 0]);
}

#[test]
fn search_matches_name_path_or_stamp() {
    let f = files();
    let mut w = SnapshotWidget::new(&f);
    w.focused = true;
    w.on_key(KeyCode::Char('/'), NO_HEIGHTS);
    w.on_key(KeyCode::Char('-'), NO_HEIGHTS);
    w.on_key(KeyCode::Char('B'), NO_HEIGHTS);
    w.on_key(KeyCode::Enter, NO_HEIGHTS);
    assert_eq!(names(&w), vec![1]);
    w.on_key(KeyCode::Char('c'), NO_HEIGHTS);
    assert_eq!(w.search_query, "");
    assert_eq!(names(&w), vec![1, 2, 0]);
}

#[test]
fn event_table_navigation() {
    let f = files();
    let mut w = SnapshotWidget::new(&f);
    w.focused = true;
    w.on_key(KeyCode::Enter, NO_HEIGHTS);
    assert_eq!(w.view_state, ViewState::SnapshotDetail);
    assert_eq!(w.get_current_snapshot_events().map(|e| e.len()), Some(3));
    w.on_key(KeyCode::End, NO_HEIGHTS);
    assert_eq!(w.events_selected_row, 2);
    assert_eq!(w.events_table_state.selected, Some(2));
    w.on_key(KeyCode::Down, NO_HEIGHTS);
    assert_eq!(w.events_selected_row, 2);
    w.on_key(KeyCode::Up, NO_HEIGHTS);
    assert_eq!(w.events_selected_row, 1);
    assert_eq!(w.get_selected_event().map(|e| e.message.clone()), Some("event 1".to_string()));
    w.on_key(KeyCode::Enter, NO_HEIGHTS);
    assert_eq!(w.view_state, ViewState::EventDetail);
    let h = PopupHeights { snapshot_detail: None, event_detail: Some(9), log_detail: None };
    w.on_key(KeyCode::End, h);
    assert_eq!(w.events_scroll_offset, 8);
    w.on_key(KeyCode::Esc, h);
    assert_eq!(w.view_state, ViewState::SnapshotDetail);
    assert_eq!(w.events_scroll_offset, 0);
    w.on_key(KeyCode::Esc, h);
    assert_eq!(w.view_state, ViewState::Normal);
    assert_eq!(w.events_selected_row, 0);
}

#[test]
fn snapshot_without_events_scrolls_its_data() {
    let f = files();
    let mut w = SnapshotWidget::new(&f);
    w.focused = true;
    w.on_key(KeyCode::End, NO_HEIGHTS);
    assert_eq!(w.selected_row, 2);
    w.on_key(KeyCode::Enter, NO_HEIGHTS);
    let h = PopupHeights { snapshot_detail: Some(40), event_detail: None, log_detail: None };
    w.on_key(KeyCode::PageDown, h);
    assert_eq!(w.scroll_offset, 10);
    w.on_key(KeyCode::End, h);
    assert_eq!(w.scroll_offset, 39);
    w.on_key(KeyCode::Esc, h);
    assert_eq!(w.view_state, ViewState::Normal);
    assert_eq!(w.scroll_offset, 0);
}

#[test]
fn snapshot_bookmarks_and_sorting() {
    let f = files();
    let mut w = SnapshotWidget::new(&f);
    w.focused = true;
    w.on_key(KeyCode::Char('b'), NO_HEIGHTS);
    assert_eq!(w.bookmarks, vec![1]);
    w.on_key(KeyCode::PageDown, NO_HEIGHTS);
    assert_eq!(w.selected_row, 2);
    w.on_key(KeyCode::Char('B'), NO_HEIGHTS);
    assert_eq!(w.selected_row, 0);
    w.on_key(KeyCode::Char('s'), NO_HEIGHTS);
    assert_eq!(w.sort_by, SortBy::Name);
    w.on_key(KeyCode::Char('r'), NO_HEIGHTS);
    assert_eq!(names(&w), vec![0, 1, 2]);
    assert_eq!(w.get_sort_indicator(SortBy::Name), "↑");
    w.on_key(KeyCode::Char('#'), NO_HEIGHTS);
    assert_eq!(w.get_status_indicators(), vec!["📜", "#", "🔖"]);
}

#[test]
fn snapshot_texts() {
    let f = files();
    let mut w = SnapshotWidget::new(&f);
    assert_eq!(w.build_control_texts(), ("Search: None".to_string(), "Sort: Time↓".to_string()));
    assert_eq!(w.build_table_header(), vec!["Name", "Path", "Created↓"]);
    w.search_query = "x".to_string();
    assert_eq!(w.build_control_texts().0, "🔍 x");
    assert_eq!(w.build_title_line(), (" ~ System Snapshots ~──".to_string(), " ~ 📜 ~".to_string()));
}

#[test]
fn snapshot_row_cells() {
    let mut f = snap("ttlog-1-20250101000000-a", "20250101123045", 0);
    f.path = format!("./tmp/{}.bin", "p".repeat(50));
    let fs = vec![f];
    let mut w = SnapshotWidget::new(&fs);
    w.show_line_numbers = true;
    w.show_timestamps = true;
    w.wrap_lines = true;
    w.bookmarks = vec![0];
    let rows = w.build_table_rows();
    assert_eq!(rows.len(), 1);
    let path = format!("./tmp/{}", "p".repeat(50));
    assert_eq!(
        rows[0],
        vec![
            "🔖1".to_string(),
            "🔖ttlog-1-20250101000000-a".to_string(),
            format!("{}...", &path[..37]),
            "2025-01-01 12:30:45".to_string(),
        ]
    );
    w.wrap_lines = false;
    w.show_timestamps = false;
    w.show_line_numbers = false;
    w.bookmarks.clear();
    let rows = w.build_table_rows();
    assert_eq!(rows[0], vec!["ttlog-1-20250101000000-a".to_string(), format!("{}.bin", path)]);
}

#[test]
fn unparsable_stamp_shows_epoch() {
    let fs = vec![snap("x", "not a stamp", 0)];
    let mut w = SnapshotWidget::new(&fs);
    w.show_timestamps = true;
    w.show_line_numbers = false;
    let cells = w.build_row_cells(0, &fs[0]);
    assert_eq!(cells[cells.len() - 1], "1970-01-01 00:00:00");
}

#[test]
fn event_table_rows() {
    let fs = files();
    let mut w = SnapshotWidget::new(&fs);
    let ids = names(&w);
    let pos = ids.iter().position(|&i| i == 1).unwrap();
    w.selected_row = pos;
    let rows = w.build_event_rows();
    assert_eq!(rows.len(), 3);
    assert_eq!(rows[2], vec!["3".to_string(), "TRACE".to_string(), "1970-01-01 00:00:00.002".to_string(), "event 2".to_string()]);
    let mut long = event(1500);
    long.packed_meta = (86_400_000u64 << 12) | (4 << 8) | 7;
    long.message = "y".repeat(51);
    let cells = ttlog_view::snapshot_widget::build_event_row(0, &long);
    assert_eq!(
        cells,
        vec!["1".to_string(), "ERROR".to_string(), "1970-01-02 00:00:00.000".to_string(), format!("{}...", "y".repeat(47))]
    );
    w.selected_row = usize::MAX;
    assert!(w.build_event_rows().is_empty());
}
