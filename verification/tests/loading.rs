use ttlog_view::data_loader::{AppData, DataMessage, LoadingState};
use ttlog_view::logs::create_empty_logs_info;

#[test]
fn loading_state_queries() {
    let s: LoadingState<u32> = LoadingState::Loaded(3);
    assert!(s.is_loaded() && !s.is_loading() && !s.is_error());
    assert_eq!(s.get_data(), Some(&3));
    assert_eq!(s.get_error(), None);
    let e: LoadingState<u32> = LoadingState::Error("boom".to_string());
    assert!(e.is_error());
    assert_eq!(e.get_error(), Some("boom"));
    assert_eq!(e.get_data(), None);
    let l: LoadingState<u32> = LoadingState::Loading;
    assert!(l.is_loading());
}

#[test]
fn messages_settle_one_piece_each() {
    let mut d = AppData::default();
    assert!(matches!(d.logs_info, LoadingState::NotStarted));
    d.start_loading();
    assert!(d.logs_info.is_loading() && d.log_events.is_loading() && d.snapshots.is_loading());
    d.process_message(DataMessage::SnapshotsLoaded(Err("no dir".to_string())));
    assert_eq!(d.snapshots.get_error(), Some("no dir"));
    assert!(d.logs_info.is_loading());
    d.process_message(DataMessage::LogsInfoLoaded(Ok(create_empty_logs_info())));
    assert!(d.logs_info.is_loaded());
    d.process_message(DataMessage::LogEventsLoaded(Ok(Vec::new())));
    assert_eq!(d.log_events.get_data().map(|v| v.len()), Some(0));
}
