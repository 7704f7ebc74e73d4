use eocc_core::hook_state::HookState;
use eocc_core::notifications::history::{
    ChannelResult, NotificationHistory, NotificationRecord, MAX_HISTORY,
};
use eocc_core::watcher::{event_lines, join_path_str, WatcherConfig};

fn make_record(project: &str) -> NotificationRecord {
    NotificationRecord {
        timestamp: "2025-01-01T00:00:00Z".to_string(),
        project_name: project.to_string(),
        project_dir: format!("/home/user/{}", project),
        status: "WaitingPermission".to_string(),
        channels: vec![ChannelResult {
            name: "ntfy".to_string(),
            success: true,
            error: None,
        }],
    }
}

#[test]
fn push_and_retrieve() {
    let mut history = NotificationHistory::default();
    history.push(make_record("proj"));
    let records = history.records();
    assert_eq!(records.len(), 1);
    assert_eq!(records[0].project_name, "proj");
}

#[test]
fn caps_at_max() {
    let mut history = NotificationHistory::default();
    for i in 0..150 {
        history.push(make_record(&format!("proj-{}", i)));
    }
    assert_eq!(history.records().len(), MAX_HISTORY);
    assert_eq!(history.records()[0].project_name, "proj-50");
}

#[test]
fn clear_empties() {
    let mut history = NotificationHistory::default();
    history.push(make_record("proj"));
    history.clear();
    assert!(history.records().is_empty());
}

#[test]
fn history_keeps_order_oldest_first() {
    let mut history = NotificationHistory::default();
    for i in 0..101 {
        history.push(make_record(&format!("p{}", i)));
    }
    let records = history.records();
    assert_eq!(records.len(), 100);
    assert_eq!(records[0].project_name, "p1");
    assert_eq!(records[99].project_name, "p100");
}

#[test]
fn default_hook_state() {
    let state = HookState::default();
    assert!(state.sessions.is_empty());
}

#[test]
fn default_config() {
    let config = WatcherConfig::for_home("/root");
    assert!(config.eocc_dir.ends_with(".eocc"));
    assert_eq!(config.poll_interval_secs, 1);
}

#[test]
fn watcher_paths_live_under_the_eocc_directory() {
    let config = WatcherConfig::for_home("/home/u/");
    assert_eq!(config.eocc_dir, "/home/u/.eocc");
    assert_eq!(config.events_path(), "/home/u/.eocc/logs/events.jsonl");
    assert_eq!(
        config.processing_path(),
        "/home/u/.eocc/logs/events.processing.jsonl"
    );
    assert_eq!(
        config.settings_path(),
        "/home/u/.eocc/notification_settings.toml"
    );
    assert_eq!(join_path_str("", ".eocc"), ".eocc");
    assert_eq!(join_path_str("/root", ".eocc"), "/root/.eocc");
}

#[test]
fn queue_skips_blank_lines() {
    let lines = event_lines("{\"a\":1}\n\n   \r\n{\"b\":2}\r\n\t\n");
    assert_eq!(lines, vec!["{\"a\":1}".to_string(), "{\"b\":2}".to_string()]);
    assert!(event_lines("").is_empty());
    assert!(event_lines(" \n\t\n").is_empty());
}
