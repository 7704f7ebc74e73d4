use eocc_core::state::{
    AppState, CachedPaths, EventInfo, EventType, NotificationType, SessionInfo, SessionStatus,
    Transport,
};

fn make_event(event_type: EventType) -> EventInfo {
    EventInfo {
        timestamp: "2025-01-01T00:00:00Z".to_string(),
        event_type,
        matcher: String::new(),
        project_name: "test-project".to_string(),
        project_dir: "/home/user/test-project".to_string(),
        session_id: "session-1".to_string(),
        message: String::new(),
        notification_type: NotificationType::Other,
        tool_name: String::new(),
        tmux_pane: String::new(),
        npx_path: String::new(),
        tmux_path: String::new(),
        transport_type: String::new(),
        transport_host: String::new(),
        transport_port: String::new(),
        transport_user: String::new(),
        notification_results: Vec::new(),
    }
}

fn make_session(name: &str, dir: &str, status: SessionStatus, last_event: &str) -> SessionInfo {
    SessionInfo {
        project_name: name.into(),
        project_dir: dir.into(),
        status,
        last_event: last_event.into(),
        waiting_for: String::new(),
        tmux_pane: String::new(),
        transport: Transport::Local {},
    }
}

#[test]
fn notification_type_default_is_other() {
    assert_eq!(NotificationType::default(), NotificationType::Other);
}

#[test]
fn session_status_emojis() {
    assert_eq!(SessionStatus::Active.emoji(), "🟢");
    assert_eq!(SessionStatus::WaitingPermission.emoji(), "🔐");
    assert_eq!(SessionStatus::WaitingInput.emoji(), "⏳");
    assert_eq!(SessionStatus::Completed.emoji(), "✅");
}

#[test]
fn cached_paths_default_is_empty() {
    let paths = CachedPaths::default();
    assert!(paths.npx_path.is_empty());
    assert!(paths.tmux_path.is_empty());
}

#[test]
fn cached_paths_update_sets_nonempty_paths() {
    let mut paths = CachedPaths::default();
    let mut event = make_event(EventType::SessionStart);
    event.npx_path = "/usr/local/bin/npx".to_string();
    event.tmux_path = "/usr/local/bin/tmux".to_string();

    paths.update_from_event(&event);
    assert_eq!(paths.npx_path, "/usr/local/bin/npx");
    assert_eq!(paths.tmux_path, "/usr/local/bin/tmux");
}

#[test]
fn cached_paths_ignores_empty_values() {
    let mut paths = CachedPaths {
        npx_path: "/existing/npx".to_string(),
        tmux_path: "/existing/tmux".to_string(),
    };
    let event = make_event(EventType::SessionStart);

    paths.update_from_event(&event);
    assert_eq!(paths.npx_path, "/existing/npx");
    assert_eq!(paths.tmux_path, "/existing/tmux");
}

#[test]
fn app_state_default_is_empty() {
    let state = AppState::default();
    assert!(state.sessions.is_empty());
    assert!(state.recent_events.is_empty());
    assert_eq!(state.waiting_session_count(), 0);
}

#[test]
fn waiting_count_counts_permission_and_input() {
    let mut state = AppState::default();
    state.sessions.insert(
        "p1".into(),
        make_session("p1", "/p1", SessionStatus::WaitingPermission, ""),
    );
    state.sessions.insert(
        "p2".into(),
        make_session("p2", "/p2", SessionStatus::WaitingInput, ""),
    );
    assert_eq!(state.waiting_session_count(), 2);
}

#[test]
fn waiting_count_ignores_active_and_completed() {
    let mut state = AppState::default();
    state.sessions.insert(
        "active".into(),
        make_session("active", "/active", SessionStatus::Active, ""),
    );
    state.sessions.insert(
        "completed".into(),
        make_session("completed", "/completed", SessionStatus::Completed, ""),
    );
    assert_eq!(state.waiting_session_count(), 0);
}

#[test]
fn dashboard_data_sorts_by_timestamp_desc() {
    let mut state = AppState::default();
    state.sessions.insert(
        "old".into(),
        make_session("old", "/old", SessionStatus::Active, "2025-01-01T00:00:00Z"),
    );
    state.sessions.insert(
        "new".into(),
        make_session("new", "/new", SessionStatus::Active, "2025-01-02T00:00:00Z"),
    );

    let data = state.to_dashboard_data();
    assert_eq!(data.sessions[0].project_name, "new");
    assert_eq!(data.sessions[1].project_name, "old");
}

#[test]
fn dashboard_data_empty_timestamps_sort_last() {
    let mut state = AppState::default();
    state.sessions.insert(
        "no-ts".into(),
        make_session("no-ts", "/no-ts", SessionStatus::Active, ""),
    );
    state.sessions.insert(
        "has-ts".into(),
        make_session("has-ts", "/has-ts", SessionStatus::Active, "2025-01-01T00:00:00Z"),
    );

    let data = state.to_dashboard_data();
    assert_eq!(data.sessions[0].project_name, "has-ts");
    assert_eq!(data.sessions[1].project_name, "no-ts");
}

#[test]
fn upsert_inserts_new_session() {
    let mut state = AppState::default();
    let event = make_event(EventType::SessionStart);
    state.upsert_session(
        "/home/user/test-project".into(),
        &event,
        SessionStatus::Active,
        String::new(),
    );

    assert_eq!(state.sessions.len(), 1);
    let session = state.sessions.get("/home/user/test-project").unwrap();
    assert_eq!(session.status, SessionStatus::Active);
    assert_eq!(session.project_name, "test-project");
}

#[test]
fn upsert_updates_existing_session() {
    let mut state = AppState::default();
    let event = make_event(EventType::SessionStart);
    state.upsert_session("/proj".into(), &event, SessionStatus::Active, String::new());

    let mut event2 = make_event(EventType::Notification);
    event2.timestamp = "2025-01-01T01:00:00Z".into();
    state.upsert_session(
        "/proj".into(),
        &event2,
        SessionStatus::WaitingPermission,
        "Approve tool".into(),
    );

    assert_eq!(state.sessions.len(), 1);
    let session = state.sessions.get("/proj").unwrap();
    assert_eq!(session.status, SessionStatus::WaitingPermission);
    assert_eq!(session.waiting_for, "Approve tool");
    assert_eq!(session.last_event, "2025-01-01T01:00:00Z");
}

#[test]
fn upsert_preserves_tmux_pane_when_event_pane_empty() {
    let mut state = AppState::default();
    let mut event = make_event(EventType::SessionStart);
    event.tmux_pane = "%0".into();
    state.upsert_session("/proj".into(), &event, SessionStatus::Active, String::new());

    let event2 = make_event(EventType::PostToolUse);
    state.upsert_session("/proj".into(), &event2, SessionStatus::Active, String::new());
    assert_eq!(state.sessions.get("/proj").unwrap().tmux_pane, "%0");
}

#[test]
fn dashboard_data_keeps_events_and_equal_times() {
    let mut state = AppState::default();
    state.sessions.insert(
        "a".into(),
        make_session("a", "/a", SessionStatus::Active, "2025-01-01T00:00:00Z"),
    );
    state.sessions.insert(
        "b".into(),
        make_session("b", "/b", SessionStatus::Completed, "2025-01-01T00:00:00Z"),
    );
    state.sessions.insert(
        "c".into(),
        make_session("c", "/c", SessionStatus::Active, "2025-01-03T00:00:00Z"),
    );
    state.recent_events.push(make_event(EventType::Stop));
    let data = state.to_dashboard_data();
    assert_eq!(data.sessions.len(), 3);
    assert_eq!(data.sessions[0].project_name, "c");
    let rest: Vec<&str> = vec![
        data.sessions[1].project_name.as_str(),
        data.sessions[2].project_name.as_str(),
    ];
    assert!(rest.contains(&"a") && rest.contains(&"b"));
    assert_eq!(data.events.len(), 1);
    assert_eq!(data.events[0].event_type, EventType::Stop);
}

#[test]
fn remove_session_forgets_only_that_session() {
    let mut state = AppState::default();
    state.sessions.insert("a".into(), make_session("a", "/a", SessionStatus::Active, ""));
    state.sessions.insert("b".into(), make_session("b", "/b", SessionStatus::Active, ""));
    state.remove_session("a");
    assert_eq!(state.sessions.len(), 1);
    assert!(!state.sessions.contains_key("a"));
    assert!(state.sessions.contains_key("b"));
    state.remove_session("missing");
    assert_eq!(state.sessions.len(), 1);
}

#[test]
fn clear_all_sessions_empties_the_dashboard() {
    let mut state = AppState::default();
    state.sessions.insert("a".into(), make_session("a", "/a", SessionStatus::WaitingInput, ""));
    state.recent_events.push(make_event(EventType::Stop));
    state.clear_all_sessions();
    assert!(state.sessions.is_empty());
    assert_eq!(state.recent_events.len(), 1);
    assert_eq!(state.waiting_session_count(), 0);
}

#[test]
fn event_transport_fields_describe_remote_sessions() {
    let mut event = make_event(EventType::SessionStart);
    event.transport_type = "ssh".into();
    event.transport_host = "devbox".into();
    event.transport_port = "2222".into();
    event.transport_user = "alice".into();
    match event.to_transport() {
        Transport::Ssh { host, port, user, identity_file } => {
            assert_eq!(host, "devbox");
            assert_eq!(port, 2222);
            assert_eq!(user.as_deref(), Some("alice"));
            assert!(identity_file.is_none());
        }
        other => panic!("unexpected transport {:?}", other),
    }
    event.transport_port = "not-a-port".into();
    match event.to_transport() {
        Transport::Ssh { port, .. } => assert_eq!(port, 22),
        other => panic!("unexpected transport {:?}", other),
    }
    event.transport_host = String::new();
    assert!(matches!(event.to_transport(), Transport::Local {}));
}

#[test]
fn get_transport_looks_up_the_session() {
    let mut state = AppState::default();
    let mut s = make_session("r", "/r", SessionStatus::Active, "");
    s.transport = Transport::Mosh { host: "h".into(), port: 60001, user: None };
    state.sessions.insert("/r".into(), s);
    assert!(matches!(state.get_transport(Some("/r")), Transport::Mosh { port: 60001, .. }));
    assert!(matches!(state.get_transport(Some("/x")), Transport::Local {}));
    assert!(matches!(state.get_transport(None), Transport::Local {}));
}
