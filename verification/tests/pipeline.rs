use eocc_core::events::apply_events_to_state;
use eocc_core::notifications::history::NotificationHistory;
use eocc_core::notifications::{
    build_sinks, detect_status_transitions_with_rules, dispatch, NotificationSettings, ProjectRule,
};
use eocc_core::notifications::ChannelConfig;
use eocc_core::pipeline::{
    apply_and_detect, capture_old_statuses, dispatch_notifications, sinks_to_dispatch,
};
use eocc_core::state::{
    AppState, EventInfo, EventType, HookChannelResult, NotificationType, SessionStatus,
};
use eocc_core::strmap::StrMap;

const NOW_MS: u64 = 1_735_689_600_000;

fn make_event(
    event_type: EventType,
    project_name: &str,
    project_dir: &str,
    session_id: &str,
) -> EventInfo {
    EventInfo {
        timestamp: "2025-01-01T00:00:00Z".to_string(),
        event_type,
        matcher: "hook".to_string(),
        project_name: project_name.to_string(),
        project_dir: project_dir.to_string(),
        session_id: session_id.to_string(),
        message: String::new(),
        notification_type: NotificationType::Other,
        tool_name: String::new(),
        tmux_pane: String::new(),
        npx_path: String::new(),
        tmux_path: String::new(),
        transport_type: String::new(),
        transport_host: String::new(),
        transport_port: String::new(),
        transport_user: String::new(),
        notification_results: Vec::new(),
    }
}

fn make_notification_event(
    project_name: &str,
    project_dir: &str,
    session_id: &str,
    notification_type: NotificationType,
    message: &str,
) -> EventInfo {
    let mut e = make_event(EventType::Notification, project_name, project_dir, session_id);
    e.timestamp = "2025-01-01T00:01:00Z".to_string();
    e.notification_type = notification_type;
    e.message = message.to_string();
    e
}

fn settings(
    notify_on: Vec<SessionStatus>,
    project_rules: Vec<ProjectRule>,
    title_template: Option<String>,
    body_template: Option<String>,
) -> NotificationSettings {
    NotificationSettings {
        enabled: true,
        channels: Vec::new(),
        notify_on,
        project_rules,
        cooldown_seconds: None,
        title_template,
        body_template,
        api_port: None,
        api_token: None,
        external_url: None,
    }
}

#[test]
fn full_pipeline_session_start_to_notification() {
    let mut state = AppState::default();
    let settings = settings(
        vec![SessionStatus::WaitingPermission, SessionStatus::Completed],
        Vec::new(),
        None,
        None,
    );
    let mut history = NotificationHistory::default();

    let events = vec![make_event(
        EventType::SessionStart,
        "my-project",
        "/home/user/my-project",
        "session-1",
    )];
    let old_statuses = capture_old_statuses(&state);
    apply_events_to_state(&mut state, &events);

    assert_eq!(state.sessions.len(), 1);
    let session = state.sessions.value_at(0);
    assert_eq!(session.status, SessionStatus::Active);

    let notifications =
        detect_status_transitions_with_rules(&old_statuses, &state.sessions, &settings);
    assert!(notifications.is_empty());

    let old_statuses = capture_old_statuses(&state);
    let events2 = vec![make_notification_event(
        "my-project",
        "/home/user/my-project",
        "session-1",
        NotificationType::PermissionPrompt,
        "Approve bash command",
    )];
    apply_events_to_state(&mut state, &events2);

    assert_eq!(state.sessions.value_at(0).status, SessionStatus::WaitingPermission);

    let notifications =
        detect_status_transitions_with_rules(&old_statuses, &state.sessions, &settings);
    assert_eq!(notifications.len(), 1);
    assert_eq!(notifications[0].new_status, SessionStatus::WaitingPermission);
    assert_eq!(notifications[0].project_name, "my-project");

    let sinks = build_sinks(&[]);
    let record = dispatch(&sinks, &notifications[0], &[], NOW_MS);
    history.push(record);

    assert_eq!(history.records().len(), 1);
    assert_eq!(history.records()[0].project_name, "my-project");
}

#[test]
fn pipeline_with_project_rules() {
    let mut state = AppState::default();
    let settings = settings(
        vec![SessionStatus::WaitingPermission],
        vec![ProjectRule {
            pattern: "**/noisy".to_string(),
            enabled: Some(false),
            notify_on: None,
        }],
        None,
        None,
    );

    let events = vec![
        make_event(EventType::SessionStart, "important", "/home/user/important", "s1"),
        make_event(EventType::SessionStart, "noisy", "/home/user/noisy", "s2"),
    ];
    apply_events_to_state(&mut state, &events);

    let old_statuses = capture_old_statuses(&state);
    let events2 = vec![
        make_notification_event(
            "important",
            "/home/user/important",
            "s1",
            NotificationType::PermissionPrompt,
            "approve",
        ),
        make_notification_event(
            "noisy",
            "/home/user/noisy",
            "s2",
            NotificationType::PermissionPrompt,
            "approve",
        ),
    ];
    apply_events_to_state(&mut state, &events2);

    let notifications =
        detect_status_transitions_with_rules(&old_statuses, &state.sessions, &settings);
    assert_eq!(notifications.len(), 1);
    assert_eq!(notifications[0].project_name, "important");
}

#[test]
fn pipeline_with_templates() {
    let mut state = AppState::default();
    let settings = settings(
        vec![SessionStatus::WaitingPermission],
        Vec::new(),
        Some("{project_name} needs attention".to_string()),
        Some("{status}: {message}".to_string()),
    );

    let events = vec![make_event(EventType::SessionStart, "proj", "/proj", "s1")];
    apply_events_to_state(&mut state, &events);

    let old_statuses = capture_old_statuses(&state);
    let events2 = vec![make_notification_event(
        "proj",
        "/proj",
        "s1",
        NotificationType::PermissionPrompt,
        "approve bash",
    )];
    apply_events_to_state(&mut state, &events2);

    let notifications =
        detect_status_transitions_with_rules(&old_statuses, &state.sessions, &settings);
    assert_eq!(notifications.len(), 1);
    assert_eq!(notifications[0].title(), "proj needs attention");
    assert_eq!(notifications[0].body(), "Waiting for permission: approve bash");
}

#[test]
fn multi_session_lifecycle_with_history() {
    let mut state = AppState::default();
    let settings = settings(
        vec![SessionStatus::WaitingPermission, SessionStatus::Completed],
        Vec::new(),
        None,
        None,
    );
    let mut history = NotificationHistory::default();
    let sinks = build_sinks(&[]);

    let events = vec![
        make_event(EventType::SessionStart, "a", "/a", "s1"),
        make_event(EventType::SessionStart, "b", "/b", "s2"),
    ];
    apply_events_to_state(&mut state, &events);

    let old = capture_old_statuses(&state);
    let events2 = vec![
        make_notification_event("a", "/a", "s1", NotificationType::PermissionPrompt, "approve"),
        make_notification_event("b", "/b", "s2", NotificationType::PermissionPrompt, "approve"),
    ];
    apply_events_to_state(&mut state, &events2);

    let notifications = detect_status_transitions_with_rules(&old, &state.sessions, &settings);
    assert_eq!(notifications.len(), 2);
    for n in &notifications {
        history.push(dispatch(&sinks, n, &[], NOW_MS));
    }

    let old = capture_old_statuses(&state);
    let events3 = vec![
        {
            let mut e = make_event(EventType::Stop, "a", "/a", "s1");
            e.timestamp = "2025-01-01T00:02:00Z".to_string();
            e
        },
        {
            let mut e = make_event(EventType::Stop, "b", "/b", "s2");
            e.timestamp = "2025-01-01T00:02:00Z".to_string();
            e
        },
    ];
    apply_events_to_state(&mut state, &events3);

    let notifications = detect_status_transitions_with_rules(&old, &state.sessions, &settings);
    assert_eq!(notifications.len(), 2);
    for n in &notifications {
        history.push(dispatch(&sinks, n, &[], NOW_MS));
    }

    assert_eq!(history.records().len(), 4);
}

#[test]
fn cooldown_notifies_a_session_once_per_window() {
    let mut state = AppState::default();
    let mut s = settings(
        vec![SessionStatus::WaitingPermission, SessionStatus::Completed],
        Vec::new(),
        None,
        None,
    );
    s.cooldown_seconds = Some(30);
    state.notification_settings = s;
    let mut last_notified: StrMap<u64> = StrMap::new();

    apply_and_detect(&mut state, &[make_event(EventType::SessionStart, "a", "/a", "s1")], 1);
    let pending = apply_and_detect(
        &mut state,
        &[make_notification_event("a", "/a", "s1", NotificationType::PermissionPrompt, "x")],
        1,
    );
    assert_eq!(pending.pending_notifications.len(), 1);
    assert_eq!(pending.cooldown_seconds, Some(30));
    let sent = dispatch_notifications(&pending, &mut last_notified, NOW_MS);
    assert_eq!(sent, vec![0]);
    assert_eq!(last_notified.get("/a"), Some(&NOW_MS));

    let pending = apply_and_detect(&mut state, &[make_event(EventType::Stop, "a", "/a", "s1")], 1);
    assert_eq!(pending.pending_notifications.len(), 1);
    let sent = dispatch_notifications(&pending, &mut last_notified, NOW_MS + 10_000);
    assert!(sent.is_empty());
    assert_eq!(last_notified.get("/a"), Some(&NOW_MS));

    let sent = dispatch_notifications(&pending, &mut last_notified, NOW_MS + 30_000);
    assert_eq!(sent, vec![0]);
    assert_eq!(last_notified.get("/a"), Some(&(NOW_MS + 30_000)));
}

#[test]
fn without_channels_nothing_is_pending() {
    let mut state = AppState::default();
    state.notification_settings = settings(vec![SessionStatus::Active], Vec::new(), None, None);
    let pending =
        apply_and_detect(&mut state, &[make_event(EventType::SessionStart, "a", "/a", "s1")], 0);
    assert!(pending.pending_notifications.is_empty());
    assert_eq!(state.sessions.len(), 1);
    let pending =
        apply_and_detect(&mut state, &[make_event(EventType::PostToolUse, "b", "/b", "s2")], 1);
    assert_eq!(pending.pending_notifications.len(), 1);
}

#[test]
fn channels_the_hook_served_are_skipped() {
    let mut state = AppState::default();
    state.notification_settings = settings(vec![SessionStatus::WaitingPermission], Vec::new(), None, None);
    apply_and_detect(&mut state, &[make_event(EventType::SessionStart, "a", "/a", "s1")], 3);
    let mut result = make_event(EventType::NotificationResult, "a", "/a", "");
    result.notification_results = vec![
        HookChannelResult { channel: "ntfy".to_string(), ok: true, error: None },
        HookChannelResult { channel: "webhook".to_string(), ok: false, error: Some("502".to_string()) },
    ];
    let pending = apply_and_detect(
        &mut state,
        &[
            make_notification_event("a", "/a", "s1", NotificationType::PermissionPrompt, "x"),
            result,
        ],
        3,
    );
    assert_eq!(pending.pending_notifications.len(), 1);
    assert_eq!(pending.hook_results.len(), 1);
    assert_eq!(pending.hook_results[0].len(), 2);
    let sinks = build_sinks(&[
        ChannelConfig::Ntfy { server: "https://ntfy.sh".into(), topic: "t".into(), token: None },
        ChannelConfig::Webhook { url: "https://example.com".into() },
        ChannelConfig::Desktop {},
    ]);
    assert_eq!(sinks_to_dispatch(&sinks, &pending.hook_results[0]), vec![1, 2]);
    assert_eq!(sinks_to_dispatch(&sinks, &[]), vec![0, 1, 2]);
}

#[test]
fn sessions_in_cooldown_keep_their_time() {
    let mut state = AppState::default();
    let mut s = settings(vec![SessionStatus::WaitingPermission, SessionStatus::Completed], Vec::new(), None, None);
    s.cooldown_seconds = Some(10);
    state.notification_settings = s;
    let mut last_notified: StrMap<u64> = StrMap::new();
    last_notified.insert("/a".to_string(), NOW_MS);
    apply_and_detect(
        &mut state,
        &[
            make_event(EventType::SessionStart, "a", "/a", "s1"),
            make_event(EventType::SessionStart, "b", "/b", "s2"),
        ],
        1,
    );
    let pending = apply_and_detect(
        &mut state,
        &[
            make_event(EventType::Stop, "a", "/a", "s1"),
            make_event(EventType::Stop, "b", "/b", "s2"),
        ],
        1,
    );
    assert_eq!(pending.pending_notifications.len(), 2);
    let sent = dispatch_notifications(&pending, &mut last_notified, NOW_MS + 9_999);
    assert_eq!(sent, vec![1]);
    assert_eq!(last_notified.get("/a"), Some(&NOW_MS));
    assert_eq!(last_notified.get("/b"), Some(&(NOW_MS + 9_999)));
}
