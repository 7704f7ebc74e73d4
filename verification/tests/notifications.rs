use eocc_core::notifications::{
    build_sinks, detect_status_transitions_with_rules, pattern_matches_exec, detect_status_transitions, dispatch, test_notification, ChannelConfig,
    NotificationPriority, NotificationSettings, NotificationSink, ProjectRule,
    SessionNotification,
};
use eocc_core::state::{SessionInfo, SessionStatus, Transport};
use eocc_core::strmap::StrMap;

fn make_session(name: &str, status: SessionStatus) -> SessionInfo {
    SessionInfo {
        project_name: name.to_string(),
        project_dir: format!("/home/user/{}", name),
        status,
        last_event: "2025-01-01T00:00:00Z".to_string(),
        waiting_for: String::new(),
        tmux_pane: String::new(),
        transport: Transport::Local {},
    }
}

fn notification(
    name: &str,
    dir: &str,
    old_status: Option<SessionStatus>,
    new_status: SessionStatus,
    message: &str,
    priority: NotificationPriority,
) -> SessionNotification {
    SessionNotification {
        project_name: name.to_string(),
        project_dir: dir.to_string(),
        session_id: "s1".to_string(),
        old_status,
        new_status,
        message: message.to_string(),
        priority,
        title_template: None,
        body_template: None,
        click_url: None,
        transport_type: String::new(),
        tmux_session: String::new(),
        tmux_pane: String::new(),
    }
}

#[test]
fn detect_transitions_new_session_in_notify_list() {
    let old = StrMap::new();
    let mut new_sessions = StrMap::new();
    new_sessions.insert(
        "/home/user/proj".to_string(),
        make_session("proj", SessionStatus::WaitingPermission),
    );

    let notifications =
        detect_status_transitions(&old, &new_sessions, &[SessionStatus::WaitingPermission]);
    assert_eq!(notifications.len(), 1);
    assert_eq!(notifications[0].new_status, SessionStatus::WaitingPermission);
    assert_eq!(notifications[0].project_name, "proj");
}

#[test]
fn detect_transitions_status_change_triggers_notification() {
    let mut old = StrMap::new();
    old.insert("/home/user/proj".to_string(), SessionStatus::Active);

    let mut new_sessions = StrMap::new();
    new_sessions.insert(
        "/home/user/proj".to_string(),
        make_session("proj", SessionStatus::WaitingPermission),
    );

    let notifications =
        detect_status_transitions(&old, &new_sessions, &[SessionStatus::WaitingPermission]);
    assert_eq!(notifications.len(), 1);
    assert_eq!(notifications[0].old_status, Some(SessionStatus::Active));
}

#[test]
fn detect_transitions_no_change_no_notification() {
    let mut old = StrMap::new();
    old.insert("/home/user/proj".to_string(), SessionStatus::WaitingPermission);

    let mut new_sessions = StrMap::new();
    new_sessions.insert(
        "/home/user/proj".to_string(),
        make_session("proj", SessionStatus::WaitingPermission),
    );

    let notifications =
        detect_status_transitions(&old, &new_sessions, &[SessionStatus::WaitingPermission]);
    assert_eq!(notifications.len(), 0);
}

#[test]
fn detect_transitions_ignores_statuses_not_in_notify_on() {
    let old = StrMap::new();
    let mut new_sessions = StrMap::new();
    new_sessions.insert(
        "/home/user/proj".to_string(),
        make_session("proj", SessionStatus::Active),
    );

    let notifications = detect_status_transitions(
        &old,
        &new_sessions,
        &[SessionStatus::WaitingPermission, SessionStatus::Completed],
    );
    assert_eq!(notifications.len(), 0);
}

#[test]
fn detect_transitions_multiple_sessions() {
    let mut old = StrMap::new();
    old.insert("/home/user/a".to_string(), SessionStatus::Active);
    old.insert("/home/user/b".to_string(), SessionStatus::Active);

    let mut new_sessions = StrMap::new();
    new_sessions.insert(
        "/home/user/a".to_string(),
        make_session("a", SessionStatus::WaitingPermission),
    );
    new_sessions.insert(
        "/home/user/b".to_string(),
        make_session("b", SessionStatus::Completed),
    );

    let notifications = detect_status_transitions(
        &old,
        &new_sessions,
        &[SessionStatus::WaitingPermission, SessionStatus::Completed],
    );
    assert_eq!(notifications.len(), 2);
}

#[test]
fn notification_title_format() {
    let n = notification(
        "my-project",
        "/home/user/my-project",
        Some(SessionStatus::Active),
        SessionStatus::WaitingPermission,
        "Approve bash command",
        NotificationPriority::High,
    );
    assert_eq!(n.title(), "🔐 my-project - Waiting for permission");
    assert_eq!(n.body(), "Approve bash command");
}

#[test]
fn notification_body_uses_status_when_message_empty() {
    let n = notification(
        "proj",
        "/proj",
        None,
        SessionStatus::Completed,
        "",
        NotificationPriority::Normal,
    );
    assert_eq!(n.body(), "Completed");
}

#[test]
fn notification_settings_default() {
    let settings = NotificationSettings::default();
    assert!(!settings.enabled);
    assert!(settings.channels.is_empty());
    assert_eq!(settings.notify_on.len(), 3);
}

#[test]
fn priority_display() {
    assert_eq!(NotificationPriority::Low.to_string(), "low");
    assert_eq!(NotificationPriority::Normal.to_string(), "normal");
    assert_eq!(NotificationPriority::High.to_string(), "high");
}

#[test]
fn build_sinks_empty_channels() {
    let sinks = build_sinks(&[]);
    assert!(sinks.is_empty());
}

#[test]
fn detect_transitions_high_priority_for_waiting() {
    let old = StrMap::new();
    let mut new_sessions = StrMap::new();
    new_sessions.insert("/proj".to_string(), make_session("proj", SessionStatus::WaitingInput));

    let notifications =
        detect_status_transitions(&old, &new_sessions, &[SessionStatus::WaitingInput]);
    assert_eq!(notifications[0].priority, NotificationPriority::High);
}

#[test]
fn detect_transitions_normal_priority_for_completed() {
    let mut old = StrMap::new();
    old.insert("/proj".to_string(), SessionStatus::Active);

    let mut new_sessions = StrMap::new();
    new_sessions.insert("/proj".to_string(), make_session("proj", SessionStatus::Completed));

    let notifications =
        detect_status_transitions(&old, &new_sessions, &[SessionStatus::Completed]);
    assert_eq!(notifications[0].priority, NotificationPriority::Normal);
}

#[test]
fn dispatch_no_sinks_records_empty() {
    let sinks = build_sinks(&[]);
    let n = SessionNotification {
        project_name: "proj".to_string(),
        project_dir: "/proj".to_string(),
        session_id: "s1".to_string(),
        old_status: None,
        new_status: SessionStatus::Completed,
        message: "done".to_string(),
        priority: NotificationPriority::Normal,
        title_template: None,
        body_template: None,
        click_url: None,
        transport_type: String::new(),
        tmux_session: String::new(),
        tmux_pane: String::new(),
    };

    let record = dispatch(&sinks, &n, &[], 1_735_689_600_000);
    assert_eq!(record.project_name, "proj");
    assert!(record.channels.is_empty());
    assert!(!record.timestamp.is_empty());
}

#[test]
fn dispatch_records_each_channel_outcome() {
    let channels = vec![
        ChannelConfig::Webhook { url: "https://example.com/hook".into() },
        ChannelConfig::Desktop {},
    ];
    let sinks = build_sinks(&channels);
    assert_eq!(sinks.len(), 2);
    assert_eq!(sinks[0].name(), "webhook");
    assert_eq!(sinks[1].name(), "desktop");
    let n = notification("p", "/p", None, SessionStatus::WaitingInput, "", NotificationPriority::High);
    let outcomes = vec![Err("timeout".to_string()), Ok(())];
    let record = dispatch(&sinks, &n, &outcomes, 1_735_689_600_123);
    assert_eq!(record.timestamp, "2025-01-01T00:00:00.123Z");
    assert_eq!(record.status, "WaitingInput");
    assert_eq!(record.channels.len(), 2);
    assert_eq!(record.channels[0].name, "webhook");
    assert!(!record.channels[0].success);
    assert_eq!(record.channels[0].error.as_deref(), Some("timeout"));
    assert_eq!(record.channels[1].name, "desktop");
    assert!(record.channels[1].success);
    assert!(record.channels[1].error.is_none());
}

#[test]
fn notification_priority_follows_status() {
    assert_eq!(
        NotificationPriority::for_status(SessionStatus::WaitingPermission),
        NotificationPriority::High
    );
    assert_eq!(
        NotificationPriority::for_status(SessionStatus::WaitingInput),
        NotificationPriority::High
    );
    assert_eq!(
        NotificationPriority::for_status(SessionStatus::Completed),
        NotificationPriority::Normal
    );
    assert_eq!(
        NotificationPriority::for_status(SessionStatus::Active),
        NotificationPriority::Low
    );
}

#[test]
fn templates_fill_in_placeholders() {
    let mut n = notification(
        "api",
        "/srv/api",
        None,
        SessionStatus::WaitingPermission,
        "Run tests",
        NotificationPriority::High,
    );
    n.title_template = Some("{emoji} {project_name} [{priority}]".to_string());
    n.body_template = Some("{project_dir}: {status} - {message} {unknown}".to_string());
    assert_eq!(n.title(), "🔐 api [high]");
    assert_eq!(n.body(), "/srv/api: Waiting for permission - Run tests {unknown}");
    n.click_url = Some("ssh://box".to_string());
    n.body_template = Some("{connect_url}".to_string());
    assert_eq!(n.body(), "ssh://box");
}

#[test]
fn project_rules_first_match_wins() {
    let mut settings = NotificationSettings::default();
    settings.enabled = true;
    settings.project_rules = vec![
        ProjectRule {
            pattern: "/home/user/work/**".to_string(),
            enabled: None,
            notify_on: Some(vec![SessionStatus::Completed]),
        },
        ProjectRule {
            pattern: "**/api".to_string(),
            enabled: Some(false),
            notify_on: None,
        },
    ];
    let (enabled, notify_on) = settings.resolve_for_project("/home/user/work/api");
    assert!(enabled);
    assert_eq!(notify_on, vec![SessionStatus::Completed]);
    let (enabled, notify_on) = settings.resolve_for_project("/srv/api");
    assert!(!enabled);
    assert_eq!(notify_on.len(), 3);
    let (enabled, notify_on) = settings.resolve_for_project("/elsewhere");
    assert!(enabled);
    assert_eq!(notify_on.len(), 3);
}

#[test]
fn pattern_kinds_match_as_documented() {
    assert!(pattern_matches_exec("**/name", "/a/b/name"));
    assert!(!pattern_matches_exec("**/name", "/a/b/rename"));
    assert!(pattern_matches_exec("/prefix/**", "/prefix/x/y"));
    assert!(!pattern_matches_exec("/prefix/**", "/prefixed"));
    assert!(pattern_matches_exec("/path/prefix*", "/path/prefix-more"));
    assert!(pattern_matches_exec("*substring*", "/a/substring/b"));
    assert!(!pattern_matches_exec("*substring*", "/a/sub/b"));
    assert!(pattern_matches_exec("/exact/path", "/exact/path"));
    assert!(!pattern_matches_exec("/exact/path", "/exact/path/"));
}

#[test]
fn test_notification_refusals_and_content() {
    let mut settings = NotificationSettings::default();
    assert_eq!(
        test_notification(&settings, 1).unwrap_err(),
        "Notifications are disabled"
    );
    settings.enabled = true;
    assert_eq!(
        test_notification(&settings, 0).unwrap_err(),
        "No notification channels configured"
    );
    settings.title_template = Some("{project_name}".to_string());
    let n = test_notification(&settings, 2).unwrap();
    assert_eq!(n.project_name, "EOCC Test");
    assert_eq!(n.new_status, SessionStatus::WaitingInput);
    assert_eq!(n.title(), "EOCC Test");
    assert_eq!(n.body(), "This is a test notification from EOCC");
}

#[test]
fn api_port_below_1024_is_refused() {
    let mut settings = NotificationSettings::default();
    assert_eq!(settings.api_server_port(), None);
    settings.api_port = Some(80);
    assert_eq!(settings.api_server_port(), None);
    settings.api_port = Some(1024);
    assert_eq!(settings.api_server_port(), Some(1024));
    settings.api_port = Some(8081);
    assert_eq!(settings.api_server_port(), Some(8081));
}

#[test]
fn transport_placeholders_are_filled() {
    let mut n = notification(
        "api",
        "/srv/api",
        None,
        SessionStatus::WaitingInput,
        "",
        NotificationPriority::High,
    );
    n.transport_type = "ssh".to_string();
    n.tmux_session = "main".to_string();
    n.tmux_pane = "%3".to_string();
    n.body_template = Some("{transport_type} {tmux_session} {tmux_pane}".to_string());
    assert_eq!(n.body(), "ssh main %3");
}

#[test]
fn external_url_gives_click_through_links() {
    let mut settings = NotificationSettings::default();
    settings.enabled = true;
    settings.notify_on = vec![SessionStatus::WaitingInput];
    settings.external_url = Some("https://eocc.example.com/".to_string());
    let old = StrMap::new();
    let mut sessions = StrMap::new();
    let mut s = make_session("proj", SessionStatus::WaitingInput);
    s.tmux_pane = "%3".to_string();
    s.transport = Transport::Mosh { host: "h".to_string(), port: 60001, user: None };
    sessions.insert("/home/user/proj".to_string(), s);
    let mut plain = make_session("plain", SessionStatus::WaitingInput);
    plain.tmux_pane = String::new();
    sessions.insert("/home/user/plain".to_string(), plain);
    let n = detect_status_transitions_with_rules(&old, &sessions, &settings);
    assert_eq!(n.len(), 2);
    assert_eq!(n[0].click_url.as_deref(), Some("https://eocc.example.com/tmux/%253"));
    assert_eq!(n[0].transport_type, "mosh");
    assert_eq!(n[0].tmux_pane, "%3");
    assert_eq!(n[1].click_url.as_deref(), Some("https://eocc.example.com"));
    assert_eq!(n[1].transport_type, "local");
    settings.external_url = None;
    let n = detect_status_transitions_with_rules(&old, &sessions, &settings);
    assert!(n[0].click_url.is_none());
}
