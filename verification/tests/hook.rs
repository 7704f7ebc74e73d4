use eocc_core::hook::{
    basename, build_connect_url, cooldown_active, hook_event, map_event_to_status, mark_notified,
    notification_result_event, notify_context, parse_event_type, parse_notification_type,
    parse_session_status, plan_notification, ssh_transport_defaults, status_to_string, HookAction,
    HookInput, NotifyContext, TransportInfo,
};
use eocc_core::hook_state::{HookSessionState, HookState};
use eocc_core::notifications::history::{ChannelResult, NotificationRecord};
use eocc_core::notifications::{
    build_hook_sinks, ChannelConfig, NotificationPriority, NotificationSettings, NotificationSink,
};
use eocc_core::state::{EventType, NotificationType, SessionStatus};

fn transport(type_: &str, host: &str, port: &str, user: &str) -> TransportInfo {
    TransportInfo {
        type_: type_.to_string(),
        host: host.to_string(),
        port: port.to_string(),
        user: user.to_string(),
        tmux_session: String::new(),
        tmux_pane: String::new(),
        viewer_url: String::new(),
    }
}

fn ctx(event_type: &str, notification_type: &str, dir: &str) -> NotifyContext {
    NotifyContext {
        event_type: event_type.to_string(),
        notification_type: notification_type.to_string(),
        project_dir: dir.to_string(),
        project_name: basename(dir),
        waiting_info: "Approve bash".to_string(),
        transport: transport("local", "", "", ""),
    }
}

fn enabled_settings() -> NotificationSettings {
    let mut s = NotificationSettings::default();
    s.enabled = true;
    s.channels = vec![ChannelConfig::Webhook { url: "https://example.com".to_string() }];
    s
}

fn input(event_type: &str, matcher: &str, notification_type: &str) -> HookInput {
    HookInput {
        event_type: event_type.to_string(),
        matcher: matcher.to_string(),
        project_dir: "/home/u/proj".to_string(),
        tmux_pane: "%1".to_string(),
        session_id: "abc".to_string(),
        message: String::new(),
        notification_type: notification_type.to_string(),
        tool_name: "Bash".to_string(),
    }
}

#[test]
fn hook_events_map_to_statuses() {
    assert_eq!(map_event_to_status("session_start", ""), Some(Some(SessionStatus::Active)));
    assert_eq!(map_event_to_status("post_tool_use", ""), Some(Some(SessionStatus::Active)));
    assert_eq!(map_event_to_status("user_prompt_submit", ""), Some(Some(SessionStatus::Active)));
    assert_eq!(map_event_to_status("session_end", ""), Some(None));
    assert_eq!(map_event_to_status("stop", ""), Some(Some(SessionStatus::Completed)));
    assert_eq!(
        map_event_to_status("notification", "permission_prompt"),
        Some(Some(SessionStatus::WaitingPermission))
    );
    assert_eq!(
        map_event_to_status("notification", "idle_prompt"),
        Some(Some(SessionStatus::WaitingInput))
    );
    assert_eq!(map_event_to_status("notification", "other"), Some(Some(SessionStatus::Active)));
    assert_eq!(map_event_to_status("bogus", ""), None);
}

#[test]
fn status_words_round_trip() {
    for s in [
        SessionStatus::Active,
        SessionStatus::WaitingPermission,
        SessionStatus::WaitingInput,
        SessionStatus::Completed,
    ] {
        assert_eq!(parse_session_status(status_to_string(&s)), Some(s));
    }
    assert_eq!(status_to_string(&SessionStatus::WaitingInput), "waiting_input");
    assert_eq!(parse_session_status("Active"), None);
}

#[test]
fn event_and_notification_words_parse() {
    assert_eq!(parse_event_type("session_start"), EventType::SessionStart);
    assert_eq!(parse_event_type("notification_result"), EventType::NotificationResult);
    assert_eq!(parse_event_type("user_prompt_submit"), EventType::UserPromptSubmit);
    assert_eq!(parse_event_type("whatever"), EventType::Unknown);
    assert_eq!(parse_notification_type("permission_prompt"), NotificationType::PermissionPrompt);
    assert_eq!(parse_notification_type("idle_prompt"), NotificationType::IdlePrompt);
    assert_eq!(parse_notification_type(""), NotificationType::Other);
}

#[test]
fn basename_takes_last_component() {
    assert_eq!(basename("/home/user/my-project"), "my-project");
    assert_eq!(basename("/home/user/my-project///"), "my-project");
    assert_eq!(basename("relative"), "relative");
    assert_eq!(basename("/"), "unknown");
    assert_eq!(basename(""), "unknown");
}

#[test]
fn connect_urls_for_each_transport() {
    assert_eq!(build_connect_url(&transport("local", "box", "22", "u")), "");
    assert_eq!(build_connect_url(&transport("ssh", "", "22", "u")), "");
    assert_eq!(build_connect_url(&transport("ssh", "box", "22", "alice")), "ssh://alice@box");
    assert_eq!(build_connect_url(&transport("ssh", "box", "2222", "")), "ssh://box:2222");
    assert_eq!(build_connect_url(&transport("tailscale", "ts", "", "bob")), "ssh://bob@ts");
    let mut m = transport("mosh", "m", "60001", "carol");
    m.tmux_session = "main".to_string();
    assert_eq!(build_connect_url(&m), "mosh://carol@m;tmux attach -t main");
    assert_eq!(build_connect_url(&transport("rdp", "box", "", "")), "");
    let mut v = transport("ssh", "box", "22", "u");
    v.viewer_url = "https://eocc.example.com//".to_string();
    assert_eq!(build_connect_url(&v), "https://eocc.example.com");
    v.tmux_pane = "%3 x".to_string();
    assert_eq!(build_connect_url(&v), "https://eocc.example.com/tmux/%253%20x");
}

#[test]
fn cooldown_counts_whole_seconds() {
    assert!(!cooldown_active(None, Some(0), 1_000));
    assert!(!cooldown_active(Some(30), None, 1_000));
    assert!(cooldown_active(Some(30), Some(10_000), 39_999));
    assert!(!cooldown_active(Some(30), Some(10_000), 40_000));
    assert!(cooldown_active(Some(30), Some(50_000), 40_000));
}

#[test]
fn hook_notifies_on_change_and_not_on_repeat() {
    let settings = enabled_settings();
    let mut state = HookState::default();
    let c = ctx("notification", "permission_prompt", "/home/u/proj");
    match plan_notification(&settings, &mut state, &c, 1_000) {
        HookAction::Notify { key, notification } => {
            assert_eq!(key, "/home/u/proj");
            assert_eq!(notification.project_name, "proj");
            assert_eq!(notification.new_status, SessionStatus::WaitingPermission);
            assert_eq!(notification.old_status, None);
            assert_eq!(notification.priority, NotificationPriority::High);
            assert_eq!(notification.message, "Approve bash");
            assert!(notification.click_url.is_none());
        }
        _ => panic!("expected a notification"),
    }
    assert_eq!(
        state.sessions.get("/home/u/proj").unwrap().status,
        "waiting_permission"
    );
    assert!(matches!(
        plan_notification(&settings, &mut state, &c, 2_000),
        HookAction::Save
    ));
}

#[test]
fn hook_ignores_when_off_or_unknown() {
    let mut state = HookState::default();
    let c = ctx("stop", "", "/p");
    assert!(matches!(
        plan_notification(&NotificationSettings::default(), &mut state, &c, 0),
        HookAction::Nothing
    ));
    let mut no_channels = NotificationSettings::default();
    no_channels.enabled = true;
    assert!(matches!(
        plan_notification(&no_channels, &mut state, &c, 0),
        HookAction::Nothing
    ));
    let unknown = ctx("pre_compact", "", "/p");
    assert!(matches!(
        plan_notification(&enabled_settings(), &mut state, &unknown, 0),
        HookAction::Nothing
    ));
    assert!(state.sessions.is_empty());
}

#[test]
fn hook_session_end_forgets_and_statuses_filter() {
    let settings = enabled_settings();
    let mut state = HookState::default();
    let start = ctx("session_start", "", "unknown");
    assert!(matches!(plan_notification(&settings, &mut state, &start, 0), HookAction::Save));
    let name_key = start.project_name.clone();
    assert!(state.sessions.contains_key(name_key.as_str()));
    let end = ctx("session_end", "", "unknown");
    assert!(matches!(plan_notification(&settings, &mut state, &end, 0), HookAction::Save));
    assert!(state.sessions.is_empty());
}

#[test]
fn hook_cooldown_holds_back_a_second_notification() {
    let mut settings = enabled_settings();
    settings.cooldown_seconds = Some(60);
    let mut state = HookState::default();
    let first = ctx("notification", "permission_prompt", "/w");
    let key = match plan_notification(&settings, &mut state, &first, 100_000) {
        HookAction::Notify { key, .. } => key,
        _ => panic!("expected a notification"),
    };
    mark_notified(&mut state, key.as_str(), 100_000);
    assert_eq!(state.sessions.get("/w").unwrap().last_notified, Some(100_000));
    let second = ctx("stop", "", "/w");
    assert!(matches!(
        plan_notification(&settings, &mut state, &second, 159_999),
        HookAction::Save
    ));
    let third = ctx("notification", "idle_prompt", "/w");
    match plan_notification(&settings, &mut state, &third, 160_000) {
        HookAction::Notify { notification, .. } => {
            assert_eq!(notification.old_status, Some(SessionStatus::Completed));
            assert_eq!(notification.new_status, SessionStatus::WaitingInput);
        }
        _ => panic!("expected a notification"),
    }
}

#[test]
fn mark_notified_leaves_unknown_sessions_alone() {
    let mut state = HookState::default();
    mark_notified(&mut state, "/nowhere", 5);
    assert!(state.sessions.is_empty());
    state.sessions.insert(
        "/k".to_string(),
        HookSessionState { status: "active".to_string(), last_notified: None },
    );
    mark_notified(&mut state, "/k", 7);
    let s = state.sessions.get("/k").unwrap();
    assert_eq!(s.status, "active");
    assert_eq!(s.last_notified, Some(7));
}

#[test]
fn result_event_lists_channel_outcomes() {
    let empty = NotificationRecord {
        timestamp: "t".to_string(),
        project_name: "p".to_string(),
        project_dir: "/p".to_string(),
        status: "Completed".to_string(),
        channels: Vec::new(),
    };
    assert!(notification_result_event("p", "/p", &empty, "ts".to_string()).is_none());
    let mut record = empty.clone();
    record.channels = vec![
        ChannelResult { name: "ntfy".to_string(), success: true, error: None },
        ChannelResult { name: "webhook".to_string(), success: false, error: Some("500".to_string()) },
    ];
    let e = notification_result_event("p", "/p", &record, "ts".to_string()).unwrap();
    assert_eq!(e.event_type, EventType::NotificationResult);
    assert_eq!(e.timestamp, "ts");
    assert_eq!(e.project_dir, "/p");
    assert_eq!(e.notification_results.len(), 2);
    assert_eq!(e.notification_results[1].channel, "webhook");
    assert!(!e.notification_results[1].ok);
    assert_eq!(e.notification_results[1].error.as_deref(), Some("500"));
}

#[test]
fn hook_event_uses_matcher_for_untyped_notifications() {
    let i = input("notification", "permission_prompt", "");
    let e = hook_event(&i, "2025-01-01T00:00:00.000Z".to_string(), String::new(), String::new());
    assert_eq!(e.event_type, EventType::Notification);
    assert_eq!(e.notification_type, NotificationType::PermissionPrompt);
    assert_eq!(e.project_name, "proj");
    assert_eq!(e.matcher, "permission_prompt");
    assert_eq!(e.session_id, "abc");
    assert!(e.transport_type.is_empty());
    let typed = input("notification", "permission_prompt", "idle_prompt");
    let e = hook_event(&typed, String::new(), String::new(), String::new());
    assert_eq!(e.notification_type, NotificationType::IdlePrompt);
    let other = input("stop", "permission_prompt", "");
    let e = hook_event(&other, String::new(), "/bin/npx".to_string(), "/bin/tmux".to_string());
    assert_eq!(e.notification_type, NotificationType::Other);
    assert_eq!(e.npx_path, "/bin/npx");
    assert_eq!(e.tmux_path, "/bin/tmux");
}

#[test]
fn notify_context_only_for_notifying_events() {
    let t = transport("local", "", "", "");
    assert!(notify_context(&input("post_tool_use", "", ""), t.clone()).is_none());
    let c = notify_context(&input("notification", "idle_prompt", ""), t.clone()).unwrap();
    assert_eq!(c.notification_type, "idle_prompt");
    assert_eq!(c.waiting_info, "Bash");
    assert_eq!(c.project_name, "proj");
    let mut with_message = input("stop", "", "");
    with_message.message = "done".to_string();
    let c = notify_context(&with_message, t).unwrap();
    assert_eq!(c.waiting_info, "done");
}

#[test]
fn ssh_connection_suggests_transport() {
    let (kind, host, port) = ssh_transport_defaults("");
    assert_eq!((kind.as_str(), host.as_str(), port.as_str()), ("local", "", "22"));
    let (kind, host, port) = ssh_transport_defaults("10.0.0.5 51234 10.0.0.9 2200");
    assert_eq!((kind.as_str(), host.as_str(), port.as_str()), ("ssh", "10.0.0.9", "2200"));
    let (kind, host, port) = ssh_transport_defaults("  a\tb   c ");
    assert_eq!((kind.as_str(), host.as_str(), port.as_str()), ("ssh", "c", "22"));
}

#[test]
fn hook_links_to_the_external_viewer() {
    let mut settings = enabled_settings();
    settings.external_url = Some("https://eocc.example.com".to_string());
    let mut state = HookState::default();
    let mut c = ctx("notification", "idle_prompt", "/p");
    c.transport.type_ = "ssh".to_string();
    c.transport.host = "box".to_string();
    c.transport.tmux_pane = "%7".to_string();
    c.transport.tmux_session = "work".to_string();
    match plan_notification(&settings, &mut state, &c, 0) {
        HookAction::Notify { notification, .. } => {
            assert_eq!(
                notification.click_url.as_deref(),
                Some("https://eocc.example.com/tmux/%257")
            );
            assert_eq!(notification.transport_type, "ssh");
            assert_eq!(notification.tmux_session, "work");
            assert_eq!(notification.tmux_pane, "%7");
        }
        _ => panic!("expected a notification"),
    }
    let mut state = HookState::default();
    c.transport.viewer_url = "https://viewer.local".to_string();
    match plan_notification(&settings, &mut state, &c, 0) {
        HookAction::Notify { notification, .. } => assert_eq!(
            notification.click_url.as_deref(),
            Some("https://viewer.local/tmux/%257")
        ),
        _ => panic!("expected a notification"),
    }
}

#[test]
fn hook_leaves_the_desktop_channel_to_the_app() {
    let sinks = build_hook_sinks(&[
        ChannelConfig::Desktop {},
        ChannelConfig::Webhook { url: "https://example.com".to_string() },
        ChannelConfig::Desktop {},
        ChannelConfig::Ntfy { server: "s".to_string(), topic: "t".to_string(), token: None },
    ]);
    assert_eq!(sinks.len(), 2);
    assert_eq!(sinks[0].name(), "webhook");
    assert_eq!(sinks[1].name(), "ntfy");
}

#[test]
fn zero_cooldown_never_holds_back() {
    assert!(!cooldown_active(Some(0), Some(50_000), 40_000));
    assert!(!cooldown_active(Some(0), Some(40_000), 40_000));
}
