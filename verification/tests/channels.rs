use eocc_core::notifications::desktop::DesktopSink;
use eocc_core::notifications::ntfy::NtfySink;
use eocc_core::notifications::pushover::PushoverSink;
use eocc_core::notifications::webhook::WebhookSink;
use eocc_core::notifications::{
    build_sinks, ChannelConfig, NotificationPriority, NotificationSink, SessionNotification, Sink,
};
use eocc_core::state::SessionStatus;

fn waiting(click_url: Option<&str>) -> SessionNotification {
    SessionNotification {
        project_name: "api".to_string(),
        project_dir: "/srv/api".to_string(),
        session_id: "/srv/api".to_string(),
        old_status: Some(SessionStatus::Active),
        new_status: SessionStatus::WaitingPermission,
        message: "Run tests & deploy".to_string(),
        priority: NotificationPriority::High,
        title_template: None,
        body_template: None,
        click_url: click_url.map(|s| s.to_string()),
        transport_type: String::new(),
        tmux_session: String::new(),
        tmux_pane: String::new(),
    }
}

fn pairs(h: &[(String, String)]) -> Vec<(&str, &str)> {
    h.iter().map(|(a, b)| (a.as_str(), b.as_str())).collect()
}

#[test]
fn ntfy_request_carries_title_priority_and_tags() {
    let sink = NtfySink::new("https://ntfy.sh//".to_string(), "alerts".to_string(), None);
    assert_eq!(sink.url(), "https://ntfy.sh/alerts");
    assert_eq!(sink.name(), "ntfy");
    let r = sink.request(&waiting(None));
    assert_eq!(r.url, "https://ntfy.sh/alerts");
    assert_eq!(r.body, "Run tests & deploy");
    assert_eq!(
        pairs(&r.headers),
        vec![
            ("Title", "🔐 api - Waiting for permission"),
            ("Priority", "high"),
            ("Tags", "lock"),
        ]
    );
    let with_token = NtfySink::new("http://n".to_string(), "t".to_string(), Some("tk".to_string()));
    let r = with_token.request(&waiting(None));
    assert_eq!(r.headers.len(), 4);
    assert_eq!(pairs(&r.headers)[3], ("Authorization", "Bearer tk"));
    let r = with_token.request(&waiting(Some("https://eocc.example.com/tmux/%253")));
    assert_eq!(r.headers.len(), 5);
    assert_eq!(pairs(&r.headers)[3], ("Click", "https://eocc.example.com/tmux/%253"));
    assert_eq!(pairs(&r.headers)[4], ("Authorization", "Bearer tk"));
    assert_eq!(NtfySink::ntfy_priority(&NotificationPriority::Normal), "default");
    assert_eq!(NtfySink::ntfy_priority(&NotificationPriority::Low), "low");
    let mut done = waiting(None);
    done.new_status = SessionStatus::Completed;
    assert_eq!(NtfySink::tags(&done), "white_check_mark");
    done.new_status = SessionStatus::WaitingInput;
    assert_eq!(NtfySink::tags(&done), "hourglass");
    done.new_status = SessionStatus::Active;
    assert_eq!(NtfySink::tags(&done), "green_circle");
}

#[test]
fn pushover_form_is_url_encoded() {
    let sink = PushoverSink::new("u 1".to_string(), "a&b".to_string(), Some("phone".to_string()));
    assert_eq!(sink.name(), "pushover");
    let r = sink.request(&waiting(Some("ssh://box")));
    assert_eq!(r.url, "https://api.pushover.net/1/messages.json");
    assert_eq!(
        pairs(&r.headers),
        vec![("Content-Type", "application/x-www-form-urlencoded")]
    );
    assert_eq!(
        r.body,
        "token=a%26b&user=u+1&title=%F0%9F%94%90+api+-+Waiting+for+permission\
&message=Run+tests+%26+deploy&priority=1&device=phone\
&url=ssh%3A%2F%2Fbox&url_title=Open+in+EOCC"
    );
    assert_eq!(PushoverSink::pushover_priority(&NotificationPriority::Low), "-1");
    assert_eq!(PushoverSink::pushover_priority(&NotificationPriority::Normal), "0");
}

#[test]
fn webhook_payload_and_desktop_message() {
    let sink = WebhookSink::new("https://hooks.example.com/x".to_string());
    assert_eq!(sink.name(), "webhook");
    let p = sink.payload(&waiting(Some("ssh://box")));
    assert_eq!(p.text, "🔐 api - Waiting for permission\nRun tests & deploy");
    assert_eq!(p.project_name, "api");
    assert_eq!(p.project_dir, "/srv/api");
    assert_eq!(p.status, "waiting_permission");
    assert_eq!(p.priority, "high");
    assert_eq!(p.connect_url.as_deref(), Some("ssh://box"));
    assert!(p.tmux_session.is_none());
    assert!(p.tmux_pane.is_none());
    let mut with_tmux = waiting(None);
    with_tmux.tmux_session = "main".to_string();
    with_tmux.tmux_pane = "%3".to_string();
    let p = sink.payload(&with_tmux);
    assert!(p.connect_url.is_none());
    assert_eq!(p.tmux_session.as_deref(), Some("main"));
    assert_eq!(p.tmux_pane.as_deref(), Some("%3"));

    let d = DesktopSink::new();
    assert_eq!(d.name(), "desktop");
    let (summary, body) = d.message(&waiting(None));
    assert_eq!(summary, "🔐 api - Waiting for permission");
    assert_eq!(body, "Run tests & deploy");
}

#[test]
fn sinks_follow_the_channel_list() {
    let sinks = build_sinks(&[
        ChannelConfig::Pushover {
            user_key: "u".to_string(),
            app_token: "a".to_string(),
            device: None,
        },
        ChannelConfig::Ntfy { server: "s".to_string(), topic: "t".to_string(), token: None },
    ]);
    assert_eq!(sinks.len(), 2);
    match &sinks[0] {
        Sink::Pushover(p) => {
            assert_eq!(p.user_key, "u");
            assert_eq!(p.app_token, "a");
            assert!(p.device.is_none());
        }
        other => panic!("unexpected sink {:?}", other),
    }
    match &sinks[1] {
        Sink::Ntfy(n) => assert_eq!(n.topic, "t"),
        other => panic!("unexpected sink {:?}", other),
    }
}
