use vstd::prelude::*;

use crate::notifications::{body_of, title_of, HttpRequest, NotificationPriority, SessionNotification, header_view};
use crate::state::SessionStatus;
use crate::text::{trim_end, trim_end_char};

verus! {

/// Sends notifications to an ntfy topic.
#[derive(Clone, Debug)]
pub struct NtfySink {
    pub server: String,
    pub topic: String,
    pub token: Option<String>,
}

/// The priority names that ntfy understands.
pub open spec fn ntfy_priority(p: NotificationPriority) -> Seq<char> {
    match p {
        NotificationPriority::Low => "low"@,
        NotificationPriority::Normal => "default"@,
        NotificationPriority::High => "high"@,
    }
}

/// The ntfy tag (an emoji name) for a status.
pub open spec fn ntfy_tag(s: SessionStatus) -> Seq<char> {
    match s {
        SessionStatus::Active => "green_circle"@,
        SessionStatus::WaitingPermission => "lock"@,
        SessionStatus::WaitingInput => "hourglass"@,
        SessionStatus::Completed => "white_check_mark"@,
    }
}

/// The request that posts a notification to ntfy: the title, priority and
/// tag as headers, the click-through URL where there is one, a bearer token
/// where one is configured, and the body.
pub open spec fn ntfy_request_ok(sink: NtfySink, n: SessionNotification, r: HttpRequest) -> bool {
    &&& r.url@ == trim_end(sink.server@, '/') + "/"@ + sink.topic@
    &&& r.body@ == body_of(n)
    &&& header_view(r.headers@) == seq![
        ("Title"@, title_of(n)),
        ("Priority"@, ntfy_priority(n.priority)),
        ("Tags"@, ntfy_tag(n.new_status)),
    ] + match n.click_url {
        Some(u) => seq![("Click"@, u@)],
        None => Seq::empty(),
    } + match sink.token {
        Some(t) => seq![("Authorization"@, "Bearer "@ + t@)],
        None => Seq::empty(),
    }
}

impl NtfySink {
    pub fn new(server: String, topic: String, token: Option<String>) -> (s: Self)
        ensures
            s.server == server,
            s.topic == topic,
            s.token == token,
    {
        NtfySink { server, topic, token }
    }

    /// The topic's URL: the server without trailing slashes, then the topic.
    pub fn url(&self) -> (r: String)
        ensures
            r@ == trim_end(self.server@, '/') + "/"@ + self.topic@,
    {
        let mut r = trim_end_char(self.server.as_str(), '/');
        r.append("/");
        r.append(self.topic.as_str());
        r
    }

    pub fn ntfy_priority(priority: &NotificationPriority) -> (r: &'static str)
        ensures
            r@ == ntfy_priority(*priority),
    {
        match priority {
            NotificationPriority::Low => "low",
            NotificationPriority::Normal => "default",
            NotificationPriority::High => "high",
        }
    }

    pub fn tags(notification: &SessionNotification) -> (r: String)
        ensures
            r@ == ntfy_tag(notification.new_status),
    {
        match notification.new_status {
            SessionStatus::Active => "green_circle".to_string(),
            SessionStatus::WaitingPermission => "lock".to_string(),
            SessionStatus::WaitingInput => "hourglass".to_string(),
            SessionStatus::Completed => "white_check_mark".to_string(),
        }
    }

    /// The request that delivers `notification` to this topic.
    pub fn request(&self, notification: &SessionNotification) -> (r: HttpRequest)
        ensures
            ntfy_request_ok(*self, *notification, r),
    {
        let mut headers: Vec<(String, String)> = Vec::new();
        headers.push(("Title".to_string(), notification.title()));
        headers.push(
            ("Priority".to_string(), Self::ntfy_priority(&notification.priority).to_string()),
        );
        headers.push(("Tags".to_string(), Self::tags(notification)));
        if let Some(url) = &notification.click_url {
            headers.push(("Click".to_string(), url.clone()));
        }
        if let Some(token) = &self.token {
            let mut value = "Bearer ".to_string();
            value.append(token.as_str());
            headers.push(("Authorization".to_string(), value));
        }
        let r = HttpRequest { url: self.url(), headers, body: notification.body() };
        proof {
            assert(header_view(r.headers@) =~= seq![
                ("Title"@, title_of(*notification)),
                ("Priority"@, ntfy_priority(notification.priority)),
                ("Tags"@, ntfy_tag(notification.new_status)),
            ] + match notification.click_url {
                Some(u) => seq![("Click"@, u@)],
                None => Seq::empty(),
            } + match self.token {
                Some(t) => seq![("Authorization"@, "Bearer "@ + t@)],
                None => Seq::empty(),
            });
        }
        r
    }
}

} // verus!
