use vstd::prelude::*;

use crate::hook::{status_to_string, status_word};
use crate::notifications::{body_of, title_of, priority_label, SessionNotification};
use crate::state::{nonempty, opt_view};

verus! {

/// Posts notifications as JSON to a URL.
#[derive(Clone, Debug)]
pub struct WebhookSink {
    pub url: String,
}

/// The JSON object that a webhook receives.
#[derive(Clone, Debug)]
pub struct WebhookPayload {
    pub text: String,
    pub project_name: String,
    pub project_dir: String,
    pub status: String,
    pub priority: String,
    pub connect_url: Option<String>,
    pub tmux_session: Option<String>,
    pub tmux_pane: Option<String>,
}

/// A text, or none where it is empty.
fn nonempty_string(s: &String) -> (r: Option<String>)
    ensures
        opt_view(r) == nonempty(s@),
{
    if s.as_str().is_empty() {
        None
    } else {
        Some(s.clone())
    }
}

impl WebhookSink {
    pub fn new(url: String) -> (s: Self)
        ensures
            s.url == url,
    {
        WebhookSink { url }
    }

    /// What the webhook is sent for `notification`: the title and body on
    /// two lines, the project, the status (`waiting_permission` and the
    /// like), the priority, and where known the connect URL, the tmux session
    /// and the tmux pane.
    pub fn payload(&self, notification: &SessionNotification) -> (p: WebhookPayload)
        ensures
            p.text@ == title_of(*notification) + "\n"@ + body_of(*notification),
            p.project_name@ == notification.project_name@,
            p.project_dir@ == notification.project_dir@,
            p.status@ == status_word(notification.new_status),
            p.priority@ == priority_label(notification.priority),
            opt_view(p.connect_url) == opt_view(notification.click_url),
            opt_view(p.tmux_session) == nonempty(notification.tmux_session@),
            opt_view(p.tmux_pane) == nonempty(notification.tmux_pane@),
    {
        let mut text = notification.title();
        text.append("\n");
        let body = notification.body();
        text.append(body.as_str());
        WebhookPayload {
            text,
            project_name: notification.project_name.clone(),
            project_dir: notification.project_dir.clone(),
            status: status_to_string(&notification.new_status).to_string(),
            priority: notification.priority.to_string(),
            connect_url: match &notification.click_url {
                Some(u) => Some(u.clone()),
                None => None,
            },
            tmux_session: nonempty_string(&notification.tmux_session),
            tmux_pane: nonempty_string(&notification.tmux_pane),
        }
    }
}

} // verus!
