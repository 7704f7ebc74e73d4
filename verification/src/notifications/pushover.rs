use vstd::prelude::*;
use vstd::utf8::encode_utf8;

use crate::notifications::{body_of, title_of, header_view, HttpRequest, NotificationPriority, SessionNotification};
use crate::urlcode::{form_urlencoded, percent_encode};

verus! {

/// Sends notifications through the Pushover API.
#[derive(Clone, Debug)]
pub struct PushoverSink {
    pub user_key: String,
    pub app_token: String,
    pub device: Option<String>,
}

/// The priority numbers that Pushover understands.
pub open spec fn pushover_priority(p: NotificationPriority) -> Seq<char> {
    match p {
        NotificationPriority::Low => "-1"@,
        NotificationPriority::Normal => "0"@,
        NotificationPriority::High => "1"@,
    }
}

/// Form encoding of a text.
pub open spec fn form(s: Seq<char>) -> Seq<char> {
    percent_encode(encode_utf8(s), true)
}

/// The form that posts a notification to Pushover.
pub open spec fn pushover_form(sink: PushoverSink, n: SessionNotification) -> Seq<char> {
    "token="@ + form(sink.app_token@) + "&user="@ + form(sink.user_key@) + "&title="@ + form(
        title_of(n),
    ) + "&message="@ + form(body_of(n)) + "&priority="@ + pushover_priority(n.priority)
        + match sink.device {
        Some(d) => "&device="@ + form(d@),
        None => Seq::empty(),
    } + match n.click_url {
        Some(u) => "&url="@ + form(u@) + "&url_title="@ + form("Open in EOCC"@),
        None => Seq::empty(),
    }
}

/// Appends the form encoding of `s` to `out`.
fn push_form(out: &mut String, s: &str)
    ensures
        final(out)@ == old(out)@ + form(s@),
{
    let e = form_urlencoded(s);
    out.append(e.as_str());
}

impl PushoverSink {
    pub fn new(user_key: String, app_token: String, device: Option<String>) -> (s: Self)
        ensures
            s.user_key == user_key,
            s.app_token == app_token,
            s.device == device,
    {
        PushoverSink { user_key, app_token, device }
    }

    pub fn pushover_priority(priority: &NotificationPriority) -> (r: &'static str)
        ensures
            r@ == pushover_priority(*priority),
    {
        match priority {
            NotificationPriority::Low => "-1",
            NotificationPriority::Normal => "0",
            NotificationPriority::High => "1",
        }
    }

    /// The request that delivers `notification` through Pushover.
    pub fn request(&self, notification: &SessionNotification) -> (r: HttpRequest)
        ensures
            r.url@ == "https://api.pushover.net/1/messages.json"@,
            header_view(r.headers@) == seq![
                ("Content-Type"@, "application/x-www-form-urlencoded"@),
            ],
            r.body@ == pushover_form(*self, *notification),
    {
        let mut f = "token=".to_string();
        push_form(&mut f, self.app_token.as_str());
        f.append("&user=");
        push_form(&mut f, self.user_key.as_str());
        f.append("&title=");
        let title = notification.title();
        push_form(&mut f, title.as_str());
        f.append("&message=");
        let body = notification.body();
        push_form(&mut f, body.as_str());
        f.append("&priority=");
        f.append(Self::pushover_priority(&notification.priority));
        let ghost base = f@;
        if let Some(device) = &self.device {
            f.append("&device=");
            push_form(&mut f, device.as_str());
        }
        let ghost with_device = f@;
        if let Some(url) = &notification.click_url {
            f.append("&url=");
            push_form(&mut f, url.as_str());
            f.append("&url_title=");
            push_form(&mut f, "Open in EOCC");
        }
        proof {
            assert(with_device =~= base + match self.device {
                Some(d) => "&device="@ + form(d@),
                None => Seq::empty(),
            });
            assert(f@ =~= pushover_form(*self, *notification));
        }
        let mut headers: Vec<(String, String)> = Vec::new();
        headers.push(
            ("Content-Type".to_string(), "application/x-www-form-urlencoded".to_string()),
        );
        proof {
            assert(header_view(headers@) =~= seq![
                ("Content-Type"@, "application/x-www-form-urlencoded"@),
            ]);
        }
        HttpRequest { url: "https://api.pushover.net/1/messages.json".to_string(), headers, body: f }
    }
}

} // verus!
