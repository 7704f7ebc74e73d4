pub mod desktop;
pub mod history;
pub mod ntfy;
pub mod pushover;
pub mod template;
pub mod webhook;

use vstd::prelude::*;

use crate::notifications::desktop::DesktopSink;
use crate::notifications::history::{ChannelResult, NotificationRecord};
use crate::notifications::ntfy::NtfySink;
use crate::notifications::pushover::PushoverSink;
use crate::notifications::webhook::WebhookSink;
use crate::state::{duplicate_opt, opt_view, status_emoji, transport_name, SessionInfo, SessionStatus};
use crate::text::{trim_end, trim_end_char};
use crate::urlcode::{percent_encode, urlencoded};
use vstd::utf8::encode_utf8;
use crate::timefmt::{is_iso_timestamp_of, iso_timestamp_utc};
use crate::strmap::StrMap;
use crate::text::{chars_of, ends_with, starts_with, contains_seq, vec_contains, vec_ends_with, vec_starts_with, string_from_chars};
use crate::notifications::template::{render, render_template, placeholders, placeholder_names};

verus! {

/// How urgent a notification is.
#[derive(Clone, Copy, Debug, PartialEq, Eq, Structural)]
pub enum NotificationPriority {
    Low,
    Normal,
    High,
}

/// The word for a priority: `low`, `normal` or `high`.
pub open spec fn priority_label(p: NotificationPriority) -> Seq<char> {
    match p {
        NotificationPriority::Low => "low"@,
        NotificationPriority::Normal => "normal"@,
        NotificationPriority::High => "high"@,
    }
}

/// The priority of a notification about a session that entered `s`.
pub open spec fn priority_for(s: SessionStatus) -> NotificationPriority {
    match s {
        SessionStatus::WaitingPermission | SessionStatus::WaitingInput => NotificationPriority::High,
        SessionStatus::Completed => NotificationPriority::Normal,
        SessionStatus::Active => NotificationPriority::Low,
    }
}

impl NotificationPriority {
    /// The word for this priority.
    pub fn to_string(&self) -> (r: String)
        ensures
            r@ == priority_label(*self),
    {
        match self {
            NotificationPriority::Low => "low".to_string(),
            NotificationPriority::Normal => "normal".to_string(),
            NotificationPriority::High => "high".to_string(),
        }
    }

    /// The priority of a notification about a session that entered `status`.
    pub fn for_status(status: SessionStatus) -> (p: Self)
        ensures
            p == priority_for(status),
    {
        match status {
            SessionStatus::WaitingPermission | SessionStatus::WaitingInput => NotificationPriority::High,
            SessionStatus::Completed => NotificationPriority::Normal,
            SessionStatus::Active => NotificationPriority::Low,
        }
    }
}

/// The human-readable name of a status.
pub open spec fn status_label(s: SessionStatus) -> Seq<char> {
    match s {
        SessionStatus::Active => "Active"@,
        SessionStatus::WaitingPermission => "Waiting for permission"@,
        SessionStatus::WaitingInput => "Waiting for input"@,
        SessionStatus::Completed => "Completed"@,
    }
}

/// The name of a status as `{:?}` writes it.
pub open spec fn status_name(s: SessionStatus) -> Seq<char> {
    match s {
        SessionStatus::Active => "Active"@,
        SessionStatus::WaitingPermission => "WaitingPermission"@,
        SessionStatus::WaitingInput => "WaitingInput"@,
        SessionStatus::Completed => "Completed"@,
    }
}

/// The human-readable name of a status.
pub fn status_label_of(s: SessionStatus) -> (r: String)
    ensures
        r@ == status_label(s),
{
    match s {
        SessionStatus::Active => "Active".to_string(),
        SessionStatus::WaitingPermission => "Waiting for permission".to_string(),
        SessionStatus::WaitingInput => "Waiting for input".to_string(),
        SessionStatus::Completed => "Completed".to_string(),
    }
}

/// The name of a status as `{:?}` writes it.
pub fn status_name_of(s: SessionStatus) -> (r: String)
    ensures
        r@ == status_name(s),
{
    match s {
        SessionStatus::Active => "Active".to_string(),
        SessionStatus::WaitingPermission => "WaitingPermission".to_string(),
        SessionStatus::WaitingInput => "WaitingInput".to_string(),
        SessionStatus::Completed => "Completed".to_string(),
    }
}

/// A notification about a session that changed its status.
#[derive(Clone, Debug)]
pub struct SessionNotification {
    pub project_name: String,
    pub project_dir: String,
    pub session_id: String,
    pub old_status: Option<SessionStatus>,
    pub new_status: SessionStatus,
    pub message: String,
    pub priority: NotificationPriority,
    pub title_template: Option<String>,
    pub body_template: Option<String>,
    pub click_url: Option<String>,
    pub transport_type: String,
    pub tmux_session: String,
    pub tmux_pane: String,
}

/// The values that a template's placeholders stand for, in the order of
/// `placeholders()`.
pub open spec fn template_values(n: SessionNotification) -> Seq<Seq<char>> {
    seq![
        n.project_name@,
        n.project_dir@,
        status_label(n.new_status),
        status_emoji(n.new_status),
        n.message@,
        priority_label(n.priority),
        match n.click_url {
            Some(u) => u@,
            None => Seq::<char>::empty(),
        },
        n.transport_type@,
        n.tmux_session@,
        n.tmux_pane@,
    ]
}

/// The title of a notification: its title template filled in, or
/// "<emoji> <project> - <status>".
pub open spec fn title_of(n: SessionNotification) -> Seq<char> {
    match n.title_template {
        Some(t) => render(t@, placeholders(), template_values(n)),
        None => status_emoji(n.new_status) + " "@ + n.project_name@ + " - "@ + status_label(
            n.new_status,
        ),
    }
}

/// The body of a notification: its body template filled in, or its message,
/// or where that is empty the status.
pub open spec fn body_of(n: SessionNotification) -> Seq<char> {
    match n.body_template {
        Some(t) => render(t@, placeholders(), template_values(n)),
        None => if n.message@.len() == 0 {
            status_label(n.new_status)
        } else {
            n.message@
        },
    }
}

impl SessionNotification {
    fn template_values_exec(&self) -> (r: Vec<String>)
        ensures
            r@.len() == 10,
            forall|i: int| 0 <= i < 10 ==> #[trigger] r@[i]@ == template_values(*self)[i],
    {
        let mut r: Vec<String> = Vec::new();
        r.push(self.project_name.clone());
        r.push(self.project_dir.clone());
        r.push(status_label_of(self.new_status));
        r.push(self.new_status.emoji().to_string());
        r.push(self.message.clone());
        r.push(self.priority.to_string());
        r.push(
            match &self.click_url {
                Some(u) => u.clone(),
                None => String::new(),
            },
        );
        r.push(self.transport_type.clone());
        r.push(self.tmux_session.clone());
        r.push(self.tmux_pane.clone());
        r
    }

    pub fn title(&self) -> (r: String)
        ensures
            r@ == title_of(*self),
    {
        match &self.title_template {
            Some(t) => {
                let names = placeholder_names();
                let values = self.template_values_exec();
                {
                    let r = render_template(t.as_str(), &names, &values);
                    proof {
                        assert(values@.map_values(|v: String| v@) =~= template_values(*self));
                        assert(names@.map_values(|n: Vec<char>| n@) =~= placeholders());
                    }
                    r
                }
            },
            None => {
                let mut s = self.new_status.emoji().to_string();
                s.append(" ");
                s.append(self.project_name.as_str());
                s.append(" - ");
                let label = status_label_of(self.new_status);
                s.append(label.as_str());
                s
            },
        }
    }

    pub fn body(&self) -> (r: String)
        ensures
            r@ == body_of(*self),
    {
        match &self.body_template {
            Some(t) => {
                let names = placeholder_names();
                let values = self.template_values_exec();
                {
                    let r = render_template(t.as_str(), &names, &values);
                    proof {
                        assert(values@.map_values(|v: String| v@) =~= template_values(*self));
                        assert(names@.map_values(|n: Vec<char>| n@) =~= placeholders());
                    }
                    r
                }
            },
            None => {
                if self.message.as_str().is_empty() {
                    status_label_of(self.new_status)
                } else {
                    self.message.clone()
                }
            },
        }
    }
}

/// An HTTP POST request that delivers a notification.
#[derive(Clone, Debug)]
pub struct HttpRequest {
    pub url: String,
    pub headers: Vec<(String, String)>,
    pub body: String,
}

/// Header names and values as characters.
pub open spec fn header_view(h: Seq<(String, String)>) -> Seq<(Seq<char>, Seq<char>)> {
    h.map_values(|p: (String, String)| (p.0@, p.1@))
}

/// Where notifications go.
#[derive(Clone, Debug)]
pub enum ChannelConfig {
    Ntfy { server: String, topic: String, token: Option<String> },
    Webhook { url: String },
    Pushover { user_key: String, app_token: String, device: Option<String> },
    Desktop {},
}

/// A per-project override, chosen by the first pattern that matches.
#[derive(Clone, Debug)]
pub struct ProjectRule {
    pub pattern: String,
    pub enabled: Option<bool>,
    pub notify_on: Option<Vec<SessionStatus>>,
}

/// The notification settings file.
#[derive(Clone, Debug)]
pub struct NotificationSettings {
    pub enabled: bool,
    pub channels: Vec<ChannelConfig>,
    pub notify_on: Vec<SessionStatus>,
    pub project_rules: Vec<ProjectRule>,
    pub cooldown_seconds: Option<u64>,
    pub title_template: Option<String>,
    pub body_template: Option<String>,
    pub api_port: Option<u16>,
    pub api_token: Option<String>,
    pub external_url: Option<String>,
}

/// The statuses that notify by default.
pub open spec fn default_notify_on() -> Seq<SessionStatus> {
    seq![SessionStatus::WaitingPermission, SessionStatus::WaitingInput, SessionStatus::Completed]
}

impl NotificationSettings {
    /// The statuses that notify by default.
    pub fn default_notify_on() -> (v: Vec<SessionStatus>)
        ensures
            v@ == default_notify_on(),
    {
        let mut v: Vec<SessionStatus> = Vec::new();
        v.push(SessionStatus::WaitingPermission);
        v.push(SessionStatus::WaitingInput);
        v.push(SessionStatus::Completed);
        proof {
            assert(v@ =~= default_notify_on());
        }
        v
    }

    /// The port on which the API server is to listen: the one configured,
    /// unless it is below 1024, which is refused.
    pub fn api_server_port(&self) -> (r: Option<u16>)
        ensures
            r == (match self.api_port {
                Some(p) => if p >= 1024 {
                    Some(p)
                } else {
                    None
                },
                None => None,
            }),
    {
        match self.api_port {
            Some(p) => if p >= 1024 {
                Some(p)
            } else {
                None
            },
            None => None,
        }
    }
}

/// Whether settings are the defaults: notifications off, no channel, the
/// default statuses, no project rule, cooldown, template, API port, token or
/// external URL.
pub open spec fn is_default_settings(s: NotificationSettings) -> bool {
    &&& !s.enabled
    &&& s.channels@.len() == 0
    &&& s.notify_on@ == default_notify_on()
    &&& s.project_rules@.len() == 0
    &&& s.cooldown_seconds is None
    &&& s.title_template is None
    &&& s.body_template is None
    &&& s.api_port is None
    &&& s.api_token is None
    &&& s.external_url is None
}

impl Default for NotificationSettings {
    fn default() -> (s: Self)
        ensures
            !s.enabled,
            s.channels@.len() == 0,
            s.notify_on@ == default_notify_on(),
            s.project_rules@.len() == 0,
            s.cooldown_seconds is None,
            s.title_template is None,
            s.body_template is None,
            s.api_port is None,
            s.api_token is None,
            s.external_url is None,
    {
        NotificationSettings {
            enabled: false,
            channels: Vec::new(),
            notify_on: NotificationSettings::default_notify_on(),
            project_rules: Vec::new(),
            cooldown_seconds: None,
            title_template: None,
            body_template: None,
            api_port: None,
            api_token: None,
            external_url: None,
        }
    }
}

/// Whether a project rule's pattern matches a project directory:
/// `**/name` matches paths ending in `/name`, `/prefix/**` paths starting with
/// `/prefix/`, `*text*` paths containing `text`, `prefix*` paths starting with
/// `prefix`, and any other pattern only itself.
pub open spec fn pattern_matches(pattern: Seq<char>, path: Seq<char>) -> bool {
    if starts_with(pattern, "**/"@) {
        ends_with(path, pattern.skip(2))
    } else if ends_with(pattern, "/**"@) {
        starts_with(path, pattern.take(pattern.len() - 2))
    } else if pattern.len() >= 2 && pattern[0] == '*' && pattern.last() == '*' {
        contains_seq(path, pattern.subrange(1, pattern.len() - 1))
    } else if pattern.len() >= 1 && pattern.last() == '*' {
        starts_with(path, pattern.drop_last())
    } else {
        path == pattern
    }
}

/// Whether a project rule's pattern matches a project directory.
pub fn pattern_matches_exec(pattern: &str, path: &str) -> (r: bool)
    ensures
        r == pattern_matches(pattern@, path@),
{
    let p = chars_of(pattern);
    let v = chars_of(path);
    let lead = chars_of("**/");
    let tail = chars_of("/**");
    proof {
        reveal_strlit("**/");
        reveal_strlit("/**");
    }
    proof {
        assert(lead@ == "**/"@);
        assert(tail@ == "/**"@);
    }
    if vec_starts_with(&p, &lead) {
        let suffix = string_from_chars(&p, 2, p.len());
        let sv = chars_of(suffix.as_str());
        proof {
            assert(sv@ =~= p@.skip(2));
        }
        let r = vec_ends_with(&v, &sv);
        assert(r == pattern_matches(pattern@, path@));
        r
    } else if vec_ends_with(&p, &tail) {
        let prefix = string_from_chars(&p, 0, p.len() - 2);
        let pv = chars_of(prefix.as_str());
        proof {
            assert(pv@ =~= p@.take(p@.len() - 2));
        }
        let r = vec_starts_with(&v, &pv);
        assert(r == pattern_matches(pattern@, path@));
        r
    } else if p.len() >= 2 && p[0] == '*' && p[p.len() - 1] == '*' {
        let inner = string_from_chars(&p, 1, p.len() - 1);
        let iv = chars_of(inner.as_str());
        proof {
            assert(p@.last() == p@[p@.len() - 1]);
        }
        let r = vec_contains(&v, &iv);
        assert(r == pattern_matches(pattern@, path@));
        r
    } else if p.len() >= 1 && p[p.len() - 1] == '*' {
        let prefix = string_from_chars(&p, 0, p.len() - 1);
        let pv = chars_of(prefix.as_str());
        proof {
            assert(pv@ =~= p@.drop_last());
            assert(p@.last() == p@[p@.len() - 1]);
        }
        let r = vec_starts_with(&v, &pv);
        assert(r == pattern_matches(pattern@, path@));
        r
    } else {
        proof {
            if p@.len() >= 2 {
                assert(p@.last() == p@[p@.len() - 1]);
            }
            if p@.len() >= 1 {
                assert(p@.last() == p@[p@.len() - 1]);
            }
        }
        let r = v.len() == p.len() && vec_starts_with(&v, &p);
        proof {
            if v@.len() == p@.len() && starts_with(v@, p@) {
                assert(v@ =~= v@.take(p@.len() as int));
            }
            if r {
                assert(path@ == pattern@);
            }
            if v@ == p@ {
                assert(v@.take(p@.len() as int) =~= p@);
            }
        }
        assert(r == pattern_matches(pattern@, path@));
        r
    }
}

/// The model of a project rule.
pub open spec fn rule_notify_on(r: ProjectRule, fallback: Seq<SessionStatus>) -> Seq<SessionStatus> {
    match r.notify_on {
        Some(v) => v@,
        None => fallback,
    }
}

/// Whether notifications are on, and for which statuses, in a project: the
/// first rule whose pattern matches overrides what it names; with no such rule
/// the settings hold as they are.
pub open spec fn resolve_rules(
    rules: Seq<ProjectRule>,
    dir: Seq<char>,
    enabled: bool,
    notify_on: Seq<SessionStatus>,
) -> (bool, Seq<SessionStatus>)
    decreases rules.len(),
{
    if rules.len() == 0 {
        (enabled, notify_on)
    } else if pattern_matches(rules[0].pattern@, dir) {
        (
            match rules[0].enabled {
                Some(b) => b,
                None => enabled,
            },
            rule_notify_on(rules[0], notify_on),
        )
    } else {
        resolve_rules(rules.drop_first(), dir, enabled, notify_on)
    }
}

/// Project rules are checked in order and the first one whose pattern
/// matches wins: what it names overrides the settings, and the rules after it
/// have no say.
pub proof fn law_first_matching_rule_wins(
    rules: Seq<ProjectRule>,
    dir: Seq<char>,
    enabled: bool,
    notify_on: Seq<SessionStatus>,
    i: int,
)
    requires
        0 <= i < rules.len(),
        pattern_matches(rules[i].pattern@, dir),
        forall|j: int| 0 <= j < i ==> !pattern_matches(#[trigger] rules[j].pattern@, dir),
    ensures
        resolve_rules(rules, dir, enabled, notify_on) == (
            match rules[i].enabled {
                Some(b) => b,
                None => enabled,
            },
            rule_notify_on(rules[i], notify_on),
        ),
    decreases i,
{
    if i > 0 {
        let rest = rules.drop_first();
        assert(!pattern_matches(rules[0].pattern@, dir));
        assert forall|j: int| 0 <= j < i - 1 implies !pattern_matches(
            #[trigger] rest[j].pattern@,
            dir,
        ) by {
            assert(rest[j] == rules[j + 1]);
        }
        assert(rest[i - 1] == rules[i]);
        law_first_matching_rule_wins(rest, dir, enabled, notify_on, i - 1);
    }
}

/// Where no project rule's pattern matches, the settings hold as they are.
pub proof fn law_no_matching_rule_keeps_settings(
    rules: Seq<ProjectRule>,
    dir: Seq<char>,
    enabled: bool,
    notify_on: Seq<SessionStatus>,
)
    requires
        forall|j: int| 0 <= j < rules.len() ==> !pattern_matches(#[trigger] rules[j].pattern@, dir),
    ensures
        resolve_rules(rules, dir, enabled, notify_on) == (enabled, notify_on),
    decreases rules.len(),
{
    if rules.len() > 0 {
        let rest = rules.drop_first();
        assert(!pattern_matches(rules[0].pattern@, dir));
        assert forall|j: int| 0 <= j < rest.len() implies !pattern_matches(
            #[trigger] rest[j].pattern@,
            dir,
        ) by {
            assert(rest[j] == rules[j + 1]);
        }
        law_no_matching_rule_keeps_settings(rest, dir, enabled, notify_on);
    }
}

/// A copy of a list of statuses.
pub fn copy_statuses(v: &[SessionStatus]) -> (r: Vec<SessionStatus>)
    ensures
        r@ == v@,
{
    let mut r: Vec<SessionStatus> = Vec::new();
    let mut i: usize = 0;
    while i < v.len()
        invariant
            0 <= i <= v.len(),
            r@ == v@.take(i as int),
        decreases v.len() - i,
    {
        r.push(v[i]);
        assert(v@.take(i + 1) == v@.take(i as int).push(v@[i as int]));
        i = i + 1;
    }
    assert(v@.take(v@.len() as int) =~= v@);
    r
}

/// Whether `s` occurs in `v`.
pub fn contains_status(v: &[SessionStatus], s: SessionStatus) -> (r: bool)
    ensures
        r == v@.contains(s),
{
    let mut i: usize = 0;
    while i < v.len()
        invariant
            0 <= i <= v.len(),
            forall|j: int| 0 <= j < i ==> v@[j] != s,
        decreases v.len() - i,
    {
        if v[i] == s {
            assert(v@[i as int] == s);
            return true;
        }
        i = i + 1;
    }
    false
}

impl NotificationSettings {
    /// Whether notifications are on, and for which statuses, for the project
    /// in `project_dir`.
    pub fn resolve_for_project(&self, project_dir: &str) -> (r: (bool, Vec<SessionStatus>))
        ensures
            (r.0, r.1@) == resolve_rules(
                self.project_rules@,
                project_dir@,
                self.enabled,
                self.notify_on@,
            ),
    {
        let mut i: usize = 0;
        proof {
            assert(self.project_rules@.skip(0) =~= self.project_rules@);
        }
        while i < self.project_rules.len()
            invariant
                0 <= i <= self.project_rules.len(),
                resolve_rules(self.project_rules@, project_dir@, self.enabled, self.notify_on@)
                    == resolve_rules(
                    self.project_rules@.skip(i as int),
                    project_dir@,
                    self.enabled,
                    self.notify_on@,
                ),
            decreases self.project_rules.len() - i,
        {
            let rule = &self.project_rules[i];
            proof {
                assert(self.project_rules@.skip(i as int)[0] == *rule);
            }
            if pattern_matches_exec(rule.pattern.as_str(), project_dir) {
                let enabled = match rule.enabled {
                    Some(b) => b,
                    None => self.enabled,
                };
                let notify_on = match &rule.notify_on {
                    Some(v) => copy_statuses(v.as_slice()),
                    None => copy_statuses(self.notify_on.as_slice()),
                };
                return (enabled, notify_on);
            }
            proof {
                assert(self.project_rules@.skip(i as int).drop_first() =~= self.project_rules@.skip(
                    i + 1,
                ));
            }
            i = i + 1;
        }
        proof {
            assert(self.project_rules@.skip(i as int).len() == 0);
        }
        (self.enabled, copy_statuses(self.notify_on.as_slice()))
    }
}

/// What a notification about session `key` says, given the session and its
/// old status.
pub open spec fn notification_about(
    n: SessionNotification,
    key: Seq<char>,
    s: SessionInfo,
    old: Option<SessionStatus>,
) -> bool {
    &&& n.project_name@ == s.project_name@
    &&& n.project_dir@ == s.project_dir@
    &&& n.session_id@ == key
    &&& n.old_status == old
    &&& n.new_status == s.status
    &&& n.message@ == s.waiting_for@
    &&& n.priority == priority_for(s.status)
    &&& n.transport_type@ == transport_name(s.transport@)
    &&& n.tmux_session@ == Seq::<char>::empty()
    &&& n.tmux_pane@ == s.tmux_pane@
}

/// The address of the viewer page at `base` (trailing slashes dropped): for a
/// pane, its page under `/tmux/` with the pane ID URL-encoded.
pub open spec fn viewer_link(base: Seq<char>, pane: Seq<char>) -> Seq<char> {
    if pane.len() > 0 {
        trim_end(base, '/') + "/tmux/"@ + percent_encode(encode_utf8(pane), false)
    } else {
        trim_end(base, '/')
    }
}

/// The click-through link of a notification about a session with tmux pane
/// `pane`: the viewer page at the external URL, where one is configured.
pub open spec fn external_click_url(external: Option<String>, pane: Seq<char>) -> Option<Seq<char>> {
    match external {
        Some(u) => if u@.len() > 0 {
            Some(viewer_link(u@, pane))
        } else {
            None
        },
        None => None,
    }
}

/// The address of the viewer page at `base` for `pane` (see `viewer_link`).
pub fn viewer_link_str(base: &str, pane: &str) -> (r: String)
    ensures
        r@ == viewer_link(base@, pane@),
{
    let mut r = trim_end_char(base, '/');
    if !pane.is_empty() {
        r.append("/tmux/");
        let enc = urlencoded(pane);
        r.append(enc.as_str());
    }
    r
}

/// The click-through link for a session's pane (see `external_click_url`).
fn external_click_url_exec(external: &Option<String>, pane: &str) -> (r: Option<String>)
    ensures
        opt_view(r) == external_click_url(*external, pane@),
{
    match external {
        Some(u) => if !u.as_str().is_empty() {
            Some(viewer_link_str(u.as_str(), pane))
        } else {
            None
        },
        None => None,
    }
}

/// Whether a session's status calls for a notification: it is one of
/// `notify_on` and differs from the old status (or there was none).
pub open spec fn is_transition(
    old: Map<Seq<char>, SessionStatus>,
    key: Seq<char>,
    status: SessionStatus,
    notify_on: Seq<SessionStatus>,
) -> bool {
    notify_on.contains(status) && (!old.contains_key(key) || old[key] != status)
}

/// The entries of the new sessions, in entry order, that call for a
/// notification.
pub open spec fn transition_indices(
    old: Map<Seq<char>, SessionStatus>,
    keys: Seq<Seq<char>>,
    sessions: Seq<SessionInfo>,
    notify_on: Seq<SessionStatus>,
) -> Seq<int>
    decreases keys.len(),
{
    if keys.len() == 0 || sessions.len() == 0 {
        Seq::empty()
    } else {
        let prev = transition_indices(old, keys.drop_last(), sessions.drop_last(), notify_on);
        if is_transition(old, keys.last(), sessions.last().status, notify_on) {
            prev.push(keys.len() - 1)
        } else {
            prev
        }
    }
}

/// Builds the notification for session `key`.
fn make_notification(
    key: &String,
    session: &SessionInfo,
    old_status: Option<SessionStatus>,
    title_template: Option<String>,
    body_template: Option<String>,
    click_url: Option<String>,
) -> (n: SessionNotification)
    ensures
        notification_about(n, key@, *session, old_status),
        n.title_template == title_template,
        n.body_template == body_template,
        n.click_url == click_url,
{
    SessionNotification {
        project_name: session.project_name.clone(),
        project_dir: session.project_dir.clone(),
        session_id: key.clone(),
        old_status,
        new_status: session.status,
        message: session.waiting_for.clone(),
        priority: NotificationPriority::for_status(session.status),
        title_template,
        body_template,
        click_url,
        transport_type: session.transport.kind_name(),
        tmux_session: String::new(),
        tmux_pane: session.tmux_pane.clone(),
    }
}

/// Compares old session statuses to the new sessions and produces a
/// notification for each session that entered one of the `notify_on` statuses.
pub fn detect_status_transitions(
    old_statuses: &StrMap<SessionStatus>,
    new_sessions: &StrMap<SessionInfo>,
    notify_on: &[SessionStatus],
) -> (r: Vec<SessionNotification>)
    requires
        old_statuses.wf(),
        new_sessions.wf(),
    ensures
        ({
            let idx = transition_indices(
                old_statuses@,
                new_sessions.keys_seq(),
                new_sessions.values_seq(),
                notify_on@,
            );
            &&& r@.len() == idx.len()
            &&& forall|j: int|
                0 <= j < idx.len() ==> {
                    let i = #[trigger] idx[j];
                    let key = new_sessions.keys_seq()[i];
                    notification_about(
                        r@[j],
                        key,
                        new_sessions.values_seq()[i],
                        if old_statuses@.contains_key(key) {
                            Some(old_statuses@[key])
                        } else {
                            None
                        },
                    ) && r@[j].title_template is None && r@[j].body_template is None
                        && r@[j].click_url is None
                }
        }),
{
    proof {
        new_sessions.lemma_view();
    }
    let ghost keys = new_sessions.keys_seq();
    let ghost vals = new_sessions.values_seq();
    let mut r: Vec<SessionNotification> = Vec::new();
    let n = new_sessions.len();
    let mut i: usize = 0;
    while i < n
        invariant
            n == keys.len(),
            keys == new_sessions.keys_seq(),
            vals == new_sessions.values_seq(),
            keys.len() == vals.len(),
            old_statuses.wf(),
            0 <= i <= n,
            ({
                let idx = transition_indices(
                    old_statuses@,
                    keys.take(i as int),
                    vals.take(i as int),
                    notify_on@,
                );
                &&& r@.len() == idx.len()
                &&& forall|j: int|
                    0 <= j < idx.len() ==> {
                        let k = #[trigger] idx[j];
                        let key = keys[k];
                        0 <= k < i && notification_about(
                            r@[j],
                            key,
                            vals[k],
                            if old_statuses@.contains_key(key) {
                                Some(old_statuses@[key])
                            } else {
                                None
                            },
                        ) && r@[j].title_template is None && r@[j].body_template is None
                            && r@[j].click_url is None
                    }
            }),
        decreases n - i,
    {
        let key = new_sessions.key_at(i);
        let session = new_sessions.value_at(i);
        let ghost prev_idx = transition_indices(
            old_statuses@,
            keys.take(i as int),
            vals.take(i as int),
            notify_on@,
        );
        proof {
            assert(keys.take(i + 1).drop_last() =~= keys.take(i as int));
            assert(vals.take(i + 1).drop_last() =~= vals.take(i as int));
            assert(keys.take(i + 1).last() == keys[i as int]);
            assert(vals.take(i + 1).last() == vals[i as int]);
        }
        if contains_status(notify_on, session.status) {
            let old_status = old_statuses.get(key.as_str());
            let changed = match old_status {
                None => true,
                Some(old) => *old != session.status,
            };
            if changed {
                let old_copy = match old_status {
                    Some(o) => Some(*o),
                    None => None,
                };
                let note = make_notification(key, session, old_copy, None, None, None);
                r.push(note);
            }
        }
        i = i + 1;
    }
    proof {
        assert(keys.take(n as int) =~= keys);
        assert(vals.take(n as int) =~= vals);
    }
    r
}

} // verus!

verus! {

/// Whether a session's status calls for a notification under the settings and
/// the project rule that applies to the session's directory.
pub open spec fn is_rule_transition(
    settings: NotificationSettings,
    old: Map<Seq<char>, SessionStatus>,
    key: Seq<char>,
    s: SessionInfo,
) -> bool {
    let (enabled, notify_on) = resolve_rules(
        settings.project_rules@,
        s.project_dir@,
        settings.enabled,
        settings.notify_on@,
    );
    enabled && is_transition(old, key, s.status, notify_on)
}

/// The entries of the new sessions, in entry order, that call for a
/// notification under the settings and their project rules.
pub open spec fn rule_transition_indices(
    settings: NotificationSettings,
    old: Map<Seq<char>, SessionStatus>,
    keys: Seq<Seq<char>>,
    sessions: Seq<SessionInfo>,
) -> Seq<int>
    decreases keys.len(),
{
    if keys.len() == 0 || sessions.len() == 0 {
        Seq::empty()
    } else {
        let prev = rule_transition_indices(settings, old, keys.drop_last(), sessions.drop_last());
        if is_rule_transition(settings, old, keys.last(), sessions.last()) {
            prev.push(keys.len() - 1)
        } else {
            prev
        }
    }
}

/// Compares old session statuses to the new sessions and produces a
/// notification for each session that entered a status that its project's
/// rule (or the settings) notify on; the notifications carry the settings'
/// templates.
pub fn detect_status_transitions_with_rules(
    old_statuses: &StrMap<SessionStatus>,
    new_sessions: &StrMap<SessionInfo>,
    settings: &NotificationSettings,
) -> (r: Vec<SessionNotification>)
    requires
        old_statuses.wf(),
        new_sessions.wf(),
    ensures
        ({
            let idx = rule_transition_indices(
                *settings,
                old_statuses@,
                new_sessions.keys_seq(),
                new_sessions.values_seq(),
            );
            &&& r@.len() == idx.len()
            &&& forall|j: int|
                0 <= j < idx.len() ==> {
                    let i = #[trigger] idx[j];
                    let key = new_sessions.keys_seq()[i];
                    notification_about(
                        r@[j],
                        key,
                        new_sessions.values_seq()[i],
                        if old_statuses@.contains_key(key) {
                            Some(old_statuses@[key])
                        } else {
                            None
                        },
                    ) && opt_view(r@[j].title_template) == opt_view(settings.title_template)
                        && opt_view(r@[j].body_template) == opt_view(settings.body_template)
                        && opt_view(r@[j].click_url) == external_click_url(
                            settings.external_url,
                            new_sessions.values_seq()[i].tmux_pane@,
                        )
                }
        }),
{
    proof {
        new_sessions.lemma_view();
    }
    let ghost keys = new_sessions.keys_seq();
    let ghost vals = new_sessions.values_seq();
    let mut r: Vec<SessionNotification> = Vec::new();
    let n = new_sessions.len();
    let mut i: usize = 0;
    while i < n
        invariant
            n == keys.len(),
            keys == new_sessions.keys_seq(),
            vals == new_sessions.values_seq(),
            keys.len() == vals.len(),
            old_statuses.wf(),
            0 <= i <= n,
            ({
                let idx = rule_transition_indices(
                    *settings,
                    old_statuses@,
                    keys.take(i as int),
                    vals.take(i as int),
                );
                &&& r@.len() == idx.len()
                &&& forall|j: int|
                    0 <= j < idx.len() ==> {
                        let k = #[trigger] idx[j];
                        let key = keys[k];
                        0 <= k < i && notification_about(
                            r@[j],
                            key,
                            vals[k],
                            if old_statuses@.contains_key(key) {
                                Some(old_statuses@[key])
                            } else {
                                None
                            },
                        ) && opt_view(r@[j].title_template) == opt_view(settings.title_template)
                            && opt_view(r@[j].body_template) == opt_view(settings.body_template)
                            && opt_view(r@[j].click_url) == external_click_url(
                                settings.external_url,
                                vals[k].tmux_pane@,
                            )
                    }
            }),
        decreases n - i,
    {
        let key = new_sessions.key_at(i);
        let session = new_sessions.value_at(i);
        proof {
            assert(keys.take(i + 1).drop_last() =~= keys.take(i as int));
            assert(vals.take(i + 1).drop_last() =~= vals.take(i as int));
            assert(keys.take(i + 1).last() == keys[i as int]);
            assert(vals.take(i + 1).last() == vals[i as int]);
        }
        let (enabled, notify_on) = settings.resolve_for_project(session.project_dir.as_str());
        if enabled && contains_status(notify_on.as_slice(), session.status) {
            let old_status = old_statuses.get(key.as_str());
            let changed = match old_status {
                None => true,
                Some(old) => *old != session.status,
            };
            if changed {
                let old_copy = match old_status {
                    Some(o) => Some(*o),
                    None => None,
                };
                let title = match &settings.title_template {
                    Some(t) => Some(t.clone()),
                    None => None,
                };
                let body = match &settings.body_template {
                    Some(t) => Some(t.clone()),
                    None => None,
                };
                let click = external_click_url_exec(&settings.external_url, session.tmux_pane.as_str());
                let note = make_notification(key, session, old_copy, title, body, click);
                r.push(note);
            }
        }
        i = i + 1;
    }
    proof {
        assert(keys.take(n as int) =~= keys);
        assert(vals.take(n as int) =~= vals);
    }
    r
}

/// A configured notification channel.
#[derive(Clone, Debug)]
pub enum Sink {
    Ntfy(NtfySink),
    Webhook(WebhookSink),
    Pushover(PushoverSink),
    Desktop(DesktopSink),
}

/// The name of a channel's kind.
pub open spec fn sink_name(s: Sink) -> Seq<char> {
    match s {
        Sink::Ntfy(_) => "ntfy"@,
        Sink::Webhook(_) => "webhook"@,
        Sink::Pushover(_) => "pushover"@,
        Sink::Desktop(_) => "desktop"@,
    }
}

/// Whether a sink is the one that a channel configuration describes.
pub open spec fn sink_for(c: ChannelConfig, s: Sink) -> bool {
    match (c, s) {
        (ChannelConfig::Ntfy { server, topic, token }, Sink::Ntfy(n)) => n.server == server
            && n.topic == topic && n.token == token,
        (ChannelConfig::Webhook { url }, Sink::Webhook(w)) => w.url == url,
        (ChannelConfig::Pushover { user_key, app_token, device }, Sink::Pushover(p)) => p.user_key
            == user_key && p.app_token == app_token && p.device == device,
        (ChannelConfig::Desktop {  }, Sink::Desktop(_)) => true,
        _ => false,
    }
}

/// A channel through which notifications are delivered.
pub trait NotificationSink {
    /// The name of the channel's kind.
    spec fn kind_name(&self) -> Seq<char>;

    /// The name of the channel's kind.
    fn name(&self) -> (r: &'static str)
        ensures
            r@ == self.kind_name(),
    ;
}

impl NotificationSink for NtfySink {
    open spec fn kind_name(&self) -> Seq<char> {
        "ntfy"@
    }

    fn name(&self) -> (r: &'static str) {
        "ntfy"
    }
}

impl NotificationSink for WebhookSink {
    open spec fn kind_name(&self) -> Seq<char> {
        "webhook"@
    }

    fn name(&self) -> (r: &'static str) {
        "webhook"
    }
}

impl NotificationSink for PushoverSink {
    open spec fn kind_name(&self) -> Seq<char> {
        "pushover"@
    }

    fn name(&self) -> (r: &'static str) {
        "pushover"
    }
}

impl NotificationSink for DesktopSink {
    open spec fn kind_name(&self) -> Seq<char> {
        "desktop"@
    }

    fn name(&self) -> (r: &'static str) {
        "desktop"
    }
}

impl NotificationSink for Sink {
    open spec fn kind_name(&self) -> Seq<char> {
        sink_name(*self)
    }

    fn name(&self) -> (r: &'static str) {
        match self {
            Sink::Ntfy(s) => s.name(),
            Sink::Webhook(s) => s.name(),
            Sink::Pushover(s) => s.name(),
            Sink::Desktop(s) => s.name(),
        }
    }
}

/// The notification sent when the user asks for a test, from a sample project
/// waiting for input; refused where notifications are off or, after that,
/// where no channel is set up (`sink_count` is the number of channels).
pub fn test_notification(settings: &NotificationSettings, sink_count: usize) -> (r: Result<
    SessionNotification,
    String,
>)
    ensures
        !settings.enabled ==> (r matches Err(e) && e@ == "Notifications are disabled"@),
        settings.enabled && sink_count == 0 ==> (r matches Err(e) && e@
            == "No notification channels configured"@),
        settings.enabled && sink_count > 0 ==> (r matches Ok(n) && {
            &&& n.project_name@ == "EOCC Test"@
            &&& n.project_dir@ == "/test"@
            &&& n.session_id@ == "test"@
            &&& n.old_status is None
            &&& n.new_status == SessionStatus::WaitingInput
            &&& n.message@ == "This is a test notification from EOCC"@
            &&& n.priority == NotificationPriority::Normal
            &&& opt_view(n.title_template) == opt_view(settings.title_template)
            &&& opt_view(n.body_template) == opt_view(settings.body_template)
            &&& n.click_url is None
            &&& n.transport_type@ == Seq::<char>::empty()
            &&& n.tmux_session@ == Seq::<char>::empty()
            &&& n.tmux_pane@ == Seq::<char>::empty()
        }),
{
    if !settings.enabled {
        return Err("Notifications are disabled".to_string());
    }
    let notification = SessionNotification {
        project_name: "EOCC Test".to_string(),
        project_dir: "/test".to_string(),
        session_id: "test".to_string(),
        old_status: None,
        new_status: SessionStatus::WaitingInput,
        message: "This is a test notification from EOCC".to_string(),
        priority: NotificationPriority::Normal,
        title_template: duplicate_opt(&settings.title_template),
        body_template: duplicate_opt(&settings.body_template),
        click_url: None,
        transport_type: String::new(),
        tmux_session: String::new(),
        tmux_pane: String::new(),
    };
    if sink_count == 0 {
        return Err("No notification channels configured".to_string());
    }
    Ok(notification)
}

/// Builds one sink for each configured channel, in order.
pub fn build_sinks(channels: &[ChannelConfig]) -> (r: Vec<Sink>)
    ensures
        r@.len() == channels@.len(),
        forall|i: int| 0 <= i < r@.len() ==> sink_for(channels@[i], #[trigger] r@[i]),
{
    let mut r: Vec<Sink> = Vec::new();
    let mut i: usize = 0;
    while i < channels.len()
        invariant
            0 <= i <= channels.len(),
            r@.len() == i,
            forall|j: int| 0 <= j < i ==> sink_for(channels@[j], #[trigger] r@[j]),
        decreases channels.len() - i,
    {
        r.push(build_sink(&channels[i]));
        i = i + 1;
    }
    r
}

/// The sink for one channel.
fn build_sink(c: &ChannelConfig) -> (s: Sink)
    ensures
        sink_for(*c, s),
{
    match c {
        ChannelConfig::Ntfy { server, topic, token } => Sink::Ntfy(
            NtfySink::new(server.clone(), topic.clone(), duplicate_opt(token)),
        ),
        ChannelConfig::Webhook { url } => Sink::Webhook(WebhookSink::new(url.clone())),
        ChannelConfig::Pushover { user_key, app_token, device } => Sink::Pushover(
            PushoverSink::new(user_key.clone(), app_token.clone(), duplicate_opt(device)),
        ),
        ChannelConfig::Desktop {  } => Sink::Desktop(DesktopSink::new()),
    }
}

/// The channels that the hook delivers through: all but the desktop ones,
/// which need the desktop app's display, in order.
pub open spec fn hook_channels(channels: Seq<ChannelConfig>) -> Seq<ChannelConfig> {
    channels.filter(|c: ChannelConfig| !(c is Desktop))
}

/// Builds one sink for each channel that the hook delivers through (see
/// `hook_channels`), in order.
pub fn build_hook_sinks(channels: &[ChannelConfig]) -> (r: Vec<Sink>)
    ensures
        r@.len() == hook_channels(channels@).len(),
        forall|i: int| 0 <= i < r@.len() ==> sink_for(hook_channels(channels@)[i], #[trigger] r@[i]),
{
    let mut r: Vec<Sink> = Vec::new();
    let mut i: usize = 0;
    proof {
        reveal(Seq::filter);
        assert(channels@.take(0) =~= Seq::<ChannelConfig>::empty());
    }
    while i < channels.len()
        invariant
            0 <= i <= channels.len(),
            r@.len() == hook_channels(channels@.take(i as int)).len(),
            forall|j: int|
                0 <= j < r@.len() ==> sink_for(
                    hook_channels(channels@.take(i as int))[j],
                    #[trigger] r@[j],
                ),
        decreases channels.len() - i,
    {
        proof {
            reveal(Seq::filter);
            assert(channels@.take(i + 1).drop_last() =~= channels@.take(i as int));
            assert(channels@.take(i + 1).last() == channels@[i as int]);
        }
        let is_desktop = match &channels[i] {
            ChannelConfig::Desktop {  } => true,
            _ => false,
        };
        if !is_desktop {
            r.push(build_sink(&channels[i]));
        }
        i = i + 1;
    }
    proof {
        assert(channels@.take(channels.len() as int) =~= channels@);
    }
    r
}

/// Records the dispatch of `notification` to `sinks`, given what each sink
/// answered (`outcomes[i]` for `sinks[i]`) and the time in milliseconds
/// since 1970-01-01T00:00:00Z.
pub fn dispatch(
    sinks: &[Sink],
    notification: &SessionNotification,
    outcomes: &[Result<(), String>],
    now_ms: u64,
) -> (r: NotificationRecord)
    requires
        outcomes@.len() == sinks@.len(),
    ensures
        is_iso_timestamp_of(r.timestamp@, now_ms),
        r.project_name@ == notification.project_name@,
        r.project_dir@ == notification.project_dir@,
        r.status@ == status_name(notification.new_status),
        r.channels@.len() == sinks@.len(),
        forall|i: int|
            0 <= i < sinks@.len() ==> {
                let c = #[trigger] r.channels@[i];
                &&& c.name@ == sink_name(sinks@[i])
                &&& c.success == outcomes@[i] is Ok
                &&& c.error == match outcomes@[i] {
                    Ok(_) => None,
                    Err(e) => Some(e),
                }
            },
{
    let mut channels: Vec<ChannelResult> = Vec::new();
    let mut i: usize = 0;
    while i < sinks.len()
        invariant
            outcomes@.len() == sinks@.len(),
            0 <= i <= sinks.len(),
            channels@.len() == i,
            forall|j: int|
                0 <= j < i ==> {
                    let c = #[trigger] channels@[j];
                    &&& c.name@ == sink_name(sinks@[j])
                    &&& c.success == outcomes@[j] is Ok
                    &&& c.error == match outcomes@[j] {
                        Ok(_) => None,
                        Err(e) => Some(e),
                    }
                },
        decreases sinks.len() - i,
    {
        let (success, error) = match &outcomes[i] {
            Ok(()) => (true, None),
            Err(e) => (false, Some(e.clone())),
        };
        channels.push(ChannelResult { name: sinks[i].name().to_string(), success, error });
        i = i + 1;
    }
    NotificationRecord {
        timestamp: iso_timestamp_utc(now_ms),
        project_name: notification.project_name.clone(),
        project_dir: notification.project_dir.clone(),
        status: status_name_of(notification.new_status),
        channels,
    }
}

} // verus!

verus! {

/// Transition detection reports each session at most once and exactly when
/// its status calls for a notification: the entries it picks rise, lie in
/// range, and an entry is picked if and only if its status is one of
/// `notify_on` and differs from the old status (or there was none). Since a
/// map's keys are distinct, each such session gets exactly one notification.
pub proof fn law_transitions_once_per_session(
    old: Map<Seq<char>, SessionStatus>,
    keys: Seq<Seq<char>>,
    sessions: Seq<SessionInfo>,
    notify_on: Seq<SessionStatus>,
)
    requires
        keys.len() == sessions.len(),
    ensures
        forall|a: int, b: int|
            0 <= a < b < transition_indices(old, keys, sessions, notify_on).len()
                ==> #[trigger] transition_indices(old, keys, sessions, notify_on)[a]
                < #[trigger] transition_indices(old, keys, sessions, notify_on)[b],
        forall|j: int|
            0 <= j < transition_indices(old, keys, sessions, notify_on).len() ==> 0
                <= #[trigger] transition_indices(old, keys, sessions, notify_on)[j] < keys.len(),
        forall|i: int|
            0 <= i < keys.len() ==> (transition_indices(old, keys, sessions, notify_on).contains(i)
                <==> is_transition(old, keys[i], #[trigger] sessions[i].status, notify_on)),
    decreases keys.len(),
{
    if keys.len() > 0 {
        let (ik, is) = (keys.drop_last(), sessions.drop_last());
        law_transitions_once_per_session(old, ik, is, notify_on);
        let prev = transition_indices(old, ik, is, notify_on);
        let idx = transition_indices(old, keys, sessions, notify_on);
        assert forall|j: int| 0 <= j < prev.len() implies idx[j] == prev[j] by {}
        assert forall|i: int| 0 <= i < keys.len() implies (idx.contains(i) <==> is_transition(
            old,
            keys[i],
            #[trigger] sessions[i].status,
            notify_on,
        )) by {
            if i < keys.len() - 1 {
                assert(keys[i] == ik[i] && sessions[i] == is[i]);
                if idx.contains(i) {
                    let j = idx.index_of(i);
                    if j < prev.len() {
                        assert(prev[j] == i);
                    }
                }
                if prev.contains(i) {
                    let j = prev.index_of(i);
                    assert(idx[j] == i);
                }
            } else {
                if is_transition(old, keys.last(), sessions.last().status, notify_on) {
                    assert(idx[prev.len() as int] == i);
                } else if idx.contains(i) {
                    let j = prev.index_of(i);
                    assert(prev[j] < ik.len());
                }
            }
        }
    }
}

/// The same for detection under the settings and their project rules: each
/// session is picked at most once, and exactly when `is_rule_transition`
/// holds of it.
pub proof fn law_rule_transitions_once_per_session(
    settings: NotificationSettings,
    old: Map<Seq<char>, SessionStatus>,
    keys: Seq<Seq<char>>,
    sessions: Seq<SessionInfo>,
)
    requires
        keys.len() == sessions.len(),
    ensures
        forall|a: int, b: int|
            0 <= a < b < rule_transition_indices(settings, old, keys, sessions).len()
                ==> #[trigger] rule_transition_indices(settings, old, keys, sessions)[a]
                < #[trigger] rule_transition_indices(settings, old, keys, sessions)[b],
        forall|j: int|
            0 <= j < rule_transition_indices(settings, old, keys, sessions).len() ==> 0
                <= #[trigger] rule_transition_indices(settings, old, keys, sessions)[j]
                < keys.len(),
        forall|i: int|
            0 <= i < keys.len() ==> (rule_transition_indices(settings, old, keys, sessions).contains(i)
                <==> is_rule_transition(settings, old, keys[i], #[trigger] sessions[i])),
    decreases keys.len(),
{
    if keys.len() > 0 {
        let (ik, is) = (keys.drop_last(), sessions.drop_last());
        law_rule_transitions_once_per_session(settings, old, ik, is);
        let prev = rule_transition_indices(settings, old, ik, is);
        let idx = rule_transition_indices(settings, old, keys, sessions);
        assert forall|j: int| 0 <= j < prev.len() implies idx[j] == prev[j] by {}
        assert forall|i: int| 0 <= i < keys.len() implies (idx.contains(i) <==> is_rule_transition(
            settings,
            old,
            keys[i],
            #[trigger] sessions[i],
        )) by {
            if i < keys.len() - 1 {
                assert(keys[i] == ik[i] && sessions[i] == is[i]);
                if idx.contains(i) {
                    let j = idx.index_of(i);
                    if j < prev.len() {
                        assert(prev[j] == i);
                    }
                }
                if prev.contains(i) {
                    let j = prev.index_of(i);
                    assert(idx[j] == i);
                }
            } else {
                if is_rule_transition(settings, old, keys.last(), sessions.last()) {
                    assert(idx[prev.len() as int] == i);
                } else if idx.contains(i) {
                    let j = prev.index_of(i);
                    assert(prev[j] < ik.len());
                }
            }
        }
    }
}

} // verus!

verus! {

/// The sink built for a channel carries that channel's whole configuration:
/// an ntfy sink its server, topic and access token; a webhook sink its URL;
/// a Pushover sink its user key, application token and device.
pub proof fn law_sinks_carry_their_configuration(c: ChannelConfig, s: Sink)
    requires
        sink_for(c, s),
    ensures
        c matches ChannelConfig::Ntfy { server, topic, token } ==> (s matches Sink::Ntfy(n)
            && n.server == server && n.topic == topic && n.token == token),
        c matches ChannelConfig::Webhook { url } ==> (s matches Sink::Webhook(w) && w.url == url),
        c matches ChannelConfig::Pushover { user_key, app_token, device } ==> (s matches Sink::Pushover(
            p,
        ) && p.user_key == user_key && p.app_token == app_token && p.device == device),
        c is Desktop ==> s is Desktop,
        sink_name(s) == (match c {
            ChannelConfig::Ntfy { .. } => "ntfy"@,
            ChannelConfig::Webhook { .. } => "webhook"@,
            ChannelConfig::Pushover { .. } => "pushover"@,
            ChannelConfig::Desktop {  } => "desktop"@,
        }),
{
}

/// An ntfy channel configured with an access token authorizes its posts with
/// it: the request that the built sink sends carries
/// `Authorization: Bearer <token>`; without a token it carries no
/// `Authorization` header.
pub proof fn law_ntfy_token_authorizes(
    c: ChannelConfig,
    n: NtfySink,
    note: SessionNotification,
    r: HttpRequest,
)
    requires
        sink_for(c, Sink::Ntfy(n)),
        crate::notifications::ntfy::ntfy_request_ok(n, note, r),
    ensures
        c matches ChannelConfig::Ntfy { token: Some(t), .. } ==> header_view(r.headers@).contains(
            ("Authorization"@, "Bearer "@ + t@),
        ),
        c matches ChannelConfig::Ntfy { token: None, .. } ==> forall|i: int|
            0 <= i < r.headers@.len() ==> #[trigger] r.headers@[i].0@ != "Authorization"@,
{
    let h = header_view(r.headers@);
    reveal_strlit("Authorization");
    reveal_strlit("Title");
    reveal_strlit("Priority");
    reveal_strlit("Tags");
    reveal_strlit("Click");
    assert("Authorization"@.len() == 13 && "Title"@.len() == 5 && "Priority"@.len() == 8
        && "Tags"@.len() == 4 && "Click"@.len() == 5);
    let base = seq![
        ("Title"@, title_of(note)),
        ("Priority"@, crate::notifications::ntfy::ntfy_priority(note.priority)),
        ("Tags"@, crate::notifications::ntfy::ntfy_tag(note.new_status)),
    ];
    let click = match note.click_url {
        Some(u) => seq![("Click"@, u@)],
        None => Seq::<(Seq<char>, Seq<char>)>::empty(),
    };
    if let ChannelConfig::Ntfy { token: Some(t), .. } = c {
        let last = h.len() - 1;
        assert(h[last] == ("Authorization"@, "Bearer "@ + t@));
    }
    if let ChannelConfig::Ntfy { token: None, .. } = c {
        assert(h == base + click);
        assert forall|i: int| 0 <= i < r.headers@.len() implies #[trigger] r.headers@[i].0@
            != "Authorization"@ by {
            assert(h[i].0 == r.headers@[i].0@);
        }
    }
}

} // verus!
