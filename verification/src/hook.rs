use vstd::prelude::*;
use vstd::string::StringSliceAdditionalSpecFns;
use vstd::utf8::encode_utf8;

use crate::hook_state::{HookSessionState, HookSessionView, HookState};
use crate::notifications::history::NotificationRecord;
use crate::notifications::{
    contains_status, is_rule_transition, priority_for, resolve_rules, NotificationPriority,
    NotificationSettings, SessionNotification,
};
use crate::state::{
    lookup, opt_view, EventInfo, EventType, EventView, HookChannelResult, NotificationType,
    SessionInfo, SessionStatus,
};
use crate::text::{
    chars_of, contains_seq, ends_with, split_whitespace, starts_with, str_eq, string_from_chars,
    trim_end, trim_end_char, words,
};
use crate::urlcode::{percent_encode, urlencoded};

verus! {

/// The status that a hook event of the kind named `event_type` sets:
/// `Some(Some(s))` for the kinds that set one, `Some(None)` for
/// `session_end` (the session goes), and `None` for unknown kinds.
pub open spec fn event_status(event_type: Seq<char>, notification_type: Seq<char>) -> Option<
    Option<SessionStatus>,
> {
    if event_type == "session_start"@ || event_type == "post_tool_use"@ || event_type
        == "user_prompt_submit"@ {
        Some(Some(SessionStatus::Active))
    } else if event_type == "session_end"@ {
        Some(None)
    } else if event_type == "stop"@ {
        Some(Some(SessionStatus::Completed))
    } else if event_type == "notification"@ {
        if notification_type == "permission_prompt"@ {
            Some(Some(SessionStatus::WaitingPermission))
        } else if notification_type == "idle_prompt"@ {
            Some(Some(SessionStatus::WaitingInput))
        } else {
            Some(Some(SessionStatus::Active))
        }
    } else {
        None
    }
}

/// Maps a hook event to the status it sets (see `event_status`).
pub fn map_event_to_status(event_type: &str, notification_type: &str) -> (r: Option<
    Option<SessionStatus>,
>)
    ensures
        r == event_status(event_type@, notification_type@),
{
    if str_eq(event_type, "session_start") || str_eq(event_type, "post_tool_use") || str_eq(
        event_type,
        "user_prompt_submit",
    ) {
        Some(Some(SessionStatus::Active))
    } else if str_eq(event_type, "session_end") {
        Some(None)
    } else if str_eq(event_type, "stop") {
        Some(Some(SessionStatus::Completed))
    } else if str_eq(event_type, "notification") {
        if str_eq(notification_type, "permission_prompt") {
            Some(Some(SessionStatus::WaitingPermission))
        } else if str_eq(notification_type, "idle_prompt") {
            Some(Some(SessionStatus::WaitingInput))
        } else {
            Some(Some(SessionStatus::Active))
        }
    } else {
        None
    }
}

/// The word that the hook's state file uses for a status.
pub open spec fn status_word(s: SessionStatus) -> Seq<char> {
    match s {
        SessionStatus::Active => "active"@,
        SessionStatus::WaitingPermission => "waiting_permission"@,
        SessionStatus::WaitingInput => "waiting_input"@,
        SessionStatus::Completed => "completed"@,
    }
}

/// The status that a word of the hook's state file names.
pub open spec fn status_from_word(w: Seq<char>) -> Option<SessionStatus> {
    if w == "active"@ {
        Some(SessionStatus::Active)
    } else if w == "waiting_permission"@ {
        Some(SessionStatus::WaitingPermission)
    } else if w == "waiting_input"@ {
        Some(SessionStatus::WaitingInput)
    } else if w == "completed"@ {
        Some(SessionStatus::Completed)
    } else {
        None
    }
}

pub fn status_to_string(status: &SessionStatus) -> (r: &'static str)
    ensures
        r@ == status_word(*status),
{
    match status {
        SessionStatus::Active => "active",
        SessionStatus::WaitingPermission => "waiting_permission",
        SessionStatus::WaitingInput => "waiting_input",
        SessionStatus::Completed => "completed",
    }
}

pub fn parse_session_status(s: &str) -> (r: Option<SessionStatus>)
    ensures
        r == status_from_word(s@),
{
    if str_eq(s, "active") {
        Some(SessionStatus::Active)
    } else if str_eq(s, "waiting_permission") {
        Some(SessionStatus::WaitingPermission)
    } else if str_eq(s, "waiting_input") {
        Some(SessionStatus::WaitingInput)
    } else if str_eq(s, "completed") {
        Some(SessionStatus::Completed)
    } else {
        None
    }
}

/// Reading back the word written for a status gives the status.
pub proof fn law_status_word_roundtrip(s: SessionStatus)
    ensures
        status_from_word(status_word(s)) == Some(s),
{
    reveal_strlit("active");
    reveal_strlit("waiting_permission");
    reveal_strlit("waiting_input");
    reveal_strlit("completed");
    assert("active"@[0] != "waiting_permission"@[0]);
    assert("active"@[0] != "waiting_input"@[0]);
    assert("active"@ != "completed"@);
    assert("waiting_permission"@[8] != "waiting_input"@[8]);
    assert("waiting_permission"@ != "completed"@);
    assert("waiting_input"@ != "completed"@);
}

/// The kind of event that a hook argument names.
pub open spec fn event_type_from_word(w: Seq<char>) -> EventType {
    if w == "session_start"@ {
        EventType::SessionStart
    } else if w == "session_end"@ {
        EventType::SessionEnd
    } else if w == "notification"@ {
        EventType::Notification
    } else if w == "notification_result"@ {
        EventType::NotificationResult
    } else if w == "stop"@ {
        EventType::Stop
    } else if w == "post_tool_use"@ {
        EventType::PostToolUse
    } else if w == "user_prompt_submit"@ {
        EventType::UserPromptSubmit
    } else {
        EventType::Unknown
    }
}

pub fn parse_event_type(s: &str) -> (r: EventType)
    ensures
        r == event_type_from_word(s@),
{
    if str_eq(s, "session_start") {
        EventType::SessionStart
    } else if str_eq(s, "session_end") {
        EventType::SessionEnd
    } else if str_eq(s, "notification") {
        EventType::Notification
    } else if str_eq(s, "notification_result") {
        EventType::NotificationResult
    } else if str_eq(s, "stop") {
        EventType::Stop
    } else if str_eq(s, "post_tool_use") {
        EventType::PostToolUse
    } else if str_eq(s, "user_prompt_submit") {
        EventType::UserPromptSubmit
    } else {
        EventType::Unknown
    }
}

/// The kind of notification that a hook argument names.
pub open spec fn notification_type_from_word(w: Seq<char>) -> NotificationType {
    if w == "permission_prompt"@ {
        NotificationType::PermissionPrompt
    } else if w == "idle_prompt"@ {
        NotificationType::IdlePrompt
    } else {
        NotificationType::Other
    }
}

pub fn parse_notification_type(s: &str) -> (r: NotificationType)
    ensures
        r == notification_type_from_word(s@),
{
    if str_eq(s, "permission_prompt") {
        NotificationType::PermissionPrompt
    } else if str_eq(s, "idle_prompt") {
        NotificationType::IdlePrompt
    } else {
        NotificationType::Other
    }
}

/// The index of the last `/` in `s`, or -1.
pub open spec fn last_slash(s: Seq<char>) -> int
    decreases s.len(),
{
    if s.len() == 0 {
        -1
    } else if s.last() == '/' {
        s.len() - 1
    } else {
        last_slash(s.drop_last())
    }
}

proof fn lemma_last_slash(s: Seq<char>)
    ensures
        -1 <= last_slash(s) < s.len(),
        last_slash(s) >= 0 ==> s[last_slash(s)] == '/',
        forall|j: int| last_slash(s) < j < s.len() ==> s[j] != '/',
    decreases s.len(),
{
    if s.len() > 0 && s.last() != '/' {
        lemma_last_slash(s.drop_last());
        assert forall|j: int| last_slash(s) < j < s.len() implies s[j] != '/' by {
            if j < s.len() - 1 {
                assert(s.drop_last()[j] == s[j]);
            }
        }
    }
}

/// The last component of a path, as `Path::file_name` finds it: empty and
/// `.` components are passed over, and a last component `..` has no name.
pub open spec fn file_name(s: Seq<char>) -> Option<Seq<char>>
    decreases s.len(),
{
    let i = last_slash(s);
    let seg = s.skip(i + 1);
    if seg.len() == 0 || seg == "."@ {
        if i < 0 || i >= s.len() {
            None
        } else {
            file_name(s.take(i))
        }
    } else if seg == ".."@ {
        None
    } else {
        Some(seg)
    }
}

/// The project name the hook shows: the last component of the directory
/// without trailing slashes, or `unknown`.
pub open spec fn base_name(p: Seq<char>) -> Seq<char> {
    let clean = trim_end(p, '/');
    if clean.len() == 0 {
        "unknown"@
    } else {
        match file_name(clean) {
            Some(n) => n,
            None => "unknown"@,
        }
    }
}

fn file_name_exec(v: &Vec<char>, n: usize) -> (r: Option<String>)
    requires
        n <= v.len(),
    ensures
        opt_view(r) == file_name(v@.take(n as int)),
    decreases n,
{
    let ghost s = v@.take(n as int);
    proof {
        lemma_last_slash(s);
    }
    let mut i: usize = n;
    while i > 0 && v[i - 1] != '/'
        invariant
            s == v@.take(n as int),
            i <= n <= v.len(),
            forall|j: int| i <= j < n ==> v@[j] != '/',
        decreases i,
    {
        i = i - 1;
    }
    let ghost li: int = i as int - 1;
    proof {
        assert(li == last_slash(s)) by {
            if li >= 0 {
                assert(s[li] == '/');
            }
            let ls = last_slash(s);
            if ls > li {
                assert(s[ls] == '/');
                assert(v@[ls] == s[ls]);
            } else if ls < li {
                assert(s[li] == '/');
            }
        }
    }
    let seg = string_from_chars(v, i, n);
    proof {
        assert(seg@ =~= s.skip(li + 1));
    }
    if seg.as_str().is_empty() || str_eq(seg.as_str(), ".") {
        if i == 0 {
            None
        } else {
            proof {
                assert(v@.take(i - 1) =~= s.take(li));
            }
            file_name_exec(v, i - 1)
        }
    } else if str_eq(seg.as_str(), "..") {
        None
    } else {
        Some(seg)
    }
}

/// The project name for a directory (see `base_name`).
pub fn basename(p: &str) -> (r: String)
    ensures
        r@ == base_name(p@),
{
    let clean = trim_end_char(p, '/');
    if clean.as_str().is_empty() {
        return "unknown".to_string();
    }
    let v = chars_of(clean.as_str());
    proof {
        assert(v@.take(v@.len() as int) =~= v@);
    }
    match file_name_exec(&v, v.len()) {
        Some(n) => n,
        None => "unknown".to_string(),
    }
}

/// How the machine that runs a session can be reached.
#[derive(Clone, Debug)]
pub struct TransportInfo {
    pub type_: String,
    pub host: String,
    pub port: String,
    pub user: String,
    pub tmux_session: String,
    pub tmux_pane: String,
    pub viewer_url: String,
}

/// The click-through URL of a notification: the viewer's page for the tmux
/// pane where a viewer URL is set; else an `ssh://` or `mosh://` URL for a
/// remote host (with the user, a port other than 22, and a command that
/// attaches to the tmux session); else nothing.
pub open spec fn connect_url(t: TransportInfo) -> Seq<char> {
    if t.viewer_url@.len() > 0 {
        let base = trim_end(t.viewer_url@, '/');
        if t.tmux_pane@.len() > 0 {
            base + "/tmux/"@ + percent_encode(encode_utf8(t.tmux_pane@), false)
        } else {
            base
        }
    } else if t.host@.len() == 0 || t.type_@ == "local"@ {
        Seq::empty()
    } else {
        let user = if t.user@.len() > 0 {
            t.user@ + "@"@
        } else {
            Seq::empty()
        };
        let tmux_cmd = if t.tmux_session@.len() > 0 {
            ";tmux attach -t "@ + t.tmux_session@
        } else {
            Seq::empty()
        };
        if t.type_@ == "ssh"@ || t.type_@ == "tailscale"@ {
            let port = if t.port@.len() > 0 && t.port@ != "22"@ {
                ":"@ + t.port@
            } else {
                Seq::empty()
            };
            "ssh://"@ + user + t.host@ + port + tmux_cmd
        } else if t.type_@ == "mosh"@ {
            "mosh://"@ + user + t.host@ + tmux_cmd
        } else {
            Seq::empty()
        }
    }
}

/// The click-through URL of a notification (see `connect_url`).
pub fn build_connect_url(transport: &TransportInfo) -> (r: String)
    ensures
        r@ == connect_url(*transport),
{
    if !transport.viewer_url.as_str().is_empty() {
        let mut base = trim_end_char(transport.viewer_url.as_str(), '/');
        if !transport.tmux_pane.as_str().is_empty() {
            base.append("/tmux/");
            let enc = urlencoded(transport.tmux_pane.as_str());
            base.append(enc.as_str());
        }
        return base;
    }
    if transport.host.as_str().is_empty() || str_eq(transport.type_.as_str(), "local") {
        return String::new();
    }
    let mut user = String::new();
    if !transport.user.as_str().is_empty() {
        user.append(transport.user.as_str());
        user.append("@");
    }
    let mut tmux_cmd = String::new();
    if !transport.tmux_session.as_str().is_empty() {
        tmux_cmd.append(";tmux attach -t ");
        tmux_cmd.append(transport.tmux_session.as_str());
    }
    let t = transport.type_.as_str();
    if str_eq(t, "ssh") || str_eq(t, "tailscale") {
        let mut port = String::new();
        if !transport.port.as_str().is_empty() && !str_eq(transport.port.as_str(), "22") {
            port.append(":");
            port.append(transport.port.as_str());
        }
        let mut r = "ssh://".to_string();
        r.append(user.as_str());
        r.append(transport.host.as_str());
        r.append(port.as_str());
        r.append(tmux_cmd.as_str());
        r
    } else if str_eq(t, "mosh") {
        let mut r = "mosh://".to_string();
        r.append(user.as_str());
        r.append(transport.host.as_str());
        r.append(tmux_cmd.as_str());
        r
    } else {
        String::new()
    }
}

} // verus!

verus! {

/// The key under which the hook remembers a session: the project directory,
/// or the project name where the directory is empty or `unknown`.
pub open spec fn hook_session_key(project_dir: Seq<char>, project_name: Seq<char>) -> Seq<char> {
    if project_dir.len() == 0 || project_dir == "unknown"@ {
        project_name
    } else {
        project_dir
    }
}

/// Whether a cooldown of `cooldown` seconds since the last notification at
/// `last` (milliseconds) still runs at `now` (milliseconds).
pub open spec fn in_cooldown(cooldown: Option<u64>, last: Option<u64>, now: u64) -> bool {
    match (cooldown, last) {
        (Some(cd), Some(l)) => (if now >= l {
            now - l
        } else {
            0
        }) / 1000 < cd,
        _ => false,
    }
}

/// Whether a cooldown still runs (see `in_cooldown`).
pub fn cooldown_active(cooldown: Option<u64>, last: Option<u64>, now_ms: u64) -> (r: bool)
    ensures
        r == in_cooldown(cooldown, last, now_ms),
{
    match (cooldown, last) {
        (Some(cd), Some(l)) => now_ms.saturating_sub(l) / 1000 < cd,
        _ => false,
    }
}

/// What the hook knows of the event it handles.
#[derive(Clone, Debug)]
pub struct NotifyContext {
    pub event_type: String,
    pub notification_type: String,
    pub project_dir: String,
    pub project_name: String,
    pub waiting_info: String,
    pub transport: TransportInfo,
}

/// What the hook is to do after it has looked at an event.
#[derive(Clone, Debug)]
pub enum HookAction {
    /// Nothing: notifications are off, or the event sets no status.
    Nothing,
    /// Save the updated state; no notification is due.
    Save,
    /// Send the notification, then note the time for session `key` and save.
    Notify { key: String, notification: SessionNotification },
}

/// Whether `n` is the notification that the hook sends for the context, the
/// new status and the status it remembered.
pub open spec fn hook_notification_ok(
    n: SessionNotification,
    settings: NotificationSettings,
    ctx: NotifyContext,
    status: SessionStatus,
    prev: Option<HookSessionView>,
) -> bool {
    let url = connect_url(hook_transport(settings, ctx.transport));
    &&& n.project_name@ == ctx.project_name@
    &&& n.project_dir@ == ctx.project_dir@
    &&& n.session_id@ == Seq::<char>::empty()
    &&& n.old_status == (match prev {
        Some(p) => status_from_word(p.status),
        None => None,
    })
    &&& n.new_status == status
    &&& n.message@ == ctx.waiting_info@
    &&& n.priority == priority_for(status)
    &&& opt_view(n.title_template) == opt_view(settings.title_template)
    &&& opt_view(n.body_template) == opt_view(settings.body_template)
    &&& opt_view(n.click_url) == (if url.len() == 0 {
        None
    } else {
        Some(url)
    })
    &&& n.transport_type@ == ctx.transport.type_@
    &&& n.tmux_session@ == ctx.transport.tmux_session@
    &&& n.tmux_pane@ == ctx.transport.tmux_pane@
}

/// The transport that the hook's click-through link is built from: where no
/// viewer URL is given, the settings' external URL stands in for it.
pub open spec fn hook_transport(settings: NotificationSettings, t: TransportInfo) -> TransportInfo {
    TransportInfo {
        viewer_url: if t.viewer_url@.len() == 0 && settings.external_url is Some {
            settings.external_url->0
        } else {
            t.viewer_url
        },
        ..t
    }
}

/// Whether the hook does nothing for the event: notifications are off, no
/// channel is set, or the event sets no status.
pub open spec fn hook_ignores(settings: NotificationSettings, ctx: NotifyContext) -> bool {
    !settings.enabled || settings.channels@.len() == 0 || event_status(
        ctx.event_type@,
        ctx.notification_type@,
    ) is None
}

/// What the hook remembers of the sessions after the event: nothing changes
/// where it ignores the event; `session_end` forgets the session; otherwise
/// the session's new status is remembered, with the time of its last
/// notification kept.
pub open spec fn hook_sessions_after(
    settings: NotificationSettings,
    ctx: NotifyContext,
    pre: Map<Seq<char>, HookSessionView>,
) -> Map<Seq<char>, HookSessionView> {
    let key = hook_session_key(ctx.project_dir@, ctx.project_name@);
    let st = event_status(ctx.event_type@, ctx.notification_type@);
    if hook_ignores(settings, ctx) {
        pre
    } else if st == Some(None::<SessionStatus>) {
        pre.remove(key)
    } else {
        pre.insert(
            key,
            HookSessionView {
                status: status_word(st->0->0),
                last_notified: last_notified_of(lookup(pre, key)),
            },
        )
    }
}

/// When the session remembered was last notified, if it was.
pub open spec fn last_notified_of(prev: Option<HookSessionView>) -> Option<u64> {
    match prev {
        Some(p) => p.last_notified,
        None => None,
    }
}

/// Whether the event calls for a notification at `now`: it sets a status
/// other than the one remembered for the session, the project rules let that
/// status notify, and no cooldown runs for the session.
pub open spec fn hook_notification_due(
    settings: NotificationSettings,
    ctx: NotifyContext,
    pre: Map<Seq<char>, HookSessionView>,
    now: u64,
) -> bool {
    let key = hook_session_key(ctx.project_dir@, ctx.project_name@);
    let st = event_status(ctx.event_type@, ctx.notification_type@);
    let prev = lookup(pre, key);
    let (enabled, notify_on) = resolve_rules(
        settings.project_rules@,
        ctx.project_dir@,
        settings.enabled,
        settings.notify_on@,
    );
    &&& !hook_ignores(settings, ctx)
    &&& st matches Some(Some(status))
    &&& !(prev matches Some(p) && p.status == status_word(status))
    &&& enabled
    &&& notify_on.contains(status)
    &&& !in_cooldown(settings.cooldown_seconds, last_notified_of(prev), now)
}

/// Decides what the hook does for one event, and updates what it remembers
/// (see `hook_sessions_after`): nothing where it ignores the event; else a
/// notification where one is due (see `hook_notification_due`), and saving
/// what it remembers otherwise.
pub fn plan_notification(
    settings: &NotificationSettings,
    state: &mut HookState,
    ctx: &NotifyContext,
    now_ms: u64,
) -> (r: HookAction)
    requires
        old(state).wf(),
    ensures
        final(state).wf(),
        final(state).sessions_view() == hook_sessions_after(
            *settings,
            *ctx,
            old(state).sessions_view(),
        ),
        r is Nothing <==> hook_ignores(*settings, *ctx),
        r is Notify <==> hook_notification_due(*settings, *ctx, old(state).sessions_view(), now_ms),
        r matches HookAction::Notify { key: k, notification } ==> k@ == hook_session_key(
            ctx.project_dir@,
            ctx.project_name@,
        ) && hook_notification_ok(
            notification,
            *settings,
            *ctx,
            event_status(ctx.event_type@, ctx.notification_type@)->0->0,
            lookup(old(state).sessions_view(), k@),
        ),
{
    let ghost pre = state.sessions_view();
    if !settings.enabled || settings.channels.len() == 0 {
        return HookAction::Nothing;
    }
    let new_status = match map_event_to_status(
        ctx.event_type.as_str(),
        ctx.notification_type.as_str(),
    ) {
        Some(status) => status,
        None => return HookAction::Nothing,
    };
    let session_key = if ctx.project_dir.as_str().is_empty() || str_eq(
        ctx.project_dir.as_str(),
        "unknown",
    ) {
        ctx.project_name.clone()
    } else {
        ctx.project_dir.clone()
    };
    let new_status = match new_status {
        Some(s) => s,
        None => {
            state.sessions.remove(session_key.as_str());
            proof {
                assert(state.sessions_view() =~= pre.remove(session_key@));
            }
            return HookAction::Save;
        },
    };
    let new_status_str = status_to_string(&new_status);
    let (old_status, prev_last_notified, same) = match state.sessions.get(session_key.as_str()) {
        Some(p) => (
            parse_session_status(p.status.as_str()),
            p.last_notified,
            str_eq(p.status.as_str(), new_status_str),
        ),
        None => (None, None, false),
    };
    let ghost key = session_key@;
    state.sessions.insert(
        session_key.clone(),
        HookSessionState { status: new_status_str.to_string(), last_notified: prev_last_notified },
    );
    proof {
        assert(state.sessions_view() =~= pre.insert(
            key,
            HookSessionView { status: status_word(new_status), last_notified: prev_last_notified },
        ));
    }
    if same {
        return HookAction::Save;
    }
    let (enabled, notify_on) = settings.resolve_for_project(ctx.project_dir.as_str());
    if !enabled || !contains_status(notify_on.as_slice(), new_status) {
        return HookAction::Save;
    }
    if cooldown_active(settings.cooldown_seconds, prev_last_notified, now_ms) {
        return HookAction::Save;
    }
    let viewer_url = if ctx.transport.viewer_url.as_str().is_empty() {
        match &settings.external_url {
            Some(u) => u.clone(),
            None => ctx.transport.viewer_url.clone(),
        }
    } else {
        ctx.transport.viewer_url.clone()
    };
    let link_transport = TransportInfo {
        type_: ctx.transport.type_.clone(),
        host: ctx.transport.host.clone(),
        port: ctx.transport.port.clone(),
        user: ctx.transport.user.clone(),
        tmux_session: ctx.transport.tmux_session.clone(),
        tmux_pane: ctx.transport.tmux_pane.clone(),
        viewer_url,
    };
    proof {
        assert(link_transport == hook_transport(*settings, ctx.transport));
    }
    let click_url = build_connect_url(&link_transport);
    let notification = SessionNotification {
        project_name: ctx.project_name.clone(),
        project_dir: ctx.project_dir.clone(),
        session_id: String::new(),
        old_status,
        new_status,
        message: ctx.waiting_info.clone(),
        priority: NotificationPriority::for_status(new_status),
        title_template: match &settings.title_template {
            Some(t) => Some(t.clone()),
            None => None,
        },
        body_template: match &settings.body_template {
            Some(t) => Some(t.clone()),
            None => None,
        },
        click_url: if click_url.as_str().is_empty() {
            None
        } else {
            Some(click_url)
        },
        transport_type: ctx.transport.type_.clone(),
        tmux_session: ctx.transport.tmux_session.clone(),
        tmux_pane: ctx.transport.tmux_pane.clone(),
    };
    HookAction::Notify { key: session_key, notification }
}

/// Notes that session `key` was notified at `now_ms`.
pub fn mark_notified(state: &mut HookState, key: &str, now_ms: u64)
    requires
        old(state).wf(),
    ensures
        final(state).wf(),
        final(state).sessions_view() == (if old(state).sessions_view().contains_key(key@) {
            old(state).sessions_view().insert(
                key@,
                HookSessionView {
                    last_notified: Some(now_ms),
                    ..old(state).sessions_view()[key@]
                },
            )
        } else {
            old(state).sessions_view()
        }),
{
    let ghost pre = state.sessions_view();
    if let Some(s) = state.sessions.remove(key) {
        let updated = HookSessionState { status: s.status, last_notified: Some(now_ms) };
        state.sessions.insert(key.to_string(), updated);
        proof {
            assert(state.sessions_view() =~= pre.insert(
                key@,
                HookSessionView { last_notified: Some(now_ms), ..pre[key@] },
            ));
        }
    } else {
        proof {
            assert(state.sessions_view() =~= pre);
        }
    }
}

/// The `notification_result` event that the hook logs after a dispatch: the
/// outcome of each channel; none where no channel was tried.
pub fn notification_result_event(
    project_name: &str,
    project_dir: &str,
    record: &NotificationRecord,
    timestamp: String,
) -> (r: Option<EventInfo>)
    ensures
        record.channels@.len() == 0 <==> r is None,
        r matches Some(e) ==> {
            &&& e.event_type == EventType::NotificationResult
            &&& e.timestamp == timestamp
            &&& e.project_name@ == project_name@
            &&& e.project_dir@ == project_dir@
            &&& e.notification_type == NotificationType::Other
            &&& e.matcher@.len() == 0 && e.session_id@.len() == 0 && e.message@.len() == 0
            &&& e.tool_name@.len() == 0 && e.tmux_pane@.len() == 0 && e.npx_path@.len() == 0
            &&& e.tmux_path@.len() == 0 && e.transport_type@.len() == 0
            &&& e.transport_host@.len() == 0 && e.transport_port@.len() == 0
            &&& e.transport_user@.len() == 0
            &&& e.notification_results@.len() == record.channels@.len()
            &&& forall|i: int|
                0 <= i < record.channels@.len() ==> {
                    let c = #[trigger] record.channels@[i];
                    let h = e.notification_results@[i];
                    h.channel == c.name && h.ok == c.success && h.error == c.error
                }
        },
{
    if record.channels.len() == 0 {
        return None;
    }
    let mut results: Vec<HookChannelResult> = Vec::new();
    let mut i: usize = 0;
    while i < record.channels.len()
        invariant
            0 <= i <= record.channels.len(),
            results@.len() == i,
            forall|j: int|
                0 <= j < i ==> {
                    let c = #[trigger] record.channels@[j];
                    let h = results@[j];
                    h.channel == c.name && h.ok == c.success && h.error == c.error
                },
        decreases record.channels.len() - i,
    {
        let c = &record.channels[i];
        results.push(
            HookChannelResult {
                channel: c.name.clone(),
                ok: c.success,
                error: match &c.error {
                    Some(e) => Some(e.clone()),
                    None => None,
                },
            },
        );
        i = i + 1;
    }
    Some(
        EventInfo {
            timestamp,
            event_type: EventType::NotificationResult,
            matcher: String::new(),
            project_name: project_name.to_string(),
            project_dir: project_dir.to_string(),
            session_id: String::new(),
            message: String::new(),
            notification_type: NotificationType::Other,
            tool_name: String::new(),
            tmux_pane: String::new(),
            npx_path: String::new(),
            tmux_path: String::new(),
            transport_type: String::new(),
            transport_host: String::new(),
            transport_port: String::new(),
            transport_user: String::new(),
            notification_results: results,
        },
    )
}

} // verus!

verus! {

/// Whether the hook dispatches notifications for events of this kind.
pub open spec fn is_notify_event(event_type: Seq<char>) -> bool {
    event_type == "notification"@ || event_type == "stop"@ || event_type == "session_start"@
        || event_type == "session_end"@
}

/// Whether the hook dispatches notifications for events of this kind.
pub fn notify_event(event_type: &str) -> (r: bool)
    ensures
        r == is_notify_event(event_type@),
{
    str_eq(event_type, "notification") || str_eq(event_type, "stop") || str_eq(
        event_type,
        "session_start",
    ) || str_eq(event_type, "session_end")
}

/// Whether the hook looks up where `npx` and `tmux` live: at the start of a
/// session and when it stops.
pub open spec fn looks_up_tools(event_type: Seq<char>) -> bool {
    event_type == "session_start"@ || event_type == "stop"@
}

/// Whether the hook looks up where `npx` and `tmux` live.
pub fn wants_tool_paths(event_type: &str) -> (r: bool)
    ensures
        r == looks_up_tools(event_type@),
{
    str_eq(event_type, "session_start") || str_eq(event_type, "stop")
}

/// The notification type that the hook goes by: the payload's, or, for a
/// `notification` event whose payload names none, the matcher.
pub open spec fn effective_notification_type(
    event_type: Seq<char>,
    notification_type: Seq<char>,
    matcher: Seq<char>,
) -> Seq<char> {
    if event_type == "notification"@ && notification_type.len() == 0 {
        matcher
    } else {
        notification_type
    }
}

/// What the hook reads from its arguments, its environment and the JSON it
/// is handed: the event kind (`unknown` where none is given), the matcher,
/// the project directory (`unknown` where none is set), the tmux pane, and
/// the payload's session id, message, notification type and tool name.
#[derive(Clone, Debug)]
pub struct HookInput {
    pub event_type: String,
    pub matcher: String,
    pub project_dir: String,
    pub tmux_pane: String,
    pub session_id: String,
    pub message: String,
    pub notification_type: String,
    pub tool_name: String,
}

impl HookInput {
    /// The notification type that the hook goes by (see
    /// `effective_notification_type`).
    pub fn notification_type_used(&self) -> (r: String)
        ensures
            r@ == effective_notification_type(
                self.event_type@,
                self.notification_type@,
                self.matcher@,
            ),
    {
        if str_eq(self.event_type.as_str(), "notification")
            && self.notification_type.as_str().is_empty() {
            self.matcher.clone()
        } else {
            self.notification_type.clone()
        }
    }
}

/// The event that the hook logs: read from the input, stamped with
/// `timestamp`, with the tool paths that were looked up and no transport.
pub fn hook_event(input: &HookInput, timestamp: String, npx_path: String, tmux_path: String) -> (e:
    EventInfo)
    ensures
        e@ == (EventView {
            timestamp: timestamp@,
            event_type: event_type_from_word(input.event_type@),
            matcher: input.matcher@,
            project_name: base_name(input.project_dir@),
            project_dir: input.project_dir@,
            session_id: input.session_id@,
            message: input.message@,
            notification_type: notification_type_from_word(
                effective_notification_type(
                    input.event_type@,
                    input.notification_type@,
                    input.matcher@,
                ),
            ),
            tool_name: input.tool_name@,
            tmux_pane: input.tmux_pane@,
            npx_path: npx_path@,
            tmux_path: tmux_path@,
            transport_type: Seq::empty(),
            transport_host: Seq::empty(),
            transport_port: Seq::empty(),
            transport_user: Seq::empty(),
            notification_results: Seq::empty(),
        }),
{
    let nt = input.notification_type_used();
    EventInfo {
        timestamp,
        event_type: parse_event_type(input.event_type.as_str()),
        matcher: input.matcher.clone(),
        project_name: basename(input.project_dir.as_str()),
        project_dir: input.project_dir.clone(),
        session_id: input.session_id.clone(),
        message: input.message.clone(),
        notification_type: parse_notification_type(nt.as_str()),
        tool_name: input.tool_name.clone(),
        tmux_pane: input.tmux_pane.clone(),
        npx_path,
        tmux_path,
        transport_type: String::new(),
        transport_host: String::new(),
        transport_port: String::new(),
        transport_user: String::new(),
        notification_results: Vec::new(),
    }
}

/// What a notification says the session waits for: the message, or the
/// tool's name where there is no message.
pub open spec fn waiting_info_of(message: Seq<char>, tool_name: Seq<char>) -> Seq<char> {
    if message.len() > 0 {
        message
    } else {
        tool_name
    }
}

/// The context in which the hook dispatches notifications for the input, or
/// `None` for an event of a kind that notifies nobody.
pub fn notify_context(input: &HookInput, transport: TransportInfo) -> (r: Option<NotifyContext>)
    ensures
        r is Some <==> is_notify_event(input.event_type@),
        r matches Some(c) ==> {
            &&& c.event_type@ == input.event_type@
            &&& c.notification_type@ == effective_notification_type(
                input.event_type@,
                input.notification_type@,
                input.matcher@,
            )
            &&& c.project_dir@ == input.project_dir@
            &&& c.project_name@ == base_name(input.project_dir@)
            &&& c.waiting_info@ == waiting_info_of(input.message@, input.tool_name@)
            &&& c.transport == transport
        },
{
    if !notify_event(input.event_type.as_str()) {
        return None;
    }
    let waiting_info = if !input.message.as_str().is_empty() {
        input.message.clone()
    } else {
        input.tool_name.clone()
    };
    Some(
        NotifyContext {
            event_type: input.event_type.clone(),
            notification_type: input.notification_type_used(),
            project_dir: input.project_dir.clone(),
            project_name: basename(input.project_dir.as_str()),
            waiting_info,
            transport,
        },
    )
}

/// The transport that an `SSH_CONNECTION` value suggests, where no explicit
/// setting overrides it: the kind (`ssh` where the value is set, else
/// `local`), the host (its third word) and the port (its fourth word, else
/// `22`).
pub open spec fn ssh_defaults(conn: Seq<char>) -> (Seq<char>, Seq<char>, Seq<char>) {
    let w = words(conn);
    (
        if conn.len() > 0 {
            "ssh"@
        } else {
            "local"@
        },
        if w.len() > 2 {
            w[2]
        } else {
            Seq::empty()
        },
        if w.len() > 3 {
            w[3]
        } else {
            "22"@
        },
    )
}

/// The transport that an `SSH_CONNECTION` value suggests (see
/// `ssh_defaults`).
pub fn ssh_transport_defaults(conn: &str) -> (r: (String, String, String))
    ensures
        (r.0@, r.1@, r.2@) == ssh_defaults(conn@),
{
    let w = split_whitespace(conn);
    proof {
        assert(w@.map_values(|x: String| x@).len() == w@.len());
    }
    let kind = if conn.is_empty() {
        "local".to_string()
    } else {
        "ssh".to_string()
    };
    let host = if w.len() > 2 {
        proof {
            assert(w@.map_values(|x: String| x@)[2] == w@[2]@);
        }
        w[2].clone()
    } else {
        String::new()
    };
    let port = if w.len() > 3 {
        proof {
            assert(w@.map_values(|x: String| x@)[3] == w@[3]@);
        }
        w[3].clone()
    } else {
        "22".to_string()
    };
    (kind, host, port)
}

} // verus!

verus! {

/// An event repeated for the same session calls for no second notification:
/// after the hook has handled an event, the same event is due no
/// notification, whenever it comes.
pub proof fn law_hook_repeat_no_notification(
    settings: NotificationSettings,
    ctx: NotifyContext,
    pre: Map<Seq<char>, HookSessionView>,
    now: u64,
)
    ensures
        !hook_notification_due(settings, ctx, hook_sessions_after(settings, ctx, pre), now),
{
    let key = hook_session_key(ctx.project_dir@, ctx.project_name@);
    let after = hook_sessions_after(settings, ctx, pre);
    if !hook_ignores(settings, ctx) {
        let st = event_status(ctx.event_type@, ctx.notification_type@);
        if st != Some(None::<SessionStatus>) {
            assert(lookup(after, key) == Some(after[key]));
        }
    }
}

/// The hook keeps the cooldown: once it has notified a session at `now1` and
/// noted the time, no event of that session calls for a notification before
/// the cooldown has run.
pub proof fn law_hook_cooldown(
    settings: NotificationSettings,
    first: NotifyContext,
    second: NotifyContext,
    pre: Map<Seq<char>, HookSessionView>,
    now1: u64,
    now2: u64,
    cd: u64,
)
    requires
        settings.cooldown_seconds == Some(cd),
        hook_notification_due(settings, first, pre, now1),
        hook_session_key(first.project_dir@, first.project_name@) == hook_session_key(
            second.project_dir@,
            second.project_name@,
        ),
        now1 <= now2,
        (now2 - now1) / 1000 < cd,
    ensures
        ({
            let key = hook_session_key(first.project_dir@, first.project_name@);
            let after = hook_sessions_after(settings, first, pre);
            let noted = after.insert(
                key,
                HookSessionView { last_notified: Some(now1), ..after[key] },
            );
            !hook_notification_due(settings, second, noted, now2)
        }),
{
    let key = hook_session_key(first.project_dir@, first.project_name@);
    let after = hook_sessions_after(settings, first, pre);
    let noted = after.insert(key, HookSessionView { last_notified: Some(now1), ..after[key] });
    assert(lookup(noted, key) == Some(noted[key]));
    assert(last_notified_of(lookup(noted, key)) == Some(now1));
    assert(in_cooldown(settings.cooldown_seconds, Some(now1), now2));
}

} // verus!

verus! {

/// The hook and the app apply the same rules: where the hook remembers for a
/// session the status that the app had for it (or neither knows the
/// session), notifications are on with a channel, and no cooldown runs, the
/// hook notifies for an event exactly when the app's detection counts the
/// session's new status as a transition that calls for a notification.
pub proof fn law_hook_matches_app_rules(
    settings: NotificationSettings,
    ctx: NotifyContext,
    pre: Map<Seq<char>, HookSessionView>,
    now: u64,
    old: Map<Seq<char>, SessionStatus>,
    s: SessionInfo,
)
    requires
        settings.enabled,
        settings.channels@.len() > 0,
        event_status(ctx.event_type@, ctx.notification_type@) == Some(Some(s.status)),
        s.project_dir@ == ctx.project_dir@,
        ({
            let key = hook_session_key(ctx.project_dir@, ctx.project_name@);
            &&& pre.contains_key(key) <==> old.contains_key(key)
            &&& pre.contains_key(key) ==> pre[key].status == status_word(old[key])
            &&& !in_cooldown(settings.cooldown_seconds, last_notified_of(lookup(pre, key)), now)
        }),
    ensures
        hook_notification_due(settings, ctx, pre, now) == is_rule_transition(
            settings,
            old,
            hook_session_key(ctx.project_dir@, ctx.project_name@),
            s,
        ),
{
    let key = hook_session_key(ctx.project_dir@, ctx.project_name@);
    if old.contains_key(key) {
        law_status_word_roundtrip(old[key]);
        law_status_word_roundtrip(s.status);
        assert(lookup(pre, key) == Some(pre[key]));
    }
}

} // verus!

verus! {

/// Storing what an event says of a session never changes when the session
/// was last notified: every session that the hook remembers before and after
/// the event keeps its time of last notification.
pub proof fn law_hook_keeps_last_notified(
    settings: NotificationSettings,
    ctx: NotifyContext,
    pre: Map<Seq<char>, HookSessionView>,
    k: Seq<char>,
)
    requires
        pre.contains_key(k),
        hook_sessions_after(settings, ctx, pre).contains_key(k),
    ensures
        hook_sessions_after(settings, ctx, pre)[k].last_notified == pre[k].last_notified,
{
    let key = hook_session_key(ctx.project_dir@, ctx.project_name@);
    if k == key && !hook_ignores(settings, ctx) {
        assert(lookup(pre, key) == Some(pre[key]));
    }
}

/// What the hook remembers after handling a series of events, in order.
pub open spec fn hook_sessions_after_all(
    settings: NotificationSettings,
    events: Seq<NotifyContext>,
    pre: Map<Seq<char>, HookSessionView>,
) -> Map<Seq<char>, HookSessionView>
    decreases events.len(),
{
    if events.len() == 0 {
        pre
    } else {
        hook_sessions_after(
            settings,
            events.last(),
            hook_sessions_after_all(settings, events.drop_last(), pre),
        )
    }
}

/// Events of a session that do not end it keep its time of last
/// notification, however many there are.
proof fn lemma_series_keeps_last_notified(
    settings: NotificationSettings,
    events: Seq<NotifyContext>,
    pre: Map<Seq<char>, HookSessionView>,
    key: Seq<char>,
    t: u64,
)
    requires
        pre.contains_key(key),
        pre[key].last_notified == Some(t),
        forall|i: int|
            0 <= i < events.len() ==> hook_session_key(
                #[trigger] events[i].project_dir@,
                events[i].project_name@,
            ) == key && event_status(events[i].event_type@, events[i].notification_type@)
                != Some(None::<SessionStatus>),
    ensures
        hook_sessions_after_all(settings, events, pre).contains_key(key),
        hook_sessions_after_all(settings, events, pre)[key].last_notified == Some(t),
    decreases events.len(),
{
    if events.len() > 0 {
        let init = events.drop_last();
        assert forall|i: int| 0 <= i < init.len() implies hook_session_key(
            #[trigger] init[i].project_dir@,
            init[i].project_name@,
        ) == key && event_status(init[i].event_type@, init[i].notification_type@) != Some(
            None::<SessionStatus>,
        ) by {
            assert(init[i] == events[i]);
        }
        lemma_series_keeps_last_notified(settings, init, pre, key, t);
        let mid = hook_sessions_after_all(settings, init, pre);
        let e = events.last();
        assert(hook_session_key(e.project_dir@, e.project_name@) == key);
        assert(lookup(mid, key) == Some(mid[key]));
    }
}

/// The hook keeps the cooldown across events: once it has notified a session
/// at `now1` and noted the time, it gives no notification for that session
/// before the cooldown has run, however many events of the session (none of
/// them ending it) it handles in between.
pub proof fn law_hook_cooldown_across_events(
    settings: NotificationSettings,
    first: NotifyContext,
    between: Seq<NotifyContext>,
    last: NotifyContext,
    pre: Map<Seq<char>, HookSessionView>,
    now1: u64,
    now2: u64,
    cd: u64,
)
    requires
        settings.cooldown_seconds == Some(cd),
        hook_notification_due(settings, first, pre, now1),
        forall|i: int|
            0 <= i < between.len() ==> hook_session_key(
                #[trigger] between[i].project_dir@,
                between[i].project_name@,
            ) == hook_session_key(first.project_dir@, first.project_name@) && event_status(
                between[i].event_type@,
                between[i].notification_type@,
            ) != Some(None::<SessionStatus>),
        hook_session_key(last.project_dir@, last.project_name@) == hook_session_key(
            first.project_dir@,
            first.project_name@,
        ),
        now1 <= now2,
        (now2 - now1) / 1000 < cd,
    ensures
        ({
            let key = hook_session_key(first.project_dir@, first.project_name@);
            let after = hook_sessions_after(settings, first, pre);
            let noted = after.insert(
                key,
                HookSessionView { last_notified: Some(now1), ..after[key] },
            );
            !hook_notification_due(
                settings,
                last,
                hook_sessions_after_all(settings, between, noted),
                now2,
            )
        }),
{
    let key = hook_session_key(first.project_dir@, first.project_name@);
    let after = hook_sessions_after(settings, first, pre);
    let noted = after.insert(key, HookSessionView { last_notified: Some(now1), ..after[key] });
    lemma_series_keeps_last_notified(settings, between, noted, key, now1);
    let m = hook_sessions_after_all(settings, between, noted);
    assert(lookup(m, key) == Some(m[key]));
    assert(last_notified_of(lookup(m, key)) == Some(now1));
    assert(in_cooldown(settings.cooldown_seconds, Some(now1), now2));
}

} // verus!

verus! {

proof fn lemma_concat_affixes(a: Seq<char>, b: Seq<char>, c: Seq<char>)
    ensures
        starts_with(a + b + c, a),
        ends_with(a + b + c, c),
{
    assert((a + b + c).take(a.len() as int) =~= a);
    assert((a + b + c).skip((a + b + c).len() - c.len()) =~= c);
}

/// A remote session's connect URL, where no viewer URL is set: `ssh://` for
/// SSH and Tailscale, `mosh://` for mosh; it names the user and host, and
/// where a tmux session is known it ends with the command that attaches to
/// it.
pub proof fn law_connect_url_reaches_the_session(t: TransportInfo)
    requires
        t.viewer_url@.len() == 0,
        t.host@.len() > 0,
        t.type_@ == "ssh"@ || t.type_@ == "tailscale"@ || t.type_@ == "mosh"@,
    ensures
        (t.type_@ == "ssh"@ || t.type_@ == "tailscale"@) ==> starts_with(connect_url(t), "ssh://"@),
        t.type_@ == "mosh"@ ==> starts_with(connect_url(t), "mosh://"@),
        t.tmux_session@.len() > 0 ==> ends_with(
            connect_url(t),
            ";tmux attach -t "@ + t.tmux_session@,
        ),
        t.user@.len() > 0 ==> contains_seq(connect_url(t), t.user@ + "@"@ + t.host@),
        contains_seq(connect_url(t), t.host@),
{
    reveal_strlit("ssh");
    reveal_strlit("tailscale");
    reveal_strlit("mosh");
    reveal_strlit("local");
    reveal_strlit("ssh://");
    reveal_strlit("mosh://");
    reveal_strlit("@");
    assert("@"@.len() == 1);
    assert("ssh"@.len() == 3 && "tailscale"@.len() == 9 && "mosh"@.len() == 4 && "local"@.len() == 5);
    assert(t.type_@ != "local"@);
    let user = if t.user@.len() > 0 {
        t.user@ + "@"@
    } else {
        Seq::empty()
    };
    let tmux_cmd = if t.tmux_session@.len() > 0 {
        ";tmux attach -t "@ + t.tmux_session@
    } else {
        Seq::empty()
    };
    let url = connect_url(t);
    if t.type_@ == "ssh"@ || t.type_@ == "tailscale"@ {
        let port = if t.port@.len() > 0 && t.port@ != "22"@ {
            ":"@ + t.port@
        } else {
            Seq::empty()
        };
        assert(url == "ssh://"@ + (user + t.host@ + port) + tmux_cmd) by {
            assert("ssh://"@ + user + t.host@ + port + tmux_cmd =~= "ssh://"@ + (user + t.host@
                + port) + tmux_cmd);
        }
        lemma_concat_affixes("ssh://"@, user + t.host@ + port, tmux_cmd);
        if t.user@.len() > 0 {
            let p = t.user@ + "@"@ + t.host@;
            assert(url.subrange(6, 6 + p.len() as int) =~= p);
            let h: int = 6 + t.user@.len() as int + 1;
            assert(url.subrange(h, h + t.host@.len() as int) =~= t.host@);
        } else {
            assert(url.subrange(6, 6 + t.host@.len() as int) =~= t.host@);
        }
    } else {
        assert(url == "mosh://"@ + (user + t.host@) + tmux_cmd) by {
            assert("mosh://"@ + user + t.host@ + tmux_cmd =~= "mosh://"@ + (user + t.host@) + tmux_cmd);
        }
        lemma_concat_affixes("mosh://"@, user + t.host@, tmux_cmd);
        if t.user@.len() > 0 {
            let p = t.user@ + "@"@ + t.host@;
            assert(url.subrange(7, 7 + p.len() as int) =~= p);
            let h: int = 7 + t.user@.len() as int + 1;
            assert(url.subrange(h, h + t.host@.len() as int) =~= t.host@);
        } else {
            assert(url.subrange(7, 7 + t.host@.len() as int) =~= t.host@);
        }
    }
}

} // verus!
