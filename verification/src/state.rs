use vstd::prelude::*;

use crate::text::{parse_unsigned, parse_unsigned_exec, str_eq};
use crate::strmap::StrMap;
use crate::notifications::{is_default_settings, NotificationSettings};

verus! {

/// The kind of a hook event.
#[derive(Clone, Copy, Debug, PartialEq, Eq, Structural)]
pub enum EventType {
    SessionStart,
    SessionEnd,
    Notification,
    Stop,
    PostToolUse,
    UserPromptSubmit,
    NotificationResult,
    Unknown,
}

/// The kind of a `Notification` event.
#[derive(Clone, Copy, Debug, PartialEq, Eq, Structural)]
pub enum NotificationType {
    PermissionPrompt,
    IdlePrompt,
    Other,
}

impl Default for NotificationType {
    fn default() -> (r: Self)
        ensures
            r == NotificationType::Other,
    {
        NotificationType::Other
    }
}

/// The state a session is in.
#[derive(Clone, Copy, Debug, PartialEq, Eq, Structural)]
pub enum SessionStatus {
    Active,
    WaitingPermission,
    WaitingInput,
    Completed,
}

/// The emoji that stands for a status.
pub open spec fn status_emoji(s: SessionStatus) -> Seq<char> {
    match s {
        SessionStatus::Active => "🟢"@,
        SessionStatus::WaitingPermission => "🔐"@,
        SessionStatus::WaitingInput => "⏳"@,
        SessionStatus::Completed => "✅"@,
    }
}

/// Whether a session in this status waits for the user.
pub open spec fn is_waiting(s: SessionStatus) -> bool {
    s == SessionStatus::WaitingPermission || s == SessionStatus::WaitingInput
}

impl SessionStatus {
    pub fn emoji(&self) -> (r: &str)
        ensures
            r@ == status_emoji(*self),
    {
        match self {
            SessionStatus::Active => "🟢",
            SessionStatus::WaitingPermission => "🔐",
            SessionStatus::WaitingInput => "⏳",
            SessionStatus::Completed => "✅",
        }
    }
}

/// What the hook reported for one notification channel.
#[derive(Clone, Debug)]
pub struct HookChannelResult {
    pub channel: String,
    pub ok: bool,
    pub error: Option<String>,
}

impl HookChannelResult {
    /// A field-by-field copy.
    pub fn duplicate(&self) -> (r: Self)
        ensures
            r == *self,
    {
        HookChannelResult {
            channel: self.channel.clone(),
            ok: self.ok,
            error: match &self.error {
                Some(e) => Some(e.clone()),
                None => None,
            },
        }
    }
}

/// Copies a list of channel results.
pub fn duplicate_results(v: &Vec<HookChannelResult>) -> (r: Vec<HookChannelResult>)
    ensures
        r@ == v@,
{
    let mut r: Vec<HookChannelResult> = Vec::new();
    let mut i: usize = 0;
    while i < v.len()
        invariant
            0 <= i <= v.len(),
            r@ == v@.take(i as int),
        decreases v.len() - i,
    {
        r.push(v[i].duplicate());
        assert(v@.take(i + 1) == v@.take(i as int).push(v@[i as int]));
        i = i + 1;
    }
    assert(v@.take(v.len() as int) =~= v@);
    r
}

/// How a session can be reached.
#[derive(Clone, Debug)]
pub enum Transport {
    Local {},
    Ssh { host: String, port: u16, user: Option<String>, identity_file: Option<String> },
    Mosh { host: String, port: u16, user: Option<String> },
    Tailscale { host: String, user: Option<String>, identity_file: Option<String> },
}

/// The model of a `Transport`: its strings taken as characters.
pub enum TransportView {
    Local,
    Ssh {
        host: Seq<char>,
        port: u16,
        user: Option<Seq<char>>,
        identity_file: Option<Seq<char>>,
    },
    Mosh { host: Seq<char>, port: u16, user: Option<Seq<char>> },
    Tailscale { host: Seq<char>, user: Option<Seq<char>>, identity_file: Option<Seq<char>> },
}

/// The characters of an optional string.
pub open spec fn opt_view(o: Option<String>) -> Option<Seq<char>> {
    match o {
        Some(s) => Some(s@),
        None => None,
    }
}

impl View for Transport {
    type V = TransportView;

    open spec fn view(&self) -> TransportView {
        match self {
            Transport::Local {  } => TransportView::Local,
            Transport::Ssh { host, port, user, identity_file } => TransportView::Ssh {
                host: host@,
                port: *port,
                user: opt_view(*user),
                identity_file: opt_view(*identity_file),
            },
            Transport::Mosh { host, port, user } => TransportView::Mosh {
                host: host@,
                port: *port,
                user: opt_view(*user),
            },
            Transport::Tailscale { host, user, identity_file } => TransportView::Tailscale {
                host: host@,
                user: opt_view(*user),
                identity_file: opt_view(*identity_file),
            },
        }
    }
}

/// Copies an optional string.
pub fn duplicate_opt(o: &Option<String>) -> (r: Option<String>)
    ensures
        r == *o,
{
    match o {
        Some(s) => Some(s.clone()),
        None => None,
    }
}

impl Transport {
    /// A field-by-field copy.
    pub fn duplicate(&self) -> (r: Self)
        ensures
            r@ == self@,
    {
        match self {
            Transport::Local {  } => Transport::Local {  },
            Transport::Ssh { host, port, user, identity_file } => Transport::Ssh {
                host: host.clone(),
                port: *port,
                user: duplicate_opt(user),
                identity_file: duplicate_opt(identity_file),
            },
            Transport::Mosh { host, port, user } => Transport::Mosh {
                host: host.clone(),
                port: *port,
                user: duplicate_opt(user),
            },
            Transport::Tailscale { host, user, identity_file } => Transport::Tailscale {
                host: host.clone(),
                user: duplicate_opt(user),
                identity_file: duplicate_opt(identity_file),
            },
        }
    }

    /// The name of the transport's kind: `local`, `ssh`, `mosh` or
    /// `tailscale`.
    pub fn kind_name(&self) -> (r: String)
        ensures
            r@ == transport_name(self@),
    {
        match self {
            Transport::Local {  } => "local".to_string(),
            Transport::Ssh { .. } => "ssh".to_string(),
            Transport::Mosh { .. } => "mosh".to_string(),
            Transport::Tailscale { .. } => "tailscale".to_string(),
        }
    }

    /// Whether this is the local transport.
    pub fn is_local(&self) -> (b: bool)
        ensures
            b == (self@ is Local),
    {
        match self {
            Transport::Local {  } => true,
            _ => false,
        }
    }
}

/// The name of a transport's kind, as the hook's `transport_type` names it.
pub open spec fn transport_name(t: TransportView) -> Seq<char> {
    match t {
        TransportView::Local => "local"@,
        TransportView::Ssh { .. } => "ssh"@,
        TransportView::Mosh { .. } => "mosh"@,
        TransportView::Tailscale { .. } => "tailscale"@,
    }
}

/// One event that the hook reports.
#[derive(Clone, Debug)]
pub struct EventInfo {
    pub timestamp: String,
    pub event_type: EventType,
    pub matcher: String,
    pub project_name: String,
    pub project_dir: String,
    pub session_id: String,
    pub message: String,
    pub notification_type: NotificationType,
    pub tool_name: String,
    pub tmux_pane: String,
    pub npx_path: String,
    pub tmux_path: String,
    pub transport_type: String,
    pub transport_host: String,
    pub transport_port: String,
    pub transport_user: String,
    pub notification_results: Vec<HookChannelResult>,
}

/// The model of an `EventInfo`: its strings taken as characters.
pub struct EventView {
    pub timestamp: Seq<char>,
    pub event_type: EventType,
    pub matcher: Seq<char>,
    pub project_name: Seq<char>,
    pub project_dir: Seq<char>,
    pub session_id: Seq<char>,
    pub message: Seq<char>,
    pub notification_type: NotificationType,
    pub tool_name: Seq<char>,
    pub tmux_pane: Seq<char>,
    pub npx_path: Seq<char>,
    pub tmux_path: Seq<char>,
    pub transport_type: Seq<char>,
    pub transport_host: Seq<char>,
    pub transport_port: Seq<char>,
    pub transport_user: Seq<char>,
    pub notification_results: Seq<HookChannelResult>,
}

impl View for EventInfo {
    type V = EventView;

    open spec fn view(&self) -> EventView {
        EventView {
            timestamp: self.timestamp@,
            event_type: self.event_type,
            matcher: self.matcher@,
            project_name: self.project_name@,
            project_dir: self.project_dir@,
            session_id: self.session_id@,
            message: self.message@,
            notification_type: self.notification_type,
            tool_name: self.tool_name@,
            tmux_pane: self.tmux_pane@,
            npx_path: self.npx_path@,
            tmux_path: self.tmux_path@,
            transport_type: self.transport_type@,
            transport_host: self.transport_host@,
            transport_port: self.transport_port@,
            transport_user: self.transport_user@,
            notification_results: self.notification_results@,
        }
    }
}

/// The port that a transport's port field names: the number it spells, or 22
/// where it is empty or no port number.
pub open spec fn port_of(s: Seq<char>) -> u16 {
    match parse_unsigned(s, 65535) {
        Some(p) => p as u16,
        None => 22,
    }
}

/// An optional name: `None` where it is empty.
pub open spec fn nonempty(s: Seq<char>) -> Option<Seq<char>> {
    if s.len() == 0 {
        None
    } else {
        Some(s)
    }
}

/// The transport that an event's transport fields describe: local where the
/// host is empty or the type is none of `ssh`, `mosh` and `tailscale`.
pub open spec fn transport_of(e: EventView) -> TransportView {
    let t = e.transport_type;
    let host = e.transport_host;
    let user = nonempty(e.transport_user);
    if host.len() == 0 {
        TransportView::Local
    } else if t == "ssh"@ {
        TransportView::Ssh { host, port: port_of(e.transport_port), user, identity_file: None }
    } else if t == "mosh"@ {
        TransportView::Mosh { host, port: port_of(e.transport_port), user }
    } else if t == "tailscale"@ {
        TransportView::Tailscale { host, user, identity_file: None }
    } else {
        TransportView::Local
    }
}

/// `Some(copy of s)` where `s` is not empty.
fn nonempty_string(s: &String) -> (r: Option<String>)
    ensures
        opt_view(r) == nonempty(s@),
{
    if s.as_str().is_empty() {
        None
    } else {
        Some(s.clone())
    }
}

impl EventInfo {
    /// The transport that this event's transport fields describe.
    pub fn to_transport(&self) -> (t: Transport)
        ensures
            t@ == transport_of(self@),
    {
        if self.transport_host.as_str().is_empty() {
            return Transport::Local {  };
        }
        let t = self.transport_type.as_str();
        let port: u16 = match parse_unsigned_exec(self.transport_port.as_str(), 65535) {
            Some(p) => p as u16,
            None => 22,
        };
        if str_eq(t, "ssh") {
            Transport::Ssh {
                host: self.transport_host.clone(),
                port,
                user: nonempty_string(&self.transport_user),
                identity_file: None,
            }
        } else if str_eq(t, "mosh") {
            Transport::Mosh {
                host: self.transport_host.clone(),
                port,
                user: nonempty_string(&self.transport_user),
            }
        } else if str_eq(t, "tailscale") {
            Transport::Tailscale {
                host: self.transport_host.clone(),
                user: nonempty_string(&self.transport_user),
                identity_file: None,
            }
        } else {
            Transport::Local {  }
        }
    }

    /// A field-by-field copy.
    pub fn duplicate(&self) -> (r: Self)
        ensures
            r@ == self@,
    {
        EventInfo {
            timestamp: self.timestamp.clone(),
            event_type: self.event_type,
            matcher: self.matcher.clone(),
            project_name: self.project_name.clone(),
            project_dir: self.project_dir.clone(),
            session_id: self.session_id.clone(),
            message: self.message.clone(),
            notification_type: self.notification_type,
            tool_name: self.tool_name.clone(),
            tmux_pane: self.tmux_pane.clone(),
            npx_path: self.npx_path.clone(),
            tmux_path: self.tmux_path.clone(),
            transport_type: self.transport_type.clone(),
            transport_host: self.transport_host.clone(),
            transport_port: self.transport_port.clone(),
            transport_user: self.transport_user.clone(),
            notification_results: duplicate_results(&self.notification_results),
        }
    }
}

/// One session as the dashboard shows it.
#[derive(Clone, Debug)]
pub struct SessionInfo {
    pub project_name: String,
    pub project_dir: String,
    pub status: SessionStatus,
    pub last_event: String,
    pub waiting_for: String,
    pub tmux_pane: String,
    pub transport: Transport,
}

/// The model of a `SessionInfo`.
pub struct SessionView {
    pub project_name: Seq<char>,
    pub project_dir: Seq<char>,
    pub status: SessionStatus,
    pub last_event: Seq<char>,
    pub waiting_for: Seq<char>,
    pub tmux_pane: Seq<char>,
    pub transport: TransportView,
}

impl View for SessionInfo {
    type V = SessionView;

    open spec fn view(&self) -> SessionView {
        SessionView {
            project_name: self.project_name@,
            project_dir: self.project_dir@,
            status: self.status,
            last_event: self.last_event@,
            waiting_for: self.waiting_for@,
            tmux_pane: self.tmux_pane@,
            transport: self.transport@,
        }
    }
}

impl SessionInfo {
    /// A field-by-field copy.
    pub fn duplicate(&self) -> (r: Self)
        ensures
            r@ == self@,
    {
        SessionInfo {
            project_name: self.project_name.clone(),
            project_dir: self.project_dir.clone(),
            status: self.status,
            last_event: self.last_event.clone(),
            waiting_for: self.waiting_for.clone(),
            tmux_pane: self.tmux_pane.clone(),
            transport: self.transport.duplicate(),
        }
    }
}

/// What the dashboard shows: the sessions, most recent first, and the recent events.
#[derive(Clone, Debug)]
pub struct DashboardData {
    pub sessions: Vec<SessionInfo>,
    pub events: Vec<EventInfo>,
}

/// The last known paths of `npx` and `tmux`.
#[derive(Clone, Debug)]
pub struct CachedPaths {
    pub npx_path: String,
    pub tmux_path: String,
}

/// The paths after an event: each one that the event names replaces the old one.
pub open spec fn paths_after(npx: Seq<char>, tmux: Seq<char>, e: EventView) -> (Seq<char>, Seq<char>) {
    (
        if e.npx_path.len() > 0 { e.npx_path } else { npx },
        if e.tmux_path.len() > 0 { e.tmux_path } else { tmux },
    )
}

impl Default for CachedPaths {
    fn default() -> (r: Self)
        ensures
            r.npx_path@ == Seq::<char>::empty(),
            r.tmux_path@ == Seq::<char>::empty(),
    {
        CachedPaths { npx_path: String::new(), tmux_path: String::new() }
    }
}

impl CachedPaths {
    pub fn update_from_event(&mut self, event: &EventInfo)
        ensures
            (final(self).npx_path@, final(self).tmux_path@) == paths_after(
                old(self).npx_path@,
                old(self).tmux_path@,
                event@,
            ),
    {
        if !event.npx_path.as_str().is_empty() {
            self.npx_path = event.npx_path.clone();
        }
        if !event.tmux_path.as_str().is_empty() {
            self.tmux_path = event.tmux_path.clone();
        }
    }
}

} // verus!

verus! {

/// A session as it stands after an event of one of the kinds that set a
/// status: an existing session keeps its project name and directory and takes
/// the event's time, the status and what it waits for, and the event's tmux
/// pane and transport where the event names them; a new session takes
/// everything from the event.
pub open spec fn upserted(
    old: Option<SessionView>,
    e: EventView,
    status: SessionStatus,
    waiting_for: Seq<char>,
) -> SessionView {
    let t = transport_of(e);
    match old {
        Some(s) => SessionView {
            project_name: s.project_name,
            project_dir: s.project_dir,
            status,
            last_event: e.timestamp,
            waiting_for,
            tmux_pane: if e.tmux_pane.len() > 0 {
                e.tmux_pane
            } else {
                s.tmux_pane
            },
            transport: if t is Local {
                s.transport
            } else {
                t
            },
        },
        None => SessionView {
            project_name: e.project_name,
            project_dir: e.project_dir,
            status,
            last_event: e.timestamp,
            waiting_for,
            tmux_pane: e.tmux_pane,
            transport: t,
        },
    }
}

/// The session stored under `k`, if any.
pub open spec fn lookup<V>(m: Map<Seq<char>, V>, k: Seq<char>) -> Option<V> {
    if m.contains_key(k) {
        Some(m[k])
    } else {
        None
    }
}

/// The state of the dashboard: the sessions by key, the latest events, the
/// cached tool paths, the notification settings, and the channels that the
/// hook reported as served, by session key.
#[derive(Clone, Debug)]
pub struct AppState {
    pub sessions: StrMap<SessionInfo>,
    pub recent_events: Vec<EventInfo>,
    pub cached_paths: CachedPaths,
    pub notification_settings: NotificationSettings,
    pub hook_notified_channels: StrMap<Vec<HookChannelResult>>,
}

impl AppState {
    pub open spec fn wf(&self) -> bool {
        self.sessions.wf() && self.hook_notified_channels.wf()
    }

    /// The sessions, each by its model.
    pub open spec fn sessions_view(&self) -> Map<Seq<char>, SessionView> {
        self.sessions@.map_values(|s: SessionInfo| s@)
    }

    /// The channels that the hook served, by session key.
    pub open spec fn hook_view(&self) -> Map<Seq<char>, Seq<HookChannelResult>> {
        self.hook_notified_channels@.map_values(|v: Vec<HookChannelResult>| v@)
    }

    /// The latest events, oldest first, each by its model.
    pub open spec fn recent_view(&self) -> Seq<EventView> {
        self.recent_events@.map_values(|e: EventInfo| e@)
    }

    /// An empty state with default notification settings.
    pub fn new() -> (s: Self)
        ensures
            s.wf(),
            s.sessions_view() == Map::<Seq<char>, SessionView>::empty(),
            s.hook_view() == Map::<Seq<char>, Seq<HookChannelResult>>::empty(),
            s.recent_view() == Seq::<EventView>::empty(),
            s.cached_paths.npx_path@ == Seq::<char>::empty(),
            s.cached_paths.tmux_path@ == Seq::<char>::empty(),
            is_default_settings(s.notification_settings),
    {
        let s = AppState {
            sessions: StrMap::new(),
            recent_events: Vec::new(),
            cached_paths: CachedPaths::default(),
            notification_settings: NotificationSettings::default(),
            hook_notified_channels: StrMap::new(),
        };
        proof {
            assert(s.sessions_view() =~= Map::<Seq<char>, SessionView>::empty());
            assert(s.hook_view() =~= Map::<Seq<char>, Seq<HookChannelResult>>::empty());
            assert(s.recent_view() =~= Seq::<EventView>::empty());
        }
        s
    }

    /// Inserts or updates the session under `key` with the given status and
    /// what it waits for; a change of status forgets which channels the hook
    /// served for it.
    pub fn upsert_session(
        &mut self,
        key: String,
        event: &EventInfo,
        status: SessionStatus,
        waiting_for: String,
    )
        requires
            old(self).wf(),
        ensures
            final(self).wf(),
            final(self).sessions_view() == old(self).sessions_view().insert(
                key@,
                upserted(lookup(old(self).sessions_view(), key@), event@, status, waiting_for@),
            ),
            final(self).hook_view() == (if lookup(old(self).sessions_view(), key@) matches Some(
                s,
            ) && s.status == status {
                old(self).hook_view()
            } else {
                old(self).hook_view().remove(key@)
            }),
            final(self).recent_events == old(self).recent_events,
            final(self).cached_paths == old(self).cached_paths,
            final(self).notification_settings == old(self).notification_settings,
    {
        let ghost old_sessions = self.sessions_view();
        let ghost old_hook = self.hook_view();
        let transport = event.to_transport();
        let previous = self.sessions.remove(key.as_str());
        let same_status = match &previous {
            Some(s) => s.status == status,
            None => false,
        };
        if !same_status {
            self.hook_notified_channels.remove(key.as_str());
        }
        let session = match previous {
            Some(s) => {
                let tmux_pane = if !event.tmux_pane.as_str().is_empty() {
                    event.tmux_pane.clone()
                } else {
                    s.tmux_pane
                };
                let transport = if !transport.is_local() {
                    transport
                } else {
                    s.transport
                };
                SessionInfo {
                    project_name: s.project_name,
                    project_dir: s.project_dir,
                    status,
                    last_event: event.timestamp.clone(),
                    waiting_for,
                    tmux_pane,
                    transport,
                }
            },
            None => SessionInfo {
                project_name: event.project_name.clone(),
                project_dir: event.project_dir.clone(),
                status,
                last_event: event.timestamp.clone(),
                waiting_for,
                tmux_pane: event.tmux_pane.clone(),
                transport,
            },
        };
        let ghost new_view = session@;
        self.sessions.insert(key, session);
        proof {
            assert(self.sessions_view() =~= old_sessions.insert(key@, new_view));
            assert(self.hook_view() =~= (if lookup(old_sessions, key@) matches Some(s) && s.status
                == status {
                old_hook
            } else {
                old_hook.remove(key@)
            }));
        }
    }

    /// How many sessions wait for permission or input.
    pub fn waiting_session_count(&self) -> (n: usize)
        requires
            self.wf(),
        ensures
            n == count_waiting(self.sessions.values_seq()),
    {
        let ghost vals = self.sessions.values_seq();
        proof {
            self.sessions.lemma_view();
        }
        let len = self.sessions.len();
        let mut n: usize = 0;
        let mut i: usize = 0;
        while i < len
            invariant
                vals == self.sessions.values_seq(),
                len == vals.len(),
                len == self.sessions.keys_seq().len(),
                self.sessions.wf(),
                0 <= i <= len,
                n == count_waiting(vals.take(i as int)),
                n <= i,
            decreases len - i,
        {
            let s = self.sessions.value_at(i);
            proof {
                assert(vals.take(i + 1).drop_last() =~= vals.take(i as int));
            }
            if s.status == SessionStatus::WaitingPermission || s.status
                == SessionStatus::WaitingInput {
                n = n + 1;
            }
            i = i + 1;
        }
        proof {
            assert(vals.take(len as int) =~= vals);
        }
        n
    }

    /// The transport of the session stored under `project_dir`, or the local
    /// transport where there is none.
    pub fn get_transport(&self, project_dir: Option<&str>) -> (t: Transport)
        requires
            self.wf(),
        ensures
            t@ == (match project_dir {
                Some(d) => if self.sessions_view().contains_key(d@) {
                    self.sessions_view()[d@].transport
                } else {
                    TransportView::Local
                },
                None => TransportView::Local,
            }),
    {
        if let Some(dir) = project_dir {
            if let Some(session) = self.sessions.get(dir) {
                return session.transport.duplicate();
            }
        }
        Transport::Local {  }
    }
}

/// How many of the sessions wait for permission or input.
pub open spec fn count_waiting(s: Seq<SessionInfo>) -> nat
    decreases s.len(),
{
    if s.len() == 0 {
        0
    } else {
        count_waiting(s.drop_last()) + if is_waiting(s.last().status) {
            1nat
        } else {
            0nat
        }
    }
}

impl AppState {
    /// Forgets the session under `key`.
    pub fn remove_session(&mut self, key: &str)
        requires
            old(self).wf(),
        ensures
            final(self).wf(),
            final(self).sessions_view() == old(self).sessions_view().remove(key@),
            final(self).hook_view() == old(self).hook_view(),
            final(self).recent_events == old(self).recent_events,
            final(self).cached_paths == old(self).cached_paths,
            final(self).notification_settings == old(self).notification_settings,
    {
        let ghost pre = self.sessions_view();
        self.sessions.remove(key);
        proof {
            assert(self.sessions_view() =~= pre.remove(key@));
        }
    }

    /// Forgets every session.
    pub fn clear_all_sessions(&mut self)
        requires
            old(self).wf(),
        ensures
            final(self).wf(),
            final(self).sessions_view() == Map::<Seq<char>, SessionView>::empty(),
            final(self).hook_view() == old(self).hook_view(),
            final(self).recent_events == old(self).recent_events,
            final(self).cached_paths == old(self).cached_paths,
            final(self).notification_settings == old(self).notification_settings,
    {
        self.sessions = StrMap::new();
        proof {
            assert(self.sessions_view() =~= Map::<Seq<char>, SessionView>::empty());
        }
    }
}

impl Default for AppState {
    fn default() -> (s: Self)
        ensures
            s.wf(),
            s.sessions_view() == Map::<Seq<char>, SessionView>::empty(),
            s.hook_view() == Map::<Seq<char>, Seq<HookChannelResult>>::empty(),
            s.recent_view() == Seq::<EventView>::empty(),
    {
        AppState::new()
    }
}

} // verus!
