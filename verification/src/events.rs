use vstd::prelude::*;

use crate::state::{
    duplicate_results, lookup, paths_after, port_of, transport_of, upserted, TransportView, AppState, EventInfo,
    EventType, EventView, HookChannelResult, NotificationType, SessionInfo, SessionStatus,
    SessionView,
};

verus! {

/// How many events the dashboard keeps.
pub const MAX_RECENT_EVENTS: usize = 50;

/// The key of an event's session: its project directory, or where that is
/// empty its project name.
pub open spec fn key_of(e: EventView) -> Seq<char> {
    if e.project_dir.len() == 0 {
        e.project_name
    } else {
        e.project_dir
    }
}

/// The status that a notification of this kind puts a session in.
pub open spec fn notification_status(t: NotificationType) -> SessionStatus {
    match t {
        NotificationType::PermissionPrompt => SessionStatus::WaitingPermission,
        NotificationType::IdlePrompt => SessionStatus::WaitingInput,
        NotificationType::Other => SessionStatus::Active,
    }
}

/// What a session waits for after a notification: the message, or where that
/// is empty the tool name.
pub open spec fn waiting_info(e: EventView) -> Seq<char> {
    if e.message.len() > 0 {
        e.message
    } else {
        e.tool_name
    }
}

/// The status and the waiting information that an event sets, for the kinds
/// of event that set them.
pub open spec fn status_set_by(e: EventView) -> Option<(SessionStatus, Seq<char>)> {
    match e.event_type {
        EventType::Notification => Some((notification_status(e.notification_type), waiting_info(e))),
        EventType::Stop => Some((SessionStatus::Completed, Seq::empty())),
        EventType::PostToolUse | EventType::UserPromptSubmit => Some(
            (SessionStatus::Active, Seq::empty()),
        ),
        _ => None,
    }
}

/// The session that a `SessionStart` event opens.
pub open spec fn started_session(e: EventView) -> SessionView {
    SessionView {
        project_name: e.project_name,
        project_dir: e.project_dir,
        status: SessionStatus::Active,
        last_event: e.timestamp,
        waiting_for: Seq::empty(),
        tmux_pane: e.tmux_pane,
        transport: transport_of(e),
    }
}

/// The sessions after an event.
pub open spec fn sessions_after(m: Map<Seq<char>, SessionView>, e: EventView) -> Map<
    Seq<char>,
    SessionView,
> {
    let k = key_of(e);
    match e.event_type {
        EventType::SessionStart => m.insert(k, started_session(e)),
        EventType::SessionEnd => m.remove(k),
        EventType::NotificationResult => m,
        EventType::Unknown => if m.contains_key(k) {
            m.insert(k, SessionView { last_event: e.timestamp, ..m[k] })
        } else {
            m
        },
        _ => match status_set_by(e) {
            Some((status, waiting)) => m.insert(
                k,
                upserted(lookup(m, k), e, status, waiting),
            ),
            None => m,
        },
    }
}

/// The channels that the hook served, by session key, after an event: a
/// session that starts, ends or changes its status forgets them, and a
/// notification result records them.
pub open spec fn hook_channels_after(
    h: Map<Seq<char>, Seq<HookChannelResult>>,
    m: Map<Seq<char>, SessionView>,
    e: EventView,
) -> Map<Seq<char>, Seq<HookChannelResult>> {
    let k = key_of(e);
    match e.event_type {
        EventType::SessionStart | EventType::SessionEnd => h.remove(k),
        EventType::NotificationResult => h.insert(k, e.notification_results),
        EventType::Unknown => h,
        _ => match status_set_by(e) {
            Some((status, _)) => if lookup(m, k) matches Some(s) && s.status == status {
                h
            } else {
                h.remove(k)
            },
            None => h,
        },
    }
}

/// The latest events after one more: it is appended, and the oldest is
/// dropped where there are then more than `MAX_RECENT_EVENTS`.
pub open spec fn recent_after(r: Seq<EventView>, e: EventView) -> Seq<EventView> {
    let s = r.push(e);
    if s.len() > MAX_RECENT_EVENTS {
        s.drop_first()
    } else {
        s
    }
}

/// Whether an event of this kind refreshes the cached tool paths.
pub open spec fn updates_paths(t: EventType) -> bool {
    t == EventType::SessionStart || t == EventType::Stop
}

/// The whole effect of one event on the dashboard state.
pub open spec fn event_applied(pre: AppState, post: AppState, e: EventView) -> bool {
    &&& post.wf()
    &&& post.sessions_view() == sessions_after(pre.sessions_view(), e)
    &&& post.hook_view() == hook_channels_after(pre.hook_view(), pre.sessions_view(), e)
    &&& post.recent_view() == recent_after(pre.recent_view(), e)
    &&& (post.cached_paths.npx_path@, post.cached_paths.tmux_path@) == (if updates_paths(
        e.event_type,
    ) {
        paths_after(pre.cached_paths.npx_path@, pre.cached_paths.tmux_path@, e)
    } else {
        (pre.cached_paths.npx_path@, pre.cached_paths.tmux_path@)
    })
    &&& post.notification_settings == pre.notification_settings
}

/// Copies the key of an event's session.
fn session_key(event: &EventInfo) -> (k: String)
    ensures
        k@ == key_of(event@),
{
    if event.project_dir.as_str().is_empty() {
        event.project_name.clone()
    } else {
        event.project_dir.clone()
    }
}

/// Appends an event to the latest events and drops the oldest one where the
/// list is then longer than `MAX_RECENT_EVENTS`.
fn record_event(state: &mut AppState, event: EventInfo)
    ensures
        final(state).recent_view() == recent_after(old(state).recent_view(), event@),
        final(state).sessions == old(state).sessions,
        final(state).hook_notified_channels == old(state).hook_notified_channels,
        final(state).cached_paths == old(state).cached_paths,
        final(state).notification_settings == old(state).notification_settings,
{
    let ghost pre = state.recent_view();
    state.recent_events.push(event);
    proof {
        assert(state.recent_view() =~= pre.push(event@));
    }
    if state.recent_events.len() > MAX_RECENT_EVENTS {
        state.recent_events.remove(0);
        proof {
            assert(state.recent_view() =~= pre.push(event@).drop_first());
        }
    }
}

/// Applies one event to the dashboard state.
pub fn process_event(state: &mut AppState, event: EventInfo)
    requires
        old(state).wf(),
    ensures
        event_applied(*old(state), *final(state), event@),
{
    let ghost pre = *state;
    let key = session_key(&event);
    match event.event_type {
        EventType::SessionStart => {
            state.cached_paths.update_from_event(&event);
            state.hook_notified_channels.remove(key.as_str());
            let session = SessionInfo {
                project_name: event.project_name.clone(),
                project_dir: event.project_dir.clone(),
                status: SessionStatus::Active,
                last_event: event.timestamp.clone(),
                waiting_for: String::new(),
                tmux_pane: event.tmux_pane.clone(),
                transport: event.to_transport(),
            };
            let ghost sv = session@;
            let ghost k = key@;
            state.sessions.insert(key, session);
            proof {
                assert(sv == started_session(event@));
                assert(state.sessions_view() =~= pre.sessions_view().insert(k, sv));
                assert(state.hook_view() =~= pre.hook_view().remove(k));
            }
        },
        EventType::SessionEnd => {
            state.sessions.remove(key.as_str());
            state.hook_notified_channels.remove(key.as_str());
            proof {
                assert(state.sessions_view() =~= pre.sessions_view().remove(key@));
                assert(state.hook_view() =~= pre.hook_view().remove(key@));
            }
        },
        EventType::Notification => {
            let new_status = match event.notification_type {
                NotificationType::PermissionPrompt => SessionStatus::WaitingPermission,
                NotificationType::IdlePrompt => SessionStatus::WaitingInput,
                NotificationType::Other => SessionStatus::Active,
            };
            let waiting_info = if !event.message.as_str().is_empty() {
                event.message.clone()
            } else if !event.tool_name.as_str().is_empty() {
                event.tool_name.clone()
            } else {
                String::new()
            };
            proof {
                if event@.message.len() == 0 && event@.tool_name.len() == 0 {
                    assert(event@.tool_name =~= Seq::<char>::empty());
                }
                assert(waiting_info@ == crate::events::waiting_info(event@));
            }
            state.upsert_session(key, &event, new_status, waiting_info);
        },
        EventType::Stop => {
            state.cached_paths.update_from_event(&event);
            state.upsert_session(key, &event, SessionStatus::Completed, String::new());
        },
        EventType::PostToolUse | EventType::UserPromptSubmit => {
            state.upsert_session(key, &event, SessionStatus::Active, String::new());
        },
        EventType::NotificationResult => {
            let ghost k = key@;
            let results = duplicate_results(&event.notification_results);
            state.hook_notified_channels.insert(key, results);
            proof {
                assert(state.hook_view() =~= pre.hook_view().insert(k, event@.notification_results));
            }
        },
        EventType::Unknown => {
            let previous = state.sessions.remove(key.as_str());
            match previous {
                Some(s) => {
                    let ghost k = key@;
                    let updated = SessionInfo {
                        project_name: s.project_name,
                        project_dir: s.project_dir,
                        status: s.status,
                        last_event: event.timestamp.clone(),
                        waiting_for: s.waiting_for,
                        tmux_pane: s.tmux_pane,
                        transport: s.transport,
                    };
                    let ghost uv = updated@;
                    state.sessions.insert(key, updated);
                    proof {
                        assert(uv == SessionView {
                            last_event: event@.timestamp,
                            ..pre.sessions_view()[k]
                        });
                        assert(state.sessions_view() =~= pre.sessions_view().insert(k, uv));
                    }
                },
                None => {
                    proof {
                        assert(state.sessions_view() =~= pre.sessions_view());
                    }
                },
            }
        },
    }
    record_event(state, event);
}

/// Applies events one after another, in order.
pub open spec fn events_applied(pre: AppState, post: AppState, events: Seq<EventView>) -> bool
    decreases events.len(),
{
    if events.len() == 0 {
        post.wf() && post.sessions_view() == pre.sessions_view() && post.hook_view()
            == pre.hook_view() && post.recent_view() == pre.recent_view()
            && post.cached_paths.npx_path@ == pre.cached_paths.npx_path@
            && post.cached_paths.tmux_path@ == pre.cached_paths.tmux_path@
            && post.notification_settings == pre.notification_settings
    } else {
        exists|mid: AppState|
            events_applied(pre, mid, events.drop_last()) && #[trigger] event_applied(
                mid,
                post,
                events.last(),
            )
    }
}

/// Applies several events to the dashboard state, in order.
pub fn apply_events_to_state(state: &mut AppState, events: &[EventInfo])
    requires
        old(state).wf(),
    ensures
        events_applied(*old(state), *final(state), events@.map_values(|e: EventInfo| e@)),
{
    let ghost pre = *state;
    let ghost evs = events@.map_values(|e: EventInfo| e@);
    let mut i: usize = 0;
    proof {
        assert(evs.take(0) =~= Seq::<EventView>::empty());
    }
    while i < events.len()
        invariant
            0 <= i <= events.len(),
            evs == events@.map_values(|e: EventInfo| e@),
            state.wf(),
            events_applied(pre, *state, evs.take(i as int)),
        decreases events.len() - i,
    {
        let ghost mid = *state;
        let event = events[i].duplicate();
        process_event(state, event);
        proof {
            let t = evs.take(i + 1);
            assert(t.drop_last() =~= evs.take(i as int));
            assert(t.last() == events@[i as int]@);
            assert(event_applied(mid, *state, t.last()));
        }
        i = i + 1;
    }
    proof {
        assert(evs.take(events.len() as int) =~= evs);
    }
}

} // verus!

verus! {

/// The dashboard never keeps more than `MAX_RECENT_EVENTS` events, and the
/// newest one it keeps is the event just applied.
pub proof fn law_recent_events_bounded(pre: AppState, post: AppState, e: EventView)
    requires
        event_applied(pre, post, e),
        pre.recent_view().len() <= MAX_RECENT_EVENTS,
    ensures
        post.recent_view().len() <= MAX_RECENT_EVENTS,
        post.recent_view().last() == e,
{
}

/// After a `SessionEnd` event its session is gone; after any event that sets
/// a status, its session exists and has that status.
pub proof fn law_event_sets_status(pre: AppState, post: AppState, e: EventView)
    requires
        event_applied(pre, post, e),
    ensures
        e.event_type == EventType::SessionEnd ==> !post.sessions_view().contains_key(key_of(e)),
        e.event_type == EventType::SessionStart ==> post.sessions_view().contains_key(key_of(e))
            && post.sessions_view()[key_of(e)].status == SessionStatus::Active,
        status_set_by(e) matches Some((status, waiting)) ==> post.sessions_view().contains_key(
            key_of(e),
        ) && post.sessions_view()[key_of(e)].status == status
            && post.sessions_view()[key_of(e)].waiting_for == waiting,
{
}

/// An event touches no session but its own.
pub proof fn law_event_is_local(pre: AppState, post: AppState, e: EventView, k: Seq<char>)
    requires
        event_applied(pre, post, e),
        k != key_of(e),
    ensures
        lookup(post.sessions_view(), k) == lookup(pre.sessions_view(), k),
        lookup(post.hook_view(), k) == lookup(pre.hook_view(), k),
{
}

/// A session keeps the project name and directory that it started with while
/// events update it.
pub proof fn law_session_keeps_project(pre: AppState, post: AppState, e: EventView)
    requires
        event_applied(pre, post, e),
        e.event_type != EventType::SessionStart,
        pre.sessions_view().contains_key(key_of(e)),
        post.sessions_view().contains_key(key_of(e)),
    ensures
        post.sessions_view()[key_of(e)].project_name == pre.sessions_view()[key_of(
            e,
        )].project_name,
        post.sessions_view()[key_of(e)].project_dir == pre.sessions_view()[key_of(
            e,
        )].project_dir,
{
}

/// Applying the same event twice leaves the sessions as applying it once.
pub proof fn law_sessions_idempotent(m: Map<Seq<char>, SessionView>, e: EventView)
    ensures
        sessions_after(sessions_after(m, e), e) == sessions_after(m, e),
{
    let k = key_of(e);
    let once = sessions_after(m, e);
    assert(sessions_after(once, e) =~= once);
}

} // verus!

verus! {

/// A session remembers how its machine is reached: a session that starts
/// takes the transport that the event's transport fields describe, and an
/// event that refreshes a session replaces its transport by the event's
/// where that is remote, keeping the old one where the event says local.
pub proof fn law_sessions_carry_event_transport(m: Map<Seq<char>, SessionView>, e: EventView)
    ensures
        e.event_type == EventType::SessionStart ==> sessions_after(m, e)[key_of(e)].transport
            == transport_of(e),
        status_set_by(e) is Some && !(transport_of(e) is Local) ==> sessions_after(m, e)[key_of(
            e,
        )].transport == transport_of(e),
        status_set_by(e) is Some && transport_of(e) is Local && m.contains_key(key_of(e))
            ==> sessions_after(m, e)[key_of(e)].transport == m[key_of(e)].transport,
{
}

/// The transport that an event's fields describe: local without a host;
/// otherwise SSH, mosh or Tailscale as the type names it, with the event's
/// host, its user where one is given, and for SSH and mosh the port it
/// spells (22 where it spells none).
pub proof fn law_event_transport_fields(e: EventView)
    ensures
        e.transport_host.len() == 0 ==> transport_of(e) == TransportView::Local,
        e.transport_host.len() > 0 && e.transport_type == "ssh"@ ==> transport_of(e)
            == (TransportView::Ssh {
            host: e.transport_host,
            port: port_of(e.transport_port),
            user: if e.transport_user.len() > 0 {
                Some(e.transport_user)
            } else {
                None
            },
            identity_file: None,
        }),
        e.transport_host.len() > 0 && e.transport_type == "mosh"@ ==> transport_of(e)
            == (TransportView::Mosh {
            host: e.transport_host,
            port: port_of(e.transport_port),
            user: if e.transport_user.len() > 0 {
                Some(e.transport_user)
            } else {
                None
            },
        }),
        e.transport_host.len() > 0 && e.transport_type == "tailscale"@ ==> transport_of(e)
            == (TransportView::Tailscale {
            host: e.transport_host,
            user: if e.transport_user.len() > 0 {
                Some(e.transport_user)
            } else {
                None
            },
            identity_file: None,
        }),
{
    reveal_strlit("ssh");
    reveal_strlit("mosh");
    reveal_strlit("tailscale");
    assert("ssh"@.len() == 3 && "mosh"@.len() == 4 && "tailscale"@.len() == 9);
}

} // verus!
