use vstd::prelude::*;

use crate::events::{apply_events_to_state, events_applied};
use crate::notifications::{
    detect_status_transitions_with_rules, external_click_url, notification_about, rule_transition_indices,
    SessionNotification,
};
use crate::notifications::{sink_name, NotificationSink, Sink};
use crate::state::{
    duplicate_results, lookup, opt_view, AppState, EventInfo, HookChannelResult, SessionInfo,
    SessionStatus,
};
use crate::text::str_eq;
use crate::strmap::StrMap;

verus! {

/// What event processing leaves for the I/O that follows it: the
/// notifications that are due, the cooldown that applies to them, and for
/// each notification what the hook reported of the channels it served for
/// that session.
#[derive(Clone, Debug)]
pub struct PipelineResult {
    pub pending_notifications: Vec<SessionNotification>,
    pub cooldown_seconds: Option<u64>,
    pub hook_results: Vec<Vec<HookChannelResult>>,
}

/// Whether `r` holds, for each pending notification, what the hook reported
/// for its session in `state` (nothing where it reported nothing).
pub open spec fn hook_results_ok(r: PipelineResult, state: AppState) -> bool {
    &&& r.hook_results@.len() == r.pending_notifications@.len()
    &&& forall|j: int|
        0 <= j < r.hook_results@.len() ==> #[trigger] r.hook_results@[j]@ == match lookup(
            state.hook_view(),
            r.pending_notifications@[j].session_id@,
        ) {
            Some(v) => v,
            None => Seq::empty(),
        }
}

/// What the hook reported for the session of each notification.
fn collect_hook_results(pending: &Vec<SessionNotification>, state: &AppState) -> (r: Vec<
    Vec<HookChannelResult>,
>)
    requires
        state.wf(),
    ensures
        r@.len() == pending@.len(),
        forall|j: int|
            0 <= j < r@.len() ==> #[trigger] r@[j]@ == match lookup(
                state.hook_view(),
                pending@[j].session_id@,
            ) {
                Some(v) => v,
                None => Seq::empty(),
            },
{
    let mut r: Vec<Vec<HookChannelResult>> = Vec::new();
    let mut j: usize = 0;
    while j < pending.len()
        invariant
            state.wf(),
            0 <= j <= pending.len(),
            r@.len() == j,
            forall|k: int|
                0 <= k < j ==> #[trigger] r@[k]@ == match lookup(
                    state.hook_view(),
                    pending@[k].session_id@,
                ) {
                    Some(v) => v,
                    None => Seq::empty(),
                },
        decreases pending.len() - j,
    {
        let served = match state.hook_notified_channels.get(pending[j].session_id.as_str()) {
            Some(v) => duplicate_results(v),
            None => Vec::new(),
        };
        r.push(served);
        j = j + 1;
    }
    r
}

/// The status of each session, by key.
pub fn capture_old_statuses(state: &AppState) -> (r: StrMap<SessionStatus>)
    requires
        state.wf(),
    ensures
        r.wf(),
        r@ == state.sessions@.map_values(|s: SessionInfo| s.status),
{
    proof {
        state.sessions.lemma_view();
    }
    let mut r: StrMap<SessionStatus> = StrMap::new();
    let n = state.sessions.len();
    let ghost keys = state.sessions.keys_seq();
    let ghost vals = state.sessions.values_seq();
    let mut i: usize = 0;
    while i < n
        invariant
            state.wf(),
            n == keys.len(),
            keys == state.sessions.keys_seq(),
            vals == state.sessions.values_seq(),
            keys.len() == vals.len(),
            keys.no_duplicates(),
            0 <= i <= n,
            r.wf(),
            r@.dom() == keys.take(i as int).to_set(),
            forall|j: int| 0 <= j < i ==> r@[#[trigger] keys[j]] == vals[j].status,
        decreases n - i,
    {
        let k = state.sessions.key_at(i);
        let s = state.sessions.value_at(i);
        let ghost before = r@;
        r.insert(k.clone(), s.status);
        proof {
            assert(keys.take(i + 1) =~= keys.take(i as int).push(keys[i as int]));
            assert forall|x: Seq<char>| #[trigger] r@.dom().contains(x) <==> keys.take(i + 1).to_set().contains(x) by {
                if x == keys[i as int] {
                    assert(keys.take(i + 1)[i as int] == x);
                } else {
                    if keys.take(i as int).contains(x) {
                        let j = keys.take(i as int).index_of(x);
                        assert(keys.take(i + 1)[j] == x);
                    }
                    if keys.take(i + 1).contains(x) {
                        let j = keys.take(i + 1).index_of(x);
                        assert(keys.take(i as int)[j] == x);
                    }
                }
            }
            assert(r@.dom() =~= keys.take(i + 1).to_set());
            assert forall|j: int| 0 <= j < i + 1 implies r@[#[trigger] keys[j]] == vals[j].status by {
                if j < i {
                    assert(keys[j] != keys[i as int]);
                }
            }
        }
        i = i + 1;
    }
    proof {
        assert(keys.take(n as int) =~= keys);
        let target = state.sessions@.map_values(|s: SessionInfo| s.status);
        assert forall|k: Seq<char>| #[trigger] r@.contains_key(k) <==> target.contains_key(k) by {
            if r@.contains_key(k) {
                assert(keys.to_set().contains(k));
            }
            if target.contains_key(k) {
                assert(keys.contains(k));
                assert(keys.to_set().contains(k));
            }
        }
        assert forall|k: Seq<char>| #[trigger] r@.contains_key(k) implies r@[k] == target[k] by {
            assert(keys.to_set().contains(k));
            let j = keys.index_of(k);
            assert(r@[keys[j]] == vals[j].status);
        }
        assert(r@ =~= target);
    }
    r
}

/// The notifications that are due after events: those of
/// `detect_status_transitions_with_rules`, where notifications are on and
/// some channel is configured (`sink_count > 0`); none otherwise.
pub fn detect_pending_notifications(
    old_statuses: &StrMap<SessionStatus>,
    state: &AppState,
    sink_count: usize,
) -> (r: PipelineResult)
    requires
        old_statuses.wf(),
        state.wf(),
    ensures
        r.cooldown_seconds == state.notification_settings.cooldown_seconds,
        hook_results_ok(r, *state),
        !(state.notification_settings.enabled && sink_count > 0) ==> r.pending_notifications@.len()
            == 0,
        state.notification_settings.enabled && sink_count > 0 ==> pending_ok(
            r.pending_notifications@,
            *old_statuses,
            *state,
        ),
{
    let pending = if state.notification_settings.enabled && sink_count > 0 {
        detect_status_transitions_with_rules(old_statuses, &state.sessions, &state.notification_settings)
    } else {
        Vec::new()
    };
    let hook_results = collect_hook_results(&pending, state);
    PipelineResult {
        pending_notifications: pending,
        cooldown_seconds: state.notification_settings.cooldown_seconds,
        hook_results,
    }
}

/// Whether `r` are the notifications that the settings call for, given the
/// old statuses and the sessions of `state`.
pub open spec fn pending_ok(
    r: Seq<SessionNotification>,
    old_statuses: StrMap<SessionStatus>,
    state: AppState,
) -> bool {
    let settings = state.notification_settings;
    let idx = rule_transition_indices(
        settings,
        old_statuses@,
        state.sessions.keys_seq(),
        state.sessions.values_seq(),
    );
    &&& r.len() == idx.len()
    &&& forall|j: int|
        0 <= j < idx.len() ==> {
            let i = #[trigger] idx[j];
            let key = state.sessions.keys_seq()[i];
            notification_about(
                r[j],
                key,
                state.sessions.values_seq()[i],
                if old_statuses@.contains_key(key) {
                    Some(old_statuses@[key])
                } else {
                    None
                },
            ) && opt_view(r[j].title_template) == opt_view(settings.title_template) && opt_view(
                r[j].body_template,
            ) == opt_view(settings.body_template) && opt_view(r[j].click_url)
                == external_click_url(
                settings.external_url,
                state.sessions.values_seq()[i].tmux_pane@,
            )
        }
}

/// Captures the old statuses, applies the events, and finds the
/// notifications that are due.
pub fn apply_and_detect(state: &mut AppState, events: &[EventInfo], sink_count: usize) -> (r:
    PipelineResult)
    requires
        old(state).wf(),
    ensures
        events_applied(*old(state), *final(state), events@.map_values(|e: EventInfo| e@)),
        r.cooldown_seconds == final(state).notification_settings.cooldown_seconds,
        hook_results_ok(r, *final(state)),
        !(final(state).notification_settings.enabled && sink_count > 0)
            ==> r.pending_notifications@.len() == 0,
        final(state).notification_settings.enabled && sink_count > 0 ==> exists|
            old_statuses: StrMap<SessionStatus>,
        |
            old_statuses@ == old(state).sessions@.map_values(|s: SessionInfo| s.status)
                && #[trigger] pending_ok(r.pending_notifications@, old_statuses, *final(state)),
{
    let old_statuses = capture_old_statuses(state);
    apply_events_to_state(state, events);
    detect_pending_notifications(&old_statuses, state, sink_count)
}

/// Whether a cooldown of `cd` seconds still runs for `key`, last notified at
/// `last[key]` (milliseconds), at `now` (milliseconds); a cooldown of 0 never
/// runs.
pub open spec fn cooldown_blocks(
    cd: Option<u64>,
    last: Map<Seq<char>, u64>,
    key: Seq<char>,
    now: u64,
) -> bool {
    match cd {
        Some(c) => c > 0 && last.contains_key(key) && (if now >= last[key] {
            now - last[key]
        } else {
            0
        }) / 1000 < c,
        None => false,
    }
}

/// The pending notifications that go out, in order, and the times of the
/// last notification per session afterwards: each one goes out unless a
/// cooldown runs for its session, and sets that session's time to `now`.
pub open spec fn select_due(
    pending: Seq<SessionNotification>,
    last: Map<Seq<char>, u64>,
    now: u64,
    cd: Option<u64>,
) -> (Seq<int>, Map<Seq<char>, u64>)
    decreases pending.len(),
{
    if pending.len() == 0 {
        (Seq::empty(), last)
    } else {
        let (idx, m) = select_due(pending.drop_last(), last, now, cd);
        let key = pending.last().session_id@;
        if cooldown_blocks(cd, m, key, now) {
            (idx, m)
        } else {
            (idx.push(pending.len() - 1), m.insert(key, now))
        }
    }
}

/// Chooses which pending notifications to dispatch now, respecting the
/// cooldown per session, and records the time for each one chosen; returns
/// their indices in `pipeline.pending_notifications`.
pub fn dispatch_notifications(
    pipeline: &PipelineResult,
    last_notified: &mut StrMap<u64>,
    now_ms: u64,
) -> (r: Vec<usize>)
    requires
        old(last_notified).wf(),
    ensures
        final(last_notified).wf(),
        ({
            let (idx, m) = select_due(
                pipeline.pending_notifications@,
                old(last_notified)@,
                now_ms,
                pipeline.cooldown_seconds,
            );
            &&& r@.len() == idx.len()
            &&& forall|j: int| 0 <= j < r@.len() ==> r@[j] as int == #[trigger] idx[j]
            &&& final(last_notified)@ == m
        }),
{
    let ghost start = last_notified@;
    let ghost p = pipeline.pending_notifications@;
    let mut r: Vec<usize> = Vec::new();
    let mut i: usize = 0;
    proof {
        assert(p.take(0) =~= Seq::<SessionNotification>::empty());
    }
    while i < pipeline.pending_notifications.len()
        invariant
            p == pipeline.pending_notifications@,
            0 <= i <= p.len(),
            last_notified.wf(),
            ({
                let (idx, m) = select_due(p.take(i as int), start, now_ms, pipeline.cooldown_seconds);
                &&& r@.len() == idx.len()
                &&& forall|j: int| 0 <= j < r@.len() ==> r@[j] as int == #[trigger] idx[j]
                &&& last_notified@ == m
            }),
        decreases p.len() - i,
    {
        let n = &pipeline.pending_notifications[i];
        proof {
            assert(p.take(i + 1).drop_last() =~= p.take(i as int));
            assert(p.take(i + 1).last() == p[i as int]);
        }
        let blocked = match pipeline.cooldown_seconds {
            Some(cd) => cd > 0 && match last_notified.get(n.session_id.as_str()) {
                Some(last) => now_ms.saturating_sub(*last) / 1000 < cd,
                None => false,
            },
            None => false,
        };
        if !blocked {
            r.push(i);
            last_notified.insert(n.session_id.clone(), now_ms);
        }
        i = i + 1;
    }
    proof {
        assert(p.take(i as int) =~= p);
    }
    r
}

} // verus!

verus! {

/// One round of dispatch picks notifications in order, each at most once,
/// notes `now` as the last notification of each session it picks, and keeps
/// every other session's time (and adds no session it did not pick).
pub proof fn law_dispatch_round_marks(
    pending: Seq<SessionNotification>,
    last: Map<Seq<char>, u64>,
    now: u64,
    cd: Option<u64>,
)
    ensures
        ({
            let (idx, m) = select_due(pending, last, now, cd);
            &&& forall|j: int| 0 <= j < idx.len() ==> 0 <= #[trigger] idx[j] < pending.len()
            &&& forall|a: int, b: int| 0 <= a < b < idx.len() ==> idx[a] < idx[b]
            &&& forall|j: int|
                0 <= j < idx.len() ==> m.contains_key(#[trigger] pending[idx[j]].session_id@)
                    && m[pending[idx[j]].session_id@] == now
            &&& forall|k: Seq<char>| #[trigger]
                m.contains_key(k) ==> last.contains_key(k) || m[k] == now
            &&& forall|k: Seq<char>| #[trigger]
                last.contains_key(k) ==> m.contains_key(k) && (m[k] == last[k] || m[k] == now)
        }),
    decreases pending.len(),
{
    if pending.len() > 0 {
        let init = pending.drop_last();
        law_dispatch_round_marks(init, last, now, cd);
        let (idx0, m0) = select_due(init, last, now, cd);
        assert forall|j: int| 0 <= j < idx0.len() implies #[trigger] pending[idx0[j]] == init[idx0[j]] by {
        }
    }
}

/// With a cooldown of at least one second, one round of dispatch notifies
/// each session at most once.
pub proof fn law_cooldown_once_per_round(
    pending: Seq<SessionNotification>,
    last: Map<Seq<char>, u64>,
    now: u64,
    cd: u64,
)
    requires
        cd > 0,
    ensures
        ({
            let (idx, m) = select_due(pending, last, now, Some(cd));
            forall|a: int, b: int|
                0 <= a < b < idx.len() ==> #[trigger] pending[idx[a]].session_id@
                    != #[trigger] pending[idx[b]].session_id@
        }),
    decreases pending.len(),
{
    if pending.len() > 0 {
        let init = pending.drop_last();
        law_cooldown_once_per_round(init, last, now, cd);
        law_dispatch_round_marks(init, last, now, Some(cd));
        let (idx0, m0) = select_due(init, last, now, Some(cd));
        let (idx, m) = select_due(pending, last, now, Some(cd));
        assert forall|j: int| 0 <= j < idx0.len() implies #[trigger] pending[idx0[j]] == init[idx0[j]] by {
        }
        assert forall|a: int, b: int|
            0 <= a < b < idx.len() implies #[trigger] pending[idx[a]].session_id@
                != #[trigger] pending[idx[b]].session_id@ by {
            if b == idx0.len() {
                let k = pending.last().session_id@;
                assert(idx[b] == pending.len() - 1);
                assert(idx[a] == idx0[a]);
                if pending[idx[a]].session_id@ == k {
                    assert(m0.contains_key(init[idx0[a]].session_id@));
                    assert(cooldown_blocks(Some(cd), m0, k, now));
                }
            } else {
                assert(idx[a] == idx0[a] && idx[b] == idx0[b]);
            }
        }
    }
}

/// A session notified in one round of dispatch is not notified again in a
/// later round that starts less than the cooldown after it.
pub proof fn law_cooldown_between_rounds(
    first: Seq<SessionNotification>,
    second: Seq<SessionNotification>,
    last: Map<Seq<char>, u64>,
    now1: u64,
    now2: u64,
    cd: u64,
)
    requires
        now1 <= now2,
        (now2 - now1) / 1000 < cd,
    ensures
        ({
            let (idx1, m1) = select_due(first, last, now1, Some(cd));
            let (idx2, m2) = select_due(second, m1, now2, Some(cd));
            forall|a: int, b: int|
                0 <= a < idx1.len() && 0 <= b < idx2.len() ==> #[trigger] first[idx1[a]].session_id@
                    != #[trigger] second[idx2[b]].session_id@
        }),
{
    law_dispatch_round_marks(first, last, now1, Some(cd));
    let (idx1, m1) = select_due(first, last, now1, Some(cd));
    let (idx2, m2) = select_due(second, m1, now2, Some(cd));
    assert forall|a: int, b: int|
        0 <= a < idx1.len() && 0 <= b < idx2.len() implies #[trigger] first[idx1[a]].session_id@
            != #[trigger] second[idx2[b]].session_id@ by {
        let k = first[idx1[a]].session_id@;
        assert(m1.contains_key(k) && m1[k] == now1);
        lemma_round_skips(second, m1, now1, now2, cd, k, b);
    }
}

/// In a round of dispatch at `now2`, a session last notified at `now1`, less
/// than the cooldown before, is not picked.
proof fn lemma_round_skips(
    pending: Seq<SessionNotification>,
    last: Map<Seq<char>, u64>,
    now1: u64,
    now2: u64,
    cd: u64,
    k: Seq<char>,
    b: int,
)
    requires
        now1 <= now2,
        (now2 - now1) / 1000 < cd,
        last.contains_key(k),
        last[k] == now1,
        0 <= b < select_due(pending, last, now2, Some(cd)).0.len(),
    ensures
        pending[select_due(pending, last, now2, Some(cd)).0[b]].session_id@ != k,
    decreases pending.len(),
{
    let init = pending.drop_last();
    law_dispatch_round_marks(init, last, now2, Some(cd));
    let (idx0, m0) = select_due(init, last, now2, Some(cd));
    let (idx, m) = select_due(pending, last, now2, Some(cd));
    if b < idx0.len() {
        lemma_round_skips(init, last, now1, now2, cd, k, b);
        assert(idx[b] == idx0[b]);
        law_dispatch_round_marks(init, last, now2, Some(cd));
        assert(pending[idx0[b]] == init[idx0[b]]);
    } else {
        assert(idx[b] == pending.len() - 1);
        assert(m0.contains_key(k));
        assert(m0[k] == now1 || m0[k] == now2);
        if pending.last().session_id@ == k {
            assert(cooldown_blocks(Some(cd), m0, k, now2));
        }
    }
}

} // verus!

verus! {

/// Whether the hook reported that it delivered through the channel named
/// `name`.
pub open spec fn hook_delivered(served: Seq<HookChannelResult>, name: Seq<char>) -> bool {
    exists|i: int| 0 <= i < served.len() && #[trigger] served[i].ok && served[i].channel@ == name
}

/// The positions of the sinks that the hook has not already delivered
/// through, in order.
pub open spec fn undelivered(sinks: Seq<Sink>, served: Seq<HookChannelResult>) -> Seq<int>
    decreases sinks.len(),
{
    if sinks.len() == 0 {
        Seq::empty()
    } else {
        let prev = undelivered(sinks.drop_last(), served);
        if hook_delivered(served, sink_name(sinks.last())) {
            prev
        } else {
            prev.push(sinks.len() - 1)
        }
    }
}

fn delivered(served: &[HookChannelResult], name: &str) -> (r: bool)
    ensures
        r == hook_delivered(served@, name@),
{
    let mut i: usize = 0;
    while i < served.len()
        invariant
            0 <= i <= served.len(),
            forall|k: int| 0 <= k < i ==> !(#[trigger] served@[k].ok && served@[k].channel@ == name@),
        decreases served.len() - i,
    {
        if served[i].ok && str_eq(served[i].channel.as_str(), name) {
            return true;
        }
        i = i + 1;
    }
    false
}

/// The positions of the sinks to dispatch through: those that the hook has
/// not already delivered through (see `undelivered`).
pub fn sinks_to_dispatch(sinks: &[Sink], served: &[HookChannelResult]) -> (r: Vec<usize>)
    ensures
        r@.len() == undelivered(sinks@, served@).len(),
        forall|j: int| 0 <= j < r@.len() ==> r@[j] as int == #[trigger] undelivered(sinks@, served@)[j],
{
    let mut r: Vec<usize> = Vec::new();
    let mut i: usize = 0;
    while i < sinks.len()
        invariant
            0 <= i <= sinks.len(),
            r@.len() == undelivered(sinks@.take(i as int), served@).len(),
            forall|j: int|
                0 <= j < r@.len() ==> r@[j] as int == #[trigger] undelivered(
                    sinks@.take(i as int),
                    served@,
                )[j],
        decreases sinks.len() - i,
    {
        proof {
            assert(sinks@.take(i + 1).drop_last() =~= sinks@.take(i as int));
            assert(sinks@.take(i + 1).last() == sinks@[i as int]);
        }
        if !delivered(served, sinks[i].name()) {
            r.push(i);
        }
        i = i + 1;
    }
    proof {
        assert(sinks@.take(sinks.len() as int) =~= sinks@);
    }
    r
}

/// The app does not deliver again through a channel that the hook already
/// delivered through for the session: a sink is dispatched exactly when the
/// hook reported no delivery through a channel of its kind, and the sinks
/// keep their order.
pub proof fn law_hook_delivered_channels_skipped(sinks: Seq<Sink>, served: Seq<HookChannelResult>)
    ensures
        forall|a: int, b: int|
            0 <= a < b < undelivered(sinks, served).len() ==> undelivered(sinks, served)[a]
                < undelivered(sinks, served)[b],
        forall|i: int|
            0 <= i < sinks.len() ==> (undelivered(sinks, served).contains(i) <==> !hook_delivered(
                served,
                sink_name(#[trigger] sinks[i]),
            )),
    decreases sinks.len(),
{
    if sinks.len() > 0 {
        let init = sinks.drop_last();
        law_hook_delivered_channels_skipped(init, served);
        let prev = undelivered(init, served);
        lemma_undelivered_range(init, served);
        assert forall|i: int| 0 <= i < sinks.len() implies (undelivered(sinks, served).contains(i)
            <==> !hook_delivered(served, sink_name(#[trigger] sinks[i]))) by {
            if i < sinks.len() - 1 {
                assert(sinks[i] == init[i]);
                if undelivered(sinks, served).contains(i) {
                    let j = undelivered(sinks, served).index_of(i);
                    if j < prev.len() {
                        assert(prev[j] == i);
                    }
                }
                if prev.contains(i) {
                    let j = prev.index_of(i);
                    assert(undelivered(sinks, served)[j] == i);
                }
            } else {
                if !hook_delivered(served, sink_name(sinks.last())) {
                    assert(undelivered(sinks, served)[prev.len() as int] == i);
                } else if undelivered(sinks, served).contains(i) {
                    let j = prev.index_of(i);
                    assert(prev[j] < init.len());
                }
            }
        }
    }
}

/// The positions that `undelivered` gives lie in range.
proof fn lemma_undelivered_range(sinks: Seq<Sink>, served: Seq<HookChannelResult>)
    ensures
        forall|j: int|
            0 <= j < undelivered(sinks, served).len() ==> 0 <= #[trigger] undelivered(
                sinks,
                served,
            )[j] < sinks.len(),
    decreases sinks.len(),
{
    if sinks.len() > 0 {
        let init = sinks.drop_last();
        lemma_undelivered_range(init, served);
        let prev = undelivered(init, served);
        assert forall|j: int| 0 <= j < undelivered(sinks, served).len() implies 0
            <= #[trigger] undelivered(sinks, served)[j] < sinks.len() by {
            if j < prev.len() {
                assert(undelivered(sinks, served)[j] == prev[j]);
            }
        }
    }
}

} // verus!

verus! {

/// A session whose cooldown still runs when a round of dispatch starts gets
/// no notification in that round, and its time of last notification stays
/// as it was.
pub proof fn law_cooldown_skips_waiting_sessions(
    pending: Seq<SessionNotification>,
    last: Map<Seq<char>, u64>,
    now: u64,
    cd: u64,
    k: Seq<char>,
)
    requires
        cooldown_blocks(Some(cd), last, k, now),
    ensures
        ({
            let (idx, m) = select_due(pending, last, now, Some(cd));
            &&& forall|j: int| 0 <= j < idx.len() ==> #[trigger] pending[idx[j]].session_id@ != k
            &&& m.contains_key(k) && m[k] == last[k]
        }),
    decreases pending.len(),
{
    if pending.len() > 0 {
        let init = pending.drop_last();
        law_cooldown_skips_waiting_sessions(init, last, now, cd, k);
        law_dispatch_round_marks(init, last, now, Some(cd));
        let (idx0, m0) = select_due(init, last, now, Some(cd));
        let (idx, m) = select_due(pending, last, now, Some(cd));
        assert(cooldown_blocks(Some(cd), m0, k, now));
        assert forall|j: int| 0 <= j < idx.len() implies #[trigger] pending[idx[j]].session_id@ != k by {
            if j < idx0.len() {
                assert(idx[j] == idx0[j]);
                assert(pending[idx0[j]] == init[idx0[j]]);
            } else {
                assert(idx[j] == pending.len() - 1);
            }
        }
    }
}

} // verus!
