use vstd::prelude::*;
use vstd::string::StringSliceAdditionalSpecFns;
use vstd::utf8::encode_utf8;

use crate::state::{AppState, DashboardData, EventInfo, EventView, SessionInfo, SessionView};

verus! {

broadcast use vstd::seq_lib::to_multiset_build, vstd::seq_lib::to_multiset_insert;

/// Lexicographic order of byte strings (a proper prefix comes first).
pub open spec fn bytes_lt(a: Seq<u8>, b: Seq<u8>) -> bool
    decreases a.len(),
{
    if a.len() == 0 {
        b.len() > 0
    } else if b.len() == 0 {
        false
    } else if a[0] != b[0] {
        a[0] < b[0]
    } else {
        bytes_lt(a.drop_first(), b.drop_first())
    }
}

proof fn lemma_bytes_lt_order(a: Seq<u8>, b: Seq<u8>)
    ensures
        !(bytes_lt(a, b) && bytes_lt(b, a)),
        a != b ==> bytes_lt(a, b) || bytes_lt(b, a),
    decreases a.len(),
{
    if a.len() > 0 && b.len() > 0 && a[0] == b[0] {
        lemma_bytes_lt_order(a.drop_first(), b.drop_first());
        if a != b {
            assert(a.drop_first() != b.drop_first()) by {
                if a.drop_first() == b.drop_first() {
                    assert forall|k: int| 0 <= k < a.len() implies a[k] == b[k] by {
                        if k > 0 {
                            assert(a[k] == a.drop_first()[k - 1]);
                            assert(b[k] == b.drop_first()[k - 1]);
                        }
                    }
                    assert(a =~= b);
                }
            }
        }
    } else if a.len() == 0 && b.len() == 0 {
        assert(a =~= b);
    }
}

proof fn lemma_bytes_lt_transitive(a: Seq<u8>, b: Seq<u8>, c: Seq<u8>)
    requires
        bytes_lt(a, b),
        bytes_lt(b, c),
    ensures
        bytes_lt(a, c),
    decreases a.len(),
{
    if a.len() > 0 && b.len() > 0 && c.len() > 0 && a[0] == b[0] && b[0] == c[0] {
        lemma_bytes_lt_transitive(a.drop_first(), b.drop_first(), c.drop_first());
    }
}

/// Whether a session whose last event was at `a` may be listed before one
/// whose last event was at `b` on the dashboard: newest first (by the text's
/// bytes), sessions without a time last.
pub open spec fn listed_before(a: Seq<char>, b: Seq<char>) -> bool {
    b.len() == 0 || (a.len() > 0 && !bytes_lt(encode_utf8(a), encode_utf8(b)))
}

proof fn lemma_listed_before_total(a: Seq<char>, b: Seq<char>)
    ensures
        listed_before(a, b) || listed_before(b, a),
{
    lemma_bytes_lt_order(encode_utf8(a), encode_utf8(b));
}

proof fn lemma_listed_before_transitive(a: Seq<char>, b: Seq<char>, c: Seq<char>)
    requires
        listed_before(a, b),
        listed_before(b, c),
    ensures
        listed_before(a, c),
{
    let (ea, eb, ec) = (encode_utf8(a), encode_utf8(b), encode_utf8(c));
    if c.len() > 0 {
        lemma_bytes_lt_order(ea, eb);
        lemma_bytes_lt_order(eb, ec);
        lemma_bytes_lt_order(ea, ec);
        if bytes_lt(ea, ec) {
            if ea == eb {
            } else if eb == ec {
            } else {
                lemma_bytes_lt_transitive(ec, eb, ea);
            }
        }
    }
}

/// Whether the sessions are in dashboard order.
pub open spec fn dashboard_sorted(s: Seq<SessionView>) -> bool {
    forall|i: int, j: int| 0 <= i < j < s.len() ==> listed_before(#[trigger] s[i].last_event, #[trigger] s[j].last_event)
}

/// The models of a list of sessions.
pub open spec fn session_views(s: Seq<SessionInfo>) -> Seq<SessionView> {
    s.map_values(|x: SessionInfo| x@)
}

fn bytes_less(a: &[u8], b: &[u8]) -> (r: bool)
    ensures
        r == bytes_lt(a@, b@),
{
    let mut i: usize = 0;
    proof {
        assert(a@.skip(0) =~= a@);
        assert(b@.skip(0) =~= b@);
    }
    while i < a.len() && i < b.len()
        invariant
            0 <= i <= a.len(),
            i <= b.len(),
            bytes_lt(a@, b@) == bytes_lt(a@.skip(i as int), b@.skip(i as int)),
        decreases a.len() - i,
    {
        proof {
            assert(a@.skip(i as int)[0] == a@[i as int]);
            assert(b@.skip(i as int)[0] == b@[i as int]);
        }
        if a[i] != b[i] {
            return a[i] < b[i];
        }
        proof {
            assert(a@.skip(i as int).drop_first() =~= a@.skip(i + 1));
            assert(b@.skip(i as int).drop_first() =~= b@.skip(i + 1));
        }
        i = i + 1;
    }
    i < b.len()
}

fn listed_before_exec(a: &String, b: &String) -> (r: bool)
    ensures
        r == listed_before(a@, b@),
{
    if b.as_str().is_empty() {
        return true;
    }
    if a.as_str().is_empty() {
        return false;
    }
    !bytes_less(a.as_str().as_bytes(), b.as_str().as_bytes())
}

impl AppState {
    /// What the dashboard shows: every session, newest last event first and
    /// sessions without one last, and the recent events, oldest first.
    pub fn to_dashboard_data(&self) -> (d: DashboardData)
        requires
            self.wf(),
        ensures
            session_views(d.sessions@).to_multiset() == session_views(
                self.sessions.values_seq(),
            ).to_multiset(),
            dashboard_sorted(session_views(d.sessions@)),
            d.events@.map_values(|e: EventInfo| e@) == self.recent_view(),
    {
        proof {
            self.sessions.lemma_view();
        }
        let ghost vals = self.sessions.values_seq();
        let n = self.sessions.len();
        let mut out: Vec<SessionInfo> = Vec::new();
        let mut i: usize = 0;
        proof {
            assert(session_views(vals.take(0)) =~= Seq::<SessionView>::empty());
            assert(session_views(out@) =~= Seq::<SessionView>::empty());
        }
        while i < n
            invariant
                vals == self.sessions.values_seq(),
                n == vals.len(),
                n == self.sessions.keys_seq().len(),
                0 <= i <= n,
                session_views(out@).to_multiset() == session_views(vals.take(i as int)).to_multiset(),
                dashboard_sorted(session_views(out@)),
            decreases n - i,
        {
            let x = self.sessions.value_at(i).duplicate();
            let ghost ov = session_views(out@);
            let mut p: usize = 0;
            while p < out.len() && listed_before_exec(&out[p].last_event, &x.last_event)
                invariant
                    ov == session_views(out@),
                    0 <= p <= out.len(),
                    forall|k: int| 0 <= k < p ==> listed_before(#[trigger] ov[k].last_event, x@.last_event),
                decreases out.len() - p,
            {
                p = p + 1;
            }
            proof {
                if p < out.len() {
                    assert(!listed_before(ov[p as int].last_event, x@.last_event));
                    assert forall|j: int| p <= j < ov.len() implies listed_before(x@.last_event, #[trigger] ov[j].last_event) by {
                        if j > p {
                            assert(listed_before(ov[p as int].last_event, ov[j].last_event));
                            if listed_before(ov[j].last_event, x@.last_event) {
                                lemma_listed_before_transitive(ov[p as int].last_event, ov[j].last_event, x@.last_event);
                            }
                        }
                        lemma_listed_before_total(ov[j].last_event, x@.last_event);
                    }
                }
            }
            out.insert(p, x);
            proof {
                let nv = session_views(out@);
                assert(nv =~= ov.insert(p as int, x@));
                assert(vals.take(i + 1) =~= vals.take(i as int).push(vals[i as int]));
                assert(session_views(vals.take(i + 1)) =~= session_views(vals.take(i as int)).push(x@));
                assert forall|a: int, b: int| 0 <= a < b < nv.len() implies listed_before(#[trigger] nv[a].last_event, #[trigger] nv[b].last_event) by {
                    if b < p {
                        assert(nv[a] == ov[a] && nv[b] == ov[b]);
                    } else if b == p {
                        assert(nv[a] == ov[a]);
                    } else if a < p {
                        assert(nv[a] == ov[a] && nv[b] == ov[b - 1]);
                        assert(listed_before(ov[a].last_event, x@.last_event));
                        if p < ov.len() {
                            assert(listed_before(x@.last_event, ov[b - 1].last_event));
                            lemma_listed_before_transitive(ov[a].last_event, x@.last_event, ov[b - 1].last_event);
                        }
                    } else if a == p {
                        assert(nv[b] == ov[b - 1]);
                    } else {
                        assert(nv[a] == ov[a - 1] && nv[b] == ov[b - 1]);
                    }
                }
            }
            i = i + 1;
        }
        proof {
            assert(vals.take(n as int) =~= vals);
        }
        let mut events: Vec<EventInfo> = Vec::new();
        let mut j: usize = 0;
        while j < self.recent_events.len()
            invariant
                0 <= j <= self.recent_events.len(),
                events@.len() == j,
                forall|k: int| 0 <= k < j ==> #[trigger] events@[k]@ == self.recent_events@[k]@,
            decreases self.recent_events.len() - j,
        {
            events.push(self.recent_events[j].duplicate());
            j = j + 1;
        }
        proof {
            assert(events@.map_values(|e: EventInfo| e@) =~= self.recent_view());
        }
        DashboardData { sessions: out, events }
    }
}

} // verus!

verus! {

/// The dashboard's order: every session with a last event comes before every
/// session without one, and those with one are newest first (their times
/// compared as text, byte by byte, never rising).
pub proof fn law_dashboard_order(s: Seq<SessionView>)
    requires
        dashboard_sorted(s),
    ensures
        forall|i: int, j: int|
            0 <= i < j < s.len() ==> (#[trigger] s[j].last_event.len() > 0 ==> #[trigger] s[i].last_event.len() > 0),
        forall|i: int, j: int|
            0 <= i < j < s.len() && #[trigger] s[i].last_event.len() > 0
                && #[trigger] s[j].last_event.len() > 0 ==> !bytes_lt(
                encode_utf8(s[i].last_event),
                encode_utf8(s[j].last_event),
            ),
{
    assert forall|i: int, j: int| 0 <= i < j < s.len() implies (#[trigger] s[j].last_event.len() > 0
        ==> #[trigger] s[i].last_event.len() > 0) by {
        assert(listed_before(s[i].last_event, s[j].last_event));
    }
    assert forall|i: int, j: int|
        0 <= i < j < s.len() && #[trigger] s[i].last_event.len() > 0
            && #[trigger] s[j].last_event.len() > 0 implies !bytes_lt(
            encode_utf8(s[i].last_event),
            encode_utf8(s[j].last_event),
        ) by {
        assert(listed_before(s[i].last_event, s[j].last_event));
    }
}

} // verus!
