use vstd::prelude::*;

use crate::strmap::StrMap;

verus! {

/// What the hook remembers of one session between its runs: the status it
/// last saw (as a word such as `active`), and when it last notified, in
/// milliseconds since 1970-01-01T00:00:00Z.
#[derive(Clone, Debug)]
pub struct HookSessionState {
    pub status: String,
    pub last_notified: Option<u64>,
}

/// The model of a `HookSessionState`.
pub struct HookSessionView {
    pub status: Seq<char>,
    pub last_notified: Option<u64>,
}

impl View for HookSessionState {
    type V = HookSessionView;

    open spec fn view(&self) -> HookSessionView {
        HookSessionView { status: self.status@, last_notified: self.last_notified }
    }
}

/// What the hook remembers between its runs, by session key.
#[derive(Clone, Debug)]
pub struct HookState {
    pub sessions: StrMap<HookSessionState>,
}

impl HookState {
    pub open spec fn wf(&self) -> bool {
        self.sessions.wf()
    }

    /// The sessions, each by its model.
    pub open spec fn sessions_view(&self) -> Map<Seq<char>, HookSessionView> {
        self.sessions@.map_values(|s: HookSessionState| s@)
    }
}

impl Default for HookState {
    fn default() -> (s: Self)
        ensures
            s.wf(),
            s.sessions_view() == Map::<Seq<char>, HookSessionView>::empty(),
    {
        let s = HookState { sessions: StrMap::new() };
        proof {
            assert(s.sessions_view() =~= Map::<Seq<char>, HookSessionView>::empty());
        }
        s
    }
}

} // verus!
