use vstd::prelude::*;

verus! {

/// How many records the history keeps.
pub const MAX_HISTORY: usize = 100;

/// What one channel made of a notification.
#[derive(Clone, Debug)]
pub struct ChannelResult {
    pub name: String,
    pub success: bool,
    pub error: Option<String>,
}

/// One dispatched notification and what each channel made of it.
#[derive(Clone, Debug)]
pub struct NotificationRecord {
    pub timestamp: String,
    pub project_name: String,
    pub project_dir: String,
    pub status: String,
    pub channels: Vec<ChannelResult>,
}

/// The latest dispatched notifications, oldest first.
#[derive(Clone, Debug)]
pub struct NotificationHistory {
    records: Vec<NotificationRecord>,
}

/// The history after one more record: it is appended, and the oldest ones
/// are dropped until at most `MAX_HISTORY` remain.
pub open spec fn history_after(h: Seq<NotificationRecord>, r: NotificationRecord) -> Seq<
    NotificationRecord,
> {
    let s = h.push(r);
    if s.len() > MAX_HISTORY {
        s.skip(s.len() - MAX_HISTORY)
    } else {
        s
    }
}

impl View for NotificationHistory {
    type V = Seq<NotificationRecord>;

    closed spec fn view(&self) -> Seq<NotificationRecord> {
        self.records@
    }
}

impl Default for NotificationHistory {
    fn default() -> (h: Self)
        ensures
            h@ == Seq::<NotificationRecord>::empty(),
    {
        NotificationHistory { records: Vec::new() }
    }
}

impl NotificationHistory {
    pub fn push(&mut self, record: NotificationRecord)
        ensures
            final(self)@ == history_after(old(self)@, record),
    {
        let ghost s = self.records@.push(record);
        self.records.push(record);
        let ghost mut dropped: int = 0;
        while self.records.len() > MAX_HISTORY
            invariant
                0 <= dropped <= s.len(),
                self.records@ == s.skip(dropped),
                dropped > 0 ==> s.len() - dropped >= MAX_HISTORY,
            decreases self.records.len(),
        {
            self.records.remove(0);
            proof {
                assert(s.skip(dropped).drop_first() =~= s.skip(dropped + 1));
                dropped = dropped + 1;
            }
        }
        proof {
            if s.len() <= MAX_HISTORY {
                assert(dropped == 0);
                assert(s.skip(0) =~= s);
            } else {
                assert(dropped == s.len() - MAX_HISTORY);
            }
        }
    }

    /// The records, oldest first.
    pub fn records(&self) -> (r: Vec<NotificationRecord>)
        ensures
            r@.len() == self@.len(),
            forall|i: int|
                0 <= i < r@.len() ==> same_record(#[trigger] r@[i], self@[i]),
    {
        let mut r: Vec<NotificationRecord> = Vec::new();
        let mut i: usize = 0;
        while i < self.records.len()
            invariant
                0 <= i <= self.records.len(),
                r@.len() == i,
                forall|j: int| 0 <= j < i ==> same_record(#[trigger] r@[j], self.records@[j]),
            decreases self.records.len() - i,
        {
            r.push(self.records[i].duplicate());
            i = i + 1;
        }
        r
    }

    pub fn clear(&mut self)
        ensures
            final(self)@ == Seq::<NotificationRecord>::empty(),
    {
        self.records.clear();
    }
}

/// Whether two records say the same.
pub open spec fn same_record(a: NotificationRecord, b: NotificationRecord) -> bool {
    &&& a.timestamp@ == b.timestamp@
    &&& a.project_name@ == b.project_name@
    &&& a.project_dir@ == b.project_dir@
    &&& a.status@ == b.status@
    &&& a.channels@ == b.channels@
}

impl ChannelResult {
    /// A field-by-field copy.
    pub fn duplicate(&self) -> (r: Self)
        ensures
            r == *self,
    {
        ChannelResult {
            name: self.name.clone(),
            success: self.success,
            error: match &self.error {
                Some(e) => Some(e.clone()),
                None => None,
            },
        }
    }
}

impl NotificationRecord {
    /// A field-by-field copy.
    pub fn duplicate(&self) -> (r: Self)
        ensures
            same_record(r, *self),
    {
        let mut channels: Vec<ChannelResult> = Vec::new();
        let mut i: usize = 0;
        while i < self.channels.len()
            invariant
                0 <= i <= self.channels.len(),
                channels@ == self.channels@.take(i as int),
            decreases self.channels.len() - i,
        {
            channels.push(self.channels[i].duplicate());
            assert(self.channels@.take(i + 1) == self.channels@.take(i as int).push(
                self.channels@[i as int],
            ));
            i = i + 1;
        }
        assert(self.channels@.take(self.channels.len() as int) =~= self.channels@);
        NotificationRecord {
            timestamp: self.timestamp.clone(),
            project_name: self.project_name.clone(),
            project_dir: self.project_dir.clone(),
            status: self.status.clone(),
            channels,
        }
    }
}

/// The history keeps at most `MAX_HISTORY` records, the newest last, and
/// keeps every record while there is room.
pub proof fn law_history_bounded(h: Seq<NotificationRecord>, r: NotificationRecord)
    requires
        h.len() <= MAX_HISTORY,
    ensures
        history_after(h, r).len() <= MAX_HISTORY,
        history_after(h, r).last() == r,
        h.len() < MAX_HISTORY ==> history_after(h, r) == h.push(r),
        h.len() == MAX_HISTORY ==> history_after(h, r) == h.drop_first().push(r),
{
    if h.len() == MAX_HISTORY {
        assert(h.push(r).skip(1) =~= h.drop_first().push(r));
    }
}

} // verus!
