use vstd::prelude::*;
use vstd::string::StringSliceAdditionalSpecFns;

use crate::text::{is_white, is_white_exec, chars_of, lines, lines_of};

verus! {

/// A directory path joined with a relative name: no separator is put after
/// an empty directory or one that already ends in `/`.
pub open spec fn join_path(dir: Seq<char>, name: Seq<char>) -> Seq<char> {
    if dir.len() == 0 || dir.last() == '/' {
        dir + name
    } else {
        dir + "/"@ + name
    }
}

/// A directory path joined with a relative name (see `join_path`).
pub fn join_path_str(dir: &str, name: &str) -> (r: String)
    ensures
        r@ == join_path(dir@, name@),
{
    let v = chars_of(dir);
    let mut r = dir.to_string();
    if v.len() > 0 && v[v.len() - 1] != '/' {
        r.append("/");
    }
    r.append(name);
    r
}

/// Where the headless watcher looks for its files, and how long it sleeps
/// between two looks.
#[derive(Clone, Debug)]
pub struct WatcherConfig {
    pub eocc_dir: String,
    pub poll_interval_secs: u64,
}

impl WatcherConfig {
    /// The configuration for the home directory `home`: the `.eocc`
    /// directory in it, polled every second.
    pub fn for_home(home: &str) -> (c: Self)
        ensures
            c.eocc_dir@ == join_path(home@, ".eocc"@),
            c.poll_interval_secs == 1,
    {
        WatcherConfig { eocc_dir: join_path_str(home, ".eocc"), poll_interval_secs: 1 }
    }

    /// The queue of events that the hook appends to.
    pub fn events_path(&self) -> (r: String)
        ensures
            r@ == join_path(join_path(self.eocc_dir@, "logs"@), "events.jsonl"@),
    {
        let logs = join_path_str(self.eocc_dir.as_str(), "logs");
        join_path_str(logs.as_str(), "events.jsonl")
    }

    /// Where the queue is moved while the watcher reads it.
    pub fn processing_path(&self) -> (r: String)
        ensures
            r@ == join_path(join_path(self.eocc_dir@, "logs"@), "events.processing.jsonl"@),
    {
        let logs = join_path_str(self.eocc_dir.as_str(), "logs");
        join_path_str(logs.as_str(), "events.processing.jsonl")
    }

    /// The notification settings.
    pub fn settings_path(&self) -> (r: String)
        ensures
            r@ == join_path(self.eocc_dir@, "notification_settings.toml"@),
    {
        join_path_str(self.eocc_dir.as_str(), "notification_settings.toml")
    }
}

/// Whether a line holds nothing but white space.
pub open spec fn is_blank(l: Seq<char>) -> bool {
    forall|j: int| 0 <= j < l.len() ==> is_white(#[trigger] l[j])
}

fn blank(l: &str) -> (r: bool)
    ensures
        r == is_blank(l@),
{
    let v = chars_of(l);
    let mut i: usize = 0;
    while i < v.len()
        invariant
            v@ == l@,
            i <= v.len(),
            forall|j: int| 0 <= j < i ==> is_white(#[trigger] v@[j]),
        decreases v.len() - i,
    {
        if !is_white_exec(v[i]) {
            return false;
        }
        i = i + 1;
    }
    true
}

/// The lines of a queue of events that hold an event: those that are not
/// blank, in order.
pub open spec fn queued_lines(content: Seq<char>) -> Seq<Seq<char>> {
    lines_of(content).filter(|l: Seq<char>| !is_blank(l))
}

/// The lines of a queue of events that hold an event (see `queued_lines`).
pub fn event_lines(content: &str) -> (r: Vec<String>)
    ensures
        r@.map_values(|l: String| l@) == queued_lines(content@),
{
    let all = lines(content);
    let ghost av = all@.map_values(|l: String| l@);
    let mut r: Vec<String> = Vec::new();
    let mut i: usize = 0;
    proof {
        reveal(Seq::filter);
        assert(av.take(0) =~= Seq::<Seq<char>>::empty());
        assert(r@.map_values(|l: String| l@) =~= Seq::<Seq<char>>::empty());
    }
    while i < all.len()
        invariant
            av == all@.map_values(|l: String| l@),
            av == lines_of(content@),
            0 <= i <= all.len(),
            r@.map_values(|l: String| l@) == av.take(i as int).filter(
                |l: Seq<char>| !is_blank(l),
            ),
        decreases all.len() - i,
    {
        let ghost before = r@.map_values(|l: String| l@);
        proof {
            reveal(Seq::filter);
            assert(av.take(i + 1).drop_last() =~= av.take(i as int));
            assert(av.take(i + 1).last() == all@[i as int]@);
        }
        if !blank(all[i].as_str()) {
            r.push(all[i].clone());
            proof {
                assert(r@.map_values(|l: String| l@) =~= before.push(all@[i as int]@));
            }
        }
        i = i + 1;
    }
    proof {
        assert(av.take(all.len() as int) =~= av);
    }
    r
}

} // verus!
