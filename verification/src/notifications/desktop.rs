use vstd::prelude::*;

use crate::notifications::{body_of, title_of, SessionNotification};

verus! {

/// Shows notifications as desktop pop-ups.
#[derive(Clone, Debug)]
pub struct DesktopSink {}

impl DesktopSink {
    pub fn new() -> (s: Self) {
        DesktopSink {  }
    }

    /// The summary and body of the pop-up for `notification`.
    pub fn message(&self, notification: &SessionNotification) -> (r: (String, String))
        ensures
            r.0@ == title_of(*notification),
            r.1@ == body_of(*notification),
    {
        (notification.title(), notification.body())
    }
}

impl Default for DesktopSink {
    fn default() -> (s: Self) {
        DesktopSink {  }
    }
}

} // verus!
