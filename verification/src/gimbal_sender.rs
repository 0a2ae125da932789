//! The tool that sends gimbal commands: how many, how often, and what to do while one is pending.
use vstd::prelude::*;

verus! {

/// The shortest pause between two attempts, in nanoseconds.
pub const MIN_PAUSE_NS: u64 = 1_000_000;

/// The progress of sending.
#[derive(Debug, Clone, Copy, PartialEq, Eq, Structural)]
pub struct GimbalSender {
    pub published: u32,
    pub next_deadline_ns: u64,
}

impl GimbalSender {
    pub fn new(now_ns: u64) -> (r: Self)
        ensures
            r == (GimbalSender { published: 0, next_deadline_ns: now_ns }),
    {
        GimbalSender { published: 0, next_deadline_ns: now_ns }
    }

    /// Whether everything has been sent. A count of zero means to go on for ever.
    pub fn finished(&self, count: u32) -> (r: bool)
        ensures
            r == (count != 0 && self.published >= count),
    {
        count != 0 && self.published >= count
    }

    /// Counts a command that was accepted, and says for how long to pause: up to the next deadline,
    /// and at least for the shortest pause.
    pub fn accepted(&mut self, interval_ns: u64, now_ns: u64) -> (r: u64)
        requires
            old(self).published < u32::MAX,
            old(self).next_deadline_ns + interval_ns <= u64::MAX,
        ensures
            final(self).published == old(self).published + 1,
            final(self).next_deadline_ns == old(self).next_deadline_ns + interval_ns,
            r == (if final(self).next_deadline_ns - now_ns > MIN_PAUSE_NS {
                final(self).next_deadline_ns - now_ns
            } else {
                MIN_PAUSE_NS as int
            }),
    {
        self.published = self.published + 1;
        self.next_deadline_ns = self.next_deadline_ns + interval_ns;
        let wait_ns: u64 = self.next_deadline_ns.saturating_sub(now_ns);
        if wait_ns > MIN_PAUSE_NS {
            wait_ns
        } else {
            MIN_PAUSE_NS
        }
    }

    /// For how long to pause before the same command is tried again. Nothing is counted.
    pub fn refused(&self) -> (r: u64)
        ensures
            r == MIN_PAUSE_NS,
    {
        MIN_PAUSE_NS
    }
}

/// The shortest pause is a thousandth of a second.
pub proof fn law_the_shortest_pause_is_a_millisecond()
    ensures
        1000 * MIN_PAUSE_NS == 1_000_000_000,
{
}

} // verus!
