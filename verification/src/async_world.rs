//! The hand-over between a suspended loading task and the system that drives it.
//!
//! The task never holds the world across a suspension. It leaves behind a job, which the driver runs
//! on its behalf before polling again, or it waits for a signal, which wakes it. Jobs, their results
//! and the wakers are the engine's.
use vstd::prelude::*;

verus! {

#[derive(Debug)]
pub enum SignalState<W> {
    Pending { remaining: usize, waker: Option<W> },
    Fired,
}

/// A notification that completes after a fixed number of arrivals, awaited by the task.
///
/// Arriving before anyone awaits is fine, the wait then completes immediately, so there is no race
/// between an observer running and the task reaching its await point.
#[derive(Debug)]
pub struct Signal<W> {
    pub state: SignalState<W>,
}

impl<W> Signal<W> {
    /// A pending signal still waits for something.
    pub open spec fn wf(self) -> bool {
        self.state matches SignalState::Pending { remaining, .. } ==> remaining > 0
    }

    /// The arrivals that are still missing.
    pub open spec fn missing(self) -> nat {
        match self.state {
            SignalState::Pending { remaining, .. } => remaining as nat,
            SignalState::Fired => 0,
        }
    }

    /// The waker of the task that waits.
    pub open spec fn waiting(self) -> Option<W> {
        match self.state {
            SignalState::Pending { waker, .. } => waker,
            SignalState::Fired => None,
        }
    }

    /// A signal that completes after `count` arrivals. `0` is already complete.
    pub fn new(count: usize) -> (r: Self)
        ensures
            r.wf(),
            r.missing() == count,
            r.waiting() is None,
    {
        if count == 0 {
            Signal { state: SignalState::Fired }
        } else {
            Signal { state: SignalState::Pending { remaining: count, waker: None } }
        }
    }

    /// Records one arrival. On the last one the waker of the task that waits is handed out, to be
    /// woken. Extra arrivals are ignored.
    pub fn arrive(&mut self) -> (r: Option<W>)
        requires
            old(self).wf(),
        ensures
            final(self).wf(),
            final(self).missing() == (if old(self).missing() == 0 {
                0
            } else {
                (old(self).missing() - 1) as nat
            }),
            if old(self).missing() == 1 {
                r == old(self).waiting() && final(self).waiting() is None
            } else {
                r is None && final(self).waiting() == old(self).waiting()
            },
    {
        let mut state: SignalState<W> = SignalState::Fired;
        std::mem::swap(&mut state, &mut self.state);
        match state {
            SignalState::Fired => None,
            SignalState::Pending { remaining, waker } => {
                if remaining == 1 {
                    waker
                } else {
                    self.state = SignalState::Pending { remaining: remaining - 1, waker };
                    None
                }
            },
        }
    }

    /// Whether every arrival has been recorded. If not, the waker is kept for the last one.
    pub fn poll_wait(&mut self, waker: W) -> (r: bool)
        requires
            old(self).wf(),
        ensures
            final(self).wf(),
            final(self).missing() == old(self).missing(),
            r == (old(self).missing() == 0),
            final(self).waiting() == (if r {
                None
            } else {
                Some(waker)
            }),
    {
        match self.state {
            SignalState::Fired => true,
            SignalState::Pending { remaining, waker: _ } => {
                self.state = SignalState::Pending { remaining, waker: Some(waker) };
                false
            },
        }
    }
}

/// The arrivals that are still missing after some more.
pub open spec fn missing_after(missing: nat, arrivals: nat) -> nat
    decreases arrivals,
{
    if arrivals == 0 {
        missing
    } else {
        let before = missing_after(missing, (arrivals - 1) as nat);
        if before == 0 {
            0
        } else {
            (before - 1) as nat
        }
    }
}

/// A signal completes with exactly the arrival it counts to, and stays complete.
pub proof fn law_signal_counts_every_arrival(count: nat, arrivals: nat)
    ensures
        missing_after(count, arrivals) == 0 <==> arrivals >= count,
{
    lemma_missing_after(count, arrivals);
}

proof fn lemma_missing_after(count: nat, arrivals: nat)
    ensures
        missing_after(count, arrivals) == (if arrivals >= count {
            0
        } else {
            (count - arrivals) as nat
        }),
    decreases arrivals,
{
    if arrivals > 0 {
        lemma_missing_after(count, (arrivals - 1) as nat);
    }
}

/// Records a single arrival, the first time its event fires.
///
/// Events like asset reloads can fire more than once; the latch keeps a repeat from consuming
/// another entity's arrival.
#[derive(Debug, Clone, Copy, PartialEq, Eq, Structural)]
pub struct ObserveOnce {
    pub arrived: bool,
}

impl ObserveOnce {
    pub fn new() -> (r: Self)
        ensures
            !r.arrived,
    {
        ObserveOnce { arrived: false }
    }

    /// Whether this event is the arrival.
    pub fn fire(&mut self) -> (r: bool)
        ensures
            r == !old(self).arrived,
            final(self).arrived,
    {
        let first: bool = !self.arrived;
        self.arrived = true;
        first
    }
}

/// The rendezvous between a suspended task and its driver.
///
/// At most one job and one result are outstanding, because a task is a single chain of awaits and
/// can only be blocked on one thing.
#[derive(Debug)]
pub struct TaskChannel<J, R> {
    pub job: Option<J>,
    pub result: Option<R>,
}

/// What polling a world job gives.
#[derive(Debug)]
pub enum JobPoll<R> {
    Ready(R),
    /// The job was left for the driver, and the task has to be woken for its result.
    Pending,
}

impl<J, R> TaskChannel<J, R> {
    pub fn new() -> (r: Self)
        ensures
            r.job is None,
            r.result is None,
    {
        TaskChannel { job: None, result: None }
    }

    /// Polls a world job from the task's side. A result that the driver has left completes it; else
    /// the job itself is left for the driver.
    pub fn poll_job(&mut self, job: &mut Option<J>) -> (r: JobPoll<R>)
        requires
            old(self).result is None ==> *old(job) is Some,
        ensures
            match old(self).result {
                Some(result) => {
                    &&& r == JobPoll::Ready(result)
                    &&& final(self).result is None
                    &&& final(self).job == old(self).job
                    &&& *final(job) == *old(job)
                },
                None => {
                    &&& r is Pending
                    &&& final(self).result is None
                    &&& final(self).job == *old(job)
                    &&& *final(job) is None
                },
            },
    {
        if let Some(result) = self.result.take() {
            return JobPoll::Ready(result);
        }
        self.job = job.take();
        JobPoll::Pending
    }
}

/// What the driver does after it has polled the task.
#[derive(Debug)]
pub enum DriveAction<J> {
    /// The task is done and is not kept.
    Finished,
    /// The job is run on the world, and its result left in the channel.
    RunJob(J),
    /// The task waits for a signal; it is kept for a later frame.
    Park,
}

/// The side of the driver: whether the task has been woken since it was last polled.
#[derive(Debug, Clone, Copy, PartialEq, Eq, Structural)]
pub struct TaskDriver {
    pub woken: bool,
}

impl TaskDriver {
    /// Starts woken: the task has not been polled even once yet.
    pub fn new() -> (r: Self)
        ensures
            r.woken,
    {
        TaskDriver { woken: true }
    }

    pub fn wake(&mut self)
        ensures
            final(self).woken,
    {
        self.woken = true;
    }

    /// Whether the task is to be polled now. Each wake-up counts once.
    pub fn should_poll(&mut self) -> (r: bool)
        ensures
            r == old(self).woken,
            !final(self).woken,
    {
        let woken: bool = self.woken;
        self.woken = false;
        woken
    }

    /// What follows a poll: `ready` says that it completed the task.
    pub fn after_poll<J, R>(&self, channel: &mut TaskChannel<J, R>, ready: bool) -> (r: DriveAction<
        J,
    >)
        ensures
            final(channel).result == old(channel).result,
            if ready {
                r is Finished && final(channel).job == old(channel).job
            } else {
                &&& final(channel).job is None
                &&& match old(channel).job {
                    Some(job) => r == DriveAction::RunJob(job),
                    None => r is Park,
                }
            },
    {
        if ready {
            return DriveAction::Finished;
        }
        match channel.job.take() {
            Some(job) => DriveAction::RunJob(job),
            None => DriveAction::Park,
        }
    }

    /// Leaves the result of a job for the task, which has been woken for it.
    pub fn job_done<J, R>(&self, channel: &mut TaskChannel<J, R>, result: R)
        ensures
            final(channel).job == old(channel).job,
            final(channel).result == Some(result),
    {
        channel.result = Some(result);
    }
}

} // verus!
