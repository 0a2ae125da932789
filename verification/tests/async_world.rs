use daedalus::async_world::{
    DriveAction, JobPoll, ObserveOnce, Signal, TaskChannel, TaskDriver,
};
use std::any::Any;
use std::future::{poll_fn, Future};
use std::pin::Pin;
use std::sync::{Arc, Mutex};
use std::task::{Context, Poll, Wake, Waker};

type Job = Box<dyn FnOnce(&mut Steps) -> Box<dyn Any + Send> + Send>;
type Channel = Arc<Mutex<TaskChannel<Job, Box<dyn Any + Send>>>>;

/// What the task has done so far.
struct Steps(Vec<&'static str>);

struct TaskWaker(Mutex<TaskDriver>);

impl Wake for TaskWaker {
    fn wake(self: Arc<Self>) {
        self.0.lock().unwrap().wake();
    }
}

#[derive(Clone)]
struct SharedSignal(Arc<Mutex<Signal<Waker>>>);

impl SharedSignal {
    fn new(count: usize) -> Self {
        SharedSignal(Arc::new(Mutex::new(Signal::new(count))))
    }

    fn arrive(&self) {
        let waker = self.0.lock().unwrap().arrive();
        if let Some(waker) = waker {
            waker.wake();
        }
    }

    async fn wait(&self) {
        poll_fn(|cx| {
            if self.0.lock().unwrap().poll_wait(cx.waker().clone()) {
                Poll::Ready(())
            } else {
                Poll::Pending
            }
        })
        .await;
    }
}

struct AsyncWorld(Channel);

impl AsyncWorld {
    async fn push(&self, step: &'static str) {
        let mut job: Option<Job> = Some(Box::new(move |steps: &mut Steps| {
            steps.0.push(step);
            let done: Box<dyn Any + Send> = Box::new(());
            done
        }));
        poll_fn(|cx| match self.0.lock().unwrap().poll_job(&mut job) {
            JobPoll::Ready(_) => Poll::Ready(()),
            JobPoll::Pending => {
                cx.waker().wake_by_ref();
                Poll::Pending
            }
        })
        .await;
    }
}

struct Task {
    future: Pin<Box<dyn Future<Output = ()>>>,
    channel: Channel,
    waker: Arc<TaskWaker>,
}

impl Task {
    fn new<F: Future<Output = ()> + 'static>(task: impl FnOnce(AsyncWorld) -> F) -> Option<Task> {
        let channel: Channel = Arc::new(Mutex::new(TaskChannel::new()));
        Some(Task {
            future: Box::pin(task(AsyncWorld(channel.clone()))),
            channel,
            waker: Arc::new(TaskWaker(Mutex::new(TaskDriver::new()))),
        })
    }
}

fn drive(slot: &mut Option<Task>, steps: &mut Steps) {
    let Some(mut task) = slot.take() else {
        return;
    };
    let waker = Waker::from(task.waker.clone());
    let mut cx = Context::from_waker(&waker);
    loop {
        let poll = task.waker.0.lock().unwrap().should_poll();
        if !poll {
            break;
        }
        let ready = task.future.as_mut().poll(&mut cx).is_ready();
        let driver = *task.waker.0.lock().unwrap();
        let action = driver.after_poll(&mut task.channel.lock().unwrap(), ready);
        match action {
            DriveAction::Finished => return,
            DriveAction::RunJob(job) => {
                let result = job(steps);
                driver.job_done(&mut task.channel.lock().unwrap(), result);
            }
            DriveAction::Park => break,
        }
    }
    *slot = Some(task);
}

#[test]
fn consecutive_world_jobs_run_in_one_frame() {
    let mut steps = Steps(Vec::new());
    let mut task = Task::new(|w: AsyncWorld| async move {
        for step in ["a", "b", "c"] {
            w.push(step).await;
        }
    });

    drive(&mut task, &mut steps);

    assert_eq!(steps.0, vec!["a", "b", "c"]);
    assert!(task.is_none());
}

#[test]
fn a_task_awaiting_a_signal_resumes_when_it_fires() {
    let signal = SharedSignal::new(1);
    let mut steps = Steps(Vec::new());
    let waited = signal.clone();
    let mut task = Task::new(|w: AsyncWorld| async move {
        w.push("before").await;
        waited.wait().await;
        w.push("after").await;
    });

    drive(&mut task, &mut steps);
    assert_eq!(steps.0, vec!["before"]);

    // Not woken: polling again must not advance the task.
    drive(&mut task, &mut steps);
    assert_eq!(steps.0, vec!["before"]);

    signal.arrive();
    drive(&mut task, &mut steps);
    assert_eq!(steps.0, vec!["before", "after"]);
    assert!(task.is_none());
}

#[test]
fn a_counting_signal_waits_for_every_arrival() {
    let signal = SharedSignal::new(3);
    let mut steps = Steps(Vec::new());
    let waited = signal.clone();
    let mut task = Task::new(|w: AsyncWorld| async move {
        waited.wait().await;
        w.push("all arrived").await;
    });

    drive(&mut task, &mut steps);
    for _ in 0..2 {
        signal.arrive();
        drive(&mut task, &mut steps);
        assert!(steps.0.is_empty());
    }

    signal.arrive();
    drive(&mut task, &mut steps);
    assert_eq!(steps.0, vec!["all arrived"]);

    // Late arrivals must not panic or resurrect the signal.
    signal.arrive();
}

#[test]
fn an_empty_signal_is_already_complete() {
    let mut steps = Steps(Vec::new());
    let mut task = Task::new(|w: AsyncWorld| async move {
        SharedSignal::new(0).wait().await;
        w.push("skipped").await;
    });

    drive(&mut task, &mut steps);

    assert_eq!(steps.0, vec!["skipped"]);
    assert!(task.is_none());
}

#[test]
fn a_signal_fired_before_the_wait_does_not_deadlock() {
    let signal = SharedSignal::new(1);
    signal.arrive();

    let mut steps = Steps(Vec::new());
    let mut task = Task::new(move |w: AsyncWorld| async move {
        signal.wait().await;
        w.push("done").await;
    });

    drive(&mut task, &mut steps);

    assert_eq!(steps.0, vec!["done"]);
    assert!(task.is_none());
}

#[test]
fn an_observer_counts_its_first_event_only() {
    let mut once = ObserveOnce::new();
    assert!(once.fire());
    assert!(!once.fire());
    assert!(!once.fire());
}
