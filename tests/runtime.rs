use jlrs::error::{AllocError, JlrsError};
use jlrs::mailbox::{Mailbox, RuntimeMessage};
use jlrs::runtime::{Action, Config, Phase, Runtime, TaskStatus};

#[derive(Debug)]
struct Job {
    dims: i64,
    iters: i64,
    has_sink: bool,
}

// Stands in for the interpreter function that a task offloads.
fn complexfunc(dims: i64, iters: i64) -> f64 {
    (dims * dims) as f64 * iters as f64 / 1000.0
}

fn config(n_workers: usize) -> Config {
    Config { backlog: 16, n_workers, stack_size: 16, tick_interval: 1000 }
}

struct Driver {
    rt: Runtime,
    mailbox: Mailbox<RuntimeMessage<Job>>,
    jobs: Vec<(i64, i64)>,
    // what each worker slot computes, and for which task
    running: Vec<Option<(usize, f64)>>,
    results: Vec<Option<f64>>,
    sinks: Vec<Vec<f64>>,
    max_in_flight: usize,
    newest_first: bool,
    actions: Vec<Action>,
}

impl Driver {
    fn new(n_workers: usize, newest_first: bool) -> Driver {
        let rt = Runtime::init(config(n_workers), 4, false, 0).unwrap();
        Driver {
            rt,
            mailbox: Mailbox::new(16),
            jobs: Vec::new(),
            running: vec![None; n_workers],
            results: Vec::new(),
            sinks: Vec::new(),
            max_in_flight: 0,
            newest_first,
            actions: Vec::new(),
        }
    }

    fn start(&mut self, w: usize, id: usize) {
        let (d, i) = self.jobs[id];
        assert!(self.running[w].is_none());
        self.running[w] = Some((id, complexfunc(d, i)));
        let n = self.running.iter().filter(|r| r.is_some()).count();
        self.max_in_flight = self.max_in_flight.max(n);
    }

    fn run(&mut self, limit: usize) {
        let mut now: u64 = 1;
        for _ in 0..limit {
            let a = self.rt.next_action(self.mailbox.len(), self.mailbox.is_closed(), now);
            self.actions.push(a);
            match a {
                Action::Receive => match self.mailbox.recv() {
                    Some(RuntimeMessage::NewTask(job)) => {
                        let id = self.rt.accept_task(job.has_sink);
                        self.jobs.push((job.dims, job.iters));
                        self.results.push(None);
                        self.sinks.push(Vec::new());
                        if let Some(w) = self.rt.request_offload(id) {
                            self.start(w, id);
                        }
                    }
                    Some(RuntimeMessage::IncludeFile(_)) => {}
                    Some(RuntimeMessage::Shutdown) => self.rt.begin_shutdown(),
                    None => panic!("nothing to receive"),
                },
                Action::Resume(id) => {
                    let value = self.results[id].take().unwrap();
                    if self.rt.finish_task(id) {
                        self.sinks[id].push(value);
                    }
                }
                Action::Tick => {}
                Action::Wait(_) => {
                    let busy: Vec<usize> =
                        (0..self.running.len()).filter(|w| self.running[*w].is_some()).collect();
                    let w = if self.newest_first { *busy.last().unwrap() } else { busy[0] };
                    let (id, value) = self.running[w].take().unwrap();
                    self.results[id] = Some(value);
                    if let Some(next) = self.rt.complete_offload(w) {
                        self.start(w, next);
                    }
                }
                Action::TearDown | Action::Exit => return,
            }
            now += 1;
        }
        panic!("the loop did not stop");
    }
}

#[test]
fn init_rejects_bad_options() {
    assert_eq!(
        Runtime::init(config(2), 4, true, 0).err(),
        Some(JlrsError::AlreadyInitialized)
    );
    assert!(matches!(Runtime::init(config(5), 4, false, 0), Err(JlrsError::Other(_))));
    assert!(matches!(Runtime::init(config(0), 4, false, 0), Err(JlrsError::Other(_))));
    let no_tick = Config { tick_interval: 0, ..config(1) };
    assert!(matches!(Runtime::init(no_tick, 4, false, 0), Err(JlrsError::Other(_))));
    let no_backlog = Config { backlog: 0, ..config(1) };
    assert!(matches!(Runtime::init(no_backlog, 4, false, 0), Err(JlrsError::Other(_))));
    let rt = Runtime::init(config(4), 4, false, 0).unwrap();
    assert_eq!(rt.n_workers(), 4);
    assert_eq!(rt.phase(), Phase::Idle);
}

#[test]
fn task_frames_follow_the_stack_size() {
    let rt = Runtime::init(config(1), 1, false, 0).unwrap();
    let f = rt.task_frame(None).unwrap();
    assert_eq!(f.capacity(), 16);
    assert_eq!(f.room(), 16);
    assert_eq!(rt.task_frame(Some(4)).unwrap().capacity(), 4);
    assert!(matches!(rt.task_frame(Some(17)), Err(AllocError::StackOverflow(17, 16))));
}

#[test]
fn every_sink_gets_one_result() {
    let mut d = Driver::new(2, true);
    for i in 0..10 {
        let job = Job { dims: i, iters: 100, has_sink: i % 3 != 0 };
        assert!(d.mailbox.try_send(RuntimeMessage::NewTask(job)).is_ok());
    }
    d.mailbox.close();
    d.run(1000);
    assert_eq!(d.rt.phase(), Phase::Stopped);
    assert_eq!(d.rt.n_tasks(), 10);
    for id in 0..10 {
        let entry = d.rt.task(id);
        assert_eq!(entry.status, TaskStatus::Done);
        let expected = if id % 3 != 0 { 1 } else { 0 };
        assert_eq!(d.sinks[id].len(), expected);
        assert_eq!(entry.delivered, expected == 1);
    }
}

#[test]
fn offloads_never_exceed_the_pool() {
    let mut d = Driver::new(2, false);
    for i in 0..6 {
        let job = Job { dims: i, iters: 10, has_sink: true };
        d.mailbox.try_send(RuntimeMessage::NewTask(job)).unwrap();
    }
    d.mailbox.close();
    d.run(1000);
    assert_eq!(d.max_in_flight, 2);
    assert!(d.sinks.iter().all(|s| s.len() == 1));
}

#[test]
fn waiting_requests_get_freed_workers() {
    let mut rt = Runtime::init(config(1), 1, false, 0).unwrap();
    let a = rt.accept_task(true);
    let b = rt.accept_task(true);
    assert_eq!(rt.request_offload(a), Some(0));
    assert_eq!(rt.request_offload(b), None);
    assert_eq!(rt.task(b).status, TaskStatus::AwaitingWorker);
    assert_eq!(rt.complete_offload(0), Some(b));
    assert_eq!(rt.task(a).status, TaskStatus::Resumable);
    assert_eq!(rt.task(b).status, TaskStatus::Offloaded);
    assert_eq!(rt.complete_offload(0), None);
    assert_eq!(rt.next_action(0, false, 1), Action::Resume(a));
    assert_eq!(rt.next_action(0, false, 2), Action::Resume(b));
}

#[test]
fn closing_drains_queued_tasks_first() {
    let mut d = Driver::new(1, false);
    for i in 0..5 {
        d.mailbox.try_send(RuntimeMessage::NewTask(Job { dims: i, iters: 3, has_sink: true })).unwrap();
    }
    d.mailbox.close();
    d.run(1000);
    let receives = d.actions.iter().filter(|a| **a == Action::Receive).count();
    assert_eq!(receives, 5);
    assert_eq!(*d.actions.last().unwrap(), Action::TearDown);
    assert!(d.sinks.iter().all(|s| s.len() == 1));
    assert_eq!(d.rt.next_action(0, true, 10_000), Action::Exit);
}

#[test]
fn shutdown_message_drains_too() {
    let mut d = Driver::new(2, false);
    d.mailbox.try_send(RuntimeMessage::NewTask(Job { dims: 1, iters: 1, has_sink: true })).unwrap();
    d.mailbox.try_send(RuntimeMessage::Shutdown).unwrap();
    d.mailbox.try_send(RuntimeMessage::NewTask(Job { dims: 2, iters: 1, has_sink: true })).unwrap();
    d.run(1000);
    assert_eq!(d.rt.phase(), Phase::Stopped);
    assert_eq!(d.sinks.len(), 2);
    assert!(d.sinks.iter().all(|s| s.len() == 1));
}

#[test]
fn two_tasks_deliver_on_their_own_sinks() {
    let mut d = Driver::new(2, true);
    d.mailbox.try_send(RuntimeMessage::NewTask(Job { dims: 4, iters: 5_000_000, has_sink: true })).unwrap();
    d.mailbox.try_send(RuntimeMessage::NewTask(Job { dims: 6, iters: 5_000_000, has_sink: true })).unwrap();
    d.mailbox.close();
    d.run(100);
    assert_eq!(d.sinks[0], vec![complexfunc(4, 5_000_000)]);
    assert_eq!(d.sinks[1], vec![complexfunc(6, 5_000_000)]);
    assert_ne!(d.sinks[0][0], d.sinks[1][0]);
    // the second task's call completed first and it was resumed first
    let resumes: Vec<Action> =
        d.actions.iter().copied().filter(|a| matches!(a, Action::Resume(_))).collect();
    assert_eq!(resumes, vec![Action::Resume(1), Action::Resume(0)]);
}

#[test]
fn ticks_bound_the_wait() {
    let cfg = Config { backlog: 4, n_workers: 1, stack_size: 8, tick_interval: 50 };
    let mut rt = Runtime::init(cfg, 1, false, 100).unwrap();
    assert_eq!(rt.next_action(0, false, 120), Action::Wait(150));
    assert_eq!(rt.phase(), Phase::Idle);
    assert_eq!(rt.next_action(0, false, 150), Action::Tick);
    assert_eq!(rt.phase(), Phase::Ticking);
    assert_eq!(rt.next_action(0, false, 151), Action::Wait(200));
    assert_eq!(rt.next_action(1, false, 160), Action::Receive);
    assert_eq!(rt.phase(), Phase::Running);
    let id = rt.accept_task(false);
    assert_eq!(rt.request_offload(id), Some(0));
    assert_eq!(rt.complete_offload(0), None);
    // an overdue tick runs first, then the completed call resumes at the next step
    assert_eq!(rt.next_action(0, false, 400), Action::Tick);
    assert_eq!(rt.next_action(0, false, 400), Action::Resume(id));
    assert!(!rt.finish_task(id));
}

#[test]
fn busy_mailbox_does_not_hold_off_ticks_or_resumes() {
    let cfg = Config { backlog: 4, n_workers: 2, stack_size: 8, tick_interval: 10 };
    let mut rt = Runtime::init(cfg, 2, false, 0).unwrap();
    let a = rt.accept_task(true);
    let b = rt.accept_task(true);
    assert_eq!(rt.request_offload(a), Some(0));
    assert_eq!(rt.request_offload(b), Some(1));
    assert_eq!(rt.complete_offload(1), None);
    // messages keep waiting, yet the completed call resumes first
    assert_eq!(rt.next_action(4, false, 1), Action::Resume(b));
    assert_eq!(rt.next_action(4, false, 2), Action::Receive);
    // and a due tick runs even though messages wait
    assert_eq!(rt.next_action(4, false, 10), Action::Tick);
    assert_eq!(rt.next_action(4, false, 11), Action::Receive);
    assert_eq!(rt.complete_offload(0), None);
    assert_eq!(rt.next_action(4, false, 12), Action::Resume(a));
}

#[test]
fn wait_deadline_saturates() {
    let cfg = Config { backlog: 1, n_workers: 1, stack_size: 1, tick_interval: u64::MAX };
    let mut rt = Runtime::init(cfg, 1, false, 10).unwrap();
    assert_eq!(rt.next_action(0, false, 11), Action::Wait(u64::MAX));
}

#[test]
fn stopped_loop_exits() {
    let mut rt = Runtime::init(config(1), 1, false, 0).unwrap();
    assert_eq!(rt.next_action(0, true, 1), Action::TearDown);
    assert_eq!(rt.phase(), Phase::Stopped);
    assert_eq!(rt.next_action(3, false, 2), Action::Exit);
}
