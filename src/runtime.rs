//! The decisions of the runtime loop: which tasks exist and where each stands, which worker runs
//! which offloaded call, what the loop does next, and when it may stop.
//!
//! The loop thread owns a `Runtime`. It tells it of every event (a task was received, a task
//! asked to offload a call, a call completed, a task finished) and asks it what to do next; it
//! performs that action itself. Offloaded calls run on a fixed table of worker slots, so no more
//! calls are in flight than there are workers; requests beyond that wait in order of arrival.
use vstd::prelude::*;
use crate::error::{AllocError, JlrsError, JlrsResult};
use crate::frame::Frame;

verus! {

/// The states of the runtime loop.
#[derive(Copy, Clone, Debug, PartialEq, Eq, Structural)]
pub enum Phase {
    /// Waiting on the mailbox.
    Idle,
    /// Draining received messages and tasks ready to resume.
    Running,
    /// Servicing the collector and the interpreter's own event queue.
    Ticking,
    /// Shutting down: the backlog and the tasks in flight are finished first.
    Draining,
    /// Terminal: the interpreter was torn down.
    Stopped,
}

/// Where a task stands.
#[derive(Copy, Clone, Debug, PartialEq, Eq, Structural)]
pub enum TaskStatus {
    /// Executing on the loop thread.
    Active,
    /// Suspended on an offloaded call that waits for a free worker.
    AwaitingWorker,
    /// Suspended on an offloaded call that runs on a worker.
    Offloaded,
    /// Its offloaded call completed; it waits to be resumed.
    Resumable,
    /// Finished; its result was delivered if it has a sink.
    Done,
}

/// The bookkeeping of one task.
#[derive(Copy, Clone, Debug, PartialEq, Eq, Structural)]
pub struct TaskEntry {
    /// Whether the task's result goes to a sink.
    pub has_sink: bool,
    pub status: TaskStatus,
    /// Whether the task's result was delivered to its sink.
    pub delivered: bool,
}

/// What the loop does next.
#[derive(Copy, Clone, Debug, PartialEq, Eq, Structural)]
pub enum Action {
    /// Take the oldest message from the mailbox and handle it.
    Receive,
    /// Resume the task with the given id: its offloaded call completed.
    Resume(usize),
    /// Run a collector safepoint and the interpreter's event queue.
    Tick,
    /// Tear the interpreter down; the loop then exits.
    TearDown,
    /// Wait for a message or a completed call, at most until this instant.
    Wait(u64),
    /// The loop has stopped.
    Exit,
}

/// The options with which the runtime starts.
#[derive(Copy, Clone, Debug, PartialEq, Eq, Structural)]
pub struct Config {
    /// The number of messages the mailbox holds before it refuses more.
    pub backlog: usize,
    /// The number of worker threads that offloaded calls may occupy at once.
    pub n_workers: usize,
    /// The default number of root slots of each task's frame.
    pub stack_size: usize,
    /// The interval between two maintenance ticks.
    pub tick_interval: u64,
}

/// The abstract state of the runtime.
pub struct RuntimeModel {
    pub phase: Phase,
    pub stack_size: nat,
    pub tick_interval: nat,
    /// The instant of the last maintenance tick.
    pub last_tick: nat,
    /// Every task received so far, by id.
    pub tasks: Seq<TaskEntry>,
    /// The worker slots: the task whose offloaded call each one runs, if any.
    pub workers: Seq<Option<usize>>,
    /// The tasks waiting for a free worker, oldest first.
    pub waiting: Seq<usize>,
    /// The tasks whose offloaded call completed, in order of completion.
    pub ready: Seq<usize>,
}

/// The number of worker slots that run a call.
pub open spec fn busy(workers: Seq<Option<usize>>) -> nat
    decreases workers.len(),
{
    if workers.len() == 0 {
        0
    } else {
        busy(workers.drop_last()) + if workers.last() is Some {
            1nat
        } else {
            0nat
        }
    }
}

proof fn lemma_busy_bounded(workers: Seq<Option<usize>>)
    ensures
        busy(workers) <= workers.len(),
    decreases workers.len(),
{
    if workers.len() > 0 {
        lemma_busy_bounded(workers.drop_last());
    }
}

impl RuntimeModel {
    pub open spec fn n_workers(self) -> nat {
        self.workers.len()
    }

    pub open spec fn status(self, t: int) -> TaskStatus {
        self.tasks[t].status
    }

    /// Every task has finished.
    pub open spec fn all_done(self) -> bool {
        forall|t: int| 0 <= t < self.tasks.len() ==> #[trigger] self.tasks[t].status
            == TaskStatus::Done
    }

    /// The queues and the worker slots agree with the tasks' statuses, no call runs on two
    /// workers, and a result was delivered exactly when its task finished with a sink.
    pub open spec fn wf(self) -> bool {
        &&& forall|w: int|
            0 <= w < self.workers.len() && (#[trigger] self.workers[w]) is Some ==> {
                let t = self.workers[w]->Some_0 as int;
                0 <= t < self.tasks.len() && self.tasks[t].status == TaskStatus::Offloaded
            }
        &&& forall|v: int, w: int|
            0 <= v < self.workers.len() && 0 <= w < self.workers.len() && v != w && (
            #[trigger] self.workers[v]) is Some && (#[trigger] self.workers[w]) is Some
                ==> self.workers[v] != self.workers[w]
        &&& forall|i: int|
            0 <= i < self.waiting.len() ==> {
                let t = #[trigger] self.waiting[i] as int;
                0 <= t < self.tasks.len() && self.tasks[t].status == TaskStatus::AwaitingWorker
            }
        &&& forall|i: int|
            0 <= i < self.ready.len() ==> {
                let t = #[trigger] self.ready[i] as int;
                0 <= t < self.tasks.len() && self.tasks[t].status == TaskStatus::Resumable
            }
        &&& forall|i: int, j: int|
            0 <= i < j < self.waiting.len() ==> #[trigger] self.waiting[i] != #[trigger] self.waiting[j]
        &&& forall|i: int, j: int|
            0 <= i < j < self.ready.len() ==> #[trigger] self.ready[i] != #[trigger] self.ready[j]
        &&& forall|t: int|
            0 <= t < self.tasks.len() ==> (#[trigger] self.tasks[t]).delivered == (
            self.tasks[t].status == TaskStatus::Done && self.tasks[t].has_sink)
        &&& self.phase == Phase::Stopped ==> self.all_done()
    }
}

/// The state of the runtime loop.
pub struct Runtime {
    phase: Phase,
    stack_size: usize,
    tick_interval: u64,
    last_tick: u64,
    tasks: Vec<TaskEntry>,
    workers: Vec<Option<usize>>,
    waiting: Vec<usize>,
    ready: Vec<usize>,
}

impl View for Runtime {
    type V = RuntimeModel;

    closed spec fn view(&self) -> RuntimeModel {
        RuntimeModel {
            phase: self.phase,
            stack_size: self.stack_size as nat,
            tick_interval: self.tick_interval as nat,
            last_tick: self.last_tick as nat,
            tasks: self.tasks@,
            workers: self.workers@,
            waiting: self.waiting@,
            ready: self.ready@,
        }
    }
}

/// The phase that handling work leads to: the loop keeps draining once it began to.
pub open spec fn busy_phase(p: Phase, next: Phase) -> Phase {
    if p == Phase::Draining {
        Phase::Draining
    } else {
        next
    }
}

/// The instant at which the next maintenance tick is due, or the largest instant when that one
/// is out of range.
pub open spec fn tick_deadline(last_tick: nat, interval: nat) -> nat {
    if last_tick + interval <= u64::MAX {
        last_tick + interval
    } else {
        u64::MAX as nat
    }
}

/// Whether a maintenance tick is due at `now`.
pub open spec fn tick_due(last_tick: nat, interval: nat, now: nat) -> bool {
    now >= last_tick + interval
}

/// The options are accepted: at least one slot of backlog, between one worker and the number
/// of threads that the interpreter itself runs, and a tick interval that is not zero.
pub open spec fn valid_config(config: Config, interpreter_threads: nat) -> bool {
    &&& config.backlog > 0
    &&& 0 < config.n_workers <= interpreter_threads
    &&& config.tick_interval > 0
}

/// What the loop does next, and the state it leaves, when `pending` messages wait in the
/// mailbox, the mailbox is closed or not, and the clock reads `now`. A due maintenance tick
/// comes first, whatever waits, so that a busy mailbox cannot hold it off; then tasks whose
/// offloaded call completed, oldest completion first; then received messages, also while
/// draining. Closing the mailbox starts the drain, and a draining loop tears down once nothing
/// waits and every task has finished. Otherwise the loop waits, at most until the next tick is
/// due.
pub open spec fn next_step(m: RuntimeModel, pending: nat, closed: bool, now: nat) -> (
    RuntimeModel,
    Action,
) {
    if m.phase == Phase::Stopped {
        (m, Action::Exit)
    } else {
        let p = if closed {
            Phase::Draining
        } else {
            m.phase
        };
        if tick_due(m.last_tick, m.tick_interval, now) {
            (
                RuntimeModel { phase: busy_phase(p, Phase::Ticking), last_tick: now, ..m },
                Action::Tick,
            )
        } else if m.ready.len() > 0 {
            let t = m.ready[0];
            (
                RuntimeModel {
                    phase: busy_phase(p, Phase::Running),
                    ready: m.ready.drop_first(),
                    tasks: m.tasks.update(
                        t as int,
                        TaskEntry { status: TaskStatus::Active, ..m.tasks[t as int] },
                    ),
                    ..m
                },
                Action::Resume(t),
            )
        } else if pending > 0 {
            (RuntimeModel { phase: busy_phase(p, Phase::Running), ..m }, Action::Receive)
        } else if p == Phase::Draining && m.all_done() {
            (RuntimeModel { phase: Phase::Stopped, ..m }, Action::TearDown)
        } else {
            (
                RuntimeModel { phase: busy_phase(p, Phase::Idle), ..m },
                Action::Wait(tick_deadline(m.last_tick, m.tick_interval) as u64),
            )
        }
    }
}

impl Runtime {
    pub open spec fn wf(&self) -> bool {
        self@.wf()
    }

    /// Starts the runtime's bookkeeping at instant `now`. Fails when a runtime was already
    /// started in this process, and when the options are not valid for an interpreter that runs
    /// `interpreter_threads` threads.
    pub fn init(config: Config, interpreter_threads: usize, already_initialized: bool, now: u64) -> (r:
        Result<Runtime, JlrsError>)
        ensures
            already_initialized ==> r == Err::<Runtime, JlrsError>(JlrsError::AlreadyInitialized),
            !already_initialized && !valid_config(config, interpreter_threads as nat) ==> (r matches Err(
                e,
            ) && e is Other),
            !already_initialized && valid_config(config, interpreter_threads as nat) ==> (r matches Ok(
                rt,
            ) && rt.wf() && rt@ == (RuntimeModel {
                phase: Phase::Idle,
                stack_size: config.stack_size as nat,
                tick_interval: config.tick_interval as nat,
                last_tick: now as nat,
                tasks: Seq::empty(),
                workers: Seq::new(config.n_workers as nat, |w: int| None),
                waiting: Seq::empty(),
                ready: Seq::empty(),
            })),
    {
        if already_initialized {
            return Err(JlrsError::AlreadyInitialized);
        }
        if config.backlog == 0 {
            return Err(JlrsError::other(String::from_str("The backlog must hold at least one message")));
        }
        if config.n_workers == 0 || config.n_workers > interpreter_threads {
            return Err(
                JlrsError::other(
                    String::from_str(
                        "The number of workers must be at least one and at most the number of threads of the interpreter",
                    ),
                ),
            );
        }
        if config.tick_interval == 0 {
            return Err(JlrsError::other(String::from_str("The tick interval must not be zero")));
        }
        let mut workers: Vec<Option<usize>> = Vec::new();
        let mut i: usize = 0;
        while i < config.n_workers
            invariant
                i <= config.n_workers,
                workers@ == Seq::new(i as nat, |w: int| None::<usize>),
            decreases config.n_workers - i,
        {
            workers.push(None);
            i = i + 1;
            proof {
                assert(workers@ =~= Seq::new(i as nat, |w: int| None::<usize>));
            }
        }
        let rt = Runtime {
            phase: Phase::Idle,
            stack_size: config.stack_size,
            tick_interval: config.tick_interval,
            last_tick: now,
            tasks: Vec::new(),
            workers,
            waiting: Vec::new(),
            ready: Vec::new(),
        };
        Ok(rt)
    }

    /// The current state of the loop.
    pub fn phase(&self) -> (r: Phase)
        ensures
            r == self@.phase,
    {
        self.phase
    }

    /// The number of tasks received so far.
    pub fn n_tasks(&self) -> (r: usize)
        ensures
            r == self@.tasks.len(),
    {
        self.tasks.len()
    }

    /// The bookkeeping of task `id`.
    pub fn task(&self, id: usize) -> (r: TaskEntry)
        requires
            id < self@.tasks.len(),
        ensures
            r == self@.tasks[id as int],
    {
        self.tasks[id]
    }

    /// The number of worker slots.
    pub fn n_workers(&self) -> (r: usize)
        ensures
            r == self@.n_workers(),
    {
        self.workers.len()
    }

    /// Opens the frame of a task: `slots` root slots when the task declares a budget, the
    /// default stack size when it does not. A budget larger than the default stack is a stack
    /// overflow.
    pub fn task_frame(&self, slots: Option<usize>) -> (r: Result<Frame, AllocError>)
        ensures
            ({
                let want = match slots {
                    Some(n) => n as nat,
                    None => self@.stack_size,
                };
                &&& want > self@.stack_size ==> r == Err::<Frame, AllocError>(
                    AllocError::StackOverflow(want as usize, self@.stack_size as usize),
                )
                &&& want <= self@.stack_size ==> (r matches Ok(f) && f.wf() && f@.capacity == want
                    && f@.used() == 0 && f@.scopes == seq![(0nat, want)])
            }),
    {
        let want = match slots {
            Some(n) => n,
            None => self.stack_size,
        };
        Frame::open(self.stack_size, want)
    }

    /// Records a task taken from the mailbox; it starts executing at once. Returns its id.
    pub fn accept_task(&mut self, has_sink: bool) -> (id: usize)
        requires
            old(self).wf(),
            old(self)@.phase != Phase::Stopped,
            old(self)@.tasks.len() < usize::MAX,
        ensures
            final(self).wf(),
            id == old(self)@.tasks.len(),
            final(self)@ == (RuntimeModel {
                phase: busy_phase(old(self)@.phase, Phase::Running),
                tasks: old(self)@.tasks.push(
                    TaskEntry { has_sink, status: TaskStatus::Active, delivered: false },
                ),
                ..old(self)@
            }),
    {
        let id = self.tasks.len();
        self.tasks.push(TaskEntry { has_sink, status: TaskStatus::Active, delivered: false });
        if self.phase != Phase::Draining {
            self.phase = Phase::Running;
        }
        proof {
            let m = self@;
            assert forall|w: int|
                0 <= w < m.workers.len() && (#[trigger] m.workers[w]) is Some implies {
                    let t = m.workers[w]->Some_0 as int;
                    0 <= t < m.tasks.len() && m.tasks[t].status == TaskStatus::Offloaded
                } by {
                let t = m.workers[w]->Some_0 as int;
                assert(m.tasks[t] == old(self)@.tasks[t]);
            }
            assert forall|i: int| 0 <= i < m.waiting.len() implies {
                let t = #[trigger] m.waiting[i] as int;
                0 <= t < m.tasks.len() && m.tasks[t].status == TaskStatus::AwaitingWorker
            } by {
                let t = m.waiting[i] as int;
                assert(m.tasks[t] == old(self)@.tasks[t]);
            }
            assert forall|i: int| 0 <= i < m.ready.len() implies {
                let t = #[trigger] m.ready[i] as int;
                0 <= t < m.tasks.len() && m.tasks[t].status == TaskStatus::Resumable
            } by {
                let t = m.ready[i] as int;
                assert(m.tasks[t] == old(self)@.tasks[t]);
            }
            assert forall|t: int| 0 <= t < m.tasks.len() implies (#[trigger] m.tasks[t]).delivered
                == (m.tasks[t].status == TaskStatus::Done && m.tasks[t].has_sink) by {
                if t < old(self)@.tasks.len() {
                    assert(m.tasks[t] == old(self)@.tasks[t]);
                }
            }
        }
        id
    }
    /// Task `id` asks to offload a call. When a worker slot is free the call is given the first
    /// free one, whose index is returned, and the task is suspended on it; otherwise the task
    /// waits, behind the earlier requests, for a worker, and `None` is returned.
    pub fn request_offload(&mut self, id: usize) -> (r: Option<usize>)
        requires
            old(self).wf(),
            id < old(self)@.tasks.len(),
            old(self)@.status(id as int) == TaskStatus::Active,
        ensures
            final(self).wf(),
            busy(final(self)@.workers) <= final(self)@.n_workers(),
            (exists|w: int| 0 <= w < old(self)@.workers.len() && old(self)@.workers[w] is None)
                ==> (r matches Some(w) && w < old(self)@.workers.len() && old(self)@.workers[w as int] is None
                && (forall|v: int| 0 <= v < w ==> old(self)@.workers[v] is Some)
                && final(self)@ == (RuntimeModel {
                tasks: old(self)@.tasks.update(
                    id as int,
                    TaskEntry { status: TaskStatus::Offloaded, ..old(self)@.tasks[id as int] },
                ),
                workers: old(self)@.workers.update(w as int, Some(id)),
                ..old(self)@
            })),
            (forall|w: int| 0 <= w < old(self)@.workers.len() ==> old(self)@.workers[w] is Some)
                ==> r is None && final(self)@ == (RuntimeModel {
                tasks: old(self)@.tasks.update(
                    id as int,
                    TaskEntry { status: TaskStatus::AwaitingWorker, ..old(self)@.tasks[id as int] },
                ),
                waiting: old(self)@.waiting.push(id),
                ..old(self)@
            }),
    {
        let ghost before = self@;
        let mut w: usize = 0;
        while w < self.workers.len()
            invariant
                self@ == before,
                w <= self.workers.len(),
                forall|v: int| 0 <= v < w ==> self.workers@[v] is Some,
            ensures
                w <= self.workers.len(),
                forall|v: int| 0 <= v < w ==> self.workers@[v] is Some,
                w < self.workers.len() ==> self.workers@[w as int] is None,
            decreases self.workers.len() - w,
        {
            if self.workers[w].is_none() {
                break;
            }
            w = w + 1;
        }
        let entry = self.tasks[id];
        if w < self.workers.len() {
            self.tasks.set(id, TaskEntry { status: TaskStatus::Offloaded, ..entry });
            self.workers.set(w, Some(id));
            proof {
                let m = self@;
                assert forall|v: int|
                    0 <= v < m.workers.len() && (#[trigger] m.workers[v]) is Some implies {
                        let t = m.workers[v]->Some_0 as int;
                        0 <= t < m.tasks.len() && m.tasks[t].status == TaskStatus::Offloaded
                    } by {
                    if v != w {
                        assert(m.workers[v] == before.workers[v]);
                        let t = m.workers[v]->Some_0 as int;
                        assert(before.tasks[t].status == TaskStatus::Offloaded);
                    }
                }
                assert forall|u: int, v: int|
                    0 <= u < m.workers.len() && 0 <= v < m.workers.len() && u != v && (
                    #[trigger] m.workers[u]) is Some && (#[trigger] m.workers[v]) is Some
                        implies m.workers[u] != m.workers[v] by {
                    if u != w && v != w {
                        assert(m.workers[u] == before.workers[u]);
                        assert(m.workers[v] == before.workers[v]);
                    } else if u == w {
                        assert(m.workers[v] == before.workers[v]);
                        assert(before.workers[v] is Some);
                    } else {
                        assert(m.workers[u] == before.workers[u]);
                        assert(before.workers[u] is Some);
                    }
                }
                assert forall|i: int| 0 <= i < m.waiting.len() implies {
                    let t = #[trigger] m.waiting[i] as int;
                    0 <= t < m.tasks.len() && m.tasks[t].status == TaskStatus::AwaitingWorker
                } by {
                    assert(before.waiting[i] == m.waiting[i]);
                }
                assert forall|i: int| 0 <= i < m.ready.len() implies {
                    let t = #[trigger] m.ready[i] as int;
                    0 <= t < m.tasks.len() && m.tasks[t].status == TaskStatus::Resumable
                } by {
                    assert(before.ready[i] == m.ready[i]);
                }
                assert forall|t: int| 0 <= t < m.tasks.len() implies (#[trigger] m.tasks[t]).delivered
                    == (m.tasks[t].status == TaskStatus::Done && m.tasks[t].has_sink) by {
                    assert(before.tasks[t].delivered == (before.tasks[t].status == TaskStatus::Done
                        && before.tasks[t].has_sink));
                }
                lemma_busy_bounded(m.workers);
                assert(m.tasks =~= before.tasks.update(
                    id as int,
                    TaskEntry { status: TaskStatus::Offloaded, ..before.tasks[id as int] },
                ));
            }
            Some(w)
        } else {
            self.tasks.set(id, TaskEntry { status: TaskStatus::AwaitingWorker, ..entry });
            self.waiting.push(id);
            proof {
                let m = self@;
                assert forall|v: int|
                    0 <= v < m.workers.len() && (#[trigger] m.workers[v]) is Some implies {
                        let t = m.workers[v]->Some_0 as int;
                        0 <= t < m.tasks.len() && m.tasks[t].status == TaskStatus::Offloaded
                    } by {
                    assert(m.workers[v] == before.workers[v]);
                }
                assert forall|i: int| 0 <= i < m.waiting.len() implies {
                    let t = #[trigger] m.waiting[i] as int;
                    0 <= t < m.tasks.len() && m.tasks[t].status == TaskStatus::AwaitingWorker
                } by {
                    if i < before.waiting.len() {
                        assert(before.waiting[i] == m.waiting[i]);
                    }
                }
                assert forall|i: int| 0 <= i < m.ready.len() implies {
                    let t = #[trigger] m.ready[i] as int;
                    0 <= t < m.tasks.len() && m.tasks[t].status == TaskStatus::Resumable
                } by {
                    assert(before.ready[i] == m.ready[i]);
                }
                assert forall|t: int| 0 <= t < m.tasks.len() implies (#[trigger] m.tasks[t]).delivered
                    == (m.tasks[t].status == TaskStatus::Done && m.tasks[t].has_sink) by {
                    assert(before.tasks[t].delivered == (before.tasks[t].status == TaskStatus::Done
                        && before.tasks[t].has_sink));
                }
                lemma_busy_bounded(m.workers);
                assert(m.tasks =~= before.tasks.update(
                    id as int,
                    TaskEntry { status: TaskStatus::AwaitingWorker, ..before.tasks[id as int] },
                ));
            }
            None
        }
    }

    /// The offloaded call on worker slot `w` completed: its task becomes ready to resume, and
    /// the slot goes to the oldest task waiting for a worker, whose id is returned, or is freed.
    pub fn complete_offload(&mut self, w: usize) -> (r: Option<usize>)
        requires
            old(self).wf(),
            w < old(self)@.workers.len(),
            old(self)@.workers[w as int] is Some,
        ensures
            final(self).wf(),
            busy(final(self)@.workers) <= final(self)@.n_workers(),
            ({
                let m = old(self)@;
                let t = m.workers[w as int]->Some_0;
                let tasks = m.tasks.update(
                    t as int,
                    TaskEntry { status: TaskStatus::Resumable, ..m.tasks[t as int] },
                );
                &&& m.waiting.len() == 0 ==> r is None && final(self)@ == (RuntimeModel {
                    tasks,
                    workers: m.workers.update(w as int, None),
                    ready: m.ready.push(t),
                    ..m
                })
                &&& m.waiting.len() > 0 ==> r == Some(m.waiting[0]) && final(self)@ == (
                RuntimeModel {
                    tasks: tasks.update(
                        m.waiting[0] as int,
                        TaskEntry { status: TaskStatus::Offloaded, ..m.tasks[m.waiting[0] as int] },
                    ),
                    workers: m.workers.update(w as int, Some(m.waiting[0])),
                    waiting: m.waiting.drop_first(),
                    ready: m.ready.push(t),
                    ..m
                })
            }),
    {
        let ghost before = self@;
        let t = self.workers[w].unwrap();
        let entry = self.tasks[t];
        self.tasks.set(t, TaskEntry { status: TaskStatus::Resumable, ..entry });
        self.ready.push(t);
        let ghost mid = self@;
        proof {
            assert(before.tasks[t as int].status == TaskStatus::Offloaded);
            assert forall|i: int| 0 <= i < before.ready.len() implies before.ready[i] != t by {
                assert(before.tasks[before.ready[i] as int].status == TaskStatus::Resumable);
            }
            assert forall|i: int| 0 <= i < before.waiting.len() implies before.waiting[i] != t by {
                assert(before.tasks[before.waiting[i] as int].status == TaskStatus::AwaitingWorker);
            }
            assert forall|v: int| 0 <= v < before.workers.len() && v != w && before.workers[v] is Some
                implies before.workers[v]->Some_0 != t by {
                assert(before.workers[v] != before.workers[w as int]);
            }
        }
        let r = if self.waiting.len() > 0 {
            let u = self.waiting.remove(0);
            let entry_u = self.tasks[u];
            self.tasks.set(u, TaskEntry { status: TaskStatus::Offloaded, ..entry_u });
            self.workers.set(w, Some(u));
            proof {
                assert(before.waiting[0] == u);
                assert(before.tasks[u as int].status == TaskStatus::AwaitingWorker);
                assert(u != t);
                assert forall|i: int| 0 <= i < self.waiting@.len() implies self.waiting@[i] != u by {
                    assert(self.waiting@[i] == before.waiting[i + 1]);
                }
                assert forall|v: int| 0 <= v < before.workers.len() && before.workers[v] is Some
                    implies before.workers[v]->Some_0 != u by {
                    assert(before.tasks[before.workers[v]->Some_0 as int].status
                        == TaskStatus::Offloaded);
                }
                assert forall|i: int| 0 <= i < mid.ready.len() implies mid.ready[i] != u by {
                    if i < before.ready.len() {
                        assert(before.tasks[before.ready[i] as int].status == TaskStatus::Resumable);
                    }
                }
            }
            Some(u)
        } else {
            self.workers.set(w, None);
            None
        };
        proof {
            let m = self@;
            assert forall|v: int|
                0 <= v < m.workers.len() && (#[trigger] m.workers[v]) is Some implies {
                    let x = m.workers[v]->Some_0 as int;
                    0 <= x < m.tasks.len() && m.tasks[x].status == TaskStatus::Offloaded
                } by {
                if v != w {
                    assert(m.workers[v] == before.workers[v]);
                }
            }
            assert forall|u: int, v: int|
                0 <= u < m.workers.len() && 0 <= v < m.workers.len() && u != v && (
                #[trigger] m.workers[u]) is Some && (#[trigger] m.workers[v]) is Some
                    implies m.workers[u] != m.workers[v] by {
                if u != w && v != w {
                    assert(m.workers[u] == before.workers[u]);
                    assert(m.workers[v] == before.workers[v]);
                } else if u == w {
                    assert(m.workers[v] == before.workers[v]);
                } else {
                    assert(m.workers[u] == before.workers[u]);
                }
            }
            assert forall|i: int| 0 <= i < m.waiting.len() implies {
                let x = #[trigger] m.waiting[i] as int;
                0 <= x < m.tasks.len() && m.tasks[x].status == TaskStatus::AwaitingWorker
            } by {
                if before.waiting.len() > 0 {
                    assert(m.waiting[i] == before.waiting[i + 1]);
                    assert(before.waiting[i + 1] != before.waiting[0]);
                } else {
                    assert(m.waiting[i] == before.waiting[i]);
                }
            }
            assert forall|i: int, j: int|
                0 <= i < j < m.waiting.len() implies #[trigger] m.waiting[i] != #[trigger] m.waiting[j] by {
                if before.waiting.len() > 0 {
                    assert(m.waiting[i] == before.waiting[i + 1]);
                    assert(m.waiting[j] == before.waiting[j + 1]);
                } else {
                    assert(m.waiting[i] == before.waiting[i]);
                    assert(m.waiting[j] == before.waiting[j]);
                }
            }
            assert forall|i: int| 0 <= i < m.ready.len() implies {
                let x = #[trigger] m.ready[i] as int;
                0 <= x < m.tasks.len() && m.tasks[x].status == TaskStatus::Resumable
            } by {
                if i < before.ready.len() {
                    assert(m.ready[i] == before.ready[i]);
                } else {
                    assert(m.ready[i] == t);
                }
            }
            assert forall|i: int, j: int|
                0 <= i < j < m.ready.len() implies #[trigger] m.ready[i] != #[trigger] m.ready[j] by {
                assert(m.ready[i] == before.ready[i]);
                if j < before.ready.len() {
                    assert(m.ready[j] == before.ready[j]);
                }
            }
            assert forall|x: int| 0 <= x < m.tasks.len() implies (#[trigger] m.tasks[x]).delivered
                == (m.tasks[x].status == TaskStatus::Done && m.tasks[x].has_sink) by {
                assert(before.tasks[x].delivered == (before.tasks[x].status == TaskStatus::Done
                    && before.tasks[x].has_sink));
            }
            lemma_busy_bounded(m.workers);
            if before.waiting.len() > 0 {
                assert(m.waiting =~= before.waiting.drop_first());
            }
        }
        r
    }

    /// Task `id` finished. Returns whether its result goes to a sink; the result is then
    /// recorded as delivered. A task finishes once: only an executing task can finish.
    pub fn finish_task(&mut self, id: usize) -> (r: bool)
        requires
            old(self).wf(),
            id < old(self)@.tasks.len(),
            old(self)@.status(id as int) == TaskStatus::Active,
        ensures
            final(self).wf(),
            r == old(self)@.tasks[id as int].has_sink,
            !old(self)@.tasks[id as int].delivered,
            final(self)@ == (RuntimeModel {
                tasks: old(self)@.tasks.update(
                    id as int,
                    TaskEntry { status: TaskStatus::Done, delivered: r, ..old(self)@.tasks[id as int] },
                ),
                ..old(self)@
            }),
    {
        let ghost before = self@;
        let entry = self.tasks[id];
        let deliver = entry.has_sink;
        self.tasks.set(id, TaskEntry { status: TaskStatus::Done, delivered: deliver, ..entry });
        proof {
            let m = self@;
            assert forall|v: int|
                0 <= v < m.workers.len() && (#[trigger] m.workers[v]) is Some implies {
                    let x = m.workers[v]->Some_0 as int;
                    0 <= x < m.tasks.len() && m.tasks[x].status == TaskStatus::Offloaded
                } by {
                assert(m.workers[v] == before.workers[v]);
            }
            assert forall|i: int| 0 <= i < m.waiting.len() implies {
                let x = #[trigger] m.waiting[i] as int;
                0 <= x < m.tasks.len() && m.tasks[x].status == TaskStatus::AwaitingWorker
            } by {
                assert(m.waiting[i] == before.waiting[i]);
            }
            assert forall|i: int| 0 <= i < m.ready.len() implies {
                let x = #[trigger] m.ready[i] as int;
                0 <= x < m.tasks.len() && m.tasks[x].status == TaskStatus::Resumable
            } by {
                assert(m.ready[i] == before.ready[i]);
            }
            assert forall|x: int| 0 <= x < m.tasks.len() implies (#[trigger] m.tasks[x]).delivered
                == (m.tasks[x].status == TaskStatus::Done && m.tasks[x].has_sink) by {
                assert(before.tasks[x].delivered == (before.tasks[x].status == TaskStatus::Done
                    && before.tasks[x].has_sink));
            }
            assert(before.tasks[id as int].delivered == (before.tasks[id as int].status
                == TaskStatus::Done && before.tasks[id as int].has_sink));
        }
        deliver
    }

    /// A shutdown was requested: the loop begins to drain, unless it already stopped.
    pub fn begin_shutdown(&mut self)
        requires
            old(self).wf(),
        ensures
            final(self).wf(),
            old(self)@.phase == Phase::Stopped ==> final(self)@ == old(self)@,
            old(self)@.phase != Phase::Stopped ==> final(self)@ == (RuntimeModel {
                phase: Phase::Draining,
                ..old(self)@
            }),
    {
        if self.phase != Phase::Stopped {
            self.phase = Phase::Draining;
        }
    }

    /// Whether every task received so far has finished.
    pub fn all_done(&self) -> (r: bool)
        ensures
            r == self@.all_done(),
    {
        let mut i: usize = 0;
        while i < self.tasks.len()
            invariant
                i <= self.tasks.len(),
                forall|t: int| 0 <= t < i ==> #[trigger] self.tasks@[t].status == TaskStatus::Done,
            decreases self.tasks.len() - i,
        {
            if self.tasks[i].status != TaskStatus::Done {
                return false;
            }
            i = i + 1;
        }
        true
    }

    /// Decides what the loop does next, as `next_step` describes, and moves to the state it
    /// leaves.
    pub fn next_action(&mut self, pending: usize, closed: bool, now: u64) -> (r: Action)
        requires
            old(self).wf(),
        ensures
            final(self).wf(),
            (final(self)@, r) == next_step(old(self)@, pending as nat, closed, now as nat),
    {
        let ghost before = self@;
        if self.phase == Phase::Stopped {
            return Action::Exit;
        }
        if closed {
            self.phase = Phase::Draining;
        }
        if self.last_tick <= now && now - self.last_tick >= self.tick_interval {
            self.last_tick = now;
            if self.phase != Phase::Draining {
                self.phase = Phase::Ticking;
            }
            return Action::Tick;
        }
        if self.ready.len() > 0 {
            let t = self.ready.remove(0);
            let entry = self.tasks[t];
            self.tasks.set(t, TaskEntry { status: TaskStatus::Active, ..entry });
            if self.phase != Phase::Draining {
                self.phase = Phase::Running;
            }
            proof {
                let m = self@;
                assert(before.ready[0] == t);
                assert(m.ready =~= before.ready.drop_first());
                assert forall|v: int|
                    0 <= v < m.workers.len() && (#[trigger] m.workers[v]) is Some implies {
                        let x = m.workers[v]->Some_0 as int;
                        0 <= x < m.tasks.len() && m.tasks[x].status == TaskStatus::Offloaded
                    } by {
                    assert(m.workers[v] == before.workers[v]);
                }
                assert forall|i: int| 0 <= i < m.waiting.len() implies {
                    let x = #[trigger] m.waiting[i] as int;
                    0 <= x < m.tasks.len() && m.tasks[x].status == TaskStatus::AwaitingWorker
                } by {
                    assert(m.waiting[i] == before.waiting[i]);
                }
                assert forall|i: int| 0 <= i < m.ready.len() implies {
                    let x = #[trigger] m.ready[i] as int;
                    0 <= x < m.tasks.len() && m.tasks[x].status == TaskStatus::Resumable
                } by {
                    assert(m.ready[i] == before.ready[i + 1]);
                    assert(before.ready[0] != before.ready[i + 1]);
                }
                assert forall|i: int, j: int|
                    0 <= i < j < m.ready.len() implies #[trigger] m.ready[i] != #[trigger] m.ready[j] by {
                    assert(m.ready[i] == before.ready[i + 1]);
                    assert(m.ready[j] == before.ready[j + 1]);
                }
                assert forall|x: int| 0 <= x < m.tasks.len() implies (#[trigger] m.tasks[x]).delivered
                    == (m.tasks[x].status == TaskStatus::Done && m.tasks[x].has_sink) by {
                    assert(before.tasks[x].delivered == (before.tasks[x].status == TaskStatus::Done
                        && before.tasks[x].has_sink));
                }
            }
            return Action::Resume(t);
        }
        if pending > 0 {
            if self.phase != Phase::Draining {
                self.phase = Phase::Running;
            }
            return Action::Receive;
        }
        if self.phase == Phase::Draining && self.all_done() {
            self.phase = Phase::Stopped;
            return Action::TearDown;
        }
        if self.phase != Phase::Draining {
            self.phase = Phase::Idle;
        }
        let deadline = if self.last_tick <= u64::MAX - self.tick_interval {
            self.last_tick + self.tick_interval
        } else {
            u64::MAX
        };
        Action::Wait(deadline)
    }
}


/// Each task with a result sink gets exactly one result: once the loop has stopped, every task
/// with a sink has finished and had its result delivered.
pub proof fn lemma_stopped_sinks_delivered(m: RuntimeModel)
    requires
        m.wf(),
        m.phase == Phase::Stopped,
    ensures
        forall|t: int|
            0 <= t < m.tasks.len() && (#[trigger] m.tasks[t]).has_sink ==> m.tasks[t].delivered
                && m.tasks[t].status == TaskStatus::Done,
{
    assert forall|t: int| 0 <= t < m.tasks.len() && (#[trigger] m.tasks[t]).has_sink implies m.tasks[t].delivered
        && m.tasks[t].status == TaskStatus::Done by {
        assert(m.tasks[t].status == TaskStatus::Done);
    }
}

/// No sink gets a second result: a task whose result was delivered has finished, so it can
/// neither execute nor finish again.
pub proof fn lemma_delivered_is_final(m: RuntimeModel, id: int)
    requires
        m.wf(),
        0 <= id < m.tasks.len(),
        m.tasks[id].delivered,
    ensures
        m.status(id) == TaskStatus::Done,
        m.status(id) != TaskStatus::Active,
{
    assert(m.tasks[id].delivered == (m.tasks[id].status == TaskStatus::Done && m.tasks[id].has_sink));
}

/// No more offloaded calls are in flight than there are workers, after any sequence of
/// requests and completions.
pub proof fn lemma_offloads_within_pool(m: RuntimeModel)
    ensures
        busy(m.workers) <= m.n_workers(),
{
    lemma_busy_bounded(m.workers);
}

/// A closed mailbox is drained before the loop exits: while messages wait, the loop receives
/// them, also when it is draining, as soon as no tick is due and no task is ready; it tears down
/// only when none waits and every task has finished, and then every task with a sink has had its
/// result delivered.
pub proof fn lemma_drain_before_exit(m: RuntimeModel, pending: nat, closed: bool, now: nat)
    requires
        m.wf(),
    ensures
        ({
            let (m2, a) = next_step(m, pending, closed, now);
            &&& m.phase != Phase::Stopped && pending > 0 && m.ready.len() == 0 && !tick_due(
                m.last_tick,
                m.tick_interval,
                now,
            ) ==> a == Action::Receive
            &&& a == Action::TearDown ==> pending == 0 && m.ready.len() == 0 && m.all_done() && (
            closed || m.phase == Phase::Draining)
            &&& m2.phase == Phase::Stopped ==> forall|t: int|
                0 <= t < m2.tasks.len() && (#[trigger] m2.tasks[t]).has_sink
                    ==> m2.tasks[t].delivered
        }),
{
    let (m2, a) = next_step(m, pending, closed, now);
    if m2.phase == Phase::Stopped {
        assert(m2.tasks == m.tasks);
        assert(m.all_done());
        assert forall|t: int| 0 <= t < m2.tasks.len() && (#[trigger] m2.tasks[t]).has_sink implies m2.tasks[t].delivered by {
            assert(m.tasks[t].status == TaskStatus::Done);
            assert(m.tasks[t].delivered == (m.tasks[t].status == TaskStatus::Done
                && m.tasks[t].has_sink));
        }
    }
}

/// The tick interval bounds how long a completed offloaded call waits for its task to resume,
/// however many messages wait: a due tick runs first and restarts the interval; otherwise the
/// task whose call completed first resumes before any message is received. So when the next
/// step comes within one interval of this one, that task resumes at this step or the next. The
/// loop never sleeps while a task is ready or a message waits, and when it sleeps it wakes at
/// the latest when the next tick is due.
pub proof fn lemma_wait_bounded_by_tick(
    m: RuntimeModel,
    pending: nat,
    closed: bool,
    now: nat,
    pending2: nat,
    closed2: bool,
    now2: nat,
)
    requires
        m.wf(),
    ensures
        ({
            let (m2, a) = next_step(m, pending, closed, now);
            &&& m.phase != Phase::Stopped && tick_due(m.last_tick, m.tick_interval, now) ==> a
                == Action::Tick && m2.last_tick == now && m2.ready == m.ready
            &&& m.phase != Phase::Stopped && !tick_due(m.last_tick, m.tick_interval, now)
                && m.ready.len() > 0 ==> a == Action::Resume(m.ready[0])
            &&& m.phase != Phase::Stopped && m.ready.len() > 0 && now2 < now + m.tick_interval
                ==> (a == Action::Resume(m.ready[0]) || (a == Action::Tick && next_step(
                m2,
                pending2,
                closed2,
                now2,
            ).1 == Action::Resume(m.ready[0])))
            &&& a is Wait ==> pending == 0 && m.ready.len() == 0 && !tick_due(
                m.last_tick,
                m.tick_interval,
                now,
            ) && a->Wait_0 <= m.last_tick + m.tick_interval
        }),
{
}

/// The outcome of loading the source file at `path`: whether it was found, and the type of the
/// exception that loading it raised, if any. The error names the file, and the exception.
pub fn include_result(path: String, found: bool, exception: Option<String>) -> (r: JlrsResult<()>)
    ensures
        !found ==> (r matches Err(e) && *e == JlrsError::IncludeNotFound(path)),
        found && exception is None ==> r == Ok::<(), Box<JlrsError>>(()),
        found && exception is Some ==> (r matches Err(e) && *e == JlrsError::IncludeError(
            path,
            exception->Some_0,
        )),
{
    if !found {
        return Err(Box::new(JlrsError::IncludeNotFound(path)));
    }
    match exception {
        None => Ok(()),
        Some(exc) => Err(Box::new(JlrsError::IncludeError(path, exc))),
    }
}

} // verus!
