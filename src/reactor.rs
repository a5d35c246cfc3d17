//! A reactor: the per-core driver of logical threads and of cooperative
//! tasks. Logical threads and futures are known here by their identifiers;
//! running a future's body and polling a thread's message queue are the
//! caller's part, and the reactor decides what runs when.
use vstd::prelude::*;

use crossbeam::queue::SegQueue;

use crate::queues::{
    channel_contents,
    channel_new,
    channel_send,
    channel_try_recv,
    current_tid,
    queue_new,
    queue_pop,
    queued,
    TaskChannel,
};

verus! {

/// The state of a reactor.
#[derive(Clone, Copy, Debug, PartialEq, Eq, Structural)]
pub enum ReactorState {
    Init,
    Running,
    Shutdown,
    Delayed,
}

/// The transitions a reactor's state may take: `Init` to `Running` or
/// `Delayed`, between `Running` and `Delayed`, and from any state to
/// `Shutdown`, which is terminal. Staying put is always allowed.
pub open spec fn transition_allowed(from: ReactorState, to: ReactorState) -> bool {
    ||| from == to
    ||| to == ReactorState::Shutdown
    ||| (from == ReactorState::Init && (to == ReactorState::Running || to == ReactorState::Delayed))
    ||| (from == ReactorState::Running && to == ReactorState::Delayed)
    ||| (from == ReactorState::Delayed && to == ReactorState::Running)
}

/// The state a request for `to` leaves a reactor in.
pub open spec fn next_state(from: ReactorState, to: ReactorState) -> ReactorState {
    if transition_allowed(from, to) {
        to
    } else {
        from
    }
}

/// The name of a state.
pub open spec fn state_name(s: ReactorState) -> Seq<char> {
    match s {
        ReactorState::Init => "Init"@,
        ReactorState::Running => "Running"@,
        ReactorState::Shutdown => "Shutdown"@,
        ReactorState::Delayed => "Delayed"@,
    }
}

impl ReactorState {
    /// The name of the state.
    pub fn as_str(&self) -> (r: &'static str)
        ensures
            r@ == state_name(*self),
    {
        match self {
            ReactorState::Init => "Init",
            ReactorState::Running => "Running",
            ReactorState::Shutdown => "Shutdown",
            ReactorState::Delayed => "Delayed",
        }
    }
}

/// A logical thread owned by a reactor: its identifier, whether it has
/// exited, and how many times it was polled (saturating).
#[derive(Clone, Copy, Debug, PartialEq, Eq, Structural)]
pub struct LThread {
    pub id: u64,
    pub exited: bool,
    pub polls: u64,
}

/// A thread after `n` more polls.
pub open spec fn polled_times(t: LThread, n: nat) -> LThread {
    LThread { polls: if t.polls + n <= u64::MAX { (t.polls + n) as u64 } else { u64::MAX }, ..t }
}

/// A newly adopted thread.
pub open spec fn adopted(id: u64) -> LThread {
    LThread { id, exited: false, polls: 0 }
}

/// The identifiers of a sequence of threads.
pub open spec fn thread_ids(s: Seq<LThread>) -> Seq<u64> {
    s.map_values(|t: LThread| t.id)
}

/// Holds of the threads that have not exited.
pub open spec fn live() -> spec_fn(LThread) -> bool {
    |t: LThread| !t.exited
}

/// Holds of the threads that have exited.
pub open spec fn exited_thread() -> spec_fn(LThread) -> bool {
    |t: LThread| t.exited
}

/// What the primary reactor's driver is told after one poll of it.
#[derive(Clone, Copy, Debug, PartialEq, Eq, Structural)]
pub enum PrimaryPoll {
    /// Poll again.
    Pending,
    /// The reactor has shut down and destroyed its threads.
    Ready,
}

/// The per-core driver.
#[derive(Debug)]
pub struct Reactor {
    /// Threads owned by this reactor, in the order they were adopted.
    pub threads: Vec<LThread>,
    /// Threads scheduled onto this reactor and not adopted yet.
    pub incoming: SegQueue<u64>,
    /// The core this reactor runs on.
    pub lcore: u32,
    pub flags: ReactorState,
    /// The OS thread the poll loop runs on, once started.
    pub tid: u64,
    /// Futures sent to this reactor from any core.
    pub inbox: TaskChannel,
    /// Tasks spawned on this core and not run yet.
    pub tasks: TaskChannel,
}

/// The tasks that the next poll of `r` runs, in order: those spawned on its
/// core, then the futures sent to it.
pub open spec fn runnable(r: Reactor) -> Seq<u64> {
    channel_contents(r.tasks) + channel_contents(r.inbox)
}

/// The threads of `r` after its threads are polled `n` times and its
/// incoming threads adopted.
pub open spec fn polled_and_adopted(r: Reactor, n: nat) -> Seq<LThread> {
    r.threads@.map_values(|t: LThread| polled_times(t, n)) + queued(r.incoming).map_values(
        |id: u64| adopted(id),
    )
}

/// `after` is `before` after a poll that polls the threads `n` times: every
/// runnable task has run, and the incoming threads are adopted.
pub open spec fn poll_done(before: Reactor, after: Reactor, n: nat) -> bool {
    &&& channel_contents(after.tasks) == Seq::<u64>::empty()
    &&& channel_contents(after.inbox) == Seq::<u64>::empty()
    &&& after.threads@ == polled_and_adopted(before, n)
    &&& queued(after.incoming) == Seq::<u64>::empty()
    &&& after.lcore == before.lcore
    &&& after.flags == before.flags
    &&& after.tid == before.tid
}

/// `after` is `before` with only its state changed, to `flags`.
pub open spec fn restated(before: Reactor, after: Reactor, flags: ReactorState) -> bool {
    &&& after.flags == flags
    &&& after.threads == before.threads
    &&& after.incoming == before.incoming
    &&& after.lcore == before.lcore
    &&& after.tid == before.tid
    &&& after.inbox == before.inbox
    &&& after.tasks == before.tasks
}

proof fn lemma_polled_once_more(s: Seq<LThread>, k: nat)
    ensures
        s.map_values(|t: LThread| polled_times(t, k)).map_values(|t: LThread| polled_times(t, 1))
            == s.map_values(|t: LThread| polled_times(t, k + 1)),
{
    assert(s.map_values(|t: LThread| polled_times(t, k)).map_values(|t: LThread| polled_times(t, 1))
        =~= s.map_values(|t: LThread| polled_times(t, k + 1)));
}

impl Reactor {
    /// A new reactor for `core`: `Init`, owning nothing.
    pub fn new(core: u32) -> (r: Self)
        ensures
            r.lcore == core,
            r.flags == ReactorState::Init,
            r.tid == 0,
            r.threads@ == Seq::<LThread>::empty(),
            queued(r.incoming) == Seq::<u64>::empty(),
            channel_contents(r.inbox) == Seq::<u64>::empty(),
            channel_contents(r.tasks) == Seq::<u64>::empty(),
    {
        Reactor {
            threads: Vec::new(),
            incoming: queue_new(),
            lcore: core,
            flags: ReactorState::Init,
            tid: 0,
            inbox: channel_new(),
            tasks: channel_new(),
        }
    }

    /// Moves to `state` where the transition is allowed; otherwise the
    /// state stays as it is.
    fn set_state(&mut self, state: ReactorState)
        ensures
            restated(*old(self), *final(self), next_state(old(self).flags, state)),
    {
        let allowed = match (self.flags, state) {
            (ReactorState::Shutdown, ReactorState::Shutdown) => true,
            (ReactorState::Shutdown, _) => false,
            (_, ReactorState::Shutdown) => true,
            (ReactorState::Init, ReactorState::Init) => true,
            (ReactorState::Init, _) => true,
            (_, ReactorState::Init) => false,
            _ => true,
        };
        if allowed {
            self.flags = state;
        }
    }

    /// Asks the reactor to poll for work at full speed.
    pub fn running(&mut self)
        ensures
            restated(*old(self), *final(self), next_state(old(self).flags, ReactorState::Running)),
    {
        self.set_state(ReactorState::Running)
    }

    /// Asks the reactor to sleep a millisecond before each poll.
    pub fn developer_delayed(&mut self)
        ensures
            restated(*old(self), *final(self), next_state(old(self).flags, ReactorState::Delayed)),
    {
        self.set_state(ReactorState::Delayed)
    }

    /// Asks the reactor to stop polling.
    pub fn shutdown(&mut self)
        ensures
            restated(*old(self), *final(self), ReactorState::Shutdown),
    {
        self.set_state(ReactorState::Shutdown)
    }

    /// The current state.
    pub fn get_state(&self) -> (r: ReactorState)
        ensures
            r == self.flags,
    {
        self.flags
    }

    /// The core of this reactor.
    pub fn core_id(&self) -> (r: u32)
        ensures
            r == self.lcore,
    {
        self.lcore
    }

    /// The OS thread the poll loop runs on.
    pub fn tid(&self) -> (r: u64)
        ensures
            r == self.tid,
    {
        self.tid
    }

    /// Sends the future `f` to this reactor, from any core; the reactor
    /// adopts it on its next poll.
    pub fn send_future(&mut self, f: u64)
        ensures
            channel_contents(final(self).inbox) == channel_contents(old(self).inbox).push(f),
            final(self).threads == old(self).threads,
            final(self).incoming == old(self).incoming,
            final(self).lcore == old(self).lcore,
            final(self).flags == old(self).flags,
            final(self).tid == old(self).tid,
            final(self).tasks == old(self).tasks,
    {
        channel_send(&mut self.inbox, f)
    }

    /// Spawns the task `f` on this core's task queue.
    pub fn spawn_local(&mut self, f: u64)
        ensures
            channel_contents(final(self).tasks) == channel_contents(old(self).tasks).push(f),
            final(self).threads == old(self).threads,
            final(self).incoming == old(self).incoming,
            final(self).lcore == old(self).lcore,
            final(self).flags == old(self).flags,
            final(self).tid == old(self).tid,
            final(self).inbox == old(self).inbox,
    {
        channel_send(&mut self.tasks, f)
    }

    /// Moves every future received on the inbox to the local task queue, in
    /// the order received.
    fn receive_futures(&mut self)
        ensures
            channel_contents(final(self).tasks) == runnable(*old(self)),
            channel_contents(final(self).inbox) == Seq::<u64>::empty(),
            final(self).threads == old(self).threads,
            final(self).incoming == old(self).incoming,
            final(self).lcore == old(self).lcore,
            final(self).flags == old(self).flags,
            final(self).tid == old(self).tid,
    {
        loop
            invariant
                runnable(*self) == runnable(*old(self)),
                self.threads == old(self).threads,
                self.incoming == old(self).incoming,
                self.lcore == old(self).lcore,
                self.flags == old(self).flags,
                self.tid == old(self).tid,
            ensures
                runnable(*self) == runnable(*old(self)),
                channel_contents(self.inbox) == Seq::<u64>::empty(),
                self.threads == old(self).threads,
                self.incoming == old(self).incoming,
                self.lcore == old(self).lcore,
                self.flags == old(self).flags,
                self.tid == old(self).tid,
            decreases channel_contents(self.inbox).len(),
        {
            let ghost before = channel_contents(self.inbox);
            match channel_try_recv(&mut self.inbox) {
                Some(f) => {
                    let ghost t = channel_contents(self.tasks);
                    channel_send(&mut self.tasks, f);
                    assert(t.push(f) + before.drop_first() =~= t + before);
                },
                None => {
                    break ;
                },
            }
        }
        assert(channel_contents(self.tasks) + Seq::<u64>::empty() =~= channel_contents(self.tasks));
    }

    /// Runs every task of the local queue once, oldest first, appending
    /// each to `ran`.
    fn run_futures(&mut self, ran: &mut Vec<u64>)
        ensures
            final(ran)@ == old(ran)@ + channel_contents(old(self).tasks),
            channel_contents(final(self).tasks) == Seq::<u64>::empty(),
            final(self).threads == old(self).threads,
            final(self).incoming == old(self).incoming,
            final(self).lcore == old(self).lcore,
            final(self).flags == old(self).flags,
            final(self).tid == old(self).tid,
            final(self).inbox == old(self).inbox,
    {
        loop
            invariant
                ran@ + channel_contents(self.tasks) == old(ran)@ + channel_contents(old(self).tasks),
                self.threads == old(self).threads,
                self.incoming == old(self).incoming,
                self.lcore == old(self).lcore,
                self.flags == old(self).flags,
                self.tid == old(self).tid,
                self.inbox == old(self).inbox,
            ensures
                ran@ + channel_contents(self.tasks) == old(ran)@ + channel_contents(old(self).tasks),
                channel_contents(self.tasks) == Seq::<u64>::empty(),
                self.threads == old(self).threads,
                self.incoming == old(self).incoming,
                self.lcore == old(self).lcore,
                self.flags == old(self).flags,
                self.tid == old(self).tid,
                self.inbox == old(self).inbox,
            decreases channel_contents(self.tasks).len(),
        {
            let ghost before = channel_contents(self.tasks);
            match channel_try_recv(&mut self.tasks) {
                Some(f) => {
                    let ghost e = ran@;
                    ran.push(f);
                    assert(e.push(f) + before.drop_first() =~= e + before);
                },
                None => {
                    break ;
                },
            }
        }
        assert(ran@ + Seq::<u64>::empty() =~= ran@);
    }

    /// Polls every owned thread once, in order.
    fn poll_threads(&mut self)
        ensures
            final(self).threads@ == old(self).threads@.map_values(|t: LThread| polled_times(t, 1)),
            final(self).incoming == old(self).incoming,
            final(self).lcore == old(self).lcore,
            final(self).flags == old(self).flags,
            final(self).tid == old(self).tid,
            final(self).inbox == old(self).inbox,
            final(self).tasks == old(self).tasks,
    {
        let n = self.threads.len();
        let mut i: usize = 0;
        while i < n
            invariant
                n == old(self).threads.len(),
                self.threads.len() == n,
                i <= n,
                forall|k: int|
                    0 <= k < n ==> #[trigger] self.threads[k] == if k < i {
                        polled_times(old(self).threads[k], 1)
                    } else {
                        old(self).threads[k]
                    },
                self.incoming == old(self).incoming,
                self.lcore == old(self).lcore,
                self.flags == old(self).flags,
                self.tid == old(self).tid,
                self.inbox == old(self).inbox,
                self.tasks == old(self).tasks,
            decreases n - i,
        {
            if self.threads[i].polls < u64::MAX {
                self.threads[i].polls = self.threads[i].polls + 1;
            }
            i += 1;
        }
        assert(self.threads@ =~= old(self).threads@.map_values(|t: LThread| polled_times(t, 1)));
    }

    /// Adopts every thread scheduled onto this reactor, in the order they
    /// were scheduled, at the tail of the owned threads.
    fn add_incoming(&mut self)
        ensures
            final(self).threads@ == old(self).threads@ + queued(old(self).incoming).map_values(
                |id: u64| adopted(id),
            ),
            queued(final(self).incoming) == Seq::<u64>::empty(),
            final(self).lcore == old(self).lcore,
            final(self).flags == old(self).flags,
            final(self).tid == old(self).tid,
            final(self).inbox == old(self).inbox,
            final(self).tasks == old(self).tasks,
    {
        let ghost all = queued(old(self).incoming).map_values(|id: u64| adopted(id));
        loop
            invariant
                self.threads@ + queued(self.incoming).map_values(|id: u64| adopted(id)) == old(
                    self,
                ).threads@ + all,
                all == queued(old(self).incoming).map_values(|id: u64| adopted(id)),
                self.lcore == old(self).lcore,
                self.flags == old(self).flags,
                self.tid == old(self).tid,
                self.inbox == old(self).inbox,
                self.tasks == old(self).tasks,
            ensures
                self.threads@ + queued(self.incoming).map_values(|id: u64| adopted(id)) == old(
                    self,
                ).threads@ + all,
                queued(self.incoming) == Seq::<u64>::empty(),
                self.lcore == old(self).lcore,
                self.flags == old(self).flags,
                self.tid == old(self).tid,
                self.inbox == old(self).inbox,
                self.tasks == old(self).tasks,
            decreases queued(self.incoming).len(),
        {
            let ghost before = queued(self.incoming);
            match queue_pop(&mut self.incoming) {
                Some(id) => {
                    let ghost t = self.threads@;
                    self.threads.push(LThread { id, exited: false, polls: 0 });
                    assert(before.map_values(|id: u64| adopted(id)) =~= seq![adopted(id)]
                        + before.drop_first().map_values(|id: u64| adopted(id)));
                    assert(t.push(adopted(id)) + before.drop_first().map_values(|id: u64| adopted(id))
                        =~= t + (seq![adopted(id)] + before.drop_first().map_values(|id: u64| adopted(id))));
                },
                None => {
                    break ;
                },
            }
        }
        assert(queued(self.incoming).map_values(|id: u64| adopted(id)) =~= Seq::<LThread>::empty());
        assert(self.threads@ + Seq::<LThread>::empty() =~= self.threads@);
    }

    /// One round of work: adopts the futures received, runs the local
    /// tasks, polls every thread once, then adopts the threads scheduled
    /// onto this reactor. Returns the tasks that ran, in order.
    pub fn poll_once(&mut self) -> (ran: Vec<u64>)
        ensures
            ran@ == runnable(*old(self)),
            poll_done(*old(self), *final(self), 1),
    {
        let mut ran: Vec<u64> = Vec::new();
        self.receive_futures();
        self.run_futures(&mut ran);
        assert(ran@ =~= runnable(*old(self)));
        self.poll_threads();
        self.add_incoming();
        ran
    }

    /// Polls the threads `times` times, then, once, adopts the futures
    /// received, runs the local tasks and adopts the incoming threads.
    /// Returns the tasks that ran, in order.
    pub fn poll_times(&mut self, times: u32) -> (ran: Vec<u64>)
        ensures
            ran@ == runnable(*old(self)),
            poll_done(*old(self), *final(self), times as nat),
    {
        let mut k: u32 = 0;
        while k < times
            invariant
                k <= times,
                self.threads@ == old(self).threads@.map_values(|t: LThread| polled_times(t, k as nat)),
                self.incoming == old(self).incoming,
                self.lcore == old(self).lcore,
                self.flags == old(self).flags,
                self.tid == old(self).tid,
                self.inbox == old(self).inbox,
                self.tasks == old(self).tasks,
            decreases times - k,
        {
            proof {
                lemma_polled_once_more(old(self).threads@, k as nat);
            }
            self.poll_threads();
            k += 1;
        }
        proof {
            if times == 0 {
                assert(self.threads@ =~= old(self).threads@);
            }
        }
        let mut ran: Vec<u64> = Vec::new();
        self.receive_futures();
        self.run_futures(&mut ran);
        assert(ran@ =~= runnable(*old(self)));
        self.add_incoming();
        ran
    }

    /// Removes the threads that have exited and returns their identifiers,
    /// in order, for the caller to destroy; the others keep their order.
    pub fn destroy_exited(&mut self) -> (removed: Vec<u64>)
        ensures
            final(self).threads@ == old(self).threads@.filter(live()),
            removed@ == thread_ids(old(self).threads@.filter(exited_thread())),
            final(self).incoming == old(self).incoming,
            final(self).lcore == old(self).lcore,
            final(self).flags == old(self).flags,
            final(self).tid == old(self).tid,
            final(self).inbox == old(self).inbox,
            final(self).tasks == old(self).tasks,
    {
        let ghost orig = self.threads@;
        let mut rest: Vec<LThread> = Vec::new();
        core::mem::swap(&mut rest, &mut self.threads);
        let mut kept: Vec<LThread> = Vec::new();
        let mut removed: Vec<u64> = Vec::new();
        while rest.len() > 0
            invariant
                kept@ + rest@.filter(live()) == orig.filter(live()),
                removed@ + thread_ids(rest@.filter(exited_thread())) == thread_ids(
                    orig.filter(exited_thread()),
                ),
                self.incoming == old(self).incoming,
                self.lcore == old(self).lcore,
                self.flags == old(self).flags,
                self.tid == old(self).tid,
                self.inbox == old(self).inbox,
                self.tasks == old(self).tasks,
            decreases rest.len(),
        {
            let ghost before = rest@;
            let t = rest.remove(0);
            proof {
                assert(before =~= seq![t] + rest@);
                lemma_filter_cons(t, rest@, live());
                lemma_filter_cons(t, rest@, exited_thread());
            }
            if t.exited {
                proof {
                    assert(thread_ids(seq![t] + rest@.filter(exited_thread())) =~= seq![t.id]
                        + thread_ids(rest@.filter(exited_thread())));
                    assert(removed@.push(t.id) + thread_ids(rest@.filter(exited_thread())) =~= removed@
                        + (seq![t.id] + thread_ids(rest@.filter(exited_thread()))));
                }
                removed.push(t.id);
            } else {
                proof {
                    assert(kept@.push(t) + rest@.filter(live()) =~= kept@ + (seq![t] + rest@.filter(
                        live(),
                    )));
                }
                kept.push(t);
            }
        }
        proof {
            reveal_with_fuel(Seq::filter, 1);
            assert(kept@ + rest@.filter(live()) =~= kept@);
            assert(thread_ids(rest@.filter(exited_thread())) =~= Seq::<u64>::empty());
            assert(removed@ + Seq::<u64>::empty() =~= removed@);
        }
        self.threads = kept;
        removed
    }

    /// Starts the poll loop on the OS thread `tid`: records it and moves
    /// from `Init` to `Running`, or to `Delayed` where the developer delay
    /// was asked for.
    pub fn start_on(&mut self, tid: u64, delayed: bool)
        ensures
            final(self).tid == tid,
            final(self).flags == next_state(
                old(self).flags,
                if delayed {
                    ReactorState::Delayed
                } else {
                    ReactorState::Running
                },
            ),
            final(self).threads == old(self).threads,
            final(self).incoming == old(self).incoming,
            final(self).lcore == old(self).lcore,
            final(self).inbox == old(self).inbox,
            final(self).tasks == old(self).tasks,
    {
        self.tid = tid;
        if delayed {
            self.developer_delayed();
        } else {
            self.running();
        }
    }

    /// Starts the poll loop on the calling OS thread, as
    /// [`Self::start_on`] does with that thread's identifier.
    pub fn start(&mut self, delayed: bool)
        ensures
            final(self).flags == next_state(
                old(self).flags,
                if delayed {
                    ReactorState::Delayed
                } else {
                    ReactorState::Running
                },
            ),
            final(self).threads == old(self).threads,
            final(self).incoming == old(self).incoming,
            final(self).lcore == old(self).lcore,
            final(self).inbox == old(self).inbox,
            final(self).tasks == old(self).tasks,
    {
        let tid = current_tid();
        self.start_on(tid, delayed);
    }

    /// One iteration of the poll loop. Returns `false`, doing nothing, once
    /// the reactor is shut down; otherwise polls once, appending the tasks
    /// that ran to `ran`, removes the exited threads, appending their
    /// identifiers to `destroyed` for the caller to destroy, and returns
    /// `true`. In `Delayed` the caller sleeps a millisecond first.
    pub fn poll_reactor(&mut self, destroyed: &mut Vec<u64>, ran: &mut Vec<u64>) -> (more: bool)
        requires
            old(self).flags != ReactorState::Init,
        ensures
            more == (old(self).flags != ReactorState::Shutdown),
            !more ==> {
                &&& *final(self) == *old(self)
                &&& final(destroyed)@ == old(destroyed)@
                &&& final(ran)@ == old(ran)@
            },
            more ==> {
                &&& final(ran)@ == old(ran)@ + runnable(*old(self))
                &&& final(self).threads@ == polled_and_adopted(*old(self), 1).filter(live())
                &&& final(destroyed)@ == old(destroyed)@ + thread_ids(
                    polled_and_adopted(*old(self), 1).filter(exited_thread()),
                )
                &&& channel_contents(final(self).tasks) == Seq::<u64>::empty()
                &&& channel_contents(final(self).inbox) == Seq::<u64>::empty()
                &&& queued(final(self).incoming) == Seq::<u64>::empty()
                &&& final(self).lcore == old(self).lcore
                &&& final(self).flags == old(self).flags
                &&& final(self).tid == old(self).tid
            },
    {
        if self.flags == ReactorState::Shutdown {
            return false;
        }
        let mut now = self.poll_once();
        ran.append(&mut now);
        let mut gone = self.destroy_exited();
        destroyed.append(&mut gone);
        true
    }

    /// One poll of the primary reactor by an outside executor. From `Init`
    /// it starts (to `Delayed` where asked) and does nothing else; when
    /// `Running` it polls the threads three times, as [`Self::poll_times`]
    /// does; when `Delayed` it polls once; the tasks that run are appended
    /// to `ran`. Once shut down it drains its threads, appending their
    /// identifiers to `destroyed` for the caller to wait for and destroy,
    /// stays shut down, and returns `Ready`.
    pub fn poll_primary(&mut self, delayed: bool, destroyed: &mut Vec<u64>, ran: &mut Vec<u64>) -> (r:
        PrimaryPoll)
        ensures
            (r == PrimaryPoll::Ready) == (old(self).flags == ReactorState::Shutdown),
            old(self).flags == ReactorState::Shutdown ==> {
                &&& final(self).threads@ == Seq::<LThread>::empty()
                &&& final(destroyed)@ == old(destroyed)@ + thread_ids(old(self).threads@)
                &&& final(ran)@ == old(ran)@
                &&& final(self).flags == ReactorState::Shutdown
                &&& final(self).incoming == old(self).incoming
                &&& final(self).lcore == old(self).lcore
                &&& final(self).tid == old(self).tid
                &&& final(self).inbox == old(self).inbox
                &&& final(self).tasks == old(self).tasks
            },
            old(self).flags == ReactorState::Init ==> {
                &&& restated(
                    *old(self),
                    *final(self),
                    if delayed {
                        ReactorState::Delayed
                    } else {
                        ReactorState::Running
                    },
                )
                &&& final(destroyed)@ == old(destroyed)@
                &&& final(ran)@ == old(ran)@
            },
            old(self).flags == ReactorState::Delayed ==> {
                &&& poll_done(*old(self), *final(self), 1)
                &&& final(ran)@ == old(ran)@ + runnable(*old(self))
                &&& final(destroyed)@ == old(destroyed)@
            },
            old(self).flags == ReactorState::Running ==> {
                &&& poll_done(*old(self), *final(self), 3)
                &&& final(ran)@ == old(ran)@ + runnable(*old(self))
                &&& final(destroyed)@ == old(destroyed)@
            },
    {
        match self.flags {
            ReactorState::Running => {
                let mut now = self.poll_times(3);
                ran.append(&mut now);
                PrimaryPoll::Pending
            },
            ReactorState::Shutdown => {
                let ghost d0 = destroyed@;
                let mut i: usize = 0;
                while i < self.threads.len()
                    invariant
                        i <= self.threads.len(),
                        *self == *old(self),
                        destroyed@ == d0 + thread_ids(self.threads@.subrange(0, i as int)),
                    decreases self.threads.len() - i,
                {
                    destroyed.push(self.threads[i].id);
                    assert(thread_ids(self.threads@.subrange(0, i + 1)) =~= thread_ids(
                        self.threads@.subrange(0, i as int),
                    ).push(self.threads@[i as int].id));
                    i += 1;
                }
                assert(self.threads@.subrange(0, i as int) =~= self.threads@);
                self.threads.clear();
                PrimaryPoll::Ready
            },
            ReactorState::Delayed => {
                let mut now = self.poll_once();
                ran.append(&mut now);
                PrimaryPoll::Pending
            },
            ReactorState::Init => {
                if delayed {
                    self.developer_delayed();
                } else {
                    self.running();
                }
                PrimaryPoll::Pending
            },
        }
    }
}

proof fn lemma_filter_cons(t: LThread, rest: Seq<LThread>, p: spec_fn(LThread) -> bool)
    ensures
        (seq![t] + rest).filter(p) == if p(t) {
            seq![t] + rest.filter(p)
        } else {
            rest.filter(p)
        },
{
    Seq::filter_distributes_over_add(seq![t], rest, p);
    reveal_with_fuel(Seq::filter, 2);
    assert(seq![t].drop_last() =~= Seq::<LThread>::empty());
    if p(t) {
        assert(seq![t].filter(p) =~= seq![t]);
    } else {
        assert(seq![t].filter(p) =~= Seq::<LThread>::empty());
        assert(seq![t].filter(p) + rest.filter(p) =~= rest.filter(p));
    }
}

} // verus!
