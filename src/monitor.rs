//! The reactor health monitor, run each second on the primary reactor: it
//! sends a heartbeat to every reactor, and a reactor that owes `timeout`
//! heartbeats is reported frozen until it owes none. The caller sends the
//! heartbeats, waits the interval, and tells the monitor which ran.
use vstd::prelude::*;

verus! {

/// Heartbeats a reactor may owe before it is reported frozen, by default.
pub const REACTOR_HEARTBEAT_TIMEOUT: u64 = 3;

/// What the monitor knows of one reactor.
#[derive(Clone, Copy, Debug, PartialEq, Eq, Structural)]
pub struct ReactorRecord {
    pub frozen: bool,
    /// Heartbeats run by the reactor, plus those it was excused while
    /// frozen.
    pub reactor_tick: u64,
    pub core: u32,
}

/// What a check reports of a reactor.
#[derive(Clone, Copy, Debug, PartialEq, Eq, Structural)]
pub enum MonitorEvent {
    /// The reactor of this core stopped running its heartbeats.
    Frozen(u32),
    /// The reactor of this core ran every heartbeat it owed.
    Recovered(u32),
}

/// The monitor: the timeout, the number of intervals elapsed, whether the
/// heartbeats of the current interval were sent, and a record per reactor.
#[derive(Debug)]
pub struct ReactorMonitor {
    pub timeout: u64,
    pub tick: u64,
    pub armed: bool,
    pub records: Vec<ReactorRecord>,
}

/// Heartbeats counted as sent so far.
pub open spec fn expected(m: ReactorMonitor) -> int {
    m.tick + if m.armed {
        1int
    } else {
        0int
    }
}

/// Heartbeats that the reactor of `r` was sent and has not run yet.
pub open spec fn owed(m: ReactorMonitor, r: ReactorRecord) -> int {
    expected(m) - r.reactor_tick
}

/// A record after a check at `tick`: a reactor that is not frozen and owes
/// `timeout` heartbeats or more becomes frozen; a frozen one that owes none
/// recovers.
pub open spec fn checked(r: ReactorRecord, tick: int, timeout: u64) -> ReactorRecord {
    if r.frozen && tick - r.reactor_tick == 0 {
        ReactorRecord { frozen: false, ..r }
    } else if !r.frozen && tick - r.reactor_tick >= timeout {
        ReactorRecord { frozen: true, ..r }
    } else {
        r
    }
}

/// What a check at `tick` reports of a record.
pub open spec fn event_of(r: ReactorRecord, tick: int, timeout: u64) -> Seq<MonitorEvent> {
    if r.frozen && tick - r.reactor_tick == 0 {
        seq![MonitorEvent::Recovered(r.core)]
    } else if !r.frozen && tick - r.reactor_tick >= timeout {
        seq![MonitorEvent::Frozen(r.core)]
    } else {
        seq![]
    }
}

/// What a check at `tick` reports of the first `n` records, in order.
pub open spec fn events_upto(rs: Seq<ReactorRecord>, tick: int, timeout: u64, n: int) -> Seq<MonitorEvent>
    decreases n,
{
    if n <= 0 {
        seq![]
    } else {
        events_upto(rs, tick, timeout, n - 1) + event_of(rs[n - 1], tick, timeout)
    }
}

/// Indices of the first `n` records that are not frozen.
pub open spec fn unfrozen_upto(rs: Seq<ReactorRecord>, n: int) -> Seq<usize>
    decreases n,
{
    if n <= 0 {
        seq![]
    } else if rs[n - 1].frozen {
        unfrozen_upto(rs, n - 1)
    } else {
        unfrozen_upto(rs, n - 1).push((n - 1) as usize)
    }
}

impl ReactorMonitor {
    /// No reactor has run more heartbeats than were sent.
    pub open spec fn wf(&self) -> bool {
        &&& expected(*self) <= u64::MAX
        &&& forall|i: int| 0 <= i < self.records.len() ==> (#[trigger] self.records[i]).reactor_tick <= expected(*self)
    }

    /// A monitor of the reactors of `cores`, none frozen, with the given
    /// timeout or else [`REACTOR_HEARTBEAT_TIMEOUT`].
    pub fn new(cores: &Vec<u32>, freeze_timeout: Option<u64>) -> (r: Self)
        ensures
            r.wf(),
            r.timeout == match freeze_timeout {
                Some(t) => t,
                None => REACTOR_HEARTBEAT_TIMEOUT,
            },
            r.tick == 0,
            !r.armed,
            r.records.len() == cores.len(),
            forall|i: int|
                0 <= i < cores.len() ==> #[trigger] r.records[i] == (ReactorRecord {
                    frozen: false,
                    reactor_tick: 0,
                    core: cores[i],
                }),
    {
        let timeout = match freeze_timeout {
            Some(t) => t,
            None => REACTOR_HEARTBEAT_TIMEOUT,
        };
        let mut records: Vec<ReactorRecord> = Vec::new();
        let mut i: usize = 0;
        while i < cores.len()
            invariant
                i <= cores.len(),
                records.len() == i,
                forall|k: int|
                    0 <= k < i ==> #[trigger] records[k] == (ReactorRecord {
                        frozen: false,
                        reactor_tick: 0,
                        core: cores[k],
                    }),
            decreases cores.len() - i,
        {
            records.push(ReactorRecord { frozen: false, reactor_tick: 0, core: cores[i] });
            i += 1;
        }
        ReactorMonitor { timeout, tick: 0, armed: false, records }
    }

    /// Starts an interval: returns, in order, the indices of the reactors
    /// that are not frozen, to each of which the caller sends a heartbeat;
    /// a frozen reactor is excused the heartbeat instead, so what it owes
    /// stays as it is.
    pub fn send_heartbeats(&mut self) -> (targets: Vec<usize>)
        requires
            old(self).wf(),
            !old(self).armed,
            old(self).tick < u64::MAX,
        ensures
            final(self).wf(),
            final(self).armed,
            final(self).tick == old(self).tick,
            final(self).timeout == old(self).timeout,
            targets@ == unfrozen_upto(old(self).records@, old(self).records.len() as int),
            final(self).records.len() == old(self).records.len(),
            forall|i: int|
                0 <= i < old(self).records.len() ==> {
                    &&& (#[trigger] final(self).records[i]).frozen == old(self).records[i].frozen
                    &&& final(self).records[i].core == old(self).records[i].core
                    &&& final(self).records[i].reactor_tick == if old(self).records[i].frozen {
                        old(self).records[i].reactor_tick + 1
                    } else {
                        old(self).records[i].reactor_tick as int
                    }
                },
    {
        let n = self.records.len();
        let mut targets: Vec<usize> = Vec::new();
        let mut i: usize = 0;
        while i < n
            invariant
                n == old(self).records.len(),
                self.records.len() == n,
                i <= n,
                self.tick == old(self).tick,
                self.timeout == old(self).timeout,
                !self.armed,
                old(self).wf(),
                !old(self).armed,
                old(self).tick < u64::MAX,
                targets@ == unfrozen_upto(old(self).records@, i as int),
                forall|k: int|
                    0 <= k < n ==> {
                        &&& (#[trigger] self.records[k]).frozen == old(self).records[k].frozen
                        &&& self.records[k].core == old(self).records[k].core
                        &&& self.records[k].reactor_tick == if k < i && old(self).records[k].frozen {
                            old(self).records[k].reactor_tick + 1
                        } else {
                            old(self).records[k].reactor_tick as int
                        }
                    },
            decreases n - i,
        {
            if self.records[i].frozen {
                self.records[i].reactor_tick = self.records[i].reactor_tick + 1;
            } else {
                targets.push(i);
            }
            i += 1;
        }
        self.armed = true;
        targets
    }

    /// The heartbeat sent to the reactor of record `idx` has run.
    pub fn heartbeat(&mut self, idx: usize)
        requires
            old(self).wf(),
            idx < old(self).records.len(),
            owed(*old(self), old(self).records[idx as int]) > 0,
        ensures
            final(self).wf(),
            final(self).tick == old(self).tick,
            final(self).armed == old(self).armed,
            final(self).timeout == old(self).timeout,
            final(self).records@ == old(self).records@.update(
                idx as int,
                ReactorRecord {
                    reactor_tick: (old(self).records[idx as int].reactor_tick + 1) as u64,
                    ..old(self).records[idx as int]
                },
            ),
    {
        self.records[idx].reactor_tick = self.records[idx].reactor_tick + 1;
    }

    /// Ends an interval: counts it, then reports each reactor that is not
    /// frozen and owes `timeout` heartbeats or more as frozen, and each
    /// frozen one that owes none as recovered, updating the records.
    pub fn check(&mut self) -> (events: Vec<MonitorEvent>)
        requires
            old(self).wf(),
            old(self).armed,
        ensures
            final(self).wf(),
            !final(self).armed,
            final(self).tick == old(self).tick + 1,
            final(self).timeout == old(self).timeout,
            final(self).records.len() == old(self).records.len(),
            forall|i: int|
                0 <= i < old(self).records.len() ==> #[trigger] final(self).records[i] == checked(
                    old(self).records[i],
                    final(self).tick as int,
                    old(self).timeout,
                ),
            forall|i: int|
                0 <= i < old(self).records.len() ==> (#[trigger] final(self).records[i]).frozen == if old(
                    self,
                ).records[i].frozen {
                    owed(*old(self), old(self).records[i]) != 0
                } else {
                    owed(*old(self), old(self).records[i]) >= old(self).timeout
                },
            events@ == events_upto(
                old(self).records@,
                final(self).tick as int,
                old(self).timeout,
                old(self).records.len() as int,
            ),
    {
        self.tick = self.tick + 1;
        self.armed = false;
        let n = self.records.len();
        let mut events: Vec<MonitorEvent> = Vec::new();
        let mut i: usize = 0;
        while i < n
            invariant
                n == old(self).records.len(),
                self.records.len() == n,
                i <= n,
                self.tick == old(self).tick + 1,
                self.timeout == old(self).timeout,
                !self.armed,
                old(self).wf(),
                old(self).armed,
                events@ == events_upto(old(self).records@, self.tick as int, self.timeout, i as int),
                forall|k: int|
                    0 <= k < n ==> #[trigger] self.records[k] == if k < i {
                        checked(old(self).records[k], self.tick as int, self.timeout)
                    } else {
                        old(self).records[k]
                    },
            decreases n - i,
        {
            let r = self.records[i];
            let delta = self.tick - r.reactor_tick;
            if r.frozen {
                if delta == 0 {
                    self.records[i].frozen = false;
                    events.push(MonitorEvent::Recovered(r.core));
                }
            } else if delta >= self.timeout {
                self.records[i].frozen = true;
                events.push(MonitorEvent::Frozen(r.core));
            }
            proof {
                assert(events_upto(old(self).records@, self.tick as int, self.timeout, i + 1) =~= events_upto(
                    old(self).records@,
                    self.tick as int,
                    self.timeout,
                    i as int,
                ) + event_of(old(self).records[i as int], self.tick as int, self.timeout));
            }
            i += 1;
        }
        events
    }
}

} // verus!
