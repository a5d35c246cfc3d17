//! The reactor fleet: one reactor per enabled core, the first one primary,
//! with the scheduling hook that places each new logical thread on a
//! reactor and the decisions of launching the remote reactors.
use vstd::prelude::*;

use nix::errno::Errno;

use crate::error::{errno_not_implemented, errno_unknown, CoreError};
use crate::queues::{channel_contents, queue_push, queued};
use crate::reactor::Reactor;

verus! {

/// Identifier of the thread that bootstraps the engine and tears it down,
/// bound to the primary core.
pub const INIT_THREAD: u64 = 0;

/// The operations the thread library asks the fleet for.
#[derive(Clone, Copy, Debug, PartialEq, Eq, Structural)]
pub enum ThreadOp {
    /// A new logical thread was created.
    New,
    /// A logical thread asks to be moved.
    Resched,
}

/// What the caller of [`Reactors::launch_remote`] is to do.
#[derive(Clone, Copy, Debug, PartialEq, Eq, Structural)]
pub enum LaunchPlan {
    /// The core is the primary one, whose reactor is launched otherwise.
    NothingToDo,
    /// Start a thread pinned to the core that runs its reactor's poll loop.
    Launch,
}

/// The reactors, in core order; the first is the primary.
#[derive(Debug)]
pub struct Reactors {
    pub reactors: Vec<Reactor>,
}

/// The reactor may take a thread whose admissible cores are `mask`.
pub open spec fn eligible(r: Reactor, mask: Seq<u32>) -> bool {
    mask.contains(r.lcore)
}

/// `after` is `before` with `id` pushed onto its incoming queue.
pub open spec fn took_thread(before: Reactor, after: Reactor, id: u64) -> bool {
    &&& queued(after.incoming) == queued(before.incoming).push(id)
    &&& after.threads == before.threads
    &&& after.lcore == before.lcore
    &&& after.flags == before.flags
    &&& after.tid == before.tid
    &&& after.inbox == before.inbox
    &&& after.tasks == before.tasks
}

/// Index of the first reactor that may take a thread with `mask`.
pub open spec fn first_eligible(rs: Seq<Reactor>, mask: Seq<u32>, k: int) -> bool {
    &&& 0 <= k < rs.len()
    &&& eligible(rs[k], mask)
    &&& forall|j: int| 0 <= j < k ==> !eligible(#[trigger] rs[j], mask)
}

/// `after` is `before` with the thread `id` placed on the first eligible
/// reactor, the others untouched.
pub open spec fn scheduled(before: Seq<Reactor>, after: Seq<Reactor>, mask: Seq<u32>, id: u64) -> bool {
    &&& after.len() == before.len()
    &&& exists|k: int|
        {
            &&& first_eligible(before, mask, k)
            &&& took_thread(before[k], after[k], id)
            &&& forall|j: int| 0 <= j < before.len() && j != k ==> #[trigger] after[j] == before[j]
        }
}

/// Index of the first reactor on `core`.
pub open spec fn first_on(rs: Seq<Reactor>, core: u32, k: int) -> bool {
    &&& 0 <= k < rs.len()
    &&& rs[k].lcore == core
    &&& forall|j: int| 0 <= j < k ==> (#[trigger] rs[j]).lcore != core
}

/// Some reactor runs on `core`.
pub open spec fn has_core(rs: Seq<Reactor>, core: u32) -> bool {
    exists|i: int| 0 <= i < rs.len() && (#[trigger] rs[i]).lcore == core
}

/// `mask` holds `core`.
fn mask_holds(mask: &Vec<u32>, core: u32) -> (r: bool)
    ensures
        r == mask@.contains(core),
{
    let mut i: usize = 0;
    while i < mask.len()
        invariant
            i <= mask.len(),
            forall|j: int| 0 <= j < i ==> mask@[j] != core,
        decreases mask.len() - i,
    {
        if mask[i] == core {
            return true;
        }
        i += 1;
    }
    false
}

/// Whether the thread library may hand the fleet `op`: only new threads.
pub fn can_op(op: ThreadOp) -> (r: bool)
    ensures
        r == (op == ThreadOp::New),
{
    match op {
        ThreadOp::New => true,
        _ => false,
    }
}

impl Reactors {
    /// The fleet for the enabled `cores`, in order: one reactor in `Init`
    /// per core, with the bootstrap thread scheduled onto the first.
    pub fn init(cores: &Vec<u32>) -> (r: Self)
        requires
            cores.len() > 0,
        ensures
            r.reactors.len() == cores.len(),
            forall|i: int|
                0 <= i < cores.len() ==> {
                    &&& (#[trigger] r.reactors[i]).lcore == cores[i]
                    &&& r.reactors[i].flags == crate::reactor::ReactorState::Init
                    &&& r.reactors[i].threads@.len() == 0
                    &&& channel_contents(r.reactors[i].tasks).len() == 0
                    &&& channel_contents(r.reactors[i].inbox).len() == 0
                },
            queued(r.reactors[0].incoming) == seq![INIT_THREAD],
            forall|i: int| 1 <= i < cores.len() ==> queued(#[trigger] r.reactors[i].incoming).len() == 0,
    {
        let mut reactors: Vec<Reactor> = Vec::new();
        let mut i: usize = 0;
        while i < cores.len()
            invariant
                i <= cores.len(),
                reactors.len() == i,
                forall|k: int|
                    0 <= k < i ==> {
                        &&& (#[trigger] reactors[k]).lcore == cores[k]
                        &&& reactors[k].flags == crate::reactor::ReactorState::Init
                        &&& reactors[k].threads@.len() == 0
                        &&& channel_contents(reactors[k].tasks).len() == 0
                        &&& channel_contents(reactors[k].inbox).len() == 0
                        &&& queued(reactors[k].incoming).len() == 0
                    },
            decreases cores.len() - i,
        {
            reactors.push(Reactor::new(cores[i]));
            i += 1;
        }
        queue_push(&mut reactors[0].incoming, INIT_THREAD);
        assert(queued(reactors[0].incoming) =~= seq![INIT_THREAD]);
        Reactors { reactors }
    }

    /// Places a new thread: pushes `thread` onto the incoming queue of the
    /// first reactor whose core is in `cpumask` and returns 0; returns 1,
    /// changing nothing, where there is none.
    pub fn schedule(&mut self, thread: u64, cpumask: &Vec<u32>) -> (r: i32)
        ensures
            r == 0 || r == 1,
            (r == 0) == (exists|k: int| 0 <= k < old(self).reactors.len() && eligible(#[trigger] old(self).reactors[k], cpumask@)),
            r == 0 ==> scheduled(old(self).reactors@, final(self).reactors@, cpumask@, thread),
            r == 1 ==> final(self).reactors@ == old(self).reactors@,
    {
        let n = self.reactors.len();
        let mut i: usize = 0;
        while i < n
            invariant
                n == self.reactors.len(),
                i <= n,
                self.reactors == old(self).reactors,
                forall|j: int| 0 <= j < i ==> !eligible(#[trigger] self.reactors[j], cpumask@),
            decreases n - i,
        {
            if mask_holds(cpumask, self.reactors[i].lcore) {
                queue_push(&mut self.reactors[i].incoming, thread);
                assert(first_eligible(old(self).reactors@, cpumask@, i as int));
                assert(forall|j: int| 0 <= j < n && j != i ==> #[trigger] self.reactors@[j] == old(self).reactors@[j]);
                return 0;
            }
            i += 1;
        }
        1
    }

    /// The thread library's dispatch: schedules a new thread as
    /// [`Self::schedule`] does and returns its result; any other operation
    /// is refused with -1.
    pub fn do_op(&mut self, thread: u64, cpumask: &Vec<u32>, op: ThreadOp) -> (r: i32)
        ensures
            op == ThreadOp::New ==> {
                &&& r == 0 || r == 1
                &&& (r == 0) == (exists|k: int|
                    0 <= k < old(self).reactors.len() && eligible(#[trigger] old(self).reactors[k], cpumask@))
                &&& r == 0 ==> scheduled(old(self).reactors@, final(self).reactors@, cpumask@, thread)
                &&& r == 1 ==> final(self).reactors@ == old(self).reactors@
            },
            op != ThreadOp::New ==> r == -1 && final(self).reactors@ == old(self).reactors@,
    {
        match op {
            ThreadOp::New => self.schedule(thread, cpumask),
            _ => -1,
        }
    }

    /// Index of the first reactor on `core`.
    fn index_of(&self, core: u32) -> (r: Option<usize>)
        ensures
            match r {
                Some(k) => first_on(self.reactors@, core, k as int),
                None => !has_core(self.reactors@, core),
            },
    {
        let mut i: usize = 0;
        while i < self.reactors.len()
            invariant
                i <= self.reactors.len(),
                forall|j: int| 0 <= j < i ==> (#[trigger] self.reactors[j]).lcore != core,
            decreases self.reactors.len() - i,
        {
            if self.reactors[i].lcore == core {
                return Some(i);
            }
            i += 1;
        }
        None
    }

    /// The reactor of `core`, if there is one.
    pub fn get_by_core(&self, core: u32) -> (r: Option<&Reactor>)
        ensures
            match r {
                Some(x) => exists|k: int| first_on(self.reactors@, core, k) && *x == self.reactors[k],
                None => !has_core(self.reactors@, core),
            },
    {
        match self.index_of(core) {
            Some(k) => Some(&self.reactors[k]),
            None => None,
        }
    }

    /// The reactor of the calling core, `current_core`, which must have one.
    pub fn current(&self, current_core: u32) -> (r: &Reactor)
        requires
            has_core(self.reactors@, current_core),
        ensures
            exists|k: int| first_on(self.reactors@, current_core, k) && *r == self.reactors[k],
    {
        match self.index_of(current_core) {
            Some(k) => &self.reactors[k],
            None => &self.reactors[0],
        }
    }

    /// The primary reactor.
    pub fn master(&self) -> (r: &Reactor)
        requires
            self.reactors.len() > 0,
        ensures
            *r == self.reactors[0],
    {
        &self.reactors[0]
    }

    /// The calling core, `current_core`, is the primary one.
    pub fn is_master(&self, current_core: u32) -> (r: bool)
        requires
            self.reactors.len() > 0,
        ensures
            r == (self.reactors[0].lcore == current_core),
    {
        self.reactors[0].lcore == current_core
    }

    /// All reactors, in core order.
    pub fn iter(&self) -> (r: &[Reactor])
        ensures
            r@ == self.reactors@,
    {
        self.reactors.as_slice()
    }

    /// What launching the reactor of `core` takes: nothing for the primary
    /// core, whose reactor runs on the thread that launches the others; a
    /// pinned thread for any other enabled core; and otherwise it fails with
    /// `ReactorConfigureFailed` (`ENOSYS`).
    pub fn launch_remote(&self, core: u32) -> (r: Result<LaunchPlan, CoreError>)
        requires
            self.reactors.len() > 0,
        ensures
            core == self.reactors[0].lcore ==> r == Ok::<LaunchPlan, CoreError>(LaunchPlan::NothingToDo),
            core != self.reactors[0].lcore && has_core(self.reactors@, core) ==> r == Ok::<
                LaunchPlan,
                CoreError,
            >(LaunchPlan::Launch),
            !has_core(self.reactors@, core) ==> r matches Err(CoreError::ReactorConfigureFailed { .. }),
    {
        if core == self.reactors[0].lcore {
            return Ok(LaunchPlan::NothingToDo);
        }
        match self.index_of(core) {
            Some(_) => Ok(LaunchPlan::Launch),
            None => Err(CoreError::ReactorConfigureFailed { source: errno_not_implemented() }),
        }
    }
}

/// The outcome of starting a pinned thread for a reactor, from the code
/// `rc` that the environment returned: success for 0, otherwise
/// `ReactorConfigureFailed` carrying `rc` as an errno.
pub fn launch_result(rc: i32) -> (r: Result<(), CoreError>)
    ensures
        (rc == 0) == (r is Ok),
        rc != 0 ==> r matches Err(CoreError::ReactorConfigureFailed { .. }),
{
    if rc == 0 {
        Ok(())
    } else {
        Err(CoreError::ReactorConfigureFailed { source: Errno::from_raw(rc) })
    }
}

/// The outcome of handing a future to a logical thread, from the code `rc`
/// that the thread library returned: success for 0, otherwise
/// `NotSupported` with an unknown errno.
pub fn spawn_at_result(rc: i32) -> (r: Result<(), CoreError>)
    ensures
        (rc == 0) == (r is Ok),
        rc != 0 ==> r matches Err(CoreError::NotSupported { .. }),
{
    if rc == 0 {
        Ok(())
    } else {
        Err(CoreError::NotSupported { source: errno_unknown() })
    }
}

} // verus!
