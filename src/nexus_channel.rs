//! Per-core I/O channel of a nexus: the live reader and writer handles, the
//! round-robin read cursor, and the reconfiguration protocol that rebuilds
//! them from the children's states.
use vstd::prelude::*;

use crate::nexus::{
    any_faultable,
    children_restated,
    fault_nexus_child,
    state_after_fault,
    ChildState,
    Nexus,
    NexusChild,
    Reason,
};

verus! {

/// An I/O handle onto the block device called `device_name`.
#[derive(Debug)]
pub struct BlockDeviceHandle {
    pub device_name: String,
}

/// Dynamic reconfiguration events, broadcast by the nexus to every channel.
#[derive(Clone, Copy, Debug, PartialEq, Eq, Structural)]
pub enum DrEvent {
    /// A child went offline.
    ChildOffline,
    /// A child is to be marked faulted.
    ChildFault,
    /// A child is removed.
    ChildRemove,
    /// A child started rebuilding.
    ChildRebuild,
}

/// The device names of a sequence of handles, in order.
pub open spec fn handle_names(v: Seq<BlockDeviceHandle>) -> Seq<Seq<char>> {
    v.map_values(|h: BlockDeviceHandle| h.device_name@)
}

/// Handles onto the child can be had: it still has a device, and the block
/// device layer handed out the handles asked for (`ok`).
pub open spec fn acquirable(c: NexusChild, ok: bool) -> bool {
    c.device is Some && ok
}

/// Device names of the first `n` children that are `Open` and whose handles
/// can be had: the readers, and the read-write part of the writers, that a
/// refresh installs.
pub open spec fn open_handles(ch: Seq<NexusChild>, ok: Seq<bool>, n: int) -> Seq<Seq<char>>
    decreases n,
{
    if n <= 0 {
        seq![]
    } else {
        let p = open_handles(ch, ok, n - 1);
        if ch[n - 1].state == ChildState::Open && acquirable(ch[n - 1], ok[n - 1]) {
            p.push(ch[n - 1].device.unwrap()@)
        } else {
            p
        }
    }
}

/// Device names of the first `n` children that are `Rebuilding` and whose
/// handles can be had: the write-only part of the writers.
pub open spec fn rebuild_handles(ch: Seq<NexusChild>, ok: Seq<bool>, n: int) -> Seq<Seq<char>>
    decreases n,
{
    if n <= 0 {
        seq![]
    } else {
        let p = rebuild_handles(ch, ok, n - 1);
        if ch[n - 1].state == ChildState::Rebuilding && acquirable(ch[n - 1], ok[n - 1]) {
            p.push(ch[n - 1].device.unwrap()@)
        } else {
            p
        }
    }
}

/// State of a child after a refresh: an `Open` child whose handles cannot be
/// had is faulted, and so is such a `Rebuilding` child when the write-only
/// tee is set up (`tee`).
pub open spec fn state_after_refresh(c: NexusChild, ok: bool, tee: bool) -> ChildState {
    if c.state == ChildState::Open && !acquirable(c, ok) {
        ChildState::Faulted(Reason::CantOpen)
    } else if tee && c.state == ChildState::Rebuilding && !acquirable(c, ok) {
        ChildState::Faulted(Reason::CantOpen)
    } else {
        c.state
    }
}

/// The children after a refresh, given the children before it.
pub open spec fn children_after_refresh(
    before: Seq<NexusChild>,
    after: Seq<NexusChild>,
    ok: Seq<bool>,
    tee: bool,
) -> bool {
    &&& after.len() == before.len()
    &&& forall|i: int|
        0 <= i < before.len() ==> {
            &&& (#[trigger] after[i]).name == before[i].name
            &&& after[i].device == before[i].device
            &&& after[i].state == state_after_refresh(before[i], ok[i], tee)
        }
}

/// The writers that a refresh installs.
pub open spec fn refreshed_writers(ch: Seq<NexusChild>, ok: Seq<bool>, tee: bool) -> Seq<Seq<char>> {
    if tee {
        open_handles(ch, ok, ch.len() as int) + rebuild_handles(ch, ok, ch.len() as int)
    } else {
        open_handles(ch, ok, ch.len() as int)
    }
}

/// The readers that a refresh installs.
pub open spec fn refreshed_readers(ch: Seq<NexusChild>, ok: Seq<bool>) -> Seq<Seq<char>> {
    open_handles(ch, ok, ch.len() as int)
}

/// Per-core routing state of a nexus.
#[derive(Debug)]
pub struct NexusChannelInner {
    pub writers: Vec<BlockDeviceHandle>,
    pub readers: Vec<BlockDeviceHandle>,
    pub previous: usize,
    pub fail_fast: u32,
}

/// The channel of one core.
#[derive(Debug)]
pub struct NexusChannel {
    pub inner: NexusChannelInner,
}

/// Index of the reader that a selection from `ch` returns.
pub open spec fn selected(ch: NexusChannelInner) -> Option<int> {
    if ch.readers.len() == 0 {
        None
    } else {
        Some((ch.previous + 1) % (ch.readers.len() as int))
    }
}

/// The channel after one selection: the cursor moves to the selected reader.
pub open spec fn advanced(ch: NexusChannelInner) -> NexusChannelInner {
    match selected(ch) {
        Some(i) => NexusChannelInner { previous: i as usize, ..ch },
        None => ch,
    }
}

/// The channel after `k` selections.
pub open spec fn after_selects(ch: NexusChannelInner, k: nat) -> NexusChannelInner
    decreases k,
{
    if k == 0 {
        ch
    } else {
        advanced(after_selects(ch, (k - 1) as nat))
    }
}

/// Makes one handle onto the device behind `c`, which must have one.
fn acquire_handle(c: &NexusChild) -> (h: BlockDeviceHandle)
    requires
        c.device is Some,
    ensures
        h.device_name@ == c.device.unwrap()@,
{
    match &c.device {
        Some(d) => BlockDeviceHandle { device_name: d.clone() },
        None => BlockDeviceHandle { device_name: String::new() },
    }
}

proof fn lemma_push_names(v: Seq<BlockDeviceHandle>, h: BlockDeviceHandle)
    ensures
        handle_names(v.push(h)) == handle_names(v).push(h.device_name@),
{
    assert(handle_names(v.push(h)) =~= handle_names(v).push(h.device_name@));
}

/// Acquires a reader and a writer onto every `Open` child, in child order,
/// faulting (`CantOpen`) each whose handles cannot be had. Where `tee` is
/// set, then adds a writer onto every `Rebuilding` child, faulting in the same
/// way each whose handle cannot be had.
fn acquire_handles(nexus: &mut Nexus, handles_ok: &Vec<bool>, tee: bool) -> (r: (
    Vec<BlockDeviceHandle>,
    Vec<BlockDeviceHandle>,
))
    requires
        handles_ok.len() == old(nexus).children.len(),
    ensures
        final(nexus).name == old(nexus).name,
        children_after_refresh(old(nexus).children@, final(nexus).children@, handles_ok@, tee),
        handle_names(r.0@) == refreshed_writers(old(nexus).children@, handles_ok@, tee),
        handle_names(r.1@) == refreshed_readers(old(nexus).children@, handles_ok@),
{
    let ghost ch0 = nexus.children@;
    let ghost ok = handles_ok@;
    let n = nexus.children.len();
    let mut writers: Vec<BlockDeviceHandle> = Vec::new();
    let mut readers: Vec<BlockDeviceHandle> = Vec::new();
    let mut i: usize = 0;
    while i < n
        invariant
            n == ch0.len(),
            ok.len() == n,
            ok == handles_ok@,
            nexus.children.len() == n,
            nexus.name == old(nexus).name,
            ch0 == old(nexus).children@,
            i <= n,
            forall|k: int|
                0 <= k < n ==> {
                    &&& (#[trigger] nexus.children[k]).name == ch0[k].name
                    &&& nexus.children[k].device == ch0[k].device
                    &&& nexus.children[k].state == if k < i {
                        state_after_refresh(ch0[k], ok[k], false)
                    } else {
                        ch0[k].state
                    }
                },
            handle_names(writers@) == open_handles(ch0, ok, i as int),
            handle_names(readers@) == open_handles(ch0, ok, i as int),
        decreases n - i,
    {
        if nexus.children[i].state == ChildState::Open {
            if nexus.children[i].device.is_some() && handles_ok[i] {
                let w = acquire_handle(&nexus.children[i]);
                let r = acquire_handle(&nexus.children[i]);
                proof {
                    lemma_push_names(writers@, w);
                    lemma_push_names(readers@, r);
                }
                writers.push(w);
                readers.push(r);
            } else {
                nexus.children[i].state = ChildState::Faulted(Reason::CantOpen);
            }
        }
        i += 1;
    }
    if tee {
        let mut j: usize = 0;
        while j < n
            invariant
                n == ch0.len(),
                ok.len() == n,
                ok == handles_ok@,
                tee,
                nexus.children.len() == n,
                nexus.name == old(nexus).name,
                j <= n,
                forall|k: int|
                    0 <= k < n ==> {
                        &&& (#[trigger] nexus.children[k]).name == ch0[k].name
                        &&& nexus.children[k].device == ch0[k].device
                        &&& nexus.children[k].state == if k < j {
                            state_after_refresh(ch0[k], ok[k], true)
                        } else {
                            state_after_refresh(ch0[k], ok[k], false)
                        }
                    },
                handle_names(writers@) == open_handles(ch0, ok, n as int) + rebuild_handles(
                    ch0,
                    ok,
                    j as int,
                ),
                handle_names(readers@) == open_handles(ch0, ok, n as int),
            decreases n - j,
        {
            if nexus.children[j].state == ChildState::Rebuilding {
                if nexus.children[j].device.is_some() && handles_ok[j] {
                    let w = acquire_handle(&nexus.children[j]);
                    proof {
                        lemma_push_names(writers@, w);
                        assert(open_handles(ch0, ok, n as int) + rebuild_handles(ch0, ok, j + 1)
                            =~= (open_handles(ch0, ok, n as int) + rebuild_handles(ch0, ok, j as int)).push(
                            w.device_name@,
                        ));
                    }
                    writers.push(w);
                } else {
                    nexus.children[j].state = ChildState::Faulted(Reason::CantOpen);
                }
            } else {
                proof {
                    assert(open_handles(ch0, ok, n as int) + rebuild_handles(ch0, ok, j + 1)
                        =~= open_handles(ch0, ok, n as int) + rebuild_handles(ch0, ok, j as int));
                }
            }
            j += 1;
        }
    } else {
        proof {
            assert(open_handles(ch0, ok, n as int) + rebuild_handles(ch0, ok, 0) =~= open_handles(
                ch0,
                ok,
                n as int,
            ));
        }
    }
    (writers, readers)
}


/// The names in `s` other than `name`, in order.
pub open spec fn names_without(s: Seq<Seq<char>>, name: Seq<char>) -> Seq<Seq<char>> {
    s.filter(other_than(name))
}

/// Holds of the names other than `name`.
pub open spec fn other_than(name: Seq<char>) -> spec_fn(Seq<char>) -> bool {
    |n: Seq<char>| n != name
}

proof fn lemma_names_without_cons(h: Seq<char>, rest: Seq<Seq<char>>, name: Seq<char>)
    ensures
        names_without(seq![h] + rest, name) == if h == name {
            names_without(rest, name)
        } else {
            seq![h] + names_without(rest, name)
        },
{
    let p = other_than(name);
    Seq::filter_distributes_over_add(seq![h], rest, p);
    reveal_with_fuel(Seq::filter, 2);
    assert(seq![h].drop_last() =~= Seq::<Seq<char>>::empty());
    if h == name {
        assert(seq![h].filter(p) =~= Seq::<Seq<char>>::empty());
        assert(seq![h].filter(p) + rest.filter(p) =~= rest.filter(p));
    } else {
        assert(seq![h].filter(p) =~= seq![h]);
    }
}

/// Keeps, in order, the handles onto devices not called `name`.
fn without_device(v: Vec<BlockDeviceHandle>, name: &String) -> (r: Vec<BlockDeviceHandle>)
    ensures
        handle_names(r@) == names_without(handle_names(v@), name@),
{
    let ghost orig = v@;
    let mut rest = v;
    let mut kept: Vec<BlockDeviceHandle> = Vec::new();
    while rest.len() > 0
        invariant
            handle_names(kept@) + names_without(handle_names(rest@), name@) == names_without(
                handle_names(orig),
                name@,
            ),
        decreases rest.len(),
    {
        let ghost before = rest@;
        let h = rest.remove(0);
        proof {
            assert(handle_names(before) =~= seq![h.device_name@] + handle_names(rest@));
            lemma_names_without_cons(h.device_name@, handle_names(rest@), name@);
        }
        if h.device_name != *name {
            proof {
                lemma_push_names(kept@, h);
                assert(handle_names(kept@).push(h.device_name@) + names_without(handle_names(rest@), name@)
                    =~= handle_names(kept@) + (seq![h.device_name@] + names_without(handle_names(rest@), name@)));
            }
            kept.push(h);
        }
    }
    proof {
        assert(handle_names(rest@) =~= Seq::<Seq<char>>::empty());
        reveal_with_fuel(Seq::filter, 1);
        assert(handle_names(kept@) + Seq::<Seq<char>>::empty() =~= handle_names(kept@));
    }
    kept
}

impl NexusChannelInner {
    /// The round-robin cursor stays within the readers.
    pub open spec fn wf(&self) -> bool {
        self.readers.len() == 0 || self.previous < self.readers.len()
    }

    /// Round-robin choice of the reader for the next read: advances the
    /// cursor by one, wrapping at the number of readers, and returns it;
    /// `None` when there is no reader.
    pub fn child_select(&mut self) -> (r: Option<usize>)
        requires
            old(self).wf(),
        ensures
            final(self).wf(),
            *final(self) == advanced(*old(self)),
            r matches Some(i) ==> i == selected(*old(self)).unwrap(),
            r is None <==> selected(*old(self)) is None,
    {
        if self.readers.len() == 0 {
            None
        } else {
            let ghost len = self.readers.len() as int;
            if self.previous < self.readers.len() - 1 {
                proof {
                    vstd::arithmetic::div_mod::lemma_small_mod((self.previous + 1) as nat, len as nat);
                }
                self.previous += 1;
            } else {
                proof {
                    vstd::arithmetic::div_mod::lemma_mod_self_0(len);
                }
                self.previous = 0;
            }
            Some(self.previous)
        }
    }

    /// Marks the child whose device is called `device_name` as faulted
    /// (`IoError`), if it is `Open`; returns whether one was.
    pub fn fault_device(&mut self, nexus: &mut Nexus, device_name: &String) -> (r: bool)
        ensures
            *final(self) == *old(self),
            final(nexus).name == old(nexus).name,
            children_restated(
                old(nexus).children@,
                final(nexus).children@,
                |c: NexusChild| state_after_fault(c, device_name@),
            ),
            r == any_faultable(old(nexus).children@, device_name@),
    {
        fault_nexus_child(nexus, device_name)
    }
    /// Drops every reader and writer onto the device called `device_name`,
    /// resets the cursor, then faults that device's child as
    /// [`Self::fault_device`] does and returns what it returned.
    pub fn remove_device(&mut self, nexus: &mut Nexus, device_name: &String) -> (r: bool)
        ensures
            final(self).wf(),
            final(self).previous == 0,
            final(self).fail_fast == old(self).fail_fast,
            handle_names(final(self).readers@) == names_without(handle_names(old(self).readers@), device_name@),
            handle_names(final(self).writers@) == names_without(handle_names(old(self).writers@), device_name@),
            final(nexus).name == old(nexus).name,
            children_restated(
                old(nexus).children@,
                final(nexus).children@,
                |c: NexusChild| state_after_fault(c, device_name@),
            ),
            r == any_faultable(old(nexus).children@, device_name@),
    {
        self.previous = 0;
        let mut readers: Vec<BlockDeviceHandle> = Vec::new();
        core::mem::swap(&mut readers, &mut self.readers);
        self.readers = without_device(readers, device_name);
        let mut writers: Vec<BlockDeviceHandle> = Vec::new();
        core::mem::swap(&mut writers, &mut self.writers);
        self.writers = without_device(writers, device_name);
        self.fault_device(nexus, device_name)
    }

    /// Rebuilds both handle vectors from the children's current states:
    /// a reader and a writer onto each `Open` child, in child order, then,
    /// where there were readers before, a writer onto each `Rebuilding`
    /// child. A child whose handles cannot be had (`handles_ok[i]` false, or
    /// its device retired) is faulted with `CantOpen` instead. The old
    /// handles are all dropped and the cursor is reset.
    pub fn refresh(&mut self, nexus: &mut Nexus, handles_ok: &Vec<bool>)
        requires
            handles_ok.len() == old(nexus).children.len(),
        ensures
            final(self).wf(),
            final(self).previous == 0,
            final(self).fail_fast == old(self).fail_fast,
            handle_names(final(self).readers@) == refreshed_readers(old(nexus).children@, handles_ok@),
            handle_names(final(self).writers@) == refreshed_writers(
                old(nexus).children@,
                handles_ok@,
                old(self).readers.len() > 0,
            ),
            final(nexus).name == old(nexus).name,
            children_after_refresh(
                old(nexus).children@,
                final(nexus).children@,
                handles_ok@,
                old(self).readers.len() > 0,
            ),
    {
        self.previous = 0;
        let tee = self.readers.len() > 0;
        let (writers, readers) = acquire_handles(nexus, handles_ok, tee);
        self.writers.clear();
        self.readers.clear();
        self.writers = writers;
        self.readers = readers;
    }

    /// Applies a reconfiguration event for the device called `device_name`:
    /// offline and rebuild refresh; a fault faults the device then
    /// refreshes; a removal removes the device. Returns what the fault or
    /// removal returned, and `false` for the other events.
    pub fn reconfigure(
        &mut self,
        nexus: &mut Nexus,
        event: DrEvent,
        device_name: &String,
        handles_ok: &Vec<bool>,
    ) -> (r: bool)
        requires
            handles_ok.len() == old(nexus).children.len(),
        ensures
            final(self).wf(),
            final(self).previous == 0,
            final(nexus).name == old(nexus).name,
            event == DrEvent::ChildRemove ==> {
                &&& handle_names(final(self).readers@) == names_without(handle_names(old(self).readers@), device_name@)
                &&& handle_names(final(self).writers@) == names_without(handle_names(old(self).writers@), device_name@)
                &&& children_restated(
                    old(nexus).children@,
                    final(nexus).children@,
                    |c: NexusChild| state_after_fault(c, device_name@),
                )
                &&& r == any_faultable(old(nexus).children@, device_name@)
            },
            (event == DrEvent::ChildOffline || event == DrEvent::ChildRebuild) ==> {
                &&& handle_names(final(self).readers@) == refreshed_readers(old(nexus).children@, handles_ok@)
                &&& handle_names(final(self).writers@) == refreshed_writers(
                    old(nexus).children@,
                    handles_ok@,
                    old(self).readers.len() > 0,
                )
                &&& children_after_refresh(
                    old(nexus).children@,
                    final(nexus).children@,
                    handles_ok@,
                    old(self).readers.len() > 0,
                )
                &&& !r
            },
            event == DrEvent::ChildFault ==> exists|mid: Seq<NexusChild>|
                {
                    &&& children_restated(
                        old(nexus).children@,
                        mid,
                        |c: NexusChild| state_after_fault(c, device_name@),
                    )
                    &&& handle_names(final(self).readers@) == refreshed_readers(mid, handles_ok@)
                    &&& handle_names(final(self).writers@) == refreshed_writers(
                        mid,
                        handles_ok@,
                        old(self).readers.len() > 0,
                    )
                    &&& children_after_refresh(mid, final(nexus).children@, handles_ok@, old(self).readers.len() > 0)
                    &&& r == any_faultable(old(nexus).children@, device_name@)
                },
    {
        match event {
            DrEvent::ChildOffline | DrEvent::ChildRebuild => {
                self.refresh(nexus, handles_ok);
                false
            },
            DrEvent::ChildFault => {
                let r = self.fault_device(nexus, device_name);
                let ghost mid = nexus.children@;
                self.refresh(nexus, handles_ok);
                assert(children_after_refresh(mid, nexus.children@, handles_ok@, old(self).readers.len() > 0));
                r
            },
            DrEvent::ChildRemove => self.remove_device(nexus, device_name),
        }
    }
}

impl NexusChannel {
    /// Creates the channel of a core: a reader and a writer onto each `Open`
    /// child, in child order; a child whose handles cannot be had
    /// (`handles_ok[i]` false, or its device retired) is faulted with
    /// `CantOpen` and skipped.
    pub fn new(nexus: &mut Nexus, handles_ok: &Vec<bool>) -> (r: Self)
        requires
            handles_ok.len() == old(nexus).children.len(),
        ensures
            r.inner.wf(),
            r.inner.previous == 0,
            r.inner.fail_fast == 0,
            handle_names(r.inner.readers@) == refreshed_readers(old(nexus).children@, handles_ok@),
            handle_names(r.inner.writers@) == refreshed_readers(old(nexus).children@, handles_ok@),
            final(nexus).name == old(nexus).name,
            children_after_refresh(old(nexus).children@, final(nexus).children@, handles_ok@, false),
    {
        let (writers, readers) = acquire_handles(nexus, handles_ok, false);
        NexusChannel { inner: NexusChannelInner { writers, readers, previous: 0, fail_fast: 0 } }
    }

    /// Drops every handle of the channel; returns how many were dropped.
    pub fn clear(self) -> (released: usize)
        requires
            self.inner.writers.len() + self.inner.readers.len() <= usize::MAX,
        ensures
            released == self.inner.writers.len() + self.inner.readers.len(),
    {
        let mut inner = self.inner;
        let released = inner.writers.len() + inner.readers.len();
        inner.writers.clear();
        inner.readers.clear();
        released
    }

    /// Shared access to the state behind the channel.
    pub fn inner(&self) -> (r: &NexusChannelInner)
        ensures
            *r == self.inner,
    {
        &self.inner
    }

    /// Exclusive access to the state behind the channel.
    pub fn inner_mut(&mut self) -> (r: &mut NexusChannelInner)
        ensures
            *r == old(self).inner,
            final(self).inner == *final(r),
    {
        &mut self.inner
    }
}

} // verus!
