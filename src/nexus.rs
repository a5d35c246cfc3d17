//! The nexus aggregate as the I/O channels see it: its children, their state
//! machine, and the fault transition shared by every channel.
use vstd::prelude::*;

verus! {

/// Why a child left the `Open` state.
#[derive(Clone, Copy, Debug, PartialEq, Eq, Structural)]
pub enum Reason {
    Unknown,
    CantOpen,
    IoError,
    OutOfSync,
}

/// State of one child device of a nexus.
#[derive(Clone, Copy, Debug, PartialEq, Eq, Structural)]
pub enum ChildState {
    Init,
    ConfigInvalid,
    Open,
    Rebuilding,
    Closed,
    Faulted(Reason),
}

/// One backing device of a nexus. `device` is the name of the block device
/// behind the child, or `None` once that device has been retired.
#[derive(Debug)]
pub struct NexusChild {
    pub name: String,
    pub state: ChildState,
    pub device: Option<String>,
}

/// A replicated block device made of children.
#[derive(Debug)]
pub struct Nexus {
    pub name: String,
    pub children: Vec<NexusChild>,
}

/// The child is served by a device called `name`.
pub open spec fn has_device(c: NexusChild, name: Seq<char>) -> bool {
    &&& c.device is Some
    &&& c.device.unwrap()@ == name
}

/// The child would be moved to `Faulted(IoError)` by a fault of `name`.
pub open spec fn faultable(c: NexusChild, name: Seq<char>) -> bool {
    c.state == ChildState::Open && has_device(c, name)
}

/// State of a child after a fault of the device called `name`.
pub open spec fn state_after_fault(c: NexusChild, name: Seq<char>) -> ChildState {
    if faultable(c, name) {
        ChildState::Faulted(Reason::IoError)
    } else {
        c.state
    }
}

/// Some child of `ch` would be faulted by a fault of `name`.
pub open spec fn any_faultable(ch: Seq<NexusChild>, name: Seq<char>) -> bool {
    exists|i: int| 0 <= i < ch.len() && faultable(#[trigger] ch[i], name)
}

/// `after` is `before` with only the state of each child changed, to what
/// `st` gives for it.
pub open spec fn children_restated(
    before: Seq<NexusChild>,
    after: Seq<NexusChild>,
    st: spec_fn(NexusChild) -> ChildState,
) -> bool {
    &&& after.len() == before.len()
    &&& forall|i: int|
        0 <= i < before.len() ==> {
            &&& (#[trigger] after[i]).name == before[i].name
            &&& after[i].device == before[i].device
            &&& after[i].state == st(before[i])
        }
}

/// Device names are unique within the nexus.
pub open spec fn unique_devices(ch: Seq<NexusChild>) -> bool {
    forall|i: int, j: int|
        0 <= i < ch.len() && 0 <= j < ch.len() && i != j && (#[trigger] ch[i]).device is Some
            && (#[trigger] ch[j]).device is Some ==> ch[i].device.unwrap()@ != ch[j].device.unwrap()@
}

/// The device behind `c` is called `name`.
pub fn child_has_device(c: &NexusChild, name: &String) -> (r: bool)
    ensures
        r == has_device(*c, name@),
{
    match &c.device {
        Some(d) => *d == *name,
        None => false,
    }
}

/// Moves every `Open` child whose device is called `device_name` to
/// `Faulted(IoError)`; children whose device was retired are skipped.
/// Returns whether at least one child was moved.
pub fn fault_nexus_child(nexus: &mut Nexus, device_name: &String) -> (r: bool)
    ensures
        final(nexus).name == old(nexus).name,
        children_restated(
            old(nexus).children@,
            final(nexus).children@,
            |c: NexusChild| state_after_fault(c, device_name@),
        ),
        r == any_faultable(old(nexus).children@, device_name@),
{
    let mut faulted = false;
    let n = nexus.children.len();
    let mut i: usize = 0;
    while i < n
        invariant
            n == old(nexus).children.len(),
            nexus.children.len() == n,
            nexus.name == old(nexus).name,
            i <= n,
            forall|k: int|
                0 <= k < n ==> {
                    &&& (#[trigger] nexus.children[k]).name == old(nexus).children[k].name
                    &&& nexus.children[k].device == old(nexus).children[k].device
                    &&& nexus.children[k].state == if k < i {
                        state_after_fault(old(nexus).children[k], device_name@)
                    } else {
                        old(nexus).children[k].state
                    }
                },
            faulted == exists|k: int| 0 <= k < i && faultable(#[trigger] old(nexus).children@[k], device_name@),
        decreases n - i,
    {
        if nexus.children[i].state == ChildState::Open && child_has_device(&nexus.children[i], device_name) {
            nexus.children[i].state = ChildState::Faulted(Reason::IoError);
            faulted = true;
        }
        i += 1;
    }
    faulted
}

} // verus!
