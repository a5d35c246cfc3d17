//! Properties of the channel operations taken together: round-robin reads,
//! removal, idempotent faults, and what a refresh leaves behind.
use vstd::prelude::*;

use crate::nexus::{
    any_faultable,
    children_restated,
    faultable,
    has_device,
    state_after_fault,
    unique_devices,
    ChildState,
    NexusChild,
};
use crate::nexus_channel::{
    acquirable,
    after_selects,
    children_after_refresh,
    handle_names,
    names_without,
    other_than,
    open_handles,
    rebuild_handles,
    refreshed_readers,
    refreshed_writers,
    selected,
    state_after_refresh,
    NexusChannelInner,
};

verus! {

/// Selections go round the readers in order: the `k`-th selection after a
/// state returns the reader after the `k`-th one from the cursor, wrapping,
/// so the sequence of selections repeats with a period of the number of
/// readers; the readers themselves never change.
pub proof fn lemma_round_robin(ch: NexusChannelInner, k: nat)
    requires
        ch.wf(),
        ch.readers.len() > 0,
    ensures
        after_selects(ch, k).readers == ch.readers,
        after_selects(ch, k).wf(),
        selected(after_selects(ch, k)) == Some(((ch.previous + k + 1) % (ch.readers.len() as int)) as int),
        selected(after_selects(ch, (k + ch.readers.len()) as nat)) == selected(after_selects(ch, k)),
{
    let len = ch.readers.len() as int;
    let k2 = (k + ch.readers.len()) as nat;
    lemma_selects_keep_readers(ch, k);
    lemma_selected_at(ch, k);
    lemma_selected_at(ch, k2);
    vstd::arithmetic::div_mod::lemma_mod_add_multiples_vanish(ch.previous + k + 1, len);
    assert(ch.previous + k2 + 1 == len + (ch.previous + k + 1));
}

/// Reader `j` is selected by one of the `len` selections that follow the
/// first `i`, where `len` is the number of readers.
pub open spec fn selected_within(ch: NexusChannelInner, i: nat, j: int) -> bool {
    exists|k: nat| i <= k < i + ch.readers.len() && #[trigger] selected(after_selects(ch, k)) == Some(j)
}

/// Within any `len` consecutive selections, where `len` is the number of
/// readers, every reader is selected exactly once.
pub proof fn lemma_round_robin_window(ch: NexusChannelInner, i: nat)
    requires
        ch.wf(),
        ch.readers.len() > 0,
    ensures
        forall|j: int| 0 <= j < ch.readers.len() ==> #[trigger] selected_within(ch, i, j),
        forall|k1: nat, k2: nat|
            i <= k1 < k2 < i + ch.readers.len() ==> #[trigger] selected(after_selects(ch, k1))
                != #[trigger] selected(after_selects(ch, k2)),
{
    let n = ch.readers.len() as int;
    let a = ch.previous + i + 1;
    assert forall|j: int| 0 <= j < n implies #[trigger] selected_within(ch, i, j) by {
        let q = (j - a) / n;
        let d = (j - a) % n;
        vstd::arithmetic::div_mod::lemma_fundamental_div_mod(j - a, n);
        vstd::arithmetic::div_mod::lemma_mod_bound(j - a, n);
        let k = (i + d) as nat;
        lemma_selected_at(ch, k);
        assert(ch.previous + k + 1 == n * (-q) + j) by (nonlinear_arith)
            requires
                j - a == n * q + d,
                k == i + d,
                a == ch.previous + i + 1,
        ;
        vstd::arithmetic::div_mod::lemma_mod_multiples_vanish(-q, j, n);
        vstd::arithmetic::div_mod::lemma_small_mod(j as nat, n as nat);
        assert(selected(after_selects(ch, k)) == Some(j));
    }
    assert forall|k1: nat, k2: nat| i <= k1 < k2 < i + n implies #[trigger] selected(after_selects(ch, k1))
        != #[trigger] selected(after_selects(ch, k2)) by {
        lemma_selected_at(ch, k1);
        lemma_selected_at(ch, k2);
        let x = ch.previous + k2 + 1;
        let y = ch.previous + k1 + 1;
        vstd::arithmetic::div_mod::lemma_mod_equivalence(x, y, n);
        vstd::arithmetic::div_mod::lemma_small_mod((k2 - k1) as nat, n as nat);
    }
}

proof fn lemma_selects_keep_readers(ch: NexusChannelInner, k: nat)
    requires
        ch.wf(),
    ensures
        after_selects(ch, k).readers == ch.readers,
        after_selects(ch, k).wf(),
    decreases k,
{
    if k > 0 {
        lemma_selects_keep_readers(ch, (k - 1) as nat);
        let prev = after_selects(ch, (k - 1) as nat);
        if prev.readers.len() > 0 {
            vstd::arithmetic::div_mod::lemma_mod_bound(prev.previous + 1, prev.readers.len() as int);
        }
    }
}

proof fn lemma_selected_at(ch: NexusChannelInner, k: nat)
    requires
        ch.wf(),
        ch.readers.len() > 0,
    ensures
        selected(after_selects(ch, k)) == Some(((ch.previous + k + 1) % (ch.readers.len() as int)) as int),
    decreases k,
{
    let len = ch.readers.len() as int;
    lemma_selects_keep_readers(ch, k);
    if k == 0 {
    } else {
        lemma_selected_at(ch, (k - 1) as nat);
        lemma_selects_keep_readers(ch, (k - 1) as nat);
        vstd::arithmetic::div_mod::lemma_add_mod_noop(ch.previous + k, 1, len);
        vstd::arithmetic::div_mod::lemma_mod_bound(ch.previous + k, len);
        vstd::arithmetic::div_mod::lemma_mod_bound(1, len);
        vstd::arithmetic::div_mod::lemma_mod_twice(ch.previous + k, len);
        if len > 1 {
            vstd::arithmetic::div_mod::lemma_small_mod(1, len as nat);
        } else {
            vstd::arithmetic::div_mod::lemma_mod_bound(ch.previous + k + 1, 1);
            vstd::arithmetic::div_mod::lemma_mod_bound((ch.previous + k) % len + 1, 1);
        }
    }
}

/// After the handles onto a device have been removed, no number of
/// selections ever picks a reader onto that device.
pub proof fn lemma_removed_never_selected(
    ch: NexusChannelInner,
    before: Seq<Seq<char>>,
    name: Seq<char>,
    k: nat,
)
    requires
        ch.wf(),
        handle_names(ch.readers@) == names_without(before, name),
    ensures
        selected(after_selects(ch, k)) matches Some(i) ==> after_selects(ch, k).readers@[i].device_name@
            != name,
{
    lemma_selects_keep_readers(ch, k);
    let c = after_selects(ch, k);
    if let Some(i) = selected(c) {
        vstd::arithmetic::div_mod::lemma_mod_bound(c.previous + 1, c.readers.len() as int);
        assert(handle_names(ch.readers@).len() == ch.readers@.len());
        before.lemma_filter_pred(other_than(name), i);
        assert(handle_names(ch.readers@)[i] == ch.readers@[i].device_name@);
    }
}

/// A fault is idempotent: once the device called `name` has been faulted,
/// faulting it again moves no child.
pub proof fn lemma_fault_idempotent(before: Seq<NexusChild>, after: Seq<NexusChild>, name: Seq<char>)
    requires
        children_restated(before, after, |c: NexusChild| state_after_fault(c, name)),
    ensures
        !any_faultable(after, name),
{
    assert forall|i: int| 0 <= i < after.len() implies !faultable(#[trigger] after[i], name) by {
        assert(after[i].state == state_after_fault(before[i], name));
    }
}

proof fn lemma_open_handles_from(ch: Seq<NexusChild>, ok: Seq<bool>, n: int, j: int)
    requires
        0 <= n <= ch.len(),
        ok.len() == ch.len(),
        0 <= j < open_handles(ch, ok, n).len(),
    ensures
        exists|i: int|
            0 <= i < n && (#[trigger] ch[i]).state == ChildState::Open && acquirable(ch[i], ok[i])
                && ch[i].device.unwrap()@ == open_handles(ch, ok, n)[j],
    decreases n,
{
    if n > 0 {
        let p = open_handles(ch, ok, n - 1);
        if j < p.len() {
            lemma_open_handles_from(ch, ok, n - 1, j);
        } else {
            assert(ch[n - 1].device.unwrap()@ == open_handles(ch, ok, n)[j]);
        }
    }
}

proof fn lemma_rebuild_handles_from(ch: Seq<NexusChild>, ok: Seq<bool>, n: int, j: int)
    requires
        0 <= n <= ch.len(),
        ok.len() == ch.len(),
        0 <= j < rebuild_handles(ch, ok, n).len(),
    ensures
        exists|i: int|
            0 <= i < n && (#[trigger] ch[i]).state == ChildState::Rebuilding && acquirable(ch[i], ok[i])
                && ch[i].device.unwrap()@ == rebuild_handles(ch, ok, n)[j],
    decreases n,
{
    if n > 0 {
        let p = rebuild_handles(ch, ok, n - 1);
        if j < p.len() {
            lemma_rebuild_handles_from(ch, ok, n - 1, j);
        } else {
            assert(ch[n - 1].device.unwrap()@ == rebuild_handles(ch, ok, n)[j]);
        }
    }
}

/// Some `Open` child is served by the device called `name`.
pub open spec fn serves_reads(ch: Seq<NexusChild>, name: Seq<char>) -> bool {
    exists|i: int| 0 <= i < ch.len() && (#[trigger] ch[i]).state == ChildState::Open && has_device(ch[i], name)
}

/// Some `Open` or `Rebuilding` child is served by the device called `name`.
pub open spec fn serves_writes(ch: Seq<NexusChild>, name: Seq<char>) -> bool {
    exists|i: int|
        0 <= i < ch.len() && ((#[trigger] ch[i]).state == ChildState::Open || ch[i].state
            == ChildState::Rebuilding) && has_device(ch[i], name)
}

/// After a refresh every handle is onto the device of an `Open` or a
/// `Rebuilding` child, every reader onto that of an `Open` one, and no
/// `Rebuilding` child has a reader.
pub proof fn lemma_refresh_handles_usable(
    before: Seq<NexusChild>,
    after: Seq<NexusChild>,
    ok: Seq<bool>,
    tee: bool,
)
    requires
        ok.len() == before.len(),
        unique_devices(before),
        children_after_refresh(before, after, ok, tee),
    ensures
        forall|j: int|
            0 <= j < refreshed_readers(before, ok).len() ==> serves_reads(
                after,
                #[trigger] refreshed_readers(before, ok)[j],
            ),
        forall|j: int|
            0 <= j < refreshed_writers(before, ok, tee).len() ==> serves_writes(
                after,
                #[trigger] refreshed_writers(before, ok, tee)[j],
            ),
        forall|i: int, j: int|
            0 <= i < after.len() && (#[trigger] after[i]).state == ChildState::Rebuilding && 0 <= j
                < refreshed_readers(before, ok).len() ==> !has_device(
                after[i],
                #[trigger] refreshed_readers(before, ok)[j],
            ),
{
    let n = before.len() as int;
    assert forall|j: int| 0 <= j < refreshed_readers(before, ok).len() implies serves_reads(
        after,
        #[trigger] refreshed_readers(before, ok)[j],
    ) by {
        lemma_open_handles_from(before, ok, n, j);
        let i = choose|i: int|
            0 <= i < n && (#[trigger] before[i]).state == ChildState::Open && acquirable(before[i], ok[i])
                && before[i].device.unwrap()@ == open_handles(before, ok, n)[j];
        assert(after[i].state == ChildState::Open);
    }
    assert forall|j: int| 0 <= j < refreshed_writers(before, ok, tee).len() implies serves_writes(
        after,
        #[trigger] refreshed_writers(before, ok, tee)[j],
    ) by {
        let o = open_handles(before, ok, n);
        if j < o.len() {
            lemma_open_handles_from(before, ok, n, j);
            let i = choose|i: int|
                0 <= i < n && (#[trigger] before[i]).state == ChildState::Open && acquirable(before[i], ok[i])
                    && before[i].device.unwrap()@ == open_handles(before, ok, n)[j];
            assert(after[i].state == ChildState::Open);
        } else {
            assert(tee);
            lemma_rebuild_handles_from(before, ok, n, j - o.len());
            let i = choose|i: int|
                0 <= i < n && (#[trigger] before[i]).state == ChildState::Rebuilding && acquirable(
                    before[i],
                    ok[i],
                ) && before[i].device.unwrap()@ == rebuild_handles(before, ok, n)[j - o.len()];
            assert(after[i].state == ChildState::Rebuilding);
        }
    }
    assert forall|i: int, j: int|
        0 <= i < after.len() && (#[trigger] after[i]).state == ChildState::Rebuilding && 0 <= j
            < refreshed_readers(before, ok).len() implies !has_device(
        after[i],
        #[trigger] refreshed_readers(before, ok)[j],
    ) by {
        lemma_open_handles_from(before, ok, n, j);
        let k = choose|k: int|
            0 <= k < n && (#[trigger] before[k]).state == ChildState::Open && acquirable(before[k], ok[k])
                && before[k].device.unwrap()@ == open_handles(before, ok, n)[j];
        assert(before[i].state == ChildState::Rebuilding);
        assert(i != k);
        if after[i].device is Some {
            assert(before[i].device is Some);
        }
    }
}

proof fn lemma_open_handles_stable(
    before: Seq<NexusChild>,
    mid: Seq<NexusChild>,
    ok: Seq<bool>,
    tee: bool,
    n: int,
)
    requires
        ok.len() == before.len(),
        0 <= n <= before.len(),
        children_after_refresh(before, mid, ok, tee),
    ensures
        open_handles(mid, ok, n) == open_handles(before, ok, n),
        tee ==> rebuild_handles(mid, ok, n) == rebuild_handles(before, ok, n),
    decreases n,
{
    if n > 0 {
        lemma_open_handles_stable(before, mid, ok, tee, n - 1);
        assert(mid[n - 1].state == state_after_refresh(before[n - 1], ok[n - 1], tee));
    }
}

/// A second refresh, with nothing changed in between, installs readers and
/// writers onto the same devices in the same order as the first, and
/// changes no child. This holds where the first refresh set up the
/// write-only tee exactly when it left readers behind (`tee`), as the second
/// one then does.
pub proof fn lemma_refresh_twice(
    before: Seq<NexusChild>,
    mid: Seq<NexusChild>,
    after: Seq<NexusChild>,
    ok: Seq<bool>,
    tee: bool,
)
    requires
        ok.len() == before.len(),
        tee == (refreshed_readers(before, ok).len() > 0),
        children_after_refresh(before, mid, ok, tee),
        children_after_refresh(mid, after, ok, refreshed_readers(before, ok).len() > 0),
    ensures
        refreshed_readers(mid, ok) == refreshed_readers(before, ok),
        refreshed_writers(mid, ok, refreshed_readers(before, ok).len() > 0) == refreshed_writers(
            before,
            ok,
            tee,
        ),
        after == mid,
{
    let n = before.len() as int;
    lemma_open_handles_stable(before, mid, ok, tee, n);
    assert(after.len() == mid.len());
    assert forall|i: int| 0 <= i < mid.len() implies #[trigger] after[i] == mid[i] by {
        assert(mid[i].state == state_after_refresh(before[i], ok[i], tee));
        assert(after[i].state == state_after_refresh(mid[i], ok[i], tee));
    }
    assert(after =~= mid);
}

} // verus!
