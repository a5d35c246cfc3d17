//! Properties of the reactors taken over several calls: a future sent to a
//! reactor runs exactly once on its next poll, and a scheduled thread is
//! owned by exactly one reactor.
use vstd::prelude::*;

use crate::fleet::{first_eligible, scheduled, took_thread};
use crate::queues::{channel_contents, queued};
use crate::reactor::{adopted, poll_done, polled_times, runnable, thread_ids, LThread, Reactor};

verus! {

/// The reactor holds the thread `id`, owned or still incoming.
pub open spec fn holds(r: Reactor, id: u64) -> bool {
    thread_ids(r.threads@).contains(id) || queued(r.incoming).contains(id)
}

/// A future sent to a reactor runs on its next poll, after the work queued
/// before it, and exactly once where it was not queued before.
pub proof fn lemma_sent_future_runs_once(before: Reactor, sent: Reactor, ran: Seq<u64>, f: u64)
    requires
        channel_contents(sent.inbox) == channel_contents(before.inbox).push(f),
        sent.tasks == before.tasks,
        ran == runnable(sent),
        !runnable(before).contains(f),
    ensures
        ran == runnable(before).push(f),
        ran.last() == f,
        forall|j: int| 0 <= j < ran.len() - 1 ==> ran[j] != f,
{
    assert(ran =~= runnable(before).push(f));
    assert forall|j: int| 0 <= j < ran.len() - 1 implies ran[j] != f by {
        assert(ran[j] == runnable(before)[j]);
    }
}

/// A thread held by no reactor is, once scheduled, held by exactly one:
/// the first reactor whose core its mask admits.
pub proof fn lemma_scheduled_on_one(before: Seq<Reactor>, after: Seq<Reactor>, mask: Seq<u32>, id: u64)
    requires
        scheduled(before, after, mask, id),
        forall|i: int| 0 <= i < before.len() ==> !holds(#[trigger] before[i], id),
    ensures
        exists|k: int|
            {
                &&& first_eligible(before, mask, k)
                &&& holds(after[k], id)
                &&& forall|j: int| 0 <= j < after.len() && j != k ==> !holds(#[trigger] after[j], id)
            },
{
    let k = choose|k: int|
        {
            &&& first_eligible(before, mask, k)
            &&& took_thread(before[k], after[k], id)
            &&& forall|j: int| 0 <= j < before.len() && j != k ==> #[trigger] after[j] == before[j]
        };
    let qk = queued(before[k].incoming);
    assert(queued(after[k].incoming) == qk.push(id));
    assert(qk.push(id)[qk.len() as int] == id);
    assert(holds(after[k], id));
    assert forall|j: int| 0 <= j < after.len() && j != k implies !holds(#[trigger] after[j], id) by {
        assert(after[j] == before[j]);
        assert(!holds(before[j], id));
    }
}

/// A poll moves the incoming threads into the owned ones: a reactor holds
/// the same threads after it, each of them now owned.
pub proof fn lemma_poll_adopts(before: Reactor, after: Reactor, n: nat, id: u64)
    requires
        poll_done(before, after, n),
    ensures
        holds(after, id) == holds(before, id),
        holds(after, id) ==> thread_ids(after.threads@).contains(id),
        !queued(after.incoming).contains(id),
{
    let p = before.threads@.map_values(|t: LThread| polled_times(t, n));
    let a = queued(before.incoming).map_values(|x: u64| adopted(x));
    assert(thread_ids(p) =~= thread_ids(before.threads@));
    assert(thread_ids(a) =~= queued(before.incoming));
    assert(thread_ids(after.threads@) =~= thread_ids(p) + thread_ids(a));
    let ids = thread_ids(after.threads@);
    let old_ids = thread_ids(before.threads@);
    let q = queued(before.incoming);
    if holds(before, id) {
        if old_ids.contains(id) {
            let i = choose|i: int| 0 <= i < old_ids.len() && old_ids[i] == id;
            assert(ids[i] == id);
        } else {
            let i = choose|i: int| 0 <= i < q.len() && q[i] == id;
            assert(ids[old_ids.len() + i] == id);
        }
    }
    if ids.contains(id) {
        let i = choose|i: int| 0 <= i < ids.len() && ids[i] == id;
        if i < old_ids.len() {
            assert(old_ids[i] == id);
        } else {
            assert(q[i - old_ids.len()] == id);
        }
    }
}

/// A thread pushed onto a reactor's incoming queue, and held by it nowhere
/// else, occurs exactly once among its threads after a poll, behind every
/// thread the reactor owned before.
pub proof fn lemma_adopted_once(before: Reactor, after: Reactor, n: nat, q0: Seq<u64>, id: u64)
    requires
        poll_done(before, after, n),
        queued(before.incoming) == q0.push(id),
        !q0.contains(id),
        !thread_ids(before.threads@).contains(id),
    ensures
        thread_ids(after.threads@)[(before.threads@.len() + q0.len()) as int] == id,
        forall|j: int|
            0 <= j < after.threads@.len() && j != before.threads@.len() + q0.len() ==> #[trigger] thread_ids(
                after.threads@,
            )[j] != id,
{
    let p = before.threads@.map_values(|t: LThread| polled_times(t, n));
    let a = queued(before.incoming).map_values(|x: u64| adopted(x));
    let old_ids = thread_ids(before.threads@);
    let q = queued(before.incoming);
    assert(thread_ids(p) =~= old_ids);
    assert(thread_ids(a) =~= q);
    assert(thread_ids(after.threads@) =~= old_ids + q);
    let ids = thread_ids(after.threads@);
    assert forall|j: int|
        0 <= j < after.threads@.len() && j != before.threads@.len() + q0.len() implies #[trigger] ids[j]
        != id by {
        if j < old_ids.len() {
            assert(ids[j] == old_ids[j]);
            if ids[j] == id {
                assert(old_ids.contains(id));
            }
        } else {
            assert(ids[j] == q[j - old_ids.len()]);
            assert(q[j - old_ids.len()] == q0[j - old_ids.len()]);
            if ids[j] == id {
                assert(q0.contains(id));
            }
        }
    }
}

} // verus!
