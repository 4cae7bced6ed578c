//! A model of the worker pool, and what holds of every way it can run.
//!
//! Workers share the queue of servers and the list of results, and touch
//! them one at a time. A worker that is idle takes the server at the front
//! of the queue, or stops for good if the queue is empty; a worker that is
//! busy hands in the record of its server and is idle again. The order in
//! which the workers get their turns is not fixed. The laws below hold of
//! every order.
//!
//! A turn of an idle worker is one call of `TargetQueue::try_take_next`,
//! and a turn of a busy worker is one call of `ResultSink::push` with the
//! record that `run_target` made for its server.

use crate::servers::DnsEntry;
use vstd::multiset::Multiset;
use vstd::prelude::*;

verus! {

/// What a worker is doing.
pub enum WorkerState {
    /// Between servers.
    Idle,
    /// Making its attempts against a server.
    Busy(DnsEntry),
    /// Stopped: it found the queue empty.
    Done,
}

/// The pool between two turns: the queue, the workers, and the servers
/// whose records have been handed in, in the order they were.
pub struct Pool {
    pub queue: Seq<DnsEntry>,
    pub workers: Seq<WorkerState>,
    pub processed: Seq<DnsEntry>,
}

/// The pool before the first turn.
pub open spec fn start(targets: Seq<DnsEntry>, workers: nat) -> Pool {
    Pool {
        queue: targets,
        workers: Seq::new(workers, |i: int| WorkerState::Idle),
        processed: Seq::empty(),
    }
}

/// Whether worker `w` can take a turn: it has not stopped.
pub open spec fn can_step(p: Pool, w: int) -> bool {
    0 <= w < p.workers.len() && !(p.workers[w] is Done)
}

/// The pool after worker `w` took its turn.
pub open spec fn step(p: Pool, w: int) -> Pool {
    match p.workers[w] {
        WorkerState::Idle => if p.queue.len() > 0 {
            Pool {
                queue: p.queue.drop_first(),
                workers: p.workers.update(w, WorkerState::Busy(p.queue[0])),
                processed: p.processed,
            }
        } else {
            Pool {
                queue: p.queue,
                workers: p.workers.update(w, WorkerState::Done),
                processed: p.processed,
            }
        },
        WorkerState::Busy(e) => Pool {
            queue: p.queue,
            workers: p.workers.update(w, WorkerState::Idle),
            processed: p.processed.push(e),
        },
        WorkerState::Done => p,
    }
}

/// Whether the workers can take their turns in the order `schedule`.
pub open spec fn valid_schedule(p: Pool, schedule: Seq<int>) -> bool
    decreases schedule.len(),
{
    schedule.len() == 0 || (can_step(p, schedule[0]) && valid_schedule(
        step(p, schedule[0]),
        schedule.drop_first(),
    ))
}

/// The pool after the workers took their turns in the order `schedule`.
pub open spec fn run(p: Pool, schedule: Seq<int>) -> Pool
    decreases schedule.len(),
{
    if schedule.len() == 0 {
        p
    } else {
        run(step(p, schedule[0]), schedule.drop_first())
    }
}

/// Whether every worker has stopped.
pub open spec fn all_done(p: Pool) -> bool {
    forall|w: int| 0 <= w < p.workers.len() ==> #[trigger] p.workers[w] is Done
}

/// The servers that workers are busy with.
pub open spec fn in_flight(workers: Seq<WorkerState>) -> Multiset<DnsEntry>
    decreases workers.len(),
{
    if workers.len() == 0 {
        Multiset::empty()
    } else {
        match workers.last() {
            WorkerState::Busy(e) => in_flight(workers.drop_last()).insert(e),
            _ => in_flight(workers.drop_last()),
        }
    }
}

/// How many workers have not stopped.
pub open spec fn running(workers: Seq<WorkerState>) -> nat
    decreases workers.len(),
{
    if workers.len() == 0 {
        0
    } else {
        running(workers.drop_last()) + if workers.last() is Done {
            0nat
        } else {
            1nat
        }
    }
}

/// Every server that is waiting, being worked on, or done with.
pub open spec fn accounted(p: Pool) -> Multiset<DnsEntry> {
    p.queue.to_multiset().add(in_flight(p.workers)).add(p.processed.to_multiset())
}

/// An upper bound on the turns that are left.
pub open spec fn turns_left(p: Pool) -> nat {
    2 * p.queue.len() + in_flight(p.workers).len() + running(p.workers)
}

/// What changing one worker does to the servers in flight and to the
/// number of workers that run.
proof fn lemma_update_worker(workers: Seq<WorkerState>, w: int, s: WorkerState)
    requires
        0 <= w < workers.len(),
    ensures
        in_flight(workers.update(w, s)) =~= (match workers[w] {
            WorkerState::Busy(e) => in_flight(workers).remove(e),
            _ => in_flight(workers),
        }).add(
            match s {
                WorkerState::Busy(e) => Multiset::singleton(e),
                _ => Multiset::empty(),
            },
        ),
        workers[w] matches WorkerState::Busy(e) ==> in_flight(workers).count(e) > 0,
        running(workers.update(w, s)) + (if workers[w] is Done {
            0nat
        } else {
            1nat
        }) == running(workers) + (if s is Done {
            0nat
        } else {
            1nat
        }),
    decreases workers.len(),
{
    broadcast use vstd::multiset::group_multiset_axioms;

    let updated = workers.update(w, s);
    if w == workers.len() - 1 {
        assert(updated.drop_last() =~= workers.drop_last());
    } else {
        assert(updated.drop_last() =~= workers.drop_last().update(w, s));
        assert(workers.drop_last()[w] == workers[w]);
        lemma_update_worker(workers.drop_last(), w, s);
    }
}

/// A turn loses no server and makes up none, and uses up at least one of
/// the turns that are left. Once a worker has stopped, the queue is empty
/// and stays so.
proof fn lemma_step(p: Pool, w: int)
    requires
        can_step(p, w),
        (exists|v: int| 0 <= v < p.workers.len() && #[trigger] p.workers[v] is Done)
            ==> p.queue.len() == 0,
    ensures
        accounted(step(p, w)) == accounted(p),
        turns_left(step(p, w)) < turns_left(p),
        step(p, w).workers.len() == p.workers.len(),
        (exists|v: int| 0 <= v < step(p, w).workers.len() && #[trigger] step(p, w).workers[v] is Done)
            ==> step(p, w).queue.len() == 0,
{
    broadcast use vstd::multiset::group_multiset_axioms;

    let q = step(p, w);
    match p.workers[w] {
        WorkerState::Idle => {
            if p.queue.len() > 0 {
                let e = p.queue[0];
                lemma_update_worker(p.workers, w, WorkerState::Busy(e));
                assert(p.queue.remove(0) =~= p.queue.drop_first());
                vstd::seq_lib::to_multiset_remove(p.queue, 0);
                p.queue.to_multiset_ensures();
                assert(p.queue.contains(e));
                assert(accounted(q) =~= accounted(p));
                assert forall|v: int| 0 <= v < q.workers.len() implies !(
                #[trigger] q.workers[v] is Done) by {
                    if v != w {
                        assert(q.workers[v] == p.workers[v]);
                    }
                }
            } else {
                lemma_update_worker(p.workers, w, WorkerState::Done);
                assert(accounted(q) =~= accounted(p));
            }
        },
        WorkerState::Busy(e) => {
            lemma_update_worker(p.workers, w, WorkerState::Idle);
            vstd::seq_lib::to_multiset_build(p.processed, e);
            assert(accounted(q) =~= accounted(p));
            if exists|v: int| 0 <= v < q.workers.len() && #[trigger] q.workers[v] is Done {
                let v = choose|v: int| 0 <= v < q.workers.len() && #[trigger] q.workers[v] is Done;
                assert(p.workers[v] is Done);
            }
        },
        WorkerState::Done => {},
    }
}

/// Nothing is in flight where every worker has stopped.
proof fn lemma_all_done_none_in_flight(workers: Seq<WorkerState>)
    requires
        forall|w: int| 0 <= w < workers.len() ==> #[trigger] workers[w] is Done,
    ensures
        in_flight(workers) == Multiset::<DnsEntry>::empty(),
    decreases workers.len(),
{
    if workers.len() > 0 {
        assert(workers.last() == workers[workers.len() - 1]);
        assert forall|w: int| 0 <= w < workers.drop_last().len() implies #[trigger] workers.drop_last()[w] is Done by {
            assert(workers.drop_last()[w] == workers[w]);
        }
        lemma_all_done_none_in_flight(workers.drop_last());
    }
}

/// What holds after any turns: no server is lost or made up, the turns
/// taken come off the turns that were left, and the queue is empty once a
/// worker has stopped.
proof fn lemma_run(p: Pool, schedule: Seq<int>)
    requires
        valid_schedule(p, schedule),
        (exists|v: int| 0 <= v < p.workers.len() && #[trigger] p.workers[v] is Done)
            ==> p.queue.len() == 0,
    ensures
        accounted(run(p, schedule)) == accounted(p),
        turns_left(run(p, schedule)) + schedule.len() <= turns_left(p),
        run(p, schedule).workers.len() == p.workers.len(),
        (exists|v: int|
            0 <= v < run(p, schedule).workers.len() && #[trigger] run(p, schedule).workers[v] is Done)
            ==> run(p, schedule).queue.len() == 0,
    decreases schedule.len(),
{
    if schedule.len() > 0 {
        lemma_step(p, schedule[0]);
        lemma_run(step(p, schedule[0]), schedule.drop_first());
    }
}

/// No worker is busy or has stopped before the first turn.
proof fn lemma_start(targets: Seq<DnsEntry>, workers: nat)
    ensures
        in_flight(start(targets, workers).workers) == Multiset::<DnsEntry>::empty(),
        running(start(targets, workers).workers) == workers,
    decreases workers,
{
    if workers > 0 {
        assert(start(targets, workers).workers.drop_last() =~= start(
            targets,
            (workers - 1) as nat,
        ).workers);
        lemma_start(targets, (workers - 1) as nat);
    }
}

/// A sequence without elements holds nothing.
proof fn lemma_empty_to_multiset(s: Seq<DnsEntry>)
    requires
        s.len() == 0,
    ensures
        s.to_multiset() == Multiset::<DnsEntry>::empty(),
{
    broadcast use vstd::multiset::group_multiset_axioms;

    s.to_multiset_ensures();
    assert forall|e: DnsEntry| s.to_multiset().count(e) == 0 by {
        assert(!s.contains(e));
    }
    assert(s.to_multiset() =~= Multiset::<DnsEntry>::empty());
}

/// However the workers take their turns, once all of them have stopped
/// every server has been processed exactly once: the servers with a
/// record are the servers that were queued, each as often as it was
/// queued, so there are as many records as there were servers, and the
/// queue is empty. This holds for any number of workers from one on, be
/// they fewer or more than the servers.
pub proof fn lemma_each_target_processed_once(
    targets: Seq<DnsEntry>,
    workers: nat,
    schedule: Seq<int>,
)
    requires
        workers >= 1,
        valid_schedule(start(targets, workers), schedule),
        all_done(run(start(targets, workers), schedule)),
    ensures
        run(start(targets, workers), schedule).processed.to_multiset() == targets.to_multiset(),
        run(start(targets, workers), schedule).processed.len() == targets.len(),
        run(start(targets, workers), schedule).queue.len() == 0,
{
    broadcast use vstd::multiset::group_multiset_axioms;

    let first = start(targets, workers);
    let last = run(first, schedule);
    lemma_start(targets, workers);
    assert forall|v: int| 0 <= v < first.workers.len() implies !(
    #[trigger] first.workers[v] is Done) by {}
    lemma_run(first, schedule);
    lemma_all_done_none_in_flight(last.workers);
    assert(last.workers[0] is Done);
    lemma_empty_to_multiset(last.queue);
    lemma_empty_to_multiset(first.processed);
    assert(accounted(first) =~= targets.to_multiset());
    assert(accounted(last) =~= last.processed.to_multiset());
    last.processed.to_multiset_ensures();
    targets.to_multiset_ensures();
}

/// The run comes to an end: with `n` servers and `t` workers no more than
/// `2 * n + t` turns can be taken, in whatever order.
pub proof fn lemma_run_ends(targets: Seq<DnsEntry>, workers: nat, schedule: Seq<int>)
    requires
        valid_schedule(start(targets, workers), schedule),
    ensures
        schedule.len() <= 2 * targets.len() + workers,
{
    broadcast use vstd::multiset::group_multiset_axioms;

    let first = start(targets, workers);
    lemma_start(targets, workers);
    assert forall|v: int| 0 <= v < first.workers.len() implies !(
    #[trigger] first.workers[v] is Done) by {}
    lemma_run(first, schedule);
}

/// As long as a worker has not stopped, a turn can be taken: the pool
/// cannot get stuck before every worker has stopped.
pub proof fn lemma_no_deadlock(p: Pool)
    requires
        !all_done(p),
    ensures
        exists|w: int| can_step(p, w),
{
    let w = choose|w: int| 0 <= w < p.workers.len() && !(#[trigger] p.workers[w] is Done);
    assert(can_step(p, w));
}

} // verus!
