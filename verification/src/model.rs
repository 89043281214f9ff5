//! The mathematical model of the pool: its abstract state, the atomic
//! transitions of the coordination protocol, and the counting and draining
//! functions that the contracts in `pool` are stated over.

use vstd::prelude::*;

use crate::types::{Job, Message, WorkerPhase};

verus! {

/// Abstract state of a pool: one lifecycle phase per worker (a worker's
/// identity is its index), the pending messages in the order they were sent,
/// the ids of the jobs run so far in the order they were claimed, and
/// whether the producer side is still open for new work.
#[verifier::ext_equal]
pub ghost struct PoolState {
    pub workers: Seq<WorkerPhase>,
    pub queue: Seq<Message>,
    pub log: Seq<u64>,
    pub open: bool,
}

impl PoolState {
    /// The configured pool size; fixed for the pool's entire lifetime.
    pub open spec fn size(self) -> nat {
        self.workers.len()
    }

    /// Enqueueing wraps the job in `Message::Work` and appends it to the
    /// shared queue; nothing else changes, so delivery is FIFO per producer.
    pub open spec fn enqueue_tr(self, job: Job) -> PoolState {
        PoolState { queue: self.queue.push(Message::Work(job)), ..self }
    }

    /// A worker may claim the next message only while idle, and only when a
    /// message is pending; the receive-side lock admits one claim at a time.
    pub open spec fn claim_enabled(self, w: int) -> bool {
        &&& 0 <= w < self.workers.len()
        &&& self.workers[w] is Idle
        &&& self.queue.len() > 0
    }

    /// Claiming removes exactly the front message from the queue and moves
    /// only the claiming worker: to `Busy` on a job, to `Terminated` on the
    /// shutdown signal.  No other worker and no other message is touched,
    /// so each message is delivered to exactly one worker exactly once.
    pub open spec fn claim_tr(self, w: int) -> PoolState {
        let rest = self.queue.drop_first();
        match self.queue.first() {
            Message::Work(job) => PoolState {
                workers: self.workers.update(w, WorkerPhase::Busy(job)),
                queue: rest,
                ..self
            },
            Message::Shutdown => PoolState {
                workers: self.workers.update(w, WorkerPhase::Terminated),
                queue: rest,
                ..self
            },
        }
    }

    /// A busy worker finishes the job it claimed.
    pub open spec fn finish_enabled(self, w: int) -> bool {
        &&& 0 <= w < self.workers.len()
        &&& self.workers[w] is Busy
    }

    /// Finishing runs the claimed job to completion on the claiming worker
    /// alone: a successful job appends its id to the log and returns the
    /// worker to `Idle`; a failing job ends the worker (`Failed`) and
    /// appends nothing.
    pub open spec fn finish_tr(self, w: int) -> PoolState {
        match self.workers[w] {
            WorkerPhase::Busy(job) => if job.fails {
                PoolState { workers: self.workers.update(w, WorkerPhase::Failed), ..self }
            } else {
                PoolState {
                    workers: self.workers.update(w, WorkerPhase::Idle),
                    log: self.log.push(job.id),
                    ..self
                }
            },
            _ => self,
        }
    }
}

/// How many workers are idle, ready to claim the next message.
pub open spec fn idle_count(ws: Seq<WorkerPhase>) -> nat
    decreases ws.len(),
{
    if ws.len() == 0 {
        0
    } else {
        (if ws.first() is Idle {
            1nat
        } else {
            0nat
        }) + idle_count(ws.drop_first())
    }
}

/// How many workers have been lost to failing jobs.
pub open spec fn failed_count(ws: Seq<WorkerPhase>) -> nat
    decreases ws.len(),
{
    if ws.len() == 0 {
        0
    } else {
        (if ws.first() is Failed {
            1nat
        } else {
            0nat
        }) + failed_count(ws.drop_first())
    }
}

/// How many shutdown signals are pending in `q`.
pub open spec fn shutdown_count(q: Seq<Message>) -> nat
    decreases q.len(),
{
    if q.len() == 0 {
        0
    } else {
        (if q.first() is Shutdown {
            1nat
        } else {
            0nat
        }) + shutdown_count(q.drop_first())
    }
}

/// The shutdown broadcast: `k` copies of `Message::Shutdown`, one per worker.
pub open spec fn shutdowns(k: nat) -> Seq<Message> {
    Seq::new(k, |i: int| Message::Shutdown)
}

/// The log produced by draining `q` front to back with `live` consuming
/// workers: a successful job contributes its id, a failing job silently
/// costs one consumer, a shutdown signal retires one consumer, and draining
/// stops once no consumer is left.  This is the exact execution record of
/// disposal, whatever order idle workers claim in, because claims are
/// serialized and FIFO.
pub open spec fn drained_log(q: Seq<Message>, live: nat) -> Seq<u64>
    decreases q.len(),
{
    if live == 0 || q.len() == 0 {
        Seq::empty()
    } else {
        match q.first() {
            Message::Work(job) => if job.fails {
                drained_log(q.drop_first(), (live - 1) as nat)
            } else {
                seq![job.id] + drained_log(q.drop_first(), live)
            },
            Message::Shutdown => drained_log(q.drop_first(), (live - 1) as nat),
        }
    }
}

/// How many consumers are lost to failing jobs while draining `q` with
/// `live` consuming workers (the counterpart of `drained_log`).
pub open spec fn drained_failures(q: Seq<Message>, live: nat) -> nat
    decreases q.len(),
{
    if live == 0 || q.len() == 0 {
        0
    } else {
        match q.first() {
            Message::Work(job) => if job.fails {
                1 + drained_failures(q.drop_first(), (live - 1) as nat)
            } else {
                drained_failures(q.drop_first(), live)
            },
            Message::Shutdown => drained_failures(q.drop_first(), (live - 1) as nat),
        }
    }
}

/// The ids of all jobs in `q`, in queue order.
pub open spec fn work_ids(q: Seq<Message>) -> Seq<u64>
    decreases q.len(),
{
    if q.len() == 0 {
        Seq::empty()
    } else {
        match q.first() {
            Message::Work(job) => seq![job.id] + work_ids(q.drop_first()),
            Message::Shutdown => work_ids(q.drop_first()),
        }
    }
}

/// The ids of the non-failing jobs in `q`, in queue order.
pub open spec fn surviving_ids(q: Seq<Message>) -> Seq<u64>
    decreases q.len(),
{
    if q.len() == 0 {
        Seq::empty()
    } else {
        match q.first() {
            Message::Work(job) => if job.fails {
                surviving_ids(q.drop_first())
            } else {
                seq![job.id] + surviving_ids(q.drop_first())
            },
            Message::Shutdown => surviving_ids(q.drop_first()),
        }
    }
}

/// How many jobs in `q` fail when run.
pub open spec fn failing_jobs(q: Seq<Message>) -> nat
    decreases q.len(),
{
    if q.len() == 0 {
        0
    } else {
        (if q.first() matches Message::Work(job) && job.fails {
            1nat
        } else {
            0nat
        }) + failing_jobs(q.drop_first())
    }
}

/// Every message in `q` is ordinary work (no shutdown signal pending).
pub open spec fn all_work(q: Seq<Message>) -> bool {
    forall|i: int| 0 <= i < q.len() ==> q[i] is Work
}

/// Every job in `q` runs to completion without failing.
pub open spec fn all_succeed(q: Seq<Message>) -> bool {
    forall|i: int| 0 <= i < q.len() ==> match #[trigger] q[i] {
        Message::Work(job) => !job.fails,
        Message::Shutdown => true,
    }
}

/// Replacing one worker's phase changes the idle and failed counts by
/// exactly the contribution of the replaced and the replacing phase.
pub proof fn lemma_counts_update(ws: Seq<WorkerPhase>, i: int, v: WorkerPhase)
    requires
        0 <= i < ws.len(),
    ensures
        idle_count(ws.update(i, v)) + (if ws[i] is Idle {
            1int
        } else {
            0int
        }) == idle_count(ws) + (if v is Idle {
            1int
        } else {
            0int
        }),
        failed_count(ws.update(i, v)) + (if ws[i] is Failed {
            1int
        } else {
            0int
        }) == failed_count(ws) + (if v is Failed {
            1int
        } else {
            0int
        }),
    decreases ws.len(),
{
    if i == 0 {
        assert(ws.update(0, v).drop_first() =~= ws.drop_first());
    } else {
        assert(ws.update(i, v).first() == ws.first());
        assert(ws.update(i, v).drop_first() =~= ws.drop_first().update(i - 1, v));
        lemma_counts_update(ws.drop_first(), i - 1, v);
    }
}

/// A worker seen idle makes the idle count positive.
pub proof fn lemma_idle_count_pos(ws: Seq<WorkerPhase>, i: int)
    requires
        0 <= i < ws.len(),
        ws[i] is Idle,
    ensures
        idle_count(ws) >= 1,
    decreases ws.len(),
{
    if i > 0 {
        lemma_idle_count_pos(ws.drop_first(), i - 1);
    }
}

/// No worker is idle exactly when the idle count is zero.
pub proof fn lemma_idle_count_zero(ws: Seq<WorkerPhase>)
    requires
        forall|i: int| 0 <= i < ws.len() ==> !((#[trigger] ws[i]) is Idle),
    ensures
        idle_count(ws) == 0,
    decreases ws.len(),
{
    if ws.len() > 0 {
        assert(forall|i: int|
            0 <= i < ws.drop_first().len() ==> ws.drop_first()[i] == ws[i + 1]);
        lemma_idle_count_zero(ws.drop_first());
    }
}

/// Every worker idle makes the idle count the whole pool.
pub proof fn lemma_idle_count_full(ws: Seq<WorkerPhase>)
    requires
        forall|i: int| 0 <= i < ws.len() ==> (#[trigger] ws[i]) is Idle,
    ensures
        idle_count(ws) == ws.len(),
    decreases ws.len(),
{
    if ws.len() > 0 {
        assert(forall|i: int|
            0 <= i < ws.drop_first().len() ==> ws.drop_first()[i] == ws[i + 1]);
        lemma_idle_count_full(ws.drop_first());
    }
}

/// No worker has failed exactly when the failed count is zero.
pub proof fn lemma_failed_count_zero(ws: Seq<WorkerPhase>)
    ensures
        (failed_count(ws) == 0) <==> (forall|i: int|
            0 <= i < ws.len() ==> !((#[trigger] ws[i]) is Failed)),
    decreases ws.len(),
{
    if ws.len() > 0 {
        assert(forall|i: int|
            0 <= i < ws.drop_first().len() ==> ws.drop_first()[i] == ws[i + 1]);
        lemma_failed_count_zero(ws.drop_first());
        if failed_count(ws) == 0 {
            assert(forall|i: int| 0 <= i < ws.len() ==> !((#[trigger] ws[i]) is Failed))
                by {
                assert(forall|i: int|
                    1 <= i < ws.len() ==> ws[i] == ws.drop_first()[i - 1]);
            }
        }
    }
}

/// Idle and failed workers are distinct, so their counts fit in the pool.
pub proof fn lemma_idle_failed_le_len(ws: Seq<WorkerPhase>)
    ensures
        idle_count(ws) + failed_count(ws) <= ws.len(),
    decreases ws.len(),
{
    if ws.len() > 0 {
        lemma_idle_failed_le_len(ws.drop_first());
    }
}

/// Pending shutdown signals add up across a split of the queue.
pub proof fn lemma_shutdown_count_append(a: Seq<Message>, b: Seq<Message>)
    ensures
        shutdown_count(a + b) == shutdown_count(a) + shutdown_count(b),
    decreases a.len(),
{
    if a.len() == 0 {
        assert(a + b =~= b);
    } else {
        assert((a + b).first() == a.first());
        assert((a + b).drop_first() =~= a.drop_first() + b);
        lemma_shutdown_count_append(a.drop_first(), b);
    }
}

/// A broadcast of `k` shutdown signals holds exactly `k` of them.
pub proof fn lemma_shutdown_count_of_broadcast(k: nat)
    ensures
        shutdown_count(shutdowns(k)) == k,
    decreases k,
{
    if k > 0 {
        assert(shutdowns(k).drop_first() =~= shutdowns((k - 1) as nat));
        lemma_shutdown_count_of_broadcast((k - 1) as nat);
    }
}

/// A shutdown signal seen in the queue makes the shutdown count positive.
pub proof fn lemma_shutdown_count_pos(q: Seq<Message>, i: int)
    requires
        0 <= i < q.len(),
        q[i] is Shutdown,
    ensures
        shutdown_count(q) >= 1,
    decreases q.len(),
{
    if i > 0 {
        lemma_shutdown_count_pos(q.drop_first(), i - 1);
    }
}

/// A queue of ordinary work holds no shutdown signal.
pub proof fn lemma_shutdown_count_of_work(q: Seq<Message>)
    requires
        all_work(q),
    ensures
        shutdown_count(q) == 0,
    decreases q.len(),
{
    if q.len() > 0 {
        assert(forall|i: int|
            0 <= i < q.drop_first().len() ==> q.drop_first()[i] == q[i + 1]);
        lemma_shutdown_count_of_work(q.drop_first());
    }
}

/// Draining nothing but shutdown signals runs no job and loses no worker.
pub proof fn lemma_drain_of_broadcast(k: nat, live: nat)
    ensures
        drained_log(shutdowns(k), live) == Seq::<u64>::empty(),
        drained_failures(shutdowns(k), live) == 0,
    decreases k,
{
    if k > 0 && live > 0 {
        assert(shutdowns(k).drop_first() =~= shutdowns((k - 1) as nat));
        lemma_drain_of_broadcast((k - 1) as nat, (live - 1) as nat);
    }
}

/// So long as fewer jobs fail than workers consume, draining a work queue
/// followed by any shutdown broadcast runs exactly the non-failing jobs, in
/// order, and loses exactly one worker per failing job.
pub proof fn lemma_drain_with_failures(q: Seq<Message>, extra: nat, live: nat)
    requires
        all_work(q),
        failing_jobs(q) < live,
    ensures
        drained_log(q + shutdowns(extra), live) == surviving_ids(q),
        drained_failures(q + shutdowns(extra), live) == failing_jobs(q),
    decreases q.len(),
{
    if q.len() == 0 {
        assert(q + shutdowns(extra) =~= shutdowns(extra));
        lemma_drain_of_broadcast(extra, live);
    } else {
        assert(forall|i: int|
            0 <= i < q.drop_first().len() ==> q.drop_first()[i] == q[i + 1]);
        assert((q + shutdowns(extra)).first() == q.first());
        assert((q + shutdowns(extra)).drop_first() =~= q.drop_first() + shutdowns(extra));
        assert(q[0] is Work);
        match q.first() {
            Message::Work(job) => {
                if job.fails {
                    lemma_drain_with_failures(q.drop_first(), extra, (live - 1) as nat);
                } else {
                    lemma_drain_with_failures(q.drop_first(), extra, live);
                }
            },
            Message::Shutdown => {},
        }
    }
}

/// A failing job costs the pool exactly its own worker's capacity and
/// nothing else: as long as fewer jobs fail than there are consuming
/// workers, disposal (draining the pending queue followed by one shutdown
/// signal per worker) still runs every other pending job — including jobs
/// enqueued after the failing one — exactly once and in order, and loses
/// exactly one worker per failing job.
pub proof fn lemma_failure_isolated(q: Seq<Message>, size: nat)
    requires
        all_work(q),
        failing_jobs(q) < size,
    ensures
        drained_log(q + shutdowns(size), size) == surviving_ids(q),
        drained_failures(q + shutdowns(size), size) == failing_jobs(q),
{
    lemma_drain_with_failures(q, size, size);
}

/// Two jobs enqueued back to back suffer no head-of-line blocking: with at
/// least two idle workers, one worker claims the first job and, while that
/// worker is still busy with it, another claims the second.  Claims only
/// ever move the claiming worker, so a long-running job never holds the
/// other workers up.
pub proof fn lemma_no_head_of_line_blocking(p: PoolState, a: int, b: int, j1: Job, j2: Job)
    requires
        p.open,
        0 <= a < p.workers.len(),
        0 <= b < p.workers.len(),
        a != b,
        p.workers[a] is Idle,
        p.workers[b] is Idle,
        p.queue.len() == 0,
    ensures
        ({
            let sent = p.enqueue_tr(j1).enqueue_tr(j2);
            let one_claimed = sent.claim_tr(a);
            let both_claimed = one_claimed.claim_tr(b);
            &&& sent.claim_enabled(a)
            &&& one_claimed.workers[a] == WorkerPhase::Busy(j1)
            &&& one_claimed.claim_enabled(b)
            &&& both_claimed.workers[a] == WorkerPhase::Busy(j1)
            &&& both_claimed.workers[b] == WorkerPhase::Busy(j2)
        }),
{
    let sent = p.enqueue_tr(j1).enqueue_tr(j2);
    assert(sent.queue =~= seq![Message::Work(j1), Message::Work(j2)]);
    let one_claimed = sent.claim_tr(a);
    assert(one_claimed.queue =~= seq![Message::Work(j2)]);
}

/// In a queue whose jobs all succeed, none fails and all survive.
pub proof fn lemma_all_succeed_survive(q: Seq<Message>)
    requires
        all_work(q),
        all_succeed(q),
    ensures
        failing_jobs(q) == 0,
        surviving_ids(q) == work_ids(q),
    decreases q.len(),
{
    if q.len() > 0 {
        assert(forall|i: int|
            0 <= i < q.drop_first().len() ==> q.drop_first()[i] == q[i + 1]);
        lemma_all_succeed_survive(q.drop_first());
    }
}

} // verus!
