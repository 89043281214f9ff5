//! The pool itself: construction, enqueueing, the claim/finish protocol a
//! worker follows, and ordered disposal.  Every operation's contract is an
//! exact transition of the abstract state in `model`.

use vstd::pervasive::VecAdditionalExecFns;
use vstd::prelude::*;

use crate::model::{
    all_succeed, all_work, drained_failures, drained_log, failed_count, idle_count,
    lemma_all_succeed_survive, lemma_counts_update, lemma_drain_with_failures,
    lemma_failed_count_zero, lemma_idle_count_full, lemma_idle_count_pos, lemma_idle_count_zero,
    lemma_idle_failed_le_len, lemma_shutdown_count_append, lemma_shutdown_count_of_broadcast,
    lemma_shutdown_count_of_work, lemma_shutdown_count_pos, shutdown_count, shutdowns, work_ids,
    PoolState,
};
use crate::types::{Job, Message, WorkerPhase};

verus! {

/// How disposal can fail: a worker's thread ended through a job failure
/// rather than a clean shutdown, so the pool cannot vouch that every worker
/// exited cleanly.
#[derive(Clone, Copy, PartialEq, Eq, Structural, Debug)]
pub enum PoolError {
    WorkerFailed,
}

/// A fixed-size worker pool.
///
/// The pool owns one lifecycle phase per worker (a worker's identity is its
/// index), the shared FIFO queue of pending messages, the record of jobs
/// run so far, and the producer side's open/closed flag.  The number of
/// workers is fixed at construction and never changes.
pub struct ThreadPool {
    workers: Vec<WorkerPhase>,
    queue: Vec<Message>,
    log: Vec<u64>,
    open: bool,
}

impl View for ThreadPool {
    type V = PoolState;

    closed spec fn view(&self) -> PoolState {
        PoolState { workers: self.workers@, queue: self.queue@, log: self.log@, open: self.open }
    }
}

impl ThreadPool {
    /// Creates a pool of exactly `size` workers, all immediately ready to
    /// claim work, with nothing pending, nothing run, and the producer side
    /// open.  A zero-size pool is a precondition violation, not a
    /// recoverable error.
    pub fn new(size: usize) -> (pool: ThreadPool)
        requires
            size > 0,
        ensures
            pool@.workers.len() == size,
            forall|i: int| 0 <= i < size ==> pool@.workers[i] is Idle,
            pool@.queue == Seq::<Message>::empty(),
            pool@.log == Seq::<u64>::empty(),
            pool@.open,
    {
        let mut workers: Vec<WorkerPhase> = Vec::new();
        let mut i: usize = 0;
        while i < size
            invariant
                i <= size,
                workers@.len() == i,
                forall|k: int| 0 <= k < i ==> workers@[k] is Idle,
            decreases size - i,
        {
            workers.push(WorkerPhase::Idle);
            i = i + 1;
        }
        ThreadPool { workers, queue: Vec::new(), log: Vec::new(), open: true }
    }

    /// Wraps `job` in `Message::Work` and appends it to the shared queue.
    /// Enqueueing never blocks and touches nothing but the queue, so
    /// messages from one producer are delivered in the order sent.  Calling
    /// after the producer side closed is a usage error, excluded here.
    pub fn execute(&mut self, job: Job)
        requires
            old(self)@.open,
        ensures
            final(self)@ == old(self)@.enqueue_tr(job),
    {
        self.queue.push(Message::Work(job));
        proof {
            assert(self@ =~= old(self)@.enqueue_tr(job));
        }
    }

    /// Worker `w` claims the front message under the receive-side lock:
    /// the message leaves the queue, and `w` alone moves, to `Busy` on a
    /// job or to `Terminated` on the shutdown signal.
    pub fn claim(&mut self, w: usize)
        requires
            old(self)@.claim_enabled(w as int),
        ensures
            final(self)@ == old(self)@.claim_tr(w as int),
    {
        let message = self.queue.remove(0);
        match message {
            Message::Work(job) => {
                self.workers.set(w, WorkerPhase::Busy(job));
            },
            Message::Shutdown => {
                self.workers.set(w, WorkerPhase::Terminated);
            },
        }
        proof {
            assert(old(self)@.queue.drop_first() =~= old(self)@.queue.remove(0));
            assert(self@ =~= old(self)@.claim_tr(w as int));
        }
    }

    /// Worker `w` runs its claimed job to completion: on success the job's
    /// id is appended to the log and `w` is idle again; a failing job ends
    /// `w` and records nothing.  No other worker is touched either way.
    pub fn finish(&mut self, w: usize)
        requires
            old(self)@.finish_enabled(w as int),
        ensures
            final(self)@ == old(self)@.finish_tr(w as int),
    {
        match self.workers[w] {
            WorkerPhase::Busy(job) => {
                if job.fails {
                    self.workers.set(w, WorkerPhase::Failed);
                } else {
                    self.log.push(job.id);
                    self.workers.set(w, WorkerPhase::Idle);
                }
            },
            _ => {},
        }
        proof {
            assert(self@ =~= old(self)@.finish_tr(w as int));
        }
    }

    /// Ordered disposal, the pool's sole termination guarantee: close the
    /// producer side, broadcast one shutdown signal per worker, let the
    /// workers drain the queue, then join every worker.
    ///
    /// On return no worker is runnable, and the log has grown by exactly
    /// the drain of the pending queue followed by the broadcast: every
    /// non-failing job pending at disposal ran exactly once, in the order
    /// enqueued, and each failing job cost exactly one worker.  The join
    /// verdict is `Ok` exactly when every worker terminated cleanly; a
    /// worker lost to a failing job surfaces as `WorkerFailed`.  In
    /// particular, when every worker is idle and every pending job
    /// succeeds, disposal returns `Ok` with every job run exactly once,
    /// every worker terminated, and nothing left pending.
    ///
    /// Workers mid-job must `finish` before disposal begins: the pool
    /// makes no ordering promise between an in-flight job and the queue.
    #[verifier::loop_isolation(false)]
    pub fn dispose(&mut self) -> (r: Result<(), PoolError>)
        requires
            old(self)@.open,
            forall|i: int|
                0 <= i < old(self)@.workers.len() ==> !((#[trigger] old(self)@.workers[i]) is Busy),
        ensures
            !final(self)@.open,
            final(self)@.workers.len() == old(self)@.workers.len(),
            forall|i: int|
                0 <= i < final(self)@.workers.len() ==> !((#[trigger] final(self)@.workers[i])
                    is Idle) && !(final(self)@.workers[i] is Busy),
            forall|i: int|
                0 <= i < final(self)@.workers.len() && old(self)@.workers[i] is Failed ==> (
                #[trigger] final(self)@.workers[i]) is Failed,
            forall|i: int|
                0 <= i < final(self)@.workers.len() && old(self)@.workers[i] is Terminated ==> (
                #[trigger] final(self)@.workers[i]) is Terminated,
            final(self)@.log == old(self)@.log + drained_log(
                old(self)@.queue + shutdowns(old(self)@.workers.len()),
                idle_count(old(self)@.workers),
            ),
            failed_count(final(self)@.workers) == failed_count(old(self)@.workers)
                + drained_failures(
                old(self)@.queue + shutdowns(old(self)@.workers.len()),
                idle_count(old(self)@.workers),
            ),
            r is Ok <==> (forall|i: int|
                0 <= i < final(self)@.workers.len() ==> (#[trigger] final(self)@.workers[i])
                    is Terminated),
            (old(self)@.workers.len() >= 1 && (forall|i: int|
                0 <= i < old(self)@.workers.len() ==> (#[trigger] old(self)@.workers[i]) is Idle)
                && all_work(old(self)@.queue) && all_succeed(old(self)@.queue)) ==> (r is Ok
                && final(self)@.log == old(self)@.log + work_ids(old(self)@.queue) && (
            forall|i: int|
                0 <= i < final(self)@.workers.len() ==> (#[trigger] final(self)@.workers[i])
                    is Terminated) && final(self)@.queue == Seq::<Message>::empty()),
    {
        let ghost ws0 = self@.workers;
        let ghost q0 = self@.queue;
        let ghost log0 = self@.log;
        let ghost live0 = idle_count(ws0);
        let n = self.workers.len();
        let ghost q0s = q0 + shutdowns(n as nat);

        self.open = false;

        // Broadcast: one shutdown signal per currently-held worker.
        proof {
            assert(self@.queue =~= q0 + shutdowns(0));
        }
        let mut i: usize = 0;
        while i < n
            invariant
                i <= n,
                self@.workers == ws0,
                self@.log == log0,
                !self@.open,
                self@.queue == q0 + shutdowns(i as nat),
            decreases n - i,
        {
            self.queue.push(Message::Shutdown);
            i = i + 1;
            proof {
                assert(self@.queue =~= q0 + shutdowns(i as nat));
            }
        }
        proof {
            assert(self@.queue =~= q0s);
            assert(q0s.skip(0) =~= q0s);
        }
        // Drain: idle workers claim messages until none of them remains.
        let mut w: usize = 0;
        while w < n
            invariant
                w <= n,
                self@.workers.len() == n,
                !self@.open,
                forall|k: int|
                    0 <= k < w ==> !((#[trigger] self@.workers[k]) is Idle) && !(self@.workers[k]
                        is Busy),
                forall|k: int| 0 <= k < n ==> !((#[trigger] self@.workers[k]) is Busy),
                forall|k: int| w < k < n ==> (#[trigger] self@.workers[k]) == ws0[k],
                forall|k: int|
                    0 <= k < n && ws0[k] is Failed ==> (#[trigger] self@.workers[k]) is Failed,
                forall|k: int|
                    0 <= k < n && ws0[k] is Terminated ==> (#[trigger] self@.workers[k])
                        is Terminated,
                self@.queue.len() <= q0s.len(),
                self@.queue == q0s.skip(q0s.len() - self@.queue.len()),
                shutdown_count(self@.queue) + live0 + failed_count(ws0) == shutdown_count(q0s)
                    + idle_count(self@.workers) + failed_count(self@.workers),
                log0 + drained_log(q0s, live0) == self@.log + drained_log(
                    self@.queue,
                    idle_count(self@.workers),
                ),
                failed_count(ws0) + drained_failures(q0s, live0) == failed_count(self@.workers)
                    + drained_failures(self@.queue, idle_count(self@.workers)),
            decreases n - w + self@.queue.len(),
        {
            let ghost pre = self@;
            let phase = self.workers[w];
            match phase {
                WorkerPhase::Idle => {
                    proof {
                        lemma_idle_count_pos(pre.workers, w as int);
                        lemma_idle_failed_le_len(ws0);
                        lemma_shutdown_count_append(q0, shutdowns(n as nat));
                        lemma_shutdown_count_of_broadcast(n as nat);
                        assert(shutdown_count(pre.queue) >= 1);
                        if pre.queue.len() == 0 {
                            assert(false);
                        }
                    }
                    self.claim(w);
                    let after = self.workers[w];
                    match after {
                        WorkerPhase::Busy(_) => {
                            self.finish(w);
                        },
                        _ => {},
                    }
                    proof {
                        let q = pre.queue;
                        let live = idle_count(pre.workers);
                        let ghost mid = pre.claim_tr(w as int);
                        assert(q.drop_first() =~= q0s.skip(q0s.len() - q.drop_first().len()));
                        match q.first() {
                            Message::Shutdown => {
                                lemma_counts_update(pre.workers, w as int, WorkerPhase::Terminated);
                                assert(self@ == mid);
                                assert(drained_log(q, live) == drained_log(
                                    q.drop_first(),
                                    (live - 1) as nat,
                                ));
                            },
                            Message::Work(job) => {
                                lemma_counts_update(pre.workers, w as int, WorkerPhase::Busy(job));
                                assert(mid.workers[w as int] is Busy);
                                assert(self@ == mid.finish_tr(w as int));
                                if job.fails {
                                    lemma_counts_update(mid.workers, w as int, WorkerPhase::Failed);
                                    assert(drained_log(q, live) == drained_log(
                                        q.drop_first(),
                                        (live - 1) as nat,
                                    ));
                                    assert(drained_failures(q, live) == 1 + drained_failures(
                                        q.drop_first(),
                                        (live - 1) as nat,
                                    ));
                                } else {
                                    lemma_counts_update(mid.workers, w as int, WorkerPhase::Idle);
                                    assert(drained_log(q, live) == seq![job.id] + drained_log(
                                        q.drop_first(),
                                        live,
                                    ));
                                    assert(pre.log + (seq![job.id] + drained_log(
                                        q.drop_first(),
                                        live,
                                    )) =~= (pre.log + seq![job.id]) + drained_log(
                                        q.drop_first(),
                                        live,
                                    ));
                                    assert(self@.log =~= pre.log + seq![job.id]);
                                }
                            },
                        }
                    }
                },
                _ => {
                    w = w + 1;
                },
            }
        }
        proof {
            lemma_idle_count_zero(self@.workers);
            assert(self@.log + drained_log(self@.queue, 0) =~= self@.log);
            assert(self@.log =~= log0 + drained_log(q0s, live0));
        }
        // Join: every worker must have left its loop; a worker lost to a
        // failing job makes disposal's verdict a failure.
        let ghost settled = self@;
        let mut any_failed = false;
        let mut j: usize = 0;
        while j < n
            invariant
                j <= n,
                self@ == settled,
                any_failed <==> (exists|k: int|
                    0 <= k < j && ((#[trigger] self@.workers[k]) is Failed)),
            decreases n - j,
        {
            let ph = self.workers[j];
            match ph {
                WorkerPhase::Failed => {
                    any_failed = true;
                },
                _ => {},
            }
            j = j + 1;
        }
        let r: Result<(), PoolError> = if any_failed {
            Err(PoolError::WorkerFailed)
        } else {
            Ok(())
        };
        proof {
            if !any_failed {
                assert forall|k: int| 0 <= k < n implies (#[trigger] self@.workers[k])
                    is Terminated by {
                    assert(!(self@.workers[k] is Idle));
                    assert(!(self@.workers[k] is Busy));
                    assert(!(self@.workers[k] is Failed));
                }
            }
            if n >= 1 && (forall|k: int| 0 <= k < n ==> (#[trigger] ws0[k]) is Idle) && all_work(
                q0,
            ) && all_succeed(q0) {
                lemma_idle_count_full(ws0);
                lemma_failed_count_zero(ws0);
                lemma_all_succeed_survive(q0);
                lemma_drain_with_failures(q0, n as nat, n as nat);
                assert(failed_count(self@.workers) == 0);
                lemma_failed_count_zero(self@.workers);
                assert(any_failed == false);
                lemma_shutdown_count_of_work(q0);
                lemma_shutdown_count_append(q0, shutdowns(n as nat));
                lemma_shutdown_count_of_broadcast(n as nat);
                assert(shutdown_count(self@.queue) == 0);
                if self@.queue.len() > 0 {
                    let last = self@.queue.len() - 1;
                    assert(self@.queue[last as int] == q0s[q0s.len() - 1]);
                    assert(q0s[q0s.len() - 1] == shutdowns(n as nat)[n - 1]);
                    lemma_shutdown_count_pos(self@.queue, last as int);
                    assert(false);
                }
                assert(self@.queue =~= Seq::<Message>::empty());
            }
        }
        r
    }

    /// The configured pool size: the number of workers, fixed at
    /// construction for the pool's entire lifetime.
    pub fn size(&self) -> (s: usize)
        ensures
            s == self@.workers.len(),
    {
        self.workers.len()
    }

    /// Where worker `w` stands in its lifecycle.
    pub fn worker_phase(&self, w: usize) -> (p: WorkerPhase)
        requires
            w < self@.workers.len(),
        ensures
            p == self@.workers[w as int],
    {
        self.workers[w]
    }

    /// The ids of the jobs run so far, in the order they were claimed.
    pub fn executed(&self) -> (log: &Vec<u64>)
        ensures
            log@ == self@.log,
    {
        &self.log
    }

    /// How many messages are pending in the shared queue.
    pub fn pending(&self) -> (count: usize)
        ensures
            count == self@.queue.len(),
    {
        self.queue.len()
    }

    /// Whether the producer side still accepts work.
    pub fn is_open(&self) -> (open: bool)
        ensures
            open == self@.open,
    {
        self.open
    }
}

} // verus!
