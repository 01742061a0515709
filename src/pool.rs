use vstd::prelude::*;
use std::collections::VecDeque;

verus! {

/// Why a pool could not be built.
#[derive(Clone, Copy, Debug, PartialEq, Eq, Structural)]
pub enum PoolCreationError {
    /// A pool needs at least one worker.
    InvalidSize,
}

/// What a worker does next.
pub enum Step<J> {
    /// Run this job, which no other worker receives.
    Run(J),
    /// Nothing is queued yet: wait for a job or for shutdown.
    Wait,
    /// The queue is closed and drained: stop.
    Exit,
}

/// The state of a job queue, as mathematical values.
pub struct QueueView<J> {
    /// Jobs waiting for a worker, oldest first.
    pub pending: Seq<J>,
    /// Whether jobs are still accepted.
    pub open: bool,
    /// Every job ever accepted, in order.
    pub submitted: Seq<J>,
    /// Every job handed to a worker, in order.
    pub delivered: Seq<J>,
}

/// Each accepted job has been handed out or is still waiting, in order.
pub open spec fn accounted<J>(v: QueueView<J>) -> bool {
    v.delivered + v.pending == v.submitted
}

/// The queue after `j` is offered: queued while the queue is open, refused after.
pub open spec fn submit_spec<J>(v: QueueView<J>, j: J) -> QueueView<J> {
    if v.open {
        QueueView { pending: v.pending.push(j), submitted: v.submitted.push(j), ..v }
    } else {
        v
    }
}

/// The queue once it accepts no more jobs.
pub open spec fn close_spec<J>(v: QueueView<J>) -> QueueView<J> {
    QueueView { open: false, ..v }
}

/// A worker's request for work: the oldest waiting job, or else `Wait` while
/// the queue is open and `Exit` once it is closed.
pub open spec fn step_spec<J>(v: QueueView<J>) -> (QueueView<J>, Step<J>) {
    if v.pending.len() > 0 {
        (
            QueueView {
                pending: v.pending.drop_first(),
                delivered: v.delivered.push(v.pending[0]),
                ..v
            },
            Step::Run(v.pending[0]),
        )
    } else if v.open {
        (v, Step::Wait)
    } else {
        (v, Step::Exit)
    }
}

/// One operation on a queue, as workers and the submitter perform them in turn.
pub enum QueueOp<J> {
    Submit(J),
    Next,
    Close,
}

/// The queue after `ops`, one after the other, and the jobs handed out meanwhile.
pub open spec fn run_ops<J>(v: QueueView<J>, ops: Seq<QueueOp<J>>) -> (QueueView<J>, Seq<J>)
    decreases ops.len(),
{
    if ops.len() == 0 {
        (v, seq![])
    } else {
        let (w, handed) = run_ops(v, ops.drop_last());
        match ops.last() {
            QueueOp::Submit(j) => (submit_spec(w, j), handed),
            QueueOp::Close => (close_spec(w), handed),
            QueueOp::Next => {
                let (u, s) = step_spec(w);
                match s {
                    Step::Run(j) => (u, handed.push(j)),
                    _ => (u, handed),
                }
            },
        }
    }
}

/// An open queue with nothing in it.
pub open spec fn fresh<J>() -> QueueView<J> {
    QueueView { pending: seq![], open: true, submitted: seq![], delivered: seq![] }
}

/// `n` requests for work in a row.
pub open spec fn nexts<J>(n: nat) -> Seq<QueueOp<J>> {
    Seq::new(n, |i: int| QueueOp::Next)
}

/// The queue of jobs that the workers of a pool share.
pub struct JobQueue<J> {
    pending: VecDeque<J>,
    open: bool,
    workers: usize,
    submitted: Ghost<Seq<J>>,
    delivered: Ghost<Seq<J>>,
}

impl<J> View for JobQueue<J> {
    type V = QueueView<J>;

    closed spec fn view(&self) -> QueueView<J> {
        QueueView {
            pending: self.pending@,
            open: self.open,
            submitted: self.submitted@,
            delivered: self.delivered@,
        }
    }
}

impl<J> JobQueue<J> {
    /// Number of workers that the queue was made for.
    pub closed spec fn worker_count(&self) -> nat {
        self.workers as nat
    }

    /// The queue's invariant: every accepted job is accounted for, and it
    /// serves at least one worker.
    pub open spec fn wf(&self) -> bool {
        accounted(self@) && self.worker_count() >= 1
    }

    /// An open, empty queue for a pool of `workers` workers; none for zero.
    pub fn new(workers: usize) -> (r: Result<JobQueue<J>, PoolCreationError>)
        ensures
            workers == 0 ==> r == Err::<JobQueue<J>, PoolCreationError>(
                PoolCreationError::InvalidSize,
            ),
            workers > 0 ==> (r matches Ok(q) && q.wf() && q@ == fresh::<J>() && q.worker_count()
                == workers),
    {
        if workers == 0 {
            return Err(PoolCreationError::InvalidSize);
        }
        let q = JobQueue {
            pending: VecDeque::new(),
            open: true,
            workers,
            submitted: Ghost(Seq::empty()),
            delivered: Ghost(Seq::empty()),
        };
        assert(q@.pending =~= Seq::<J>::empty());
        assert(q@.delivered + q@.pending =~= q@.submitted);
        Ok(q)
    }

    /// Number of workers that the queue was made for.
    pub fn size(&self) -> (r: usize)
        ensures
            r == self.worker_count(),
    {
        self.workers
    }

    /// Whether jobs are still accepted.
    pub fn is_open(&self) -> (r: bool)
        ensures
            r == self@.open,
    {
        self.open
    }

    /// Queues `job` while the queue is open; hands it back once it is closed.
    pub fn submit(&mut self, job: J) -> (r: Result<(), J>)
        requires
            old(self).wf(),
        ensures
            final(self).wf(),
            final(self).worker_count() == old(self).worker_count(),
            final(self)@ == submit_spec(old(self)@, job),
            old(self)@.open ==> r is Ok,
            !old(self)@.open ==> r == Err::<(), J>(job),
    {
        if !self.open {
            return Err(job);
        }
        proof {
            self.submitted@ = self.submitted@.push(job);
        }
        self.pending.push_back(job);
        assert(self@ =~= submit_spec(old(self)@, job));
        assert(self@.delivered + self@.pending =~= self@.submitted);
        Ok(())
    }

    /// Hands the oldest waiting job to the calling worker, or tells it to wait
    /// or to stop.
    pub fn next_step(&mut self) -> (r: Step<J>)
        requires
            old(self).wf(),
        ensures
            final(self).wf(),
            final(self).worker_count() == old(self).worker_count(),
            (final(self)@, r) == step_spec(old(self)@),
    {
        match self.pending.pop_front() {
            Some(job) => {
                proof {
                    self.delivered@ = self.delivered@.push(job);
                    assert(self@.delivered + self@.pending =~= self@.submitted);
                }
                assert(self@ =~= step_spec(old(self)@).0);
                Step::Run(job)
            },
            None => {
                if self.open {
                    Step::Wait
                } else {
                    Step::Exit
                }
            },
        }
    }

    /// Stops accepting jobs; those already queued are still handed out.
    pub fn close(&mut self)
        requires
            old(self).wf(),
        ensures
            final(self).wf(),
            final(self).worker_count() == old(self).worker_count(),
            final(self)@ == close_spec(old(self)@),
    {
        self.open = false;
    }
}

/// Whatever the order in which the submitter and the workers act on a fresh
/// queue, the jobs handed out are exactly the accepted jobs that no longer
/// wait, in the order of submission: no job is handed out twice, and none is
/// lost. Once nothing waits, every accepted job has been handed out exactly once.
pub proof fn lemma_each_job_once<J>(ops: Seq<QueueOp<J>>)
    ensures
        ({
            let (v, handed) = run_ops(fresh::<J>(), ops);
            &&& handed == v.delivered
            &&& handed + v.pending == v.submitted
            &&& v.pending.len() == 0 ==> handed == v.submitted
        }),
    decreases ops.len(),
{
    if ops.len() > 0 {
        lemma_each_job_once(ops.drop_last());
        let (w, h) = run_ops(fresh::<J>(), ops.drop_last());
        match ops.last() {
            QueueOp::Submit(j) => {
                if w.open {
                    assert(h + w.pending.push(j) =~= w.submitted.push(j));
                }
            },
            QueueOp::Close => {},
            QueueOp::Next => {
                if w.pending.len() > 0 {
                    assert(h.push(w.pending[0]) + w.pending.drop_first() =~= h + w.pending);
                }
            },
        }
    } else {
        assert(Seq::<J>::empty() + Seq::<J>::empty() =~= Seq::<J>::empty());
    }
    let (v, handed) = run_ops(fresh::<J>(), ops);
    assert(v.pending.len() == 0 ==> handed + v.pending =~= handed);
}

/// A closed queue accepts no further job and stays closed, whatever is done to it.
pub proof fn lemma_closed_accepts_nothing<J>(v: QueueView<J>, ops: Seq<QueueOp<J>>)
    requires
        !v.open,
    ensures
        !run_ops(v, ops).0.open,
        run_ops(v, ops).0.submitted == v.submitted,
    decreases ops.len(),
{
    if ops.len() > 0 {
        lemma_closed_accepts_nothing(v, ops.drop_last());
    }
}

/// Once a queue is closed, the workers' next requests receive the waiting jobs
/// in order, and every request after that is told to stop.
pub proof fn lemma_shutdown_drains<J>(v: QueueView<J>, extra: nat)
    requires
        accounted(v),
        !v.open,
    ensures
        ({
            let (w, handed) = run_ops(v, nexts::<J>(v.pending.len()));
            &&& handed == v.pending
            &&& w.pending.len() == 0
            &&& w.delivered == v.submitted
            &&& step_spec(w).1 is Exit
            &&& run_ops(w, nexts::<J>(extra)).0 == w
        }),
{
    lemma_drain_prefix(v, v.pending.len());
    let (w, handed) = run_ops(v, nexts::<J>(v.pending.len()));
    assert(v.pending.take(v.pending.len() as int) =~= v.pending);
    assert(v.pending.skip(v.pending.len() as int) =~= Seq::<J>::empty());
    lemma_exit_stays(w, extra);
}

proof fn lemma_drain_prefix<J>(v: QueueView<J>, k: nat)
    requires
        accounted(v),
        !v.open,
        k <= v.pending.len(),
    ensures
        ({
            let (w, handed) = run_ops(v, nexts::<J>(k));
            &&& handed == v.pending.take(k as int)
            &&& w.pending == v.pending.skip(k as int)
            &&& w.delivered == v.delivered + v.pending.take(k as int)
            &&& w.submitted == v.submitted
            &&& !w.open
        }),
    decreases k,
{
    if k == 0 {
        assert(v.pending.take(0) =~= Seq::<J>::empty());
        assert(v.pending.skip(0) =~= v.pending);
        assert(v.delivered + Seq::<J>::empty() =~= v.delivered);
        assert(nexts::<J>(0) =~= Seq::<QueueOp<J>>::empty());
    } else {
        lemma_drain_prefix(v, (k - 1) as nat);
        assert(nexts::<J>(k).drop_last() =~= nexts::<J>((k - 1) as nat));
        let (u, h) = run_ops(v, nexts::<J>((k - 1) as nat));
        assert(u.pending[0] == v.pending[k - 1]);
        assert(h.push(u.pending[0]) =~= v.pending.take(k as int));
        assert(u.pending.drop_first() =~= v.pending.skip(k as int));
        assert(u.delivered.push(u.pending[0]) =~= v.delivered + v.pending.take(k as int));
    }
}

proof fn lemma_exit_stays<J>(w: QueueView<J>, n: nat)
    requires
        w.pending.len() == 0,
        !w.open,
    ensures
        run_ops(w, nexts::<J>(n)) == (w, Seq::<J>::empty()),
    decreases n,
{
    if n == 0 {
        assert(nexts::<J>(0) =~= Seq::<QueueOp<J>>::empty());
    } else {
        lemma_exit_stays(w, (n - 1) as nat);
        assert(nexts::<J>(n).drop_last() =~= nexts::<J>((n - 1) as nat));
    }
}

} // verus!
