//! The bounded worker pool and its job queue, as a state machine.
//!
//! Jobs are anonymous one-shot units of work; the model identifies each by
//! the number it was submitted under, so that delivery can be specified.
//! The pool owns a fixed set of workers and a queue of pending jobs; a
//! worker is either idle or executing one job. The operations keep the pool
//! well formed: a pending job is never also executing, and no two workers
//! ever execute the same job, so each job is delivered to exactly one
//! worker, exactly once.

use vstd::prelude::*;

verus! {

/// Why a pool could not be built.
#[derive(Debug, PartialEq, Eq)]
pub enum PoolError {
    /// The requested size was zero: a pool must have positive capacity.
    ZeroSize,
}

/// What one pool thread is doing: waiting for a job, or executing the job
/// it claimed.
#[derive(Clone, Copy)]
pub enum WorkerState {
    Idle,
    Executing(u64),
}

/// One pool thread: its diagnostic identifier and what it is doing.
pub struct Worker {
    /// The worker's position in the pool, for diagnostics only.
    pub id: usize,
    /// What the worker is doing now.
    pub state: WorkerState,
}

impl Worker {
    /// A fresh worker: it starts idle, waiting at the queue.
    pub fn new(id: usize) -> (w: Worker)
        ensures
            w.id == id,
            w.state is Idle,
    {
        Worker { id, state: WorkerState::Idle }
    }
}

/// The fixed-size worker pool together with its queue of pending jobs.
///
/// Jobs carry the number they were submitted under; the queue holds them in
/// submission order, since the channel between the acceptor and the workers
/// delivers in that order. Which worker claims the next job is not decided
/// here: any idle worker may, and the caller picks.
pub struct ThreadPool {
    workers: Vec<Worker>,
    queue: Vec<u64>,
    next_job: u64,
}

impl ThreadPool {
    /// How many workers the pool was built with.
    pub closed spec fn size(&self) -> nat {
        self.workers@.len()
    }

    /// The jobs submitted but not yet claimed, in submission order.
    pub closed spec fn pending(&self) -> Seq<u64> {
        self.queue@
    }

    /// How many jobs have been submitted so far; the next job gets this
    /// number.
    pub closed spec fn submitted(&self) -> nat {
        self.next_job as nat
    }

    /// What worker `w` is doing.
    pub closed spec fn worker_state(&self, w: int) -> WorkerState {
        self.workers@[w].state
    }

    /// Whether worker `w` could claim a job right now: it is idle and a job
    /// is pending.
    pub open spec fn can_dispatch(&self, w: int) -> bool {
        &&& self.worker_state(w) is Idle
        &&& self.pending().len() > 0
    }

    /// Well-formedness: the pool has positive capacity, workers are numbered
    /// by position, job numbers were issued in order, and each job is in at
    /// most one place: pending at most once, executing on at most one
    /// worker, and never both.
    pub closed spec fn wf(&self) -> bool {
        &&& self.workers@.len() > 0
        &&& forall|w: int|
            0 <= w < self.workers@.len() ==> (#[trigger] self.workers@[w]).id == w
        &&& forall|i: int|
            0 <= i < self.queue@.len() ==> #[trigger] self.queue@[i] < self.next_job
        &&& forall|i: int, j: int|
            0 <= i < j < self.queue@.len() ==> self.queue@[i] != self.queue@[j]
        &&& forall|w: int|
            0 <= w < self.workers@.len()
                ==> ((#[trigger] self.workers@[w]).state matches WorkerState::Executing(j)
                ==> j < self.next_job && !self.queue@.contains(j))
        &&& forall|v: int, w: int|
            0 <= v < w < self.workers@.len()
                && (#[trigger] self.workers@[v]).state is Executing
                && (#[trigger] self.workers@[w]).state is Executing
                ==> self.workers@[v].state->0 != self.workers@[w].state->0
    }

    /// Builds a pool of `size` workers, all idle, with an empty queue.
    /// A pool must have positive capacity, so size zero is refused and no
    /// worker is constructed.
    pub fn new(size: usize) -> (r: Result<ThreadPool, PoolError>)
        ensures
            r is Err <==> size == 0,
            r matches Ok(p) ==> {
                &&& p.wf()
                &&& p.size() == size
                &&& p.pending() == Seq::<u64>::empty()
                &&& p.submitted() == 0
                &&& forall|w: int| 0 <= w < size ==> p.worker_state(w) is Idle
            },
    {
        if size == 0 {
            return Err(PoolError::ZeroSize);
        }
        let mut workers: Vec<Worker> = Vec::new();
        let mut id: usize = 0;
        while id < size
            invariant
                id <= size,
                workers@.len() == id,
                forall|w: int|
                    0 <= w < id ==> (#[trigger] workers@[w]).id == w
                        && workers@[w].state is Idle,
            decreases size - id,
        {
            workers.push(Worker::new(id));
            id = id + 1;
        }
        let pool = ThreadPool { workers, queue: Vec::new(), next_job: 0 };
        Ok(pool)
    }

    /// Submits one job to the queue and returns its number. Submission
    /// never blocks and never fails while the pool stands: the job waits in
    /// the queue until a worker claims it.
    pub fn execute(&mut self) -> (job: u64)
        requires
            old(self).wf(),
            old(self).submitted() < u64::MAX,
        ensures
            final(self).wf(),
            job == old(self).submitted(),
            final(self).submitted() == old(self).submitted() + 1,
            final(self).pending() == old(self).pending().push(job),
            final(self).size() == old(self).size(),
            forall|w: int|
                0 <= w < old(self).size()
                    ==> final(self).worker_state(w) == old(self).worker_state(w),
    {
        let job = self.next_job;
        self.queue.push(job);
        self.next_job = self.next_job + 1;
        job
    }

    /// Worker `w`, which must be idle, tries to claim a job. When the queue
    /// is empty there is nothing to claim and the pool is unchanged (the
    /// real worker blocks at the queue); otherwise the worker takes the
    /// oldest pending job, which is now executing on `w` and on no one else.
    pub fn dequeue(&mut self, w: usize) -> (job: Option<u64>)
        requires
            old(self).wf(),
            w < old(self).size(),
            old(self).worker_state(w as int) is Idle,
        ensures
            final(self).wf(),
            final(self).size() == old(self).size(),
            final(self).submitted() == old(self).submitted(),
            job is Some <==> old(self).pending().len() > 0,
            job matches Some(j) ==> {
                &&& j == old(self).pending()[0]
                &&& final(self).pending() == old(self).pending().skip(1)
                &&& final(self).worker_state(w as int) == WorkerState::Executing(j)
                &&& forall|v: int|
                    0 <= v < old(self).size() && v != w
                        ==> final(self).worker_state(v) == old(self).worker_state(v)
            },
            job is None ==> *final(self) == *old(self),
    {
        if self.queue.len() == 0 {
            return None;
        }
        let job = self.queue.remove(0);
        self.workers[w] = Worker { id: w, state: WorkerState::Executing(job) };
        proof {
            assert(final(self).pending() =~= old(self).pending().skip(1));
            assert(forall|i: int|
                0 <= i < final(self).queue@.len()
                    ==> #[trigger] final(self).queue@[i] == old(self).queue@[i + 1]);
        }
        Some(job)
    }

    /// Worker `w` finished its job; the job is consumed and the worker is
    /// idle again, free to claim the next pending job if there is one.
    pub fn complete(&mut self, w: usize)
        requires
            old(self).wf(),
            w < old(self).size(),
            old(self).worker_state(w as int) is Executing,
        ensures
            final(self).wf(),
            final(self).size() == old(self).size(),
            final(self).submitted() == old(self).submitted(),
            final(self).pending() == old(self).pending(),
            final(self).worker_state(w as int) is Idle,
            forall|v: int|
                0 <= v < old(self).size() && v != w
                    ==> final(self).worker_state(v) == old(self).worker_state(v),
            final(self).pending().len() > 0 ==> final(self).can_dispatch(w as int),
    {
        self.workers[w] = Worker { id: w, state: WorkerState::Idle };
    }

    /// How many workers the pool has.
    pub fn worker_count(&self) -> (n: usize)
        ensures
            n == self.size(),
    {
        self.workers.len()
    }

    /// How many submitted jobs no worker has claimed yet.
    pub fn pending_count(&self) -> (n: usize)
        ensures
            n == self.pending().len(),
    {
        self.queue.len()
    }

    /// How many jobs have been submitted so far.
    pub fn submitted_count(&self) -> (n: u64)
        ensures
            n == self.submitted(),
    {
        self.next_job
    }

    /// Whether worker `w` is idle, waiting at the queue.
    pub fn is_idle(&self, w: usize) -> (b: bool)
        requires
            w < self.size(),
        ensures
            b == (self.worker_state(w as int) is Idle),
    {
        match self.workers[w].state {
            WorkerState::Idle => true,
            WorkerState::Executing(_) => false,
        }
    }

    /// The job worker `w` is executing, if any.
    pub fn current_job(&self, w: usize) -> (job: Option<u64>)
        requires
            w < self.size(),
        ensures
            self.worker_state(w as int) matches WorkerState::Executing(j)
                ==> job == Some(j),
            self.worker_state(w as int) is Idle ==> job is None,
    {
        match self.workers[w].state {
            WorkerState::Idle => None,
            WorkerState::Executing(j) => Some(j),
        }
    }
}

/// When every worker is busy, no pending job can be claimed: a job
/// submitted to a saturated pool stays in the queue, unexecuted, until some
/// worker completes its job and becomes idle again.
pub proof fn lemma_saturated_pool_blocks(p: &ThreadPool)
    requires
        p.wf(),
        forall|w: int| 0 <= w < p.size() ==> #[trigger] p.worker_state(w) is Executing,
    ensures
        forall|w: int| 0 <= w < p.size() ==> !(#[trigger] p.can_dispatch(w)),
{
}

/// Exclusive claim: a job one worker is executing is being executed by no
/// other worker.
pub proof fn lemma_no_duplicate_delivery(p: &ThreadPool, v: int, w: int)
    requires
        p.wf(),
        0 <= v < p.size(),
        0 <= w < p.size(),
        v != w,
        p.worker_state(v) is Executing,
        p.worker_state(w) is Executing,
    ensures
        p.worker_state(v)->0 != p.worker_state(w)->0,
{
}

/// A job a worker is executing is no longer pending: it left the queue at
/// the moment it was claimed, so it can never be delivered a second time.
pub proof fn lemma_executing_job_not_pending(p: &ThreadPool, w: int)
    requires
        p.wf(),
        0 <= w < p.size(),
        p.worker_state(w) is Executing,
    ensures
        !p.pending().contains(p.worker_state(w)->0),
{
}

/// No job is queued twice: the pending jobs are pairwise distinct.
pub proof fn lemma_pending_jobs_distinct(p: &ThreadPool, i: int, j: int)
    requires
        p.wf(),
        0 <= i < j < p.pending().len(),
    ensures
        p.pending()[i] != p.pending()[j],
{
}

} // verus!
