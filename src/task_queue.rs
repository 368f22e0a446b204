use vstd::prelude::*;
use std::collections::VecDeque;

verus! {

/// What a worker does next after looking at the queue.
pub enum WorkerAction<J> {
    /// Run this job, outside the queue's lock.
    Run(J),
    /// Nothing to do yet: sleep until woken.
    Wait,
    /// No job is left and the pool is shutting down: stop.
    Exit,
}

/// The pool's queue of pending jobs, first in first out, with the shutdown
/// signal. Besides the jobs it keeps, as ghost state, every job ever submitted
/// and every job handed to a worker.
pub struct TaskQueue<J> {
    jobs: VecDeque<J>,
    shutdown: bool,
    submitted: Ghost<Seq<J>>,
    taken: Ghost<Seq<J>>,
}

impl<J> TaskQueue<J> {
    pub closed spec fn pending(self) -> Seq<J> {
        self.jobs@
    }

    pub closed spec fn is_shut_down(self) -> bool {
        self.shutdown
    }

    /// Every job submitted so far, in order.
    pub closed spec fn submitted(self) -> Seq<J> {
        self.submitted@
    }

    /// Every job handed to a worker so far, in order.
    pub closed spec fn taken(self) -> Seq<J> {
        self.taken@
    }

    /// The jobs handed out, then those still waiting, are the jobs submitted.
    pub open spec fn wf(self) -> bool {
        self.submitted() == self.taken() + self.pending()
    }

    /// An empty queue, not shut down.
    pub fn new() -> (r: TaskQueue<J>)
        ensures
            r.wf(),
            r.pending().len() == 0,
            r.submitted().len() == 0,
            r.taken().len() == 0,
            !r.is_shut_down(),
    {
        TaskQueue {
            jobs: VecDeque::new(),
            shutdown: false,
            submitted: Ghost(Seq::empty()),
            taken: Ghost(Seq::empty()),
        }
    }

    /// Adds `job` at the tail.
    pub fn push(&mut self, job: J)
        requires
            old(self).wf(),
        ensures
            final(self).wf(),
            final(self).pending() == old(self).pending().push(job),
            final(self).submitted() == old(self).submitted().push(job),
            final(self).taken() == old(self).taken(),
            final(self).is_shut_down() == old(self).is_shut_down(),
    {
        proof {
            assert(self.taken@ + self.jobs@.push(job) =~= (self.taken@ + self.jobs@).push(job));
        }
        self.jobs.push_back(job);
        self.submitted = Ghost(self.submitted@.push(job));
    }

    /// Raises the shutdown signal; raising it again changes nothing.
    pub fn signal_shutdown(&mut self)
        requires
            old(self).wf(),
        ensures
            final(self).wf(),
            final(self).is_shut_down(),
            final(self).pending() == old(self).pending(),
            final(self).submitted() == old(self).submitted(),
            final(self).taken() == old(self).taken(),
            old(self).is_shut_down() ==> *final(self) == *old(self),
    {
        self.shutdown = true;
    }

    /// Whether the shutdown signal is raised.
    pub fn shutdown_signaled(&self) -> (r: bool)
        ensures
            r == self.is_shut_down(),
    {
        self.shutdown
    }

    /// Number of jobs waiting.
    pub fn len(&self) -> (r: usize)
        ensures
            r == self.pending().len(),
    {
        self.jobs.len()
    }

    /// A worker's decision: take the oldest job if there is one; else stop if
    /// shutdown is signaled; else wait.
    pub fn next_action(&mut self) -> (r: WorkerAction<J>)
        requires
            old(self).wf(),
        ensures
            final(self).wf(),
            final(self).submitted() == old(self).submitted(),
            final(self).is_shut_down() == old(self).is_shut_down(),
            match r {
                WorkerAction::Run(job) => {
                    &&& old(self).pending().len() > 0
                    &&& job == old(self).pending()[0]
                    &&& final(self).pending() == old(self).pending().drop_first()
                    &&& final(self).taken() == old(self).taken().push(job)
                },
                WorkerAction::Wait => {
                    &&& old(self).pending().len() == 0
                    &&& !old(self).is_shut_down()
                    &&& final(self).pending() == old(self).pending()
                    &&& final(self).taken() == old(self).taken()
                },
                WorkerAction::Exit => {
                    &&& old(self).pending().len() == 0
                    &&& old(self).is_shut_down()
                    &&& final(self).pending() == old(self).pending()
                    &&& final(self).taken() == old(self).taken()
                    &&& final(self).taken() == final(self).submitted()
                },
            },
    {
        match self.jobs.pop_front() {
            Some(job) => {
                proof {
                    let old_jobs = old(self).jobs@;
                    assert(self.jobs@ =~= old_jobs.drop_first());
                    assert(old(self).taken@.push(job) + old_jobs.drop_first() =~= old(self).taken@
                        + old_jobs);
                }
                self.taken = Ghost(self.taken@.push(job));
                WorkerAction::Run(job)
            },
            None => {
                if self.shutdown {
                    proof {
                        assert(self.taken@ + self.jobs@ =~= self.taken@);
                    }
                    WorkerAction::Exit
                } else {
                    WorkerAction::Wait
                }
            },
        }
    }
}

/// No job is lost or run twice: the jobs handed to workers are exactly the
/// first of those submitted, in submission order, each once; once none is
/// waiting, every submitted job has been handed out.
pub proof fn lemma_no_job_lost<J>(q: TaskQueue<J>)
    requires
        q.wf(),
    ensures
        q.taken().len() <= q.submitted().len(),
        forall|i: int| 0 <= i < q.taken().len() ==> #[trigger] q.taken()[i] == q.submitted()[i],
        forall|i: int|
            0 <= i < q.pending().len() ==> #[trigger] q.pending()[i] == q.submitted()[q.taken().len()
                + i],
        q.pending().len() == 0 ==> q.taken() == q.submitted(),
{
    assert(q.pending().len() == 0 ==> q.taken() + q.pending() =~= q.taken());
}

/// The pool's worker threads, each held by its handle until it is joined.
pub struct WorkerSet<H> {
    handles: Vec<H>,
}

impl<H> WorkerSet<H> {
    pub closed spec fn live(self) -> Seq<H> {
        self.handles@
    }

    /// One shutdown step from `self` to `next` hands over `joined`: all the
    /// handles that were held, leaving none.
    pub open spec fn drains(self, next: Self, joined: Seq<H>) -> bool {
        &&& joined == self.live()
        &&& next.live().len() == 0
    }

    /// A set holding `handles`.
    pub fn new(handles: Vec<H>) -> (r: WorkerSet<H>)
        ensures
            r.live() == handles@,
    {
        WorkerSet { handles }
    }

    /// Number of workers not yet joined.
    pub fn len(&self) -> (r: usize)
        ensures
            r == self.live().len(),
    {
        self.handles.len()
    }

    /// Hands over every handle still held, newest first, for joining; the set is
    /// left empty, so a later call hands over nothing.
    pub fn take_all(&mut self) -> (r: Vec<H>)
        ensures
            old(self).drains(*final(self), r@.reverse()),
    {
        let mut out: Vec<H> = Vec::new();
        while self.handles.len() > 0
            invariant
                self.handles@ + out@.reverse() == old(self).handles@,
            decreases self.handles.len(),
        {
            let ghost before = self.handles@;
            let h = self.handles.pop().unwrap();
            proof {
                assert(out@.push(h).reverse() =~= seq![h] + out@.reverse());
                assert(before =~= self.handles@.push(h));
                assert(self.handles@ + (seq![h] + out@.reverse()) =~= before + out@.reverse());
            }
            out.push(h);
        }
        proof {
            assert(self.handles@ + out@.reverse() =~= out@.reverse());
        }
        out
    }
}

/// Shutting down twice joins each worker once: the first shutdown hands over
/// every handle, the second none.
pub proof fn lemma_shutdown_twice_joins_once<H>(
    a: WorkerSet<H>,
    b: WorkerSet<H>,
    c: WorkerSet<H>,
    first: Seq<H>,
    second: Seq<H>,
)
    requires
        a.drains(b, first),
        b.drains(c, second),
    ensures
        first == a.live(),
        second.len() == 0,
        c.live().len() == 0,
{
}

} // verus!
