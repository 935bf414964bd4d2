//! The work-queue primitive: a bounded pool of workers serving one shared
//! queue of jobs, modeled sequentially. Submission appends to the queue and
//! never waits for a worker; a worker takes the oldest queued job and runs
//! it to completion before taking another, so in this model a job is done
//! the moment it is handed out; shutdown drains every queued job and stops
//! all workers. The caller performs the drained jobs, standing in for the
//! workers' final rounds; real threads, channels, and blocking live with
//! the caller.

use vstd::prelude::*;

verus! {

/// A pool of `workers()` workers around a queue of jobs of type `T`.
pub struct ThreadPool<T> {
    pending: Vec<T>,
    num_workers: usize,
    alive: bool,
    submitted: Ghost<Seq<T>>,
    done: Ghost<Seq<T>>,
}

impl<T> ThreadPool<T> {
    /// Every job ever submitted, in submission order.
    pub closed spec fn submitted(&self) -> Seq<T> {
        self.submitted@
    }

    /// Every job a worker has run to completion, in the order they were
    /// taken from the queue.
    pub closed spec fn done(&self) -> Seq<T> {
        self.done@
    }

    /// The jobs still waiting for a worker, oldest first.
    pub closed spec fn queued(&self) -> Seq<T> {
        self.pending@
    }

    /// How many workers serve the queue.
    pub closed spec fn workers(&self) -> usize {
        self.num_workers
    }

    /// Whether the workers are still serving; false only after `shutdown`.
    pub closed spec fn is_running(&self) -> bool {
        self.alive
    }

    /// Nothing is lost and nothing is invented: the submitted jobs are
    /// exactly the completed ones followed by the queued ones.
    pub open spec fn wf(&self) -> bool {
        self.submitted() == self.done() + self.queued()
    }

    /// Starts a pool of `num_workers` workers with an empty queue.
    pub fn new(num_workers: usize) -> (r: ThreadPool<T>)
        ensures
            r.wf(),
            r.submitted() == Seq::<T>::empty(),
            r.done() == Seq::<T>::empty(),
            r.queued() == Seq::<T>::empty(),
            r.workers() == num_workers,
            r.is_running(),
    {
        let r = ThreadPool {
            pending: Vec::new(),
            num_workers,
            alive: true,
            submitted: Ghost(Seq::empty()),
            done: Ghost(Seq::empty()),
        };
        proof {
            assert(r.submitted() =~= r.done() + r.queued());
        }
        r
    }

    /// Enqueues one job. The caller is never made to wait for a worker:
    /// the job only joins the end of the queue.
    pub fn execute(&mut self, job: T)
        requires
            old(self).wf(),
            old(self).is_running(),
        ensures
            final(self).wf(),
            final(self).submitted() == old(self).submitted().push(job),
            final(self).done() == old(self).done(),
            final(self).queued() == old(self).queued().push(job),
            final(self).workers() == old(self).workers(),
            final(self).is_running(),
    {
        self.pending.push(job);
        proof {
            self.submitted@ = self.submitted@.push(job);
            assert(self.submitted() =~= self.done() + self.queued());
        }
    }

    /// A worker's turn: takes the oldest queued job, which the worker runs
    /// to completion before its next turn, or nothing if the queue is empty.
    pub fn next_job(&mut self) -> (r: Option<T>)
        requires
            old(self).wf(),
            old(self).is_running(),
        ensures
            final(self).wf(),
            final(self).submitted() == old(self).submitted(),
            final(self).workers() == old(self).workers(),
            final(self).is_running(),
            (match r {
                Some(job) => old(self).queued().len() > 0 && job == old(self).queued()[0]
                    && final(self).queued() == old(self).queued().drop_first() && final(self).done()
                    == old(self).done().push(job),
                None => old(self).queued().len() == 0 && final(self).queued() == old(self).queued()
                    && final(self).done() == old(self).done(),
            }),
    {
        if self.pending.len() == 0 {
            None
        } else {
            let job = self.pending.remove(0);
            proof {
                self.done@ = self.done@.push(job);
                assert(old(self).pending@.remove(0) =~= old(self).pending@.drop_first());
                assert(self.submitted() =~= self.done() + self.queued());
            }
            Some(job)
        }
    }

    /// Stops the pool: every queued job is drained, in order, and every
    /// worker exits. Afterwards the completed jobs are exactly the submitted
    /// ones — no submitted job is lost — and no worker remains. The drained
    /// jobs are returned for the caller to perform, standing in for the
    /// workers that run them down during a real shutdown.
    pub fn shutdown(&mut self) -> (drained: Vec<T>)
        requires
            old(self).wf(),
        ensures
            final(self).wf(),
            drained@ == old(self).queued(),
            final(self).queued() == Seq::<T>::empty(),
            final(self).submitted() == old(self).submitted(),
            final(self).done() == final(self).submitted(),
            final(self).workers() == 0,
            !final(self).is_running(),
    {
        let mut drained: Vec<T> = Vec::new();
        while self.pending.len() > 0
            invariant
                self.submitted@ == old(self).submitted@,
                self.done@ == old(self).done@ + drained@,
                drained@ + self.pending@ == old(self).pending@,
                self.num_workers == old(self).num_workers,
                self.alive == old(self).alive,
            decreases self.pending@.len(),
        {
            let job = self.pending.remove(0);
            proof {
                self.done@ = self.done@.push(job);
            }
            drained.push(job);
            proof {
                assert(self.done@ =~= old(self).done@ + drained@);
                assert(drained@ + self.pending@ =~= old(self).pending@);
            }
        }
        self.alive = false;
        self.num_workers = 0;
        proof {
            assert(drained@ =~= old(self).pending@);
            assert(self.done@ =~= old(self).done@ + old(self).pending@);
            assert(self.submitted() =~= self.done() + self.queued());
        }
        drained
    }
}

} // verus!
