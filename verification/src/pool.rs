//! A model of the bounded download pool: at most `limit` transfers are
//! in flight at once; tasks submitted beyond that wait in arrival
//! order. The surrounding binary owns the worker threads and reports
//! completions back; every admission decision is made here.

use vstd::prelude::*;

verus! {

/// One download: where to fetch from and where to write.
#[derive(Debug, PartialEq)]
pub struct DownloadTask {
    pub url: Vec<u8>,
    pub destination: Vec<u8>,
}

impl DownloadTask {
    pub open spec fn view(&self) -> (Seq<u8>, Seq<u8>) {
        (self.url@, self.destination@)
    }
}

/// The pool state: admission counter, waiting queue, and completion
/// counter.
pub struct DownloadPool {
    limit: usize,
    in_flight: usize,
    queued: Vec<DownloadTask>,
    completed: usize,
}

impl DownloadPool {
    /// The fixed concurrency ceiling.
    pub closed spec fn spec_limit(&self) -> int {
        self.limit as int
    }

    /// How many downloads are running right now.
    pub closed spec fn spec_in_flight(&self) -> int {
        self.in_flight as int
    }

    /// The tasks waiting for a slot, in arrival order.
    pub closed spec fn spec_queued(&self) -> Seq<(Seq<u8>, Seq<u8>)> {
        Seq::new(self.queued@.len(), |k: int| self.queued@[k]@)
    }

    /// How many downloads have finished.
    pub closed spec fn spec_completed(&self) -> int {
        self.completed as int
    }

    /// The pool ceiling: the number of downloads in flight never
    /// exceeds the limit.
    pub open spec fn wf(&self) -> bool {
        self.spec_in_flight() <= self.spec_limit()
    }

    /// A pool with the given ceiling and nothing running.
    pub fn new(limit: usize) -> (r: DownloadPool)
        ensures
            r.wf(),
            r.spec_limit() == limit,
            r.spec_in_flight() == 0,
            r.spec_queued() == Seq::<(Seq<u8>, Seq<u8>)>::empty(),
            r.spec_completed() == 0,
    {
        let r = DownloadPool { limit, in_flight: 0, queued: Vec::new(), completed: 0 };
        proof {
            assert(r.spec_queued() =~= Seq::<(Seq<u8>, Seq<u8>)>::empty());
        }
        r
    }

    /// The pool with the standard ceiling of ten concurrent downloads.
    pub fn standard() -> (r: DownloadPool)
        ensures
            r.wf(),
            r.spec_limit() == 10,
            r.spec_in_flight() == 0,
            r.spec_queued() == Seq::<(Seq<u8>, Seq<u8>)>::empty(),
            r.spec_completed() == 0,
    {
        DownloadPool::new(10)
    }

    /// Submits a task. If a slot is free the task starts at once and is
    /// handed back to the caller to run; otherwise it joins the queue.
    /// The ceiling is never exceeded.
    pub fn submit(&mut self, task: DownloadTask) -> (started: Option<DownloadTask>)
        requires
            old(self).wf(),
        ensures
            final(self).wf(),
            final(self).spec_limit() == old(self).spec_limit(),
            final(self).spec_completed() == old(self).spec_completed(),
            old(self).spec_in_flight() < old(self).spec_limit() ==> {
                &&& started == Some(task)
                &&& final(self).spec_in_flight() == old(self).spec_in_flight() + 1
                &&& final(self).spec_queued() == old(self).spec_queued()
            },
            old(self).spec_in_flight() >= old(self).spec_limit() ==> {
                &&& started is None
                &&& final(self).spec_in_flight() == old(self).spec_in_flight()
                &&& final(self).spec_queued() == old(self).spec_queued().push(task@)
            },
    {
        if self.in_flight < self.limit {
            self.in_flight = self.in_flight + 1;
            proof {
                assert(self.spec_queued() =~= old(self).spec_queued());
            }
            Some(task)
        } else {
            let ghost tv = task@;
            self.queued.push(task);
            proof {
                assert(self.spec_queued() =~= old(self).spec_queued().push(tv));
            }
            None
        }
    }

    /// Records one finished download. If tasks are waiting, the first
    /// in line is started in the freed slot and handed back to the
    /// caller to run; the number in flight never exceeds the ceiling.
    pub fn task_finished(&mut self) -> (next: Option<DownloadTask>)
        requires
            old(self).wf(),
            old(self).spec_in_flight() > 0,
            old(self).spec_completed() < usize::MAX,
        ensures
            final(self).wf(),
            final(self).spec_limit() == old(self).spec_limit(),
            final(self).spec_completed() == old(self).spec_completed() + 1,
            old(self).spec_queued().len() > 0 ==> {
                &&& next is Some
                &&& next->Some_0@ == old(self).spec_queued()[0]
                &&& final(self).spec_in_flight() == old(self).spec_in_flight()
                &&& final(self).spec_queued() == old(self).spec_queued().drop_first()
            },
            old(self).spec_queued().len() == 0 ==> {
                &&& next is None
                &&& final(self).spec_in_flight() == old(self).spec_in_flight() - 1
                &&& final(self).spec_queued() == old(self).spec_queued()
            },
    {
        self.completed = self.completed + 1;
        if self.queued.len() > 0 {
            let t = self.queued.remove(0);
            proof {
                assert(t@ == old(self).spec_queued()[0]);
                assert(self.spec_queued() =~= old(self).spec_queued().drop_first());
            }
            Some(t)
        } else {
            self.in_flight = self.in_flight - 1;
            proof {
                assert(self.spec_queued() =~= old(self).spec_queued());
            }
            None
        }
    }

    /// All work done: nothing running and nothing waiting.
    pub fn drained(&self) -> (r: bool)
        ensures
            r == (self.spec_in_flight() == 0 && self.spec_queued().len() == 0),
    {
        self.in_flight == 0 && self.queued.len() == 0
    }

    /// How many downloads are running.
    pub fn in_flight(&self) -> (r: usize)
        ensures
            r == self.spec_in_flight(),
    {
        self.in_flight
    }

    /// How many tasks wait for a slot.
    pub fn queued_len(&self) -> (r: usize)
        ensures
            r == self.spec_queued().len(),
    {
        self.queued.len()
    }

    /// How many downloads have finished.
    pub fn completed(&self) -> (r: usize)
        ensures
            r == self.spec_completed(),
    {
        self.completed
    }
}

/// The pool ceiling, stated on its own: in every well-formed pool state
/// — and `submit` and `task_finished` both keep states well-formed —
/// the number of downloads in flight is at most the configured limit.
pub proof fn lemma_pool_ceiling(p: DownloadPool)
    requires
        p.wf(),
    ensures
        p.spec_in_flight() <= p.spec_limit(),
{
}

} // verus!
