use vstd::prelude::*;

verus! {

/// The pool owner's set of join handles, one per started worker thread.
///
/// A handle leaves the set when it is given out for joining, so no thread
/// can be joined twice, and the set remembers (as ghost state) every handle
/// it ever held and every one it gave out.
pub struct WorkerSet<H> {
    capacity: usize,
    handles: std::collections::VecDeque<H>,
    started: Ghost<Seq<H>>,
    joined: Ghost<Seq<H>>,
}

impl<H> WorkerSet<H> {
    /// How many workers the pool is built with.
    pub closed spec fn capacity_spec(&self) -> nat {
        self.capacity as nat
    }

    /// Handles not yet given out for joining, in order of start.
    pub closed spec fn unjoined(&self) -> Seq<H> {
        self.handles@
    }

    /// Every handle registered, in order of start.
    pub closed spec fn started(&self) -> Seq<H> {
        self.started@
    }

    /// Every handle given out for joining, in order.
    pub closed spec fn joined(&self) -> Seq<H> {
        self.joined@
    }

    /// Every started thread is either joined already or still waits, once.
    pub closed spec fn wf(&self) -> bool {
        &&& self.started@ == self.joined@ + self.handles@
        &&& self.started@.len() <= self.capacity
    }

    /// An empty set for a pool of `capacity` workers.
    pub fn new(capacity: usize) -> (w: Self)
        requires
            capacity > 0,
        ensures
            w.wf(),
            w.capacity_spec() == capacity,
            w.started() == Seq::<H>::empty(),
            w.joined() == Seq::<H>::empty(),
            w.unjoined() == Seq::<H>::empty(),
    {
        WorkerSet {
            capacity,
            handles: std::collections::VecDeque::new(),
            started: Ghost(Seq::empty()),
            joined: Ghost(Seq::empty()),
        }
    }

    /// How many workers the pool is built with.
    pub fn capacity(&self) -> (r: usize)
        ensures
            r == self.capacity_spec(),
    {
        self.capacity
    }

    /// Whether every worker the pool is built with has been started. Only
    /// then is construction complete.
    pub fn is_complete(&self) -> (r: bool)
        requires
            self.wf(),
            self.joined().len() == 0,
        ensures
            r == (self.started().len() == self.capacity_spec()),
    {
        self.handles.len() == self.capacity
    }

    /// Records the handle of a newly started worker.
    pub fn register(&mut self, handle: H)
        requires
            old(self).wf(),
            old(self).started().len() < old(self).capacity_spec(),
        ensures
            final(self).wf(),
            final(self).capacity_spec() == old(self).capacity_spec(),
            final(self).started() == old(self).started().push(handle),
            final(self).unjoined() == old(self).unjoined().push(handle),
            final(self).joined() == old(self).joined(),
    {
        proof {
            self.started@ = self.started@.push(handle);
            assert(self.started@ =~= self.joined@ + self.handles@.push(handle));
        }
        self.handles.push_back(handle);
    }

    /// Gives out the oldest handle not yet joined, which leaves the set for
    /// good; `None` once every handle has been given out, so that running
    /// teardown again joins nothing twice.
    pub fn next_to_join(&mut self) -> (r: Option<H>)
        requires
            old(self).wf(),
        ensures
            final(self).wf(),
            final(self).capacity_spec() == old(self).capacity_spec(),
            final(self).started() == old(self).started(),
            old(self).unjoined().len() > 0 ==> {
                &&& r == Some(old(self).unjoined()[0])
                &&& final(self).unjoined() == old(self).unjoined().drop_first()
                &&& final(self).joined() == old(self).joined().push(old(self).unjoined()[0])
            },
            old(self).unjoined().len() == 0 ==> {
                &&& r is None
                &&& final(self).unjoined() == old(self).unjoined()
                &&& final(self).joined() == old(self).joined()
            },
    {
        let r = self.handles.pop_front();
        proof {
            if old(self).handles@.len() > 0 {
                let h = old(self).handles@[0];
                self.joined@ = self.joined@.push(h);
                assert(old(self).handles@ =~= seq![h] + self.handles@);
                assert(self.started@ =~= self.joined@ + self.handles@);
            }
        }
        r
    }

    /// How many handles still wait to be joined.
    pub fn remaining(&self) -> (r: usize)
        ensures
            r == self.unjoined().len(),
    {
        self.handles.len()
    }
}

/// When no handle is left to give out, every started worker has been given
/// out for joining exactly once, in the order they were started.
pub proof fn lemma_each_worker_joined_once<H>(w: WorkerSet<H>)
    requires
        w.wf(),
        w.unjoined().len() == 0,
    ensures
        w.joined() == w.started(),
{
    assert(w.joined() =~= w.started());
}

} // verus!
