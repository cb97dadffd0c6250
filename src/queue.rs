use vstd::prelude::*;

verus! {

/// What a worker gets when it asks the queue for work.
pub enum Received<T> {
    /// The oldest task still queued; it now belongs to the caller alone.
    Task(T),
    /// The queue is closed and fully drained: the worker should stop.
    Closed,
    /// Nothing is queued yet, but more may come: the worker should wait.
    Empty,
}

/// An unbounded first-in first-out queue of tasks that can be closed once.
///
/// Besides the tasks still waiting, it keeps (as ghost state) every task ever
/// accepted and every task ever handed out, so that its contracts can speak of
/// delivery over the queue's whole life.
pub struct TaskQueue<T> {
    items: std::collections::VecDeque<T>,
    closed: bool,
    accepted: Ghost<Seq<T>>,
    handed_out: Ghost<Seq<T>>,
}

impl<T> TaskQueue<T> {
    /// Tasks accepted and not yet handed out, oldest first.
    pub closed spec fn pending(&self) -> Seq<T> {
        self.items@
    }

    /// Whether intake has been shut.
    pub closed spec fn is_closed_spec(&self) -> bool {
        self.closed
    }

    /// Every task ever accepted, in order of acceptance.
    pub closed spec fn accepted(&self) -> Seq<T> {
        self.accepted@
    }

    /// Every task ever handed out to a worker, in order of hand-out.
    pub closed spec fn handed_out(&self) -> Seq<T> {
        self.handed_out@
    }

    /// Nothing is lost or duplicated: what was accepted is exactly what was
    /// handed out followed by what still waits.
    pub closed spec fn wf(&self) -> bool {
        self.accepted@ == self.handed_out@ + self.items@
    }

    /// An open queue with nothing in it and no history.
    pub fn new() -> (q: Self)
        ensures
            q.wf(),
            !q.is_closed_spec(),
            q.pending() == Seq::<T>::empty(),
            q.accepted() == Seq::<T>::empty(),
            q.handed_out() == Seq::<T>::empty(),
    {
        TaskQueue {
            items: std::collections::VecDeque::new(),
            closed: false,
            accepted: Ghost(Seq::empty()),
            handed_out: Ghost(Seq::empty()),
        }
    }

    /// Accepts `task` at the back of the queue without ever blocking. On a
    /// closed queue nothing changes and the task is handed back in `Err`, so
    /// that the caller can fail loudly instead of losing it.
    pub fn enqueue(&mut self, task: T) -> (r: Result<(), T>)
        requires
            old(self).wf(),
        ensures
            final(self).wf(),
            enqueued(*old(self), *final(self), task, r is Ok),
            r is Err ==> r->Err_0 == task,
    {
        if self.closed {
            return Err(task);
        }
        proof {
            self.accepted@ = self.accepted@.push(task);
            assert(self.accepted@ =~= self.handed_out@ + self.items@.push(task));
        }
        self.items.push_back(task);
        Ok(())
    }

    /// Hands out the oldest waiting task. A closed queue still hands out what
    /// it holds, and answers `Closed` only once it is empty; an open empty
    /// queue answers `Empty`.
    pub fn receive(&mut self) -> (r: Received<T>)
        requires
            old(self).wf(),
        ensures
            final(self).wf(),
            received(*old(self), *final(self), r),
    {
        match self.items.pop_front() {
            Some(task) => {
                proof {
                    let old_items = old(self).items@;
                    self.handed_out@ = self.handed_out@.push(task);
                    assert(old_items =~= seq![task] + self.items@);
                    assert(self.accepted@ =~= self.handed_out@ + self.items@);
                }
                Received::Task(task)
            },
            None => {
                if self.closed {
                    Received::Closed
                } else {
                    Received::Empty
                }
            },
        }
    }

    /// Shuts intake. Returns `true` only for the call that actually closed
    /// the queue, so that closing twice is harmless and detectable. Waiting
    /// tasks stay and are still handed out.
    pub fn close(&mut self) -> (r: bool)
        requires
            old(self).wf(),
        ensures
            final(self).wf(),
            closed_now(*old(self), *final(self), r),
    {
        let first = !self.closed;
        self.closed = true;
        first
    }

    /// Whether intake has been shut.
    pub fn is_closed(&self) -> (r: bool)
        ensures
            r == self.is_closed_spec(),
    {
        self.closed
    }

    /// How many tasks wait to be handed out.
    pub fn len(&self) -> (r: usize)
        ensures
            r == self.pending().len(),
    {
        self.items.len()
    }
}

/// `q1` is `q0` after offering `task`, and `taken` tells whether it was
/// taken: an open queue takes the task at its back; a closed one refuses it
/// and stays as it was.
pub open spec fn enqueued<T>(q0: TaskQueue<T>, q1: TaskQueue<T>, task: T, taken: bool) -> bool {
    &&& q1.is_closed_spec() == q0.is_closed_spec()
    &&& q1.handed_out() == q0.handed_out()
    &&& q0.is_closed_spec() ==> {
        &&& !taken
        &&& q1.pending() == q0.pending()
        &&& q1.accepted() == q0.accepted()
    }
    &&& !q0.is_closed_spec() ==> {
        &&& taken
        &&& q1.pending() == q0.pending().push(task)
        &&& q1.accepted() == q0.accepted().push(task)
    }
}

/// `q1` is `q0` after a worker asked it for work and got `r`: the oldest
/// waiting task if there is one; otherwise `Closed` or `Empty` as the queue
/// is closed or not, with nothing changed.
pub open spec fn received<T>(q0: TaskQueue<T>, q1: TaskQueue<T>, r: Received<T>) -> bool {
    &&& q1.is_closed_spec() == q0.is_closed_spec()
    &&& q1.accepted() == q0.accepted()
    &&& q0.pending().len() > 0 ==> {
        &&& r == Received::Task(q0.pending()[0])
        &&& q1.pending() == q0.pending().drop_first()
        &&& q1.handed_out() == q0.handed_out().push(q0.pending()[0])
    }
    &&& q0.pending().len() == 0 ==> {
        &&& q1.pending() == q0.pending()
        &&& q1.handed_out() == q0.handed_out()
        &&& q0.is_closed_spec() ==> r is Closed
        &&& !q0.is_closed_spec() ==> r is Empty
    }
}

/// `q1` is `q0` with intake shut; `r` tells whether it was open before.
pub open spec fn closed_now<T>(q0: TaskQueue<T>, q1: TaskQueue<T>, r: bool) -> bool {
    &&& q1.is_closed_spec()
    &&& r == !q0.is_closed_spec()
    &&& q1.pending() == q0.pending()
    &&& q1.accepted() == q0.accepted()
    &&& q1.handed_out() == q0.handed_out()
}

/// Tasks come out in the order they went in: what has been handed out is a
/// prefix of what was accepted, and what waits is the rest, in order.
pub proof fn lemma_first_in_first_out<T>(q: TaskQueue<T>)
    requires
        q.wf(),
    ensures
        q.handed_out().len() <= q.accepted().len(),
        q.handed_out() == q.accepted().take(q.handed_out().len() as int),
        q.pending() == q.accepted().skip(q.handed_out().len() as int),
{
    assert(q.handed_out() =~= q.accepted().take(q.handed_out().len() as int));
    assert(q.pending() =~= q.accepted().skip(q.handed_out().len() as int));
}

/// Once nothing waits, every accepted task has been handed out exactly once:
/// the hand-outs are the acceptances, one for one, so their counts agree.
pub proof fn lemma_each_task_handed_out_once<T>(q: TaskQueue<T>)
    requires
        q.wf(),
        q.pending().len() == 0,
    ensures
        q.handed_out() == q.accepted(),
        q.handed_out().len() == q.accepted().len(),
{
    assert(q.handed_out() =~= q.accepted());
}

} // verus!
