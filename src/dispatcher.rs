use vstd::prelude::*;
use crate::queue::{TaskQueue, Received, enqueued, received, closed_now};
use crate::worker::{WorkerState, count_executing, lemma_count_executing_update};

verus! {

/// The state that the workers of one pool share behind their lock: the task
/// queue and where each worker stands.
///
/// Workers take a task only while idle, report when it is done, and stop only
/// after the queue has told them it is closed and drained. Each accepted task
/// gets a ticket, its position in order of acceptance, by which a submitter
/// can ask whether that task has run to completion.
pub struct Dispatcher<T> {
    queue: TaskQueue<T>,
    states: Vec<WorkerState>,
    running: Vec<Option<u64>>,
    issued: u64,
    served: u64,
    finished: Ghost<nat>,
}

impl<T> Dispatcher<T> {
    /// The shared task queue.
    pub closed spec fn queue(&self) -> TaskQueue<T> {
        self.queue
    }

    /// Where each worker stands, by worker number.
    pub closed spec fn states(&self) -> Seq<WorkerState> {
        self.states@
    }

    /// How many handed-out tasks have run to completion.
    pub closed spec fn finished(&self) -> nat {
        self.finished@
    }

    /// The ticket of the task that each worker is running, by worker number.
    pub closed spec fn running(&self) -> Seq<Option<u64>> {
        self.running@
    }

    /// The task with ticket `t` has been handed out and no worker runs it
    /// any more: it has run to completion.
    pub open spec fn completed(&self, t: u64) -> bool {
        &&& (t as nat) < self.queue().handed_out().len()
        &&& forall|w: int| 0 <= w < self.running().len() ==> self.running()[w] != Some(t)
    }

    /// Every handed-out task is either finished or being run by exactly one
    /// executing worker, which holds its ticket; tickets count acceptances
    /// and hand-outs; and a worker stops only once intake is shut and
    /// nothing waits.
    pub closed spec fn wf(&self) -> bool {
        &&& self.queue.wf()
        &&& self.states@.len() > 0
        &&& self.queue.handed_out().len() == self.finished@ + count_executing(self.states@)
        &&& self.issued as nat == self.queue.accepted().len()
        &&& self.served as nat == self.queue.handed_out().len()
        &&& self.running@.len() == self.states@.len()
        &&& forall|i: int|
            0 <= i < self.states@.len() ==> (#[trigger] self.running@[i] is Some <==> self.states@[i]
                == WorkerState::Executing)
        &&& forall|i: int|
            0 <= i < self.running@.len() && #[trigger] self.running@[i] is Some ==> self.running@[i]->0
                < self.served
        &&& forall|i: int, j: int|
            0 <= i < self.running@.len() && 0 <= j < self.running@.len() && i != j
                && #[trigger] self.running@[i] is Some && #[trigger] self.running@[j] is Some
                ==> self.running@[i] != self.running@[j]
        &&& forall|i: int|
            0 <= i < self.states@.len() && (#[trigger] self.states@[i] == WorkerState::Draining
                || self.states@[i] == WorkerState::Terminated) ==> {
                &&& self.queue.is_closed_spec()
                &&& self.queue.pending().len() == 0
            }
    }

    /// Shared state for `size` idle workers and an open, empty queue.
    pub fn new(size: usize) -> (d: Self)
        requires
            size > 0,
        ensures
            d.wf(),
            d.states() == Seq::new(size as nat, |i: int| WorkerState::Idle),
            d.finished() == 0,
            !d.queue().is_closed_spec(),
            d.queue().pending().len() == 0,
            d.queue().accepted().len() == 0,
            d.queue().handed_out().len() == 0,
            d.running() == Seq::new(size as nat, |i: int| None::<u64>),
    {
        let mut states: Vec<WorkerState> = Vec::with_capacity(size);
        let mut running: Vec<Option<u64>> = Vec::with_capacity(size);
        let mut i: usize = 0;
        while i < size
            invariant
                i <= size,
                states@ == Seq::new(i as nat, |j: int| WorkerState::Idle),
                running@ == Seq::new(i as nat, |j: int| None::<u64>),
            decreases size - i,
        {
            states.push(WorkerState::Idle);
            running.push(None);
            i = i + 1;
            assert(states@ =~= Seq::new(i as nat, |j: int| WorkerState::Idle));
            assert(running@ =~= Seq::new(i as nat, |j: int| None::<u64>));
        }
        let d = Dispatcher {
            queue: TaskQueue::new(),
            states,
            running,
            issued: 0,
            served: 0,
            finished: Ghost(0),
        };
        proof {
            crate::worker::lemma_count_executing_none(d.states@);
        }
        d
    }

    /// The number of workers.
    pub fn size(&self) -> (r: usize)
        ensures
            r == self.states().len(),
    {
        self.states.len()
    }

    /// Where worker `worker` stands.
    pub fn state_of(&self, worker: usize) -> (r: WorkerState)
        requires
            worker < self.states().len(),
        ensures
            r == self.states()[worker as int],
    {
        self.states[worker]
    }

    /// How many tasks have been accepted; the next one accepted gets this
    /// number as its ticket.
    pub fn tickets_issued(&self) -> (r: u64)
        requires
            self.wf(),
        ensures
            r == self.queue().accepted().len(),
    {
        self.issued
    }

    /// Whether the task with ticket `ticket` has run to completion. A
    /// submitter that waits for its own task asks this until it holds.
    pub fn is_completed(&self, ticket: u64) -> (r: bool)
        requires
            self.wf(),
        ensures
            r == self.completed(ticket),
    {
        if ticket >= self.served {
            return false;
        }
        let mut w: usize = 0;
        while w < self.running.len()
            invariant
                w <= self.running@.len(),
                forall|v: int| 0 <= v < w ==> self.running@[v] != Some(ticket),
            decreases self.running@.len() - w,
        {
            if self.running[w] == Some(ticket) {
                return false;
            }
            w = w + 1;
        }
        true
    }

    /// Submits `task` to the queue and returns its ticket. Refused, and
    /// handed back, once intake is shut; the workers are not touched.
    pub fn post(&mut self, task: T) -> (r: Result<u64, T>)
        requires
            old(self).wf(),
            old(self).queue().accepted().len() < u64::MAX,
        ensures
            final(self).wf(),
            enqueued(old(self).queue(), final(self).queue(), task, r is Ok),
            r is Err ==> r->Err_0 == task,
            r is Ok ==> r->Ok_0 == old(self).queue().accepted().len(),
            final(self).states() == old(self).states(),
            final(self).running() == old(self).running(),
            final(self).finished() == old(self).finished(),
            forall|t: u64| old(self).completed(t) ==> #[trigger] final(self).completed(t),
    {
        match self.queue.enqueue(task) {
            Ok(()) => {
                let ticket = self.issued;
                self.issued = self.issued + 1;
                Ok(ticket)
            },
            Err(task) => Err(task),
        }
    }

    /// Idle worker `worker` asks for work. With a task it becomes
    /// `Executing` and must run the task outside the lock; on `Closed` it
    /// becomes `Draining` and must exit; on `Empty` it stays idle and waits.
    pub fn next_for(&mut self, worker: usize) -> (r: Received<T>)
        requires
            old(self).wf(),
            worker < old(self).states().len(),
            old(self).states()[worker as int] == WorkerState::Idle,
        ensures
            final(self).wf(),
            received(old(self).queue(), final(self).queue(), r),
            final(self).finished() == old(self).finished(),
            r is Task ==> final(self).states() == old(self).states().update(
                worker as int,
                WorkerState::Executing,
            ),
            r is Closed ==> final(self).states() == old(self).states().update(
                worker as int,
                WorkerState::Draining,
            ),
            r is Empty ==> final(self).states() == old(self).states(),
            r is Task ==> final(self).running() == old(self).running().update(
                worker as int,
                Some(old(self).queue().handed_out().len() as u64),
            ),
            !(r is Task) ==> final(self).running() == old(self).running(),
            forall|t: u64| old(self).completed(t) ==> #[trigger] final(self).completed(t),
    {
        let r = self.queue.receive();
        proof {
            crate::queue::lemma_first_in_first_out(self.queue);
        }
        match r {
            Received::Task(_) => {
                proof {
                    lemma_count_executing_update(
                        self.states@,
                        worker as int,
                        WorkerState::Executing,
                    );
                }
                self.states.set(worker, WorkerState::Executing);
                self.running.set(worker, Some(self.served));
                self.served = self.served + 1;
            },
            Received::Closed => {
                proof {
                    lemma_count_executing_update(
                        self.states@,
                        worker as int,
                        WorkerState::Draining,
                    );
                }
                self.states.set(worker, WorkerState::Draining);
            },
            Received::Empty => {},
        }
        r
    }

    /// Worker `worker` has run its task to completion and is idle again.
    pub fn task_done(&mut self, worker: usize)
        requires
            old(self).wf(),
            worker < old(self).states().len(),
            old(self).states()[worker as int] == WorkerState::Executing,
        ensures
            final(self).wf(),
            final(self).queue() == old(self).queue(),
            final(self).states() == old(self).states().update(worker as int, WorkerState::Idle),
            final(self).finished() == old(self).finished() + 1,
            final(self).running() == old(self).running().update(worker as int, None),
            forall|t: u64| old(self).completed(t) ==> #[trigger] final(self).completed(t),
            !old(self).completed(old(self).running()[worker as int]->0),
            final(self).completed(old(self).running()[worker as int]->0),
    {
        proof {
            lemma_count_executing_update(self.states@, worker as int, WorkerState::Idle);
            self.finished@ = self.finished@ + 1;
        }
        self.states.set(worker, WorkerState::Idle);
        self.running.set(worker, None);
    }

    /// Draining worker `worker` returns from its thread.
    pub fn worker_exit(&mut self, worker: usize)
        requires
            old(self).wf(),
            worker < old(self).states().len(),
            old(self).states()[worker as int] == WorkerState::Draining,
        ensures
            final(self).wf(),
            final(self).queue() == old(self).queue(),
            final(self).states() == old(self).states().update(
                worker as int,
                WorkerState::Terminated,
            ),
            final(self).finished() == old(self).finished(),
            final(self).running() == old(self).running(),
    {
        proof {
            lemma_count_executing_update(self.states@, worker as int, WorkerState::Terminated);
        }
        self.states.set(worker, WorkerState::Terminated);
    }

    /// Shuts intake; `true` only for the call that did it. Queued tasks are
    /// still handed out before any worker is told to stop.
    pub fn close(&mut self) -> (r: bool)
        requires
            old(self).wf(),
        ensures
            final(self).wf(),
            closed_now(old(self).queue(), final(self).queue(), r),
            final(self).states() == old(self).states(),
            final(self).finished() == old(self).finished(),
            final(self).running() == old(self).running(),
    {
        self.queue.close()
    }
}

/// However the workers interleave, no more tasks run at once than the pool
/// has workers.
pub proof fn lemma_bounded_concurrency<T>(d: Dispatcher<T>)
    requires
        d.wf(),
    ensures
        count_executing(d.states()) <= d.states().len(),
{
    crate::worker::lemma_count_executing_bounded(d.states());
}

/// A worker is draining or terminated only after intake was shut and the
/// queue emptied: no worker stops while work could still arrive or wait.
pub proof fn lemma_stopped_worker_means_closed<T>(d: Dispatcher<T>, w: int)
    requires
        d.wf(),
        0 <= w < d.states().len(),
        d.states()[w] == WorkerState::Draining || d.states()[w] == WorkerState::Terminated,
    ensures
        d.queue().is_closed_spec(),
        d.queue().pending().len() == 0,
{
}

/// Once every worker has terminated, intake is shut, nothing waits, and every
/// task ever accepted was handed out once and ran to completion: queued work
/// is drained, never dropped, before the workers stop.
pub proof fn lemma_terminated_pool_ran_everything<T>(d: Dispatcher<T>)
    requires
        d.wf(),
        forall|i: int| 0 <= i < d.states().len() ==> d.states()[i] == WorkerState::Terminated,
    ensures
        d.queue().is_closed_spec(),
        d.queue().pending().len() == 0,
        d.queue().handed_out() == d.queue().accepted(),
        d.finished() == d.queue().accepted().len(),
{
    assert(d.states()[0] == WorkerState::Terminated);
    crate::worker::lemma_count_executing_none(d.states());
    crate::queue::lemma_each_task_handed_out_once(d.queue());
}

} // verus!
