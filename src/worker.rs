use vstd::prelude::*;

verus! {

/// Where one worker thread stands in its life.
///
/// `Idle` and `Executing` together are the running phase (blocked on the
/// queue, or running a task outside the lock); `Draining` follows the closed
/// answer from the queue; `Terminated` is reached when the thread returns.
#[derive(PartialEq, Eq, Structural, Clone, Copy, Debug)]
pub enum WorkerState {
    Idle,
    Executing,
    Draining,
    Terminated,
}

/// The number of workers that are running a task.
pub open spec fn count_executing(s: Seq<WorkerState>) -> nat
    decreases s.len(),
{
    if s.len() == 0 {
        0
    } else {
        count_executing(s.drop_last()) + if s.last() == WorkerState::Executing {
            1nat
        } else {
            0nat
        }
    }
}

/// At most every worker is running a task.
pub proof fn lemma_count_executing_bounded(s: Seq<WorkerState>)
    ensures
        count_executing(s) <= s.len(),
    decreases s.len(),
{
    if s.len() > 0 {
        lemma_count_executing_bounded(s.drop_last());
    }
}

/// Changing one worker's state changes the count by that worker alone.
pub proof fn lemma_count_executing_update(s: Seq<WorkerState>, i: int, v: WorkerState)
    requires
        0 <= i < s.len(),
    ensures
        count_executing(s.update(i, v)) + (if s[i] == WorkerState::Executing {
            1nat
        } else {
            0nat
        }) == count_executing(s) + (if v == WorkerState::Executing {
            1nat
        } else {
            0nat
        }),
    decreases s.len(),
{
    let t = s.update(i, v);
    if i == s.len() - 1 {
        assert(t.drop_last() =~= s.drop_last());
    } else {
        assert(t.drop_last() =~= s.drop_last().update(i, v));
        lemma_count_executing_update(s.drop_last(), i, v);
    }
}

/// With nobody running a task the count is zero.
pub proof fn lemma_count_executing_none(s: Seq<WorkerState>)
    requires
        forall|i: int| 0 <= i < s.len() ==> s[i] != WorkerState::Executing,
    ensures
        count_executing(s) == 0,
    decreases s.len(),
{
    if s.len() > 0 {
        lemma_count_executing_none(s.drop_last());
    }
}

} // verus!
