//! Batch orchestration over a work list: one task is spawned per work
//! item, every task is awaited, and the list is reduced in place to the
//! items whose task did not succeed. The spawning and awaiting happen in
//! the surrounding program; this module holds the verified accounting
//! pass that consumes the collected outcomes.

use vstd::prelude::*;

verus! {

/// One unit of retrievable data, named by its accession number.
pub type WorkItem = usize;

/// How one spawned task ended. Only a success names its work item; a
/// task that fails carries no detail, and one the runtime could not even
/// run is an infrastructure fault.
#[derive(Clone, Copy, Debug, PartialEq, Eq, Structural)]
pub enum TaskOutcome {
    /// The task completed and reported success for this work item.
    Succeeded(WorkItem),
    /// The task ran to completion but reported failure.
    Failed,
    /// The task mechanism itself failed to run the task; the item is
    /// treated as a non-success.
    InternalError,
}

/// The number of outcomes that report success.
pub open spec fn count_successes(outcomes: Seq<TaskOutcome>) -> nat
    decreases outcomes.len(),
{
    if outcomes.len() == 0 {
        0
    } else {
        count_successes(outcomes.drop_last()) + if outcomes.last() is Succeeded {
            1nat
        } else {
            0nat
        }
    }
}

/// The number of outcomes that report an application-level failure.
pub open spec fn count_failures(outcomes: Seq<TaskOutcome>) -> nat
    decreases outcomes.len(),
{
    if outcomes.len() == 0 {
        0
    } else {
        count_failures(outcomes.drop_last()) + if outcomes.last() is Failed {
            1nat
        } else {
            0nat
        }
    }
}

/// The number of outcomes that report an infrastructure fault.
pub open spec fn count_internal_errors(outcomes: Seq<TaskOutcome>) -> nat
    decreases outcomes.len(),
{
    if outcomes.len() == 0 {
        0
    } else {
        count_internal_errors(outcomes.drop_last()) + if outcomes.last() is InternalError {
            1nat
        } else {
            0nat
        }
    }
}

/// Whether some outcome reports success for `item`.
pub open spec fn is_success_of(outcomes: Seq<TaskOutcome>, item: WorkItem) -> bool {
    exists|i: int| 0 <= i < outcomes.len() && outcomes[i] == TaskOutcome::Succeeded(item)
}

/// The work list as it stands after the outcomes are applied: exactly
/// the items for which no task reported success, in their original
/// order.
pub open spec fn remaining_items(work: Seq<WorkItem>, outcomes: Seq<TaskOutcome>) -> Seq<WorkItem> {
    work.filter(|x: WorkItem| !is_success_of(outcomes, x))
}

/// No task is lost: every outcome is a success, a failure, or an
/// infrastructure fault, so the three counts account for exactly the
/// number of tasks that reached a terminal state, which is the number of
/// outcomes collected.
pub proof fn lemma_no_task_loss(outcomes: Seq<TaskOutcome>)
    ensures
        count_successes(outcomes) + count_failures(outcomes) + count_internal_errors(outcomes)
            == outcomes.len(),
    decreases outcomes.len(),
{
    if outcomes.len() > 0 {
        lemma_no_task_loss(outcomes.drop_last());
    }
}

/// The reduced work list holds exactly the items whose task did not
/// report success: no successful item remains, no other item is
/// dropped, and no item appears that was not in the list.
pub proof fn lemma_worklist_reduction(work: Seq<WorkItem>, outcomes: Seq<TaskOutcome>, item: WorkItem)
    ensures
        remaining_items(work, outcomes).contains(item) <==> (work.contains(item)
            && !is_success_of(outcomes, item)),
    decreases work.len(),
{
    reveal(Seq::filter);
    if work.len() == 0 {
    } else {
        let prefix = work.drop_last();
        lemma_worklist_reduction(prefix, outcomes, item);
        let rest = remaining_items(work, outcomes);
        let rest_prefix = remaining_items(prefix, outcomes);
        if !is_success_of(outcomes, work.last()) {
            assert(rest == rest_prefix.push(work.last()));
            if rest.contains(item) {
                let i = choose|i: int| 0 <= i < rest.len() && rest[i] == item;
                if i < rest.len() - 1 {
                    assert(rest_prefix[i] == item);
                    assert(rest_prefix.contains(item));
                }
            }
            if rest_prefix.contains(item) {
                let i = choose|i: int| 0 <= i < rest_prefix.len() && rest_prefix[i] == item;
                assert(rest[i] == item);
            }
            if work.last() == item {
                assert(rest[rest.len() - 1] == item);
            }
        } else {
            assert(rest == rest_prefix);
        }
        if work.contains(item) && item != work.last() {
            let i = choose|i: int| 0 <= i < work.len() && work[i] == item;
            assert(prefix[i] == item);
            assert(prefix.contains(item));
        }
        if prefix.contains(item) {
            let i = choose|i: int| 0 <= i < prefix.len() && prefix[i] == item;
            assert(work[i] == item);
        }
        if work.last() == item {
            assert(work[work.len() - 1] == item);
        }
    }
}

/// Successes never outnumber the outcomes they are counted from.
pub proof fn lemma_successes_bounded(outcomes: Seq<TaskOutcome>)
    ensures
        count_successes(outcomes) <= outcomes.len(),
{
    lemma_no_task_loss(outcomes);
}

/// Whether some outcome reports success for `item`.
fn succeeded_in(outcomes: &Vec<TaskOutcome>, item: WorkItem) -> (b: bool)
    ensures
        b == is_success_of(outcomes@, item),
{
    let mut i: usize = 0;
    while i < outcomes.len()
        invariant
            0 <= i <= outcomes@.len(),
            forall|j: int| 0 <= j < i ==> outcomes@[j] != TaskOutcome::Succeeded(item),
        decreases outcomes@.len() - i,
    {
        match outcomes[i] {
            TaskOutcome::Succeeded(it) => {
                if it == item {
                    return true;
                }
            },
            _ => {},
        }
        i = i + 1;
    }
    false
}

/// A copy of the work list's current contents, taken before tasks are
/// spawned so that later mutation of the list cannot affect which tasks
/// run.
pub fn snapshot(work_list: &Vec<WorkItem>) -> (s: Vec<WorkItem>)
    ensures
        s@ == work_list@,
{
    let mut s: Vec<WorkItem> = Vec::new();
    let mut i: usize = 0;
    while i < work_list.len()
        invariant
            0 <= i <= work_list@.len(),
            s@ == work_list@.take(i as int),
        decreases work_list@.len() - i,
    {
        s.push(work_list[i]);
        proof {
            assert(s@ =~= work_list@.take(i + 1));
        }
        i = i + 1;
    }
    proof {
        assert(work_list@.take(work_list@.len() as int) =~= work_list@);
    }
    s
}

/// Applies one batch's collected outcomes, one per snapshotted work
/// item: counts the successes, and removes from the live work list every
/// item some task succeeded for, keeping the rest in order. Returns the
/// success count and the batch's total. All failure signal is in the
/// reduced list and the counts; nothing is an error to the caller.
pub fn run_batch(work_list: &mut Vec<WorkItem>, outcomes: &Vec<TaskOutcome>) -> (r: (usize, usize))
    requires
        outcomes@.len() == old(work_list)@.len(),
    ensures
        r.1 == old(work_list)@.len(),
        r.0 == count_successes(outcomes@),
        r.0 <= r.1,
        final(work_list)@ == remaining_items(old(work_list)@, outcomes@),
{
    let total = work_list.len();
    proof {
        lemma_successes_bounded(outcomes@);
    }
    let mut success: usize = 0;
    let mut i: usize = 0;
    while i < total
        invariant
            0 <= i <= total,
            total == outcomes@.len(),
            success == count_successes(outcomes@.take(i as int)),
            success <= i,
        decreases total - i,
    {
        proof {
            assert(outcomes@.take(i + 1).drop_last() =~= outcomes@.take(i as int));
            assert(outcomes@.take(i + 1).last() == outcomes@[i as int]);
        }
        match outcomes[i] {
            TaskOutcome::Succeeded(_) => {
                success = success + 1;
            },
            _ => {},
        }
        i = i + 1;
    }
    proof {
        assert(outcomes@.take(total as int) =~= outcomes@);
    }
    let ghost pred = |x: WorkItem| !is_success_of(outcomes@, x);
    let mut kept: Vec<WorkItem> = Vec::new();
    let mut j: usize = 0;
    proof {
        reveal(Seq::filter);
        assert(work_list@.take(0).filter(pred) =~= kept@);
    }
    while j < total
        invariant
            0 <= j <= total,
            total == work_list@.len(),
            work_list@ == old(work_list)@,
            pred == (|x: WorkItem| !is_success_of(outcomes@, x)),
            kept@ == work_list@.take(j as int).filter(pred),
        decreases total - j,
    {
        let item = work_list[j];
        proof {
            reveal(Seq::filter);
            assert(work_list@.take(j + 1).drop_last() =~= work_list@.take(j as int));
            assert(work_list@.take(j + 1).last() == item);
        }
        if !succeeded_in(outcomes, item) {
            kept.push(item);
        }
        j = j + 1;
    }
    proof {
        assert(work_list@.take(total as int) =~= work_list@);
    }
    *work_list = kept;
    (success, total)
}

/// The inclusive ascending range of work items `from` through `to`.
pub fn expand_range(from: WorkItem, to: WorkItem) -> (r: Vec<WorkItem>)
    requires
        from <= to,
        to < usize::MAX,
    ensures
        r@.len() == to - from + 1,
        forall|i: int| 0 <= i < r@.len() ==> r@[i] == from + i,
{
    let mut r: Vec<WorkItem> = Vec::new();
    let mut n: WorkItem = from;
    while n <= to
        invariant
            from <= n <= to + 1,
            to < usize::MAX,
            r@.len() == n - from,
            forall|i: int| 0 <= i < r@.len() ==> r@[i] == from + i,
        decreases to + 1 - n,
    {
        r.push(n);
        n = n + 1;
    }
    r
}

} // verus!
