//! Task records as the item store hands them to the reports.

use vstd::prelude::*;

verus! {

/// One task of the item store. Times are seconds since the epoch.
#[derive(Clone, Copy, Debug, PartialEq, Eq)]
pub struct TaskRecord {
    /// The user the task is assigned to, if any.
    pub assignee_id: Option<i64>,
    /// The user who owns the task.
    pub owner_id: i64,
    /// The stored status code.
    pub status: i64,
    /// When the task was created.
    pub create_time: i64,
    /// When the task is due, if a date was set.
    pub target_time: Option<i64>,
    /// The urgency, 0 being the highest, if one was set.
    pub priority: Option<i64>,
    /// The estimated effort in minutes, if one was given.
    pub estimate_minutes: Option<i64>,
    /// The namespace the task belongs to.
    pub namespace_id: i64,
}

/// The number of tasks that satisfy a condition.
pub open spec fn count_where(tasks: Seq<TaskRecord>, cond: spec_fn(TaskRecord) -> bool) -> nat
    decreases tasks.len(),
{
    if tasks.len() == 0 {
        0
    } else {
        count_where(tasks.drop_last(), cond) + if cond(tasks.last()) {
            1nat
        } else {
            0nat
        }
    }
}

/// Counting one task more adds one where the task satisfies the condition.
pub proof fn lemma_count_step(tasks: Seq<TaskRecord>, cond: spec_fn(TaskRecord) -> bool, i: int)
    requires
        0 <= i < tasks.len(),
    ensures
        count_where(tasks.take(i + 1), cond) == count_where(tasks.take(i), cond) + if cond(tasks[i]) {
            1nat
        } else {
            0nat
        },
{
    assert(tasks.take(i + 1).drop_last() =~= tasks.take(i));
    assert(tasks.take(i + 1).last() == tasks[i]);
}

/// A positive count has a witness: some task satisfies the condition.
pub proof fn lemma_count_witness(
    tasks: Seq<TaskRecord>,
    cond: spec_fn(TaskRecord) -> bool,
) -> (i: int)
    requires
        count_where(tasks, cond) > 0,
    ensures
        0 <= i < tasks.len(),
        cond(tasks[i]),
    decreases tasks.len(),
{
    if cond(tasks.last()) {
        tasks.len() - 1
    } else {
        lemma_count_witness(tasks.drop_last(), cond)
    }
}

/// Where no task satisfies the condition the count is zero.
pub proof fn lemma_count_none(tasks: Seq<TaskRecord>, cond: spec_fn(TaskRecord) -> bool)
    requires
        forall|i: int| 0 <= i < tasks.len() ==> !cond(#[trigger] tasks[i]),
    ensures
        count_where(tasks, cond) == 0,
    decreases tasks.len(),
{
    if tasks.len() > 0 {
        assert(!cond(tasks[tasks.len() - 1]));
        assert forall|i: int| 0 <= i < tasks.drop_last().len() implies !cond(#[trigger] tasks.drop_last()[i]) by {
            assert(tasks.drop_last()[i] == tasks[i]);
        }
        lemma_count_none(tasks.drop_last(), cond);
    }
}

/// A task that satisfies the condition makes the count positive.
pub proof fn lemma_count_positive(tasks: Seq<TaskRecord>, cond: spec_fn(TaskRecord) -> bool, i: int)
    requires
        0 <= i < tasks.len(),
        cond(tasks[i]),
    ensures
        count_where(tasks, cond) > 0,
    decreases tasks.len(),
{
    if i < tasks.len() - 1 {
        assert(tasks.drop_last()[i] == tasks[i]);
        lemma_count_positive(tasks.drop_last(), cond, i);
    }
}

/// Two conditions that agree on every task give the same count.
pub proof fn lemma_count_congruent(
    tasks: Seq<TaskRecord>,
    a: spec_fn(TaskRecord) -> bool,
    b: spec_fn(TaskRecord) -> bool,
)
    requires
        forall|i: int| 0 <= i < tasks.len() ==> a(#[trigger] tasks[i]) == b(tasks[i]),
    ensures
        count_where(tasks, a) == count_where(tasks, b),
    decreases tasks.len(),
{
    if tasks.len() > 0 {
        assert(a(tasks[tasks.len() - 1]) == b(tasks[tasks.len() - 1]));
        assert forall|i: int| 0 <= i < tasks.drop_last().len() implies a(
            #[trigger] tasks.drop_last()[i],
        ) == b(tasks.drop_last()[i]) by {
            assert(tasks.drop_last()[i] == tasks[i]);
        }
        lemma_count_congruent(tasks.drop_last(), a, b);
    }
}

/// Where no task satisfies two conditions at once, the tasks that satisfy
/// one or the other are as many as those of the one and those of the other
/// together.
pub proof fn lemma_count_disjoint(
    tasks: Seq<TaskRecord>,
    a: spec_fn(TaskRecord) -> bool,
    b: spec_fn(TaskRecord) -> bool,
    either: spec_fn(TaskRecord) -> bool,
)
    requires
        forall|i: int|
            0 <= i < tasks.len() ==> either(#[trigger] tasks[i]) == (a(tasks[i]) || b(tasks[i])),
        forall|i: int| 0 <= i < tasks.len() ==> !(a(#[trigger] tasks[i]) && b(tasks[i])),
    ensures
        count_where(tasks, either) == count_where(tasks, a) + count_where(tasks, b),
    decreases tasks.len(),
{
    if tasks.len() > 0 {
        let last = tasks[tasks.len() - 1];
        assert(either(last) == (a(last) || b(last)));
        assert(!(a(last) && b(last)));
        assert forall|i: int| 0 <= i < tasks.drop_last().len() implies either(
            #[trigger] tasks.drop_last()[i],
        ) == (a(tasks.drop_last()[i]) || b(tasks.drop_last()[i])) by {
            assert(tasks.drop_last()[i] == tasks[i]);
        }
        assert forall|i: int| 0 <= i < tasks.drop_last().len() implies !(a(
            #[trigger] tasks.drop_last()[i],
        ) && b(tasks.drop_last()[i])) by {
            assert(tasks.drop_last()[i] == tasks[i]);
        }
        lemma_count_disjoint(tasks.drop_last(), a, b, either);
    }
}

} // verus!
