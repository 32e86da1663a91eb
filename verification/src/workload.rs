//! The workload report: open tasks and estimated effort for each user.

use crate::error::{DirectoryError, DirectoryErrorView, Subject, SubjectView};
use crate::status::{is_open, is_open_code};
use crate::task::{
    count_where, lemma_count_congruent, lemma_count_disjoint, lemma_count_none,
    lemma_count_positive, lemma_count_step, TaskRecord,
};
use crate::user::{
    find_user_by_id, find_user_by_name, first_named, lemma_position_of_id, position_of_id, User,
};
use vstd::prelude::*;
use vstd::string::*;

verus! {

/// The open tasks of one user and the effort they are estimated at.
#[derive(Clone, Debug, PartialEq, Eq)]
pub struct WorkloadStats {
    /// The user.
    pub user_id: i64,
    /// The user's name.
    pub user_name: String,
    /// The name the user is shown under.
    pub display_name: String,
    /// The number of open tasks assigned to the user.
    pub task_count: u64,
    /// The sum of their estimates in minutes; a task without estimate adds
    /// nothing.
    pub total_minutes: i128,
}

/// The condition "assigned to user `id` and open".
pub open spec fn open_for_user(id: i64) -> spec_fn(TaskRecord) -> bool {
    |t: TaskRecord| t.assignee_id == Some(id) && is_open_code(t.status as int)
}

/// The estimate of a task in minutes; a task without estimate counts as 0.
pub open spec fn estimate_of(t: TaskRecord) -> int {
    match t.estimate_minutes {
        Some(m) => m as int,
        None => 0,
    }
}

/// The sum of the estimates of the tasks that satisfy a condition.
pub open spec fn minutes_where(tasks: Seq<TaskRecord>, cond: spec_fn(TaskRecord) -> bool) -> int
    decreases tasks.len(),
{
    if tasks.len() == 0 {
        0
    } else {
        minutes_where(tasks.drop_last(), cond) + if cond(tasks.last()) {
            estimate_of(tasks.last())
        } else {
            0
        }
    }
}

/// The estimated effort of the open tasks of user `id`, in minutes.
pub open spec fn minutes_of(tasks: Seq<TaskRecord>, id: i64) -> int {
    minutes_where(tasks, open_for_user(id))
}

impl WorkloadStats {
    /// Whether this row gives the workload of `user` among `tasks`.
    pub open spec fn reports(self, user: User, tasks: Seq<TaskRecord>) -> bool {
        &&& self.user_id == user.id
        &&& self.user_name@ == user.name@
        &&& self.display_name@ == user.shown_name()
        &&& self.task_count == count_where(tasks, open_for_user(user.id))
        &&& self.total_minutes == minutes_of(tasks, user.id)
    }
}

/// Whether the user at position `p` gets a row: the one user asked for, or,
/// where none was asked for, every user with an open task. A user has one
/// row: where two entries share an identifier, the later one counts.
pub open spec fn is_selected(
    users: Seq<User>,
    tasks: Seq<TaskRecord>,
    only: Option<int>,
    p: int,
) -> bool {
    &&& 0 <= p < users.len()
    &&& match only {
        Some(q) => p == q,
        None => count_where(tasks, open_for_user(users[p].id)) > 0 && position_of_id(
            users,
            users[p].id,
        ) == Some(p),
    }
}

/// The order of the rows: the larger effort first; rows of equal effort in
/// the order of their users.
pub open spec fn in_workload_order(rows: Seq<WorkloadStats>, src: Seq<int>) -> bool {
    forall|i: int, j: int|
        0 <= i < j < rows.len() ==> (#[trigger] rows[i]).total_minutes > (
        #[trigger] rows[j]).total_minutes || (rows[i].total_minutes == rows[j].total_minutes
            && src[i] < src[j])
}

/// Whether `rows` is the workload report and `src` gives for each row the
/// position of its user.
pub open spec fn is_workload_of(
    users: Seq<User>,
    tasks: Seq<TaskRecord>,
    only: Option<int>,
    rows: Seq<WorkloadStats>,
    src: Seq<int>,
) -> bool {
    &&& src.len() == rows.len()
    &&& forall|i: int|
        0 <= i < rows.len() ==> is_selected(users, tasks, only, #[trigger] src[i])
            && rows[i].reports(users[src[i]], tasks)
    &&& forall|p: int| #[trigger] is_selected(users, tasks, only, p) ==> src.contains(p)
    &&& in_workload_order(rows, src)
}

/// What the workload report is: one row for each selected user, with the
/// user's open tasks and their estimated effort, the larger effort first and
/// equal efforts in the order of the users.
pub open spec fn is_workload_report(
    users: Seq<User>,
    tasks: Seq<TaskRecord>,
    only: Option<int>,
    rows: Seq<WorkloadStats>,
) -> bool {
    exists|src: Seq<int>| is_workload_of(users, tasks, only, rows, src)
}

/// In a workload report no row has less effort than a later one.
pub proof fn lemma_workload_descending(
    users: Seq<User>,
    tasks: Seq<TaskRecord>,
    only: Option<int>,
    rows: Seq<WorkloadStats>,
)
    requires
        is_workload_report(users, tasks, only, rows),
    ensures
        forall|i: int, j: int|
            0 <= i < j < rows.len() ==> (#[trigger] rows[i]).total_minutes >= (
            #[trigger] rows[j]).total_minutes,
{
    let src = choose|src: Seq<int>| is_workload_of(users, tasks, only, rows, src);
    assert(in_workload_order(rows, src));
}

/// The sum of the estimates changes by the estimate of one more task where
/// the task satisfies the condition.
pub proof fn lemma_minutes_step(tasks: Seq<TaskRecord>, cond: spec_fn(TaskRecord) -> bool, i: int)
    requires
        0 <= i < tasks.len(),
    ensures
        minutes_where(tasks.take(i + 1), cond) == minutes_where(tasks.take(i), cond) + if cond(
            tasks[i],
        ) {
            estimate_of(tasks[i])
        } else {
            0
        },
{
    assert(tasks.take(i + 1).drop_last() =~= tasks.take(i));
    assert(tasks.take(i + 1).last() == tasks[i]);
}

/// The workload of one user.
pub fn workload_of_user(user: &User, tasks: &Vec<TaskRecord>) -> (row: WorkloadStats)
    ensures
        row.reports(*user, tasks@),
{
    let id = user.id;
    let mut count: u64 = 0;
    let mut minutes: i128 = 0;
    let mut i: usize = 0;
    while i < tasks.len()
        invariant
            i <= tasks.len(),
            id == user.id,
            count == count_where(tasks@.take(i as int), open_for_user(id)),
            count <= i,
            minutes == minutes_where(tasks@.take(i as int), open_for_user(id)),
            -(i as int) * 0x8000_0000_0000_0000 <= minutes <= (i as int) * 0x8000_0000_0000_0000,
        decreases tasks.len() - i,
    {
        proof {
            lemma_count_step(tasks@, open_for_user(id), i as int);
            lemma_minutes_step(tasks@, open_for_user(id), i as int);
        }
        let task = &tasks[i];
        let assigned = match task.assignee_id {
            Some(a) => a == id,
            None => false,
        };
        if assigned && is_open(task.status) {
            count = count + 1;
            match task.estimate_minutes {
                Some(m) => {
                    minutes = minutes + (m as i128);
                },
                None => {},
            }
        }
        i = i + 1;
    }
    proof {
        assert(tasks@.take(i as int) =~= tasks@);
    }
    WorkloadStats {
        user_id: id,
        user_name: user.name.clone(),
        display_name: user.label(),
        task_count: count,
        total_minutes: minutes,
    }
}

/// What holds of the rows once the first `k` users are dealt with.
spec fn workload_progress(
    users: Seq<User>,
    tasks: Seq<TaskRecord>,
    only: Option<int>,
    k: int,
    rows: Seq<WorkloadStats>,
    src: Seq<int>,
) -> bool {
    &&& 0 <= k <= users.len()
    &&& src.len() == rows.len()
    &&& forall|i: int|
        0 <= i < rows.len() ==> #[trigger] src[i] < k && is_selected(users, tasks, only, src[i])
            && rows[i].reports(users[src[i]], tasks)
    &&& forall|p: int| p < k && #[trigger] is_selected(users, tasks, only, p) ==> src.contains(p)
    &&& in_workload_order(rows, src)
}

/// A user who is not selected leaves the rows as they are.
proof fn lemma_workload_skip(
    users: Seq<User>,
    tasks: Seq<TaskRecord>,
    only: Option<int>,
    k: int,
    rows: Seq<WorkloadStats>,
    src: Seq<int>,
)
    requires
        workload_progress(users, tasks, only, k, rows, src),
        k < users.len(),
        !is_selected(users, tasks, only, k),
    ensures
        workload_progress(users, tasks, only, k + 1, rows, src),
{
}

/// A new row, put before the first row of less effort, keeps the rows in
/// order and adds the row of its user.
proof fn lemma_workload_insert(
    users: Seq<User>,
    tasks: Seq<TaskRecord>,
    only: Option<int>,
    k: int,
    rows: Seq<WorkloadStats>,
    src: Seq<int>,
    at: int,
    row: WorkloadStats,
)
    requires
        workload_progress(users, tasks, only, k, rows, src),
        k < users.len(),
        is_selected(users, tasks, only, k),
        row.reports(users[k], tasks),
        0 <= at <= rows.len(),
        forall|q: int| 0 <= q < at ==> (#[trigger] rows[q]).total_minutes >= row.total_minutes,
        at < rows.len() ==> rows[at].total_minutes < row.total_minutes,
    ensures
        workload_progress(users, tasks, only, k + 1, rows.insert(at, row), src.insert(at, k)),
{
    let next = rows.insert(at, row);
    let nsrc = src.insert(at, k);
    assert forall|i: int| 0 <= i < next.len() implies #[trigger] nsrc[i] < k + 1 && is_selected(
        users,
        tasks,
        only,
        nsrc[i],
    ) && next[i].reports(users[nsrc[i]], tasks) by {
        if i != at {
            let o = if i < at {
                i
            } else {
                i - 1
            };
            assert(next[i] == rows[o]);
            assert(nsrc[i] == src[o]);
        }
    }
    assert forall|p: int| p < k + 1 && #[trigger] is_selected(users, tasks, only, p) implies nsrc.contains(
        p,
    ) by {
        if p == k {
            assert(nsrc[at] == p);
        } else {
            let w = choose|w: int| 0 <= w < src.len() && src[w] == p;
            let n = if w < at {
                w
            } else {
                w + 1
            };
            assert(nsrc[n] == p);
        }
    }
    assert(in_workload_order(next, nsrc)) by {
        assert forall|i: int, j: int| 0 <= i < j < next.len() implies (#[trigger] next[i]).total_minutes
            > (#[trigger] next[j]).total_minutes || (next[i].total_minutes == next[j].total_minutes
            && nsrc[i] < nsrc[j]) by {
            let oi = if i < at {
                i
            } else {
                i - 1
            };
            let oj = if j < at {
                j
            } else {
                j - 1
            };
            if i == at {
                assert(next[j] == rows[oj]);
                assert(nsrc[j] == src[oj]);
                if oj > at {
                    assert(rows[at].total_minutes >= rows[oj].total_minutes);
                }
            } else if j == at {
                assert(next[i] == rows[oi]);
                assert(nsrc[i] == src[oi]);
                assert(src[oi] < k);
            } else {
                assert(next[i] == rows[oi]);
                assert(next[j] == rows[oj]);
                assert(nsrc[i] == src[oi]);
                assert(nsrc[j] == src[oj]);
            }
        }
    }
}

/// The rows of the workload report over a snapshot of the directory and of
/// the tasks.
///
/// With `only` the report holds the user at that position, with or without
/// open tasks; without it, every user who has an open task, each once.
pub fn workload_rows(users: &Vec<User>, tasks: &Vec<TaskRecord>, only: Option<usize>) -> (rows:
    Vec<WorkloadStats>)
    ensures
        is_workload_report(
            users@,
            tasks@,
            match only {
                Some(q) => Some(q as int),
                None => None,
            },
            rows@,
        ),
{
    let ghost chosen: Option<int> = match only {
        Some(q) => Some(q as int),
        None => None,
    };
    let mut rows: Vec<WorkloadStats> = Vec::new();
    let ghost mut src: Seq<int> = Seq::empty();
    let mut k: usize = 0;
    while k < users.len()
        invariant
            workload_progress(users@, tasks@, chosen, k as int, rows@, src),
            chosen == match only {
                Some(q) => Some(q as int),
                None => None::<int>,
            },
        decreases users.len() - k,
    {
        let row = workload_of_user(&users[k], tasks);
        let wanted = match only {
            Some(q) => q == k,
            None => row.task_count > 0 && match find_user_by_id(users, users[k].id) {
                Some(last) => last == k,
                None => false,
            },
        };
        if wanted {
            let mut at: usize = 0;
            while at < rows.len() && rows[at].total_minutes >= row.total_minutes
                invariant
                    at <= rows.len(),
                    forall|q: int|
                        0 <= q < at ==> (#[trigger] rows@[q]).total_minutes >= row.total_minutes,
                decreases rows.len() - at,
            {
                at = at + 1;
            }
            proof {
                lemma_workload_insert(users@, tasks@, chosen, k as int, rows@, src, at as int, row);
                src = src.insert(at as int, k as int);
            }
            rows.insert(at, row);
        } else {
            proof {
                lemma_workload_skip(users@, tasks@, chosen, k as int, rows@, src);
            }
        }
        k = k + 1;
    }
    proof {
        assert(is_workload_of(users@, tasks@, chosen, rows@, src));
    }
    rows
}

/// Whether the report lists a user with identifier `id`.
pub open spec fn is_listed(users: Seq<User>, only: Option<int>, id: i64) -> bool {
    match only {
        Some(q) => 0 <= q < users.len() && users[q].id == id,
        None => position_of_id(users, id).is_some(),
    }
}

/// The condition "open and assigned to a user whom the report lists".
pub open spec fn open_for_listed(users: Seq<User>, only: Option<int>) -> spec_fn(
    TaskRecord,
) -> bool {
    |t: TaskRecord|
        is_open_code(t.status as int) && t.assignee_id.is_some() && is_listed(
            users,
            only,
            t.assignee_id.unwrap(),
        )
}

/// The position that a report is limited to, as a number of the proofs.
pub open spec fn chosen(only: Option<usize>) -> Option<int> {
    match only {
        Some(q) => Some(q as int),
        None => None,
    }
}

/// The workload report: its rows and the grand totals.
#[derive(Clone, Debug, PartialEq, Eq)]
pub struct WorkloadReport {
    /// One row for each selected user.
    pub rows: Vec<WorkloadStats>,
    /// The number of open tasks assigned to a listed user: the sum of the
    /// rows' counts.
    pub total_tasks: u64,
    /// The sum of their estimates in minutes: the sum of the rows' efforts.
    pub total_minutes: i128,
}

impl WorkloadReport {
    /// Whether this is the workload report over `users` and `tasks`, for
    /// the one user at position `only` or for all.
    pub open spec fn describes(
        self,
        users: Seq<User>,
        tasks: Seq<TaskRecord>,
        only: Option<int>,
    ) -> bool {
        &&& is_workload_report(users, tasks, only, self.rows@)
        &&& self.total_tasks == sum_tasks(self.rows@)
        &&& self.total_minutes == sum_minutes(self.rows@)
        &&& self.total_tasks == count_where(tasks, open_for_listed(users, only))
        &&& self.total_minutes == minutes_where(tasks, open_for_listed(users, only))
    }
}

/// Whether the report lists the assignee of a task.
fn lists_assignee(users: &Vec<User>, only: Option<usize>, task: &TaskRecord) -> (listed: bool)
    ensures
        listed == (task.assignee_id.is_some() && is_listed(
            users@,
            chosen(only),
            task.assignee_id.unwrap(),
        )),
{
    match task.assignee_id {
        None => false,
        Some(id) => match only {
            Some(q) => q < users.len() && users[q].id == id,
            None => find_user_by_id(users, id).is_some(),
        },
    }
}

/// The workload report over a snapshot of the directory and of the tasks.
///
/// With `only` the report holds the user at that position, with or without
/// open tasks; without it, every user who has an open task, each once.
pub fn workload_report(users: &Vec<User>, tasks: &Vec<TaskRecord>, only: Option<usize>) -> (report:
    WorkloadReport)
    ensures
        report.describes(users@, tasks@, chosen(only)),
{
    let rows = workload_rows(users, tasks, only);
    let ghost cond = open_for_listed(users@, chosen(only));
    let mut count: u64 = 0;
    let mut minutes: i128 = 0;
    let mut i: usize = 0;
    while i < tasks.len()
        invariant
            i <= tasks.len(),
            cond == open_for_listed(users@, chosen(only)),
            count == count_where(tasks@.take(i as int), cond),
            count <= i,
            minutes == minutes_where(tasks@.take(i as int), cond),
            -(i as int) * 0x8000_0000_0000_0000 <= minutes <= (i as int) * 0x8000_0000_0000_0000,
        decreases tasks.len() - i,
    {
        proof {
            lemma_count_step(tasks@, cond, i as int);
            lemma_minutes_step(tasks@, cond, i as int);
        }
        let task = &tasks[i];
        if is_open(task.status) && lists_assignee(users, only, task) {
            count = count + 1;
            match task.estimate_minutes {
                Some(m) => {
                    minutes = minutes + (m as i128);
                },
                None => {},
            }
        }
        i = i + 1;
    }
    proof {
        assert(tasks@.take(i as int) =~= tasks@);
        lemma_workload_rows_add_up(users@, tasks@, chosen(only), rows@);
    }
    WorkloadReport { rows, total_tasks: count, total_minutes: minutes }
}

/// The workload report for a person's request.
///
/// With a user name, the report holds that one user, with or without open
/// tasks, and the request fails where the directory has no user of that
/// name. Without one, it holds every user who has an open task.
pub fn workload_for(users: &Vec<User>, tasks: &Vec<TaskRecord>, user_name: Option<&str>) -> (result:
    Result<WorkloadReport, DirectoryError>)
    ensures
        match user_name {
            None => result.is_ok() && result.unwrap().describes(users@, tasks@, None),
            Some(name) => match first_named(users@, name@) {
                Some(q) => result.is_ok() && result.unwrap().describes(users@, tasks@, Some(q)),
                None => result.is_err() && result.unwrap_err()@ == DirectoryErrorView::NotFound(
                    SubjectView::User(name@),
                ),
            },
        },
{
    match user_name {
        None => Ok(workload_report(users, tasks, None)),
        Some(name) => match find_user_by_name(users, name) {
            Some(q) => Ok(workload_report(users, tasks, Some(q))),
            None => Err(DirectoryError::NotFound(Subject::User(String::from_str(name)))),
        },
    }
}

/// Where no task satisfies the condition the sum of the estimates is zero.
pub proof fn lemma_minutes_none(tasks: Seq<TaskRecord>, cond: spec_fn(TaskRecord) -> bool)
    requires
        forall|i: int| 0 <= i < tasks.len() ==> !cond(#[trigger] tasks[i]),
    ensures
        minutes_where(tasks, cond) == 0,
    decreases tasks.len(),
{
    if tasks.len() > 0 {
        assert(!cond(tasks[tasks.len() - 1]));
        assert forall|i: int| 0 <= i < tasks.drop_last().len() implies !cond(
            #[trigger] tasks.drop_last()[i],
        ) by {
            assert(tasks.drop_last()[i] == tasks[i]);
        }
        lemma_minutes_none(tasks.drop_last(), cond);
    }
}

/// Two conditions that agree on every task give the same sum of estimates.
pub proof fn lemma_minutes_congruent(
    tasks: Seq<TaskRecord>,
    a: spec_fn(TaskRecord) -> bool,
    b: spec_fn(TaskRecord) -> bool,
)
    requires
        forall|i: int| 0 <= i < tasks.len() ==> a(#[trigger] tasks[i]) == b(tasks[i]),
    ensures
        minutes_where(tasks, a) == minutes_where(tasks, b),
    decreases tasks.len(),
{
    if tasks.len() > 0 {
        assert(a(tasks[tasks.len() - 1]) == b(tasks[tasks.len() - 1]));
        assert forall|i: int| 0 <= i < tasks.drop_last().len() implies a(
            #[trigger] tasks.drop_last()[i],
        ) == b(tasks.drop_last()[i]) by {
            assert(tasks.drop_last()[i] == tasks[i]);
        }
        lemma_minutes_congruent(tasks.drop_last(), a, b);
    }
}

/// Where no task satisfies two conditions at once, the estimates of the
/// tasks that satisfy one or the other add up to those of the one and those
/// of the other together.
pub proof fn lemma_minutes_disjoint(
    tasks: Seq<TaskRecord>,
    a: spec_fn(TaskRecord) -> bool,
    b: spec_fn(TaskRecord) -> bool,
    either: spec_fn(TaskRecord) -> bool,
)
    requires
        forall|i: int|
            0 <= i < tasks.len() ==> either(#[trigger] tasks[i]) == (a(tasks[i]) || b(tasks[i])),
        forall|i: int| 0 <= i < tasks.len() ==> !(a(#[trigger] tasks[i]) && b(tasks[i])),
    ensures
        minutes_where(tasks, either) == minutes_where(tasks, a) + minutes_where(tasks, b),
    decreases tasks.len(),
{
    if tasks.len() > 0 {
        let last = tasks[tasks.len() - 1];
        assert(either(last) == (a(last) || b(last)));
        assert(!(a(last) && b(last)));
        assert forall|i: int| 0 <= i < tasks.drop_last().len() implies either(
            #[trigger] tasks.drop_last()[i],
        ) == (a(tasks.drop_last()[i]) || b(tasks.drop_last()[i])) by {
            assert(tasks.drop_last()[i] == tasks[i]);
        }
        assert forall|i: int| 0 <= i < tasks.drop_last().len() implies !(a(
            #[trigger] tasks.drop_last()[i],
        ) && b(tasks.drop_last()[i])) by {
            assert(tasks.drop_last()[i] == tasks[i]);
        }
        lemma_minutes_disjoint(tasks.drop_last(), a, b, either);
    }
}

/// The sum of the rows' counts of tasks.
pub open spec fn sum_tasks(rows: Seq<WorkloadStats>) -> int
    decreases rows.len(),
{
    if rows.len() == 0 {
        0
    } else {
        sum_tasks(rows.drop_last()) + rows.last().task_count
    }
}

/// The sum of the rows' estimated efforts.
pub open spec fn sum_minutes(rows: Seq<WorkloadStats>) -> int
    decreases rows.len(),
{
    if rows.len() == 0 {
        0
    } else {
        sum_minutes(rows.drop_last()) + rows.last().total_minutes
    }
}

/// Whether some row is the row of user `id`.
spec fn has_row(rows: Seq<WorkloadStats>, id: i64) -> bool {
    exists|i: int| 0 <= i < rows.len() && (#[trigger] rows[i]).user_id == id
}

/// The condition "open and assigned to a user who has a row".
spec fn open_in_rows(rows: Seq<WorkloadStats>) -> spec_fn(TaskRecord) -> bool {
    |t: TaskRecord|
        is_open_code(t.status as int) && t.assignee_id.is_some() && has_row(
            rows,
            t.assignee_id.unwrap(),
        )
}

/// Whether each row gives the tasks and the effort of its own user, and no
/// two rows are of the same user.
spec fn rows_of_distinct_users(tasks: Seq<TaskRecord>, rows: Seq<WorkloadStats>) -> bool {
    &&& forall|i: int|
        0 <= i < rows.len() ==> (#[trigger] rows[i]).task_count == count_where(
            tasks,
            open_for_user(rows[i].user_id),
        ) && rows[i].total_minutes == minutes_where(tasks, open_for_user(rows[i].user_id))
    &&& forall|i: int, j: int|
        0 <= i < j < rows.len() ==> (#[trigger] rows[i]).user_id != (#[trigger] rows[j]).user_id
}

/// Rows of different users that each give the tasks of their user give,
/// taken together, the tasks of all their users, each once.
proof fn lemma_workload_partition(tasks: Seq<TaskRecord>, rows: Seq<WorkloadStats>)
    requires
        rows_of_distinct_users(tasks, rows),
    ensures
        sum_tasks(rows) == count_where(tasks, open_in_rows(rows)),
        sum_minutes(rows) == minutes_where(tasks, open_in_rows(rows)),
    decreases rows.len(),
{
    if rows.len() == 0 {
        assert forall|i: int| 0 <= i < tasks.len() implies !open_in_rows(rows)(
            #[trigger] tasks[i],
        ) by {}
        lemma_count_none(tasks, open_in_rows(rows));
        lemma_minutes_none(tasks, open_in_rows(rows));
    } else {
        let front = rows.drop_last();
        let last = rows.last();
        assert(rows_of_distinct_users(tasks, front)) by {
            assert forall|i: int| 0 <= i < front.len() implies (#[trigger] front[i]).task_count
                == count_where(tasks, open_for_user(front[i].user_id)) && front[i].total_minutes
                == minutes_where(tasks, open_for_user(front[i].user_id)) by {
                assert(front[i] == rows[i]);
            }
            assert forall|i: int, j: int| 0 <= i < j < front.len() implies (
            #[trigger] front[i]).user_id != (#[trigger] front[j]).user_id by {
                assert(front[i] == rows[i]);
                assert(front[j] == rows[j]);
            }
        }
        lemma_workload_partition(tasks, front);
        assert(!has_row(front, last.user_id)) by {
            if has_row(front, last.user_id) {
                let w = choose|w: int|
                    0 <= w < front.len() && (#[trigger] front[w]).user_id == last.user_id;
                assert(front[w] == rows[w]);
                assert(rows[w].user_id != rows[rows.len() - 1].user_id);
            }
        }
        assert forall|id: i64| has_row(rows, id) == (has_row(front, id) || id
            == last.user_id) by {
            if has_row(rows, id) {
                let w = choose|w: int| 0 <= w < rows.len() && (#[trigger] rows[w]).user_id == id;
                if w < front.len() {
                    assert(front[w] == rows[w]);
                }
            }
            if has_row(front, id) {
                let w = choose|w: int| 0 <= w < front.len() && (#[trigger] front[w]).user_id == id;
                assert(front[w] == rows[w]);
            }
            if id == last.user_id {
                assert(rows[rows.len() - 1].user_id == id);
            }
        }
        assert forall|i: int| 0 <= i < tasks.len() implies open_in_rows(rows)(#[trigger] tasks[i])
            == (open_in_rows(front)(tasks[i]) || open_for_user(last.user_id)(tasks[i])) by {
            if tasks[i].assignee_id.is_some() {
                let id = tasks[i].assignee_id.unwrap();
                assert(has_row(rows, id) == (has_row(front, id) || id == last.user_id));
            }
        }
        lemma_count_disjoint(
            tasks,
            open_in_rows(front),
            open_for_user(last.user_id),
            open_in_rows(rows),
        );
        lemma_minutes_disjoint(
            tasks,
            open_in_rows(front),
            open_for_user(last.user_id),
            open_in_rows(rows),
        );
        assert(rows[rows.len() - 1].task_count == count_where(
            tasks,
            open_for_user(last.user_id),
        ));
    }
}

/// In a workload report every open task of a listed user is counted in
/// exactly one row: the rows' counts and efforts add up to the number and
/// the estimates of the open tasks that are assigned to a listed user.
pub proof fn lemma_workload_rows_add_up(
    users: Seq<User>,
    tasks: Seq<TaskRecord>,
    only: Option<int>,
    rows: Seq<WorkloadStats>,
)
    requires
        is_workload_report(users, tasks, only, rows),
    ensures
        sum_tasks(rows) == count_where(tasks, open_for_listed(users, only)),
        sum_minutes(rows) == minutes_where(tasks, open_for_listed(users, only)),
{
    let src = choose|src: Seq<int>| is_workload_of(users, tasks, only, rows, src);
    assert(in_workload_order(rows, src));
    assert forall|i: int| 0 <= i < rows.len() implies 0 <= src[i] < users.len() && (
    #[trigger] rows[i]).user_id == users[src[i]].id && rows[i].task_count == count_where(
        tasks,
        open_for_user(rows[i].user_id),
    ) && rows[i].total_minutes == minutes_where(tasks, open_for_user(rows[i].user_id)) by {
        assert(is_selected(users, tasks, only, src[i]));
        assert(rows[i].reports(users[src[i]], tasks));
    }
    assert(rows_of_distinct_users(tasks, rows)) by {
        assert forall|i: int, j: int| 0 <= i < j < rows.len() implies (
        #[trigger] rows[i]).user_id != (#[trigger] rows[j]).user_id by {
            assert(src[i] != src[j]);
            assert(is_selected(users, tasks, only, src[i]));
            assert(is_selected(users, tasks, only, src[j]));
        }
    }
    lemma_workload_partition(tasks, rows);
    assert forall|t: int| 0 <= t < tasks.len() implies open_in_rows(rows)(#[trigger] tasks[t])
        == open_for_listed(users, only)(tasks[t]) by {
        let task = tasks[t];
        if is_open_code(task.status as int) && task.assignee_id.is_some() {
            let id = task.assignee_id.unwrap();
            lemma_position_of_id(users, id);
            if has_row(rows, id) {
                let w = choose|w: int| 0 <= w < rows.len() && (#[trigger] rows[w]).user_id == id;
                assert(users[src[w]].id == id);
                assert(is_selected(users, tasks, only, src[w]));
                assert(is_listed(users, only, id));
            }
            if is_listed(users, only, id) {
                let p = match only {
                    Some(q) => q,
                    None => position_of_id(users, id).unwrap(),
                };
                assert(users[p].id == id);
                lemma_count_positive(tasks, open_for_user(id), t);
                assert(is_selected(users, tasks, only, p));
                assert(src.contains(p));
                let w = choose|w: int| 0 <= w < src.len() && src[w] == p;
                assert(rows[w].user_id == id);
                assert(has_row(rows, id));
            }
        }
    }
    lemma_count_congruent(tasks, open_in_rows(rows), open_for_listed(users, only));
    lemma_minutes_congruent(tasks, open_in_rows(rows), open_for_listed(users, only));
}

} // verus!
