//! The team report: open and finished tasks for each assignee.

use crate::status::{is_done, is_done_code, is_open, is_open_code};
use crate::task::{
    count_where, lemma_count_congruent, lemma_count_disjoint, lemma_count_positive,
    lemma_count_step, lemma_count_witness, TaskRecord,
};
use crate::text::{
    decimal, format_int, lemma_precedes_asymmetric, lemma_precedes_transitive, name_precedes,
    precedes,
};
use crate::user::{find_user_by_id, position_of_id, User};
use vstd::prelude::*;
use vstd::string::*;

verus! {

/// The tasks of one bucket of the team report. The bucket of the unassigned
/// tasks has no `user_id`.
#[derive(Clone, Debug, PartialEq, Eq)]
pub struct UserStats {
    /// The assignee, or nothing for the bucket of unassigned tasks.
    pub user_id: Option<i64>,
    /// The name the bucket is sorted by.
    pub user_name: String,
    /// The name the bucket is shown under.
    pub display_name: String,
    /// The number of open tasks.
    pub open_count: u64,
    /// The number of finished tasks.
    pub done_count: u64,
}

/// The condition "assigned to `key` and open".
pub open spec fn open_for(key: Option<i64>) -> spec_fn(TaskRecord) -> bool {
    |t: TaskRecord| t.assignee_id == key && is_open_code(t.status as int)
}

/// The condition "assigned to `key` and finished".
pub open spec fn done_for(key: Option<i64>) -> spec_fn(TaskRecord) -> bool {
    |t: TaskRecord| t.assignee_id == key && is_done_code(t.status as int)
}

/// The number of open tasks assigned to `key`.
pub open spec fn open_count_of(tasks: Seq<TaskRecord>, key: Option<i64>) -> nat {
    count_where(tasks, open_for(key))
}

/// The number of finished tasks assigned to `key`.
pub open spec fn done_count_of(tasks: Seq<TaskRecord>, key: Option<i64>) -> nat {
    count_where(tasks, done_for(key))
}

/// The name a bucket is sorted by: `unassigned` for the tasks without
/// assignee, the user's name for a known user, and `user_` with the
/// identifier for an assignee that the directory does not hold.
pub open spec fn bucket_name(users: Seq<User>, key: Option<i64>) -> Seq<char> {
    match key {
        None => "unassigned"@,
        Some(id) => match position_of_id(users, id) {
            Some(p) => users[p].name@,
            None => "user_"@ + decimal(id as int),
        },
    }
}

/// The name a bucket is shown under: `unassigned`, the user's display name,
/// or `Unknown (id)` for an assignee that the directory does not hold.
pub open spec fn bucket_display(users: Seq<User>, key: Option<i64>) -> Seq<char> {
    match key {
        None => "unassigned"@,
        Some(id) => match position_of_id(users, id) {
            Some(p) => users[p].shown_name(),
            None => "Unknown ("@ + decimal(id as int) + ")"@,
        },
    }
}

impl UserStats {
    /// Whether this row is the bucket of its `user_id`: it bears the
    /// bucket's names and counts that assignee's open and finished tasks.
    pub open spec fn describes(self, users: Seq<User>, tasks: Seq<TaskRecord>) -> bool {
        &&& self.user_name@ == bucket_name(users, self.user_id)
        &&& self.display_name@ == bucket_display(users, self.user_id)
        &&& self.open_count == open_count_of(tasks, self.user_id)
        &&& self.done_count == done_count_of(tasks, self.user_id)
    }

    /// The number of tasks of the bucket, open and finished.
    pub open spec fn spec_total(self) -> int {
        self.open_count + self.done_count
    }

    /// The number of tasks of the bucket, open and finished.
    pub fn total(&self) -> (n: i128)
        ensures
            n == self.spec_total(),
    {
        self.open_count as i128 + self.done_count as i128
    }
}

/// The order of the rows: by name, and the bucket of the unassigned tasks
/// after every assignee whatever its name.
pub open spec fn team_before(a: UserStats, b: UserStats) -> bool {
    if a.user_id.is_none() && b.user_id.is_some() {
        false
    } else if a.user_id.is_some() && b.user_id.is_none() {
        true
    } else {
        precedes(a.user_name@, b.user_name@)
    }
}

/// Whether some row is the bucket of `key`.
pub open spec fn has_bucket(rows: Seq<UserStats>, key: Option<i64>) -> bool {
    exists|i: int| 0 <= i < rows.len() && (#[trigger] rows[i]).user_id == key
}

/// Whether no row stands behind one that it should come before.
pub open spec fn in_team_order(rows: Seq<UserStats>) -> bool {
    forall|i: int, j: int|
        0 <= i < j < rows.len() ==> !team_before(#[trigger] rows[j], #[trigger] rows[i])
}

/// Whether no two rows are the bucket of the same assignee.
pub open spec fn distinct_buckets(rows: Seq<UserStats>) -> bool {
    forall|i: int, j: int|
        0 <= i < j < rows.len() ==> (#[trigger] rows[i]).user_id != (#[trigger] rows[j]).user_id
}

/// What the team report is: one row for each assignee with at least one
/// open or finished task, none for anyone else, each row with the names and
/// counts of its bucket, in the order of `team_before`.
pub open spec fn is_team_report(
    users: Seq<User>,
    tasks: Seq<TaskRecord>,
    rows: Seq<UserStats>,
) -> bool {
    &&& forall|i: int|
        0 <= i < rows.len() ==> (#[trigger] rows[i]).describes(users, tasks) && rows[i].spec_total()
            > 0
    &&& distinct_buckets(rows)
    &&& forall|key: Option<i64>|
        open_count_of(tasks, key) + done_count_of(tasks, key) > 0 ==> #[trigger] has_bucket(
            rows,
            key,
        )
    &&& in_team_order(rows)
}

/// The order of the rows is transitive.
pub proof fn lemma_team_before_transitive(a: UserStats, b: UserStats, c: UserStats)
    requires
        team_before(a, b),
        team_before(b, c),
    ensures
        team_before(a, c),
{
    if a.user_id.is_some() == b.user_id.is_some() && b.user_id.is_some() == c.user_id.is_some() {
        lemma_precedes_transitive(a.user_name@, b.user_name@, c.user_name@);
    }
}

/// Two rows are never each before the other.
pub proof fn lemma_team_before_asymmetric(a: UserStats, b: UserStats)
    requires
        team_before(a, b),
    ensures
        !team_before(b, a),
{
    if a.user_id.is_some() == b.user_id.is_some() {
        lemma_precedes_asymmetric(a.user_name@, b.user_name@);
    }
}

/// Whether the bucket of unassigned tasks, where the report has it, is its
/// last row.
pub open spec fn unassigned_is_last(rows: Seq<UserStats>) -> bool {
    forall|i: int|
        0 <= i < rows.len() && (#[trigger] rows[i]).user_id.is_none() ==> i == rows.len() - 1
}

/// In a team report the bucket of unassigned tasks is the last row, and the
/// rows before it stand in alphabetical order of their names.
pub proof fn lemma_team_report_order(
    users: Seq<User>,
    tasks: Seq<TaskRecord>,
    rows: Seq<UserStats>,
)
    requires
        is_team_report(users, tasks, rows),
    ensures
        unassigned_is_last(rows),
        forall|i: int, j: int|
            0 <= i < j < rows.len() && rows[j].user_id.is_some() ==> !precedes(
                #[trigger] rows[j].user_name@,
                #[trigger] rows[i].user_name@,
            ),
{
    assert forall|i: int| 0 <= i < rows.len() && (#[trigger] rows[i]).user_id.is_none() implies i
        == rows.len() - 1 by {
        if i < rows.len() - 1 {
            let j = rows.len() - 1;
            assert(rows[i].user_id != rows[j].user_id);
            assert(!team_before(rows[j], rows[i]));
        }
    }
    assert forall|i: int, j: int|
        0 <= i < j < rows.len() && rows[j].user_id.is_some() implies !precedes(
        #[trigger] rows[j].user_name@,
        #[trigger] rows[i].user_name@,
    ) by {
        assert(!team_before(rows[j], rows[i]));
        if rows[i].user_id.is_none() {
            assert(i == rows.len() - 1);
        }
    }
}

/// The number of open tasks assigned to `key` among `tasks`.
pub fn count_open_for(tasks: &Vec<TaskRecord>, key: Option<i64>) -> (n: u64)
    ensures
        n == open_count_of(tasks@, key),
{
    let mut n: u64 = 0;
    let mut i: usize = 0;
    while i < tasks.len()
        invariant
            i <= tasks.len(),
            n == count_where(tasks@.take(i as int), open_for(key)),
            n <= i,
        decreases tasks.len() - i,
    {
        proof {
            lemma_count_step(tasks@, open_for(key), i as int);
        }
        if same_key(tasks[i].assignee_id, key) && is_open(tasks[i].status) {
            n = n + 1;
        }
        i = i + 1;
    }
    proof {
        assert(tasks@.take(i as int) =~= tasks@);
    }
    n
}

/// The number of finished tasks assigned to `key` among `tasks`.
pub fn count_done_for(tasks: &Vec<TaskRecord>, key: Option<i64>) -> (n: u64)
    ensures
        n == done_count_of(tasks@, key),
{
    let mut n: u64 = 0;
    let mut i: usize = 0;
    while i < tasks.len()
        invariant
            i <= tasks.len(),
            n == count_where(tasks@.take(i as int), done_for(key)),
            n <= i,
        decreases tasks.len() - i,
    {
        proof {
            lemma_count_step(tasks@, done_for(key), i as int);
        }
        if same_key(tasks[i].assignee_id, key) && is_done(tasks[i].status) {
            n = n + 1;
        }
        i = i + 1;
    }
    proof {
        assert(tasks@.take(i as int) =~= tasks@);
    }
    n
}

/// Whether two bucket keys are the same.
pub fn same_key(a: Option<i64>, b: Option<i64>) -> (same: bool)
    ensures
        same == (a == b),
{
    match a {
        Some(x) => match b {
            Some(y) => x == y,
            None => false,
        },
        None => b.is_none(),
    }
}

/// Whether `key` is among `keys`.
fn holds_key(keys: &Vec<Option<i64>>, key: Option<i64>) -> (found: bool)
    ensures
        found == keys@.contains(key),
{
    let mut i: usize = 0;
    while i < keys.len()
        invariant
            i <= keys.len(),
            forall|j: int| 0 <= j < i ==> keys@[j] != key,
        decreases keys.len() - i,
    {
        if same_key(keys[i], key) {
            return true;
        }
        i = i + 1;
    }
    false
}

/// The assignees that occur among the tasks, each once, in the order of
/// their first occurrence.
fn assignee_keys(tasks: &Vec<TaskRecord>) -> (keys: Vec<Option<i64>>)
    ensures
        forall|i: int, j: int| 0 <= i < j < keys.len() ==> keys@[i] != keys@[j],
        forall|t: int| 0 <= t < tasks.len() ==> keys@.contains(#[trigger] tasks@[t].assignee_id),
{
    let mut keys: Vec<Option<i64>> = Vec::new();
    let mut t: usize = 0;
    while t < tasks.len()
        invariant
            t <= tasks.len(),
            forall|i: int, j: int| 0 <= i < j < keys.len() ==> keys@[i] != keys@[j],
            forall|u: int| 0 <= u < t ==> keys@.contains(#[trigger] tasks@[u].assignee_id),
        decreases tasks.len() - t,
    {
        let key = tasks[t].assignee_id;
        if !holds_key(&keys, key) {
            let ghost before = keys@;
            keys.push(key);
            proof {
                assert forall|u: int| 0 <= u < t implies keys@.contains(
                    #[trigger] tasks@[u].assignee_id,
                ) by {
                    let w = choose|w: int|
                        0 <= w < before.len() && before[w] == tasks@[u].assignee_id;
                    assert(keys@[w] == tasks@[u].assignee_id);
                }
                assert(keys@[keys.len() - 1] == key);
            }
        }
        t = t + 1;
    }
    keys
}

/// The name a bucket is sorted by.
pub fn name_of_bucket(users: &Vec<User>, key: Option<i64>) -> (name: String)
    ensures
        name@ == bucket_name(users@, key),
{
    match key {
        None => String::from_str("unassigned"),
        Some(id) => match find_user_by_id(users, id) {
            Some(p) => users[p].name.clone(),
            None => {
                let mut name = String::from_str("user_");
                let digits = format_int(id as i128);
                name.append(digits.as_str());
                name
            },
        },
    }
}

/// The name a bucket is shown under.
pub fn display_of_bucket(users: &Vec<User>, key: Option<i64>) -> (name: String)
    ensures
        name@ == bucket_display(users@, key),
{
    match key {
        None => String::from_str("unassigned"),
        Some(id) => match find_user_by_id(users, id) {
            Some(p) => users[p].label(),
            None => {
                let mut name = String::from_str("Unknown (");
                let digits = format_int(id as i128);
                name.append(digits.as_str());
                name.append(")");
                name
            },
        },
    }
}

/// Whether row `a` comes before row `b`.
pub fn row_before(a: &UserStats, b: &UserStats) -> (before: bool)
    ensures
        before == team_before(*a, *b),
{
    if a.user_id.is_none() && b.user_id.is_some() {
        false
    } else if a.user_id.is_some() && b.user_id.is_none() {
        true
    } else {
        name_precedes(a.user_name.as_str(), b.user_name.as_str())
    }
}

/// What holds of the rows once the first `k` keys are dealt with.
spec fn team_progress(
    users: Seq<User>,
    tasks: Seq<TaskRecord>,
    keys: Seq<Option<i64>>,
    k: int,
    rows: Seq<UserStats>,
) -> bool {
    &&& 0 <= k <= keys.len()
    &&& forall|i: int|
        0 <= i < rows.len() ==> (#[trigger] rows[i]).describes(users, tasks) && rows[i].spec_total()
            > 0
    &&& forall|i: int|
        0 <= i < rows.len() ==> keys.take(k).contains((#[trigger] rows[i]).user_id)
    &&& distinct_buckets(rows)
    &&& forall|j: int|
        0 <= j < k && open_count_of(tasks, keys[j]) + done_count_of(tasks, keys[j]) > 0
            ==> has_bucket(rows, #[trigger] keys[j])
    &&& in_team_order(rows)
}

/// A key without open or finished tasks leaves the rows as they are.
proof fn lemma_team_skip(
    users: Seq<User>,
    tasks: Seq<TaskRecord>,
    keys: Seq<Option<i64>>,
    k: int,
    rows: Seq<UserStats>,
)
    requires
        team_progress(users, tasks, keys, k, rows),
        k < keys.len(),
        open_count_of(tasks, keys[k]) + done_count_of(tasks, keys[k]) == 0,
    ensures
        team_progress(users, tasks, keys, k + 1, rows),
{
    assert forall|i: int| 0 <= i < rows.len() implies keys.take(k + 1).contains(
        (#[trigger] rows[i]).user_id,
    ) by {
        let w = choose|w: int| 0 <= w < keys.take(k).len() && keys.take(k)[w] == rows[i].user_id;
        assert(keys.take(k + 1)[w] == rows[i].user_id);
    }
}

/// A new row, put before the first row that it comes before, keeps the rows
/// in order.
proof fn lemma_insert_keeps_order(rows: Seq<UserStats>, p: int, row: UserStats)
    requires
        in_team_order(rows),
        0 <= p <= rows.len(),
        forall|q: int| 0 <= q < p ==> !team_before(row, #[trigger] rows[q]),
        p < rows.len() ==> team_before(row, rows[p]),
    ensures
        in_team_order(rows.insert(p, row)),
{
    let next = rows.insert(p, row);
    assert forall|i: int, j: int| 0 <= i < j < next.len() implies !team_before(
        #[trigger] next[j],
        #[trigger] next[i],
    ) by {
        let oi = if i < p {
            i
        } else {
            i - 1
        };
        let oj = if j < p {
            j
        } else {
            j - 1
        };
        if j == p {
            assert(next[i] == rows[oi]);
        } else if i == p {
            assert(next[j] == rows[oj]);
            if team_before(rows[oj], row) {
                if oj == p {
                    lemma_team_before_asymmetric(rows[oj], row);
                } else {
                    lemma_team_before_transitive(rows[oj], row, rows[p]);
                    assert(!team_before(rows[oj], rows[p]));
                }
            }
        } else {
            assert(next[i] == rows[oi]);
            assert(next[j] == rows[oj]);
        }
    }
}

/// A new row, put before the first row that it comes before, keeps the rows
/// in order and adds the bucket of its key.
proof fn lemma_team_insert(
    users: Seq<User>,
    tasks: Seq<TaskRecord>,
    keys: Seq<Option<i64>>,
    k: int,
    rows: Seq<UserStats>,
    p: int,
    row: UserStats,
)
    requires
        team_progress(users, tasks, keys, k, rows),
        k < keys.len(),
        forall|i: int, j: int| 0 <= i < j < keys.len() ==> keys[i] != keys[j],
        row.user_id == keys[k],
        row.describes(users, tasks),
        row.spec_total() > 0,
        0 <= p <= rows.len(),
        forall|q: int| 0 <= q < p ==> !team_before(row, #[trigger] rows[q]),
        p < rows.len() ==> team_before(row, rows[p]),
    ensures
        team_progress(users, tasks, keys, k + 1, rows.insert(p, row)),
{
    let next = rows.insert(p, row);
    assert forall|i: int| 0 <= i < next.len() implies keys.take(k + 1).contains(
        (#[trigger] next[i]).user_id,
    ) by {
        if i == p {
            assert(keys.take(k + 1)[k] == row.user_id);
        } else {
            let o = if i < p {
                i
            } else {
                i - 1
            };
            assert(next[i] == rows[o]);
            let w = choose|w: int|
                0 <= w < keys.take(k).len() && keys.take(k)[w] == rows[o].user_id;
            assert(keys.take(k + 1)[w] == rows[o].user_id);
        }
    }
    assert forall|i: int| 0 <= i < rows.len() implies (#[trigger] rows[i]).user_id != row.user_id by {
        let w = choose|w: int| 0 <= w < keys.take(k).len() && keys.take(k)[w] == rows[i].user_id;
        assert(keys[w] != keys[k]);
    }
    assert(distinct_buckets(next)) by {
        assert forall|i: int, j: int| 0 <= i < j < next.len() implies (#[trigger] next[i]).user_id != (
        #[trigger] next[j]).user_id by {
            let oi = if i < p {
                i
            } else {
                i - 1
            };
            let oj = if j < p {
                j
            } else {
                j - 1
            };
            if i == p {
                assert(next[j] == rows[oj]);
            } else if j == p {
                assert(next[i] == rows[oi]);
            } else {
                assert(next[i] == rows[oi]);
                assert(next[j] == rows[oj]);
            }
        }
    }
    assert forall|j: int|
        0 <= j < k + 1 && open_count_of(tasks, keys[j]) + done_count_of(tasks, keys[j])
            > 0 implies has_bucket(next, #[trigger] keys[j]) by {
        if j == k {
            assert(next[p].user_id == keys[j]);
        } else {
            let w = choose|w: int| 0 <= w < rows.len() && (#[trigger] rows[w]).user_id == keys[j];
            let n = if w < p {
                w
            } else {
                w + 1
            };
            assert(next[n] == rows[w]);
            assert(next[n].user_id == keys[j]);
        }
    }
    lemma_insert_keeps_order(rows, p, row);
    assert forall|i: int| 0 <= i < next.len() implies (#[trigger] next[i]).describes(users, tasks)
        && next[i].spec_total() > 0 by {
        if i != p {
            let o = if i < p {
                i
            } else {
                i - 1
            };
            assert(next[i] == rows[o]);
        }
    }
}

/// The rows of the team report over a snapshot of the directory and of the
/// tasks.
///
/// Every task counts under its assignee, whatever its status; only open and
/// finished tasks are counted, and an assignee without any is left out.
pub fn team_rows(users: &Vec<User>, tasks: &Vec<TaskRecord>) -> (rows: Vec<UserStats>)
    ensures
        is_team_report(users@, tasks@, rows@),
{
    let keys = assignee_keys(tasks);
    let mut rows: Vec<UserStats> = Vec::new();
    let mut k: usize = 0;
    while k < keys.len()
        invariant
            team_progress(users@, tasks@, keys@, k as int, rows@),
            forall|i: int, j: int| 0 <= i < j < keys.len() ==> keys@[i] != keys@[j],
        decreases keys.len() - k,
    {
        let key = keys[k];
        let open_count = count_open_for(tasks, key);
        let done_count = count_done_for(tasks, key);
        if open_count > 0 || done_count > 0 {
            let row = UserStats {
                user_id: key,
                user_name: name_of_bucket(users, key),
                display_name: display_of_bucket(users, key),
                open_count,
                done_count,
            };
            let mut p: usize = 0;
            while p < rows.len() && !row_before(&row, &rows[p])
                invariant
                    p <= rows.len(),
                    forall|q: int| 0 <= q < p ==> !team_before(row, #[trigger] rows@[q]),
                decreases rows.len() - p,
            {
                p = p + 1;
            }
            proof {
                lemma_team_insert(users@, tasks@, keys@, k as int, rows@, p as int, row);
            }
            rows.insert(p, row);
        } else {
            proof {
                lemma_team_skip(users@, tasks@, keys@, k as int, rows@);
            }
        }
        k = k + 1;
    }
    proof {
        assert forall|key: Option<i64>|
            open_count_of(tasks@, key) + done_count_of(tasks@, key) > 0 implies #[trigger] has_bucket(
            rows@,
            key,
        ) by {
            let t = if open_count_of(tasks@, key) > 0 {
                lemma_count_witness(tasks@, open_for(key))
            } else {
                lemma_count_witness(tasks@, done_for(key))
            };
            assert(tasks@[t].assignee_id == key);
            assert(keys@.contains(tasks@[t].assignee_id));
            let j = choose|j: int| 0 <= j < keys@.len() && keys@[j] == key;
            assert(has_bucket(rows@, keys@[j]));
        }
    }
    rows
}

/// The condition "open".
pub open spec fn any_open() -> spec_fn(TaskRecord) -> bool {
    |t: TaskRecord| is_open_code(t.status as int)
}

/// The condition "finished".
pub open spec fn any_done() -> spec_fn(TaskRecord) -> bool {
    |t: TaskRecord| is_done_code(t.status as int)
}

/// The team report: its rows and the grand totals.
#[derive(Clone, Debug, PartialEq, Eq)]
pub struct TeamReport {
    /// One row for each assignee with an open or finished task.
    pub rows: Vec<UserStats>,
    /// The number of open tasks: the sum of the rows' open tasks.
    pub total_open: u64,
    /// The number of finished tasks: the sum of the rows' finished tasks.
    pub total_done: u64,
}

impl TeamReport {
    /// Whether this is the team report over `users` and `tasks`.
    pub open spec fn describes(self, users: Seq<User>, tasks: Seq<TaskRecord>) -> bool {
        &&& is_team_report(users, tasks, self.rows@)
        &&& self.total_open == sum_open(self.rows@)
        &&& self.total_done == sum_done(self.rows@)
        &&& self.total_open == count_where(tasks, any_open())
        &&& self.total_done == count_where(tasks, any_done())
    }

    /// The number of tasks in the report, open and finished.
    pub open spec fn spec_total(self) -> int {
        self.total_open + self.total_done
    }

    /// The number of tasks in the report, open and finished.
    pub fn total(&self) -> (n: i128)
        ensures
            n == self.spec_total(),
    {
        self.total_open as i128 + self.total_done as i128
    }
}

/// The number of open tasks among `tasks`.
pub fn count_open(tasks: &Vec<TaskRecord>) -> (n: u64)
    ensures
        n == count_where(tasks@, any_open()),
{
    let mut n: u64 = 0;
    let mut i: usize = 0;
    while i < tasks.len()
        invariant
            i <= tasks.len(),
            n == count_where(tasks@.take(i as int), any_open()),
            n <= i,
        decreases tasks.len() - i,
    {
        proof {
            lemma_count_step(tasks@, any_open(), i as int);
        }
        if is_open(tasks[i].status) {
            n = n + 1;
        }
        i = i + 1;
    }
    proof {
        assert(tasks@.take(i as int) =~= tasks@);
    }
    n
}

/// The number of finished tasks among `tasks`.
pub fn count_done(tasks: &Vec<TaskRecord>) -> (n: u64)
    ensures
        n == count_where(tasks@, any_done()),
{
    let mut n: u64 = 0;
    let mut i: usize = 0;
    while i < tasks.len()
        invariant
            i <= tasks.len(),
            n == count_where(tasks@.take(i as int), any_done()),
            n <= i,
        decreases tasks.len() - i,
    {
        proof {
            lemma_count_step(tasks@, any_done(), i as int);
        }
        if is_done(tasks[i].status) {
            n = n + 1;
        }
        i = i + 1;
    }
    proof {
        assert(tasks@.take(i as int) =~= tasks@);
    }
    n
}

/// The team report over a snapshot of the directory and of the tasks.
pub fn team_report(users: &Vec<User>, tasks: &Vec<TaskRecord>) -> (report: TeamReport)
    ensures
        report.describes(users@, tasks@),
{
    let rows = team_rows(users, tasks);
    proof {
        lemma_team_rows_add_up(users@, tasks@, rows@);
    }
    TeamReport { rows, total_open: count_open(tasks), total_done: count_done(tasks) }
}

/// The sum of the rows' counts of open tasks.
pub open spec fn sum_open(rows: Seq<UserStats>) -> int
    decreases rows.len(),
{
    if rows.len() == 0 {
        0
    } else {
        sum_open(rows.drop_last()) + rows.last().open_count
    }
}

/// The sum of the rows' counts of finished tasks.
pub open spec fn sum_done(rows: Seq<UserStats>) -> int
    decreases rows.len(),
{
    if rows.len() == 0 {
        0
    } else {
        sum_done(rows.drop_last()) + rows.last().done_count
    }
}

/// The condition "of the wanted kind, and some row is the bucket of its
/// assignee".
spec fn counted_in(rows: Seq<UserStats>, open: bool) -> spec_fn(TaskRecord) -> bool {
    |t: TaskRecord|
        has_bucket(rows, t.assignee_id) && if open {
            is_open_code(t.status as int)
        } else {
            is_done_code(t.status as int)
        }
}

/// The condition "assigned to `key` and of the wanted kind".
spec fn counted_for(key: Option<i64>, open: bool) -> spec_fn(TaskRecord) -> bool {
    if open {
        open_for(key)
    } else {
        done_for(key)
    }
}

/// The sum of the rows' counts of the wanted kind.
spec fn sum_counted(rows: Seq<UserStats>, open: bool) -> int {
    if open {
        sum_open(rows)
    } else {
        sum_done(rows)
    }
}

/// Rows of different assignees that each count the tasks of their assignee
/// count, taken together, the tasks of all their assignees, each once.
proof fn lemma_rows_partition(tasks: Seq<TaskRecord>, rows: Seq<UserStats>, open: bool)
    requires
        distinct_buckets(rows),
        forall|i: int|
            0 <= i < rows.len() ==> (#[trigger] rows[i]).open_count == open_count_of(
                tasks,
                rows[i].user_id,
            ) && rows[i].done_count == done_count_of(tasks, rows[i].user_id),
    ensures
        sum_counted(rows, open) == count_where(tasks, counted_in(rows, open)),
    decreases rows.len(),
{
    if rows.len() == 0 {
        assert forall|i: int| 0 <= i < tasks.len() implies !counted_in(rows, open)(
            #[trigger] tasks[i],
        ) by {}
        crate::task::lemma_count_none(tasks, counted_in(rows, open));
    } else {
        let front = rows.drop_last();
        let last = rows.last();
        assert forall|i: int| 0 <= i < front.len() implies (#[trigger] front[i]).open_count
            == open_count_of(tasks, front[i].user_id) && front[i].done_count == done_count_of(
            tasks,
            front[i].user_id,
        ) by {
            assert(front[i] == rows[i]);
        }
        assert(distinct_buckets(front)) by {
            assert forall|i: int, j: int| 0 <= i < j < front.len() implies (
            #[trigger] front[i]).user_id != (#[trigger] front[j]).user_id by {
                assert(front[i] == rows[i]);
                assert(front[j] == rows[j]);
            }
        }
        lemma_rows_partition(tasks, front, open);
        assert(!has_bucket(front, last.user_id)) by {
            if has_bucket(front, last.user_id) {
                let w = choose|w: int|
                    0 <= w < front.len() && (#[trigger] front[w]).user_id == last.user_id;
                assert(front[w] == rows[w]);
                assert(rows[w].user_id != rows[rows.len() - 1].user_id);
            }
        }
        assert forall|key: Option<i64>| has_bucket(rows, key) == (has_bucket(front, key) || key
            == last.user_id) by {
            if has_bucket(rows, key) {
                let w = choose|w: int| 0 <= w < rows.len() && (#[trigger] rows[w]).user_id == key;
                if w < front.len() {
                    assert(front[w] == rows[w]);
                }
            }
            if has_bucket(front, key) {
                let w = choose|w: int| 0 <= w < front.len() && (#[trigger] front[w]).user_id == key;
                assert(front[w] == rows[w]);
            }
            if key == last.user_id {
                assert(rows[rows.len() - 1].user_id == key);
            }
        }
        assert forall|i: int| 0 <= i < tasks.len() implies counted_in(rows, open)(
            #[trigger] tasks[i],
        ) == (counted_in(front, open)(tasks[i]) || counted_for(last.user_id, open)(tasks[i])) by {
            let key = tasks[i].assignee_id;
            assert(has_bucket(rows, key) == (has_bucket(front, key) || key == last.user_id));
        }
        lemma_count_disjoint(
            tasks,
            counted_in(front, open),
            counted_for(last.user_id, open),
            counted_in(rows, open),
        );
        assert(rows[rows.len() - 1].open_count == open_count_of(tasks, last.user_id));
    }
}

/// In a team report every open and every finished task is counted in
/// exactly one row: the rows' counts add up to the number of open and of
/// finished tasks among all tasks.
pub proof fn lemma_team_rows_add_up(users: Seq<User>, tasks: Seq<TaskRecord>, rows: Seq<UserStats>)
    requires
        is_team_report(users, tasks, rows),
    ensures
        sum_open(rows) == count_where(tasks, any_open()),
        sum_done(rows) == count_where(tasks, any_done()),
{
    assert forall|i: int| 0 <= i < rows.len() implies (#[trigger] rows[i]).open_count
        == open_count_of(tasks, rows[i].user_id) && rows[i].done_count == done_count_of(
        tasks,
        rows[i].user_id,
    ) by {
        assert(rows[i].describes(users, tasks));
    }
    lemma_rows_partition(tasks, rows, true);
    lemma_rows_partition(tasks, rows, false);
    assert forall|i: int| 0 <= i < tasks.len() implies counted_in(rows, true)(#[trigger] tasks[i])
        == any_open()(tasks[i]) by {
        if any_open()(tasks[i]) {
            lemma_count_positive(tasks, open_for(tasks[i].assignee_id), i);
            assert(has_bucket(rows, tasks[i].assignee_id));
        }
    }
    lemma_count_congruent(tasks, counted_in(rows, true), any_open());
    assert forall|i: int| 0 <= i < tasks.len() implies counted_in(rows, false)(#[trigger] tasks[i])
        == any_done()(tasks[i]) by {
        if any_done()(tasks[i]) {
            lemma_count_positive(tasks, done_for(tasks[i].assignee_id), i);
            assert(has_bucket(rows, tasks[i].assignee_id));
        }
    }
    lemma_count_congruent(tasks, counted_in(rows, false), any_done());
}

} // verus!
