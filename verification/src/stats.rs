//! The stats report: completion, overdue and priority figures over a
//! lookback window, and the number of tasks in each status.

use crate::clock::epoch_seconds;
use crate::status::{
    is_open, is_open_code, STATUS_CANCELLED, STATUS_DONE, STATUS_ONGOING, STATUS_PENDING,
    STATUS_SUSPENDED,
};
use crate::task::{count_where, lemma_count_step, TaskRecord};
use vstd::prelude::*;

verus! {

/// The first moment of a window of `days` days that ends at `now`. A day has
/// 86400 seconds, whatever the time zone.
pub open spec fn window_start(now: int, days: int) -> int {
    now - days * 86400
}

/// The condition "created within the window".
pub open spec fn created_within(now: int, days: int) -> spec_fn(TaskRecord) -> bool {
    |t: TaskRecord| t.create_time >= window_start(now, days)
}

/// The condition "created within the window and finished".
pub open spec fn completed_within(now: int, days: int) -> spec_fn(TaskRecord) -> bool {
    |t: TaskRecord| t.status == 1 && t.create_time >= window_start(now, days)
}

/// The condition "open and due before `now`".
pub open spec fn overdue_at(now: int) -> spec_fn(TaskRecord) -> bool {
    |t: TaskRecord|
        is_open_code(t.status as int) && t.target_time.is_some() && t.target_time.unwrap() < now
}

/// The condition "open and of the highest urgency".
pub open spec fn urgent() -> spec_fn(TaskRecord) -> bool {
    |t: TaskRecord| is_open_code(t.status as int) && t.priority == Some(0i64)
}

/// The condition "has this status code".
pub open spec fn with_status(code: i64) -> spec_fn(TaskRecord) -> bool {
    |t: TaskRecord| t.status == code
}

/// The share of `completed` in `created` as a whole percentage, rounded
/// down; 0 where nothing was created.
pub open spec fn completion_rate_of(completed: nat, created: nat) -> nat {
    if created == 0 {
        0
    } else {
        (completed * 100) / created
    }
}

/// The figures of the stats report.
#[derive(Clone, Copy, Debug, PartialEq, Eq, Structural)]
pub struct StatsReport {
    /// The length of the window in days.
    pub period_days: i64,
    /// Tasks created within the window.
    pub created: u64,
    /// Tasks created within the window that are finished.
    pub completed: u64,
    /// `completed` as a percentage of `created`, rounded down.
    pub completion_rate: u64,
    /// Open tasks whose due date has passed.
    pub overdue: u64,
    /// Open tasks of the highest urgency.
    pub high_priority: u64,
    /// Tasks that are being worked on.
    pub ongoing: u64,
    /// Tasks that wait to be started.
    pub pending: u64,
    /// Suspended tasks.
    pub suspended: u64,
    /// Finished tasks.
    pub done: u64,
    /// Cancelled tasks.
    pub cancelled: u64,
}

impl StatsReport {
    /// Whether these are the figures of `tasks` for a window of `days` days
    /// that ends at `now`.
    pub open spec fn describes(self, tasks: Seq<TaskRecord>, days: int, now: int) -> bool {
        &&& self.period_days == days
        &&& self.created == count_where(tasks, created_within(now, days))
        &&& self.completed == count_where(tasks, completed_within(now, days))
        &&& self.completion_rate == completion_rate_of(self.completed as nat, self.created as nat)
        &&& self.overdue == count_where(tasks, overdue_at(now))
        &&& self.high_priority == count_where(tasks, urgent())
        &&& self.ongoing == count_where(tasks, with_status(0))
        &&& self.pending == count_where(tasks, with_status(6))
        &&& self.suspended == count_where(tasks, with_status(4))
        &&& self.done == count_where(tasks, with_status(1))
        &&& self.cancelled == count_where(tasks, with_status(2))
    }
}

/// A count under a condition is at most the count under a weaker one.
pub proof fn lemma_count_monotone(
    tasks: Seq<TaskRecord>,
    narrow: spec_fn(TaskRecord) -> bool,
    wide: spec_fn(TaskRecord) -> bool,
)
    requires
        forall|t: TaskRecord| #[trigger] narrow(t) ==> wide(t),
    ensures
        count_where(tasks, narrow) <= count_where(tasks, wide),
    decreases tasks.len(),
{
    if tasks.len() > 0 {
        lemma_count_monotone(tasks.drop_last(), narrow, wide);
    }
}

/// The completion rate is a percentage, and it is 0 where nothing was
/// created within the window: no division by zero takes place.
pub proof fn lemma_completion_rate(tasks: Seq<TaskRecord>, days: int, now: int)
    ensures
        count_where(tasks, completed_within(now, days)) <= count_where(
            tasks,
            created_within(now, days),
        ),
        completion_rate_of(
            count_where(tasks, completed_within(now, days)),
            count_where(tasks, created_within(now, days)),
        ) <= 100,
        count_where(tasks, created_within(now, days)) == 0 ==> completion_rate_of(
            count_where(tasks, completed_within(now, days)),
            count_where(tasks, created_within(now, days)),
        ) == 0,
{
    lemma_count_monotone(tasks, completed_within(now, days), created_within(now, days));
    let completed = count_where(tasks, completed_within(now, days));
    let created = count_where(tasks, created_within(now, days));
    if created > 0 {
        assert((completed * 100) / created <= 100) by (nonlinear_arith)
            requires
                completed <= created,
                created > 0,
        ;
    }
}

/// The share of `completed` in `created` as a whole percentage.
pub fn completion_rate(completed: u64, created: u64) -> (rate: u64)
    requires
        completed <= created,
    ensures
        rate == completion_rate_of(completed as nat, created as nat),
        rate <= 100,
{
    if created == 0 {
        0
    } else {
        let scaled: u128 = (completed as u128) * 100;
        let rate: u128 = scaled / (created as u128);
        proof {
            let c = completed as int;
            let d = created as int;
            assert((c * 100) / d <= 100) by (nonlinear_arith)
                requires
                    0 <= c <= d,
                    d > 0,
            ;
        }
        rate as u64
    }
}

/// The stats report over `tasks` for a window of `days` days that ends at
/// `now`.
pub fn stats_report(tasks: &Vec<TaskRecord>, days: i64, now: i64) -> (report: StatsReport)
    ensures
        report.describes(tasks@, days as int, now as int),
{
    let span: i128 = (days as i128) * 86400;
    let start: i128 = (now as i128) - span;
    let mut created: u64 = 0;
    let mut completed: u64 = 0;
    let mut overdue: u64 = 0;
    let mut high_priority: u64 = 0;
    let mut ongoing: u64 = 0;
    let mut pending: u64 = 0;
    let mut suspended: u64 = 0;
    let mut done: u64 = 0;
    let mut cancelled: u64 = 0;
    let ghost d = days as int;
    let ghost n = now as int;
    let mut i: usize = 0;
    while i < tasks.len()
        invariant
            i <= tasks.len(),
            start == window_start(n, d),
            d == days,
            n == now,
            created == count_where(tasks@.take(i as int), created_within(n, d)),
            completed == count_where(tasks@.take(i as int), completed_within(n, d)),
            overdue == count_where(tasks@.take(i as int), overdue_at(n)),
            high_priority == count_where(tasks@.take(i as int), urgent()),
            ongoing == count_where(tasks@.take(i as int), with_status(0)),
            pending == count_where(tasks@.take(i as int), with_status(6)),
            suspended == count_where(tasks@.take(i as int), with_status(4)),
            done == count_where(tasks@.take(i as int), with_status(1)),
            cancelled == count_where(tasks@.take(i as int), with_status(2)),
            created <= i,
            completed <= i,
            overdue <= i,
            high_priority <= i,
            ongoing <= i,
            pending <= i,
            suspended <= i,
            done <= i,
            cancelled <= i,
        decreases tasks.len() - i,
    {
        proof {
            lemma_count_step(tasks@, created_within(n, d), i as int);
            lemma_count_step(tasks@, completed_within(n, d), i as int);
            lemma_count_step(tasks@, overdue_at(n), i as int);
            lemma_count_step(tasks@, urgent(), i as int);
            lemma_count_step(tasks@, with_status(0), i as int);
            lemma_count_step(tasks@, with_status(6), i as int);
            lemma_count_step(tasks@, with_status(4), i as int);
            lemma_count_step(tasks@, with_status(1), i as int);
            lemma_count_step(tasks@, with_status(2), i as int);
        }
        let task = &tasks[i];
        let recent = (task.create_time as i128) >= start;
        let open = is_open(task.status);
        if recent {
            created = created + 1;
            if task.status == STATUS_DONE {
                completed = completed + 1;
            }
        }
        if open {
            match task.target_time {
                Some(due) => {
                    if due < now {
                        overdue = overdue + 1;
                    }
                },
                None => {},
            }
            match task.priority {
                Some(level) => {
                    if level == 0 {
                        high_priority = high_priority + 1;
                    }
                },
                None => {},
            }
        }
        if task.status == STATUS_ONGOING {
            ongoing = ongoing + 1;
        } else if task.status == STATUS_PENDING {
            pending = pending + 1;
        } else if task.status == STATUS_SUSPENDED {
            suspended = suspended + 1;
        } else if task.status == STATUS_DONE {
            done = done + 1;
        } else if task.status == STATUS_CANCELLED {
            cancelled = cancelled + 1;
        }
        i = i + 1;
    }
    proof {
        assert(tasks@.take(i as int) =~= tasks@);
        lemma_completion_rate(tasks@, d, n);
    }
    StatsReport {
        period_days: days,
        created,
        completed,
        completion_rate: completion_rate(completed, created),
        overdue,
        high_priority,
        ongoing,
        pending,
        suspended,
        done,
        cancelled,
    }
}

/// The stats report over `tasks` for the `days` days that end now.
///
/// The clock decides the end of the window; whatever it gives, the report
/// is the one that `stats_report` computes for it.
pub fn stats_report_now(tasks: &Vec<TaskRecord>, days: i64) -> (report: StatsReport)
    ensures
        exists|now: i64| report.describes(tasks@, days as int, now as int),
{
    let now = epoch_seconds();
    stats_report(tasks, days, now)
}

} // verus!
