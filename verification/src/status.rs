//! Task status codes as they are stored, and their classification.

use vstd::prelude::*;

verus! {

/// Stored code of a task that is being worked on.
pub const STATUS_ONGOING: i64 = 0;

/// Stored code of a finished task.
pub const STATUS_DONE: i64 = 1;

/// Stored code of a cancelled task.
pub const STATUS_CANCELLED: i64 = 2;

/// Stored code of a suspended task.
pub const STATUS_SUSPENDED: i64 = 4;

/// Stored code of a task that waits to be started.
pub const STATUS_PENDING: i64 = 6;

/// How a report counts a task.
#[derive(Clone, Copy, Debug, PartialEq, Eq, Structural)]
pub enum StatusClass {
    /// Ongoing, suspended or pending.
    Open,
    /// Finished.
    Done,
    /// Cancelled, or a code that is not recognised: counted nowhere.
    Excluded,
}

/// A status code is open when it is ongoing, suspended or pending.
pub open spec fn is_open_code(code: int) -> bool {
    code == 0 || code == 4 || code == 6
}

/// A status code is done when it is the code of a finished task.
pub open spec fn is_done_code(code: int) -> bool {
    code == 1
}

/// The class of a status code.
pub open spec fn spec_classify(code: int) -> StatusClass {
    if is_done_code(code) {
        StatusClass::Done
    } else if is_open_code(code) {
        StatusClass::Open
    } else {
        StatusClass::Excluded
    }
}

/// Classifies a stored status code.
pub fn classify_status(code: i64) -> (class: StatusClass)
    ensures
        class == spec_classify(code as int),
{
    if code == STATUS_DONE {
        StatusClass::Done
    } else if code == STATUS_ONGOING || code == STATUS_SUSPENDED || code == STATUS_PENDING {
        StatusClass::Open
    } else {
        StatusClass::Excluded
    }
}

/// Whether a stored status code is open.
pub fn is_open(code: i64) -> (open: bool)
    ensures
        open == is_open_code(code as int),
{
    code == STATUS_ONGOING || code == STATUS_SUSPENDED || code == STATUS_PENDING
}

/// Whether a stored status code is done.
pub fn is_done(code: i64) -> (done: bool)
    ensures
        done == is_done_code(code as int),
{
    code == STATUS_DONE
}

} // verus!
