//! The failures of the directory operations.

use crate::text::{decimal, format_int};
use vstd::prelude::*;
use vstd::string::*;

verus! {

/// What an operation was about when it failed.
#[derive(Clone, Debug, PartialEq, Eq)]
pub enum Subject {
    /// The user of this name.
    User(String),
    /// The namespace of this name.
    Namespace(String),
    /// The membership of a user in a namespace.
    Membership { user: String, namespace: String },
}

/// A `Subject` by the characters of its names.
pub ghost enum SubjectView {
    User(Seq<char>),
    Namespace(Seq<char>),
    Membership { user: Seq<char>, namespace: Seq<char> },
}

impl View for Subject {
    type V = SubjectView;

    open spec fn view(&self) -> SubjectView {
        match self {
            Subject::User(name) => SubjectView::User(name@),
            Subject::Namespace(name) => SubjectView::Namespace(name@),
            Subject::Membership { user, namespace } => SubjectView::Membership {
                user: user@,
                namespace: namespace@,
            },
        }
    }
}

/// Why a directory operation failed.
#[derive(Clone, Debug, PartialEq, Eq)]
pub enum DirectoryError {
    /// Nothing of that name exists.
    NotFound(Subject),
    /// The name is taken.
    AlreadyExists(Subject),
    /// The default namespace cannot be deleted.
    Protected,
    /// Tasks still refer to what was to be deleted; the count says how many.
    InUse(Subject, i64),
    /// The removal would leave the namespace without an owner.
    LastOwner { user: String, namespace: String },
    /// The role is none of owner, admin, member and viewer.
    InvalidRole(String),
    /// The storage engine failed; the text is its message.
    Storage(String),
}

/// A `DirectoryError` by the characters of its texts.
pub ghost enum DirectoryErrorView {
    NotFound(SubjectView),
    AlreadyExists(SubjectView),
    Protected,
    InUse(SubjectView, int),
    LastOwner { user: Seq<char>, namespace: Seq<char> },
    InvalidRole(Seq<char>),
    Storage(Seq<char>),
}

impl View for DirectoryError {
    type V = DirectoryErrorView;

    open spec fn view(&self) -> DirectoryErrorView {
        match self {
            DirectoryError::NotFound(s) => DirectoryErrorView::NotFound(s@),
            DirectoryError::AlreadyExists(s) => DirectoryErrorView::AlreadyExists(s@),
            DirectoryError::Protected => DirectoryErrorView::Protected,
            DirectoryError::InUse(s, n) => DirectoryErrorView::InUse(s@, *n as int),
            DirectoryError::LastOwner { user, namespace } => DirectoryErrorView::LastOwner {
                user: user@,
                namespace: namespace@,
            },
            DirectoryError::InvalidRole(r) => DirectoryErrorView::InvalidRole(r@),
            DirectoryError::Storage(m) => DirectoryErrorView::Storage(m@),
        }
    }
}

/// The line that tells a person that something does not exist.
pub open spec fn not_found_text(s: SubjectView) -> Seq<char> {
    match s {
        SubjectView::User(name) => "User '"@ + name + "' not found"@,
        SubjectView::Namespace(name) => "Namespace '"@ + name + "' not found"@,
        SubjectView::Membership { user, namespace } => "User '"@ + user
            + "' is not a member of namespace '"@ + namespace + "'"@,
    }
}

/// The line that tells a person that a name is taken.
pub open spec fn already_exists_text(s: SubjectView) -> Seq<char> {
    match s {
        SubjectView::User(name) => "User '"@ + name + "' already exists"@,
        SubjectView::Namespace(name) => "Namespace '"@ + name + "' already exists"@,
        SubjectView::Membership { user, namespace } => "User '"@ + user
            + "' is already a member of namespace '"@ + namespace + "'"@,
    }
}

/// The line that tells a person that tasks stand in the way of a deletion.
pub open spec fn in_use_text(s: SubjectView, count: int) -> Seq<char> {
    match s {
        SubjectView::User(name) => "Cannot delete user '"@ + name + "': has "@ + decimal(count)
            + " associated task(s). Reassign or delete tasks first."@,
        SubjectView::Namespace(name) => "Cannot delete namespace '"@ + name + "': has "@ + decimal(
            count,
        ) + " task(s). Move or delete tasks first."@,
        SubjectView::Membership { user, namespace } => "Cannot remove '"@ + user + "' from '"@
            + namespace + "': has "@ + decimal(count) + " task(s)."@,
    }
}

impl DirectoryErrorView {
    /// The line that tells a person what went wrong.
    pub open spec fn message(self) -> Seq<char> {
        match self {
            DirectoryErrorView::NotFound(s) => not_found_text(s),
            DirectoryErrorView::AlreadyExists(s) => already_exists_text(s),
            DirectoryErrorView::Protected => "Cannot delete the 'default' namespace"@,
            DirectoryErrorView::InUse(s, count) => in_use_text(s, count),
            DirectoryErrorView::LastOwner { user, namespace } => "Cannot remove '"@ + user
                + "' from '"@ + namespace
                + "': they are the only owner. Assign another owner first."@,
            DirectoryErrorView::InvalidRole(role) => "Invalid role '"@ + role
                + "'. Must be one of: owner, admin, member, viewer"@,
            DirectoryErrorView::Storage(text) => text,
        }
    }
}

/// The line for something that does not exist.
fn describe_not_found(s: &Subject) -> (text: String)
    ensures
        text@ == not_found_text(s@),
{
    let mut text = String::from_str("User '");
    match s {
        Subject::User(name) => {
            text.append(name.as_str());
            text.append("' not found");
        },
        Subject::Namespace(name) => {
            text = String::from_str("Namespace '");
            text.append(name.as_str());
            text.append("' not found");
        },
        Subject::Membership { user, namespace } => {
            text.append(user.as_str());
            text.append("' is not a member of namespace '");
            text.append(namespace.as_str());
            text.append("'");
        },
    }
    text
}

/// The line for a name that is taken.
fn describe_already_exists(s: &Subject) -> (text: String)
    ensures
        text@ == already_exists_text(s@),
{
    let mut text = String::from_str("User '");
    match s {
        Subject::User(name) => {
            text.append(name.as_str());
            text.append("' already exists");
        },
        Subject::Namespace(name) => {
            text = String::from_str("Namespace '");
            text.append(name.as_str());
            text.append("' already exists");
        },
        Subject::Membership { user, namespace } => {
            text.append(user.as_str());
            text.append("' is already a member of namespace '");
            text.append(namespace.as_str());
            text.append("'");
        },
    }
    text
}

/// The line for a deletion that tasks stand in the way of.
fn describe_in_use(s: &Subject, count: i64) -> (text: String)
    ensures
        text@ == in_use_text(s@, count as int),
{
    let digits = format_int(count as i128);
    let mut text = String::from_str("Cannot delete user '");
    match s {
        Subject::User(name) => {
            text.append(name.as_str());
            text.append("': has ");
            text.append(digits.as_str());
            text.append(" associated task(s). Reassign or delete tasks first.");
        },
        Subject::Namespace(name) => {
            text = String::from_str("Cannot delete namespace '");
            text.append(name.as_str());
            text.append("': has ");
            text.append(digits.as_str());
            text.append(" task(s). Move or delete tasks first.");
        },
        Subject::Membership { user, namespace } => {
            text = String::from_str("Cannot remove '");
            text.append(user.as_str());
            text.append("' from '");
            text.append(namespace.as_str());
            text.append("': has ");
            text.append(digits.as_str());
            text.append(" task(s).");
        },
    }
    text
}

impl DirectoryError {
    /// The line that tells a person what went wrong.
    pub fn message(&self) -> (text: String)
        ensures
            text@ == self@.message(),
    {
        match self {
            DirectoryError::NotFound(s) => describe_not_found(s),
            DirectoryError::AlreadyExists(s) => describe_already_exists(s),
            DirectoryError::Protected => String::from_str("Cannot delete the 'default' namespace"),
            DirectoryError::InUse(s, count) => describe_in_use(s, *count),
            DirectoryError::LastOwner { user, namespace } => {
                let mut text = String::from_str("Cannot remove '");
                text.append(user.as_str());
                text.append("' from '");
                text.append(namespace.as_str());
                text.append("': they are the only owner. Assign another owner first.");
                text
            },
            DirectoryError::InvalidRole(role) => {
                let mut text = String::from_str("Invalid role '");
                text.append(role.as_str());
                text.append("'. Must be one of: owner, admin, member, viewer");
                text
            },
            DirectoryError::Storage(text) => text.clone(),
        }
    }
}

/// Whether `e` is a failure that the creation of `subject` can end in: the
/// name is taken, or the storage engine failed.
pub open spec fn can_fail_creation(subject: SubjectView, e: DirectoryError) -> bool {
    e@ == DirectoryErrorView::AlreadyExists(subject) || e is Storage
}

/// Whether `e` is a failure that the deletion of `subject` can end in:
/// there is nothing of that name, tasks refer to it, or the storage engine
/// failed.
pub open spec fn can_fail_deletion(subject: SubjectView, e: DirectoryError) -> bool {
    e@ == DirectoryErrorView::NotFound(subject) || (e matches DirectoryError::InUse(s, count)
        && s@ == subject && count > 0) || e is Storage
}

/// The result of an operation, with its failure by the characters of its
/// texts.
pub open spec fn outcome<T>(result: Result<T, DirectoryError>) -> Result<T, DirectoryErrorView> {
    match result {
        Ok(value) => Ok(value),
        Err(e) => Err(e@),
    }
}

/// What a lookup that has to find something comes to: what was found, or
/// the failure that says that `subject` does not exist.
pub open spec fn presence_of<T>(found: Option<T>, subject: SubjectView) -> Result<
    T,
    DirectoryErrorView,
> {
    match found {
        Some(value) => Ok(value),
        None => Err(DirectoryErrorView::NotFound(subject)),
    }
}

/// What a lookup that has to find something comes to.
pub fn require_found<T>(found: Option<T>, subject: Subject) -> (result: Result<T, DirectoryError>)
    ensures
        outcome(result) == presence_of(found, subject@),
{
    match found {
        Some(value) => Ok(value),
        None => Err(DirectoryError::NotFound(subject)),
    }
}

} // verus!
