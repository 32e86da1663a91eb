//! The user directory.

use vstd::prelude::*;
use crate::clock::epoch_seconds;
use crate::error::{
    can_fail_creation, can_fail_deletion, outcome, require_found, DirectoryError,
    DirectoryErrorView, Subject, SubjectView,
};
use crate::sql::{
    classify_insert_failure, count_of, execute, has_integer, has_optional_integer,
    has_optional_text, has_text, id_params, integer_at, integer_or_null, last_insert_rowid,
    name_params, no_params, optional_integer_at, optional_integer_param, optional_text_at,
    optional_text_param, params_view, query, text_at, text_or_null, text_param, SqlCell, SqlParam,
    SqlParamView,
};
use crate::text::same_text;
use vstd::string::*;

verus! {

/// A user of the tracker. `name` is the key of every lookup.
#[derive(Clone, Debug, PartialEq, Eq)]
pub struct User {
    /// The identifier that other records refer to.
    pub id: i64,
    /// The unique name.
    pub name: String,
    /// The name to show, if one was given.
    pub display_name: Option<String>,
    /// When the user was created, in seconds since the epoch.
    pub created_at: i64,
    /// The user who created this one, if known.
    pub created_by: Option<i64>,
}

impl User {
    /// The name to show for a user: the display name, or the name where none
    /// was given.
    pub open spec fn shown_name(self) -> Seq<char> {
        match self.display_name {
            Some(d) => d@,
            None => self.name@,
        }
    }

    /// The name to show for this user.
    pub fn label(&self) -> (text: String)
        ensures
            text@ == self.shown_name(),
    {
        match &self.display_name {
            Some(d) => d.clone(),
            None => self.name.clone(),
        }
    }
}

/// The position of the user with identifier `id`; where two entries share an
/// identifier, the later one counts.
pub open spec fn position_of_id(users: Seq<User>, id: i64) -> Option<int>
    decreases users.len(),
{
    if users.len() == 0 {
        None
    } else if users.last().id == id {
        Some(users.len() - 1)
    } else {
        position_of_id(users.drop_last(), id)
    }
}

/// What `position_of_id` finds is an entry with that identifier, and no
/// entry has it where nothing is found.
pub proof fn lemma_position_of_id(users: Seq<User>, id: i64)
    ensures
        match position_of_id(users, id) {
            Some(p) => 0 <= p < users.len() && users[p].id == id && forall|j: int|
                p < j < users.len() ==> users[j].id != id,
            None => forall|j: int| 0 <= j < users.len() ==> users[j].id != id,
        },
    decreases users.len(),
{
    if users.len() > 0 && users.last().id != id {
        lemma_position_of_id(users.drop_last(), id);
        assert forall|j: int| 0 <= j < users.len() - 1 implies users[j] == users.drop_last()[j] by {}
    }
}

/// Finds the user with identifier `id`.
pub fn find_user_by_id(users: &Vec<User>, id: i64) -> (found: Option<usize>)
    ensures
        match found {
            Some(p) => p < users.len() && users@[p as int].id == id && position_of_id(users@, id)
                == Some(p as int),
            None => position_of_id(users@, id).is_none(),
        },
{
    let mut i: usize = users.len();
    proof {
        assert(users@.take(i as int) =~= users@);
    }
    while i > 0
        invariant
            i <= users.len(),
            position_of_id(users@, id) == position_of_id(users@.take(i as int), id),
        decreases i,
    {
        i = i - 1;
        proof {
            assert(users@.take(i + 1).drop_last() =~= users@.take(i as int));
            assert(users@.take(i + 1).last() == users@[i as int]);
        }
        if users[i].id == id {
            return Some(i);
        }
    }
    None
}

/// The position of the first user named `name`.
pub open spec fn first_named(users: Seq<User>, name: Seq<char>) -> Option<int>
    decreases users.len(),
{
    if users.len() == 0 {
        None
    } else {
        match first_named(users.drop_last(), name) {
            Some(p) => Some(p),
            None => if users.last().name@ == name {
                Some(users.len() - 1)
            } else {
                None
            },
        }
    }
}

/// What `first_named` finds is the first entry of that name, and no entry
/// has it where nothing is found.
pub proof fn lemma_first_named(users: Seq<User>, name: Seq<char>)
    ensures
        match first_named(users, name) {
            Some(p) => 0 <= p < users.len() && users[p].name@ == name && forall|j: int|
                0 <= j < p ==> users[j].name@ != name,
            None => forall|j: int| 0 <= j < users.len() ==> users[j].name@ != name,
        },
    decreases users.len(),
{
    if users.len() > 0 {
        lemma_first_named(users.drop_last(), name);
        assert forall|j: int| 0 <= j < users.len() - 1 implies users[j] == users.drop_last()[j] by {}
    }
}

/// A user found among the first entries is found among all of them.
proof fn lemma_first_named_stays(users: Seq<User>, name: Seq<char>, n: int)
    requires
        0 <= n <= users.len(),
        first_named(users.take(n), name).is_some(),
    ensures
        first_named(users, name) == first_named(users.take(n), name),
    decreases users.len() - n,
{
    if n < users.len() {
        assert(users.take(n + 1).drop_last() =~= users.take(n));
        lemma_first_named_stays(users, name, n + 1);
    } else {
        assert(users.take(n) =~= users);
    }
}

/// Finds the first user named `name`. Names are compared character by
/// character, upper and lower case apart.
pub fn find_user_by_name(users: &Vec<User>, name: &str) -> (found: Option<usize>)
    ensures
        match found {
            Some(p) => p < users.len() && users@[p as int].name@ == name@ && first_named(
                users@,
                name@,
            ) == Some(p as int),
            None => first_named(users@, name@).is_none(),
        },
{
    let mut i: usize = 0;
    while i < users.len()
        invariant
            i <= users.len(),
            first_named(users@.take(i as int), name@).is_none(),
        decreases users.len() - i,
    {
        proof {
            assert(users@.take(i + 1).drop_last() =~= users@.take(i as int));
            assert(users@.take(i + 1).last() == users@[i as int]);
        }
        if same_text(users[i].name.as_str(), name) {
            proof {
                lemma_first_named_stays(users@, name@, i + 1);
            }
            return Some(i);
        }
        i = i + 1;
    }
    proof {
        assert(users@.take(i as int) =~= users@);
    }
    None
}

/// Whether a row has the cells of a user: identifier, name, display name or
/// nothing, time of creation, creator or nothing.
pub open spec fn is_user_row(row: Seq<SqlCell>) -> bool {
    &&& has_integer(row, 0)
    &&& has_text(row, 1)
    &&& has_optional_text(row, 2)
    &&& has_integer(row, 3)
    &&& has_optional_integer(row, 4)
}

impl User {
    /// Whether this user is what the cells of `row` say.
    pub open spec fn holds(self, row: Seq<SqlCell>) -> bool {
        &&& row[0] == SqlCell::Integer(self.id)
        &&& self.name@ == row[1]->Text_0@
        &&& match self.display_name {
            Some(d) => row[2] is Text && d@ == row[2]->Text_0@,
            None => row[2] is Null,
        }
        &&& row[3] == SqlCell::Integer(self.created_at)
        &&& match self.created_by {
            Some(c) => row[4] == SqlCell::Integer(c),
            None => row[4] is Null,
        }
    }

    /// The user that a result row describes. A row that is too short or has
    /// a cell of the wrong kind is a storage failure.
    pub fn from_row(row: &Vec<SqlCell>) -> (result: Result<User, DirectoryError>)
        ensures
            match result {
                Ok(user) => is_user_row(row@) && user.holds(row@),
                Err(e) => !is_user_row(row@) && e is Storage,
            },
    {
        let id = integer_at(row, 0)?;
        let name = text_at(row, 1)?;
        let display_name = optional_text_at(row, 2)?;
        let created_at = integer_at(row, 3)?;
        let created_by = optional_integer_at(row, 4)?;
        Ok(User { id, name, display_name, created_at, created_by })
    }
}

/// The user of a lookup: nothing where the query gave no row, else the user
/// that its first row describes.
pub fn first_user(rows: &Vec<Vec<SqlCell>>) -> (result: Result<Option<User>, DirectoryError>)
    ensures
        match result {
            Ok(None) => rows.len() == 0,
            Ok(Some(user)) => rows.len() > 0 && is_user_row(rows@[0]@) && user.holds(rows@[0]@),
            Err(e) => rows.len() > 0 && !is_user_row(rows@[0]@) && e is Storage,
        },
{
    if rows.len() == 0 {
        Ok(None)
    } else {
        match User::from_row(&rows[0]) {
            Ok(user) => Ok(Some(user)),
            Err(e) => Err(e),
        }
    }
}

/// The users that the rows of a listing describe, in the order of the rows.
/// One row that describes no user makes the whole listing a storage failure.
pub fn users_of(rows: &Vec<Vec<SqlCell>>) -> (result: Result<Vec<User>, DirectoryError>)
    ensures
        match result {
            Ok(users) => users.len() == rows.len() && forall|i: int|
                0 <= i < rows.len() ==> is_user_row(#[trigger] rows@[i]@) && users@[i].holds(
                    rows@[i]@,
                ),
            Err(e) => e is Storage && exists|i: int|
                0 <= i < rows.len() && !is_user_row(#[trigger] rows@[i]@),
        },
{
    let mut users: Vec<User> = Vec::new();
    let mut i: usize = 0;
    while i < rows.len()
        invariant
            i <= rows.len(),
            users.len() == i,
            forall|j: int|
                0 <= j < i ==> is_user_row(#[trigger] rows@[j]@) && users@[j].holds(rows@[j]@),
        decreases rows.len() - i,
    {
        match User::from_row(&rows[i]) {
            Ok(user) => {
                users.push(user);
            },
            Err(e) => {
                return Err(e);
            },
        }
        i = i + 1;
    }
    Ok(users)
}

/// What a deletion comes to where `count` tasks refer to its subject: it
/// goes ahead only where none does.
pub open spec fn usage_of(count: int, subject: SubjectView) -> Result<(), DirectoryErrorView> {
    if count > 0 {
        Err(DirectoryErrorView::InUse(subject, count))
    } else {
        Ok(())
    }
}

/// What a delete statement that changed `changed` rows says: where it
/// changed none, there was nothing of that name.
pub open spec fn deletion_of(changed: int, subject: SubjectView) -> Result<
    (),
    DirectoryErrorView,
> {
    if changed == 0 {
        Err(DirectoryErrorView::NotFound(subject))
    } else {
        Ok(())
    }
}

/// What a deletion comes to where `count` tasks refer to its subject.
pub fn check_unused(count: i64, subject: Subject) -> (result: Result<(), DirectoryError>)
    ensures
        outcome(result) == usage_of(count as int, subject@),
{
    if count > 0 {
        Err(DirectoryError::InUse(subject, count))
    } else {
        Ok(())
    }
}

/// What a delete statement that changed `changed` rows says.
pub fn check_deleted(changed: usize, subject: Subject) -> (result: Result<(), DirectoryError>)
    ensures
        outcome(result) == deletion_of(changed as int, subject@),
{
    if changed == 0 {
        Err(DirectoryError::NotFound(subject))
    } else {
        Ok(())
    }
}

/// The statement that stores a new user.
pub const INSERT_USER: &'static str =
    "INSERT INTO users (name, display_name, created_at, created_by) VALUES (?1, ?2, ?3, ?4)";

/// The query for the user of a name.
pub const SELECT_USER_BY_NAME: &'static str =
    "SELECT id, name, display_name, created_at, created_by FROM users WHERE name = ?1";

/// The query for the user of an identifier.
pub const SELECT_USER_BY_ID: &'static str =
    "SELECT id, name, display_name, created_at, created_by FROM users WHERE id = ?1";

/// The query for all users, ordered by name.
pub const SELECT_USERS: &'static str =
    "SELECT id, name, display_name, created_at, created_by FROM users ORDER BY name";

/// The query for the number of tasks that a user owns or has assigned.
pub const COUNT_TASKS_OF_USER: &'static str =
    "SELECT COUNT(*) FROM items WHERE owner_id = ?1 OR assignee_id = ?1";

/// The statement that deletes a user.
pub const DELETE_USER: &'static str = "DELETE FROM users WHERE id = ?1";

/// The values of a new user's row: name, display name or nothing, time of
/// creation, creator or nothing.
pub fn new_user_params(
    name: &str,
    display_name: Option<&str>,
    now: i64,
    created_by: Option<i64>,
) -> (params: Vec<SqlParam>)
    ensures
        params_view(params@) == seq![
            SqlParamView::Text(name@),
            text_or_null(display_name),
            SqlParamView::Integer(now as int),
            integer_or_null(created_by),
        ],
{
    let mut params: Vec<SqlParam> = Vec::new();
    params.push(text_param(name));
    params.push(optional_text_param(display_name));
    params.push(SqlParam::Integer(now));
    params.push(optional_integer_param(created_by));
    proof {
        assert(params_view(params@) =~= seq![
            SqlParamView::Text(name@),
            text_or_null(display_name),
            SqlParamView::Integer(now as int),
            integer_or_null(created_by),
        ]);
    }
    params
}

/// Creates a user and gives its identifier.
///
/// Fails with `AlreadyExists` where the engine reports that the name is
/// taken, and with the engine's message on any other failure.
pub fn create_user(
    conn: &rusqlite::Connection,
    name: &str,
    display_name: Option<&str>,
    created_by: Option<i64>,
) -> (result: Result<i64, DirectoryError>)
    ensures
        result matches Err(e) ==> can_fail_creation(SubjectView::User(name@), e),
{
    let now = epoch_seconds();
    match execute(conn, INSERT_USER, &new_user_params(name, display_name, now, created_by)) {
        Ok(_) => Ok(last_insert_rowid(conn)),
        Err(text) => Err(classify_insert_failure(text, Subject::User(String::from_str(name)))),
    }
}

/// Looks a user up by name. Names are matched exactly, upper and lower case
/// apart.
pub fn get_user_by_name(conn: &rusqlite::Connection, name: &str) -> (result: Result<
    Option<User>,
    DirectoryError,
>)
    ensures
        result matches Err(e) ==> e is Storage,
{
    let rows = query(conn, SELECT_USER_BY_NAME, &name_params(name))?;
    first_user(&rows)
}

/// Looks a user up by identifier.
pub fn get_user_by_id(conn: &rusqlite::Connection, id: i64) -> (result: Result<
    Option<User>,
    DirectoryError,
>)
    ensures
        result matches Err(e) ==> e is Storage,
{
    let rows = query(conn, SELECT_USER_BY_ID, &id_params(id))?;
    first_user(&rows)
}

/// All users, ordered by name.
pub fn list_users(conn: &rusqlite::Connection) -> (result: Result<Vec<User>, DirectoryError>)
    ensures
        result matches Err(e) ==> e is Storage,
{
    let rows = query(conn, SELECT_USERS, &no_params())?;
    users_of(&rows)
}

/// Deletes the user named `name`; the engine removes the user's memberships
/// with it.
///
/// Fails with `NotFound` where there is no such user, and with `InUse` and
/// the number of tasks where the user owns a task or has one assigned; the
/// tasks are counted before anything is deleted.
pub fn delete_user(conn: &rusqlite::Connection, name: &str) -> (result: Result<(), DirectoryError>)
    ensures
        result matches Err(e) ==> can_fail_deletion(SubjectView::User(name@), e),
{
    let user = require_found(
        get_user_by_name(conn, name)?,
        Subject::User(String::from_str(name)),
    )?;
    let counted = query(conn, COUNT_TASKS_OF_USER, &id_params(user.id))?;
    let task_count = count_of(&counted)?;
    check_unused(task_count, Subject::User(String::from_str(name)))?;
    match execute(conn, DELETE_USER, &id_params(user.id)) {
        Ok(changed) => check_deleted(changed, Subject::User(String::from_str(name))),
        Err(text) => Err(DirectoryError::Storage(text)),
    }
}

} // verus!
