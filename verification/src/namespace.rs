//! The namespace directory and the membership ledger.

use crate::clock::epoch_seconds;
use crate::error::{
    can_fail_creation, can_fail_deletion, outcome, require_found, DirectoryError,
    DirectoryErrorView, Subject, SubjectView,
};
use crate::sql::{
    classify_insert_failure, count_of, execute, flag_of, has_integer, has_optional_integer,
    has_optional_text, has_text, id_params, integer_at, last_insert_rowid, name_params,
    no_params, optional_integer_at, optional_text_at, optional_text_param, params_view, query,
    text_at, text_or_null, text_param, SqlCell, SqlParam, SqlParamView,
};
use crate::text::same_text;
use crate::user::{check_deleted, check_unused, get_user_by_name};
use vstd::prelude::*;
use vstd::string::*;

verus! {

/// A workspace that tasks and memberships belong to.
#[derive(Clone, Debug, PartialEq, Eq)]
pub struct Namespace {
    /// The identifier that other records refer to.
    pub id: i64,
    /// The unique name.
    pub name: String,
    /// What the namespace is for, if it was said.
    pub description: Option<String>,
    /// When the namespace was created, in seconds since the epoch.
    pub created_at: i64,
    /// The user who created it, if known.
    pub created_by: Option<i64>,
}

/// The role of a user in a namespace, with the user's name for display.
#[derive(Clone, Debug, PartialEq, Eq)]
pub struct NamespaceMembership {
    /// The member.
    pub user_id: i64,
    /// The namespace.
    pub namespace_id: i64,
    /// The role as it is stored.
    pub role: String,
    /// When the membership was created, in seconds since the epoch.
    pub created_at: i64,
    /// The member's name, where the listing joined it in.
    pub user_name: Option<String>,
}

/// What a member may do in a namespace.
#[derive(Clone, Copy, Debug, PartialEq, Eq, Structural)]
pub enum Role {
    Owner,
    Admin,
    Member,
    Viewer,
}

/// The name a role is stored under.
pub open spec fn role_text(role: Role) -> Seq<char> {
    match role {
        Role::Owner => "owner"@,
        Role::Admin => "admin"@,
        Role::Member => "member"@,
        Role::Viewer => "viewer"@,
    }
}

/// The role that a name stands for, if it is the name of one.
pub open spec fn role_named(name: Seq<char>) -> Option<Role> {
    if name == "owner"@ {
        Some(Role::Owner)
    } else if name == "admin"@ {
        Some(Role::Admin)
    } else if name == "member"@ {
        Some(Role::Member)
    } else if name == "viewer"@ {
        Some(Role::Viewer)
    } else {
        None
    }
}

/// Every role is the role that its name stands for.
pub proof fn lemma_role_round_trip(role: Role)
    ensures
        role_named(role_text(role)) == Some(role),
{
    reveal_strlit("owner");
    reveal_strlit("admin");
    reveal_strlit("member");
    reveal_strlit("viewer");
    assert("owner"@[0] != "admin"@[0]);
    assert("owner"@[0] != "member"@[0]);
    assert("owner"@[0] != "viewer"@[0]);
    assert("admin"@[0] != "member"@[0]);
    assert("admin"@[0] != "viewer"@[0]);
    assert("member"@[0] != "viewer"@[0]);
}

/// The name a role is stored under.
pub fn role_name(role: Role) -> (name: &'static str)
    ensures
        name@ == role_text(role),
{
    match role {
        Role::Owner => "owner",
        Role::Admin => "admin",
        Role::Member => "member",
        Role::Viewer => "viewer",
    }
}

/// The role that a name stands for. Only the four names in lower case are
/// names of roles.
pub fn parse_role(name: &str) -> (role: Option<Role>)
    ensures
        role == role_named(name@),
{
    if same_text(name, "owner") {
        Some(Role::Owner)
    } else if same_text(name, "admin") {
        Some(Role::Admin)
    } else if same_text(name, "member") {
        Some(Role::Member)
    } else if same_text(name, "viewer") {
        Some(Role::Viewer)
    } else {
        None
    }
}

/// What the check of a role's name comes to: the role, or the failure that
/// says that it is the name of none.
pub open spec fn validation_of(name: Seq<char>) -> Result<Role, DirectoryErrorView> {
    match role_named(name) {
        Some(role) => Ok(role),
        None => Err(DirectoryErrorView::InvalidRole(name)),
    }
}

/// The role that a name stands for, or the failure that says that it is the
/// name of none.
pub fn validate_role(name: &str) -> (result: Result<Role, DirectoryError>)
    ensures
        outcome(result) == validation_of(name@),
{
    match parse_role(name) {
        Some(role) => Ok(role),
        None => Err(DirectoryError::InvalidRole(String::from_str(name))),
    }
}

/// The name of the namespace that can never be deleted.
pub open spec fn default_name() -> Seq<char> {
    "default"@
}

/// Whether the namespace of this name may be deleted at all: the default
/// namespace may not, whatever refers to it.
pub open spec fn protection_of(name: Seq<char>) -> Result<(), DirectoryErrorView> {
    if name == default_name() {
        Err(DirectoryErrorView::Protected)
    } else {
        Ok(())
    }
}

/// Whether the namespace of this name may be deleted at all.
pub fn check_not_protected(name: &str) -> (result: Result<(), DirectoryError>)
    ensures
        outcome(result) == protection_of(name@),
{
    if same_text(name, "default") {
        Err(DirectoryError::Protected)
    } else {
        Ok(())
    }
}

/// Whether a membership may be removed: not where it is an owner's and the
/// namespace has no second owner.
pub open spec fn removal_allowed(is_owner: bool, owner_count: int) -> bool {
    !(is_owner && owner_count <= 1)
}

/// What the removal of the membership of `user` in `namespace` comes to,
/// given whether it is an owner's and how many owners the namespace has:
/// the removal of the only owner fails with `LastOwner`; the removal of any
/// other member, and of an owner beside whom another stays, goes ahead.
pub open spec fn removal_of(
    is_owner: bool,
    owner_count: int,
    user: Seq<char>,
    namespace: Seq<char>,
) -> Result<(), DirectoryErrorView> {
    if removal_allowed(is_owner, owner_count) {
        Ok(())
    } else {
        Err(DirectoryErrorView::LastOwner { user, namespace })
    }
}

/// What the removal of the membership of `user` in `namespace` comes to.
pub fn check_removal(is_owner: bool, owner_count: i64, user: &str, namespace: &str) -> (result:
    Result<(), DirectoryError>)
    ensures
        outcome(result) == removal_of(is_owner, owner_count as int, user@, namespace@),
{
    if is_owner && owner_count <= 1 {
        Err(
            DirectoryError::LastOwner {
                user: String::from_str(user),
                namespace: String::from_str(namespace),
            },
        )
    } else {
        Ok(())
    }
}

/// Whether a row has the cells of a namespace: identifier, name,
/// description or nothing, time of creation, creator or nothing.
pub open spec fn is_namespace_row(row: Seq<SqlCell>) -> bool {
    &&& has_integer(row, 0)
    &&& has_text(row, 1)
    &&& has_optional_text(row, 2)
    &&& has_integer(row, 3)
    &&& has_optional_integer(row, 4)
}

impl Namespace {
    /// Whether this namespace is what the cells of `row` say.
    pub open spec fn holds(self, row: Seq<SqlCell>) -> bool {
        &&& row[0] == SqlCell::Integer(self.id)
        &&& self.name@ == row[1]->Text_0@
        &&& match self.description {
            Some(d) => row[2] is Text && d@ == row[2]->Text_0@,
            None => row[2] is Null,
        }
        &&& row[3] == SqlCell::Integer(self.created_at)
        &&& match self.created_by {
            Some(c) => row[4] == SqlCell::Integer(c),
            None => row[4] is Null,
        }
    }

    /// The namespace that a result row describes. A row that is too short
    /// or has a cell of the wrong kind is a storage failure.
    pub fn from_row(row: &Vec<SqlCell>) -> (result: Result<Namespace, DirectoryError>)
        ensures
            match result {
                Ok(namespace) => is_namespace_row(row@) && namespace.holds(row@),
                Err(e) => !is_namespace_row(row@) && e is Storage,
            },
    {
        let id = integer_at(row, 0)?;
        let name = text_at(row, 1)?;
        let description = optional_text_at(row, 2)?;
        let created_at = integer_at(row, 3)?;
        let created_by = optional_integer_at(row, 4)?;
        Ok(Namespace { id, name, description, created_at, created_by })
    }
}

/// Whether a row has the cells of a membership: user, namespace, role, time
/// of creation, user name or nothing.
pub open spec fn is_membership_row(row: Seq<SqlCell>) -> bool {
    &&& has_integer(row, 0)
    &&& has_integer(row, 1)
    &&& has_text(row, 2)
    &&& has_integer(row, 3)
    &&& has_optional_text(row, 4)
}

impl NamespaceMembership {
    /// Whether this membership is what the cells of `row` say.
    pub open spec fn holds(self, row: Seq<SqlCell>) -> bool {
        &&& row[0] == SqlCell::Integer(self.user_id)
        &&& row[1] == SqlCell::Integer(self.namespace_id)
        &&& self.role@ == row[2]->Text_0@
        &&& row[3] == SqlCell::Integer(self.created_at)
        &&& match self.user_name {
            Some(n) => row[4] is Text && n@ == row[4]->Text_0@,
            None => row[4] is Null,
        }
    }

    /// The membership that a result row describes. A row that is too short
    /// or has a cell of the wrong kind is a storage failure.
    pub fn from_row(row: &Vec<SqlCell>) -> (result: Result<NamespaceMembership, DirectoryError>)
        ensures
            match result {
                Ok(member) => is_membership_row(row@) && member.holds(row@),
                Err(e) => !is_membership_row(row@) && e is Storage,
            },
    {
        let user_id = integer_at(row, 0)?;
        let namespace_id = integer_at(row, 1)?;
        let role = text_at(row, 2)?;
        let created_at = integer_at(row, 3)?;
        let user_name = optional_text_at(row, 4)?;
        Ok(NamespaceMembership { user_id, namespace_id, role, created_at, user_name })
    }

    /// The role of the member, if the stored name is the name of one.
    pub fn parsed_role(&self) -> (role: Option<Role>)
        ensures
            role == role_named(self.role@),
    {
        parse_role(self.role.as_str())
    }
}

/// The namespace of a lookup: nothing where the query gave no row, else the
/// namespace that its first row describes.
pub fn first_namespace(rows: &Vec<Vec<SqlCell>>) -> (result: Result<
    Option<Namespace>,
    DirectoryError,
>)
    ensures
        match result {
            Ok(None) => rows.len() == 0,
            Ok(Some(namespace)) => rows.len() > 0 && is_namespace_row(rows@[0]@) && namespace.holds(
                rows@[0]@,
            ),
            Err(e) => rows.len() > 0 && !is_namespace_row(rows@[0]@) && e is Storage,
        },
{
    if rows.len() == 0 {
        Ok(None)
    } else {
        match Namespace::from_row(&rows[0]) {
            Ok(namespace) => Ok(Some(namespace)),
            Err(e) => Err(e),
        }
    }
}

/// The namespaces that the rows of a listing describe, in the order of the
/// rows. One row that describes none makes the whole listing a storage
/// failure.
pub fn namespaces_of(rows: &Vec<Vec<SqlCell>>) -> (result: Result<Vec<Namespace>, DirectoryError>)
    ensures
        match result {
            Ok(found) => found.len() == rows.len() && forall|i: int|
                0 <= i < rows.len() ==> is_namespace_row(#[trigger] rows@[i]@) && found@[i].holds(
                    rows@[i]@,
                ),
            Err(e) => e is Storage && exists|i: int|
                0 <= i < rows.len() && !is_namespace_row(#[trigger] rows@[i]@),
        },
{
    let mut found: Vec<Namespace> = Vec::new();
    let mut i: usize = 0;
    while i < rows.len()
        invariant
            i <= rows.len(),
            found.len() == i,
            forall|j: int|
                0 <= j < i ==> is_namespace_row(#[trigger] rows@[j]@) && found@[j].holds(
                    rows@[j]@,
                ),
        decreases rows.len() - i,
    {
        match Namespace::from_row(&rows[i]) {
            Ok(namespace) => {
                found.push(namespace);
            },
            Err(e) => {
                return Err(e);
            },
        }
        i = i + 1;
    }
    Ok(found)
}

/// The memberships that the rows of a listing describe, in the order of
/// the rows. One row that describes none makes the whole listing a storage
/// failure.
pub fn memberships_of(rows: &Vec<Vec<SqlCell>>) -> (result: Result<
    Vec<NamespaceMembership>,
    DirectoryError,
>)
    ensures
        match result {
            Ok(found) => found.len() == rows.len() && forall|i: int|
                0 <= i < rows.len() ==> is_membership_row(#[trigger] rows@[i]@) && found@[i].holds(
                    rows@[i]@,
                ),
            Err(e) => e is Storage && exists|i: int|
                0 <= i < rows.len() && !is_membership_row(#[trigger] rows@[i]@),
        },
{
    let mut found: Vec<NamespaceMembership> = Vec::new();
    let mut i: usize = 0;
    while i < rows.len()
        invariant
            i <= rows.len(),
            found.len() == i,
            forall|j: int|
                0 <= j < i ==> is_membership_row(#[trigger] rows@[j]@) && found@[j].holds(
                    rows@[j]@,
                ),
        decreases rows.len() - i,
    {
        match NamespaceMembership::from_row(&rows[i]) {
            Ok(member) => {
                found.push(member);
            },
            Err(e) => {
                return Err(e);
            },
        }
        i = i + 1;
    }
    Ok(found)
}

/// The role of a lookup: nothing where the query gave no row, else the text
/// in the first cell of its first row.
pub fn first_role(rows: &Vec<Vec<SqlCell>>) -> (result: Result<Option<String>, DirectoryError>)
    ensures
        match result {
            Ok(None) => rows.len() == 0,
            Ok(Some(role)) => rows.len() > 0 && has_text(rows@[0]@, 0) && role@
                == rows@[0]@[0]->Text_0@,
            Err(e) => rows.len() > 0 && !has_text(rows@[0]@, 0) && e is Storage,
        },
{
    if rows.len() == 0 {
        Ok(None)
    } else {
        match text_at(&rows[0], 0) {
            Ok(role) => Ok(Some(role)),
            Err(e) => Err(e),
        }
    }
}

/// The statement that marks the start of the creation of a namespace.
pub const BEGIN_CREATION: &'static str = "SAVEPOINT create_namespace";

/// The statement that makes the creation of a namespace final.
pub const FINISH_CREATION: &'static str = "RELEASE create_namespace";

/// The statement that undoes what was done since the start of the creation.
pub const UNDO_CREATION: &'static str = "ROLLBACK TO create_namespace";

/// The statement that stores a new namespace.
pub const INSERT_NAMESPACE: &'static str =
    "INSERT INTO namespaces (name, description, created_at, created_by) VALUES (?1, ?2, ?3, ?4)";

/// The statement that stores the membership of a new namespace's creator.
pub const INSERT_MEMBERSHIP: &'static str =
    "INSERT INTO user_namespaces (user_id, namespace_id, role, created_at) VALUES (?1, ?2, ?3, ?4)";

/// The statement that stores a membership, or gives an existing one its new
/// role.
pub const UPSERT_MEMBERSHIP: &'static str =
    "INSERT INTO user_namespaces (user_id, namespace_id, role, created_at) VALUES (?1, ?2, ?3, ?4) ON CONFLICT(user_id, namespace_id) DO UPDATE SET role = ?3";

/// The query for the namespace of a name.
pub const SELECT_NAMESPACE_BY_NAME: &'static str =
    "SELECT id, name, description, created_at, created_by FROM namespaces WHERE name = ?1";

/// The query for the namespace of an identifier.
pub const SELECT_NAMESPACE_BY_ID: &'static str =
    "SELECT id, name, description, created_at, created_by FROM namespaces WHERE id = ?1";

/// The query for all namespaces, ordered by name.
pub const SELECT_NAMESPACES: &'static str =
    "SELECT id, name, description, created_at, created_by FROM namespaces ORDER BY name";

/// The query for the number of tasks that belong to a namespace.
pub const COUNT_TASKS_IN_NAMESPACE: &'static str =
    "SELECT COUNT(*) FROM items WHERE namespace_id = ?1";

/// The statement that deletes a namespace.
pub const DELETE_NAMESPACE: &'static str = "DELETE FROM namespaces WHERE id = ?1";

/// The query for the number of members of a namespace with a role.
pub const COUNT_MEMBERS_WITH_ROLE: &'static str =
    "SELECT COUNT(*) FROM user_namespaces WHERE namespace_id = ?1 AND role = ?2";

/// The query for whether a member has a role.
pub const SELECT_HAS_ROLE: &'static str =
    "SELECT role = ?3 FROM user_namespaces WHERE user_id = ?1 AND namespace_id = ?2";

/// The statement that deletes a membership.
pub const DELETE_MEMBERSHIP: &'static str =
    "DELETE FROM user_namespaces WHERE user_id = ?1 AND namespace_id = ?2";

/// The query for the role of a member.
pub const SELECT_ROLE: &'static str =
    "SELECT role FROM user_namespaces WHERE user_id = ?1 AND namespace_id = ?2";

/// The query for the members of a namespace with their names, ordered by
/// name.
pub const SELECT_MEMBERS: &'static str =
    "SELECT un.user_id, un.namespace_id, un.role, un.created_at, u.name FROM user_namespaces un JOIN users u ON un.user_id = u.id WHERE un.namespace_id = ?1 ORDER BY u.name";

/// The values of a new namespace's row: name, description or nothing, time
/// of creation, creator.
pub fn new_namespace_params(
    name: &str,
    description: Option<&str>,
    now: i64,
    created_by: i64,
) -> (params: Vec<SqlParam>)
    ensures
        params_view(params@) == seq![
            SqlParamView::Text(name@),
            text_or_null(description),
            SqlParamView::Integer(now as int),
            SqlParamView::Integer(created_by as int),
        ],
{
    let mut params: Vec<SqlParam> = Vec::new();
    params.push(text_param(name));
    params.push(optional_text_param(description));
    params.push(SqlParam::Integer(now));
    params.push(SqlParam::Integer(created_by));
    proof {
        assert(params_view(params@) =~= seq![
            SqlParamView::Text(name@),
            text_or_null(description),
            SqlParamView::Integer(now as int),
            SqlParamView::Integer(created_by as int),
        ]);
    }
    params
}

/// The values of a membership's row: user, namespace, the name of the role,
/// time of creation.
pub fn membership_params(user_id: i64, namespace_id: i64, role: Role, now: i64) -> (params: Vec<
    SqlParam,
>)
    ensures
        params_view(params@) == seq![
            SqlParamView::Integer(user_id as int),
            SqlParamView::Integer(namespace_id as int),
            SqlParamView::Text(role_text(role)),
            SqlParamView::Integer(now as int),
        ],
{
    let mut params: Vec<SqlParam> = Vec::new();
    params.push(SqlParam::Integer(user_id));
    params.push(SqlParam::Integer(namespace_id));
    params.push(text_param(role_name(role)));
    params.push(SqlParam::Integer(now));
    proof {
        assert(params_view(params@) =~= seq![
            SqlParamView::Integer(user_id as int),
            SqlParamView::Integer(namespace_id as int),
            SqlParamView::Text(role_text(role)),
            SqlParamView::Integer(now as int),
        ]);
    }
    params
}

/// The values that name a membership: user and namespace.
pub fn pair_params(user_id: i64, namespace_id: i64) -> (params: Vec<SqlParam>)
    ensures
        params_view(params@) == seq![
            SqlParamView::Integer(user_id as int),
            SqlParamView::Integer(namespace_id as int),
        ],
{
    let mut params: Vec<SqlParam> = Vec::new();
    params.push(SqlParam::Integer(user_id));
    params.push(SqlParam::Integer(namespace_id));
    proof {
        assert(params_view(params@) =~= seq![
            SqlParamView::Integer(user_id as int),
            SqlParamView::Integer(namespace_id as int),
        ]);
    }
    params
}

/// The values of the question how many members of a namespace have a role.
pub fn members_with_role_params(namespace_id: i64, role: Role) -> (params: Vec<SqlParam>)
    ensures
        params_view(params@) == seq![
            SqlParamView::Integer(namespace_id as int),
            SqlParamView::Text(role_text(role)),
        ],
{
    let mut params: Vec<SqlParam> = Vec::new();
    params.push(SqlParam::Integer(namespace_id));
    params.push(text_param(role_name(role)));
    proof {
        assert(params_view(params@) =~= seq![
            SqlParamView::Integer(namespace_id as int),
            SqlParamView::Text(role_text(role)),
        ]);
    }
    params
}

/// The values of the question whether a member has a role.
pub fn has_role_params(user_id: i64, namespace_id: i64, role: Role) -> (params: Vec<SqlParam>)
    ensures
        params_view(params@) == seq![
            SqlParamView::Integer(user_id as int),
            SqlParamView::Integer(namespace_id as int),
            SqlParamView::Text(role_text(role)),
        ],
{
    let mut params: Vec<SqlParam> = Vec::new();
    params.push(SqlParam::Integer(user_id));
    params.push(SqlParam::Integer(namespace_id));
    params.push(text_param(role_name(role)));
    proof {
        assert(params_view(params@) =~= seq![
            SqlParamView::Integer(user_id as int),
            SqlParamView::Integer(namespace_id as int),
            SqlParamView::Text(role_text(role)),
        ]);
    }
    params
}

/// Undoes what was done since the start of the creation of a namespace. A
/// failure of the undoing itself is not reported: the failure that led to
/// it is.
fn abandon_creation(conn: &rusqlite::Connection) {
    let _ = execute(conn, UNDO_CREATION, &no_params());
    let _ = execute(conn, FINISH_CREATION, &no_params());
}

/// Creates a namespace, makes its creator the owner, and gives the
/// namespace's identifier.
///
/// The two inserts stand between a savepoint and its release: where the
/// second fails, the first is rolled back, so that no namespace without
/// owner stays behind (`model::lemma_failed_creation_leaves_nothing` says
/// what this is to come to). Fails with `AlreadyExists` where the engine
/// reports that the name is taken, and with the engine's message on any
/// other failure.
pub fn create_namespace(
    conn: &rusqlite::Connection,
    name: &str,
    description: Option<&str>,
    created_by: i64,
) -> (result: Result<i64, DirectoryError>)
    ensures
        result matches Err(e) ==> can_fail_creation(SubjectView::Namespace(name@), e),
{
    let now = epoch_seconds();
    match execute(conn, BEGIN_CREATION, &no_params()) {
        Ok(_) => {},
        Err(text) => {
            return Err(DirectoryError::Storage(text));
        },
    }
    match execute(
        conn,
        INSERT_NAMESPACE,
        &new_namespace_params(name, description, now, created_by),
    ) {
        Ok(_) => {},
        Err(text) => {
            abandon_creation(conn);
            return Err(
                classify_insert_failure(text, Subject::Namespace(String::from_str(name))),
            );
        },
    }
    let namespace_id = last_insert_rowid(conn);
    match execute(
        conn,
        INSERT_MEMBERSHIP,
        &membership_params(created_by, namespace_id, Role::Owner, now),
    ) {
        Ok(_) => {},
        Err(text) => {
            abandon_creation(conn);
            return Err(DirectoryError::Storage(text));
        },
    }
    match execute(conn, FINISH_CREATION, &no_params()) {
        Ok(_) => Ok(namespace_id),
        Err(text) => {
            abandon_creation(conn);
            Err(DirectoryError::Storage(text))
        },
    }
}

/// Looks a namespace up by name. Names are matched exactly, upper and lower
/// case apart.
pub fn get_namespace_by_name(conn: &rusqlite::Connection, name: &str) -> (result: Result<
    Option<Namespace>,
    DirectoryError,
>)
    ensures
        result matches Err(e) ==> e is Storage,
{
    let rows = query(conn, SELECT_NAMESPACE_BY_NAME, &name_params(name))?;
    first_namespace(&rows)
}

/// Looks a namespace up by identifier.
pub fn get_namespace_by_id(conn: &rusqlite::Connection, id: i64) -> (result: Result<
    Option<Namespace>,
    DirectoryError,
>)
    ensures
        result matches Err(e) ==> e is Storage,
{
    let rows = query(conn, SELECT_NAMESPACE_BY_ID, &id_params(id))?;
    first_namespace(&rows)
}

/// All namespaces, ordered by name.
pub fn list_namespaces(conn: &rusqlite::Connection) -> (result: Result<
    Vec<Namespace>,
    DirectoryError,
>)
    ensures
        result matches Err(e) ==> e is Storage,
{
    let rows = query(conn, SELECT_NAMESPACES, &no_params())?;
    namespaces_of(&rows)
}

/// Deletes the namespace named `name`; the engine removes its memberships
/// with it.
///
/// The default namespace is never deleted: the attempt fails with
/// `Protected` before the database is looked at. Otherwise the deletion
/// fails with `NotFound` where there is no such namespace, and with `InUse`
/// and the number of tasks where a task belongs to it; the tasks are counted
/// before anything is deleted.
pub fn delete_namespace(conn: &rusqlite::Connection, name: &str) -> (result: Result<
    (),
    DirectoryError,
>)
    ensures
        name@ == default_name() ==> (result matches Err(e) && e@ == DirectoryErrorView::Protected),
        name@ != default_name() ==> (result matches Err(e) ==> can_fail_deletion(
            SubjectView::Namespace(name@),
            e,
        )),
{
    check_not_protected(name)?;
    let namespace = require_found(
        get_namespace_by_name(conn, name)?,
        Subject::Namespace(String::from_str(name)),
    )?;
    let counted = query(conn, COUNT_TASKS_IN_NAMESPACE, &id_params(namespace.id))?;
    let task_count = count_of(&counted)?;
    check_unused(task_count, Subject::Namespace(String::from_str(name)))?;
    match execute(conn, DELETE_NAMESPACE, &id_params(namespace.id)) {
        Ok(changed) => check_deleted(changed, Subject::Namespace(String::from_str(name))),
        Err(text) => Err(DirectoryError::Storage(text)),
    }
}

/// Whether `e` is a failure that giving `user` a valid role in `namespace`
/// can end in: the namespace or the user does not exist, or the storage
/// engine failed.
pub open spec fn can_fail_adding(namespace: Seq<char>, user: Seq<char>, e: DirectoryError) -> bool {
    e@ == DirectoryErrorView::NotFound(SubjectView::Namespace(namespace)) || e@
        == DirectoryErrorView::NotFound(SubjectView::User(user)) || e is Storage
}

/// Whether `e` is a failure that taking `user` out of `namespace` can end
/// in: the namespace, the user or the membership does not exist, the user is
/// the only owner, or the storage engine failed.
pub open spec fn can_fail_removal(namespace: Seq<char>, user: Seq<char>, e: DirectoryError) -> bool {
    e@ == DirectoryErrorView::NotFound(SubjectView::Namespace(namespace)) || e@
        == DirectoryErrorView::NotFound(SubjectView::User(user)) || e@
        == DirectoryErrorView::NotFound(SubjectView::Membership { user, namespace }) || e@ == (
    DirectoryErrorView::LastOwner { user, namespace }) || e is Storage
}

/// Gives a user a role in a namespace. A user who is a member already gets
/// the new role in place of the old one.
///
/// The role is checked before the database is looked at: a name that is no
/// role's fails with `InvalidRole`. Then the namespace and the user are
/// looked up, in this order, and the one that is missing fails with
/// `NotFound`.
///
/// The last-owner rule guards removals, not this: the only owner of a
/// namespace can be given a lesser role, and the namespace is then without
/// owner (`model::lemma_new_role_can_leave_no_owner`).
pub fn add_user_to_namespace(
    conn: &rusqlite::Connection,
    namespace_name: &str,
    user_name: &str,
    role: &str,
) -> (result: Result<(), DirectoryError>)
    ensures
        role_named(role@).is_none() ==> (result matches Err(e) && e@
            == DirectoryErrorView::InvalidRole(role@)),
        role_named(role@).is_some() ==> (result matches Err(e) ==> can_fail_adding(
            namespace_name@,
            user_name@,
            e,
        )),
{
    let valid = validate_role(role)?;
    let namespace = require_found(
        get_namespace_by_name(conn, namespace_name)?,
        Subject::Namespace(String::from_str(namespace_name)),
    )?;
    let user = require_found(
        get_user_by_name(conn, user_name)?,
        Subject::User(String::from_str(user_name)),
    )?;
    let now = epoch_seconds();
    match execute(conn, UPSERT_MEMBERSHIP, &membership_params(user.id, namespace.id, valid, now)) {
        Ok(_) => Ok(()),
        Err(text) => Err(DirectoryError::Storage(text)),
    }
}

/// Takes a user out of a namespace.
///
/// Fails with `NotFound` where the namespace, the user or the membership
/// does not exist, and with `LastOwner` where the user is the only owner of
/// the namespace: that membership stays. Nothing is deleted before the
/// owners are counted and the user's role is known: a failure of either
/// query ends the removal.
pub fn remove_user_from_namespace(
    conn: &rusqlite::Connection,
    namespace_name: &str,
    user_name: &str,
) -> (result: Result<(), DirectoryError>)
    ensures
        result matches Err(e) ==> can_fail_removal(namespace_name@, user_name@, e),
{
    let namespace = require_found(
        get_namespace_by_name(conn, namespace_name)?,
        Subject::Namespace(String::from_str(namespace_name)),
    )?;
    let user = require_found(
        get_user_by_name(conn, user_name)?,
        Subject::User(String::from_str(user_name)),
    )?;
    let counted = query(
        conn,
        COUNT_MEMBERS_WITH_ROLE,
        &members_with_role_params(namespace.id, Role::Owner),
    )?;
    let owner_count = count_of(&counted)?;
    let asked = query(conn, SELECT_HAS_ROLE, &has_role_params(user.id, namespace.id, Role::Owner))?;
    let is_owner = flag_of(&asked)?;
    check_removal(is_owner, owner_count, user_name, namespace_name)?;
    match execute(conn, DELETE_MEMBERSHIP, &pair_params(user.id, namespace.id)) {
        Ok(changed) => check_deleted(
            changed,
            Subject::Membership {
                user: String::from_str(user_name),
                namespace: String::from_str(namespace_name),
            },
        ),
        Err(text) => Err(DirectoryError::Storage(text)),
    }
}

/// The role of a user in a namespace as it is stored, or nothing where the
/// user is no member.
pub fn get_user_role(conn: &rusqlite::Connection, user_id: i64, namespace_id: i64) -> (result:
    Result<Option<String>, DirectoryError>)
    ensures
        result matches Err(e) ==> e is Storage,
{
    let rows = query(conn, SELECT_ROLE, &pair_params(user_id, namespace_id))?;
    first_role(&rows)
}

/// The members of a namespace with their roles, ordered by user name.
///
/// Fails with `NotFound` where there is no such namespace.
pub fn list_namespace_members(conn: &rusqlite::Connection, namespace_name: &str) -> (result: Result<
    Vec<NamespaceMembership>,
    DirectoryError,
>)
    ensures
        result matches Err(e) ==> e@ == DirectoryErrorView::NotFound(
            SubjectView::Namespace(namespace_name@),
        ) || e is Storage,
{
    let namespace = require_found(
        get_namespace_by_name(conn, namespace_name)?,
        Subject::Namespace(String::from_str(namespace_name)),
    )?;
    let rows = query(conn, SELECT_MEMBERS, &id_params(namespace.id))?;
    memberships_of(&rows)
}

} // verus!
