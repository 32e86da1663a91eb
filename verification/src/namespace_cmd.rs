//! The namespace commands: what each does and the text it answers with.

use crate::error::{
    can_fail_creation, can_fail_deletion, DirectoryError, DirectoryErrorView, SubjectView,
};
use crate::namespace::{
    add_user_to_namespace, can_fail_adding, can_fail_removal, create_namespace, default_name,
    delete_namespace, list_namespace_members, list_namespaces, remove_user_from_namespace,
    role_named, Namespace, NamespaceMembership,
};
use crate::render::{dashes, push_dash_line, push_quoted, quoted};
use crate::text::{decimal, format_int, padded_right, push_padded_right};
use vstd::prelude::*;
use vstd::string::*;

verus! {

/// A command on the namespace directory or on the memberships.
#[derive(Clone, Debug, PartialEq, Eq)]
#[allow(inconsistent_fields)]
pub enum NamespaceCommand {
    /// Create a namespace owned by the current user.
    Create { name: String, description: Option<String> },
    /// List all namespaces.
    List,
    /// Delete a namespace.
    Delete { name: String },
    /// Say how to work in another namespace.
    Switch { name: String },
    /// Give a user a role in a namespace.
    AddUser { namespace: String, user: String, role: String },
    /// Take a user out of a namespace.
    RemoveUser { namespace: String, user: String },
    /// List the members of a namespace, or of the current one where none is
    /// named.
    Members { namespace: Option<String> },
}

/// The answer to the creation of a namespace.
pub open spec fn namespace_created_text(name: Seq<char>, id: i64) -> Seq<char> {
    quoted("Created namespace "@, name, " (id: "@) + decimal(id as int) + ")\n"@
}

/// Whether a text is the answer to the creation of a namespace, whatever the
/// new identifier.
pub open spec fn was_namespace_created(text: Seq<char>, name: Seq<char>) -> bool {
    exists|id: i64| text == #[trigger] namespace_created_text(name, id)
}

/// The answer to the deletion of a namespace.
pub open spec fn namespace_deleted_text(name: Seq<char>) -> Seq<char> {
    quoted("Deleted namespace "@, name, "\n"@)
}

/// The advice on how to work in another namespace.
pub open spec fn switch_text(name: Seq<char>) -> Seq<char> {
    quoted("To switch to namespace "@, name, ", either:\n  - Use: ctm --ns "@) + name
        + " <command>\n  - Set: export CTM_NAMESPACE="@ + name
        + "\n\nPersistent config support coming in a future update.\n"@
}

/// The answer to a new membership.
pub open spec fn user_added_text(user: Seq<char>, namespace: Seq<char>, role: Seq<char>) -> Seq<
    char,
> {
    quoted("Added user "@, user, " to namespace "@) + quoted(""@, namespace, " with role "@)
        + quoted(""@, role, "\n"@)
}

/// The answer to the end of a membership.
pub open spec fn user_removed_text(user: Seq<char>, namespace: Seq<char>) -> Seq<char> {
    quoted("Removed user "@, user, " from namespace "@) + quoted(""@, namespace, "\n"@)
}

/// A line of the listing of namespaces: identifier, name and description in
/// columns of 4, 20 and 40 characters.
pub open spec fn namespace_columns(id: Seq<char>, name: Seq<char>, description: Seq<char>) -> Seq<
    char,
> {
    padded_right(id, 4) + " "@ + padded_right(name, 20) + " "@ + padded_right(description, 40)
        + "\n"@
}

/// The line of one namespace; a dash stands for a description that was not
/// given.
pub open spec fn namespace_line(namespace: Namespace) -> Seq<char> {
    namespace_columns(
        decimal(namespace.id as int),
        namespace.name@,
        match namespace.description {
            Some(d) => d@,
            None => "-"@,
        },
    )
}

/// The lines of the namespaces.
pub open spec fn namespace_lines(namespaces: Seq<Namespace>) -> Seq<char>
    decreases namespaces.len(),
{
    if namespaces.len() == 0 {
        Seq::empty()
    } else {
        namespace_lines(namespaces.drop_last()) + namespace_line(namespaces.last())
    }
}

/// The listing of the namespaces: a heading, a line of dashes and one line
/// for each namespace; one sentence where there is none.
pub open spec fn namespace_listing(namespaces: Seq<Namespace>) -> Seq<char> {
    if namespaces.len() == 0 {
        "No namespaces found.\n"@
    } else {
        namespace_columns("ID"@, "Name"@, "Description"@) + dashes(64) + "\n"@ + namespace_lines(
            namespaces,
        )
    }
}

/// A line of the listing of members: user and role in columns of 20 and 10
/// characters.
pub open spec fn member_columns(user: Seq<char>, role: Seq<char>) -> Seq<char> {
    padded_right(user, 20) + " "@ + padded_right(role, 10) + "\n"@
}

/// The line of one member; a question mark stands for a user name that is
/// not known.
pub open spec fn member_line(member: NamespaceMembership) -> Seq<char> {
    member_columns(
        match member.user_name {
            Some(n) => n@,
            None => "?"@,
        },
        member.role@,
    )
}

/// The lines of the members.
pub open spec fn member_lines(members: Seq<NamespaceMembership>) -> Seq<char>
    decreases members.len(),
{
    if members.len() == 0 {
        Seq::empty()
    } else {
        member_lines(members.drop_last()) + member_line(members.last())
    }
}

/// The listing of the members of a namespace: a title, a heading, a line of
/// dashes and one line for each member; one sentence where there is none.
pub open spec fn member_listing(namespace: Seq<char>, members: Seq<NamespaceMembership>) -> Seq<
    char,
> {
    if members.len() == 0 {
        quoted("No members in namespace "@, namespace, ".\n"@)
    } else {
        quoted("Members of namespace "@, namespace, ":\n"@) + member_columns("User"@, "Role"@)
            + dashes(30) + "\n"@ + member_lines(members)
    }
}

/// The namespace that a listing of members is about: the one that is named,
/// or the current one.
pub open spec fn members_target<T: View<V = Seq<char>>>(
    named: Option<T>,
    current: Seq<char>,
) -> Seq<char> {
    match named {
        Some(n) => n@,
        None => current,
    }
}

/// Whether `result` is an answer to the deletion of the namespace `name`:
/// for the default namespace the failure `Protected`; for any other the
/// confirmation, or a failure that the deletion can end in.
pub open spec fn is_deletion_answer(
    name: Seq<char>,
    result: Result<String, DirectoryError>,
) -> bool {
    match result {
        Ok(text) => name != default_name() && text@ == namespace_deleted_text(name),
        Err(e) => if name == default_name() {
            e@ == DirectoryErrorView::Protected
        } else {
            can_fail_deletion(SubjectView::Namespace(name), e)
        },
    }
}

/// Whether `result` is an answer to giving `user` the role named `role` in
/// `namespace`: for a name that is no role's the failure `InvalidRole`; for
/// any other the confirmation, or a failure that this can end in.
pub open spec fn is_adding_answer(
    namespace: Seq<char>,
    user: Seq<char>,
    role: Seq<char>,
    result: Result<String, DirectoryError>,
) -> bool {
    match result {
        Ok(text) => role_named(role).is_some() && text@ == user_added_text(user, namespace, role),
        Err(e) => if role_named(role).is_none() {
            e@ == DirectoryErrorView::InvalidRole(role)
        } else {
            can_fail_adding(namespace, user, e)
        },
    }
}

/// Whether `result` is an answer to taking `user` out of `namespace`: the
/// confirmation, or a failure that the removal can end in.
pub open spec fn is_removal_answer(
    namespace: Seq<char>,
    user: Seq<char>,
    result: Result<String, DirectoryError>,
) -> bool {
    match result {
        Ok(text) => text@ == user_removed_text(user, namespace),
        Err(e) => can_fail_removal(namespace, user, e),
    }
}

/// The answer to the creation of a namespace.
pub fn describe_namespace_created(name: &str, id: i64) -> (text: String)
    ensures
        text@ == namespace_created_text(name@, id),
{
    let digits = format_int(id as i128);
    let mut text = String::new();
    push_quoted(&mut text, "Created namespace ", name, " (id: ");
    text.append(digits.as_str());
    text.append(")\n");
    proof {
        assert(text@ =~= namespace_created_text(name@, id));
    }
    text
}

/// The answer to the deletion of a namespace.
pub fn describe_namespace_deleted(name: &str) -> (text: String)
    ensures
        text@ == namespace_deleted_text(name@),
{
    let mut text = String::new();
    push_quoted(&mut text, "Deleted namespace ", name, "\n");
    proof {
        assert(text@ =~= namespace_deleted_text(name@));
    }
    text
}

/// The advice on how to work in another namespace. Nothing is changed: the
/// namespace is chosen anew with each command.
pub fn handle_ns_switch(name: &str) -> (text: String)
    ensures
        text@ == switch_text(name@),
{
    let mut text = String::new();
    push_quoted(&mut text, "To switch to namespace ", name, ", either:\n  - Use: ctm --ns ");
    text.append(name);
    text.append(" <command>\n  - Set: export CTM_NAMESPACE=");
    text.append(name);
    text.append("\n\nPersistent config support coming in a future update.\n");
    proof {
        assert(text@ =~= switch_text(name@));
    }
    text
}

/// The answer to a new membership.
pub fn describe_user_added(user: &str, namespace: &str, role: &str) -> (text: String)
    ensures
        text@ == user_added_text(user@, namespace@, role@),
{
    let mut text = String::new();
    push_quoted(&mut text, "Added user ", user, " to namespace ");
    push_quoted(&mut text, "", namespace, " with role ");
    push_quoted(&mut text, "", role, "\n");
    proof {
        assert(text@ =~= user_added_text(user@, namespace@, role@));
    }
    text
}

/// The answer to the end of a membership.
pub fn describe_user_removed(user: &str, namespace: &str) -> (text: String)
    ensures
        text@ == user_removed_text(user@, namespace@),
{
    let mut text = String::new();
    push_quoted(&mut text, "Removed user ", user, " from namespace ");
    push_quoted(&mut text, "", namespace, "\n");
    proof {
        assert(text@ =~= user_removed_text(user@, namespace@));
    }
    text
}

/// Appends a line of the listing of namespaces.
fn push_namespace_columns(out: &mut String, id: &str, name: &str, description: &str)
    ensures
        final(out)@ == old(out)@ + namespace_columns(id@, name@, description@),
{
    push_padded_right(out, id, 4);
    out.append(" ");
    push_padded_right(out, name, 20);
    out.append(" ");
    push_padded_right(out, description, 40);
    out.append("\n");
    proof {
        assert(final(out)@ =~= old(out)@ + namespace_columns(id@, name@, description@));
    }
}

/// The listing of the namespaces.
pub fn describe_namespaces(namespaces: &Vec<Namespace>) -> (text: String)
    ensures
        text@ == namespace_listing(namespaces@),
{
    if namespaces.len() == 0 {
        return String::from_str("No namespaces found.\n");
    }
    let mut out = String::new();
    push_namespace_columns(&mut out, "ID", "Name", "Description");
    push_dash_line(&mut out, 64);
    let ghost head = out@;
    let mut i: usize = 0;
    proof {
        assert(out@ =~= head + namespace_lines(namespaces@.take(0)));
    }
    while i < namespaces.len()
        invariant
            i <= namespaces.len(),
            out@ == head + namespace_lines(namespaces@.take(i as int)),
        decreases namespaces.len() - i,
    {
        let namespace = &namespaces[i];
        let id = format_int(namespace.id as i128);
        match &namespace.description {
            Some(d) => {
                push_namespace_columns(&mut out, id.as_str(), namespace.name.as_str(), d.as_str());
            },
            None => {
                push_namespace_columns(&mut out, id.as_str(), namespace.name.as_str(), "-");
            },
        }
        proof {
            assert(namespaces@.take(i + 1).drop_last() =~= namespaces@.take(i as int));
            assert(namespaces@.take(i + 1).last() == namespaces@[i as int]);
            assert(out@ =~= head + namespace_lines(namespaces@.take(i + 1)));
        }
        i = i + 1;
    }
    proof {
        assert(namespaces@.take(i as int) =~= namespaces@);
        assert(out@ =~= namespace_listing(namespaces@));
    }
    out
}

/// Appends a line of the listing of members.
fn push_member_columns(out: &mut String, user: &str, role: &str)
    ensures
        final(out)@ == old(out)@ + member_columns(user@, role@),
{
    push_padded_right(out, user, 20);
    out.append(" ");
    push_padded_right(out, role, 10);
    out.append("\n");
    proof {
        assert(final(out)@ =~= old(out)@ + member_columns(user@, role@));
    }
}

/// The listing of the members of a namespace.
pub fn describe_members(namespace: &str, members: &Vec<NamespaceMembership>) -> (text: String)
    ensures
        text@ == member_listing(namespace@, members@),
{
    let mut out = String::new();
    if members.len() == 0 {
        push_quoted(&mut out, "No members in namespace ", namespace, ".\n");
        proof {
            assert(out@ =~= member_listing(namespace@, members@));
        }
        return out;
    }
    push_quoted(&mut out, "Members of namespace ", namespace, ":\n");
    push_member_columns(&mut out, "User", "Role");
    push_dash_line(&mut out, 30);
    let ghost head = out@;
    let mut i: usize = 0;
    proof {
        assert(out@ =~= head + member_lines(members@.take(0)));
    }
    while i < members.len()
        invariant
            i <= members.len(),
            out@ == head + member_lines(members@.take(i as int)),
        decreases members.len() - i,
    {
        let member = &members[i];
        match &member.user_name {
            Some(n) => {
                push_member_columns(&mut out, n.as_str(), member.role.as_str());
            },
            None => {
                push_member_columns(&mut out, "?", member.role.as_str());
            },
        }
        proof {
            assert(members@.take(i + 1).drop_last() =~= members@.take(i as int));
            assert(members@.take(i + 1).last() == members@[i as int]);
            assert(out@ =~= head + member_lines(members@.take(i + 1)));
        }
        i = i + 1;
    }
    proof {
        assert(members@.take(i as int) =~= members@);
        assert(out@ =~= member_listing(namespace@, members@));
    }
    out
}

/// Creates a namespace owned by the current user and answers with the new
/// identifier.
pub fn handle_ns_create(
    conn: &rusqlite::Connection,
    current_user_id: i64,
    name: &str,
    description: Option<&str>,
) -> (result: Result<String, DirectoryError>)
    ensures
        match result {
            Ok(text) => was_namespace_created(text@, name@),
            Err(e) => can_fail_creation(SubjectView::Namespace(name@), e),
        },
{
    let id = create_namespace(conn, name, description, current_user_id)?;
    let text = describe_namespace_created(name, id);
    proof {
        assert(text@ == namespace_created_text(name@, id));
    }
    Ok(text)
}

/// Lists the namespaces.
pub fn handle_ns_list(conn: &rusqlite::Connection) -> (result: Result<String, DirectoryError>)
    ensures
        match result {
            Ok(text) => exists|namespaces: Seq<Namespace>| text@ == namespace_listing(namespaces),
            Err(e) => e is Storage,
        },
{
    let namespaces = list_namespaces(conn)?;
    let text = describe_namespaces(&namespaces);
    proof {
        assert(text@ == namespace_listing(namespaces@));
    }
    Ok(text)
}

/// Deletes a namespace and answers with a confirmation.
pub fn handle_ns_delete(conn: &rusqlite::Connection, name: &str) -> (result: Result<
    String,
    DirectoryError,
>)
    ensures
        is_deletion_answer(name@, result),
{
    delete_namespace(conn, name)?;
    Ok(describe_namespace_deleted(name))
}

/// Gives a user a role in a namespace and answers with a confirmation.
pub fn handle_ns_add_user(
    conn: &rusqlite::Connection,
    namespace: &str,
    user: &str,
    role: &str,
) -> (result: Result<String, DirectoryError>)
    ensures
        is_adding_answer(namespace@, user@, role@, result),
{
    add_user_to_namespace(conn, namespace, user, role)?;
    Ok(describe_user_added(user, namespace, role))
}

/// Takes a user out of a namespace and answers with a confirmation.
pub fn handle_ns_remove_user(conn: &rusqlite::Connection, namespace: &str, user: &str) -> (result:
    Result<String, DirectoryError>)
    ensures
        is_removal_answer(namespace@, user@, result),
{
    remove_user_from_namespace(conn, namespace, user)?;
    Ok(describe_user_removed(user, namespace))
}

/// Lists the members of the namespace that is named, or of the current one.
pub fn handle_ns_members(
    conn: &rusqlite::Connection,
    current_namespace: &str,
    namespace: Option<&str>,
) -> (result: Result<String, DirectoryError>)
    ensures
        match result {
            Ok(text) => exists|members: Seq<NamespaceMembership>|
                text@ == member_listing(members_target(namespace, current_namespace@), members),
            Err(e) => e@ == DirectoryErrorView::NotFound(
                SubjectView::Namespace(members_target(namespace, current_namespace@)),
            ) || e is Storage,
        },
{
    let target = match namespace {
        Some(n) => n,
        None => current_namespace,
    };
    let members = list_namespace_members(conn, target)?;
    let text = describe_members(target, &members);
    proof {
        assert(text@ == member_listing(members_target(namespace, current_namespace@), members@));
    }
    Ok(text)
}

/// Carries out a command on the namespaces and gives the text that answers
/// it. The current user becomes the owner of a namespace that is created;
/// the current namespace is the one whose members are listed where none is
/// named.
pub fn handle_namespace_cmd(
    conn: &rusqlite::Connection,
    current_user_id: i64,
    current_namespace: &str,
    cmd: &NamespaceCommand,
) -> (result: Result<String, DirectoryError>)
    ensures
        match *cmd {
            NamespaceCommand::Create { name, description } => match result {
                Ok(text) => was_namespace_created(text@, name@),
                Err(e) => can_fail_creation(SubjectView::Namespace(name@), e),
            },
            NamespaceCommand::List => match result {
                Ok(text) => exists|namespaces: Seq<Namespace>|
                    text@ == namespace_listing(namespaces),
                Err(e) => e is Storage,
            },
            NamespaceCommand::Delete { name } => is_deletion_answer(name@, result),
            NamespaceCommand::Switch { name } => result matches Ok(text) && text@ == switch_text(
                name@,
            ),
            NamespaceCommand::AddUser { namespace, user, role } => is_adding_answer(
                namespace@,
                user@,
                role@,
                result,
            ),
            NamespaceCommand::RemoveUser { namespace, user } => is_removal_answer(
                namespace@,
                user@,
                result,
            ),
            NamespaceCommand::Members { namespace } => match result {
                Ok(text) => exists|members: Seq<NamespaceMembership>|
                    text@ == member_listing(
                        members_target(namespace, current_namespace@),
                        members,
                    ),
                Err(e) => e@ == DirectoryErrorView::NotFound(
                    SubjectView::Namespace(members_target(namespace, current_namespace@)),
                ) || e is Storage,
            },
        },
{
    match cmd {
        NamespaceCommand::Create { name, description } => match description {
            Some(d) => handle_ns_create(conn, current_user_id, name.as_str(), Some(d.as_str())),
            None => handle_ns_create(conn, current_user_id, name.as_str(), None),
        },
        NamespaceCommand::List => handle_ns_list(conn),
        NamespaceCommand::Delete { name } => handle_ns_delete(conn, name.as_str()),
        NamespaceCommand::Switch { name } => Ok(handle_ns_switch(name.as_str())),
        NamespaceCommand::AddUser { namespace, user, role } => handle_ns_add_user(
            conn,
            namespace.as_str(),
            user.as_str(),
            role.as_str(),
        ),
        NamespaceCommand::RemoveUser { namespace, user } => handle_ns_remove_user(
            conn,
            namespace.as_str(),
            user.as_str(),
        ),
        NamespaceCommand::Members { namespace } => match namespace {
            Some(n) => handle_ns_members(conn, current_namespace, Some(n.as_str())),
            None => handle_ns_members(conn, current_namespace, None),
        },
    }
}

} // verus!
