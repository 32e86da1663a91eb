//! The user commands: what each does and the text it answers with.

use crate::error::{can_fail_creation, can_fail_deletion, DirectoryError, SubjectView};
use crate::render::{dashes, push_dash_line, push_quoted, quoted};
use crate::text::{decimal, format_int, padded_right, push_padded_right};
use crate::user::{create_user, delete_user, list_users, User};
use vstd::prelude::*;
use vstd::string::*;

verus! {

/// A command on the user directory.
#[derive(Clone, Debug, PartialEq, Eq)]
pub enum UserCommand {
    /// Create a user.
    Create { name: String, display_name: Option<String> },
    /// List all users.
    List,
    /// Delete a user.
    Delete { name: String },
}

/// The answer to the creation of a user: the name the user is shown under
/// and the new identifier.
pub open spec fn user_created_text(shown: Seq<char>, id: i64) -> Seq<char> {
    quoted("Created user "@, shown, " (id: "@) + decimal(id as int) + ")\n"@
}

/// The name a new user is shown under: the display name, or the name where
/// none is given.
pub open spec fn shown_name_of<T: View<V = Seq<char>>>(
    name: Seq<char>,
    display_name: Option<T>,
) -> Seq<char> {
    match display_name {
        Some(d) => d@,
        None => name,
    }
}

/// Whether a text is the answer to the creation of a user, whatever the new
/// identifier.
pub open spec fn was_created(text: Seq<char>, shown: Seq<char>) -> bool {
    exists|id: i64| text == #[trigger] user_created_text(shown, id)
}

/// The answer to the deletion of a user.
pub open spec fn user_deleted_text(name: Seq<char>) -> Seq<char> {
    quoted("Deleted user "@, name, "\n"@)
}

/// A line of the listing: identifier, name and display name in columns of
/// 4, 20 and 30 characters.
pub open spec fn user_columns(id: Seq<char>, name: Seq<char>, shown: Seq<char>) -> Seq<char> {
    padded_right(id, 4) + " "@ + padded_right(name, 20) + " "@ + padded_right(shown, 30) + "\n"@
}

/// The line of one user; a dash stands for a display name that was not
/// given.
pub open spec fn user_line(user: User) -> Seq<char> {
    user_columns(
        decimal(user.id as int),
        user.name@,
        match user.display_name {
            Some(d) => d@,
            None => "-"@,
        },
    )
}

/// The lines of the users.
pub open spec fn user_lines(users: Seq<User>) -> Seq<char>
    decreases users.len(),
{
    if users.len() == 0 {
        Seq::empty()
    } else {
        user_lines(users.drop_last()) + user_line(users.last())
    }
}

/// The listing of the users: a heading, a line of dashes and one line for
/// each user; one sentence where there is none.
pub open spec fn user_listing(users: Seq<User>) -> Seq<char> {
    if users.len() == 0 {
        "No users found.\n"@
    } else {
        user_columns("ID"@, "Name"@, "Display Name"@) + dashes(54) + "\n"@ + user_lines(users)
    }
}

/// The answer to the creation of a user.
pub fn describe_user_created(name: &str, display_name: Option<&str>, id: i64) -> (text: String)
    ensures
        text@ == user_created_text(shown_name_of(name@, display_name), id),
{
    let shown = match display_name {
        Some(d) => d,
        None => name,
    };
    let digits = format_int(id as i128);
    let mut text = String::new();
    push_quoted(&mut text, "Created user ", shown, " (id: ");
    text.append(digits.as_str());
    text.append(")\n");
    proof {
        assert(text@ =~= user_created_text(shown@, id));
    }
    text
}

/// The answer to the deletion of a user.
pub fn describe_user_deleted(name: &str) -> (text: String)
    ensures
        text@ == user_deleted_text(name@),
{
    let mut text = String::new();
    push_quoted(&mut text, "Deleted user ", name, "\n");
    proof {
        assert(text@ =~= user_deleted_text(name@));
    }
    text
}

/// Appends a line of the listing.
fn push_user_columns(out: &mut String, id: &str, name: &str, shown: &str)
    ensures
        final(out)@ == old(out)@ + user_columns(id@, name@, shown@),
{
    push_padded_right(out, id, 4);
    out.append(" ");
    push_padded_right(out, name, 20);
    out.append(" ");
    push_padded_right(out, shown, 30);
    out.append("\n");
    proof {
        assert(final(out)@ =~= old(out)@ + user_columns(id@, name@, shown@));
    }
}

/// The listing of the users.
pub fn describe_users(users: &Vec<User>) -> (text: String)
    ensures
        text@ == user_listing(users@),
{
    if users.len() == 0 {
        return String::from_str("No users found.\n");
    }
    let mut out = String::new();
    push_user_columns(&mut out, "ID", "Name", "Display Name");
    push_dash_line(&mut out, 54);
    let ghost head = out@;
    let mut i: usize = 0;
    proof {
        assert(out@ =~= head + user_lines(users@.take(0)));
    }
    while i < users.len()
        invariant
            i <= users.len(),
            out@ == head + user_lines(users@.take(i as int)),
        decreases users.len() - i,
    {
        let user = &users[i];
        let id = format_int(user.id as i128);
        match &user.display_name {
            Some(d) => {
                push_user_columns(&mut out, id.as_str(), user.name.as_str(), d.as_str());
            },
            None => {
                push_user_columns(&mut out, id.as_str(), user.name.as_str(), "-");
            },
        }
        proof {
            assert(users@.take(i + 1).drop_last() =~= users@.take(i as int));
            assert(users@.take(i + 1).last() == users@[i as int]);
            assert(out@ =~= head + user_lines(users@.take(i + 1)));
        }
        i = i + 1;
    }
    proof {
        assert(users@.take(i as int) =~= users@);
        assert(out@ =~= user_listing(users@));
    }
    out
}

/// Creates a user on behalf of the current user and answers with the new
/// identifier.
pub fn handle_user_create(
    conn: &rusqlite::Connection,
    current_user_id: i64,
    name: &str,
    display_name: Option<&str>,
) -> (result: Result<String, DirectoryError>)
    ensures
        match result {
            Ok(text) => was_created(text@, shown_name_of(name@, display_name)),
            Err(e) => can_fail_creation(SubjectView::User(name@), e),
        },
{
    let id = create_user(conn, name, display_name, Some(current_user_id))?;
    let text = describe_user_created(name, display_name, id);
    proof {
        assert(text@ == user_created_text(shown_name_of(name@, display_name), id));
    }
    Ok(text)
}

/// Lists the users.
pub fn handle_user_list(conn: &rusqlite::Connection) -> (result: Result<String, DirectoryError>)
    ensures
        match result {
            Ok(text) => exists|users: Seq<User>| text@ == user_listing(users),
            Err(e) => e is Storage,
        },
{
    let users = list_users(conn)?;
    let text = describe_users(&users);
    proof {
        assert(text@ == user_listing(users@));
    }
    Ok(text)
}

/// Deletes a user and answers with a confirmation.
pub fn handle_user_delete(conn: &rusqlite::Connection, name: &str) -> (result: Result<
    String,
    DirectoryError,
>)
    ensures
        match result {
            Ok(text) => text@ == user_deleted_text(name@),
            Err(e) => can_fail_deletion(SubjectView::User(name@), e),
        },
{
    delete_user(conn, name)?;
    Ok(describe_user_deleted(name))
}

/// Carries out a command on the user directory and gives the text that
/// answers it.
pub fn handle_user_cmd(
    conn: &rusqlite::Connection,
    current_user_id: i64,
    cmd: &UserCommand,
) -> (result: Result<String, DirectoryError>)
    ensures
        match *cmd {
            UserCommand::Create { name, display_name } => match result {
                Ok(text) => was_created(text@, shown_name_of(name@, display_name)),
                Err(e) => can_fail_creation(SubjectView::User(name@), e),
            },
            UserCommand::List => match result {
                Ok(text) => exists|users: Seq<User>| text@ == user_listing(users),
                Err(e) => e is Storage,
            },
            UserCommand::Delete { name } => match result {
                Ok(text) => text@ == user_deleted_text(name@),
                Err(e) => can_fail_deletion(SubjectView::User(name@), e),
            },
        },
{
    match cmd {
        UserCommand::Create { name, display_name } => match display_name {
            Some(d) => handle_user_create(conn, current_user_id, name.as_str(), Some(d.as_str())),
            None => handle_user_create(conn, current_user_id, name.as_str(), None),
        },
        UserCommand::List => handle_user_list(conn),
        UserCommand::Delete { name } => handle_user_delete(conn, name.as_str()),
    }
}

} // verus!
