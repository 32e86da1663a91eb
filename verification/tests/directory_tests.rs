use ctm::error::{require_found, DirectoryError, Subject};
use ctm::namespace::{
    add_user_to_namespace, check_not_protected, check_removal, create_namespace,
    delete_namespace, first_namespace, first_role, get_namespace_by_id, get_namespace_by_name,
    get_user_role, has_role_params, list_namespace_members, list_namespaces, members_with_role_params,
    membership_params, memberships_of, namespaces_of, new_namespace_params, pair_params,
    parse_role, remove_user_from_namespace, role_name, validate_role, Namespace,
    NamespaceMembership, Role,
};
use ctm::sql::{
    bad_cell, classify_insert_failure, count_of, flag_of, id_params, integer_at, name_params,
    no_params, optional_integer_at, optional_integer_param, optional_text_at,
    optional_text_param, text_at, text_param, SqlCell, SqlParam,
};
use ctm::user::{
    check_deleted, check_unused, create_user, delete_user, find_user_by_id, find_user_by_name,
    first_user, get_user_by_id, get_user_by_name, list_users, new_user_params, users_of, User,
};
use rusqlite::Connection;

const SCHEMA: &str = "
    PRAGMA foreign_keys = ON;
    CREATE TABLE users (
        id INTEGER PRIMARY KEY AUTOINCREMENT,
        name TEXT NOT NULL UNIQUE,
        display_name TEXT,
        created_at INTEGER NOT NULL,
        created_by INTEGER REFERENCES users(id)
    );
    CREATE TABLE namespaces (
        id INTEGER PRIMARY KEY AUTOINCREMENT,
        name TEXT NOT NULL UNIQUE,
        description TEXT,
        created_at INTEGER NOT NULL,
        created_by INTEGER REFERENCES users(id)
    );
    CREATE TABLE user_namespaces (
        user_id INTEGER NOT NULL REFERENCES users(id) ON DELETE CASCADE,
        namespace_id INTEGER NOT NULL REFERENCES namespaces(id) ON DELETE CASCADE,
        role TEXT NOT NULL,
        created_at INTEGER NOT NULL,
        PRIMARY KEY (user_id, namespace_id)
    );
    CREATE TABLE items (
        id INTEGER PRIMARY KEY AUTOINCREMENT,
        action TEXT NOT NULL,
        category TEXT,
        content TEXT,
        status INTEGER NOT NULL DEFAULT 0,
        create_time INTEGER NOT NULL DEFAULT 0,
        target_time INTEGER,
        priority INTEGER,
        estimate_minutes INTEGER,
        owner_id INTEGER,
        assignee_id INTEGER,
        namespace_id INTEGER
    );
";

/// A fresh database with the default user as owner of the default namespace.
fn get_test_conn() -> Connection {
    let conn = Connection::open_in_memory().unwrap();
    conn.execute_batch(SCHEMA).unwrap();
    let user_id = create_user(&conn, "default", None, None).unwrap();
    create_namespace(&conn, "default", Some("Default namespace"), user_id).unwrap();
    conn
}

fn count_rows(conn: &Connection, sql: &str) -> i64 {
    conn.query_row(sql, [], |row| row.get(0)).unwrap()
}

fn insert_task_in(conn: &Connection, namespace_id: i64, owner_id: i64, assignee_id: Option<i64>) {
    conn.execute(
        "INSERT INTO items (action, content, owner_id, assignee_id, namespace_id) VALUES ('task', 'Task', ?1, ?2, ?3)",
        (owner_id, assignee_id, namespace_id),
    )
    .unwrap();
}

#[test]
fn test_create_and_get_namespace() {
    let conn = get_test_conn();

    let user = get_user_by_name(&conn, "default").unwrap().unwrap();

    let ns_id = create_namespace(&conn, "testns", Some("Test namespace"), user.id).unwrap();
    assert!(ns_id > 0);

    let ns = get_namespace_by_name(&conn, "testns").unwrap().unwrap();
    assert_eq!(ns.name, "testns");
    assert_eq!(ns.description, Some("Test namespace".to_string()));
}

#[test]
fn test_create_duplicate_namespace() {
    let conn = get_test_conn();

    let user = get_user_by_name(&conn, "default").unwrap().unwrap();

    create_namespace(&conn, "dupns", None, user.id).unwrap();
    let result = create_namespace(&conn, "dupns", None, user.id);
    assert!(result.is_err());
    assert!(result.unwrap_err().message().contains("already exists"));
}

#[test]
fn test_add_remove_user_from_namespace() {
    let conn = get_test_conn();

    create_user(&conn, "newmember", None, None).unwrap();

    let result = add_user_to_namespace(&conn, "default", "newmember", "member");
    assert!(result.is_ok());

    let result = remove_user_from_namespace(&conn, "default", "newmember");
    assert!(result.is_ok());
}

#[test]
fn test_cannot_delete_default_namespace() {
    let conn = get_test_conn();

    let result = delete_namespace(&conn, "default");
    assert!(result.is_err());
    assert!(result
        .unwrap_err()
        .message()
        .contains("Cannot delete the 'default' namespace"));
}

#[test]
fn test_list_namespace_members() {
    let conn = get_test_conn();

    let members = list_namespace_members(&conn, "default").unwrap();
    assert!(!members.is_empty());
    assert!(members.iter().any(|m| m.role == "owner"));
}

#[test]
fn test_create_and_get_user() {
    let conn = get_test_conn();

    let user_id = create_user(&conn, "testuser", Some("Test User"), None).unwrap();
    assert!(user_id > 0);

    let user = get_user_by_name(&conn, "testuser").unwrap().unwrap();
    assert_eq!(user.name, "testuser");
    assert_eq!(user.display_name, Some("Test User".to_string()));
}

#[test]
fn test_create_duplicate_user() {
    let conn = get_test_conn();

    create_user(&conn, "duplicate", None, None).unwrap();
    let result = create_user(&conn, "duplicate", None, None);
    assert!(result.is_err());
    assert!(result.unwrap_err().message().contains("already exists"));
}

#[test]
fn test_list_users() {
    let conn = get_test_conn();

    let users = list_users(&conn).unwrap();
    assert!(!users.is_empty());
}

#[test]
fn test_delete_user() {
    let conn = get_test_conn();

    create_user(&conn, "todelete", None, None).unwrap();
    let result = delete_user(&conn, "todelete");
    assert!(result.is_ok());

    let user = get_user_by_name(&conn, "todelete").unwrap();
    assert!(user.is_none());
}

#[test]
fn second_user_of_a_name_is_refused_and_one_row_stays() {
    let conn = get_test_conn();
    create_user(&conn, "ann", None, None).unwrap();
    let second = create_user(&conn, "ann", Some("Other Ann"), None);
    assert_eq!(
        second,
        Err(DirectoryError::AlreadyExists(Subject::User("ann".to_string())))
    );
    assert_eq!(count_rows(&conn, "SELECT COUNT(*) FROM users WHERE name = 'ann'"), 1);
    let ann = get_user_by_name(&conn, "ann").unwrap().unwrap();
    assert_eq!(ann.display_name, None);
}

#[test]
fn second_namespace_of_a_name_is_refused_and_one_row_stays() {
    let conn = get_test_conn();
    let user = get_user_by_name(&conn, "default").unwrap().unwrap();
    let first = create_namespace(&conn, "team", None, user.id).unwrap();
    let second = create_namespace(&conn, "team", Some("again"), user.id);
    assert_eq!(
        second,
        Err(DirectoryError::AlreadyExists(Subject::Namespace("team".to_string())))
    );
    assert_eq!(count_rows(&conn, "SELECT COUNT(*) FROM namespaces WHERE name = 'team'"), 1);
    assert_eq!(
        count_rows(&conn, "SELECT COUNT(*) FROM user_namespaces"),
        2,
        "the refused creation leaves no membership behind"
    );
    let kept = get_namespace_by_name(&conn, "team").unwrap().unwrap();
    assert_eq!(kept.id, first);
    assert_eq!(kept.description, None);
}

#[test]
fn names_are_matched_with_case() {
    let conn = get_test_conn();
    create_user(&conn, "Ann", None, None).unwrap();
    assert!(get_user_by_name(&conn, "ann").unwrap().is_none());
    assert!(get_user_by_name(&conn, "Ann").unwrap().is_some());
    assert!(create_user(&conn, "ann", None, None).is_ok());
}

#[test]
fn default_namespace_is_protected_whatever_refers_to_it() {
    let conn = get_test_conn();
    assert_eq!(delete_namespace(&conn, "default"), Err(DirectoryError::Protected));
    let ns = get_namespace_by_name(&conn, "default").unwrap().unwrap();
    let user = get_user_by_name(&conn, "default").unwrap().unwrap();
    insert_task_in(&conn, ns.id, user.id, None);
    assert_eq!(delete_namespace(&conn, "default"), Err(DirectoryError::Protected));
    assert!(get_namespace_by_name(&conn, "default").unwrap().is_some());
}

#[test]
fn default_namespace_is_protected_even_where_it_does_not_exist() {
    let conn = Connection::open_in_memory().unwrap();
    conn.execute_batch(SCHEMA).unwrap();
    assert_eq!(delete_namespace(&conn, "default"), Err(DirectoryError::Protected));
}

#[test]
fn namespace_with_tasks_is_not_deleted() {
    let conn = get_test_conn();
    let user = get_user_by_name(&conn, "default").unwrap().unwrap();
    let id = create_namespace(&conn, "busy", None, user.id).unwrap();
    insert_task_in(&conn, id, user.id, None);
    insert_task_in(&conn, id, user.id, Some(user.id));
    assert_eq!(
        delete_namespace(&conn, "busy"),
        Err(DirectoryError::InUse(Subject::Namespace("busy".to_string()), 2))
    );
    assert!(get_namespace_by_name(&conn, "busy").unwrap().is_some());
    assert_eq!(list_namespace_members(&conn, "busy").unwrap().len(), 1);
}

#[test]
fn deleting_a_namespace_removes_its_memberships() {
    let conn = get_test_conn();
    let user = get_user_by_name(&conn, "default").unwrap().unwrap();
    let id = create_namespace(&conn, "gone", None, user.id).unwrap();
    create_user(&conn, "bob", None, None).unwrap();
    add_user_to_namespace(&conn, "gone", "bob", "viewer").unwrap();
    assert_eq!(delete_namespace(&conn, "gone"), Ok(()));
    assert!(get_namespace_by_id(&conn, id).unwrap().is_none());
    assert_eq!(
        count_rows(&conn, "SELECT COUNT(*) FROM user_namespaces WHERE namespace_id != 1"),
        0
    );
}

#[test]
fn deleting_a_missing_namespace_is_not_found() {
    let conn = get_test_conn();
    assert_eq!(
        delete_namespace(&conn, "nowhere"),
        Err(DirectoryError::NotFound(Subject::Namespace("nowhere".to_string())))
    );
}

#[test]
fn creator_becomes_the_only_owner() {
    let conn = get_test_conn();
    let ann = create_user(&conn, "ann", None, None).unwrap();
    let bob = create_user(&conn, "bob", None, None).unwrap();
    let first = create_namespace(&conn, "first", None, ann).unwrap();
    let second = create_namespace(&conn, "second", None, bob).unwrap();
    let members = list_namespace_members(&conn, "first").unwrap();
    assert_eq!(members.len(), 1);
    assert_eq!(members[0].user_id, ann);
    assert_eq!(members[0].namespace_id, first);
    assert_eq!(members[0].role, "owner");
    assert_eq!(members[0].user_name, Some("ann".to_string()));
    let members = list_namespace_members(&conn, "second").unwrap();
    assert_eq!(members.len(), 1);
    assert_eq!(members[0].user_id, bob);
    assert_eq!(members[0].namespace_id, second);
    assert_eq!(get_user_role(&conn, ann, second).unwrap(), None);
    assert_eq!(get_user_role(&conn, bob, first).unwrap(), None);
}

#[test]
fn namespace_without_owner_does_not_persist() {
    let conn = get_test_conn();
    let result = create_namespace(&conn, "orphan", None, 9999);
    assert!(matches!(result, Err(DirectoryError::Storage(_))));
    assert!(get_namespace_by_name(&conn, "orphan").unwrap().is_none());
    assert_eq!(count_rows(&conn, "SELECT COUNT(*) FROM namespaces"), 1);
}

#[test]
fn failed_membership_insert_rolls_the_namespace_back() {
    let conn = Connection::open_in_memory().unwrap();
    conn.execute_batch(SCHEMA).unwrap();
    conn.execute_batch("PRAGMA foreign_keys = OFF; DROP TABLE user_namespaces;").unwrap();
    let user = create_user(&conn, "ann", None, None).unwrap();
    let result = create_namespace(&conn, "half", None, user);
    assert!(matches!(result, Err(DirectoryError::Storage(_))));
    assert_eq!(count_rows(&conn, "SELECT COUNT(*) FROM namespaces"), 0);
    assert!(conn.is_autocommit());
}

#[test]
fn creation_inside_a_transaction_leaves_it_open() {
    let conn = get_test_conn();
    let user = get_user_by_name(&conn, "default").unwrap().unwrap();
    conn.execute_batch("BEGIN").unwrap();
    let id = create_namespace(&conn, "inner", None, user.id).unwrap();
    assert!(!conn.is_autocommit());
    conn.execute_batch("ROLLBACK").unwrap();
    assert!(get_namespace_by_id(&conn, id).unwrap().is_none());
}

#[test]
fn only_owner_cannot_be_removed() {
    let conn = get_test_conn();
    let result = remove_user_from_namespace(&conn, "default", "default");
    assert_eq!(
        result,
        Err(DirectoryError::LastOwner {
            user: "default".to_string(),
            namespace: "default".to_string()
        })
    );
    let user = get_user_by_name(&conn, "default").unwrap().unwrap();
    let ns = get_namespace_by_name(&conn, "default").unwrap().unwrap();
    assert_eq!(get_user_role(&conn, user.id, ns.id).unwrap(), Some("owner".to_string()));
}

#[test]
fn owner_beside_another_owner_can_be_removed() {
    let conn = get_test_conn();
    create_user(&conn, "second", None, None).unwrap();
    add_user_to_namespace(&conn, "default", "second", "owner").unwrap();
    assert_eq!(remove_user_from_namespace(&conn, "default", "default"), Ok(()));
    assert_eq!(
        remove_user_from_namespace(&conn, "default", "second"),
        Err(DirectoryError::LastOwner {
            user: "second".to_string(),
            namespace: "default".to_string()
        })
    );
}

#[test]
fn member_who_is_no_owner_can_be_removed() {
    let conn = get_test_conn();
    create_user(&conn, "guest", None, None).unwrap();
    add_user_to_namespace(&conn, "default", "guest", "admin").unwrap();
    assert_eq!(remove_user_from_namespace(&conn, "default", "guest"), Ok(()));
    assert_eq!(list_namespace_members(&conn, "default").unwrap().len(), 1);
}

#[test]
fn removing_someone_who_is_no_member_is_not_found() {
    let conn = get_test_conn();
    create_user(&conn, "stranger", None, None).unwrap();
    assert_eq!(
        remove_user_from_namespace(&conn, "default", "stranger"),
        Err(DirectoryError::NotFound(Subject::Membership {
            user: "stranger".to_string(),
            namespace: "default".to_string()
        }))
    );
    assert_eq!(
        remove_user_from_namespace(&conn, "nowhere", "stranger"),
        Err(DirectoryError::NotFound(Subject::Namespace("nowhere".to_string())))
    );
    assert_eq!(
        remove_user_from_namespace(&conn, "default", "nobody"),
        Err(DirectoryError::NotFound(Subject::User("nobody".to_string())))
    );
}

#[test]
fn adding_twice_leaves_one_membership_with_the_role() {
    let conn = get_test_conn();
    let id = create_user(&conn, "carl", None, None).unwrap();
    assert_eq!(add_user_to_namespace(&conn, "default", "carl", "admin"), Ok(()));
    assert_eq!(add_user_to_namespace(&conn, "default", "carl", "admin"), Ok(()));
    let rows = count_rows(
        &conn,
        "SELECT COUNT(*) FROM user_namespaces un JOIN users u ON u.id = un.user_id WHERE u.name = 'carl'",
    );
    assert_eq!(rows, 1);
    let ns = get_namespace_by_name(&conn, "default").unwrap().unwrap();
    assert_eq!(get_user_role(&conn, id, ns.id).unwrap(), Some("admin".to_string()));
}

#[test]
fn adding_again_changes_the_role() {
    let conn = get_test_conn();
    let id = create_user(&conn, "dora", None, None).unwrap();
    add_user_to_namespace(&conn, "default", "dora", "viewer").unwrap();
    add_user_to_namespace(&conn, "default", "dora", "member").unwrap();
    let ns = get_namespace_by_name(&conn, "default").unwrap().unwrap();
    assert_eq!(get_user_role(&conn, id, ns.id).unwrap(), Some("member".to_string()));
    assert_eq!(list_namespace_members(&conn, "default").unwrap().len(), 2);
}

#[test]
fn role_outside_the_four_is_refused_before_anything_is_looked_up() {
    let conn = get_test_conn();
    assert_eq!(
        add_user_to_namespace(&conn, "nowhere", "nobody", "boss"),
        Err(DirectoryError::InvalidRole("boss".to_string()))
    );
    assert_eq!(
        add_user_to_namespace(&conn, "default", "default", "Owner"),
        Err(DirectoryError::InvalidRole("Owner".to_string()))
    );
    assert_eq!(
        add_user_to_namespace(&conn, "nowhere", "default", "member"),
        Err(DirectoryError::NotFound(Subject::Namespace("nowhere".to_string())))
    );
    assert_eq!(
        add_user_to_namespace(&conn, "default", "nobody", "member"),
        Err(DirectoryError::NotFound(Subject::User("nobody".to_string())))
    );
}

#[test]
fn members_are_listed_by_user_name() {
    let conn = get_test_conn();
    create_user(&conn, "zoe", None, None).unwrap();
    create_user(&conn, "adam", None, None).unwrap();
    add_user_to_namespace(&conn, "default", "zoe", "member").unwrap();
    add_user_to_namespace(&conn, "default", "adam", "viewer").unwrap();
    let members = list_namespace_members(&conn, "default").unwrap();
    let names: Vec<Option<String>> = members.iter().map(|m| m.user_name.clone()).collect();
    assert_eq!(
        names,
        vec![
            Some("adam".to_string()),
            Some("default".to_string()),
            Some("zoe".to_string())
        ]
    );
    assert_eq!(members[0].parsed_role(), Some(Role::Viewer));
    assert_eq!(
        list_namespace_members(&conn, "nowhere"),
        Err(DirectoryError::NotFound(Subject::Namespace("nowhere".to_string())))
    );
}

#[test]
fn listings_are_ordered_by_name() {
    let conn = get_test_conn();
    let user = get_user_by_name(&conn, "default").unwrap().unwrap();
    create_namespace(&conn, "zeta", None, user.id).unwrap();
    create_namespace(&conn, "alpha", Some("first"), user.id).unwrap();
    create_user(&conn, "bea", None, Some(user.id)).unwrap();
    let names: Vec<String> = list_namespaces(&conn).unwrap().into_iter().map(|n| n.name).collect();
    assert_eq!(names, vec!["alpha", "default", "zeta"]);
    let users = list_users(&conn).unwrap();
    let names: Vec<&str> = users.iter().map(|u| u.name.as_str()).collect();
    assert_eq!(names, vec!["bea", "default"]);
    assert_eq!(users[0].created_by, Some(user.id));
    assert_eq!(users[1].created_by, None);
}

#[test]
fn lookups_by_identifier() {
    let conn = get_test_conn();
    let id = create_user(&conn, "eve", Some("Eve E."), None).unwrap();
    let eve = get_user_by_id(&conn, id).unwrap().unwrap();
    assert_eq!(eve.name, "eve");
    assert_eq!(eve.id, id);
    assert!(get_user_by_id(&conn, id + 100).unwrap().is_none());
    let ns = get_namespace_by_name(&conn, "default").unwrap().unwrap();
    assert_eq!(get_namespace_by_id(&conn, ns.id).unwrap(), Some(ns));
    assert!(get_namespace_by_id(&conn, 12345).unwrap().is_none());
}

#[test]
fn user_with_tasks_is_not_deleted() {
    let conn = get_test_conn();
    let owner = create_user(&conn, "owner1", None, None).unwrap();
    let worker = create_user(&conn, "worker", None, None).unwrap();
    insert_task_in(&conn, 1, owner, Some(worker));
    assert_eq!(
        delete_user(&conn, "owner1"),
        Err(DirectoryError::InUse(Subject::User("owner1".to_string()), 1))
    );
    assert_eq!(
        delete_user(&conn, "worker"),
        Err(DirectoryError::InUse(Subject::User("worker".to_string()), 1))
    );
    assert!(get_user_by_name(&conn, "owner1").unwrap().is_some());
    assert_eq!(
        delete_user(&conn, "nobody"),
        Err(DirectoryError::NotFound(Subject::User("nobody".to_string())))
    );
}

#[test]
fn deleting_a_user_removes_the_memberships() {
    let conn = get_test_conn();
    create_user(&conn, "temp", None, None).unwrap();
    add_user_to_namespace(&conn, "default", "temp", "member").unwrap();
    assert_eq!(delete_user(&conn, "temp"), Ok(()));
    assert_eq!(list_namespace_members(&conn, "default").unwrap().len(), 1);
}

#[test]
fn storage_failures_carry_the_engine_message() {
    let conn = Connection::open_in_memory().unwrap();
    match list_users(&conn) {
        Err(DirectoryError::Storage(text)) => assert!(text.contains("no such table")),
        other => panic!("unexpected {:?}", other),
    }
    match create_user(&conn, "x", None, None) {
        Err(DirectoryError::Storage(text)) => assert!(text.contains("no such table")),
        other => panic!("unexpected {:?}", other),
    }
}

#[test]
fn insert_failures_are_classified_by_the_message() {
    assert_eq!(
        classify_insert_failure(
            "UNIQUE constraint failed: users.name".to_string(),
            Subject::User("ann".to_string())
        ),
        DirectoryError::AlreadyExists(Subject::User("ann".to_string()))
    );
    assert_eq!(
        classify_insert_failure(
            "NOT NULL constraint failed: users.name".to_string(),
            Subject::User("ann".to_string())
        ),
        DirectoryError::Storage("NOT NULL constraint failed: users.name".to_string())
    );
    assert_eq!(
        classify_insert_failure(String::new(), Subject::Namespace("n".to_string())),
        DirectoryError::Storage(String::new())
    );
}

#[test]
fn deletion_guards() {
    assert_eq!(check_unused(0, Subject::User("a".to_string())), Ok(()));
    assert_eq!(check_unused(-3, Subject::User("a".to_string())), Ok(()));
    assert_eq!(
        check_unused(7, Subject::Namespace("n".to_string())),
        Err(DirectoryError::InUse(Subject::Namespace("n".to_string()), 7))
    );
    assert_eq!(check_deleted(1, Subject::User("a".to_string())), Ok(()));
    assert_eq!(
        check_deleted(0, Subject::User("a".to_string())),
        Err(DirectoryError::NotFound(Subject::User("a".to_string())))
    );
    assert_eq!(check_not_protected("default"), Err(DirectoryError::Protected));
    assert_eq!(check_not_protected("Default"), Ok(()));
    assert_eq!(check_not_protected("default "), Ok(()));
    assert_eq!(check_not_protected(""), Ok(()));
}

#[test]
fn last_owner_rule() {
    let refused = Err(DirectoryError::LastOwner {
        user: "u".to_string(),
        namespace: "n".to_string(),
    });
    assert_eq!(check_removal(true, 1, "u", "n"), refused);
    assert_eq!(check_removal(true, 0, "u", "n"), refused);
    assert_eq!(check_removal(true, 2, "u", "n"), Ok(()));
    assert_eq!(check_removal(false, 1, "u", "n"), Ok(()));
    assert_eq!(check_removal(false, 0, "u", "n"), Ok(()));
}

#[test]
fn roles_and_their_names() {
    assert_eq!(parse_role("owner"), Some(Role::Owner));
    assert_eq!(parse_role("admin"), Some(Role::Admin));
    assert_eq!(parse_role("member"), Some(Role::Member));
    assert_eq!(parse_role("viewer"), Some(Role::Viewer));
    assert_eq!(parse_role("Owner"), None);
    assert_eq!(parse_role(""), None);
    assert_eq!(parse_role("owners"), None);
    for role in [Role::Owner, Role::Admin, Role::Member, Role::Viewer] {
        assert_eq!(parse_role(role_name(role)), Some(role));
    }
    assert_eq!(validate_role("viewer"), Ok(Role::Viewer));
    assert_eq!(
        validate_role("root"),
        Err(DirectoryError::InvalidRole("root".to_string()))
    );
}

#[test]
fn parameters_for_statements() {
    assert_eq!(text_param("a"), SqlParam::Text("a".to_string()));
    assert_eq!(optional_text_param(Some("b")), SqlParam::Text("b".to_string()));
    assert_eq!(optional_text_param(None), SqlParam::Null);
    assert_eq!(optional_integer_param(Some(-4)), SqlParam::Integer(-4));
    assert_eq!(optional_integer_param(None), SqlParam::Null);
}

#[test]
fn cells_are_read_by_kind() {
    let row = vec![
        SqlCell::Integer(5),
        SqlCell::Text("t".to_string()),
        SqlCell::Null,
        SqlCell::Real,
        SqlCell::Blob,
    ];
    assert_eq!(integer_at(&row, 0), Ok(5));
    assert_eq!(integer_at(&row, 1), Err(bad_cell(1)));
    assert_eq!(integer_at(&row, 2), Err(bad_cell(2)));
    assert_eq!(integer_at(&row, 5), Err(bad_cell(5)));
    assert_eq!(text_at(&row, 1), Ok("t".to_string()));
    assert_eq!(text_at(&row, 0), Err(bad_cell(0)));
    assert_eq!(optional_integer_at(&row, 0), Ok(Some(5)));
    assert_eq!(optional_integer_at(&row, 2), Ok(None));
    assert_eq!(optional_integer_at(&row, 3), Err(bad_cell(3)));
    assert_eq!(optional_text_at(&row, 1), Ok(Some("t".to_string())));
    assert_eq!(optional_text_at(&row, 2), Ok(None));
    assert_eq!(optional_text_at(&row, 4), Err(bad_cell(4)));
    assert_eq!(optional_text_at(&row, 9), Err(bad_cell(9)));
    assert_eq!(
        bad_cell(12),
        DirectoryError::Storage("Invalid column type at index: 12".to_string())
    );
}

#[test]
fn counts_and_flags_of_results() {
    assert_eq!(count_of(&vec![vec![SqlCell::Integer(3)]]), Ok(3));
    assert!(matches!(count_of(&vec![]), Err(DirectoryError::Storage(_))));
    assert!(matches!(
        count_of(&vec![vec![SqlCell::Null]]),
        Err(DirectoryError::Storage(_))
    ));
    assert_eq!(flag_of(&vec![vec![SqlCell::Integer(1)]]), Ok(true));
    assert_eq!(flag_of(&vec![vec![SqlCell::Integer(-2)]]), Ok(true));
    assert_eq!(flag_of(&vec![vec![SqlCell::Integer(0)]]), Ok(false));
    assert_eq!(flag_of(&vec![vec![SqlCell::Integer(0)], vec![SqlCell::Integer(1)]]), Ok(false));
    assert_eq!(flag_of(&vec![]), Ok(false));
    assert_eq!(flag_of(&vec![vec![SqlCell::Null]]), Err(bad_cell(0)));
    assert_eq!(flag_of(&vec![vec![SqlCell::Text("1".to_string())]]), Err(bad_cell(0)));
    assert_eq!(flag_of(&vec![vec![]]), Err(bad_cell(0)));
}

fn user_row(id: i64, name: &str, display: Option<&str>, by: Option<i64>) -> Vec<SqlCell> {
    vec![
        SqlCell::Integer(id),
        SqlCell::Text(name.to_string()),
        display.map_or(SqlCell::Null, |d| SqlCell::Text(d.to_string())),
        SqlCell::Integer(100),
        by.map_or(SqlCell::Null, SqlCell::Integer),
    ]
}

#[test]
fn rows_become_users() {
    let row = user_row(7, "gil", Some("Gil G."), Some(1));
    assert_eq!(
        User::from_row(&row),
        Ok(User {
            id: 7,
            name: "gil".to_string(),
            display_name: Some("Gil G.".to_string()),
            created_at: 100,
            created_by: Some(1),
        })
    );
    let plain = user_row(8, "hal", None, None);
    let hal = User::from_row(&plain).unwrap();
    assert_eq!(hal.display_name, None);
    assert_eq!(hal.created_by, None);
    assert_eq!(hal.label(), "hal");
    assert_eq!(User::from_row(&row).unwrap().label(), "Gil G.");
    assert!(User::from_row(&row[..4].to_vec()).is_err());
    let mut wrong = user_row(9, "ida", None, None);
    wrong[1] = SqlCell::Integer(3);
    assert_eq!(User::from_row(&wrong), Err(bad_cell(1)));
    assert_eq!(first_user(&vec![]), Ok(None));
    assert_eq!(first_user(&vec![plain.clone(), row.clone()]).unwrap().unwrap().id, 8);
    assert_eq!(first_user(&vec![wrong.clone()]), Err(bad_cell(1)));
    let both = users_of(&vec![row.clone(), plain.clone()]).unwrap();
    assert_eq!(both.len(), 2);
    assert_eq!(both[1].name, "hal");
    assert_eq!(users_of(&vec![row, wrong, plain]), Err(bad_cell(1)));
}

#[test]
fn rows_become_namespaces_and_memberships() {
    let row = vec![
        SqlCell::Integer(2),
        SqlCell::Text("ops".to_string()),
        SqlCell::Null,
        SqlCell::Integer(50),
        SqlCell::Integer(1),
    ];
    assert_eq!(
        Namespace::from_row(&row),
        Ok(Namespace {
            id: 2,
            name: "ops".to_string(),
            description: None,
            created_at: 50,
            created_by: Some(1),
        })
    );
    assert_eq!(first_namespace(&vec![]), Ok(None));
    assert_eq!(namespaces_of(&vec![row.clone(), row.clone()]).unwrap().len(), 2);
    assert!(Namespace::from_row(&vec![SqlCell::Integer(2)]).is_err());
    let member = vec![
        SqlCell::Integer(1),
        SqlCell::Integer(2),
        SqlCell::Text("admin".to_string()),
        SqlCell::Integer(60),
        SqlCell::Text("ann".to_string()),
    ];
    assert_eq!(
        NamespaceMembership::from_row(&member),
        Ok(NamespaceMembership {
            user_id: 1,
            namespace_id: 2,
            role: "admin".to_string(),
            created_at: 60,
            user_name: Some("ann".to_string()),
        })
    );
    assert_eq!(memberships_of(&vec![member.clone()]).unwrap().len(), 1);
    assert_eq!(memberships_of(&vec![member, row]), Err(bad_cell(1)));
    assert_eq!(first_role(&vec![]), Ok(None));
    assert_eq!(
        first_role(&vec![vec![SqlCell::Text("viewer".to_string())]]),
        Ok(Some("viewer".to_string()))
    );
    assert_eq!(first_role(&vec![vec![SqlCell::Integer(1)]]), Err(bad_cell(0)));
}

#[test]
fn users_are_found_in_a_snapshot() {
    let make = |id: i64, name: &str| User {
        id,
        name: name.to_string(),
        display_name: None,
        created_at: 0,
        created_by: None,
    };
    let users = vec![make(1, "ann"), make(2, "bob"), make(1, "late"), make(3, "bob")];
    assert_eq!(find_user_by_id(&users, 1), Some(2));
    assert_eq!(find_user_by_id(&users, 2), Some(1));
    assert_eq!(find_user_by_id(&users, 9), None);
    assert_eq!(find_user_by_name(&users, "bob"), Some(1));
    assert_eq!(find_user_by_name(&users, "Bob"), None);
    assert_eq!(find_user_by_name(&vec![], "bob"), None);
}

#[test]
fn messages_say_what_went_wrong() {
    assert_eq!(
        DirectoryError::NotFound(Subject::User("u".to_string())).message(),
        "User 'u' not found"
    );
    assert_eq!(
        DirectoryError::NotFound(Subject::Namespace("n".to_string())).message(),
        "Namespace 'n' not found"
    );
    assert_eq!(
        DirectoryError::NotFound(Subject::Membership {
            user: "u".to_string(),
            namespace: "n".to_string()
        })
        .message(),
        "User 'u' is not a member of namespace 'n'"
    );
    assert_eq!(
        DirectoryError::AlreadyExists(Subject::Namespace("n".to_string())).message(),
        "Namespace 'n' already exists"
    );
    assert_eq!(
        DirectoryError::AlreadyExists(Subject::User("u".to_string())).message(),
        "User 'u' already exists"
    );
    assert_eq!(
        DirectoryError::Protected.message(),
        "Cannot delete the 'default' namespace"
    );
    assert_eq!(
        DirectoryError::InUse(Subject::Namespace("n".to_string()), 3).message(),
        "Cannot delete namespace 'n': has 3 task(s). Move or delete tasks first."
    );
    assert_eq!(
        DirectoryError::InUse(Subject::User("u".to_string()), 12).message(),
        "Cannot delete user 'u': has 12 associated task(s). Reassign or delete tasks first."
    );
    assert_eq!(
        DirectoryError::LastOwner {
            user: "u".to_string(),
            namespace: "n".to_string()
        }
        .message(),
        "Cannot remove 'u' from 'n': they are the only owner. Assign another owner first."
    );
    assert_eq!(
        DirectoryError::InvalidRole("boss".to_string()).message(),
        "Invalid role 'boss'. Must be one of: owner, admin, member, viewer"
    );
    assert_eq!(DirectoryError::Storage("disk full".to_string()).message(), "disk full");
}

#[test]
fn statements_bind_these_values() {
    let text = |t: &str| SqlParam::Text(t.to_string());
    assert_eq!(no_params(), vec![]);
    assert_eq!(id_params(-3), vec![SqlParam::Integer(-3)]);
    assert_eq!(name_params("ann"), vec![text("ann")]);
    assert_eq!(
        new_user_params("ann", Some("Ann A."), 5, None),
        vec![text("ann"), text("Ann A."), SqlParam::Integer(5), SqlParam::Null]
    );
    assert_eq!(
        new_user_params("bob", None, 6, Some(1)),
        vec![text("bob"), SqlParam::Null, SqlParam::Integer(6), SqlParam::Integer(1)]
    );
    assert_eq!(
        new_namespace_params("ops", None, 7, 2),
        vec![text("ops"), SqlParam::Null, SqlParam::Integer(7), SqlParam::Integer(2)]
    );
    assert_eq!(
        new_namespace_params("ops", Some("Operations"), 7, 2),
        vec![text("ops"), text("Operations"), SqlParam::Integer(7), SqlParam::Integer(2)]
    );
    assert_eq!(
        membership_params(1, 2, Role::Admin, 9),
        vec![SqlParam::Integer(1), SqlParam::Integer(2), text("admin"), SqlParam::Integer(9)]
    );
    assert_eq!(pair_params(3, 4), vec![SqlParam::Integer(3), SqlParam::Integer(4)]);
    assert_eq!(
        members_with_role_params(4, Role::Owner),
        vec![SqlParam::Integer(4), text("owner")]
    );
    assert_eq!(
        has_role_params(3, 4, Role::Owner),
        vec![SqlParam::Integer(3), SqlParam::Integer(4), text("owner")]
    );
}

#[test]
fn lookups_that_must_find_something() {
    assert_eq!(require_found(Some(5), Subject::User("u".to_string())), Ok(5));
    assert_eq!(
        require_found(None::<i64>, Subject::Namespace("n".to_string())),
        Err(DirectoryError::NotFound(Subject::Namespace("n".to_string())))
    );
}

#[test]
fn failed_role_query_ends_the_removal() {
    let conn = get_test_conn();
    create_user(&conn, "guest", None, None).unwrap();
    add_user_to_namespace(&conn, "default", "guest", "member").unwrap();
    conn.execute_batch(
        "PRAGMA foreign_keys = OFF;
         ALTER TABLE user_namespaces RENAME TO kept;
         CREATE TABLE user_namespaces (member_id INTEGER, namespace_id INTEGER, role TEXT);
         INSERT INTO user_namespaces SELECT user_id, namespace_id, role FROM kept;",
    )
    .unwrap();
    match remove_user_from_namespace(&conn, "default", "guest") {
        Err(DirectoryError::Storage(text)) => assert!(text.contains("user_id")),
        other => panic!("unexpected {:?}", other),
    }
    assert_eq!(count_rows(&conn, "SELECT COUNT(*) FROM user_namespaces"), 2);
}

#[test]
fn creation_touches_no_other_namespace() {
    let conn = get_test_conn();
    let ann = create_user(&conn, "ann", None, None).unwrap();
    let bob = create_user(&conn, "bob", None, None).unwrap();
    let first = create_namespace(&conn, "first", None, ann).unwrap();
    add_user_to_namespace(&conn, "first", "bob", "viewer").unwrap();
    let before_default = list_namespace_members(&conn, "default").unwrap();
    let before_first = list_namespace_members(&conn, "first").unwrap();
    let ids: Vec<i64> = list_namespaces(&conn).unwrap().iter().map(|n| n.id).collect();
    let users_before = list_users(&conn).unwrap();

    let second = create_namespace(&conn, "second", Some("Second"), bob).unwrap();

    assert!(!ids.contains(&second));
    assert_ne!(second, first);
    assert_eq!(list_namespace_members(&conn, "default").unwrap(), before_default);
    assert_eq!(list_namespace_members(&conn, "first").unwrap(), before_first);
    assert_eq!(list_users(&conn).unwrap(), users_before);
    let members = list_namespace_members(&conn, "second").unwrap();
    assert_eq!(members.len(), 1);
    assert_eq!(members[0].user_id, bob);
    assert_eq!(members[0].role, "owner");
    assert_eq!(list_namespaces(&conn).unwrap().len(), ids.len() + 1);
    let stored = get_namespace_by_id(&conn, second).unwrap().unwrap();
    assert_eq!(stored.name, "second");
    assert_eq!(stored.description, Some("Second".to_string()));
    assert_eq!(stored.created_by, Some(bob));
}
