use ctm::error::{DirectoryError, Subject};
use ctm::namespace::create_namespace;
use ctm::render::{format_minutes, select_format, OutputFormat};
use ctm::stats::{completion_rate, stats_report, stats_report_now, StatsReport};
use ctm::stats_render::{
    handle_stats, render_stats, render_stats_markdown, render_stats_text, stats_at,
    stats_document,
};
use ctm::task::TaskRecord;
use ctm::team::{
    count_done, count_done_for, count_open, count_open_for, display_of_bucket, name_of_bucket,
    row_before, same_key, team_report, team_rows, TeamReport, UserStats,
};
use ctm::team_render::{
    handle_team, render_team, render_team_markdown, render_team_text, team_document,
    team_overview,
};
use ctm::user::{create_user, get_user_by_name, User};
use ctm::workload::{
    workload_for, workload_of_user, workload_report, workload_rows, WorkloadReport,
    WorkloadStats,
};
use ctm::workload_render::{
    handle_workload, render_workload, render_workload_markdown, render_workload_text,
    workload_document, workload_overview,
};
use rusqlite::Connection;
use serde_json::Value;

const DAY: i64 = 86400;
const NOW: i64 = 1_700_000_000;

fn user(id: i64, name: &str, display: Option<&str>) -> User {
    User {
        id,
        name: name.to_string(),
        display_name: display.map(|d| d.to_string()),
        created_at: 0,
        created_by: None,
    }
}

fn task(assignee: Option<i64>, status: i64) -> TaskRecord {
    TaskRecord {
        assignee_id: assignee,
        owner_id: 1,
        status,
        create_time: NOW,
        target_time: None,
        priority: None,
        estimate_minutes: None,
        namespace_id: 1,
    }
}

fn estimated(assignee: i64, status: i64, minutes: Option<i64>) -> TaskRecord {
    TaskRecord { estimate_minutes: minutes, ..task(Some(assignee), status) }
}

fn created(at: i64, status: i64) -> TaskRecord {
    TaskRecord { create_time: at, ..task(None, status) }
}

fn rule(n: usize) -> String {
    "━".repeat(n)
}

const SCHEMA: &str = "
    PRAGMA foreign_keys = ON;
    CREATE TABLE users (
        id INTEGER PRIMARY KEY AUTOINCREMENT,
        name TEXT NOT NULL UNIQUE,
        display_name TEXT,
        created_at INTEGER NOT NULL,
        created_by INTEGER REFERENCES users(id)
    );
    CREATE TABLE namespaces (
        id INTEGER PRIMARY KEY AUTOINCREMENT,
        name TEXT NOT NULL UNIQUE,
        description TEXT,
        created_at INTEGER NOT NULL,
        created_by INTEGER REFERENCES users(id)
    );
    CREATE TABLE user_namespaces (
        user_id INTEGER NOT NULL REFERENCES users(id) ON DELETE CASCADE,
        namespace_id INTEGER NOT NULL REFERENCES namespaces(id) ON DELETE CASCADE,
        role TEXT NOT NULL,
        created_at INTEGER NOT NULL,
        PRIMARY KEY (user_id, namespace_id)
    );
    CREATE TABLE items (
        id INTEGER PRIMARY KEY AUTOINCREMENT,
        action TEXT NOT NULL,
        category TEXT,
        content TEXT,
        status INTEGER NOT NULL DEFAULT 0,
        create_time INTEGER NOT NULL DEFAULT 0,
        target_time INTEGER,
        priority INTEGER,
        estimate_minutes INTEGER,
        owner_id INTEGER,
        assignee_id INTEGER,
        namespace_id INTEGER
    );
";

/// A fresh database with the default user as owner of the default namespace.
fn get_test_conn() -> Connection {
    let conn = Connection::open_in_memory().unwrap();
    conn.execute_batch(SCHEMA).unwrap();
    let user_id = create_user(&conn, "default", None, None).unwrap();
    create_namespace(&conn, "default", Some("Default namespace"), user_id).unwrap();
    conn
}

fn epoch_now() -> i64 {
    std::time::SystemTime::now()
        .duration_since(std::time::UNIX_EPOCH)
        .unwrap()
        .as_secs() as i64
}

/// An ongoing task of the default user, due today or tomorrow.
fn insert_task(conn: &Connection, category: &str, content: &str, due: &str) {
    let now = epoch_now();
    let target = if due == "tomorrow" { now + DAY } else { now + 3600 };
    let user = get_user_by_name(conn, "default").unwrap().unwrap();
    conn.execute(
        "INSERT INTO items (action, category, content, status, create_time, target_time, owner_id, assignee_id, namespace_id) VALUES ('task', ?1, ?2, 0, ?3, ?4, ?5, ?5, 1)",
        (category, content, now, target, user.id),
    )
    .unwrap();
}

fn load_tasks(conn: &Connection) -> Vec<TaskRecord> {
    let mut stmt = conn
        .prepare(
            "SELECT assignee_id, owner_id, status, create_time, target_time, priority, estimate_minutes, namespace_id FROM items WHERE action = 'task'",
        )
        .unwrap();
    let rows = stmt
        .query_map([], |row| {
            Ok(TaskRecord {
                assignee_id: row.get(0)?,
                owner_id: row.get(1)?,
                status: row.get(2)?,
                create_time: row.get(3)?,
                target_time: row.get(4)?,
                priority: row.get(5)?,
                estimate_minutes: row.get(6)?,
                namespace_id: row.get(7)?,
            })
        })
        .unwrap();
    rows.map(|r| r.unwrap()).collect()
}

#[test]
fn test_handle_team() {
    let conn = get_test_conn();

    insert_task(&conn, "work", "Task 1", "today");
    insert_task(&conn, "work", "Task 2", "tomorrow");

    let result = handle_team(&conn, &load_tasks(&conn), false, false);
    assert!(result.is_ok());
}

#[test]
fn test_handle_team_json() {
    let conn = get_test_conn();

    insert_task(&conn, "work", "Task 1", "today");

    let result = handle_team(&conn, &load_tasks(&conn), true, false);
    assert!(result.is_ok());
}

#[test]
fn test_handle_team_md() {
    let conn = get_test_conn();

    insert_task(&conn, "work", "Task 1", "today");

    let result = handle_team(&conn, &load_tasks(&conn), false, true);
    assert!(result.is_ok());
}

#[test]
fn test_handle_workload() {
    let conn = get_test_conn();

    insert_task(&conn, "work", "Task 1", "today");

    let result = handle_workload(&conn, &load_tasks(&conn), None, false, false);
    assert!(result.is_ok());
}

#[test]
fn test_handle_workload_user_filter() {
    let conn = get_test_conn();

    insert_task(&conn, "work", "Task 1", "today");

    let result = handle_workload(&conn, &load_tasks(&conn), Some("default"), false, false);
    assert!(result.is_ok());
}

#[test]
fn test_handle_workload_user_not_found() {
    let conn = get_test_conn();

    let result = handle_workload(&conn, &load_tasks(&conn), Some("nonexistent"), false, false);
    assert!(result.is_err());
    assert!(result.unwrap_err().message().contains("not found"));
}

#[test]
fn test_handle_stats() {
    let conn = get_test_conn();

    insert_task(&conn, "work", "Task 1", "today");
    insert_task(&conn, "work", "Task 2", "tomorrow");

    let text = handle_stats(&load_tasks(&conn), 30, false, false);
    assert!(text.contains("Task Statistics (last 30 days)"));
    assert!(text.contains("Created:        2\n"));
}

#[test]
fn test_handle_stats_json() {
    let conn = get_test_conn();

    insert_task(&conn, "work", "Task 1", "today");

    let text = handle_stats(&load_tasks(&conn), 30, true, false);
    let parsed: Value = serde_json::from_str(&text).unwrap();
    assert_eq!(parsed["period_days"], 30);
    assert_eq!(parsed["created"], 1);
}

#[test]
fn test_handle_stats_custom_days() {
    let conn = get_test_conn();

    let text = handle_stats(&load_tasks(&conn), 7, false, false);
    assert!(text.contains("Task Statistics (last 7 days)"));
    assert!(text.contains("Completion:     0%\n"));
}

#[test]
fn handlers_read_the_directory_themselves() {
    let conn = get_test_conn();
    create_user(&conn, "amy", Some("Amy A."), None).unwrap();
    let amy = get_user_by_name(&conn, "amy").unwrap().unwrap();
    let tasks = vec![estimated(amy.id, 0, Some(90)), task(Some(1), 1)];
    let team = handle_team(&conn, &tasks, false, true).unwrap();
    assert!(team.contains("| Amy A. | 1 | 0 | 1 |\n"));
    assert!(team.contains("| default | 0 | 1 | 1 |\n"));
    let all = handle_workload(&conn, &tasks, None, false, true).unwrap();
    assert!(all.contains("| Amy A. | 1 | 1h 30m |\n"));
    assert!(!all.contains("| default |"));
    let one = handle_workload(&conn, &tasks, Some("default"), false, true).unwrap();
    assert!(one.contains("| default | 0 | 0m |\n"));
    assert!(!one.contains("Amy"));
    let broken = Connection::open_in_memory().unwrap();
    assert!(matches!(
        handle_team(&broken, &tasks, false, false),
        Err(DirectoryError::Storage(_))
    ));
    assert!(matches!(
        handle_workload(&broken, &tasks, None, false, false),
        Err(DirectoryError::Storage(_))
    ));
}

#[test]
fn team_counts_open_and_done_for_each_assignee() {
    let users = vec![user(2, "alice", Some("Alice A."))];
    let tasks = vec![
        task(Some(2), 0),
        task(Some(2), 1),
        task(Some(2), 0),
        task(Some(2), 4),
        task(None, 6),
    ];
    let report = team_report(&users, &tasks);
    assert_eq!(
        report.rows,
        vec![
            UserStats {
                user_id: Some(2),
                user_name: "alice".to_string(),
                display_name: "Alice A.".to_string(),
                open_count: 3,
                done_count: 1,
            },
            UserStats {
                user_id: None,
                user_name: "unassigned".to_string(),
                display_name: "unassigned".to_string(),
                open_count: 1,
                done_count: 0,
            },
        ]
    );
    assert_eq!(report.rows[0].total(), 4);
    assert_eq!(report.total_open, 4);
    assert_eq!(report.total_done, 1);
    assert_eq!(report.total(), 5);
}

#[test]
fn unassigned_bucket_comes_last_whatever_the_names() {
    let users = vec![
        user(1, "zed", None),
        user(2, "bob", None),
        user(3, "unassigned", None),
        user(4, "vic", None),
    ];
    let tasks = vec![
        task(None, 0),
        task(Some(1), 0),
        task(Some(4), 1),
        task(Some(3), 0),
        task(Some(2), 6),
    ];
    let rows = team_rows(&users, &tasks);
    let names: Vec<&str> = rows.iter().map(|r| r.user_name.as_str()).collect();
    assert_eq!(names, vec!["bob", "unassigned", "vic", "zed", "unassigned"]);
    assert_eq!(rows[1].user_id, Some(3));
    assert_eq!(rows[4].user_id, None);
}

#[test]
fn team_leaves_out_who_has_nothing_open_or_done() {
    let users = vec![user(1, "idle", None), user(2, "busy", None), user(3, "quit", None)];
    let tasks = vec![task(Some(2), 0), task(Some(3), 2), task(Some(3), 3), task(None, 2)];
    let report = team_report(&users, &tasks);
    assert_eq!(report.rows.len(), 1);
    assert_eq!(report.rows[0].user_name, "busy");
    assert_eq!(report.total_open, 1);
    assert_eq!(report.total_done, 0);
    assert_eq!(team_report(&users, &vec![]).rows, vec![]);
    assert_eq!(team_report(&vec![], &vec![]).total(), 0);
}

#[test]
fn team_names_assignees_that_the_directory_lacks() {
    let users = vec![user(1, "ann", None)];
    let tasks = vec![task(Some(42), 1), task(Some(-7), 0), task(Some(1), 0)];
    let rows = team_rows(&users, &tasks);
    assert_eq!(rows.len(), 3);
    assert_eq!(rows[0].user_name, "ann");
    assert_eq!(rows[1].user_name, "user_-7");
    assert_eq!(rows[1].display_name, "Unknown (-7)");
    assert_eq!(rows[1].user_id, Some(-7));
    assert_eq!(rows[2].user_name, "user_42");
    assert_eq!(rows[2].display_name, "Unknown (42)");
    assert_eq!(rows[2].done_count, 1);
    assert_eq!(name_of_bucket(&users, None), "unassigned");
    assert_eq!(display_of_bucket(&users, None), "unassigned");
    assert_eq!(name_of_bucket(&users, Some(1)), "ann");
    assert_eq!(display_of_bucket(&users, Some(0)), "Unknown (0)");
}

#[test]
fn team_row_order() {
    let row = |id: Option<i64>, name: &str| UserStats {
        user_id: id,
        user_name: name.to_string(),
        display_name: name.to_string(),
        open_count: 1,
        done_count: 0,
    };
    assert!(row_before(&row(Some(1), "a"), &row(Some(2), "b")));
    assert!(!row_before(&row(Some(2), "b"), &row(Some(1), "a")));
    assert!(!row_before(&row(Some(1), "a"), &row(Some(2), "a")));
    assert!(row_before(&row(Some(1), "z"), &row(None, "a")));
    assert!(!row_before(&row(None, "a"), &row(Some(1), "z")));
    assert!(row_before(&row(Some(1), "B"), &row(Some(2), "a")));
    assert!(row_before(&row(Some(1), "ab"), &row(Some(2), "abc")));
    assert!(same_key(None, None));
    assert!(same_key(Some(3), Some(3)));
    assert!(!same_key(Some(3), Some(4)));
    assert!(!same_key(Some(0), None));
    assert!(!same_key(None, Some(0)));
}

#[test]
fn counting_by_assignee_and_status() {
    let tasks = vec![
        task(Some(1), 0),
        task(Some(1), 4),
        task(Some(1), 6),
        task(Some(1), 1),
        task(Some(1), 2),
        task(Some(2), 0),
        task(None, 1),
    ];
    assert_eq!(count_open_for(&tasks, Some(1)), 3);
    assert_eq!(count_done_for(&tasks, Some(1)), 1);
    assert_eq!(count_open_for(&tasks, None), 0);
    assert_eq!(count_done_for(&tasks, None), 1);
    assert_eq!(count_open_for(&tasks, Some(9)), 0);
    assert_eq!(count_open(&tasks), 4);
    assert_eq!(count_done(&tasks), 2);
}

fn expected_team_text() -> String {
    let mut text = String::new();
    text.push_str("\n\x1b[1mTeam Overview\x1b[0m\n");
    text.push_str(&format!("{}\n", rule(50)));
    text.push_str(&format!("{:<20} {:>8} {:>8} {:>8}\n", "User", "Open", "Done", "Total"));
    text.push_str(&format!("{}\n", rule(50)));
    text.push_str(&format!("{:<20} {:>8} {:>8} {:>8}\n", "Alice A.", 3, 1, 4));
    text.push_str(&format!(
        "{:<20} {:>8} {:>8} {:>8}\n",
        "A very long dis...", 12, 0, 12
    ));
    text.push_str(&format!(
        "\x1b[33m{:<20}\x1b[0m {:>8} {:>8} {:>8}\n",
        "unassigned", 1, "-", 1
    ));
    text.push_str(&format!("{}\n", rule(50)));
    text.push_str(&format!("{:<20} {:>8} {:>8} {:>8}\n", "Total", 16, 1, 17));
    text.push('\n');
    text
}

fn sample_team() -> TeamReport {
    TeamReport {
        rows: vec![
            UserStats {
                user_id: Some(2),
                user_name: "alice".to_string(),
                display_name: "Alice A.".to_string(),
                open_count: 3,
                done_count: 1,
            },
            UserStats {
                user_id: Some(3),
                user_name: "long".to_string(),
                display_name: "A very long display name".to_string(),
                open_count: 12,
                done_count: 0,
            },
            UserStats {
                user_id: None,
                user_name: "unassigned".to_string(),
                display_name: "unassigned".to_string(),
                open_count: 1,
                done_count: 0,
            },
        ],
        total_open: 16,
        total_done: 1,
    }
}

#[test]
fn team_text_has_fixed_columns() {
    assert_eq!(render_team_text(&sample_team()), expected_team_text());
    assert_eq!(render_team(&sample_team(), OutputFormat::Text), expected_team_text());
}

#[test]
fn team_markdown_is_a_pipe_table() {
    let expected = "# Team Overview\n\n| User | Open | Done | Total |\n|------|------|------|-------|\n| Alice A. | 3 | 1 | 4 |\n| A very long display name | 12 | 0 | 12 |\n| unassigned | 1 | 0 | 1 |\n| **Total** | **16** | **1** | **17** |\n";
    assert_eq!(render_team_markdown(&sample_team()), expected);
    assert_eq!(render_team(&sample_team(), OutputFormat::Markdown), expected);
}

#[test]
fn team_json_holds_rows_and_totals() {
    let text = render_team(&sample_team(), OutputFormat::Json);
    assert_eq!(text, team_document(&sample_team()).render() + "\n");
    let parsed: Value = serde_json::from_str(&text).unwrap();
    let team = parsed["team"].as_array().unwrap();
    assert_eq!(team.len(), 3);
    assert_eq!(team[0]["user"], "alice");
    assert_eq!(team[0]["display_name"], "Alice A.");
    assert_eq!(team[0]["open"], 3);
    assert_eq!(team[0]["done"], 1);
    assert_eq!(team[0]["total"], 4);
    assert_eq!(team[1]["display_name"], "A very long display name");
    assert_eq!(team[2]["user"], "unassigned");
    assert_eq!(team[2]["total"], 1);
    assert_eq!(parsed["totals"]["open"], 16);
    assert_eq!(parsed["totals"]["done"], 1);
    assert_eq!(parsed["totals"]["total"], 17);
    assert_eq!(parsed.as_object().unwrap().len(), 2);
    assert_eq!(team[0].as_object().unwrap().len(), 5);
}

#[test]
fn team_report_without_rows() {
    let empty = TeamReport { rows: vec![], total_open: 0, total_done: 0 };
    let parsed: Value = serde_json::from_str(&render_team(&empty, OutputFormat::Json)).unwrap();
    assert_eq!(parsed["team"].as_array().unwrap().len(), 0);
    assert_eq!(parsed["totals"]["total"], 0);
    let text = render_team_text(&empty);
    assert!(text.ends_with(&format!(
        "{}\n{}\n{:<20} {:>8} {:>8} {:>8}\n\n",
        rule(50),
        rule(50),
        "Total",
        0,
        0,
        0
    )));
}

/// The three numbers of the line that starts with `label` in a text report.
fn numbers_after(text: &str, label: &str) -> Vec<i64> {
    let line = text.lines().find(|l| l.starts_with(label)).unwrap();
    line.split_whitespace().skip(1).map(|n| n.parse().unwrap()).collect()
}

#[test]
fn team_totals_agree_across_formats() {
    let users = vec![user(1, "ann", None), user(2, "bob", Some("Bob B."))];
    let tasks = vec![
        task(Some(1), 0),
        task(Some(1), 1),
        task(Some(2), 6),
        task(Some(2), 2),
        task(None, 4),
        task(Some(5), 1),
    ];
    let text = team_overview(&users, &tasks, false, false);
    let json: Value = serde_json::from_str(&team_overview(&users, &tasks, true, false)).unwrap();
    let markdown = team_overview(&users, &tasks, false, true);
    let totals = numbers_after(&text, "Total");
    assert_eq!(totals, vec![3, 2, 5]);
    assert_eq!(json["totals"]["open"], totals[0]);
    assert_eq!(json["totals"]["done"], totals[1]);
    assert_eq!(json["totals"]["total"], totals[2]);
    assert!(markdown.ends_with("| **Total** | **3** | **2** | **5** |\n"));
    let rows = json["team"].as_array().unwrap();
    let open: i64 = rows.iter().map(|r| r["open"].as_i64().unwrap()).sum();
    let done: i64 = rows.iter().map(|r| r["done"].as_i64().unwrap()).sum();
    assert_eq!(open, totals[0]);
    assert_eq!(done, totals[1]);
    for row in rows {
        assert_eq!(
            row["open"].as_i64().unwrap() + row["done"].as_i64().unwrap(),
            row["total"].as_i64().unwrap()
        );
    }
}

#[test]
fn json_wins_over_markdown_and_text_is_the_default() {
    assert_eq!(select_format(false, false), OutputFormat::Text);
    assert_eq!(select_format(true, false), OutputFormat::Json);
    assert_eq!(select_format(false, true), OutputFormat::Markdown);
    assert_eq!(select_format(true, true), OutputFormat::Json);
    let both = team_overview(&vec![], &vec![], true, true);
    assert!(serde_json::from_str::<Value>(&both).is_ok());
}

#[test]
fn workload_sums_estimates_of_open_tasks() {
    let users = vec![user(1, "ann", None)];
    let tasks = vec![estimated(1, 0, Some(30)), estimated(1, 6, None)];
    let report = workload_report(&users, &tasks, None);
    assert_eq!(
        report.rows,
        vec![WorkloadStats {
            user_id: 1,
            user_name: "ann".to_string(),
            display_name: "ann".to_string(),
            task_count: 2,
            total_minutes: 30,
        }]
    );
    assert_eq!(report.total_tasks, 2);
    assert_eq!(report.total_minutes, 30);
}

#[test]
fn workload_counts_open_tasks_only() {
    let ann = user(1, "ann", Some("Ann"));
    let tasks = vec![
        estimated(1, 0, Some(10)),
        estimated(1, 1, Some(100)),
        estimated(1, 2, Some(1000)),
        estimated(1, 4, Some(20)),
        estimated(1, 6, Some(5)),
        estimated(2, 0, Some(7)),
        TaskRecord { estimate_minutes: Some(50), ..task(None, 0) },
    ];
    let row = workload_of_user(&ann, &tasks);
    assert_eq!(row.task_count, 3);
    assert_eq!(row.total_minutes, 35);
    assert_eq!(row.display_name, "Ann");
}

#[test]
fn workload_orders_by_effort_and_keeps_ties_in_order() {
    let users = vec![
        user(1, "ann", None),
        user(2, "bob", None),
        user(3, "cat", None),
        user(4, "dan", None),
        user(5, "eve", None),
    ];
    let tasks = vec![
        estimated(1, 0, Some(30)),
        estimated(2, 0, Some(60)),
        estimated(3, 0, Some(30)),
        estimated(4, 1, Some(500)),
        estimated(5, 0, Some(20)),
        estimated(5, 4, Some(10)),
    ];
    let rows = workload_rows(&users, &tasks, None);
    let names: Vec<&str> = rows.iter().map(|r| r.user_name.as_str()).collect();
    assert_eq!(names, vec!["bob", "ann", "cat", "eve"]);
    let report = workload_report(&users, &tasks, None);
    assert_eq!(report.total_tasks, 5);
    assert_eq!(report.total_minutes, 150);
}

#[test]
fn workload_holds_the_user_asked_for_even_without_tasks() {
    let users = vec![user(1, "ann", None), user(2, "bob", None)];
    let tasks = vec![estimated(1, 0, Some(30))];
    let report = workload_for(&users, &tasks, Some("bob")).unwrap();
    assert_eq!(report.rows.len(), 1);
    assert_eq!(report.rows[0].user_name, "bob");
    assert_eq!(report.rows[0].task_count, 0);
    assert_eq!(report.rows[0].total_minutes, 0);
    assert_eq!(report.total_tasks, 0);
    assert_eq!(report.total_minutes, 0);
    let only_ann = workload_for(&users, &tasks, Some("ann")).unwrap();
    assert_eq!(only_ann.rows.len(), 1);
    assert_eq!(only_ann.total_minutes, 30);
    let all = workload_for(&users, &tasks, None).unwrap();
    assert_eq!(all.rows.len(), 1);
    assert_eq!(all.rows[0].user_name, "ann");
    assert_eq!(workload_report(&users, &tasks, Some(7)).rows, vec![]);
}

#[test]
fn workload_for_a_missing_user_is_not_found() {
    let users = vec![user(1, "ann", None)];
    let missing = workload_for(&users, &vec![], Some("Ann"));
    assert_eq!(
        missing,
        Err(DirectoryError::NotFound(Subject::User("Ann".to_string())))
    );
    assert_eq!(
        workload_overview(&users, &vec![], Some("zed"), true, false),
        Err(DirectoryError::NotFound(Subject::User("zed".to_string())))
    );
}

#[test]
fn workload_sums_beyond_sixty_four_bits() {
    let users = vec![user(1, "ann", None)];
    let tasks = vec![
        estimated(1, 0, Some(i64::MAX)),
        estimated(1, 0, Some(i64::MAX)),
        estimated(1, 0, Some(2)),
    ];
    let report = workload_report(&users, &tasks, None);
    assert_eq!(report.rows[0].total_minutes, 2 * (i64::MAX as i128) + 2);
    assert_eq!(report.total_minutes, 18446744073709551616);
    let parsed: Value =
        serde_json::from_str(&render_workload(&report, OutputFormat::Json)).unwrap();
    assert_eq!(parsed["totals"]["estimated_minutes"], "18446744073709551616");
    assert_eq!(parsed["totals"]["tasks"], 3);
    let low = vec![estimated(1, 0, Some(i64::MIN)), estimated(1, 0, Some(i64::MIN))];
    assert_eq!(
        workload_report(&users, &low, None).total_minutes,
        -18446744073709551616
    );
}

fn sample_workload() -> WorkloadReport {
    WorkloadReport {
        rows: vec![
            WorkloadStats {
                user_id: 2,
                user_name: "bob".to_string(),
                display_name: "Roberto the Magnificent".to_string(),
                task_count: 3,
                total_minutes: 150,
            },
            WorkloadStats {
                user_id: 1,
                user_name: "ann".to_string(),
                display_name: "ann".to_string(),
                task_count: 2,
                total_minutes: 30,
            },
        ],
        total_tasks: 5,
        total_minutes: 180,
    }
}

#[test]
fn workload_text_has_fixed_columns() {
    let mut expected = String::new();
    expected.push_str("\n\x1b[1mWorkload Summary\x1b[0m\n");
    expected.push_str(&format!("{}\n", rule(50)));
    expected.push_str(&format!("{:<20} {:>10} {:>15}\n", "User", "Tasks", "Estimated"));
    expected.push_str(&format!("{}\n", rule(50)));
    expected.push_str(&format!("{:<20} {:>10} {:>15}\n", "Roberto the Mag...", 3, "2h 30m"));
    expected.push_str(&format!("{:<20} {:>10} {:>15}\n", "ann", 2, "30m"));
    expected.push_str(&format!("{}\n", rule(50)));
    expected.push_str(&format!("{:<20} {:>10} {:>15}\n", "Total", 5, "3h"));
    expected.push('\n');
    assert_eq!(render_workload_text(&sample_workload()), expected);
    assert_eq!(render_workload(&sample_workload(), OutputFormat::Text), expected);
}

#[test]
fn workload_markdown_is_a_pipe_table() {
    let expected = "# Workload Summary\n\n| User | Tasks | Estimated |\n|------|-------|-----------|\n| Roberto the Magnificent | 3 | 2h 30m |\n| ann | 2 | 30m |\n| **Total** | **5** | **3h** |\n";
    assert_eq!(render_workload_markdown(&sample_workload()), expected);
}

#[test]
fn workload_json_holds_rows_and_totals() {
    let text = workload_document(&sample_workload()).render();
    let parsed: Value = serde_json::from_str(&text).unwrap();
    let rows = parsed["workload"].as_array().unwrap();
    assert_eq!(rows.len(), 2);
    assert_eq!(rows[0]["user"], "bob");
    assert_eq!(rows[0]["display_name"], "Roberto the Magnificent");
    assert_eq!(rows[0]["tasks"], 3);
    assert_eq!(rows[0]["estimated_minutes"], 150);
    assert_eq!(rows[0]["estimated_formatted"], "2h 30m");
    assert_eq!(rows[1]["estimated_formatted"], "30m");
    assert_eq!(parsed["totals"]["tasks"], 5);
    assert_eq!(parsed["totals"]["estimated_minutes"], 180);
    assert_eq!(parsed["totals"]["estimated_formatted"], "3h");
}

#[test]
fn workload_totals_agree_across_formats() {
    let users = vec![user(1, "ann", None), user(2, "bob", None)];
    let tasks = vec![
        estimated(1, 0, Some(45)),
        estimated(2, 6, Some(120)),
        estimated(2, 4, None),
        estimated(2, 1, Some(999)),
    ];
    let text = workload_overview(&users, &tasks, None, false, false).unwrap();
    let json: Value =
        serde_json::from_str(&workload_overview(&users, &tasks, None, true, true).unwrap())
            .unwrap();
    let line = text.lines().find(|l| l.starts_with("Total")).unwrap();
    let parts: Vec<&str> = line.split_whitespace().collect();
    assert_eq!(parts, vec!["Total", "3", "2h", "45m"]);
    assert_eq!(json["totals"]["tasks"], 3);
    assert_eq!(json["totals"]["estimated_minutes"], 165);
    assert_eq!(json["totals"]["estimated_formatted"], "2h 45m");
    let rows = json["workload"].as_array().unwrap();
    let minutes: i64 = rows.iter().map(|r| r["estimated_minutes"].as_i64().unwrap()).sum();
    assert_eq!(minutes, 165);
}

#[test]
fn efforts_as_a_person_reads_them() {
    assert_eq!(format_minutes(0), "0m");
    assert_eq!(format_minutes(59), "59m");
    assert_eq!(format_minutes(60), "1h");
    assert_eq!(format_minutes(61), "1h 1m");
    assert_eq!(format_minutes(150), "2h 30m");
    assert_eq!(format_minutes(6000), "100h");
    assert_eq!(format_minutes(-5), "-5m");
    assert_eq!(format_minutes(90), "1h 30m");
    assert_eq!(format_minutes(i128::MAX), "2835686391007820528861455061931401762h 7m");
}

#[test]
fn stats_over_a_window_of_thirty_days() {
    let tasks = vec![created(NOW - 10 * DAY, 1), created(NOW - 40 * DAY, 1)];
    let report = stats_report(&tasks, 30, NOW);
    assert_eq!(report.period_days, 30);
    assert_eq!(report.created, 1);
    assert_eq!(report.completed, 1);
    assert_eq!(report.completion_rate, 100);
    assert_eq!(report.done, 2);
}

#[test]
fn stats_without_anything_created_have_rate_zero() {
    let none = stats_report(&vec![], 30, NOW);
    assert_eq!(
        none,
        StatsReport {
            period_days: 30,
            created: 0,
            completed: 0,
            completion_rate: 0,
            overdue: 0,
            high_priority: 0,
            ongoing: 0,
            pending: 0,
            suspended: 0,
            done: 0,
            cancelled: 0,
        }
    );
    let old = stats_report(&vec![created(NOW - 40 * DAY, 1)], 30, NOW);
    assert_eq!(old.created, 0);
    assert_eq!(old.completed, 0);
    assert_eq!(old.completion_rate, 0);
    assert_eq!(old.done, 1);
    assert_eq!(completion_rate(0, 0), 0);
}

#[test]
fn completion_rate_is_rounded_down() {
    assert_eq!(completion_rate(1, 3), 33);
    assert_eq!(completion_rate(2, 3), 66);
    assert_eq!(completion_rate(29, 100), 29);
    assert_eq!(completion_rate(57, 100), 57);
    assert_eq!(completion_rate(199, 200), 99);
    assert_eq!(completion_rate(5, 5), 100);
    assert_eq!(completion_rate(0, 9), 0);
    assert_eq!(completion_rate(u64::MAX, u64::MAX), 100);
    assert_eq!(completion_rate(u64::MAX - 1, u64::MAX), 99);
    let mut tasks = vec![created(NOW, 1)];
    tasks.push(created(NOW, 0));
    tasks.push(created(NOW, 2));
    assert_eq!(stats_report(&tasks, 1, NOW).completion_rate, 33);
}

#[test]
fn window_starts_whole_days_before_now() {
    let at_start = vec![created(NOW - 7 * DAY, 0)];
    assert_eq!(stats_report(&at_start, 7, NOW).created, 1);
    let before = vec![created(NOW - 7 * DAY - 1, 0)];
    assert_eq!(stats_report(&before, 7, NOW).created, 0);
    let tasks = vec![created(i64::MIN, 1), created(0, 0), created(i64::MAX, 1)];
    assert_eq!(stats_report(&tasks, i64::MAX, NOW).created, 3);
    assert_eq!(stats_report(&tasks, i64::MIN, NOW).created, 0);
    assert_eq!(stats_report(&tasks, 0, i64::MAX).created, 1);
    assert_eq!(stats_report(&tasks, 0, i64::MIN).created, 3);
    assert_eq!(stats_report(&tasks, -1, 0).created, 1);
    assert_eq!(stats_report(&tasks, -1, 0).completion_rate, 100);
}

#[test]
fn overdue_and_high_priority_count_open_tasks() {
    let due = |status: i64, target: Option<i64>, priority: Option<i64>| TaskRecord {
        target_time: target,
        priority,
        ..task(None, status)
    };
    let tasks = vec![
        due(0, Some(NOW - 1), Some(0)),
        due(4, Some(NOW - 100), Some(1)),
        due(6, Some(NOW), Some(0)),
        due(6, Some(NOW + 5), None),
        due(0, None, Some(0)),
        due(1, Some(NOW - 1), Some(0)),
        due(2, Some(NOW - 1), Some(0)),
        due(3, Some(NOW - 1), Some(0)),
    ];
    let report = stats_report(&tasks, 30, NOW);
    assert_eq!(report.overdue, 2);
    assert_eq!(report.high_priority, 3);
    assert_eq!(report.ongoing, 2);
    assert_eq!(report.suspended, 1);
    assert_eq!(report.pending, 2);
    assert_eq!(report.done, 1);
    assert_eq!(report.cancelled, 1);
    assert_eq!(report.created, 8);
    assert_eq!(report.completed, 1);
    assert_eq!(report.completion_rate, 12);
}

#[test]
fn stats_now_use_the_clock() {
    let now = epoch_now();
    let tasks = vec![created(now - 2 * DAY, 1), created(now - 20 * DAY, 0)];
    let week = stats_report_now(&tasks, 7);
    assert_eq!(week.created, 1);
    assert_eq!(week.completion_rate, 100);
    let month = stats_report_now(&tasks, 30);
    assert_eq!(month.created, 2);
    assert_eq!(month.completion_rate, 50);
}

fn sample_stats(overdue: u64, high_priority: u64) -> StatsReport {
    StatsReport {
        period_days: 30,
        created: 12,
        completed: 5,
        completion_rate: 41,
        overdue,
        high_priority,
        ongoing: 4,
        pending: 2,
        suspended: 1,
        done: 5,
        cancelled: 3,
    }
}

#[test]
fn stats_text_sets_alerts_in_red() {
    let mut expected = String::new();
    expected.push_str("\n\x1b[1mTask Statistics (last 30 days)\x1b[0m\n");
    expected.push_str(&format!("{}\n", rule(40)));
    expected.push_str("Created:        12\n");
    expected.push_str("Completed:      5\n");
    expected.push_str("Completion:     41%\n");
    expected.push_str(&format!("{}\n", rule(40)));
    expected.push_str("Overdue:        \x1b[91m2\x1b[0m\n");
    expected.push_str("High Priority:  0\n");
    expected.push_str(&format!("{}\n", rule(40)));
    expected.push_str("By Status:\n");
    expected.push_str("  ongoing       4\n");
    expected.push_str("  pending       2\n");
    expected.push_str("  suspended     1\n");
    expected.push_str("  done          5\n");
    expected.push_str("  cancelled     3\n");
    expected.push('\n');
    assert_eq!(render_stats_text(&sample_stats(2, 0)), expected);
    let other = render_stats(&sample_stats(0, 7), OutputFormat::Text);
    assert!(other.contains("Overdue:        0\n"));
    assert!(other.contains("High Priority:  \x1b[91m7\x1b[0m\n"));
}

#[test]
fn stats_markdown_has_two_tables() {
    let expected = "# Task Statistics (last 30 days)\n\n| Metric | Value |\n|--------|-------|\n| Created | 12 |\n| Completed | 5 |\n| Completion Rate | 41% |\n| Overdue | 2 |\n| High Priority | 0 |\n\n## By Status\n\n| Status | Count |\n|--------|-------|\n| ongoing | 4 |\n| pending | 2 |\n| suspended | 1 |\n| done | 5 |\n| cancelled | 3 |\n";
    assert_eq!(render_stats_markdown(&sample_stats(2, 0)), expected);
}

#[test]
fn stats_json_holds_figures_and_statuses() {
    let text = stats_document(&sample_stats(2, 1)).render();
    let parsed: Value = serde_json::from_str(&text).unwrap();
    assert_eq!(parsed["period_days"], 30);
    assert_eq!(parsed["created"], 12);
    assert_eq!(parsed["completed"], 5);
    assert_eq!(parsed["completion_rate"], 41);
    assert_eq!(parsed["overdue"], 2);
    assert_eq!(parsed["high_priority"], 1);
    assert_eq!(parsed["by_status"]["ongoing"], 4);
    assert_eq!(parsed["by_status"]["pending"], 2);
    assert_eq!(parsed["by_status"]["suspended"], 1);
    assert_eq!(parsed["by_status"]["done"], 5);
    assert_eq!(parsed["by_status"]["cancelled"], 3);
    assert_eq!(parsed.as_object().unwrap().len(), 7);
    assert_eq!(parsed["by_status"].as_object().unwrap().len(), 5);
}

#[test]
fn stats_figures_agree_across_formats() {
    let tasks = vec![
        created(NOW - DAY, 1),
        created(NOW - 2 * DAY, 0),
        created(NOW - 3 * DAY, 2),
        created(NOW - 90 * DAY, 1),
    ];
    let text = stats_at(&tasks, 30, NOW, false, false);
    let json: Value = serde_json::from_str(&stats_at(&tasks, 30, NOW, true, false)).unwrap();
    let markdown = stats_at(&tasks, 30, NOW, false, true);
    assert!(text.contains("Created:        3\n"));
    assert!(text.contains("Completed:      1\n"));
    assert!(text.contains("Completion:     33%\n"));
    assert_eq!(json["created"], 3);
    assert_eq!(json["completed"], 1);
    assert_eq!(json["completion_rate"], 33);
    assert_eq!(json["by_status"]["done"], 2);
    assert!(markdown.contains("| Created | 3 |\n"));
    assert!(markdown.contains("| Completion Rate | 33% |\n"));
    assert!(markdown.contains("| done | 2 |\n"));
}

#[test]
fn a_user_has_one_row_and_totals_are_the_sums_of_the_rows() {
    let users = vec![
        user(1, "ann", None),
        user(2, "bob", None),
        user(1, "ann again", Some("Ann")),
        user(3, "cy", None),
    ];
    let tasks = vec![
        estimated(1, 0, Some(40)),
        estimated(1, 6, Some(20)),
        estimated(2, 0, Some(15)),
        estimated(9, 0, Some(500)),
        TaskRecord { estimate_minutes: Some(7), ..task(None, 0) },
    ];
    let report = workload_report(&users, &tasks, None);
    let names: Vec<&str> = report.rows.iter().map(|r| r.user_name.as_str()).collect();
    assert_eq!(names, vec!["ann again", "bob"]);
    let count: u64 = report.rows.iter().map(|r| r.task_count).sum();
    let minutes: i128 = report.rows.iter().map(|r| r.total_minutes).sum();
    assert_eq!(report.total_tasks, count);
    assert_eq!(report.total_minutes, minutes);
    assert_eq!(report.total_tasks, 3);
    assert_eq!(report.total_minutes, 75);

    let first = workload_report(&users, &tasks, Some(0));
    assert_eq!(first.rows.len(), 1);
    assert_eq!(first.rows[0].user_name, "ann");
    assert_eq!(first.total_tasks, first.rows[0].task_count);
    assert_eq!(first.total_minutes, first.rows[0].total_minutes);
    assert_eq!(first.total_minutes, 60);

    let json: Value =
        serde_json::from_str(&render_workload(&report, OutputFormat::Json)).unwrap();
    let rows = json["workload"].as_array().unwrap();
    let tasks_in_rows: i64 = rows.iter().map(|r| r["tasks"].as_i64().unwrap()).sum();
    let minutes_in_rows: i64 = rows.iter().map(|r| r["estimated_minutes"].as_i64().unwrap()).sum();
    assert_eq!(json["totals"]["tasks"], tasks_in_rows);
    assert_eq!(json["totals"]["estimated_minutes"], minutes_in_rows);
}

#[test]
fn team_totals_are_the_sums_of_the_rows() {
    let users = vec![user(1, "ann", None), user(1, "late", None), user(2, "bob", None)];
    let tasks = vec![
        task(Some(1), 0),
        task(Some(1), 1),
        task(Some(2), 4),
        task(Some(7), 1),
        task(None, 6),
        task(None, 2),
    ];
    let report = team_report(&users, &tasks);
    let open: u64 = report.rows.iter().map(|r| r.open_count).sum();
    let done: u64 = report.rows.iter().map(|r| r.done_count).sum();
    assert_eq!(report.total_open, open);
    assert_eq!(report.total_done, done);
    assert_eq!((open, done), (3, 2));
    assert_eq!(report.rows[1].user_name, "late");
}
