//! The workload report in its three output formats.

use crate::error::{require_found, DirectoryError, DirectoryErrorView, Subject, SubjectView};
use crate::json::{
    blocks_view, fields_view, number_field, objects_view, pretty_json, push_list, push_number,
    push_object, push_text, text_field, JsonBlock, JsonContentView, JsonDocument,
    JsonDocumentView, JsonField, JsonScalarView,
};
use crate::render::{
    estimate_text, format_for, format_minutes, push_rule_line, rule, select_format, OutputFormat,
};
use crate::task::TaskRecord;
use crate::text::{
    decimal, ends_with, format_int, lemma_ends_with, padded_left, padded_right,
    push_padded_left, push_padded_right, shorten_name, shortened,
};
use crate::user::{first_named, get_user_by_name, list_users, User};
use crate::workload::{
    sum_minutes, sum_tasks, workload_for, workload_report, WorkloadReport, WorkloadStats,
};
use vstd::prelude::*;
use vstd::string::*;

verus! {

/// A line of the table: a name in twenty characters, a number in ten and an
/// effort in fifteen.
pub open spec fn workload_columns(name: Seq<char>, tasks: Seq<char>, effort: Seq<char>) -> Seq<
    char,
> {
    padded_right(name, 20) + " "@ + padded_left(tasks, 10) + " "@ + padded_left(effort, 15)
        + "\n"@
}

/// The line of one user.
pub open spec fn workload_row_text(row: WorkloadStats) -> Seq<char> {
    workload_columns(
        shortened(row.display_name@),
        decimal(row.task_count as int),
        estimate_text(row.total_minutes as int),
    )
}

/// The lines of the users.
pub open spec fn workload_body_text(rows: Seq<WorkloadStats>) -> Seq<char>
    decreases rows.len(),
{
    if rows.len() == 0 {
        Seq::empty()
    } else {
        workload_body_text(rows.drop_last()) + workload_row_text(rows.last())
    }
}

/// The workload report as text for a terminal: a title in bold, the table
/// between rules, and the grand totals.
pub open spec fn workload_text(report: WorkloadReport) -> Seq<char> {
    "\n\x1b[1mWorkload Summary\x1b[0m\n"@ + rule(50) + "\n"@ + workload_columns(
        "User"@,
        "Tasks"@,
        "Estimated"@,
    ) + rule(50) + "\n"@ + workload_body_text(report.rows@) + rule(50) + "\n"@ + workload_columns(
        "Total"@,
        decimal(report.total_tasks as int),
        estimate_text(report.total_minutes as int),
    ) + "\n"@
}

/// The table line of one user in markdown.
pub open spec fn workload_row_markdown(row: WorkloadStats) -> Seq<char> {
    "| "@ + row.display_name@ + " | "@ + decimal(row.task_count as int) + " | "@ + estimate_text(
        row.total_minutes as int,
    ) + " |\n"@
}

/// The table lines of the users in markdown.
pub open spec fn workload_body_markdown(rows: Seq<WorkloadStats>) -> Seq<char>
    decreases rows.len(),
{
    if rows.len() == 0 {
        Seq::empty()
    } else {
        workload_body_markdown(rows.drop_last()) + workload_row_markdown(rows.last())
    }
}

/// The workload report as a markdown table with the grand totals in bold.
pub open spec fn workload_markdown(report: WorkloadReport) -> Seq<char> {
    "# Workload Summary\n\n| User | Tasks | Estimated |\n|------|-------|-----------|\n"@
        + workload_body_markdown(report.rows@) + "| **Total** | **"@ + decimal(
        report.total_tasks as int,
    ) + "** | **"@ + estimate_text(report.total_minutes as int) + "** |\n"@
}

/// The JSON object of one user.
pub open spec fn workload_row_fields(row: WorkloadStats) -> Seq<(Seq<char>, JsonScalarView)> {
    seq![
        text_field("user"@, row.user_name@),
        text_field("display_name"@, row.display_name@),
        number_field("tasks"@, row.task_count as int),
        number_field("estimated_minutes"@, row.total_minutes as int),
        text_field("estimated_formatted"@, estimate_text(row.total_minutes as int)),
    ]
}

/// The JSON objects of the users.
pub open spec fn workload_rows_json(rows: Seq<WorkloadStats>) -> Seq<
    Seq<(Seq<char>, JsonScalarView)>,
> {
    Seq::new(rows.len(), |i: int| workload_row_fields(rows[i]))
}

/// The JSON object of the grand totals.
pub open spec fn workload_totals_fields(report: WorkloadReport) -> Seq<
    (Seq<char>, JsonScalarView),
> {
    seq![
        number_field("tasks"@, report.total_tasks as int),
        number_field("estimated_minutes"@, report.total_minutes as int),
        text_field("estimated_formatted"@, estimate_text(report.total_minutes as int)),
    ]
}

/// The workload report as a JSON document: the users under `workload`, the
/// grand totals under `totals`.
pub open spec fn workload_document_view(report: WorkloadReport) -> JsonDocumentView {
    JsonDocumentView {
        fields: Seq::empty(),
        blocks: seq![
            ("workload"@, JsonContentView::List(workload_rows_json(report.rows@))),
            ("totals"@, JsonContentView::Object(workload_totals_fields(report))),
        ],
    }
}

/// What the workload report looks like in a format. Every format ends with the
/// end of a line.
pub open spec fn workload_output(report: WorkloadReport, format: OutputFormat) -> Seq<char> {
    match format {
        OutputFormat::Text => workload_text(report),
        OutputFormat::Json => pretty_json(workload_document_view(report)) + "\n"@,
        OutputFormat::Markdown => workload_markdown(report),
    }
}

/// The line of the grand totals in the text for a terminal, with the empty
/// line that follows it.
pub open spec fn workload_total_text(tasks: int, minutes: int) -> Seq<char> {
    workload_columns("Total"@, decimal(tasks), estimate_text(minutes)) + "\n"@
}

/// The line of the grand totals in markdown.
pub open spec fn workload_total_markdown(tasks: int, minutes: int) -> Seq<char> {
    "| **Total** | **"@ + decimal(tasks) + "** | **"@ + estimate_text(minutes) + "** |\n"@
}

/// The grand totals are the same numbers in every format: the text for a
/// terminal and the markdown table end with the line of the report's tasks
/// and estimated effort, and the JSON document holds the same two numbers,
/// and the effort as a person reads it, under `totals`.
pub proof fn lemma_workload_formats_agree(report: WorkloadReport)
    ensures
        ends_with(
            workload_text(report),
            workload_total_text(report.total_tasks as int, report.total_minutes as int),
        ),
        ends_with(
            workload_markdown(report),
            workload_total_markdown(report.total_tasks as int, report.total_minutes as int),
        ),
        workload_document_view(report).blocks[1] == (
            "totals"@,
            JsonContentView::Object(
                seq![
                    number_field("tasks"@, report.total_tasks as int),
                    number_field("estimated_minutes"@, report.total_minutes as int),
                    text_field("estimated_formatted"@, estimate_text(report.total_minutes as int)),
                ],
            ),
        ),
{
    let tasks = report.total_tasks as int;
    let minutes = report.total_minutes as int;
    let text_head = "\n\x1b[1mWorkload Summary\x1b[0m\n"@ + rule(50) + "\n"@ + workload_columns(
        "User"@,
        "Tasks"@,
        "Estimated"@,
    ) + rule(50) + "\n"@ + workload_body_text(report.rows@) + rule(50) + "\n"@;
    assert(workload_text(report) =~= text_head + workload_total_text(tasks, minutes));
    lemma_ends_with(text_head, workload_total_text(tasks, minutes));
    let markdown_head =
        "# Workload Summary\n\n| User | Tasks | Estimated |\n|------|-------|-----------|\n"@
        + workload_body_markdown(report.rows@);
    assert(workload_markdown(report) =~= markdown_head + workload_total_markdown(tasks, minutes));
    lemma_ends_with(markdown_head, workload_total_markdown(tasks, minutes));
}

/// In the JSON document every row holds the tasks and the effort of its
/// user, in the order of the rows. For the workload report over users and
/// tasks, the totals in every format are the sums of the rows: the JSON
/// document holds them under `totals`, and the text for a terminal ends
/// with their line.
pub proof fn lemma_workload_totals_are_sums(
    users: Seq<User>,
    tasks: Seq<TaskRecord>,
    only: Option<int>,
    report: WorkloadReport,
)
    requires
        report.describes(users, tasks, only),
    ensures
        workload_rows_json(report.rows@).len() == report.rows.len(),
        forall|i: int|
            0 <= i < report.rows.len() ==> (#[trigger] workload_rows_json(report.rows@)[i])[2]
                == number_field("tasks"@, report.rows[i].task_count as int) && workload_rows_json(
                report.rows@,
            )[i][3] == number_field("estimated_minutes"@, report.rows[i].total_minutes as int),
        workload_document_view(report).blocks[1] == (
            "totals"@,
            JsonContentView::Object(
                seq![
                    number_field("tasks"@, sum_tasks(report.rows@)),
                    number_field("estimated_minutes"@, sum_minutes(report.rows@)),
                    text_field("estimated_formatted"@, estimate_text(sum_minutes(report.rows@))),
                ],
            ),
        ),
        ends_with(
            workload_text(report),
            workload_total_text(sum_tasks(report.rows@), sum_minutes(report.rows@)),
        ),
        ends_with(
            workload_markdown(report),
            workload_total_markdown(sum_tasks(report.rows@), sum_minutes(report.rows@)),
        ),
{
    lemma_workload_formats_agree(report);
}

/// Appends a line of the table.
fn push_workload_columns(out: &mut String, name: &str, tasks: &str, effort: &str)
    ensures
        final(out)@ == old(out)@ + workload_columns(name@, tasks@, effort@),
{
    push_padded_right(out, name, 20);
    out.append(" ");
    push_padded_left(out, tasks, 10);
    out.append(" ");
    push_padded_left(out, effort, 15);
    out.append("\n");
    proof {
        assert(final(out)@ =~= old(out)@ + workload_columns(name@, tasks@, effort@));
    }
}

/// Appends the line of one user.
fn push_workload_row(out: &mut String, row: &WorkloadStats)
    ensures
        final(out)@ == old(out)@ + workload_row_text(*row),
{
    let name = shorten_name(row.display_name.as_str());
    let tasks = format_int(row.task_count as i128);
    let effort = format_minutes(row.total_minutes);
    push_workload_columns(out, name.as_str(), tasks.as_str(), effort.as_str());
}

/// The workload report as text for a terminal.
pub fn render_workload_text(report: &WorkloadReport) -> (text: String)
    ensures
        text@ == workload_text(*report),
{
    let mut out = String::from_str("\n\x1b[1mWorkload Summary\x1b[0m\n");
    push_rule_line(&mut out, 50);
    push_workload_columns(&mut out, "User", "Tasks", "Estimated");
    push_rule_line(&mut out, 50);
    let ghost head = out@;
    let mut i: usize = 0;
    proof {
        assert(out@ =~= head + workload_body_text(report.rows@.take(0)));
    }
    while i < report.rows.len()
        invariant
            i <= report.rows.len(),
            out@ == head + workload_body_text(report.rows@.take(i as int)),
        decreases report.rows.len() - i,
    {
        push_workload_row(&mut out, &report.rows[i]);
        proof {
            assert(report.rows@.take(i + 1).drop_last() =~= report.rows@.take(i as int));
            assert(report.rows@.take(i + 1).last() == report.rows@[i as int]);
            assert(out@ =~= head + workload_body_text(report.rows@.take(i + 1)));
        }
        i = i + 1;
    }
    proof {
        assert(report.rows@.take(i as int) =~= report.rows@);
    }
    push_rule_line(&mut out, 50);
    let tasks = format_int(report.total_tasks as i128);
    let effort = format_minutes(report.total_minutes);
    push_workload_columns(&mut out, "Total", tasks.as_str(), effort.as_str());
    out.append("\n");
    proof {
        assert(out@ =~= workload_text(*report));
    }
    out
}

/// Appends the table line of one user in markdown.
fn push_workload_row_markdown(out: &mut String, row: &WorkloadStats)
    ensures
        final(out)@ == old(out)@ + workload_row_markdown(*row),
{
    let tasks = format_int(row.task_count as i128);
    let effort = format_minutes(row.total_minutes);
    out.append("| ");
    out.append(row.display_name.as_str());
    out.append(" | ");
    out.append(tasks.as_str());
    out.append(" | ");
    out.append(effort.as_str());
    out.append(" |\n");
    proof {
        assert(final(out)@ =~= old(out)@ + workload_row_markdown(*row));
    }
}

/// The workload report as a markdown table.
pub fn render_workload_markdown(report: &WorkloadReport) -> (text: String)
    ensures
        text@ == workload_markdown(*report),
{
    let mut out = String::from_str(
        "# Workload Summary\n\n| User | Tasks | Estimated |\n|------|-------|-----------|\n",
    );
    let ghost head = out@;
    let mut i: usize = 0;
    proof {
        assert(out@ =~= head + workload_body_markdown(report.rows@.take(0)));
    }
    while i < report.rows.len()
        invariant
            i <= report.rows.len(),
            out@ == head + workload_body_markdown(report.rows@.take(i as int)),
        decreases report.rows.len() - i,
    {
        push_workload_row_markdown(&mut out, &report.rows[i]);
        proof {
            assert(report.rows@.take(i + 1).drop_last() =~= report.rows@.take(i as int));
            assert(report.rows@.take(i + 1).last() == report.rows@[i as int]);
            assert(out@ =~= head + workload_body_markdown(report.rows@.take(i + 1)));
        }
        i = i + 1;
    }
    proof {
        assert(report.rows@.take(i as int) =~= report.rows@);
    }
    let tasks = format_int(report.total_tasks as i128);
    let effort = format_minutes(report.total_minutes);
    out.append("| **Total** | **");
    out.append(tasks.as_str());
    out.append("** | **");
    out.append(effort.as_str());
    out.append("** |\n");
    proof {
        assert(out@ =~= workload_markdown(*report));
    }
    out
}

/// The JSON object of one user.
fn workload_row_object(row: &WorkloadStats) -> (fields: Vec<JsonField>)
    ensures
        fields_view(fields@) == workload_row_fields(*row),
{
    let effort = format_minutes(row.total_minutes);
    let mut fields: Vec<JsonField> = Vec::new();
    proof {
        assert(fields_view(fields@) =~= Seq::empty());
    }
    push_text(&mut fields, "user", row.user_name.as_str());
    push_text(&mut fields, "display_name", row.display_name.as_str());
    push_number(&mut fields, "tasks", row.task_count as i128);
    push_number(&mut fields, "estimated_minutes", row.total_minutes);
    push_text(&mut fields, "estimated_formatted", effort.as_str());
    proof {
        assert(fields_view(fields@) =~= workload_row_fields(*row));
    }
    fields
}

/// The workload report as a JSON document.
pub fn workload_document(report: &WorkloadReport) -> (doc: JsonDocument)
    ensures
        doc@ == workload_document_view(*report),
{
    let mut objects: Vec<Vec<JsonField>> = Vec::new();
    let mut i: usize = 0;
    while i < report.rows.len()
        invariant
            i <= report.rows.len(),
            objects.len() == i,
            forall|j: int|
                0 <= j < i ==> fields_view(#[trigger] objects@[j]@) == workload_row_fields(
                    report.rows@[j],
                ),
        decreases report.rows.len() - i,
    {
        objects.push(workload_row_object(&report.rows[i]));
        i = i + 1;
    }
    proof {
        assert(objects_view(objects@) =~= workload_rows_json(report.rows@));
    }
    let effort = format_minutes(report.total_minutes);
    let mut totals: Vec<JsonField> = Vec::new();
    proof {
        assert(fields_view(totals@) =~= Seq::empty());
    }
    push_number(&mut totals, "tasks", report.total_tasks as i128);
    push_number(&mut totals, "estimated_minutes", report.total_minutes);
    push_text(&mut totals, "estimated_formatted", effort.as_str());
    proof {
        assert(fields_view(totals@) =~= workload_totals_fields(*report));
    }
    let mut blocks: Vec<JsonBlock> = Vec::new();
    proof {
        assert(blocks_view(blocks@) =~= Seq::empty());
    }
    push_list(&mut blocks, "workload", objects);
    push_object(&mut blocks, "totals", totals);
    let doc = JsonDocument { fields: Vec::new(), blocks };
    proof {
        assert(fields_view(doc.fields@) =~= Seq::empty());
        assert(blocks_view(doc.blocks@) =~= workload_document_view(*report).blocks);
    }
    doc
}

/// The workload report in a format.
pub fn render_workload(report: &WorkloadReport, format: OutputFormat) -> (text: String)
    ensures
        text@ == workload_output(*report, format),
{
    match format {
        OutputFormat::Text => render_workload_text(report),
        OutputFormat::Json => {
            let mut text = workload_document(report).render();
            text.append("\n");
            text
        },
        OutputFormat::Markdown => render_workload_markdown(report),
    }
}

/// The workload report over a snapshot of the directory and of the tasks, in
/// the format that the two switches ask for.
///
/// With a user name the report holds that one user, and the request fails
/// with `NotFound` where the directory has no user of that name.
pub fn workload_overview(
    users: &Vec<User>,
    tasks: &Vec<TaskRecord>,
    user_name: Option<&str>,
    json: bool,
    markdown: bool,
) -> (result: Result<String, DirectoryError>)
    ensures
        match result {
            Ok(text) => exists|report: WorkloadReport|
                text@ == workload_output(report, format_for(json, markdown)) && match user_name {
                    None => report.describes(users@, tasks@, None),
                    Some(name) => first_named(users@, name@).is_some() && report.describes(
                        users@,
                        tasks@,
                        first_named(users@, name@),
                    ),
                },
            Err(e) => user_name.is_some() && first_named(users@, user_name.unwrap()@).is_none()
                && e@ == DirectoryErrorView::NotFound(SubjectView::User(user_name.unwrap()@)),
        },
{
    match workload_for(users, tasks, user_name) {
        Ok(report) => {
            let text = render_workload(&report, select_format(json, markdown));
            proof {
                assert(text@ == workload_output(report, format_for(json, markdown)) && match user_name {
                    None => report.describes(users@, tasks@, None),
                    Some(name) => first_named(users@, name@).is_some() && report.describes(
                        users@,
                        tasks@,
                        first_named(users@, name@),
                    ),
                });
            }
            Ok(text)
        },
        Err(e) => Err(e),
    }
}

/// Whether `text` is the workload report over `users` and `tasks` in a
/// format: over all of them where no user was asked for, and over the one
/// user that `users` holds where one was.
pub open spec fn is_workload_answer(
    text: Seq<char>,
    users: Seq<User>,
    tasks: Seq<TaskRecord>,
    one_user: bool,
    format: OutputFormat,
    report: WorkloadReport,
) -> bool {
    &&& text == workload_output(report, format)
    &&& if one_user {
        users.len() == 1 && report.describes(users, tasks, Some(0))
    } else {
        report.describes(users, tasks, None)
    }
}

/// Whether `text` is the workload report over some users and `tasks` in a
/// format.
pub open spec fn has_workload_answer(
    text: Seq<char>,
    tasks: Seq<TaskRecord>,
    one_user: bool,
    format: OutputFormat,
) -> bool {
    exists|users: Seq<User>, report: WorkloadReport| #[trigger]
        is_workload_answer(text, users, tasks, one_user, format, report)
}

/// The workload report over the users of the directory and the given tasks,
/// in the format that the two switches ask for.
///
/// With a user name, that user is looked up in the database and the report
/// holds that one user, with or without open tasks; the request fails with
/// `NotFound` where there is no such user. Without one, all users are read
/// and the report holds those with an open task. Whatever the database
/// holds, the text is the one that `render_workload` writes for the report
/// over what was read. Fails where the reading fails.
pub fn handle_workload(
    conn: &rusqlite::Connection,
    tasks: &Vec<TaskRecord>,
    user_name: Option<&str>,
    json: bool,
    markdown: bool,
) -> (result: Result<String, DirectoryError>)
    ensures
        match result {
            Ok(text) => has_workload_answer(
                text@,
                tasks@,
                user_name.is_some(),
                format_for(json, markdown),
            ),
            Err(e) => (user_name.is_some() && e@ == DirectoryErrorView::NotFound(
                SubjectView::User(user_name.unwrap()@),
            )) || e is Storage,
        },
{
    match user_name {
        Some(name) => {
            let user = require_found(
                get_user_by_name(conn, name)?,
                Subject::User(String::from_str(name)),
            )?;
            let mut users: Vec<User> = Vec::new();
            users.push(user);
            let report = workload_report(&users, tasks, Some(0));
            let text = render_workload(&report, select_format(json, markdown));
            proof {
                assert(is_workload_answer(
                    text@,
                    users@,
                    tasks@,
                    true,
                    format_for(json, markdown),
                    report,
                ));
            }
            Ok(text)
        },
        None => {
            let users = list_users(conn)?;
            let report = workload_report(&users, tasks, None);
            let text = render_workload(&report, select_format(json, markdown));
            proof {
                assert(is_workload_answer(
                    text@,
                    users@,
                    tasks@,
                    false,
                    format_for(json, markdown),
                    report,
                ));
            }
            Ok(text)
        },
    }
}

} // verus!
