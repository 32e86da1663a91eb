//! The team report in its three output formats.

use crate::json::{
    blocks_view, fields_view, number_field, objects_view, pretty_json, push_list, push_number,
    push_object, push_text, text_field, JsonBlock, JsonContentView, JsonDocument,
    JsonDocumentView, JsonField, JsonScalarView,
};
use crate::render::{format_for, push_rule_line, rule, select_format, OutputFormat};
use crate::task::TaskRecord;
use crate::team::{sum_done, sum_open, team_report, TeamReport, UserStats};
use crate::text::{
    decimal, ends_with, format_int, lemma_ends_with, padded_left, padded_right,
    push_padded_left, push_padded_right, shorten_name, shortened,
};
use crate::error::DirectoryError;
use crate::user::{list_users, User};
use vstd::prelude::*;
use vstd::string::*;

verus! {

/// Three numbers in columns of eight characters, each after one space.
pub open spec fn number_columns(a: Seq<char>, b: Seq<char>, c: Seq<char>) -> Seq<char> {
    " "@ + padded_left(a, 8) + " "@ + padded_left(b, 8) + " "@ + padded_left(c, 8)
}

/// A line of the table: a name in twenty characters, then three numbers.
pub open spec fn team_columns(name: Seq<char>, a: Seq<char>, b: Seq<char>, c: Seq<char>) -> Seq<
    char,
> {
    padded_right(name, 20) + number_columns(a, b, c) + "\n"@
}

/// The line of one bucket. The bucket of unassigned tasks has its name in
/// yellow and a dash in place of its finished tasks.
pub open spec fn team_row_text(row: UserStats) -> Seq<char> {
    if row.user_id.is_none() {
        "\x1b[33m"@ + padded_right(shortened(row.display_name@), 20) + "\x1b[0m"@ + number_columns(
            decimal(row.open_count as int),
            "-"@,
            decimal(row.spec_total()),
        ) + "\n"@
    } else {
        team_columns(
            shortened(row.display_name@),
            decimal(row.open_count as int),
            decimal(row.done_count as int),
            decimal(row.spec_total()),
        )
    }
}

/// The lines of the buckets.
pub open spec fn team_body_text(rows: Seq<UserStats>) -> Seq<char>
    decreases rows.len(),
{
    if rows.len() == 0 {
        Seq::empty()
    } else {
        team_body_text(rows.drop_last()) + team_row_text(rows.last())
    }
}

/// The team report as text for a terminal: a title in bold, the table
/// between rules, and the grand totals.
pub open spec fn team_text(report: TeamReport) -> Seq<char> {
    "\n\x1b[1mTeam Overview\x1b[0m\n"@ + rule(50) + "\n"@ + team_columns(
        "User"@,
        "Open"@,
        "Done"@,
        "Total"@,
    ) + rule(50) + "\n"@ + team_body_text(report.rows@) + rule(50) + "\n"@ + team_columns(
        "Total"@,
        decimal(report.total_open as int),
        decimal(report.total_done as int),
        decimal(report.spec_total()),
    ) + "\n"@
}

/// The table line of one bucket in markdown.
pub open spec fn team_row_markdown(row: UserStats) -> Seq<char> {
    "| "@ + row.display_name@ + " | "@ + decimal(row.open_count as int) + " | "@ + decimal(
        row.done_count as int,
    ) + " | "@ + decimal(row.spec_total()) + " |\n"@
}

/// The table lines of the buckets in markdown.
pub open spec fn team_body_markdown(rows: Seq<UserStats>) -> Seq<char>
    decreases rows.len(),
{
    if rows.len() == 0 {
        Seq::empty()
    } else {
        team_body_markdown(rows.drop_last()) + team_row_markdown(rows.last())
    }
}

/// The team report as a markdown table with the grand totals in bold.
pub open spec fn team_markdown(report: TeamReport) -> Seq<char> {
    "# Team Overview\n\n| User | Open | Done | Total |\n|------|------|------|-------|\n"@
        + team_body_markdown(report.rows@) + "| **Total** | **"@ + decimal(
        report.total_open as int,
    ) + "** | **"@ + decimal(report.total_done as int) + "** | **"@ + decimal(report.spec_total())
        + "** |\n"@
}

/// The JSON object of one bucket.
pub open spec fn team_row_fields(row: UserStats) -> Seq<(Seq<char>, JsonScalarView)> {
    seq![
        text_field("user"@, row.user_name@),
        text_field("display_name"@, row.display_name@),
        number_field("open"@, row.open_count as int),
        number_field("done"@, row.done_count as int),
        number_field("total"@, row.spec_total()),
    ]
}

/// The JSON objects of the buckets.
pub open spec fn team_rows_json(rows: Seq<UserStats>) -> Seq<Seq<(Seq<char>, JsonScalarView)>> {
    Seq::new(rows.len(), |i: int| team_row_fields(rows[i]))
}

/// The JSON object of the grand totals.
pub open spec fn team_totals_fields(report: TeamReport) -> Seq<(Seq<char>, JsonScalarView)> {
    seq![
        number_field("open"@, report.total_open as int),
        number_field("done"@, report.total_done as int),
        number_field("total"@, report.spec_total()),
    ]
}

/// The team report as a JSON document: the buckets under `team`, the grand
/// totals under `totals`.
pub open spec fn team_document_view(report: TeamReport) -> JsonDocumentView {
    JsonDocumentView {
        fields: Seq::empty(),
        blocks: seq![
            ("team"@, JsonContentView::List(team_rows_json(report.rows@))),
            ("totals"@, JsonContentView::Object(team_totals_fields(report))),
        ],
    }
}

/// What the team report looks like in a format. Every format ends with the
/// end of a line.
pub open spec fn team_output(report: TeamReport, format: OutputFormat) -> Seq<char> {
    match format {
        OutputFormat::Text => team_text(report),
        OutputFormat::Json => pretty_json(team_document_view(report)) + "\n"@,
        OutputFormat::Markdown => team_markdown(report),
    }
}

/// The line of the grand totals in the text for a terminal, with the empty
/// line that follows it.
pub open spec fn team_total_text(open: int, done: int) -> Seq<char> {
    team_columns("Total"@, decimal(open), decimal(done), decimal(open + done)) + "\n"@
}

/// The line of the grand totals in markdown.
pub open spec fn team_total_markdown(open: int, done: int) -> Seq<char> {
    "| **Total** | **"@ + decimal(open) + "** | **"@ + decimal(done) + "** | **"@ + decimal(
        open + done,
    ) + "** |\n"@
}

/// The grand totals are the same numbers in every format: the text for a
/// terminal and the markdown table end with the line of the report's open
/// and finished tasks and their sum, and the JSON document holds the same
/// three numbers under `totals`. In the JSON document the total of every
/// bucket is the sum of its open and finished tasks.
pub proof fn lemma_team_formats_agree(report: TeamReport)
    ensures
        ends_with(
            team_text(report),
            team_total_text(report.total_open as int, report.total_done as int),
        ),
        ends_with(
            team_markdown(report),
            team_total_markdown(report.total_open as int, report.total_done as int),
        ),
        team_document_view(report).blocks[1] == (
            "totals"@,
            JsonContentView::Object(
                seq![
                    number_field("open"@, report.total_open as int),
                    number_field("done"@, report.total_done as int),
                    number_field("total"@, report.total_open + report.total_done),
                ],
            ),
        ),
        forall|i: int|
            0 <= i < report.rows.len() ==> (#[trigger] team_rows_json(report.rows@)[i])[4]
                == number_field("total"@, report.rows[i].open_count + report.rows[i].done_count),
{
    let open = report.total_open as int;
    let done = report.total_done as int;
    let text_head = "\n\x1b[1mTeam Overview\x1b[0m\n"@ + rule(50) + "\n"@ + team_columns(
        "User"@,
        "Open"@,
        "Done"@,
        "Total"@,
    ) + rule(50) + "\n"@ + team_body_text(report.rows@) + rule(50) + "\n"@;
    assert(team_text(report) =~= text_head + team_total_text(open, done));
    lemma_ends_with(text_head, team_total_text(open, done));
    let markdown_head =
        "# Team Overview\n\n| User | Open | Done | Total |\n|------|------|------|-------|\n"@
        + team_body_markdown(report.rows@);
    assert(team_markdown(report) =~= markdown_head + team_total_markdown(open, done));
    lemma_ends_with(markdown_head, team_total_markdown(open, done));
}

/// For the team report over users and tasks, the totals in every format are
/// the sums of the rows: the JSON document holds them under `totals`, and
/// the text for a terminal and the markdown table end with their line.
pub proof fn lemma_team_totals_are_sums(users: Seq<User>, tasks: Seq<TaskRecord>, report: TeamReport)
    requires
        report.describes(users, tasks),
    ensures
        team_document_view(report).blocks[1] == (
            "totals"@,
            JsonContentView::Object(
                seq![
                    number_field("open"@, sum_open(report.rows@)),
                    number_field("done"@, sum_done(report.rows@)),
                    number_field("total"@, sum_open(report.rows@) + sum_done(report.rows@)),
                ],
            ),
        ),
        ends_with(
            team_text(report),
            team_total_text(sum_open(report.rows@), sum_done(report.rows@)),
        ),
        ends_with(
            team_markdown(report),
            team_total_markdown(sum_open(report.rows@), sum_done(report.rows@)),
        ),
{
    lemma_team_formats_agree(report);
}

/// Appends three numbers in columns of eight characters.
fn push_number_columns(out: &mut String, a: &str, b: &str, c: &str)
    ensures
        final(out)@ == old(out)@ + number_columns(a@, b@, c@),
{
    out.append(" ");
    push_padded_left(out, a, 8);
    out.append(" ");
    push_padded_left(out, b, 8);
    out.append(" ");
    push_padded_left(out, c, 8);
    proof {
        assert(final(out)@ =~= old(out)@ + number_columns(a@, b@, c@));
    }
}

/// Appends a line of the table.
fn push_team_columns(out: &mut String, name: &str, a: &str, b: &str, c: &str)
    ensures
        final(out)@ == old(out)@ + team_columns(name@, a@, b@, c@),
{
    push_padded_right(out, name, 20);
    push_number_columns(out, a, b, c);
    out.append("\n");
    proof {
        assert(final(out)@ =~= old(out)@ + team_columns(name@, a@, b@, c@));
    }
}

/// Appends the line of one bucket.
fn push_team_row(out: &mut String, row: &UserStats)
    ensures
        final(out)@ == old(out)@ + team_row_text(*row),
{
    let name = shorten_name(row.display_name.as_str());
    let open = format_int(row.open_count as i128);
    let total = format_int(row.total());
    if row.user_id.is_none() {
        out.append("\x1b[33m");
        push_padded_right(out, name.as_str(), 20);
        out.append("\x1b[0m");
        push_number_columns(out, open.as_str(), "-", total.as_str());
        out.append("\n");
        proof {
            assert(final(out)@ =~= old(out)@ + team_row_text(*row));
        }
    } else {
        let done = format_int(row.done_count as i128);
        push_team_columns(out, name.as_str(), open.as_str(), done.as_str(), total.as_str());
    }
}

/// The team report as text for a terminal.
pub fn render_team_text(report: &TeamReport) -> (text: String)
    ensures
        text@ == team_text(*report),
{
    let mut out = String::from_str("\n\x1b[1mTeam Overview\x1b[0m\n");
    push_rule_line(&mut out, 50);
    push_team_columns(&mut out, "User", "Open", "Done", "Total");
    push_rule_line(&mut out, 50);
    let ghost head = out@;
    let mut i: usize = 0;
    proof {
        assert(out@ =~= head + team_body_text(report.rows@.take(0)));
    }
    while i < report.rows.len()
        invariant
            i <= report.rows.len(),
            out@ == head + team_body_text(report.rows@.take(i as int)),
        decreases report.rows.len() - i,
    {
        push_team_row(&mut out, &report.rows[i]);
        proof {
            assert(report.rows@.take(i + 1).drop_last() =~= report.rows@.take(i as int));
            assert(report.rows@.take(i + 1).last() == report.rows@[i as int]);
            assert(out@ =~= head + team_body_text(report.rows@.take(i + 1)));
        }
        i = i + 1;
    }
    proof {
        assert(report.rows@.take(i as int) =~= report.rows@);
    }
    push_rule_line(&mut out, 50);
    let open = format_int(report.total_open as i128);
    let done = format_int(report.total_done as i128);
    let total = format_int(report.total());
    push_team_columns(&mut out, "Total", open.as_str(), done.as_str(), total.as_str());
    out.append("\n");
    proof {
        assert(out@ =~= team_text(*report));
    }
    out
}

/// Appends the table line of one bucket in markdown.
fn push_team_row_markdown(out: &mut String, row: &UserStats)
    ensures
        final(out)@ == old(out)@ + team_row_markdown(*row),
{
    let open = format_int(row.open_count as i128);
    let done = format_int(row.done_count as i128);
    let total = format_int(row.total());
    out.append("| ");
    out.append(row.display_name.as_str());
    out.append(" | ");
    out.append(open.as_str());
    out.append(" | ");
    out.append(done.as_str());
    out.append(" | ");
    out.append(total.as_str());
    out.append(" |\n");
    proof {
        assert(final(out)@ =~= old(out)@ + team_row_markdown(*row));
    }
}

/// The team report as a markdown table.
pub fn render_team_markdown(report: &TeamReport) -> (text: String)
    ensures
        text@ == team_markdown(*report),
{
    let mut out = String::from_str(
        "# Team Overview\n\n| User | Open | Done | Total |\n|------|------|------|-------|\n",
    );
    let ghost head = out@;
    let mut i: usize = 0;
    proof {
        assert(out@ =~= head + team_body_markdown(report.rows@.take(0)));
    }
    while i < report.rows.len()
        invariant
            i <= report.rows.len(),
            out@ == head + team_body_markdown(report.rows@.take(i as int)),
        decreases report.rows.len() - i,
    {
        push_team_row_markdown(&mut out, &report.rows[i]);
        proof {
            assert(report.rows@.take(i + 1).drop_last() =~= report.rows@.take(i as int));
            assert(report.rows@.take(i + 1).last() == report.rows@[i as int]);
            assert(out@ =~= head + team_body_markdown(report.rows@.take(i + 1)));
        }
        i = i + 1;
    }
    proof {
        assert(report.rows@.take(i as int) =~= report.rows@);
    }
    let open = format_int(report.total_open as i128);
    let done = format_int(report.total_done as i128);
    let total = format_int(report.total());
    out.append("| **Total** | **");
    out.append(open.as_str());
    out.append("** | **");
    out.append(done.as_str());
    out.append("** | **");
    out.append(total.as_str());
    out.append("** |\n");
    proof {
        assert(out@ =~= team_markdown(*report));
    }
    out
}

/// The JSON object of one bucket.
fn team_row_object(row: &UserStats) -> (fields: Vec<JsonField>)
    ensures
        fields_view(fields@) == team_row_fields(*row),
{
    let mut fields: Vec<JsonField> = Vec::new();
    proof {
        assert(fields_view(fields@) =~= Seq::empty());
    }
    push_text(&mut fields, "user", row.user_name.as_str());
    push_text(&mut fields, "display_name", row.display_name.as_str());
    push_number(&mut fields, "open", row.open_count as i128);
    push_number(&mut fields, "done", row.done_count as i128);
    push_number(&mut fields, "total", row.total());
    proof {
        assert(fields_view(fields@) =~= team_row_fields(*row));
    }
    fields
}

/// The team report as a JSON document.
pub fn team_document(report: &TeamReport) -> (doc: JsonDocument)
    ensures
        doc@ == team_document_view(*report),
{
    let mut objects: Vec<Vec<JsonField>> = Vec::new();
    let mut i: usize = 0;
    while i < report.rows.len()
        invariant
            i <= report.rows.len(),
            objects.len() == i,
            forall|j: int|
                0 <= j < i ==> fields_view(#[trigger] objects@[j]@) == team_row_fields(
                    report.rows@[j],
                ),
        decreases report.rows.len() - i,
    {
        objects.push(team_row_object(&report.rows[i]));
        i = i + 1;
    }
    proof {
        assert(objects_view(objects@) =~= team_rows_json(report.rows@));
    }
    let mut totals: Vec<JsonField> = Vec::new();
    proof {
        assert(fields_view(totals@) =~= Seq::empty());
    }
    push_number(&mut totals, "open", report.total_open as i128);
    push_number(&mut totals, "done", report.total_done as i128);
    push_number(&mut totals, "total", report.total());
    proof {
        assert(fields_view(totals@) =~= team_totals_fields(*report));
    }
    let mut blocks: Vec<JsonBlock> = Vec::new();
    proof {
        assert(blocks_view(blocks@) =~= Seq::empty());
    }
    push_list(&mut blocks, "team", objects);
    push_object(&mut blocks, "totals", totals);
    let doc = JsonDocument { fields: Vec::new(), blocks };
    proof {
        assert(fields_view(doc.fields@) =~= Seq::empty());
        assert(blocks_view(doc.blocks@) =~= team_document_view(*report).blocks);
    }
    doc
}

/// The team report in a format.
pub fn render_team(report: &TeamReport, format: OutputFormat) -> (text: String)
    ensures
        text@ == team_output(*report, format),
{
    match format {
        OutputFormat::Text => render_team_text(report),
        OutputFormat::Json => {
            let mut text = team_document(report).render();
            text.append("\n");
            text
        },
        OutputFormat::Markdown => render_team_markdown(report),
    }
}

/// The team report over a snapshot of the directory and of the tasks, in the
/// format that the two switches ask for.
pub fn team_overview(
    users: &Vec<User>,
    tasks: &Vec<TaskRecord>,
    json: bool,
    markdown: bool,
) -> (text: String)
    ensures
        exists|report: TeamReport|
            report.describes(users@, tasks@) && text@ == team_output(
                report,
                format_for(json, markdown),
            ),
{
    let report = team_report(users, tasks);
    let text = render_team(&report, select_format(json, markdown));
    proof {
        assert(report.describes(users@, tasks@) && text@ == team_output(
            report,
            format_for(json, markdown),
        ));
    }
    text
}

/// The team report over the users of the directory and the given tasks, in
/// the format that the two switches ask for.
///
/// The users are read from the database; whatever it holds, the text is the
/// one that `team_overview` writes for them. Fails where the reading fails.
pub fn handle_team(
    conn: &rusqlite::Connection,
    tasks: &Vec<TaskRecord>,
    json: bool,
    markdown: bool,
) -> (result: Result<String, DirectoryError>)
    ensures
        match result {
            Ok(text) => exists|users: Seq<User>, report: TeamReport|
                report.describes(users, tasks@) && text@ == team_output(
                    report,
                    format_for(json, markdown),
                ),
            Err(e) => e is Storage,
        },
{
    let users = list_users(conn)?;
    let report = team_report(&users, tasks);
    let text = render_team(&report, select_format(json, markdown));
    proof {
        assert(report.describes(users@, tasks@) && text@ == team_output(
            report,
            format_for(json, markdown),
        ));
    }
    Ok(text)
}

} // verus!
