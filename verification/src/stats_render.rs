//! The stats report in its three output formats.

use crate::json::{
    blocks_view, fields_view, number_field, pretty_json, push_number, push_object, JsonBlock,
    JsonContentView, JsonDocument, JsonDocumentView, JsonField, JsonScalarView,
};
use crate::render::{
    format_for, labelled, push_labelled, push_rule_line, rule, select_format, OutputFormat,
};
use crate::stats::{stats_report, stats_report_now, StatsReport};
use crate::task::TaskRecord;
use crate::text::{lemma_occurs_between, occurs_in};
use vstd::prelude::*;
use vstd::string::*;

verus! {

/// A line with a figure that is set in red where it is not 0.
pub open spec fn alert_line(label: Seq<char>, n: int) -> Seq<char> {
    if n > 0 {
        labelled(label + "\x1b[91m"@, n, "\x1b[0m\n"@)
    } else {
        labelled(label, n, "\n"@)
    }
}

/// The stats report as text for a terminal.
pub open spec fn stats_text(report: StatsReport) -> Seq<char> {
    labelled("\n\x1b[1mTask Statistics (last "@, report.period_days as int, " days)\x1b[0m\n"@)
        + rule(40) + "\n"@ + labelled("Created:        "@, report.created as int, "\n"@) + labelled(
        "Completed:      "@,
        report.completed as int,
        "\n"@,
    ) + labelled("Completion:     "@, report.completion_rate as int, "%\n"@) + rule(40) + "\n"@
        + alert_line("Overdue:        "@, report.overdue as int) + alert_line(
        "High Priority:  "@,
        report.high_priority as int,
    ) + rule(40) + "\n"@ + "By Status:\n"@ + labelled(
        "  ongoing       "@,
        report.ongoing as int,
        "\n"@,
    ) + labelled("  pending       "@, report.pending as int, "\n"@) + labelled(
        "  suspended     "@,
        report.suspended as int,
        "\n"@,
    ) + labelled("  done          "@, report.done as int, "\n"@) + labelled(
        "  cancelled     "@,
        report.cancelled as int,
        "\n\n"@,
    )
}

/// The stats report as two markdown tables.
pub open spec fn stats_markdown(report: StatsReport) -> Seq<char> {
    labelled(
        "# Task Statistics (last "@,
        report.period_days as int,
        " days)\n\n| Metric | Value |\n|--------|-------|\n"@,
    ) + labelled("| Created | "@, report.created as int, " |\n"@) + labelled(
        "| Completed | "@,
        report.completed as int,
        " |\n"@,
    ) + labelled("| Completion Rate | "@, report.completion_rate as int, "% |\n"@) + labelled(
        "| Overdue | "@,
        report.overdue as int,
        " |\n"@,
    ) + labelled(
        "| High Priority | "@,
        report.high_priority as int,
        " |\n\n## By Status\n\n| Status | Count |\n|--------|-------|\n"@,
    ) + labelled("| ongoing | "@, report.ongoing as int, " |\n"@) + labelled(
        "| pending | "@,
        report.pending as int,
        " |\n"@,
    ) + labelled("| suspended | "@, report.suspended as int, " |\n"@) + labelled(
        "| done | "@,
        report.done as int,
        " |\n"@,
    ) + labelled("| cancelled | "@, report.cancelled as int, " |\n"@)
}

/// The figures of the window as JSON fields.
pub open spec fn stats_fields(report: StatsReport) -> Seq<(Seq<char>, JsonScalarView)> {
    seq![
        number_field("period_days"@, report.period_days as int),
        number_field("created"@, report.created as int),
        number_field("completed"@, report.completed as int),
        number_field("completion_rate"@, report.completion_rate as int),
        number_field("overdue"@, report.overdue as int),
        number_field("high_priority"@, report.high_priority as int),
    ]
}

/// The number of tasks in each status as JSON fields.
pub open spec fn status_fields(report: StatsReport) -> Seq<(Seq<char>, JsonScalarView)> {
    seq![
        number_field("ongoing"@, report.ongoing as int),
        number_field("pending"@, report.pending as int),
        number_field("suspended"@, report.suspended as int),
        number_field("done"@, report.done as int),
        number_field("cancelled"@, report.cancelled as int),
    ]
}

/// The stats report as a JSON document: the figures of the window, and the
/// number of tasks in each status under `by_status`.
pub open spec fn stats_document_view(report: StatsReport) -> JsonDocumentView {
    JsonDocumentView {
        fields: stats_fields(report),
        blocks: seq![("by_status"@, JsonContentView::Object(status_fields(report)))],
    }
}

/// What the stats report looks like in a format. Every format ends with the
/// end of a line.
pub open spec fn stats_output(report: StatsReport, format: OutputFormat) -> Seq<char> {
    match format {
        OutputFormat::Text => stats_text(report),
        OutputFormat::Json => pretty_json(stats_document_view(report)) + "\n"@,
        OutputFormat::Markdown => stats_markdown(report),
    }
}

/// The figures of the window are the same numbers in every format: the
/// text for a terminal and the markdown table hold the lines of the tasks
/// created and completed and of the completion rate, and the JSON document
/// holds the same three numbers among its fields.
pub proof fn lemma_stats_formats_agree(report: StatsReport)
    ensures
        occurs_in(
            stats_text(report),
            labelled("Created:        "@, report.created as int, "\n"@) + labelled(
                "Completed:      "@,
                report.completed as int,
                "\n"@,
            ) + labelled("Completion:     "@, report.completion_rate as int, "%\n"@),
        ),
        occurs_in(
            stats_markdown(report),
            labelled("| Created | "@, report.created as int, " |\n"@) + labelled(
                "| Completed | "@,
                report.completed as int,
                " |\n"@,
            ) + labelled("| Completion Rate | "@, report.completion_rate as int, "% |\n"@),
        ),
        stats_document_view(report).fields[1] == number_field("created"@, report.created as int),
        stats_document_view(report).fields[2] == number_field(
            "completed"@,
            report.completed as int,
        ),
        stats_document_view(report).fields[3] == number_field(
            "completion_rate"@,
            report.completion_rate as int,
        ),
{
    let head = labelled(
        "\n\x1b[1mTask Statistics (last "@,
        report.period_days as int,
        " days)\x1b[0m\n"@,
    ) + rule(40) + "\n"@;
    let part = labelled("Created:        "@, report.created as int, "\n"@) + labelled(
        "Completed:      "@,
        report.completed as int,
        "\n"@,
    ) + labelled("Completion:     "@, report.completion_rate as int, "%\n"@);
    let tail = rule(40) + "\n"@ + alert_line("Overdue:        "@, report.overdue as int)
        + alert_line("High Priority:  "@, report.high_priority as int) + rule(40) + "\n"@
        + "By Status:\n"@ + labelled("  ongoing       "@, report.ongoing as int, "\n"@)
        + labelled("  pending       "@, report.pending as int, "\n"@) + labelled(
        "  suspended     "@,
        report.suspended as int,
        "\n"@,
    ) + labelled("  done          "@, report.done as int, "\n"@) + labelled(
        "  cancelled     "@,
        report.cancelled as int,
        "\n\n"@,
    );
    assert(stats_text(report) =~= head + part + tail);
    lemma_occurs_between(head, part, tail);
    let md_head = labelled(
        "# Task Statistics (last "@,
        report.period_days as int,
        " days)\n\n| Metric | Value |\n|--------|-------|\n"@,
    );
    let md_part = labelled("| Created | "@, report.created as int, " |\n"@) + labelled(
        "| Completed | "@,
        report.completed as int,
        " |\n"@,
    ) + labelled("| Completion Rate | "@, report.completion_rate as int, "% |\n"@);
    let md_tail = labelled("| Overdue | "@, report.overdue as int, " |\n"@) + labelled(
        "| High Priority | "@,
        report.high_priority as int,
        " |\n\n## By Status\n\n| Status | Count |\n|--------|-------|\n"@,
    ) + labelled("| ongoing | "@, report.ongoing as int, " |\n"@) + labelled(
        "| pending | "@,
        report.pending as int,
        " |\n"@,
    ) + labelled("| suspended | "@, report.suspended as int, " |\n"@) + labelled(
        "| done | "@,
        report.done as int,
        " |\n"@,
    ) + labelled("| cancelled | "@, report.cancelled as int, " |\n"@);
    assert(stats_markdown(report) =~= md_head + md_part + md_tail);
    lemma_occurs_between(md_head, md_part, md_tail);
}

/// Appends a line with a figure that is set in red where it is not 0.
fn push_alert_line(out: &mut String, label: &str, n: u64)
    ensures
        final(out)@ == old(out)@ + alert_line(label@, n as int),
{
    if n > 0 {
        out.append(label);
        push_labelled(out, "\x1b[91m", n as i128, "\x1b[0m\n");
        proof {
            assert(final(out)@ =~= old(out)@ + alert_line(label@, n as int));
        }
    } else {
        push_labelled(out, label, n as i128, "\n");
    }
}

/// The stats report as text for a terminal.
pub fn render_stats_text(report: &StatsReport) -> (text: String)
    ensures
        text@ == stats_text(*report),
{
    let mut out = String::new();
    push_labelled(
        &mut out,
        "\n\x1b[1mTask Statistics (last ",
        report.period_days as i128,
        " days)\x1b[0m\n",
    );
    push_rule_line(&mut out, 40);
    push_labelled(&mut out, "Created:        ", report.created as i128, "\n");
    push_labelled(&mut out, "Completed:      ", report.completed as i128, "\n");
    push_labelled(&mut out, "Completion:     ", report.completion_rate as i128, "%\n");
    push_rule_line(&mut out, 40);
    push_alert_line(&mut out, "Overdue:        ", report.overdue);
    push_alert_line(&mut out, "High Priority:  ", report.high_priority);
    push_rule_line(&mut out, 40);
    out.append("By Status:\n");
    push_labelled(&mut out, "  ongoing       ", report.ongoing as i128, "\n");
    push_labelled(&mut out, "  pending       ", report.pending as i128, "\n");
    push_labelled(&mut out, "  suspended     ", report.suspended as i128, "\n");
    push_labelled(&mut out, "  done          ", report.done as i128, "\n");
    push_labelled(&mut out, "  cancelled     ", report.cancelled as i128, "\n\n");
    proof {
        assert(out@ =~= stats_text(*report));
    }
    out
}

/// The stats report as two markdown tables.
pub fn render_stats_markdown(report: &StatsReport) -> (text: String)
    ensures
        text@ == stats_markdown(*report),
{
    let mut out = String::new();
    push_labelled(
        &mut out,
        "# Task Statistics (last ",
        report.period_days as i128,
        " days)\n\n| Metric | Value |\n|--------|-------|\n",
    );
    push_labelled(&mut out, "| Created | ", report.created as i128, " |\n");
    push_labelled(&mut out, "| Completed | ", report.completed as i128, " |\n");
    push_labelled(&mut out, "| Completion Rate | ", report.completion_rate as i128, "% |\n");
    push_labelled(&mut out, "| Overdue | ", report.overdue as i128, " |\n");
    push_labelled(
        &mut out,
        "| High Priority | ",
        report.high_priority as i128,
        " |\n\n## By Status\n\n| Status | Count |\n|--------|-------|\n",
    );
    push_labelled(&mut out, "| ongoing | ", report.ongoing as i128, " |\n");
    push_labelled(&mut out, "| pending | ", report.pending as i128, " |\n");
    push_labelled(&mut out, "| suspended | ", report.suspended as i128, " |\n");
    push_labelled(&mut out, "| done | ", report.done as i128, " |\n");
    push_labelled(&mut out, "| cancelled | ", report.cancelled as i128, " |\n");
    proof {
        assert(out@ =~= stats_markdown(*report));
    }
    out
}

/// The stats report as a JSON document.
pub fn stats_document(report: &StatsReport) -> (doc: JsonDocument)
    ensures
        doc@ == stats_document_view(*report),
{
    let mut fields: Vec<JsonField> = Vec::new();
    proof {
        assert(fields_view(fields@) =~= Seq::empty());
    }
    push_number(&mut fields, "period_days", report.period_days as i128);
    push_number(&mut fields, "created", report.created as i128);
    push_number(&mut fields, "completed", report.completed as i128);
    push_number(&mut fields, "completion_rate", report.completion_rate as i128);
    push_number(&mut fields, "overdue", report.overdue as i128);
    push_number(&mut fields, "high_priority", report.high_priority as i128);
    proof {
        assert(fields_view(fields@) =~= stats_fields(*report));
    }
    let mut by_status: Vec<JsonField> = Vec::new();
    proof {
        assert(fields_view(by_status@) =~= Seq::empty());
    }
    push_number(&mut by_status, "ongoing", report.ongoing as i128);
    push_number(&mut by_status, "pending", report.pending as i128);
    push_number(&mut by_status, "suspended", report.suspended as i128);
    push_number(&mut by_status, "done", report.done as i128);
    push_number(&mut by_status, "cancelled", report.cancelled as i128);
    proof {
        assert(fields_view(by_status@) =~= status_fields(*report));
    }
    let mut blocks: Vec<JsonBlock> = Vec::new();
    proof {
        assert(blocks_view(blocks@) =~= Seq::empty());
    }
    push_object(&mut blocks, "by_status", by_status);
    let doc = JsonDocument { fields, blocks };
    proof {
        assert(blocks_view(doc.blocks@) =~= stats_document_view(*report).blocks);
    }
    doc
}

/// The stats report in a format.
pub fn render_stats(report: &StatsReport, format: OutputFormat) -> (text: String)
    ensures
        text@ == stats_output(*report, format),
{
    match format {
        OutputFormat::Text => render_stats_text(report),
        OutputFormat::Json => {
            let mut text = stats_document(report).render();
            text.append("\n");
            text
        },
        OutputFormat::Markdown => render_stats_markdown(report),
    }
}

/// The stats report over `tasks` for the `days` days that end at `now`, in
/// the format that the two switches ask for.
pub fn stats_at(tasks: &Vec<TaskRecord>, days: i64, now: i64, json: bool, markdown: bool) -> (text:
    String)
    ensures
        exists|report: StatsReport|
            report.describes(tasks@, days as int, now as int) && text@ == stats_output(
                report,
                format_for(json, markdown),
            ),
{
    let report = stats_report(tasks, days, now);
    let text = render_stats(&report, select_format(json, markdown));
    proof {
        assert(report.describes(tasks@, days as int, now as int) && text@ == stats_output(
            report,
            format_for(json, markdown),
        ));
    }
    text
}

/// The stats report over `tasks` for the `days` days that end now, in the
/// format that the two switches ask for.
///
/// The clock decides the end of the window; whatever it gives, the text is
/// the one that `stats_at` writes for it.
pub fn handle_stats(tasks: &Vec<TaskRecord>, days: i64, json: bool, markdown: bool) -> (text: String)
    ensures
        exists|report: StatsReport, now: i64|
            report.describes(tasks@, days as int, now as int) && text@ == stats_output(
                report,
                format_for(json, markdown),
            ),
{
    let report = stats_report_now(tasks, days);
    let text = render_stats(&report, select_format(json, markdown));
    proof {
        let now = choose|now: i64| report.describes(tasks@, days as int, now as int);
        assert(report.describes(tasks@, days as int, now as int) && text@ == stats_output(
            report,
            format_for(json, markdown),
        ));
    }
    text
}

} // verus!
