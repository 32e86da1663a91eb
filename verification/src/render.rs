//! What the three output formats share.

use crate::text::{decimal, format_int};
use vstd::prelude::*;
use vstd::string::*;

verus! {

/// The form in which a report is written out.
#[derive(Clone, Copy, Debug, PartialEq, Eq, Structural)]
pub enum OutputFormat {
    /// Fixed-width columns for a terminal.
    Text,
    /// One JSON object.
    Json,
    /// A pipe table.
    Markdown,
}

/// The format that two switches ask for: JSON where its switch is set,
/// whatever the other says; else markdown where that switch is set; else
/// text.
pub open spec fn format_for(json: bool, markdown: bool) -> OutputFormat {
    if json {
        OutputFormat::Json
    } else if markdown {
        OutputFormat::Markdown
    } else {
        OutputFormat::Text
    }
}

/// The format that two switches ask for.
pub fn select_format(json: bool, markdown: bool) -> (format: OutputFormat)
    ensures
        format == format_for(json, markdown),
{
    if json {
        OutputFormat::Json
    } else if markdown {
        OutputFormat::Markdown
    } else {
        OutputFormat::Text
    }
}

/// A horizontal rule of `width` heavy dashes.
pub open spec fn rule(width: nat) -> Seq<char> {
    Seq::new(width, |i: int| '\u{2501}')
}

/// Appends a horizontal rule and the end of its line.
pub fn push_rule_line(out: &mut String, width: usize)
    ensures
        final(out)@ == old(out)@ + rule(width as nat) + "\n"@,
{
    let mut i: usize = 0;
    proof {
        assert(out@ =~= old(out)@ + rule(0));
    }
    while i < width
        invariant
            i <= width,
            out@ == old(out)@ + rule(i as nat),
        decreases width - i,
    {
        proof {
            reveal_strlit("\u{2501}");
        }
        out.append("\u{2501}");
        i = i + 1;
        proof {
            assert(out@ =~= old(out)@ + rule(i as nat));
        }
    }
    out.append("\n");
}

/// A number between two texts.
pub open spec fn labelled(label: Seq<char>, n: int, tail: Seq<char>) -> Seq<char> {
    label + decimal(n) + tail
}

/// Appends a number between two texts.
pub fn push_labelled(out: &mut String, label: &str, n: i128, tail: &str)
    ensures
        final(out)@ == old(out)@ + labelled(label@, n as int, tail@),
{
    let digits = format_int(n);
    out.append(label);
    out.append(digits.as_str());
    out.append(tail);
    proof {
        assert(final(out)@ =~= old(out)@ + labelled(label@, n as int, tail@));
    }
}

/// An effort in minutes as a person reads it: minutes below an hour, whole
/// hours, or hours and minutes.
pub open spec fn estimate_text(minutes: int) -> Seq<char> {
    if minutes < 60 {
        decimal(minutes) + "m"@
    } else if minutes % 60 == 0 {
        decimal(minutes / 60) + "h"@
    } else {
        decimal(minutes / 60) + "h "@ + decimal(minutes % 60) + "m"@
    }
}

/// An effort in minutes as a person reads it.
pub fn format_minutes(minutes: i128) -> (text: String)
    ensures
        text@ == estimate_text(minutes as int),
{
    if minutes < 60 {
        let mut text = format_int(minutes);
        text.append("m");
        text
    } else {
        let hours = minutes / 60;
        let rest = minutes % 60;
        let mut text = format_int(hours);
        if rest == 0 {
            text.append("h");
        } else {
            let digits = format_int(rest);
            text.append("h ");
            text.append(digits.as_str());
            text.append("m");
        }
        text
    }
}

/// A line of `width` dashes.
pub open spec fn dashes(width: nat) -> Seq<char> {
    Seq::new(width, |i: int| '-')
}

/// Appends a line of dashes and the end of the line.
pub fn push_dash_line(out: &mut String, width: usize)
    ensures
        final(out)@ == old(out)@ + dashes(width as nat) + "\n"@,
{
    let mut i: usize = 0;
    proof {
        assert(out@ =~= old(out)@ + dashes(0));
    }
    while i < width
        invariant
            i <= width,
            out@ == old(out)@ + dashes(i as nat),
        decreases width - i,
    {
        proof {
            reveal_strlit("-");
        }
        out.append("-");
        i = i + 1;
        proof {
            assert(out@ =~= old(out)@ + dashes(i as nat));
        }
    }
    out.append("\n");
}

/// A name between quotes, between two texts.
pub open spec fn quoted(before: Seq<char>, name: Seq<char>, after: Seq<char>) -> Seq<char> {
    before + "'"@ + name + "'"@ + after
}

/// Appends a name between quotes, between two texts.
pub fn push_quoted(out: &mut String, before: &str, name: &str, after: &str)
    ensures
        final(out)@ == old(out)@ + quoted(before@, name@, after@),
{
    out.append(before);
    out.append("'");
    out.append(name);
    out.append("'");
    out.append(after);
    proof {
        assert(final(out)@ =~= old(out)@ + quoted(before@, name@, after@));
    }
}

} // verus!
