//! What a caller makes of the findings: the report for a human reader, and
//! whether the run has failed.

use crate::issue::{error, has_error, views, warning, Issue, IssueView};
use crate::text::{decimal, push_decimal};
use vstd::prelude::*;
use vstd::string::StringExecFns;

verus! {

/// The sign that a report puts before a finding of the given severity.
pub open spec fn glyph(severity: Seq<char>) -> Seq<char> {
    if severity == error() {
        "✗"@
    } else if severity == warning() {
        "⚠"@
    } else {
        "○"@
    }
}

/// What a report says of the path of a finding.
pub open spec fn path_note(path: Option<Seq<char>>) -> Seq<char> {
    match path {
        Some(p) => " ("@ + p + ")"@,
        None => Seq::empty(),
    }
}

/// What a report says of the line of a finding.
pub open spec fn line_note(line: Option<nat>) -> Seq<char> {
    match line {
        Some(n) => ":"@ + decimal(n),
        None => Seq::empty(),
    }
}

/// The line of a report for one finding: sign, category in brackets,
/// message, then the path in parentheses and the line after a colon, where
/// the finding has them.
pub open spec fn finding_line(finding: IssueView) -> Seq<char> {
    glyph(finding.severity) + " ["@ + finding.category + "] "@ + finding.message + path_note(
        finding.path,
    ) + line_note(finding.line) + "\n"@
}

/// How many of the findings have the given severity.
pub open spec fn count_of(findings: Seq<IssueView>, severity: Seq<char>) -> nat {
    findings.filter(|finding: IssueView| finding.severity == severity).len()
}

/// The last lines of a report: how many errors and warnings there are.
pub open spec fn summary(findings: Seq<IssueView>) -> Seq<char> {
    "\nSummary: "@ + decimal(count_of(findings, error())) + " errors, "@ + decimal(
        count_of(findings, warning()),
    ) + " warnings\n"@
}

/// The report for a human reader. Without findings it is one fixed line.
/// Else it is a heading, one line for each finding in order, and a summary.
pub open spec fn report(findings: Seq<IssueView>) -> Seq<char> {
    if findings.len() == 0 {
        "✓ No drift detected\n"@
    } else {
        "Drift Audit Results\n===================\n\n"@ + findings.map_values(
            |finding: IssueView| finding_line(finding),
        ).flatten() + summary(findings)
    }
}

/// Whether the run has failed: whether some finding has the severity
/// `error`.
pub fn has_errors(issues: &Vec<Issue>) -> (failed: bool)
    ensures
        failed == has_error(views(issues@)),
{
    let tag = "error".to_string();
    let mut i: usize = 0;
    while i < issues.len()
        invariant
            i <= issues.len(),
            tag@ == error(),
            forall|j: int| 0 <= j < i ==> (#[trigger] views(issues@)[j]).severity != error(),
        decreases issues.len() - i,
    {
        if issues[i].severity == tag {
            assert(views(issues@)[i as int].severity == error());
            return true;
        }
        i += 1;
    }
    false
}

/// How many of `issues` have the severity `severity`.
pub fn count_severity(issues: &Vec<Issue>, severity: &str) -> (count: usize)
    ensures
        count == count_of(views(issues@), severity@),
{
    let tag = severity.to_string();
    let ghost all = views(issues@);
    let ghost same = |finding: IssueView| finding.severity == severity@;
    let mut count: usize = 0;
    let mut i: usize = 0;
    assert(all.take(0).filter(same) =~= Seq::<IssueView>::empty());
    while i < issues.len()
        invariant
            i <= issues.len(),
            tag@ == severity@,
            all == views(issues@),
            same == |finding: IssueView| finding.severity == severity@,
            count == all.take(i as int).filter(same).len(),
            count <= i,
        decreases issues.len() - i,
    {
        proof {
            assert(all.take(i + 1) =~= all.take(i as int).push(all[i as int]));
            all.take(i as int).lemma_filter_push(all[i as int], same);
        }
        if issues[i].severity == tag {
            count += 1;
        }
        i += 1;
    }
    assert(all.take(issues.len() as int) =~= all);
    count
}

/// Puts the report's line for `issue` at the end of `out`.
fn push_finding_line(out: &mut String, issue: &Issue, error_tag: &String, warning_tag: &String)
    requires
        error_tag@ == error(),
        warning_tag@ == warning(),
    ensures
        final(out)@ == old(out)@ + finding_line(issue@),
{
    if issue.severity == *error_tag {
        out.append("✗");
    } else if issue.severity == *warning_tag {
        out.append("⚠");
    } else {
        out.append("○");
    }
    out.append(" [");
    out.append(issue.category.as_str());
    out.append("] ");
    out.append(issue.message.as_str());
    let ghost head = glyph(issue@.severity) + " ["@ + issue@.category + "] "@ + issue@.message;
    assert(out@ =~= old(out)@ + head);
    match &issue.path {
        Some(path) => {
            out.append(" (");
            out.append(path.as_str());
            out.append(")");
        },
        None => {},
    }
    assert(out@ =~= old(out)@ + (head + path_note(issue@.path)));
    match issue.line {
        Some(line) => {
            out.append(":");
            push_decimal(out, line);
        },
        None => {},
    }
    assert(out@ =~= old(out)@ + (head + path_note(issue@.path) + line_note(issue@.line)));
    out.append("\n");
    assert(out@ =~= old(out)@ + finding_line(issue@));
}

/// The report on `issues` for a human reader.
pub fn render_human(issues: &Vec<Issue>) -> (out: String)
    ensures
        out@ == report(views(issues@)),
{
    if issues.len() == 0 {
        return "✓ No drift detected\n".to_string();
    }
    let error_tag = "error".to_string();
    let warning_tag = "warning".to_string();
    let ghost all = views(issues@);
    let ghost rows = all.map_values(|finding: IssueView| finding_line(finding));
    let ghost heading = "Drift Audit Results\n===================\n\n"@;
    let mut out = "Drift Audit Results\n===================\n\n".to_string();
    let mut i: usize = 0;
    assert(rows.take(0).flatten() =~= Seq::<char>::empty());
    assert(out@ =~= heading + rows.take(0).flatten());
    while i < issues.len()
        invariant
            i <= issues.len(),
            error_tag@ == error(),
            warning_tag@ == warning(),
            all == views(issues@),
            rows == all.map_values(|finding: IssueView| finding_line(finding)),
            heading == "Drift Audit Results\n===================\n\n"@,
            out@ == heading + rows.take(i as int).flatten(),
        decreases issues.len() - i,
    {
        push_finding_line(&mut out, &issues[i], &error_tag, &warning_tag);
        proof {
            assert(rows[i as int] == finding_line(issues@[i as int]@));
            assert(rows.take(i + 1) =~= rows.take(i as int).push(rows[i as int]));
            rows.take(i as int).lemma_flatten_push(rows[i as int]);
            assert(out@ =~= heading + rows.take(i + 1).flatten());
        }
        i += 1;
    }
    assert(rows.take(issues.len() as int) =~= rows);
    let ghost body = out@;
    let errors = count_severity(issues, "error");
    let warnings = count_severity(issues, "warning");
    out.append("\nSummary: ");
    push_decimal(&mut out, errors);
    out.append(" errors, ");
    push_decimal(&mut out, warnings);
    out.append(" warnings\n");
    assert(out@ =~= body + summary(all));
    out
}

} // verus!
