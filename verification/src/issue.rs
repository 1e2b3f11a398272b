//! The audit's one entity: a finding.

use vstd::prelude::*;

verus! {

/// One detected instance of drift.
#[derive(Debug, PartialEq, Eq)]
pub struct Issue {
    /// The tag of the check that produced the finding.
    pub category: String,
    /// `error`, `warning` or `info`.
    pub severity: String,
    /// What was found, for a human reader.
    pub message: String,
    /// The path that the finding is about; absent where it is about the
    /// repository as a whole.
    pub path: Option<String>,
    /// The line within `path`, counted from one.
    pub line: Option<usize>,
}

/// What an `Issue` says, as plain mathematical values.
pub struct IssueView {
    pub category: Seq<char>,
    pub severity: Seq<char>,
    pub message: Seq<char>,
    pub path: Option<Seq<char>>,
    pub line: Option<nat>,
}

/// The tags of the checks.
pub open spec fn categories() -> Seq<Seq<char>> {
    seq!["stale_config"@, "version_mismatch"@, "dead_code"@, "git_drift"@, "gitignore_drift"@]
}

/// The severity of a finding that must fail the run.
pub open spec fn error() -> Seq<char> {
    "error"@
}

/// The severity of a finding that deserves attention.
pub open spec fn warning() -> Seq<char> {
    "warning"@
}

/// The severity of a finding that is reported for the record.
pub open spec fn info() -> Seq<char> {
    "info"@
}

impl IssueView {
    /// A finding carries the tag of a check, one of the three severities and
    /// a message, and it names a line only within a path.
    pub open spec fn well_formed(self) -> bool {
        &&& categories().contains(self.category)
        &&& (self.severity == error() || self.severity == warning() || self.severity == info())
        &&& self.message.len() > 0
        &&& (self.line is Some ==> self.path is Some)
    }

    /// A well-formed finding that does not fail the run.
    pub open spec fn is_advisory(self) -> bool {
        &&& self.well_formed()
        &&& self.severity != error()
    }
}

impl View for Issue {
    type V = IssueView;

    open spec fn view(&self) -> IssueView {
        IssueView {
            category: self.category@,
            severity: self.severity@,
            message: self.message@,
            path: match self.path {
                Some(p) => Some(p@),
                None => None,
            },
            line: match self.line {
                Some(n) => Some(n as nat),
                None => None,
            },
        }
    }
}

/// What a sequence of findings says, finding by finding.
pub open spec fn views(issues: Seq<Issue>) -> Seq<IssueView> {
    Seq::new(issues.len(), |i: int| issues[i]@)
}

/// Every finding of the sequence is well formed.
pub open spec fn all_well_formed(findings: Seq<IssueView>) -> bool {
    forall|i: int| 0 <= i < findings.len() ==> (#[trigger] findings[i]).well_formed()
}

/// Every finding of the sequence is well formed and does not fail the run.
pub open spec fn all_advisory(findings: Seq<IssueView>) -> bool {
    forall|i: int| 0 <= i < findings.len() ==> (#[trigger] findings[i]).is_advisory()
}

/// Some finding of the sequence has the severity `error`.
pub open spec fn has_error(findings: Seq<IssueView>) -> bool {
    exists|i: int| 0 <= i < findings.len() && (#[trigger] findings[i]).severity == error()
}

impl Clone for Issue {
    /// A finding that says the same.
    fn clone(&self) -> (copy: Issue)
        ensures
            copy@ == self@,
    {
        Issue {
            category: self.category.clone(),
            severity: self.severity.clone(),
            message: self.message.clone(),
            path: match &self.path {
                Some(p) => Some(p.clone()),
                None => None,
            },
            line: self.line,
        }
    }
}

impl Issue {
    /// A finding with the given content.
    pub fn new(
        category: &str,
        severity: &str,
        message: String,
        path: Option<&str>,
        line: Option<usize>,
    ) -> (issue: Issue)
        ensures
            issue@ == (IssueView {
                category: category@,
                severity: severity@,
                message: message@,
                path: match path {
                    Some(p) => Some(p@),
                    None => None,
                },
                line: match line {
                    Some(n) => Some(n as nat),
                    None => None,
                },
            }),
    {
        Issue {
            category: category.to_string(),
            severity: severity.to_string(),
            message,
            path: match path {
                Some(p) => Some(p.to_string()),
                None => None,
            },
            line,
        }
    }
}

/// Puts `issue` at the end of `issues`.
pub fn record(issues: &mut Vec<Issue>, issue: Issue)
    ensures
        views(final(issues)@) == views(old(issues)@).push(issue@),
{
    issues.push(issue);
    assert(views(issues@) =~= views(old(issues)@).push(issue@));
}

/// Moves the findings of `more` to the end of `issues`, in their order.
pub fn record_all(issues: &mut Vec<Issue>, more: Vec<Issue>)
    ensures
        views(final(issues)@) == views(old(issues)@) + views(more@),
{
    let mut more = more;
    let ghost added = more@;
    issues.append(&mut more);
    assert(views(issues@) =~= views(old(issues)@) + views(added));
}

/// In a well-formed finding the category, the severity and the message are
/// not empty, and a line stands only beside a path.
pub proof fn lemma_well_formed_fields(finding: IssueView)
    requires
        finding.well_formed(),
    ensures
        finding.category.len() > 0,
        finding.severity.len() > 0,
        finding.message.len() > 0,
        finding.line is Some ==> finding.path is Some,
{
    reveal_strlit("stale_config");
    reveal_strlit("version_mismatch");
    reveal_strlit("dead_code");
    reveal_strlit("git_drift");
    reveal_strlit("gitignore_drift");
    reveal_strlit("error");
    reveal_strlit("warning");
    reveal_strlit("info");
    let at = choose|i: int| 0 <= i < categories().len() && categories()[i] == finding.category;
    assert(categories()[at].len() > 0);
}

/// The three severities are three different texts.
pub proof fn lemma_severities_differ()
    ensures
        warning() != error(),
        info() != error(),
        warning() != info(),
{
    reveal_strlit("error");
    reveal_strlit("warning");
    reveal_strlit("info");
    assert("error"@.len() == 5);
    assert("warning"@.len() == 7);
    assert("info"@.len() == 4);
}

/// Findings that are all advisory are all well formed, and none of them
/// fails the run.
pub proof fn lemma_advisory(findings: Seq<IssueView>)
    requires
        all_advisory(findings),
    ensures
        all_well_formed(findings),
        !has_error(findings),
{
}

/// Joining two sequences of advisory findings gives one of the same.
pub proof fn lemma_advisory_add(a: Seq<IssueView>, b: Seq<IssueView>)
    requires
        all_advisory(a),
        all_advisory(b),
    ensures
        all_advisory(a + b),
{
    assert forall|i: int| 0 <= i < (a + b).len() implies (#[trigger] (a + b)[i]).is_advisory() by {
        if i < a.len() {
            assert((a + b)[i] == a[i]);
        } else {
            assert((a + b)[i] == b[i - a.len()]);
        }
    }
}

/// Where a rule yields only advisory findings, so does its use on every item
/// of a sequence.
pub proof fn lemma_advisory_filter_map<A>(items: Seq<A>, rule: spec_fn(A) -> Option<IssueView>)
    requires
        forall|item: A| (#[trigger] rule(item)) is Some ==> rule(item)->0.is_advisory(),
    ensures
        all_advisory(items.filter_map(rule)),
    decreases items.len(),
{
    if items.len() > 0 {
        lemma_advisory_filter_map(items.drop_last(), rule);
        if rule(items.last()) is Some {
            lemma_advisory_add(items.drop_last().filter_map(rule), seq![rule(items.last())->0]);
        }
    }
}

/// Joining sequences of advisory findings end to end gives one of the same.
pub proof fn lemma_advisory_flatten(parts: Seq<Seq<IssueView>>)
    requires
        forall|j: int| 0 <= j < parts.len() ==> all_advisory(#[trigger] parts[j]),
    ensures
        all_advisory(parts.flatten()),
    decreases parts.len(),
{
    if parts.len() > 0 {
        lemma_advisory_flatten(parts.drop_last());
        assert(parts.drop_last().push(parts.last()) =~= parts);
        parts.drop_last().lemma_flatten_push(parts.last());
        lemma_advisory_add(parts.drop_last().flatten(), parts.last());
    }
}

} // verus!
