//! Changes that version control has not recorded.

use crate::issue::{
    all_advisory, all_well_formed, categories, info, lemma_advisory, lemma_severities_differ, record, views, warning, Issue,
    IssueView,
};
use crate::text::{
    decimal, lines, push_decimal, split_lines, starts_with, starts_with_chars, texts, to_chars,
};
use vstd::prelude::*;
use vstd::string::StringExecFns;

verus! {

/// A status line of a file that was modified, in the index or in the
/// working tree.
pub open spec fn is_modified(line: Seq<char>) -> bool {
    starts_with(line, " M"@) || starts_with(line, "M "@)
}

/// A status line of a file that version control does not track.
pub open spec fn is_untracked(line: Seq<char>) -> bool {
    starts_with(line, "??"@)
}

/// How many lines of the status output report a modified file.
pub open spec fn modified_count(status: Seq<char>) -> nat {
    lines(status).filter(|line: Seq<char>| is_modified(line)).len()
}

/// How many lines of the status output report an untracked file.
pub open spec fn untracked_count(status: Seq<char>) -> nat {
    lines(status).filter(|line: Seq<char>| is_untracked(line)).len()
}

/// The finding for `count` modified files.
pub open spec fn modified_finding(count: nat) -> IssueView {
    IssueView {
        category: "git_drift"@,
        severity: warning(),
        message: decimal(count) + " modified files not committed"@,
        path: None,
        line: None,
    }
}

/// The finding for `count` untracked files.
pub open spec fn untracked_finding(count: nat) -> IssueView {
    IssueView {
        category: "git_drift"@,
        severity: info(),
        message: decimal(count) + " untracked files"@,
        path: None,
        line: None,
    }
}

/// The findings on a status output: one warning with the number of modified
/// files where there is any, then one note with the number of untracked
/// files where there is any. Without a status output there is no finding.
pub open spec fn git_findings(status: Option<Seq<char>>) -> Seq<IssueView> {
    match status {
        Some(text) => {
            let first = if modified_count(text) > 0 {
                seq![modified_finding(modified_count(text))]
            } else {
                Seq::empty()
            };
            let second = if untracked_count(text) > 0 {
                seq![untracked_finding(untracked_count(text))]
            } else {
                Seq::empty()
            };
            first + second
        },
        None => Seq::empty(),
    }
}

/// Every finding on a status output is well formed, and none fails the run.
pub proof fn lemma_git_advisory(status: Option<Seq<char>>)
    ensures
        all_advisory(git_findings(status)),
{
    lemma_severities_differ();
    reveal_strlit(" modified files not committed");
    reveal_strlit(" untracked files");
    assert(categories()[3] == "git_drift"@);
    assert forall|count: nat| (#[trigger] modified_finding(count)).is_advisory() by {}
    assert forall|count: nat| (#[trigger] untracked_finding(count)).is_advisory() by {}
}

/// Counts the status lines of modified and of untracked files.
pub fn count_changes(status: &str) -> (counts: (usize, usize))
    ensures
        counts.0 == modified_count(status@),
        counts.1 == untracked_count(status@),
{
    let chars = to_chars(status);
    let parts = split_lines(chars.as_slice());
    let staged = to_chars("M ");
    let unstaged = to_chars(" M");
    let unknown = to_chars("??");
    let ghost all = lines(status@);
    let ghost changed = |line: Seq<char>| is_modified(line);
    let ghost fresh = |line: Seq<char>| is_untracked(line);
    let mut modified: usize = 0;
    let mut untracked: usize = 0;
    let mut i: usize = 0;
    assert(all.take(0).filter(changed) =~= Seq::<Seq<char>>::empty());
    assert(all.take(0).filter(fresh) =~= Seq::<Seq<char>>::empty());
    while i < parts.len()
        invariant
            i <= parts.len(),
            texts(parts@) == all,
            all == lines(status@),
            changed == |line: Seq<char>| is_modified(line),
            fresh == |line: Seq<char>| is_untracked(line),
            staged@ == "M "@,
            unstaged@ == " M"@,
            unknown@ == "??"@,
            modified == all.take(i as int).filter(changed).len(),
            untracked == all.take(i as int).filter(fresh).len(),
            modified <= i,
            untracked <= i,
        decreases parts.len() - i,
    {
        let line = parts[i];
        proof {
            assert(all[i as int] == line@);
            assert(all.take(i + 1) =~= all.take(i as int).push(line@));
            all.take(i as int).lemma_filter_push(line@, changed);
            all.take(i as int).lemma_filter_push(line@, fresh);
        }
        if starts_with_chars(line, unstaged.as_slice()) || starts_with_chars(
            line,
            staged.as_slice(),
        ) {
            modified += 1;
        }
        if starts_with_chars(line, unknown.as_slice()) {
            untracked += 1;
        }
        i += 1;
    }
    assert(all.take(parts.len() as int) =~= all);
    (modified, untracked)
}

/// Reads the output of the status command, where there is one. Its lines
/// that begin with ` M` or `M ` count as modified files, those that begin
/// with `??` as untracked files. Each count above zero gives one finding
/// that states the count: at most two findings in all.
pub fn check_git_drift(status: Option<&str>) -> (issues: Vec<Issue>)
    ensures
        views(issues@) == git_findings(
            match status {
                Some(text) => Some(text@),
                None => None,
            },
        ),
        all_well_formed(views(issues@)),
        issues@.len() <= 2,
{
    let mut issues: Vec<Issue> = Vec::new();
    assert(views(issues@) =~= Seq::<IssueView>::empty());
    if let Some(text) = status {
        let (modified, untracked) = count_changes(text);
        if modified > 0 {
            let mut message = String::new();
            push_decimal(&mut message, modified);
            message.append(" modified files not committed");
            let issue = Issue::new("git_drift", "warning", message, None, None);
            record(&mut issues, issue);
        }
        if untracked > 0 {
            let mut message = String::new();
            push_decimal(&mut message, untracked);
            message.append(" untracked files");
            let issue = Issue::new("git_drift", "info", message, None, None);
            record(&mut issues, issue);
        }
        assert(views(issues@) =~= git_findings(Some(text@)));
    }
    proof {
        lemma_git_advisory(
            match status {
                Some(text) => Some(text@),
                None => None,
            },
        );
        lemma_advisory(views(issues@));
    }
    issues
}

} // verus!
