//! Ignore rules that name paths which do not exist.

use crate::issue::{
    all_advisory, all_well_formed, categories, info, lemma_advisory, lemma_advisory_filter_map,
    lemma_severities_differ, record, views, warning, Issue, IssueView,
};
use crate::text::{
    ends_with, ends_with_chars, has_char, has_char_in, is_one_of, lines, push_chars, split_lines,
    string_of, texts, to_chars, trim, trim_chars, words,
};
use crate::sequence::{lemma_filter_map_agrees, lemma_filter_map_holds};
use crate::tree::{is_listed, names};
use vstd::prelude::*;
use vstd::slice::slice_subrange;
use vstd::string::StringExecFns;

verus! {

/// What reading the ignore file at the audit root gave.
#[derive(Debug, PartialEq, Eq)]
pub enum IgnoreFile {
    /// There is no ignore file.
    Missing,
    /// The file is there and could not be read; the error's text.
    Unreadable(String),
    /// The text of the file.
    Text(String),
}

/// An `IgnoreFile` as plain mathematical values.
pub enum IgnoreFileView {
    Missing,
    Unreadable(Seq<char>),
    Text(Seq<char>),
}

impl View for IgnoreFile {
    type V = IgnoreFileView;

    open spec fn view(&self) -> IgnoreFileView {
        match self {
            IgnoreFile::Missing => IgnoreFileView::Missing,
            IgnoreFile::Unreadable(error) => IgnoreFileView::Unreadable(error@),
            IgnoreFile::Text(text) => IgnoreFileView::Text(text@),
        }
    }
}

/// The entries of an ignore file: its lines, each without the white space
/// around it.
pub open spec fn entries(text: Seq<char>) -> Seq<Seq<char>> {
    lines(text).map_values(|line: Seq<char>| trim(line))
}

/// An entry that is no rule: an empty one, or a comment.
pub open spec fn is_blank_or_comment(entry: Seq<char>) -> bool {
    entry.len() == 0 || entry[0] == '#'
}

/// An entry that names one path: it holds neither `*` nor `?`.
pub open spec fn is_literal(entry: Seq<char>) -> bool {
    !has_char(entry, '*') && !has_char(entry, '?')
}

/// An entry whose path is looked for on disk.
pub open spec fn is_probed(entry: Seq<char>) -> bool {
    !is_blank_or_comment(entry) && is_literal(entry)
}

/// The path that an entry names, from the audit root: the entry without one
/// `/` at its start.
pub open spec fn probe_path(entry: Seq<char>) -> Seq<char> {
    if entry.len() > 0 && entry[0] == '/' {
        entry.skip(1)
    } else {
        entry
    }
}

/// Entries that are commonly written before their path exists.
pub open spec fn premature() -> Seq<Seq<char>> {
    seq![
        "*.log"@,
        "*.tmp"@,
        ".env"@,
        ".env.local"@,
        "node_modules"@,
        "target"@,
        "dist"@,
        "build"@,
    ]
}

/// The entry has drifted: it names one path, which is not among `present`;
/// it is not marked as a directory by a `/` at its end; and it is not one of
/// the entries that are commonly premature.
pub open spec fn is_drifted(entry: Seq<char>, present: Seq<Seq<char>>) -> bool {
    &&& is_probed(entry)
    &&& !present.contains(probe_path(entry))
    &&& !ends_with(entry, "/"@)
    &&& !premature().contains(entry)
}

/// The finding for an entry that has drifted.
pub open spec fn drift_finding(entry: Seq<char>) -> IssueView {
    IssueView {
        category: "gitignore_drift"@,
        severity: info(),
        message: "Gitignore entry '"@ + entry + "' doesn't match any files"@,
        path: Some(".gitignore"@),
        line: None,
    }
}

/// The finding for an ignore file that could not be read.
pub open spec fn unreadable_finding(error: Seq<char>) -> IssueView {
    IssueView {
        category: "gitignore_drift"@,
        severity: warning(),
        message: "Failed to read .gitignore: "@ + error,
        path: Some(".gitignore"@),
        line: None,
    }
}

/// The finding that an entry gives, if it gives one.
pub open spec fn drift_of(entry: Seq<char>, present: Seq<Seq<char>>) -> Option<IssueView> {
    if is_drifted(entry, present) {
        Some(drift_finding(entry))
    } else {
        None
    }
}

/// The path to look for on behalf of an entry, if there is one.
pub open spec fn probe_of(entry: Seq<char>) -> Option<Seq<char>> {
    if is_probed(entry) {
        Some(probe_path(entry))
    } else {
        None
    }
}

/// The paths to look for on disk on behalf of an ignore file, entry by
/// entry.
pub open spec fn probes(text: Seq<char>) -> Seq<Seq<char>> {
    entries(text).filter_map(|entry: Seq<char>| probe_of(entry))
}

/// The findings on an ignore file, given the paths that were found on disk:
/// none without a file; one warning for a file that could not be read;
/// else one note for each entry that has drifted, in the order of the file.
pub open spec fn ignore_findings(file: IgnoreFileView, present: Seq<Seq<char>>) -> Seq<IssueView> {
    match file {
        IgnoreFileView::Missing => Seq::empty(),
        IgnoreFileView::Unreadable(error) => seq![unreadable_finding(error)],
        IgnoreFileView::Text(text) => entries(text).filter_map(
            |entry: Seq<char>| drift_of(entry, present),
        ),
    }
}

/// Every finding on an ignore file is well formed, and none fails the run.
pub proof fn lemma_ignore_advisory(file: IgnoreFileView, present: Seq<Seq<char>>)
    ensures
        all_advisory(ignore_findings(file, present)),
{
    lemma_severities_differ();
    reveal_strlit("Gitignore entry '");
    reveal_strlit("Failed to read .gitignore: ");
    assert(categories()[4] == "gitignore_drift"@);
    match file {
        IgnoreFileView::Missing => {},
        IgnoreFileView::Unreadable(error) => {
            assert(unreadable_finding(error).is_advisory());
        },
        IgnoreFileView::Text(text) => {
            let rule = |entry: Seq<char>| drift_of(entry, present);
            assert forall|entry: Seq<char>| (#[trigger] rule(entry)) is Some implies rule(
                entry,
            )->0.is_advisory() by {
                assert(rule(entry)->0 == drift_finding(entry));
            }
            lemma_advisory_filter_map(entries(text), rule);
        },
    }
}

/// Only the paths to look for matter: two answers to which paths exist that
/// agree on those paths give the same findings.
pub proof fn lemma_probes_decide(text: Seq<char>, first: Seq<Seq<char>>, second: Seq<Seq<char>>)
    requires
        forall|path: Seq<char>| #[trigger]
            probes(text).contains(path) ==> (first.contains(path) <==> second.contains(path)),
    ensures
        ignore_findings(IgnoreFileView::Text(text), first) == ignore_findings(
            IgnoreFileView::Text(text),
            second,
        ),
{
    let all = entries(text);
    let probe = |entry: Seq<char>| probe_of(entry);
    let one = |entry: Seq<char>| drift_of(entry, first);
    let other = |entry: Seq<char>| drift_of(entry, second);
    assert forall|i: int| 0 <= i < all.len() implies one(#[trigger] all[i]) == other(all[i]) by {
        if is_probed(all[i]) {
            lemma_filter_map_holds(all, probe, i);
            assert(probes(text).contains(probe_path(all[i])));
        }
    }
    lemma_filter_map_agrees(all, all, one, other);
}

/// The entries that are commonly premature, as characters.
fn premature_list() -> (list: Vec<Vec<char>>)
    ensures
        words(list@) == premature(),
{
    let list = vec![
        to_chars("*.log"),
        to_chars("*.tmp"),
        to_chars(".env"),
        to_chars(".env.local"),
        to_chars("node_modules"),
        to_chars("target"),
        to_chars("dist"),
        to_chars("build"),
    ];
    assert(words(list@) =~= premature());
    list
}

/// Whether the path of `entry` is looked for on disk.
fn is_probed_entry(entry: &[char]) -> (probed: bool)
    ensures
        probed == is_probed(entry@),
{
    if entry.len() == 0 || entry[0] == '#' {
        return false;
    }
    !has_char_in(entry, '*') && !has_char_in(entry, '?')
}

/// The path that `entry` names, from the audit root.
fn probe_path_of(entry: &[char]) -> (path: String)
    ensures
        path@ == probe_path(entry@),
{
    if entry.len() > 0 && entry[0] == '/' {
        let rest = slice_subrange(entry, 1, entry.len());
        assert(rest@ =~= entry@.skip(1));
        string_of(rest)
    } else {
        string_of(entry)
    }
}

/// The paths whose existence decides the findings on the ignore file with
/// this text: for each entry that is no comment and holds neither `*` nor
/// `?`, the entry without one `/` at its start.
pub fn probe_paths(text: &str) -> (paths: Vec<String>)
    ensures
        names(paths@) == probes(text@),
{
    let chars = to_chars(text);
    let parts = split_lines(chars.as_slice());
    let ghost all = entries(text@);
    let ghost rule = |entry: Seq<char>| probe_of(entry);
    let mut paths: Vec<String> = Vec::new();
    let mut i: usize = 0;
    assert(all.take(0).filter_map(rule) =~= names(paths@));
    while i < parts.len()
        invariant
            i <= parts.len(),
            texts(parts@) == lines(text@),
            all == entries(text@),
            rule == |entry: Seq<char>| probe_of(entry),
            names(paths@) == all.take(i as int).filter_map(rule),
        decreases parts.len() - i,
    {
        let entry = trim_chars(parts[i]);
        proof {
            assert(texts(parts@)[i as int] == parts@[i as int]@);
            assert(all[i as int] == entry@);
            all.lemma_filter_map_take_succ(rule, i as int);
        }
        if is_probed_entry(entry) {
            let ghost before = names(paths@);
            let path = probe_path_of(entry);
            paths.push(path);
            assert(names(paths@) =~= before + seq![probe_path(entry@)]);
        }
        i += 1;
    }
    assert(all.take(parts.len() as int) =~= all);
    paths
}

/// Checks the entries of the ignore file against the paths that were found
/// on disk. `present` holds those of `probe_paths` that exist. An entry gives
/// a note where it names one path (it holds neither `*` nor `?`), that path
/// is not among `present`, the entry does not end in `/`, and it is none of
/// `*.log`, `*.tmp`, `.env`, `.env.local`, `node_modules`, `target`, `dist`
/// and `build`. A file that could not be read gives one warning with the
/// error's text; a missing file gives nothing.
pub fn check_gitignore_drift(file: &IgnoreFile, present: &Vec<String>) -> (issues: Vec<Issue>)
    ensures
        views(issues@) == ignore_findings(file@, names(present@)),
        all_well_formed(views(issues@)),
{
    let mut issues: Vec<Issue> = Vec::new();
    assert(views(issues@) =~= Seq::<IssueView>::empty());
    match file {
        IgnoreFile::Missing => {},
        IgnoreFile::Unreadable(error) => {
            let mut message = "Failed to read .gitignore: ".to_string();
            message.append(error.as_str());
            let issue = Issue::new("gitignore_drift", "warning", message, Some(".gitignore"), None);
            record(&mut issues, issue);
            assert(views(issues@) =~= seq![unreadable_finding(error@)]);
        },
        IgnoreFile::Text(text) => {
            let chars = to_chars(text.as_str());
            let parts = split_lines(chars.as_slice());
            let allowed = premature_list();
            let slash = to_chars("/");
            let ghost all = entries(text@);
            let ghost rule = |entry: Seq<char>| drift_of(entry, names(present@));
            let mut i: usize = 0;
            assert(all.take(0).filter_map(rule) =~= views(issues@));
            while i < parts.len()
                invariant
                    i <= parts.len(),
                    texts(parts@) == lines(text@),
                    all == entries(text@),
                    rule == |entry: Seq<char>| drift_of(entry, names(present@)),
                    words(allowed@) == premature(),
                    slash@ == "/"@,
                    views(issues@) == all.take(i as int).filter_map(rule),
                decreases parts.len() - i,
            {
                let entry = trim_chars(parts[i]);
                proof {
                    assert(texts(parts@)[i as int] == parts@[i as int]@);
                    assert(all[i as int] == entry@);
                    all.lemma_filter_map_take_succ(rule, i as int);
                }
                if is_probed_entry(entry) {
                    let path = probe_path_of(entry);
                    if !is_listed(&path, present) && !ends_with_chars(entry, slash.as_slice())
                        && !is_one_of(entry, &allowed) {
                        let mut message = "Gitignore entry '".to_string();
                        push_chars(&mut message, entry);
                        message.append("' doesn't match any files");
                        let issue = Issue::new(
                            "gitignore_drift",
                            "info",
                            message,
                            Some(".gitignore"),
                            None,
                        );
                        record(&mut issues, issue);
                    }
                }
                i += 1;
            }
            assert(all.take(parts.len() as int) =~= all);
        },
    }
    proof {
        lemma_ignore_advisory(file@, names(present@));
        lemma_advisory(views(issues@));
    }
    issues
}

} // verus!
