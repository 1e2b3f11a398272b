//! Files that an editor or a build left behind.

use crate::issue::{
    all_advisory, all_well_formed, categories, lemma_advisory, lemma_advisory_filter_map, lemma_severities_differ, record, views, warning,
    Issue, IssueView,
};
use crate::text::{is_one_of, to_chars, words};
use crate::tree::{extension, extension_of, listing, names, pointed, visited, walk, Entry, EntryView};
use vstd::prelude::*;

verus! {

/// The extensions that mark a file as left over.
pub open spec fn stale_extensions() -> Seq<Seq<char>> {
    seq!["old"@, "bak"@, "tmp"@, "swp"@, "orig"@]
}

/// The directories that the search for left-over files does not enter.
pub open spec fn stale_skipped() -> Seq<Seq<char>> {
    seq!["target"@, ".git"@]
}

/// A file of this name is a left-over.
pub open spec fn is_stale_name(name: Seq<char>) -> bool {
    match extension(name) {
        Some(ext) => stale_extensions().contains(ext),
        None => false,
    }
}

/// The finding for a left-over file at `path`.
pub open spec fn stale_finding(path: Seq<char>) -> IssueView {
    IssueView {
        category: "stale_config"@,
        severity: warning(),
        message: "Stale configuration or backup file"@,
        path: Some(path),
        line: None,
    }
}

/// The finding that a visited file gives, if it gives one.
pub open spec fn stale_of(file: EntryView) -> Option<IssueView> {
    if is_stale_name(file.name()) {
        Some(stale_finding(file.path()))
    } else {
        None
    }
}

/// The findings on left-over files in `tree`: one for each file that the
/// walk visits and whose extension is listed, in the order of the walk.
pub open spec fn stale_findings(tree: Seq<EntryView>) -> Seq<IssueView> {
    visited(tree, stale_skipped()).filter_map(|file: EntryView| stale_of(file))
}

/// Every finding on a left-over file is well formed, and none fails the run.
pub proof fn lemma_stale_advisory(tree: Seq<EntryView>)
    ensures
        all_advisory(stale_findings(tree)),
{
    lemma_severities_differ();
    reveal_strlit("Stale configuration or backup file");
    assert(categories()[0] == "stale_config"@);
    let rule = |file: EntryView| stale_of(file);
    assert forall|file: EntryView| (#[trigger] rule(file)) is Some implies rule(
        file,
    )->0.is_advisory() by {
        assert(rule(file)->0 == stale_finding(file.path()));
    }
    lemma_advisory_filter_map(visited(tree, stale_skipped()), rule);
}

/// The listed extensions, as characters.
fn stale_extension_list() -> (list: Vec<Vec<char>>)
    ensures
        words(list@) == stale_extensions(),
{
    let list = vec![
        to_chars("old"),
        to_chars("bak"),
        to_chars("tmp"),
        to_chars("swp"),
        to_chars("orig"),
    ];
    assert(words(list@) =~= stale_extensions());
    list
}

/// The names of the directories that are not entered.
fn stale_skip_list() -> (list: Vec<String>)
    ensures
        names(list@) == stale_skipped(),
{
    let list = vec!["target".to_string(), ".git".to_string()];
    assert(names(list@) =~= stale_skipped());
    list
}

/// Whether a file of this name is a left-over.
pub fn is_stale_file(name: &str) -> (stale: bool)
    ensures
        stale == is_stale_name(name@),
{
    let chars = to_chars(name);
    let list = stale_extension_list();
    match extension_of(chars.as_slice()) {
        Some(ext) => is_one_of(ext, &list),
        None => false,
    }
}

/// Searches `tree` for left-over files. Directories named `target` or `.git`
/// are not entered; each visited file whose extension is `old`, `bak`, `tmp`,
/// `swp` or `orig` gives one warning that carries the file's path.
pub fn check_stale_configs(tree: &Vec<Entry>) -> (issues: Vec<Issue>)
    ensures
        views(issues@) == stale_findings(listing(tree@)),
        all_well_formed(views(issues@)),
{
    let skip = stale_skip_list();
    let list = stale_extension_list();
    let files = walk(tree, &skip);
    let ghost seen = pointed(files@);
    let ghost rule = |file: EntryView| stale_of(file);
    let mut issues: Vec<Issue> = Vec::new();
    let mut i: usize = 0;
    assert(seen.take(0).filter_map(rule) =~= views(issues@));
    while i < files.len()
        invariant
            i <= files.len(),
            seen == pointed(files@),
            rule == |file: EntryView| stale_of(file),
            words(list@) == stale_extensions(),
            views(issues@) == seen.take(i as int).filter_map(rule),
        decreases files.len() - i,
    {
        let file = files[i];
        let chars = to_chars(file.name().as_str());
        let stale = match extension_of(chars.as_slice()) {
            Some(ext) => is_one_of(ext, &list),
            None => false,
        };
        proof {
            assert(seen[i as int] == file@);
            assert(stale == is_stale_name(file@.name()));
            seen.lemma_filter_map_take_succ(rule, i as int);
        }
        if stale {
            let issue = Issue::new(
                "stale_config",
                "warning",
                "Stale configuration or backup file".to_string(),
                Some(file.path().as_str()),
                None,
            );
            record(&mut issues, issue);
        }
        i += 1;
    }
    proof {
        assert(seen.take(files.len() as int) =~= seen);
        lemma_stale_advisory(listing(tree@));
        lemma_advisory(views(issues@));
    }
    issues
}

} // verus!
