//! Markers of unresolved work in source files.

use crate::issue::{
    all_advisory, all_well_formed, categories, info, lemma_advisory, lemma_advisory_flatten, lemma_severities_differ, record,
    views, Issue, IssueView,
};
use crate::text::{
    contains, contains_chars, is_one_of, lines, split_lines, string_of, texts, to_chars, words,
};
use crate::tree::{extension, extension_of, listing, names, pointed, visited, walk, Entry, EntryView};
use vstd::prelude::*;
use vstd::string::StringExecFns;

verus! {

/// The markers that are searched for, in the order in which one line
/// reports them.
pub open spec fn markers() -> Seq<Seq<char>> {
    seq!["TODO"@, "FIXME"@, "XXX"@, "HACK"@]
}

/// The extensions of the files that are searched.
pub open spec fn source_extensions() -> Seq<Seq<char>> {
    seq!["rs"@, "js"@, "ts"@, "py"@, "go"@, "java"@, "c"@, "cpp"@, "h"@]
}

/// The directories that the search for markers does not enter.
pub open spec fn source_skipped() -> Seq<Seq<char>> {
    seq!["target"@, ".git"@, "node_modules"@]
}

/// A file of this name is a source file.
pub open spec fn is_source_name(name: Seq<char>) -> bool {
    match extension(name) {
        Some(ext) => source_extensions().contains(ext),
        None => false,
    }
}

/// The finding for `marker` on line `number` of the file at `path`.
pub open spec fn marker_finding(marker: Seq<char>, path: Seq<char>, number: nat) -> IssueView {
    IssueView {
        category: "dead_code"@,
        severity: info(),
        message: marker + " marker found"@,
        path: Some(path),
        line: Some(number),
    }
}

/// The findings of one line: one for each marker that the line holds, in
/// the order of the markers, however often the line holds it.
pub open spec fn line_findings(path: Seq<char>, number: nat, line: Seq<char>) -> Seq<IssueView> {
    markers().filter(|marker: Seq<char>| contains(line, marker)).map_values(
        |marker: Seq<char>| marker_finding(marker, path, number),
    )
}

/// The findings of one text, line by line. Lines count from one.
pub open spec fn text_findings(path: Seq<char>, text: Seq<char>) -> Seq<IssueView> {
    lines(text).map(|i: int, line: Seq<char>| line_findings(path, (i + 1) as nat, line)).flatten()
}

/// The findings of one visited file: those of its text where it is a source
/// file whose text was read, none otherwise.
pub open spec fn file_findings(file: EntryView) -> Seq<IssueView> {
    match file.content() {
        Some(text) => if is_source_name(file.name()) {
            text_findings(file.path(), text)
        } else {
            Seq::empty()
        },
        None => Seq::empty(),
    }
}

/// The findings on markers in `tree`, file by file in the order of the walk.
pub open spec fn marker_findings(tree: Seq<EntryView>) -> Seq<IssueView> {
    visited(tree, source_skipped()).map_values(|file: EntryView| file_findings(file)).flatten()
}

/// Every finding on the markers of one text is well formed, and none fails
/// the run.
pub proof fn lemma_text_advisory(path: Seq<char>, text: Seq<char>)
    ensures
        all_advisory(text_findings(path, text)),
{
    lemma_severities_differ();
    reveal_strlit(" marker found");
    assert(categories()[2] == "dead_code"@);
    let found = lines(text).map(
        |i: int, line: Seq<char>| line_findings(path, (i + 1) as nat, line),
    );
    assert forall|j: int| 0 <= j < found.len() implies all_advisory(#[trigger] found[j]) by {
        let part = found[j];
        assert forall|k: int| 0 <= k < part.len() implies (#[trigger] part[k]).is_advisory() by {
            let marker = markers().filter(|marker: Seq<char>| contains(lines(text)[j], marker))[k];
            assert(part[k] == marker_finding(marker, path, (j + 1) as nat));
        }
    }
    lemma_advisory_flatten(found);
}

/// Every finding on markers is well formed, and none fails the run.
pub proof fn lemma_marker_advisory(tree: Seq<EntryView>)
    ensures
        all_advisory(marker_findings(tree)),
{
    let found = visited(tree, source_skipped()).map_values(|file: EntryView| file_findings(file));
    assert forall|j: int| 0 <= j < found.len() implies all_advisory(#[trigger] found[j]) by {
        let file = visited(tree, source_skipped())[j];
        if file.content() is Some {
            lemma_text_advisory(file.path(), file.content()->0);
        }
    }
    lemma_advisory_flatten(found);
}

/// The markers, as characters.
fn marker_list() -> (list: Vec<Vec<char>>)
    ensures
        words(list@) == markers(),
{
    let list = vec![to_chars("TODO"), to_chars("FIXME"), to_chars("XXX"), to_chars("HACK")];
    assert(words(list@) =~= markers());
    list
}

/// The extensions of source files, as characters.
fn source_extension_list() -> (list: Vec<Vec<char>>)
    ensures
        words(list@) == source_extensions(),
{
    let list = vec![
        to_chars("rs"),
        to_chars("js"),
        to_chars("ts"),
        to_chars("py"),
        to_chars("go"),
        to_chars("java"),
        to_chars("c"),
        to_chars("cpp"),
        to_chars("h"),
    ];
    assert(words(list@) =~= source_extensions());
    list
}

/// The names of the directories that are not entered.
fn source_skip_list() -> (list: Vec<String>)
    ensures
        names(list@) == source_skipped(),
{
    let list = vec!["target".to_string(), ".git".to_string(), "node_modules".to_string()];
    assert(names(list@) =~= source_skipped());
    list
}

/// Whether a file of this name is a source file.
pub fn is_source_file(name: &str) -> (source: bool)
    ensures
        source == is_source_name(name@),
{
    let chars = to_chars(name);
    let list = source_extension_list();
    match extension_of(chars.as_slice()) {
        Some(ext) => is_one_of(ext, &list),
        None => false,
    }
}

/// Puts the findings of one line at the end of `issues`.
fn scan_line(path: &str, number: usize, line: &[char], list: &Vec<Vec<char>>, issues: &mut Vec<Issue>)
    requires
        words(list@) == markers(),
    ensures
        views(final(issues)@) == views(old(issues)@) + line_findings(path@, number as nat, line@),
{
    let ghost holds = |marker: Seq<char>| contains(line@, marker);
    let ghost finding = |marker: Seq<char>| marker_finding(marker, path@, number as nat);
    let mut k: usize = 0;
    assert(words(list@).take(0).filter(holds).map_values(finding) =~= Seq::<IssueView>::empty());
    assert(views(issues@) + Seq::<IssueView>::empty() =~= views(issues@));
    while k < list.len()
        invariant
            k <= list.len(),
            words(list@) == markers(),
            holds == |marker: Seq<char>| contains(line@, marker),
            finding == |marker: Seq<char>| marker_finding(marker, path@, number as nat),
            views(issues@) == views(old(issues)@) + words(list@).take(k as int).filter(
                holds,
            ).map_values(finding),
        decreases list.len() - k,
    {
        let marker = list[k].as_slice();
        let ghost earlier = words(list@).take(k as int);
        proof {
            assert(words(list@).take(k + 1) =~= earlier.push(marker@));
            earlier.lemma_filter_push(marker@, holds);
        }
        if contains_chars(line, marker) {
            let mut message = string_of(marker);
            message.append(" marker found");
            let issue = Issue::new("dead_code", "info", message, Some(path), Some(number));
            record(issues, issue);
            assert(earlier.filter(holds).push(marker@).map_values(finding) =~= earlier.filter(
                holds,
            ).map_values(finding).push(finding(marker@)));
        }
        assert(views(issues@) =~= views(old(issues)@) + words(list@).take(k + 1).filter(
            holds,
        ).map_values(finding));
        k += 1;
    }
    assert(words(list@).take(list.len() as int) =~= words(list@));
}

/// Searches one text for markers and puts the findings at the end of
/// `issues`: for each line, one finding for each of `TODO`, `FIXME`, `XXX`
/// and `HACK` that the line holds, with the line's number.
pub fn scan_file(path: &str, text: &str, issues: &mut Vec<Issue>)
    ensures
        views(final(issues)@) == views(old(issues)@) + text_findings(path@, text@),
{
    let list = marker_list();
    let chars = to_chars(text);
    let parts = split_lines(chars.as_slice());
    let ghost found = lines(text@).map(
        |i: int, line: Seq<char>| line_findings(path@, (i + 1) as nat, line),
    );
    let mut i: usize = 0;
    assert(found.take(0).flatten() =~= Seq::<IssueView>::empty());
    assert(views(issues@) + Seq::<IssueView>::empty() =~= views(issues@));
    while i < parts.len()
        invariant
            i <= parts.len(),
            words(list@) == markers(),
            texts(parts@) == lines(text@),
            found == lines(text@).map(
                |i: int, line: Seq<char>| line_findings(path@, (i + 1) as nat, line),
            ),
            views(issues@) == views(old(issues)@) + found.take(i as int).flatten(),
        decreases parts.len() - i,
    {
        let ghost before = views(issues@);
        assert(texts(parts@)[i as int] == parts@[i as int]@);
        scan_line(path, i + 1, parts[i], &list, issues);
        proof {
            assert(found.take(i + 1) =~= found.take(i as int).push(found[i as int]));
            found.take(i as int).lemma_flatten_push(found[i as int]);
            assert(views(issues@) =~= views(old(issues)@) + found.take(i + 1).flatten());
        }
        i += 1;
    }
    assert(found.take(parts.len() as int) =~= found);
}

/// Searches the source files of `tree` for markers of unresolved work.
/// Directories named `target`, `.git` or `node_modules` are not entered. A
/// visited file is searched where its extension is that of a source file and
/// its text was read.
pub fn check_dead_code_markers(tree: &Vec<Entry>) -> (issues: Vec<Issue>)
    ensures
        views(issues@) == marker_findings(listing(tree@)),
        all_well_formed(views(issues@)),
{
    let skip = source_skip_list();
    let list = source_extension_list();
    let files = walk(tree, &skip);
    let ghost found = pointed(files@).map_values(|file: EntryView| file_findings(file));
    let mut issues: Vec<Issue> = Vec::new();
    let mut i: usize = 0;
    assert(found.take(0).flatten() =~= views(issues@));
    while i < files.len()
        invariant
            i <= files.len(),
            words(list@) == source_extensions(),
            found == pointed(files@).map_values(|file: EntryView| file_findings(file)),
            views(issues@) == found.take(i as int).flatten(),
        decreases files.len() - i,
    {
        let file = files[i];
        let ghost before = views(issues@);
        assert(pointed(files@)[i as int] == file@);
        let chars = to_chars(file.name().as_str());
        let source = match extension_of(chars.as_slice()) {
            Some(ext) => is_one_of(ext, &list),
            None => false,
        };
        if source {
            match file.content() {
                Some(text) => {
                    scan_file(file.path().as_str(), text.as_str(), &mut issues);
                },
                None => {},
            }
        }
        proof {
            assert(views(issues@) =~= before + file_findings(file@));
            assert(found.take(i + 1) =~= found.take(i as int).push(found[i as int]));
            found.take(i as int).lemma_flatten_push(found[i as int]);
        }
        i += 1;
    }
    proof {
        assert(found.take(files.len() as int) =~= found);
        lemma_marker_advisory(listing(tree@));
        lemma_advisory(views(issues@));
    }
    issues
}

} // verus!
