//! What has to be read of a repository for an audit, and why no more.
//!
//! An audit judges a snapshot. The one who takes the snapshot asks here, entry
//! by entry, whether a directory is to be listed and whether a file's text is
//! to be read. What these answers leave out changes no finding.

use crate::markers::{
    file_findings, is_source_file, is_source_name, marker_findings, source_skipped,
};
use crate::sequence::lemma_filter_map_agrees;
use crate::stale::{stale_findings, stale_of, stale_skipped};
use crate::text::{same_chars, to_chars};
use crate::tree::{visited, visited_among, visited_in, EntryView};
use vstd::prelude::*;

verus! {

/// The directory `name` is listed: some walk enters it.
pub open spec fn is_listed_directory(name: Seq<char>) -> bool {
    !stale_skipped().contains(name)
}

/// Markers are searched for below the directory `name`, given whether they
/// are searched for beside it.
pub open spec fn is_searched_below(name: Seq<char>, searched: bool) -> bool {
    searched && !source_skipped().contains(name)
}

/// The text of the file `name` is read, given whether markers are searched
/// for beside it.
pub open spec fn is_read_file(name: Seq<char>, searched: bool) -> bool {
    searched && is_source_name(name)
}

/// What is kept of `entry` in a snapshot. `searched` says whether markers
/// are searched for in the directory that holds the entry.
pub open spec fn kept_of(entry: EntryView, searched: bool) -> EntryView
    decreases entry, 0nat,
{
    match entry {
        EntryView::Directory { name, path, children } => EntryView::Directory {
            name,
            path,
            children: if is_listed_directory(name) {
                kept_among(children, children.len(), is_searched_below(name, searched))
            } else {
                Seq::empty()
            },
        },
        EntryView::File { name, path, content } => EntryView::File {
            name,
            path,
            content: if is_read_file(name, searched) {
                content
            } else {
                None
            },
        },
    }
}

/// What is kept of the first `n` entries of a listing.
pub open spec fn kept_among(entries: Seq<EntryView>, n: nat, searched: bool) -> Seq<EntryView>
    decreases entries, n,
{
    if 0 < n <= entries.len() {
        kept_among(entries, (n - 1) as nat, searched).push(kept_of(entries[n - 1], searched))
    } else {
        Seq::empty()
    }
}

/// What is kept of the listing of the audit root.
pub open spec fn kept(tree: Seq<EntryView>) -> Seq<EntryView> {
    kept_among(tree, tree.len(), true)
}

/// What to do with a directory while taking a snapshot.
#[derive(Debug, Clone, Copy, PartialEq, Eq)]
pub struct DirectoryPlan {
    /// Whether to list the directory. One that is not listed stands in the
    /// snapshot without children.
    pub list: bool,
    /// Whether markers are searched for in the directory.
    pub searched: bool,
}

/// Decides what to do with the directory `name`, given whether markers are
/// searched for in the directory that holds it.
pub fn plan_directory(name: &str, searched: bool) -> (plan: DirectoryPlan)
    ensures
        plan.list == is_listed_directory(name@),
        plan.searched == is_searched_below(name@, searched),
{
    let chars = to_chars(name);
    let target = to_chars("target");
    let git = to_chars(".git");
    let dependencies = to_chars("node_modules");
    let built = same_chars(chars.as_slice(), target.as_slice());
    let metadata = same_chars(chars.as_slice(), git.as_slice());
    let vendored = same_chars(chars.as_slice(), dependencies.as_slice());
    proof {
        assert(stale_skipped()[0] == "target"@ && stale_skipped()[1] == ".git"@);
        assert(source_skipped()[0] == "target"@ && source_skipped()[1] == ".git"@
            && source_skipped()[2] == "node_modules"@);
    }
    DirectoryPlan { list: !built && !metadata, searched: searched && !built && !metadata && !vendored }
}

/// Decides whether to read the text of the file `name`, given whether
/// markers are searched for in the directory that holds it.
pub fn plan_file(name: &str, searched: bool) -> (read: bool)
    ensures
        read == is_read_file(name@, searched),
{
    searched && is_source_file(name)
}

/// Two sequences of entries agree: entry by entry they have the same name
/// and the same path; where `strict`, each source file also has the same
/// text in both.
pub open spec fn agree(a: Seq<EntryView>, b: Seq<EntryView>, strict: bool) -> bool {
    &&& a.len() == b.len()
    &&& forall|i: int|
        0 <= i < a.len() ==> {
            &&& (#[trigger] a[i]).name() == b[i].name()
            &&& a[i].path() == b[i].path()
            &&& (strict && is_source_name(b[i].name()) ==> a[i].content() == b[i].content())
        }
}

/// What is kept of a listing is kept entry by entry.
pub proof fn lemma_kept_among(entries: Seq<EntryView>, n: nat, searched: bool)
    requires
        n <= entries.len(),
    ensures
        kept_among(entries, n, searched).len() == n,
        forall|i: int|
            0 <= i < n ==> (#[trigger] kept_among(entries, n, searched)[i]) == kept_of(
                entries[i],
                searched,
            ),
    decreases n,
{
    if n > 0 {
        lemma_kept_among(entries, (n - 1) as nat, searched);
    }
}

/// A walk sees no more of a listing than the entries that it is asked to
/// walk through.
pub proof fn lemma_visited_among_prefix(
    a: Seq<EntryView>,
    b: Seq<EntryView>,
    n: nat,
    skip: Seq<Seq<char>>,
)
    requires
        n <= a.len(),
        n <= b.len(),
        forall|i: int| 0 <= i < n ==> a[i] == b[i],
    ensures
        visited_among(a, n, skip) == visited_among(b, n, skip),
    decreases n,
{
    if n > 0 {
        lemma_visited_among_prefix(a, b, (n - 1) as nat, skip);
    }
}

/// The walk with `skip` visits the same files in what is kept of an entry
/// as in the entry. Where markers are searched for, the source files among
/// them have kept their text.
pub proof fn lemma_kept_of_agrees(entry: EntryView, searched: bool, skip: Seq<Seq<char>>, strict: bool)
    requires
        skip == stale_skipped() || skip == source_skipped(),
        strict ==> searched && skip == source_skipped(),
    ensures
        agree(visited_in(kept_of(entry, searched), skip), visited_in(entry, skip), strict),
    decreases entry, 0nat,
{
    match entry {
        EntryView::Directory { name, path, children } => {
            if !skip.contains(name) {
                assert(is_listed_directory(name)) by {
                    if stale_skipped().contains(name) {
                        assert(source_skipped()[0] == stale_skipped()[0]);
                        assert(source_skipped()[1] == stale_skipped()[1]);
                    }
                }
                let below = is_searched_below(name, searched);
                lemma_kept_among(children, children.len(), below);
                lemma_kept_among_agrees(children, children.len(), below, skip, strict);
            }
        },
        EntryView::File { .. } => {},
    }
}

/// The walk with `skip` visits the same files in what is kept of the first
/// `n` entries of a listing as in those entries.
pub proof fn lemma_kept_among_agrees(
    entries: Seq<EntryView>,
    n: nat,
    searched: bool,
    skip: Seq<Seq<char>>,
    strict: bool,
)
    requires
        n <= entries.len(),
        skip == stale_skipped() || skip == source_skipped(),
        strict ==> searched && skip == source_skipped(),
    ensures
        agree(
            visited_among(kept_among(entries, n, searched), n, skip),
            visited_among(entries, n, skip),
            strict,
        ),
    decreases entries, n,
{
    if n > 0 {
        let fewer = (n - 1) as nat;
        lemma_kept_among(entries, n, searched);
        lemma_kept_among(entries, fewer, searched);
        lemma_visited_among_prefix(
            kept_among(entries, n, searched),
            kept_among(entries, fewer, searched),
            fewer,
            skip,
        );
        lemma_kept_among_agrees(entries, fewer, searched, skip, strict);
        lemma_kept_of_agrees(entries[n - 1], searched, skip, strict);
    }
}

/// What a snapshot leaves out changes no finding: the checks that walk the
/// tree find in what is kept of it what they find in the whole of it.
pub proof fn lemma_kept_loses_nothing(tree: Seq<EntryView>)
    ensures
        stale_findings(kept(tree)) == stale_findings(tree),
        marker_findings(kept(tree)) == marker_findings(tree),
{
    let n = tree.len();
    lemma_kept_among(tree, n, true);
    assert(kept(tree).len() == n);
    lemma_kept_among_agrees(tree, n, true, stale_skipped(), false);
    let left = visited(kept(tree), stale_skipped());
    let right = visited(tree, stale_skipped());
    let rule = |file: EntryView| stale_of(file);
    assert forall|i: int| 0 <= i < left.len() implies rule(#[trigger] left[i]) == rule(right[i]) by {}
    lemma_filter_map_agrees(left, right, rule, rule);
    lemma_kept_among_agrees(tree, n, true, source_skipped(), true);
    let read = visited(kept(tree), source_skipped());
    let whole = visited(tree, source_skipped());
    let found = |file: EntryView| file_findings(file);
    assert(read.map_values(found) =~= whole.map_values(found)) by {
        assert forall|i: int| 0 <= i < read.len() implies found(read[i]) == found(whole[i]) by {
            assert(read[i].name() == whole[i].name());
        }
    }
}

} // verus!
