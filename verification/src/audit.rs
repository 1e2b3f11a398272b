//! The audit: every check, in a fixed order, on one snapshot of a
//! repository.

use crate::git::{check_git_drift, git_findings, lemma_git_advisory};
use crate::ignore::{
    check_gitignore_drift, ignore_findings, lemma_ignore_advisory, lemma_probes_decide, probes,
    IgnoreFile, IgnoreFileView,
};
use crate::issue::{
    all_advisory, all_well_formed, has_error, lemma_advisory, lemma_advisory_add,
    lemma_well_formed_fields, record_all, views, Issue, IssueView,
};
use crate::markers::{check_dead_code_markers, lemma_marker_advisory, marker_findings};
use crate::plan::{kept, lemma_kept_loses_nothing};
use crate::stale::{check_stale_configs, lemma_stale_advisory, stale_findings};
use crate::text::text_of;
use crate::tree::{listing, names, Entry, EntryView};
use crate::version::{
    check_version_mismatches, lemma_version_advisory, version_findings, VersionFiles,
    VersionFilesView,
};
use vstd::prelude::*;

verus! {

/// What was read of a repository for one audit.
#[derive(Debug)]
pub struct Snapshot {
    /// The listing of the audit root.
    pub tree: Vec<Entry>,
    /// The files that pin versions.
    pub versions: VersionFiles,
    /// What the status command of version control printed; absent where the
    /// command could not be run.
    pub git_status: Option<String>,
    /// The ignore file at the audit root.
    pub ignore_file: IgnoreFile,
    /// Those of the paths that the ignore file names which exist.
    pub present: Vec<String>,
}

/// A `Snapshot` as plain mathematical values.
pub struct SnapshotView {
    pub tree: Seq<EntryView>,
    pub versions: VersionFilesView,
    pub git_status: Option<Seq<char>>,
    pub ignore_file: IgnoreFileView,
    pub present: Seq<Seq<char>>,
}

impl View for Snapshot {
    type V = SnapshotView;

    open spec fn view(&self) -> SnapshotView {
        SnapshotView {
            tree: listing(self.tree@),
            versions: self.versions@,
            git_status: text_of(self.git_status),
            ignore_file: self.ignore_file@,
            present: names(self.present@),
        }
    }
}

/// The findings of an audit: those on left-over files, on version pins, on
/// markers, on the status of version control and on the ignore file, in this
/// order, each check's findings in its own order.
pub open spec fn audit_findings(state: SnapshotView) -> Seq<IssueView> {
    stale_findings(state.tree) + version_findings(state.versions) + marker_findings(state.tree)
        + git_findings(state.git_status) + ignore_findings(state.ignore_file, state.present)
}

/// A repository in which nothing was found to read.
pub open spec fn is_bare(state: SnapshotView) -> bool {
    &&& state.tree.len() == 0
    &&& state.versions.toolchain is None
    &&& state.versions.manifest is None
    &&& state.versions.node_version is None
    &&& state.versions.package is None
    &&& state.git_status is None
    &&& state.ignore_file is Missing
}

/// Every finding of an audit is well formed, and none fails the run: no
/// check gives a finding of the severity `error`.
pub proof fn lemma_audit_advisory(state: SnapshotView)
    ensures
        all_advisory(audit_findings(state)),
        all_well_formed(audit_findings(state)),
        !has_error(audit_findings(state)),
{
    lemma_stale_advisory(state.tree);
    lemma_version_advisory(state.versions);
    lemma_marker_advisory(state.tree);
    lemma_git_advisory(state.git_status);
    lemma_ignore_advisory(state.ignore_file, state.present);
    let first = stale_findings(state.tree);
    let second = first + version_findings(state.versions);
    let third = second + marker_findings(state.tree);
    let fourth = third + git_findings(state.git_status);
    lemma_advisory_add(first, version_findings(state.versions));
    lemma_advisory_add(second, marker_findings(state.tree));
    lemma_advisory_add(third, git_findings(state.git_status));
    lemma_advisory_add(fourth, ignore_findings(state.ignore_file, state.present));
    lemma_advisory(audit_findings(state));
}

/// In every finding of an audit the category, the severity and the message
/// are not empty, and a line stands only beside a path.
pub proof fn lemma_audit_fields(state: SnapshotView, i: int)
    requires
        0 <= i < audit_findings(state).len(),
    ensures
        audit_findings(state)[i].category.len() > 0,
        audit_findings(state)[i].severity.len() > 0,
        audit_findings(state)[i].message.len() > 0,
        audit_findings(state)[i].line is Some ==> audit_findings(state)[i].path is Some,
{
    lemma_audit_advisory(state);
    lemma_well_formed_fields(audit_findings(state)[i]);
}

/// Two audits of one state give the same findings: as many, with the same
/// content, in the same order.
pub proof fn lemma_audit_repeatable(state: SnapshotView, first: Seq<IssueView>, second: Seq<IssueView>)
    requires
        first == audit_findings(state),
        second == audit_findings(state),
    ensures
        first.len() == second.len(),
        forall|i: int| 0 <= i < first.len() ==> first[i] == second[i],
        first == second,
{
}

/// `taken` is a snapshot of the repository `whole` as the plan takes it: of
/// the tree it holds what the plan keeps; it knows of each path that the
/// ignore file names whether it exists; the rest it holds in full.
pub open spec fn is_taken_from(taken: SnapshotView, whole: SnapshotView) -> bool {
    &&& taken.tree == kept(whole.tree)
    &&& taken.versions == whole.versions
    &&& taken.git_status == whole.git_status
    &&& taken.ignore_file == whole.ignore_file
    &&& whole.ignore_file matches IgnoreFileView::Text(text) ==> forall|path: Seq<char>| #[trigger]
        probes(text).contains(path) ==> (taken.present.contains(path) <==> whole.present.contains(
            path,
        ))
}

/// The audit of a snapshot that was taken as the plan says finds what the
/// audit of the whole repository finds.
pub proof fn lemma_snapshot_suffices(taken: SnapshotView, whole: SnapshotView)
    requires
        is_taken_from(taken, whole),
    ensures
        audit_findings(taken) == audit_findings(whole),
{
    lemma_kept_loses_nothing(whole.tree);
    match whole.ignore_file {
        IgnoreFileView::Text(text) => {
            lemma_probes_decide(text, taken.present, whole.present);
        },
        _ => {},
    }
}

/// The audit of a repository in which nothing was found to read gives no
/// finding.
pub proof fn lemma_bare_repository(state: SnapshotView)
    requires
        is_bare(state),
    ensures
        audit_findings(state) == Seq::<IssueView>::empty(),
{
    reveal_with_fuel(Seq::filter_map, 2);
    assert(stale_findings(state.tree) =~= Seq::<IssueView>::empty());
    assert(marker_findings(state.tree) =~= Seq::<IssueView>::empty());
    assert(version_findings(state.versions) =~= Seq::<IssueView>::empty());
    assert(audit_findings(state) =~= Seq::<IssueView>::empty());
}

/// Runs the five checks on `snapshot` and returns their findings, in the
/// order of the checks: left-over files, version pins, markers, the status of
/// version control, the ignore file.
pub fn run_audit(snapshot: &Snapshot) -> (issues: Vec<Issue>)
    ensures
        views(issues@) == audit_findings(snapshot@),
        all_well_formed(views(issues@)),
        !has_error(views(issues@)),
        forall|i: int|
            0 <= i < issues@.len() ==> {
                &&& (#[trigger] issues@[i]).category@.len() > 0
                &&& issues@[i].severity@.len() > 0
                &&& issues@[i].message@.len() > 0
                &&& (issues@[i].line is Some ==> issues@[i].path is Some)
            },
{
    let mut issues: Vec<Issue> = Vec::new();
    assert(views(issues@) =~= Seq::<IssueView>::empty());
    record_all(&mut issues, check_stale_configs(&snapshot.tree));
    record_all(&mut issues, check_version_mismatches(&snapshot.versions));
    record_all(&mut issues, check_dead_code_markers(&snapshot.tree));
    let status = match &snapshot.git_status {
        Some(text) => Some(text.as_str()),
        None => None,
    };
    record_all(&mut issues, check_git_drift(status));
    record_all(&mut issues, check_gitignore_drift(&snapshot.ignore_file, &snapshot.present));
    proof {
        assert(views(issues@) =~= audit_findings(snapshot@));
        lemma_audit_advisory(snapshot@);
        assert forall|i: int| 0 <= i < issues@.len() implies {
            &&& (#[trigger] issues@[i]).category@.len() > 0
            &&& issues@[i].severity@.len() > 0
            &&& issues@[i].message@.len() > 0
            &&& (issues@[i].line is Some ==> issues@[i].path is Some)
        } by {
            assert(views(issues@)[i] == issues@[i]@);
            lemma_well_formed_fields(views(issues@)[i]);
        }
    }
    issues
}

} // verus!
