//! Version pins that contradict each other.

use crate::issue::{
    all_advisory, all_well_formed, categories, lemma_advisory, lemma_severities_differ, record, views, warning, Issue,
    IssueView,
};
use crate::text::{contains, contains_chars, push_chars, text_of, to_chars, trim, trim_chars};
use vstd::prelude::*;
use vstd::string::StringExecFns;

verus! {

/// The text of the four files that pin versions. A file that is missing, or
/// that could not be read as text, is absent.
#[derive(Debug, PartialEq, Eq)]
pub struct VersionFiles {
    /// `rust-toolchain.toml`
    pub toolchain: Option<String>,
    /// `Cargo.toml`
    pub manifest: Option<String>,
    /// `.nvmrc`
    pub node_version: Option<String>,
    /// `package.json`
    pub package: Option<String>,
}

/// `VersionFiles` as plain mathematical values.
pub struct VersionFilesView {
    pub toolchain: Option<Seq<char>>,
    pub manifest: Option<Seq<char>>,
    pub node_version: Option<Seq<char>>,
    pub package: Option<Seq<char>>,
}

impl View for VersionFiles {
    type V = VersionFilesView;

    open spec fn view(&self) -> VersionFilesView {
        VersionFilesView {
            toolchain: text_of(self.toolchain),
            manifest: text_of(self.manifest),
            node_version: text_of(self.node_version),
            package: text_of(self.package),
        }
    }
}

/// The toolchain file asks for a nightly toolchain while the manifest pins
/// a minimum version.
pub open spec fn toolchain_conflict(files: VersionFilesView) -> bool {
    &&& files.toolchain matches Some(toolchain)
    &&& contains(toolchain, "nightly"@)
    &&& files.manifest matches Some(manifest)
    &&& contains(manifest, "rust-version"@)
}

/// The version that the text of `.nvmrc` declares.
pub open spec fn declared_node_version(node_version: Seq<char>) -> Seq<char> {
    trim(node_version)
}

/// The package manifest has an `engines` block and does not name the version
/// that `.nvmrc` declares.
pub open spec fn node_conflict(files: VersionFilesView) -> bool {
    &&& files.node_version matches Some(node_version)
    &&& files.package matches Some(package)
    &&& !contains(package, declared_node_version(node_version))
    &&& contains(package, "\"engines\""@)
}

/// The finding for a nightly toolchain beside a pinned minimum version.
pub open spec fn toolchain_finding() -> IssueView {
    IssueView {
        category: "version_mismatch"@,
        severity: warning(),
        message: "rust-toolchain.toml uses nightly but Cargo.toml has rust-version set"@,
        path: Some("rust-toolchain.toml"@),
        line: None,
    }
}

/// The finding for a Node version that the package manifest does not name.
pub open spec fn node_finding(version: Seq<char>) -> IssueView {
    IssueView {
        category: "version_mismatch"@,
        severity: warning(),
        message: ".nvmrc specifies "@ + version + " but package.json engines may differ"@,
        path: Some(".nvmrc"@),
        line: None,
    }
}

/// The findings on version pins: the toolchain finding where the toolchain
/// conflict holds, then the Node finding where the Node conflict holds.
pub open spec fn version_findings(files: VersionFilesView) -> Seq<IssueView> {
    let first = if toolchain_conflict(files) {
        seq![toolchain_finding()]
    } else {
        Seq::empty()
    };
    let second = if node_conflict(files) {
        seq![node_finding(declared_node_version(files.node_version->0))]
    } else {
        Seq::empty()
    };
    first + second
}

/// Every finding on version pins is well formed, and none fails the run.
pub proof fn lemma_version_advisory(files: VersionFilesView)
    ensures
        all_advisory(version_findings(files)),
{
    lemma_severities_differ();
    reveal_strlit("rust-toolchain.toml uses nightly but Cargo.toml has rust-version set");
    reveal_strlit(".nvmrc specifies ");
    assert(categories()[1] == "version_mismatch"@);
    assert(toolchain_finding().is_advisory());
    assert forall|version: Seq<char>| (#[trigger] node_finding(version)).is_advisory() by {}
}

/// Whether the text `hay` holds the text `needle`.
pub fn text_contains(hay: &str, needle: &str) -> (found: bool)
    ensures
        found == contains(hay@, needle@),
{
    let hay_chars = to_chars(hay);
    let needle_chars = to_chars(needle);
    contains_chars(hay_chars.as_slice(), needle_chars.as_slice())
}

/// Compares the version pins. A nightly toolchain in `rust-toolchain.toml`
/// beside a `rust-version` in `Cargo.toml` gives one warning. A version in
/// `.nvmrc` that `package.json` does not hold, although it holds an
/// `"engines"` block, gives another. Both tests go by the text alone.
pub fn check_version_mismatches(files: &VersionFiles) -> (issues: Vec<Issue>)
    ensures
        views(issues@) == version_findings(files@),
        all_well_formed(views(issues@)),
{
    let mut issues: Vec<Issue> = Vec::new();
    assert(views(issues@) =~= Seq::<IssueView>::empty());
    if let Some(toolchain) = &files.toolchain {
        if let Some(manifest) = &files.manifest {
            if text_contains(toolchain.as_str(), "nightly") && text_contains(
                manifest.as_str(),
                "rust-version",
            ) {
                let issue = Issue::new(
                    "version_mismatch",
                    "warning",
                    "rust-toolchain.toml uses nightly but Cargo.toml has rust-version set".to_string(),
                    Some("rust-toolchain.toml"),
                    None,
                );
                record(&mut issues, issue);
            }
        }
    }
    let ghost first = views(issues@);
    if let Some(node_version) = &files.node_version {
        if let Some(package) = &files.package {
            let version_chars = to_chars(node_version.as_str());
            let version = trim_chars(version_chars.as_slice());
            let package_chars = to_chars(package.as_str());
            let engines = to_chars("\"engines\"");
            if !contains_chars(package_chars.as_slice(), version) && contains_chars(
                package_chars.as_slice(),
                engines.as_slice(),
            ) {
                let mut message = ".nvmrc specifies ".to_string();
                push_chars(&mut message, version);
                message.append(" but package.json engines may differ");
                let issue = Issue::new("version_mismatch", "warning", message, Some(".nvmrc"), None);
                record(&mut issues, issue);
            }
        }
    }
    proof {
        assert(views(issues@) =~= version_findings(files@));
        lemma_version_advisory(files@);
        lemma_advisory(views(issues@));
    }
    issues
}

} // verus!
