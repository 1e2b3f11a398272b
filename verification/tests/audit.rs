use drift::audit::{run_audit, Snapshot};
use drift::git::check_git_drift;
use drift::ignore::{check_gitignore_drift, IgnoreFile};
use drift::markers::check_dead_code_markers;
use drift::report::{has_errors, render_human};
use drift::stale::check_stale_configs;
use drift::tree::Entry;
use drift::version::{check_version_mismatches, VersionFiles};
use drift::Issue;

fn file(name: &str, path: &str, content: Option<&str>) -> Entry {
    Entry::File {
        name: name.to_string(),
        path: path.to_string(),
        content: content.map(|text| text.to_string()),
    }
}

fn directory(name: &str, path: &str, children: Vec<Entry>) -> Entry {
    Entry::Directory { name: name.to_string(), path: path.to_string(), children }
}

fn bare() -> Snapshot {
    Snapshot {
        tree: Vec::new(),
        versions: VersionFiles { toolchain: None, manifest: None, node_version: None, package: None },
        git_status: None,
        ignore_file: IgnoreFile::Missing,
        present: Vec::new(),
    }
}

fn busy() -> Snapshot {
    Snapshot {
        tree: vec![
            file("notes.bak", "./notes.bak", None),
            directory(
                "src",
                "./src",
                vec![file("lib.rs", "./src/lib.rs", Some("fn main() {}\n// TODO: fix this HACK\n"))],
            ),
        ],
        versions: VersionFiles {
            toolchain: Some("[toolchain]\nchannel = \"nightly\"\n".to_string()),
            manifest: Some("[package]\nrust-version = \"1.70\"\n".to_string()),
            node_version: Some("18.16.0\n".to_string()),
            package: Some("{ \"engines\": { \"node\": \">=20\" } }".to_string()),
        },
        git_status: Some(" M src/lib.rs\n?? notes.bak\n".to_string()),
        ignore_file: IgnoreFile::Text("# build output\ntarget\nmissing.cfg\n".to_string()),
        present: Vec::new(),
    }
}

#[test]
fn test_run_audit_returns_vec() {
    let issues = run_audit(&busy());
    assert!(!issues.is_empty());
    // Verify that any issues found are well-formed
    for issue in &issues {
        assert!(
            !issue.category.is_empty(),
            "Issue category should not be empty"
        );
        assert!(
            !issue.severity.is_empty(),
            "Issue severity should not be empty"
        );
        assert!(
            !issue.message.is_empty(),
            "Issue message should not be empty"
        );
    }
}

#[test]
fn audit_of_a_bare_repository_finds_nothing() {
    let issues: Vec<Issue> = run_audit(&bare());
    assert!(issues.is_empty());
}

#[test]
fn audit_of_a_bare_repository_reports_no_drift() {
    let issues = run_audit(&bare());
    assert_eq!(render_human(&issues), "✓ No drift detected\n");
    assert!(!has_errors(&issues));
}

#[test]
fn audit_names_a_line_only_within_a_path() {
    for issue in run_audit(&busy()) {
        if issue.line.is_some() {
            assert!(issue.path.is_some());
        }
    }
}

#[test]
fn audit_runs_the_checks_in_their_fixed_order() {
    let issues = run_audit(&busy());
    let categories: Vec<&str> = issues.iter().map(|issue| issue.category.as_str()).collect();
    assert_eq!(
        categories,
        vec![
            "stale_config",
            "version_mismatch",
            "version_mismatch",
            "dead_code",
            "dead_code",
            "git_drift",
            "git_drift",
            "gitignore_drift",
        ]
    );
}

#[test]
fn audit_joins_what_the_checks_find() {
    let snapshot = busy();
    let mut expected = Vec::new();
    expected.extend(check_stale_configs(&snapshot.tree));
    expected.extend(check_version_mismatches(&snapshot.versions));
    expected.extend(check_dead_code_markers(&snapshot.tree));
    expected.extend(check_git_drift(snapshot.git_status.as_deref()));
    expected.extend(check_gitignore_drift(&snapshot.ignore_file, &snapshot.present));
    assert_eq!(run_audit(&snapshot), expected);
}

#[test]
fn audit_finds_exactly_what_is_there() {
    let issues = run_audit(&busy());
    let found: Vec<(String, String, String, Option<String>, Option<usize>)> = issues
        .into_iter()
        .map(|i| (i.category, i.severity, i.message, i.path, i.line))
        .collect();
    let row = |c: &str, s: &str, m: &str, p: Option<&str>, l: Option<usize>| {
        (c.to_string(), s.to_string(), m.to_string(), p.map(|p| p.to_string()), l)
    };
    assert_eq!(
        found,
        vec![
            row("stale_config", "warning", "Stale configuration or backup file", Some("./notes.bak"), None),
            row(
                "version_mismatch",
                "warning",
                "rust-toolchain.toml uses nightly but Cargo.toml has rust-version set",
                Some("rust-toolchain.toml"),
                None
            ),
            row(
                "version_mismatch",
                "warning",
                ".nvmrc specifies 18.16.0 but package.json engines may differ",
                Some(".nvmrc"),
                None
            ),
            row("dead_code", "info", "TODO marker found", Some("./src/lib.rs"), Some(2)),
            row("dead_code", "info", "HACK marker found", Some("./src/lib.rs"), Some(2)),
            row("git_drift", "warning", "1 modified files not committed", None, None),
            row("git_drift", "info", "1 untracked files", None, None),
            row(
                "gitignore_drift",
                "info",
                "Gitignore entry 'missing.cfg' doesn't match any files",
                Some(".gitignore"),
                None
            ),
        ]
    );
}

#[test]
fn audit_twice_gives_the_same_findings() {
    let snapshot = busy();
    let first = run_audit(&snapshot);
    let second = run_audit(&snapshot);
    assert_eq!(first.len(), second.len());
    assert_eq!(first, second);
    assert_eq!(run_audit(&busy()), first);
}

#[test]
fn audit_never_fails_the_run() {
    let issues = run_audit(&busy());
    assert!(!has_errors(&issues));
    for issue in &issues {
        assert!(issue.severity == "warning" || issue.severity == "info");
    }
}

#[test]
fn issue_clone_says_the_same() {
    for issue in run_audit(&busy()) {
        assert_eq!(issue.clone(), issue);
    }
}
