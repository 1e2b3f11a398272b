use drift::version::{check_version_mismatches, text_contains, VersionFiles};
use drift::Issue;

fn files(
    toolchain: Option<&str>,
    manifest: Option<&str>,
    node_version: Option<&str>,
    package: Option<&str>,
) -> VersionFiles {
    VersionFiles {
        toolchain: toolchain.map(|s| s.to_string()),
        manifest: manifest.map(|s| s.to_string()),
        node_version: node_version.map(|s| s.to_string()),
        package: package.map(|s| s.to_string()),
    }
}

fn toolchain_issue() -> Issue {
    Issue {
        category: "version_mismatch".to_string(),
        severity: "warning".to_string(),
        message: "rust-toolchain.toml uses nightly but Cargo.toml has rust-version set".to_string(),
        path: Some("rust-toolchain.toml".to_string()),
        line: None,
    }
}

fn node_issue(version: &str) -> Issue {
    Issue {
        category: "version_mismatch".to_string(),
        severity: "warning".to_string(),
        message: format!(".nvmrc specifies {} but package.json engines may differ", version),
        path: Some(".nvmrc".to_string()),
        line: None,
    }
}

#[test]
fn nightly_beside_rust_version_gives_one_finding() {
    let issues = check_version_mismatches(&files(
        Some("[toolchain]\nchannel = \"nightly\"\n"),
        Some("[package]\nname = \"x\"\nrust-version = \"1.70\"\n"),
        None,
        None,
    ));
    assert_eq!(issues, vec![toolchain_issue()]);
}

#[test]
fn toolchain_finding_needs_both_files_and_both_words() {
    let nightly = "channel = \"nightly\"";
    let pinned = "rust-version = \"1.70\"";
    assert!(check_version_mismatches(&files(None, Some(pinned), None, None)).is_empty());
    assert!(check_version_mismatches(&files(Some(nightly), None, None, None)).is_empty());
    assert!(check_version_mismatches(&files(Some("channel = \"stable\""), Some(pinned), None, None))
        .is_empty());
    assert!(check_version_mismatches(&files(Some(nightly), Some("edition = \"2021\""), None, None))
        .is_empty());
    assert!(check_version_mismatches(&files(None, None, None, None)).is_empty());
}

#[test]
fn node_version_missing_from_engines_gives_one_finding() {
    let issues = check_version_mismatches(&files(
        None,
        None,
        Some("  18.16.0\n"),
        Some("{ \"engines\": { \"node\": \">=20\" } }"),
    ));
    assert_eq!(issues, vec![node_issue("18.16.0")]);
}

#[test]
fn node_finding_needs_an_engines_block_without_the_version() {
    let engines = "{ \"engines\": { \"node\": \"18.16.0\" } }";
    assert!(check_version_mismatches(&files(None, None, Some("18.16.0\n"), Some(engines))).is_empty());
    assert!(check_version_mismatches(&files(None, None, Some("18.16.0"), Some("{ \"name\": \"x\" }")))
        .is_empty());
    assert!(check_version_mismatches(&files(None, None, Some("18"), Some("{ engines: 20 }"))).is_empty());
    assert!(check_version_mismatches(&files(None, None, None, Some("{ \"engines\": {} }"))).is_empty());
    assert!(check_version_mismatches(&files(None, None, Some("18"), None)).is_empty());
}

#[test]
fn empty_node_version_is_held_by_every_manifest() {
    assert!(check_version_mismatches(&files(None, None, Some("\n"), Some("{ \"engines\": {} }")))
        .is_empty());
}

#[test]
fn both_version_findings_come_in_order() {
    let issues = check_version_mismatches(&files(
        Some("nightly"),
        Some("rust-version"),
        Some("v20"),
        Some("\"engines\""),
    ));
    assert_eq!(issues, vec![toolchain_issue(), node_issue("v20")]);
}

#[test]
fn text_contains_is_substring_search() {
    assert!(text_contains("nightly-2024-01-01", "nightly"));
    assert!(text_contains("# not nightly", "nightly"));
    assert!(!text_contains("Nightly", "nightly"));
    assert!(text_contains("anything", ""));
}
