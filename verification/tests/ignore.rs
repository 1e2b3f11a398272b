use drift::ignore::{check_gitignore_drift, probe_paths, IgnoreFile};
use drift::Issue;

fn drift(entry: &str) -> Issue {
    Issue {
        category: "gitignore_drift".to_string(),
        severity: "info".to_string(),
        message: format!("Gitignore entry '{}' doesn't match any files", entry),
        path: Some(".gitignore".to_string()),
        line: None,
    }
}

fn check(text: &str, present: &[&str]) -> Vec<Issue> {
    let present: Vec<String> = present.iter().map(|path| path.to_string()).collect();
    check_gitignore_drift(&IgnoreFile::Text(text.to_string()), &present)
}

#[test]
fn a_literal_entry_without_a_file_gives_one_finding() {
    assert_eq!(check("missing.cfg", &[]), vec![drift("missing.cfg")]);
}

#[test]
fn globs_directory_markers_and_existing_paths_give_none() {
    assert!(check("*.log", &[]).is_empty());
    assert!(check("build/", &[]).is_empty());
    assert!(check("present.cfg", &["present.cfg"]).is_empty());
    assert!(check("*.log\nbuild/\npresent.cfg\n", &["present.cfg"]).is_empty());
}

#[test]
fn comments_and_blank_lines_are_no_entries() {
    assert!(check("# missing.cfg\n\n   \n\t# indented comment\n", &[]).is_empty());
    assert!(check("", &[]).is_empty());
}

#[test]
fn entries_with_a_wildcard_are_not_looked_for() {
    assert!(check("file?.txt\nsrc/*.o\n**/tmp\n", &[]).is_empty());
}

#[test]
fn commonly_premature_entries_give_no_finding() {
    assert!(check(".env\n.env.local\nnode_modules\ntarget\ndist\nbuild\n", &[]).is_empty());
    assert_eq!(check(".env.production\nbuilds\n", &[]), vec![drift(".env.production"), drift("builds")]);
    assert_eq!(check("/target\n", &[]), vec![drift("/target")]);
}

#[test]
fn entries_are_trimmed_before_they_are_read() {
    assert_eq!(check("  missing.cfg  \r\n", &[]), vec![drift("missing.cfg")]);
    assert!(check("  present.cfg\t\n", &["present.cfg"]).is_empty());
    assert!(check("  build/  \n", &[]).is_empty());
}

#[test]
fn one_leading_slash_is_taken_off_the_path() {
    assert!(check("/rooted.txt\n", &["rooted.txt"]).is_empty());
    assert_eq!(check("/rooted.txt\n", &["/rooted.txt"]), vec![drift("/rooted.txt")]);
    assert_eq!(check("/rooted.txt\n", &[]), vec![drift("/rooted.txt")]);
    assert!(check("//twice\n", &["/twice"]).is_empty());
    assert_eq!(check("//twice\n", &["twice"]), vec![drift("//twice")]);
}

#[test]
fn findings_come_in_the_order_of_the_file() {
    let text = "b.txt\n# note\na.txt\nkeep.txt\n*.tmp\nc/\nb.txt\n";
    assert_eq!(check(text, &["keep.txt"]), vec![drift("b.txt"), drift("a.txt"), drift("b.txt")]);
}

#[test]
fn an_unreadable_ignore_file_gives_one_warning() {
    let file = IgnoreFile::Unreadable("Permission denied (os error 13)".to_string());
    let issues = check_gitignore_drift(&file, &Vec::new());
    assert_eq!(
        issues,
        vec![Issue {
            category: "gitignore_drift".to_string(),
            severity: "warning".to_string(),
            message: "Failed to read .gitignore: Permission denied (os error 13)".to_string(),
            path: Some(".gitignore".to_string()),
            line: None,
        }]
    );
}

#[test]
fn a_missing_ignore_file_gives_nothing() {
    assert!(check_gitignore_drift(&IgnoreFile::Missing, &Vec::new()).is_empty());
    assert!(check_gitignore_drift(&IgnoreFile::Missing, &vec!["x".to_string()]).is_empty());
}

#[test]
fn probe_paths_are_the_literal_entries() {
    let text = "# comment\n\n*.log\n/rooted.txt\n  plain.cfg \nbuild/\ntarget\nwhat?\n//twice\n/\n";
    assert_eq!(
        probe_paths(text),
        vec!["rooted.txt", "plain.cfg", "build/", "target", "/twice", ""]
    );
    assert!(probe_paths("").is_empty());
}

#[test]
fn only_the_probe_paths_decide() {
    let text = "/rooted.txt\nplain.cfg\n*.log\ngone.txt\n";
    let probes = probe_paths(text);
    let on_disk = ["rooted.txt", "plain.cfg", "unrelated", "*.log", "/rooted.txt"];
    let known: Vec<&str> = on_disk.iter().copied().filter(|p| probes.iter().any(|q| q == p)).collect();
    assert_eq!(known, vec!["rooted.txt", "plain.cfg"]);
    assert_eq!(check(text, &known), check(text, &on_disk));
    assert_eq!(check(text, &known), vec![drift("gone.txt")]);
}
