use drift::stale::{check_stale_configs, is_stale_file};
use drift::tree::Entry;
use drift::Issue;

fn file(name: &str, path: &str) -> Entry {
    Entry::File { name: name.to_string(), path: path.to_string(), content: None }
}

fn directory(name: &str, path: &str, children: Vec<Entry>) -> Entry {
    Entry::Directory { name: name.to_string(), path: path.to_string(), children }
}

fn stale(path: &str) -> Issue {
    Issue {
        category: "stale_config".to_string(),
        severity: "warning".to_string(),
        message: "Stale configuration or backup file".to_string(),
        path: Some(path.to_string()),
        line: None,
    }
}

#[test]
fn stale_check_reports_backups_and_stays_out_of_target() {
    let tree = vec![
        file("a.bak", "./a.bak"),
        file("b.old", "./b.old"),
        file("c.txt", "./c.txt"),
        directory("target", "./target", vec![file("old.bak", "./target/old.bak")]),
    ];
    let issues = check_stale_configs(&tree);
    assert_eq!(issues, vec![stale("./a.bak"), stale("./b.old")]);
}

#[test]
fn stale_check_knows_five_extensions() {
    for name in ["x.old", "x.bak", "x.tmp", "x.swp", "x.orig"] {
        assert!(is_stale_file(name), "{}", name);
    }
    for name in ["x.txt", "x.rs", "x.OLD", "x.bak2", "x.ba", "old", "bak", ".bak", "x.bak.txt", "x.", ""] {
        assert!(!is_stale_file(name), "{}", name);
    }
    assert!(is_stale_file("archive.tar.bak"));
    assert!(is_stale_file(".config.swp"));
}

#[test]
fn stale_check_stays_out_of_version_control_metadata() {
    let tree = vec![
        directory(".git", "./.git", vec![file("index.orig", "./.git/index.orig")]),
        directory("node_modules", "./node_modules", vec![file("p.tmp", "./node_modules/p.tmp")]),
        directory(
            "deep",
            "./deep",
            vec![directory("er", "./deep/er", vec![file("q.swp", "./deep/er/q.swp")])],
        ),
    ];
    let issues = check_stale_configs(&tree);
    assert_eq!(issues, vec![stale("./node_modules/p.tmp"), stale("./deep/er/q.swp")]);
}

#[test]
fn stale_check_never_skips_a_file() {
    let tree = vec![
        directory("target.bak", "./target.bak", vec![file("inner.old", "./target.bak/inner.old")]),
        file("target", "./target"),
    ];
    let issues = check_stale_configs(&tree);
    assert_eq!(issues, vec![stale("./target.bak/inner.old")]);
}

#[test]
fn stale_check_of_an_empty_tree_finds_nothing() {
    assert!(check_stale_configs(&Vec::new()).is_empty());
}
