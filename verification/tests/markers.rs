use drift::markers::{check_dead_code_markers, is_source_file, scan_file};
use drift::tree::Entry;
use drift::Issue;

fn file(name: &str, path: &str, content: Option<&str>) -> Entry {
    Entry::File {
        name: name.to_string(),
        path: path.to_string(),
        content: content.map(|text| text.to_string()),
    }
}

fn directory(name: &str, path: &str, children: Vec<Entry>) -> Entry {
    Entry::Directory { name: name.to_string(), path: path.to_string(), children }
}

fn marker(token: &str, path: &str, line: usize) -> Issue {
    Issue {
        category: "dead_code".to_string(),
        severity: "info".to_string(),
        message: format!("{} marker found", token),
        path: Some(path.to_string()),
        line: Some(line),
    }
}

fn scan(path: &str, text: &str) -> Vec<Issue> {
    let mut issues = Vec::new();
    scan_file(path, text, &mut issues);
    issues
}

#[test]
fn one_line_with_two_markers_gives_two_findings() {
    let tree = vec![file("main.rs", "./main.rs", Some("// TODO: fix this HACK"))];
    let issues = check_dead_code_markers(&tree);
    assert_eq!(issues, vec![marker("TODO", "./main.rs", 1), marker("HACK", "./main.rs", 1)]);
}

#[test]
fn markers_come_in_their_fixed_order() {
    let issues = scan("a.rs", "HACK XXX FIXME TODO");
    assert_eq!(
        issues,
        vec![
            marker("TODO", "a.rs", 1),
            marker("FIXME", "a.rs", 1),
            marker("XXX", "a.rs", 1),
            marker("HACK", "a.rs", 1),
        ]
    );
}

#[test]
fn a_marker_twice_on_a_line_counts_once() {
    assert_eq!(scan("a.rs", "TODO and TODO again"), vec![marker("TODO", "a.rs", 1)]);
    assert_eq!(scan("a.rs", "XXXXXX"), vec![marker("XXX", "a.rs", 1)]);
}

#[test]
fn lines_count_from_one() {
    let text = "fn main() {\n    // FIXME later\n\n    // todo lower case\n    let x = 1; // XXX\r\n}\n// TODO";
    assert_eq!(
        scan("src/main.rs", text),
        vec![
            marker("FIXME", "src/main.rs", 2),
            marker("XXX", "src/main.rs", 5),
            marker("TODO", "src/main.rs", 7),
        ]
    );
}

#[test]
fn scan_file_appends_to_what_is_there() {
    let mut issues = vec![marker("XXX", "first.rs", 9)];
    scan_file("second.rs", "HACK", &mut issues);
    assert_eq!(issues, vec![marker("XXX", "first.rs", 9), marker("HACK", "second.rs", 1)]);
    scan_file("third.rs", "nothing here", &mut issues);
    assert_eq!(issues.len(), 2);
    scan_file("fourth.rs", "", &mut issues);
    assert_eq!(issues.len(), 2);
}

#[test]
fn source_files_go_by_extension() {
    for name in ["a.rs", "a.js", "a.ts", "a.py", "a.go", "a.java", "a.c", "a.cpp", "a.h", "x.y.rs"] {
        assert!(is_source_file(name), "{}", name);
    }
    for name in ["a.txt", "a.md", "rs", ".rs", "a.RS", "a.rsx", "a.", "a.hpp", "Makefile", ""] {
        assert!(!is_source_file(name), "{}", name);
    }
}

#[test]
fn marker_check_reads_source_files_only() {
    let tree = vec![
        file("notes.txt", "./notes.txt", Some("TODO")),
        file("unread.rs", "./unread.rs", None),
        file("app.py", "./app.py", Some("# FIXME\n")),
    ];
    assert_eq!(check_dead_code_markers(&tree), vec![marker("FIXME", "./app.py", 1)]);
}

#[test]
fn marker_check_stays_out_of_dependencies_and_build_output() {
    let tree = vec![
        directory("node_modules", "./node_modules", vec![file("dep.js", "./node_modules/dep.js", Some("TODO"))]),
        directory("target", "./target", vec![file("gen.rs", "./target/gen.rs", Some("TODO"))]),
        directory(".git", "./.git", vec![file("hook.py", "./.git/hook.py", Some("TODO"))]),
        directory(
            "src",
            "./src",
            vec![
                file("b.c", "./src/b.c", Some("int x; /* XXX */\n/* HACK */")),
                directory("node_modules", "./src/node_modules", vec![file("i.ts", "./src/node_modules/i.ts", Some("HACK"))]),
                file("a.h", "./src/a.h", Some("// TODO")),
            ],
        ),
    ];
    assert_eq!(
        check_dead_code_markers(&tree),
        vec![
            marker("XXX", "./src/b.c", 1),
            marker("HACK", "./src/b.c", 2),
            marker("TODO", "./src/a.h", 1),
        ]
    );
}

#[test]
fn marker_check_of_an_empty_tree_finds_nothing() {
    assert!(check_dead_code_markers(&Vec::new()).is_empty());
}
