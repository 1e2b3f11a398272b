use drift::tree::{extension_of, is_listed, walk, Entry};

fn chars(s: &str) -> Vec<char> {
    s.chars().collect()
}

fn extension(name: &str) -> Option<String> {
    let all = chars(name);
    extension_of(&all).map(|ext| ext.iter().collect())
}

fn file(name: &str, path: &str) -> Entry {
    Entry::File { name: name.to_string(), path: path.to_string(), content: None }
}

fn directory(name: &str, path: &str, children: Vec<Entry>) -> Entry {
    Entry::Directory { name: name.to_string(), path: path.to_string(), children }
}

fn paths(files: &Vec<&Entry>) -> Vec<String> {
    files.iter().map(|entry| entry.path().clone()).collect()
}

#[test]
fn extension_is_what_follows_the_last_dot() {
    assert_eq!(extension("a.bak"), Some("bak".to_string()));
    assert_eq!(extension("archive.tar.gz"), Some("gz".to_string()));
    assert_eq!(extension("lib.rs"), Some("rs".to_string()));
    assert_eq!(extension("a."), Some("".to_string()));
    assert_eq!(extension("a..b"), Some("b".to_string()));
    assert_eq!(extension(".hidden.swp"), Some("swp".to_string()));
}

#[test]
fn extension_is_absent_without_an_inner_dot() {
    assert_eq!(extension("Makefile"), None);
    assert_eq!(extension(".gitignore"), None);
    assert_eq!(extension(""), None);
    assert_eq!(extension("."), None);
}

#[test]
fn extension_agrees_with_std_on_file_names() {
    let names = [
        "a.bak", "b.old", "c.txt", "Makefile", ".gitignore", ".hidden.swp", "a.", "a..b",
        "archive.tar.gz", "x.y.z", "héllo.wörld", "noext", "trailing.dot.", "a.b", "..a", "...",
    ];
    for name in names {
        let std = std::path::Path::new(name)
            .extension()
            .map(|ext| ext.to_str().unwrap().to_string());
        assert_eq!(extension(name), std, "{:?}", name);
    }
}

#[test]
fn is_listed_compares_whole_names() {
    let list = vec!["target".to_string(), ".git".to_string()];
    assert!(is_listed(&"target".to_string(), &list));
    assert!(is_listed(&".git".to_string(), &list));
    assert!(!is_listed(&"targets".to_string(), &list));
    assert!(!is_listed(&"git".to_string(), &list));
    assert!(!is_listed(&"".to_string(), &list));
}

#[test]
fn walk_visits_files_depth_first_in_listing_order() {
    let tree = vec![
        file("a", "./a"),
        directory(
            "d",
            "./d",
            vec![
                file("b", "./d/b"),
                directory("e", "./d/e", vec![file("c", "./d/e/c")]),
                file("f", "./d/f"),
            ],
        ),
        file("g", "./g"),
    ];
    let files = walk(&tree, &Vec::new());
    assert_eq!(paths(&files), vec!["./a", "./d/b", "./d/e/c", "./d/f", "./g"]);
}

#[test]
fn walk_does_not_enter_a_skipped_directory() {
    let tree = vec![
        directory("target", "./target", vec![file("old.bak", "./target/old.bak")]),
        directory(
            "src",
            "./src",
            vec![directory("target", "./src/target", vec![file("x", "./src/target/x")]), file("y", "./src/y")],
        ),
        directory("targets", "./targets", vec![file("z", "./targets/z")]),
    ];
    let files = walk(&tree, &vec!["target".to_string()]);
    assert_eq!(paths(&files), vec!["./src/y", "./targets/z"]);
}

#[test]
fn walk_skips_directories_only() {
    let tree = vec![file("target", "./target"), file(".git", "./.git")];
    let files = walk(&tree, &vec!["target".to_string(), ".git".to_string()]);
    assert_eq!(paths(&files), vec!["./target", "./.git"]);
}

#[test]
fn walk_of_nothing_visits_nothing() {
    let nothing: Vec<Entry> = Vec::new();
    let files = walk(&nothing, &vec!["target".to_string()]);
    assert!(files.is_empty());
    let tree = vec![directory("empty", "./empty", Vec::new())];
    assert!(walk(&tree, &Vec::new()).is_empty());
}

#[test]
fn entry_accessors_give_the_fields() {
    let f = Entry::File {
        name: "a.rs".to_string(),
        path: "./a.rs".to_string(),
        content: Some("x".to_string()),
    };
    assert_eq!(f.name(), "a.rs");
    assert_eq!(f.path(), "./a.rs");
    assert_eq!(f.content(), Some(&"x".to_string()));
    let d = directory("d", "./d", Vec::new());
    assert_eq!(d.name(), "d");
    assert_eq!(d.path(), "./d");
    assert_eq!(d.content(), None);
}
