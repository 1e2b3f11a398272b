use drift::git::{check_git_drift, count_changes};
use drift::Issue;

fn modified(count: usize) -> Issue {
    Issue {
        category: "git_drift".to_string(),
        severity: "warning".to_string(),
        message: format!("{} modified files not committed", count),
        path: None,
        line: None,
    }
}

fn untracked(count: usize) -> Issue {
    Issue {
        category: "git_drift".to_string(),
        severity: "info".to_string(),
        message: format!("{} untracked files", count),
        path: None,
        line: None,
    }
}

#[test]
fn one_modified_and_one_untracked_give_two_findings() {
    let issues = check_git_drift(Some(" M file1\n?? file2"));
    assert_eq!(issues.len(), 2);
    assert_eq!(issues[0].category, "git_drift");
    assert_eq!(issues[0].severity, "warning");
    assert_eq!(issues[0].message, "1 modified files not committed");
    assert_eq!(issues[1].category, "git_drift");
    assert_eq!(issues[1].severity, "info");
    assert_eq!(issues[1].message, "1 untracked files");
    assert_eq!(issues, vec![modified(1), untracked(1)]);
}

#[test]
fn status_lines_are_classified_by_their_first_two_characters() {
    let status = " M a\nM  b\nMM c\nA  d\n D e\n?? f\n?? g\n!! h\nR  i -> j\n M k\r\n";
    assert_eq!(count_changes(status), (3, 2));
    assert_eq!(count_changes(""), (0, 0));
    assert_eq!(count_changes("M"), (0, 0));
    assert_eq!(count_changes("?"), (0, 0));
    assert_eq!(count_changes(" M"), (1, 0));
    assert_eq!(count_changes("??"), (0, 1));
    assert_eq!(count_changes("  M x\n ?? y\n"), (0, 0));
}

#[test]
fn counts_are_written_in_decimal() {
    let mut status = String::new();
    for i in 0..12 {
        status.push_str(&format!(" M file{}\n", i));
    }
    for i in 0..105 {
        status.push_str(&format!("?? new{}\n", i));
    }
    assert_eq!(check_git_drift(Some(&status)), vec![modified(12), untracked(105)]);
}

#[test]
fn a_count_of_zero_gives_no_finding() {
    assert_eq!(check_git_drift(Some("?? only\n")), vec![untracked(1)]);
    assert_eq!(check_git_drift(Some("M  only\n")), vec![modified(1)]);
    assert!(check_git_drift(Some("A  staged\n")).is_empty());
    assert!(check_git_drift(Some("")).is_empty());
}

#[test]
fn without_status_output_there_is_no_finding() {
    assert!(check_git_drift(None).is_empty());
}
