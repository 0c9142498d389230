use git_bonsai::git::{split_lines, Repository};

fn strings(items: &[&str]) -> Vec<String> {
    items.iter().map(|x| x.to_string()).collect()
}

#[test]
fn get_current_branch() {
    assert_eq!(Repository::get_current_branch("* master\n").unwrap(), "master");
    assert_eq!(Repository::get_current_branch("  master\n* test\n").unwrap(), "test");
}

#[test]
fn current_branch_missing() {
    assert_eq!(Repository::get_current_branch("  master\n  test\n"), None);
    assert_eq!(Repository::get_current_branch(""), None);
}

#[test]
fn list_branches_with_sha1s() {
    let out = "  master 1a2b3c4 init\n* test   5d6e7f8 Create file\n";
    let branches_with_sha1 = Repository::list_branches_with_sha1s(out);
    assert_eq!(branches_with_sha1.len(), 2);
    assert_eq!(
        branches_with_sha1,
        vec![
            ("master".to_string(), "1a2b3c4".to_string()),
            ("test".to_string(), "5d6e7f8".to_string())
        ]
    );
}

#[test]
fn list_branches_skip_worktree_branches() {
    let out = "* master\n+ topic1\n";
    let branches = Repository::list_branches(out);
    assert_eq!(branches.len(), 1);
    assert_eq!(branches, &["master"]);
}

#[test]
fn list_branches_keeps_order_and_names() {
    let out = "  main\n* topic/one\n  été\n";
    assert_eq!(Repository::list_branches(out), strings(&["main", "topic/one", "été"]));
}

#[test]
fn tracking_branches_skip_gone_and_local() {
    let out = "* master  1a2b3c4 [origin/master] init\n  \
               old     2b3c4d5 [origin/old: gone] old work\n  \
               local   3c4d5e6 local work\n  \
               behind  4d5e6f7 [origin/behind: behind 2] more\n";
    assert_eq!(Repository::list_tracking_branches(out), strings(&["master", "behind"]));
}

#[test]
fn tracking_branches_skip_worktree_branches() {
    let out = "* master 1a2b3c4 [origin/master] init\n+ topic1 1a2b3c4 (/tmp/wt) [origin/topic1] init\n";
    assert_eq!(Repository::list_tracking_branches(out), strings(&["master"]));
}

#[test]
fn split_lines_edges() {
    assert_eq!(split_lines(""), Vec::<String>::new());
    assert_eq!(split_lines("a"), strings(&["a"]));
    assert_eq!(split_lines("a\n"), strings(&["a"]));
    assert_eq!(split_lines("\n"), strings(&[""]));
    assert_eq!(split_lines("a\n\nb"), strings(&["a", "", "b"]));
}

#[test]
fn changes_are_reported_by_any_output() {
    assert!(!Repository::has_changes(""));
    assert!(Repository::has_changes(" M src/lib.rs\n"));
}

#[test]
fn current_sha1_is_first_word() {
    assert_eq!(Repository::get_current_sha1("1a2b3c4 Create file\n"), "1a2b3c4");
}

#[test]
fn default_branch_from_remote_head() {
    assert_eq!(Repository::find_default_branch("origin/main\n"), Some("main".to_string()));
    assert_eq!(Repository::find_default_branch("origin/feature/x\n"), Some("feature/x".to_string()));
    assert_eq!(Repository::find_default_branch("origin/\n"), None);
    assert_eq!(Repository::find_default_branch(""), None);
}

#[test]
fn containing_list_reads_like_branch_list() {
    let out = "  master\n* topic\n+ elsewhere\n";
    assert_eq!(Repository::list_branches_containing(out), strings(&["master", "topic"]));
}

#[test]
fn repository_keeps_its_path() {
    assert_eq!(Repository::new("/tmp/repo".to_string()).path, "/tmp/repo");
}
