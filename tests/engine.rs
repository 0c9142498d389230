use std::collections::{BTreeMap, BTreeSet, HashMap, HashSet};

use git_bonsai::app::{App, CliArgs, DefaultBranchStep, WorkingTreeProblem};
use git_bonsai::batchappui::{name_less, BatchAppUi};
use git_bonsai::error::{AppError, GitError};
use git_bonsai::executor::{DeleteAction, DeleteEvent, DeleteWarning};
use git_bonsai::identical::{keep_one_selection_is_valid, IdenticalGroupPlan};
use git_bonsai::merged::BranchToDeleteInfo;
use git_bonsai::tracking::{UpdateAction, UpdateEvent, UpdateWarning};

const INITIAL_BRANCH: &str = "master";

/// A repository held in memory: commits with their parents, and branches
/// pointing at commits.
struct FakeRepo {
    parents: HashMap<String, Vec<String>>,
    branches: BTreeMap<String, String>,
    current: String,
    upstream: BTreeMap<String, String>,
    next_commit: u32,
}

impl FakeRepo {
    fn new() -> FakeRepo {
        let mut parents = HashMap::new();
        parents.insert("c0".to_string(), vec![]);
        let mut branches = BTreeMap::new();
        branches.insert(INITIAL_BRANCH.to_string(), "c0".to_string());
        FakeRepo {
            parents,
            branches,
            current: INITIAL_BRANCH.to_string(),
            upstream: BTreeMap::new(),
            next_commit: 1,
        }
    }

    fn new_commit(&mut self, parents: Vec<String>) -> String {
        let id = format!("c{}", self.next_commit);
        self.next_commit += 1;
        self.parents.insert(id.clone(), parents);
        id
    }

    /// Creates `name` from the current branch and commits on it.
    fn create_branch(&mut self, name: &str) {
        let tip = self.branches[&self.current].clone();
        let c = self.new_commit(vec![tip]);
        self.branches.insert(name.to_string(), c);
        self.current = name.to_string();
    }

    /// Creates `name` at the tip of `from`.
    fn branch(&mut self, name: &str, from: &str) {
        let tip = self.branches[from].clone();
        self.branches.insert(name.to_string(), tip);
    }

    fn commit(&mut self) {
        let tip = self.branches[&self.current].clone();
        let c = self.new_commit(vec![tip]);
        self.branches.insert(self.current.clone(), c);
    }

    fn merge(&mut self, name: &str) {
        let ours = self.branches[&self.current].clone();
        let theirs = self.branches[name].clone();
        let c = self.new_commit(vec![ours, theirs]);
        self.branches.insert(self.current.clone(), c);
    }

    fn reaches(&self, from: &str, target: &str) -> bool {
        let mut stack = vec![from.to_string()];
        let mut seen = HashSet::new();
        while let Some(c) = stack.pop() {
            if c == target {
                return true;
            }
            if seen.insert(c.clone()) {
                stack.extend(self.parents[&c].iter().cloned());
            }
        }
        false
    }

    fn list_branches(&self) -> Vec<String> {
        self.branches.keys().cloned().collect()
    }

    fn list_branches_with_sha1s(&self) -> Vec<(String, String)> {
        self.branches.iter().map(|(b, c)| (b.clone(), c.clone())).collect()
    }

    fn list_branches_containing(&self, commit_or_branch: &str) -> Result<Vec<String>, GitError> {
        let commit = match self.branches.get(commit_or_branch) {
            Some(c) => c.clone(),
            None if self.parents.contains_key(commit_or_branch) => commit_or_branch.to_string(),
            None => return Err(GitError::CommandFailed { exit_code: 129 }),
        };
        Ok(self
            .branches
            .iter()
            .filter(|(_, tip)| self.reaches(tip, &commit))
            .map(|(b, _)| b.clone())
            .collect())
    }

    fn checkout(&mut self, branch: &str) -> Result<(), GitError> {
        if self.branches.contains_key(branch) {
            self.current = branch.to_string();
            Ok(())
        } else {
            Err(GitError::CommandFailed { exit_code: 1 })
        }
    }

    fn delete_branch(&mut self, branch: &str) -> Result<(), GitError> {
        if branch == self.current || !self.branches.contains_key(branch) {
            return Err(GitError::CommandFailed { exit_code: 1 });
        }
        self.branches.remove(branch);
        Ok(())
    }

    /// Fast-forwards the current branch to its upstream tip, if that tip
    /// descends from it.
    fn update_branch(&mut self) -> Result<(), GitError> {
        let tip = self.branches[&self.current].clone();
        match self.upstream.get(&self.current) {
            Some(up) if self.reaches(up, &tip) => {
                let up = up.clone();
                self.branches.insert(self.current.clone(), up);
                Ok(())
            }
            Some(_) => Err(GitError::CommandFailed { exit_code: 128 }),
            None => Ok(()),
        }
    }
}

fn strings(items: &[&str]) -> Vec<String> {
    items.iter().map(|x| x.to_string()).collect()
}

/// The app as a run sets it up: the default branch is protected.
fn create_run_app(excluded: &[&str]) -> App {
    let args = CliArgs { excluded: strings(excluded), no_fetch: true, yes: true };
    let mut app = App::new(&args, &Vec::new());
    app.add_default_branch_to_protected_branches(INITIAL_BRANCH.to_string());
    app
}

/// The app as built from the options alone, before the default branch is
/// resolved.
fn create_app(excluded: &[&str]) -> App {
    let args = CliArgs { excluded: strings(excluded), no_fetch: true, yes: true };
    App::new(&args, &Vec::new())
}

/// Runs a deletion to its end; returns its result and its warnings.
fn delete_branches(app: &App, repo: &mut FakeRepo, branches: Vec<String>) -> (Result<(), AppError>, Vec<DeleteWarning>) {
    let mut warnings = Vec::new();
    if branches.is_empty() {
        return (Ok(()), warnings);
    }
    let existing = repo.list_branches();
    let (mut deleter, mut step) = app.delete_branches(repo.current.clone(), branches, &existing);
    loop {
        if let Some(w) = step.warning {
            warnings.push(w);
        }
        step = match step.action {
            DeleteAction::Checkout(b) => deleter.step(DeleteEvent::CheckedOut(repo.checkout(&b))),
            DeleteAction::ListContaining(b) => {
                deleter.step(DeleteEvent::Listed(repo.list_branches_containing(&b)))
            }
            DeleteAction::Delete(b) => deleter.step(DeleteEvent::Deleted(repo.delete_branch(&b))),
            DeleteAction::Finish => break,
        };
    }
    (deleter.result(), warnings)
}

fn deletable_branches(app: &App, repo: &FakeRepo) -> Vec<BranchToDeleteInfo> {
    let branches = repo.list_branches();
    let containing: Vec<Vec<String>> = branches
        .iter()
        .map(|b| repo.list_branches_containing(b).unwrap())
        .collect();
    app.get_deletable_branches(&branches, &containing)
}

fn remove_merged_branches(app: &App, repo: &mut FakeRepo) -> Result<(), AppError> {
    let to_delete = deletable_branches(app, repo);
    let selected = BatchAppUi.select_branches_to_delete(&to_delete);
    delete_branches(app, repo, selected.into_iter().map(|x| x.name).collect()).0
}

fn delete_identical_branches(app: &App, repo: &mut FakeRepo) -> Result<(), AppError> {
    let pairs = repo.list_branches_with_sha1s();
    for group in app.delete_identical_branches(&pairs) {
        let containing = repo.list_branches_containing(&group.tip)?;
        let selected = match app.do_delete_identical_branches(&group.branches, &containing) {
            IdenticalGroupPlan::Keep => continue,
            IdenticalGroupPlan::DeleteAny(v) => BatchAppUi.select_identical_branches_to_delete(&v),
            IdenticalGroupPlan::KeepOne(v) => BatchAppUi.select_identical_branches_to_delete_keep_one(&v),
        };
        delete_branches(app, repo, selected).0?;
    }
    Ok(())
}

/// Updates the given tracking branches; returns the result and the
/// warnings.
fn update_tracking_branches(app: &App, repo: &mut FakeRepo, tracking: Vec<String>) -> (Result<(), AppError>, Vec<UpdateWarning>) {
    let mut warnings = Vec::new();
    let (mut updater, mut action) = app.update_tracking_branches(repo.current.clone(), tracking);
    loop {
        let step = match action {
            UpdateAction::Checkout(b) => updater.step(UpdateEvent::CheckedOut(repo.checkout(&b))),
            UpdateAction::FastForward => updater.step(UpdateEvent::FastForwarded(repo.update_branch())),
            UpdateAction::Finish => break,
        };
        if let Some(w) = step.warning {
            warnings.push(w);
        }
        action = step.action;
    }
    (updater.result(), warnings)
}

fn run_all(app: &App, repo: &mut FakeRepo) -> Result<(), AppError> {
    let tracking: Vec<String> = repo.upstream.keys().cloned().collect();
    update_tracking_branches(app, repo, tracking).0?;
    delete_identical_branches(app, repo)?;
    remove_merged_branches(app, repo)
}

#[test]
fn no_op() {
    let mut repo = FakeRepo::new();
    let app = create_app(&[]);
    assert_eq!(run_all(&app, &mut repo), Ok(()));
    assert_eq!(repo.list_branches(), &[INITIAL_BRANCH]);
}

#[test]
fn delete_merged_branch() {
    let mut repo = FakeRepo::new();
    repo.create_branch("topic1");
    repo.create_branch("topic2");
    repo.checkout(INITIAL_BRANCH).unwrap();
    repo.merge("topic1");
    assert_eq!(repo.list_branches(), &[INITIAL_BRANCH, "topic1", "topic2"]);

    let app = create_app(&[]);
    let plan = deletable_branches(&app, &repo);
    assert_eq!(plan.len(), 1);
    assert_eq!(plan[0].name, "topic1");
    let containers: BTreeSet<String> = plan[0].contained_in.iter().cloned().collect();
    assert_eq!(containers, strings(&[INITIAL_BRANCH, "topic2"]).into_iter().collect());

    assert_eq!(remove_merged_branches(&app, &mut repo), Ok(()));
    assert_eq!(repo.list_branches(), &[INITIAL_BRANCH, "topic2"]);
}

#[test]
fn skip_protected_branch() {
    let mut repo = FakeRepo::new();
    repo.create_branch("protected");
    repo.checkout(INITIAL_BRANCH).unwrap();
    repo.merge("protected");
    assert_eq!(repo.list_branches(), &[INITIAL_BRANCH, "protected"]);

    let app = create_app(&["protected"]);
    assert_eq!(remove_merged_branches(&app, &mut repo), Ok(()));
    assert_eq!(repo.list_branches(), &[INITIAL_BRANCH, "protected"]);

    let app = create_app(&[]);
    assert_eq!(remove_merged_branches(&app, &mut repo), Ok(()));
    assert_eq!(repo.list_branches(), &[INITIAL_BRANCH]);
}

#[test]
fn update_branch() {
    let mut repo = FakeRepo::new();
    let old_tip = repo.branches[INITIAL_BRANCH].clone();
    let new_tip = repo.new_commit(vec![old_tip]);
    repo.upstream.insert(INITIAL_BRANCH.to_string(), new_tip.clone());

    let app = create_app(&[]);
    let (result, warnings) = update_tracking_branches(&app, &mut repo, strings(&[INITIAL_BRANCH]));
    assert_eq!(result, Ok(()));
    assert!(warnings.is_empty());
    assert_eq!(repo.branches[INITIAL_BRANCH], new_tip);
}

#[test]
fn diverged_tracking_branch_is_a_warning() {
    let mut repo = FakeRepo::new();
    repo.create_branch("topic");
    let before = repo.branches["topic"].clone();
    let other = repo.new_commit(vec!["c0".to_string()]);
    repo.upstream.insert("topic".to_string(), other);
    repo.checkout(INITIAL_BRANCH).unwrap();

    let app = create_run_app(&[]);
    let (result, warnings) = update_tracking_branches(&app, &mut repo, strings(&["topic"]));
    assert_eq!(result, Ok(()));
    assert_eq!(warnings.len(), 1);
    assert!(matches!(&warnings[0], UpdateWarning::UpdateFailed(b) if b == "topic"));
    assert_eq!(repo.branches["topic"], before);
    assert_eq!(repo.current, INITIAL_BRANCH);
}

#[test]
fn failed_checkout_stops_update_and_restores() {
    let mut repo = FakeRepo::new();
    repo.create_branch("topic");
    let app = create_run_app(&[]);
    let (result, _) = update_tracking_branches(&app, &mut repo, strings(&["missing", INITIAL_BRANCH]));
    assert_eq!(result, Err(AppError::Git(GitError::CommandFailed { exit_code: 1 })));
    assert_eq!(repo.current, "topic");
}

#[test]
fn identical_sha1_no_other_branch() {
    let mut repo = FakeRepo::new();
    repo.create_branch("topic1");
    repo.branch("topic2", "topic1");
    repo.branch("topic3", "topic1");

    let app = create_app(&[]);
    assert_eq!(delete_identical_branches(&app, &mut repo), Ok(()));
    assert_eq!(repo.list_branches(), &[INITIAL_BRANCH, "topic1"]);
}

#[test]
fn identical_sha1_contained_in_master() {
    let mut repo = FakeRepo::new();
    repo.branch("topic1", INITIAL_BRANCH);
    repo.branch("topic2", INITIAL_BRANCH);

    let app = create_app(&[]);
    assert_eq!(delete_identical_branches(&app, &mut repo), Ok(()));
    assert_eq!(repo.list_branches(), &[INITIAL_BRANCH]);
}

#[test]
fn identical_sha1_with_protected_master_goes_through_merged_phase() {
    let mut repo = FakeRepo::new();
    repo.branch("topic1", INITIAL_BRANCH);
    repo.branch("topic2", INITIAL_BRANCH);

    let app = create_run_app(&[]);
    assert_eq!(run_all(&app, &mut repo), Ok(()));
    assert_eq!(repo.list_branches(), &[INITIAL_BRANCH]);
}

#[test]
fn identical_sha1_behind_master_are_all_deleted() {
    let mut repo = FakeRepo::new();
    repo.branch("topic1", INITIAL_BRANCH);
    repo.branch("topic2", INITIAL_BRANCH);
    repo.commit();

    let app = create_run_app(&[]);
    assert_eq!(delete_identical_branches(&app, &mut repo), Ok(()));
    assert_eq!(repo.list_branches(), &[INITIAL_BRANCH]);
}

#[test]
fn identical_group_with_protected_branch_is_kept() {
    let mut repo = FakeRepo::new();
    repo.branch("topic1", INITIAL_BRANCH);
    repo.branch("topic2", INITIAL_BRANCH);

    let app = create_run_app(&[]);
    assert_eq!(delete_identical_branches(&app, &mut repo), Ok(()));
    assert_eq!(repo.list_branches(), &[INITIAL_BRANCH, "topic1", "topic2"]);
}

#[test]
fn skip_worktree_branches() {
    let out = "* master 1a2b3c4 [origin/master] init\n+ topic1 1a2b3c4 (/tmp/wt) [origin/topic1] init\n";
    let tracking = git_bonsai::git::Repository::list_tracking_branches(out);
    let mut repo = FakeRepo::new();
    repo.branch("topic1", INITIAL_BRANCH);
    let app = create_app(&[]);
    let (result, _) = update_tracking_branches(&app, &mut repo, tracking);
    assert_eq!(result, Ok(()));
}

#[test]
fn safe_delete_branch() {
    let mut repo = FakeRepo::new();
    repo.branch("test", INITIAL_BRANCH);

    let containing = repo.list_branches_containing("test").unwrap();
    let result = App::safe_delete_branch(&"test".to_string(), &containing);
    assert_eq!(result, Ok(()));

    let app = create_app(&[]);
    let (result, warnings) = delete_branches(&app, &mut repo, strings(&["test"]));
    assert_eq!(result, Ok(()));
    assert!(warnings.is_empty());
    assert_eq!(repo.list_branches(), &[INITIAL_BRANCH]);
}

#[test]
fn cant_delete_unique_branch() {
    let mut repo = FakeRepo::new();
    repo.create_branch("test");
    repo.checkout(INITIAL_BRANCH).unwrap();

    let containing = repo.list_branches_containing("test").unwrap();
    let result = App::safe_delete_branch(&"test".to_string(), &containing);
    assert_eq!(result, Err(AppError::UnsafeDelete));

    let app = create_app(&[]);
    let (result, warnings) = delete_branches(&app, &mut repo, strings(&["test"]));
    assert_eq!(result, Ok(()));
    assert!(matches!(&warnings[0], DeleteWarning::Unsafe(b) if b == "test"));
    assert_eq!(repo.list_branches(), &[INITIAL_BRANCH, "test"]);
}

#[test]
fn deleter_removes_merged_branch() {
    let mut repo = FakeRepo::new();
    repo.create_branch("test");
    repo.checkout(INITIAL_BRANCH).unwrap();
    repo.merge("test");

    let app = create_run_app(&[]);
    let (result, _) = delete_branches(&app, &mut repo, strings(&["test"]));
    assert_eq!(result, Ok(()));
    assert_eq!(repo.list_branches(), &[INITIAL_BRANCH]);
}

#[test]
fn test_protected_branches_from_git_config() {
    let args = CliArgs { excluded: Vec::new(), no_fetch: true, yes: true };
    let mut app = App::new(&args, &strings(&["custom1", "custom2"]));
    app.add_default_branch_to_protected_branches(INITIAL_BRANCH.to_string());

    let expected_branches: HashSet<String> = ["custom1", "custom2", INITIAL_BRANCH]
        .iter()
        .map(|x| x.to_string())
        .collect();
    let protected: HashSet<String> = app.get_protected_branches().into_iter().collect();
    assert_eq!(protected, expected_branches);
}

#[test]
fn protected_branches_are_listed_once() {
    let args = CliArgs { excluded: strings(&["a", "b", "a"]), no_fetch: false, yes: false };
    let mut app = App::new(&args, &strings(&["b", "c"]));
    app.add_default_branch_to_protected_branches("c".to_string());
    let mut protected = app.get_protected_branches();
    protected.sort();
    assert_eq!(protected, strings(&["a", "b", "c"]));
    assert!(app.fetch_enabled());
}

#[test]
fn deleting_current_branch_moves_to_default_branch() {
    let mut repo = FakeRepo::new();
    repo.create_branch("topic1");
    repo.checkout(INITIAL_BRANCH).unwrap();
    repo.merge("topic1");
    repo.checkout("topic1").unwrap();

    let app = create_run_app(&[]);
    assert_eq!(remove_merged_branches(&app, &mut repo), Ok(()));
    assert_eq!(repo.list_branches(), &[INITIAL_BRANCH]);
    assert_eq!(repo.current, INITIAL_BRANCH);
}

#[test]
fn surviving_current_branch_is_checked_out_again() {
    let mut repo = FakeRepo::new();
    repo.create_branch("topic1");
    repo.checkout(INITIAL_BRANCH).unwrap();
    repo.merge("topic1");
    repo.create_branch("work");

    let app = create_run_app(&[]);
    let (result, _) = delete_branches(&app, &mut repo, strings(&["topic1", "work"]));
    assert_eq!(result, Ok(()));
    assert_eq!(repo.list_branches(), &[INITIAL_BRANCH, "work"]);
    assert_eq!(repo.current, "work");
}

#[test]
fn current_branch_without_fallback_is_not_deleted() {
    let mut repo = FakeRepo::new();
    repo.branch("topic1", INITIAL_BRANCH);
    repo.checkout("topic1").unwrap();

    let args = CliArgs { excluded: Vec::new(), no_fetch: true, yes: true };
    let app = App::new(&args, &Vec::new());
    assert_eq!(app.fallback_branch(&repo.list_branches()), None);
    let (result, warnings) = delete_branches(&app, &mut repo, strings(&["topic1"]));
    assert_eq!(result, Ok(()));
    assert!(matches!(warnings[0], DeleteWarning::NoFallback));
    assert_eq!(repo.list_branches(), &[INITIAL_BRANCH, "topic1"]);
    assert_eq!(repo.current, "topic1");
}

#[test]
fn fallback_is_first_protected_without_default() {
    let args = CliArgs { excluded: strings(&["stable", "main"]), no_fetch: true, yes: true };
    let app = App::new(&args, &Vec::new());
    assert_eq!(app.fallback_branch(&strings(&["main", "stable"])), Some("stable".to_string()));
    assert_eq!(app.fallback_branch(&strings(&["main", "topic"])), Some("main".to_string()));
    assert_eq!(app.fallback_branch(&strings(&["topic"])), None);
    let app = create_run_app(&["stable"]);
    assert_eq!(app.fallback_branch(&strings(&[INITIAL_BRANCH, "stable"])), Some(INITIAL_BRANCH.to_string()));
    assert_eq!(app.fallback_branch(&strings(&["stable"])), Some("stable".to_string()));
}

#[test]
fn failed_delete_is_a_warning() {
    let mut repo = FakeRepo::new();
    repo.branch("a", INITIAL_BRANCH);
    repo.branch("b", INITIAL_BRANCH);
    let app = create_run_app(&[]);
    let (result, warnings) = delete_branches(&app, &mut repo, strings(&["a", "a", "b"]));
    assert_eq!(result, Ok(()));
    assert!(matches!(&warnings[0], DeleteWarning::ListFailed(x) if x == "a"));
    assert_eq!(repo.list_branches(), &[INITIAL_BRANCH]);
}

#[test]
fn checked_out_branch_in_list_is_kept() {
    let mut repo = FakeRepo::new();
    repo.branch("topic1", INITIAL_BRANCH);
    let app = create_run_app(&[]);
    let (result, warnings) = delete_branches(&app, &mut repo, strings(&["topic1", INITIAL_BRANCH]));
    assert_eq!(result, Ok(()));
    assert!(matches!(&warnings[0], DeleteWarning::CheckedOut(b) if b == INITIAL_BRANCH));
    assert_eq!(repo.list_branches(), &[INITIAL_BRANCH]);
}

#[test]
fn co_candidate_is_not_a_container() {
    // x is merged only into y; y is merged into master.
    let mut repo = FakeRepo::new();
    repo.create_branch("y");
    repo.create_branch("x");
    repo.checkout("y").unwrap();
    repo.merge("x");
    repo.checkout(INITIAL_BRANCH).unwrap();
    repo.merge("y");

    let app = create_run_app(&[]);
    let plan = deletable_branches(&app, &repo);
    assert_eq!(plan.len(), 2);
    for info in &plan {
        assert_eq!(info.contained_in, strings(&[INITIAL_BRANCH]));
    }
}

#[test]
fn branch_contained_only_in_candidate_is_not_offered() {
    // x is merged only into y, and y shares its tip with z: both are
    // candidates, so x has no container left.
    let mut repo = FakeRepo::new();
    repo.create_branch("y");
    repo.create_branch("x");
    repo.checkout("y").unwrap();
    repo.merge("x");
    repo.branch("z", "y");

    let app = create_run_app(&[]);
    let plan = deletable_branches(&app, &repo);
    assert!(plan.is_empty());
}

#[test]
fn identical_plan_variants() {
    let app = create_run_app(&["kept"]);
    let group = strings(&["a", "b"]);
    match app.do_delete_identical_branches(&group, &strings(&["a", "b", "master"])) {
        IdenticalGroupPlan::DeleteAny(v) => assert_eq!(v, group),
        other => panic!("unexpected {:?}", other),
    }
    match app.do_delete_identical_branches(&group, &strings(&["a", "b"])) {
        IdenticalGroupPlan::KeepOne(v) => assert_eq!(v, group),
        other => panic!("unexpected {:?}", other),
    }
    let with_protected = strings(&["a", "kept"]);
    assert!(matches!(
        app.do_delete_identical_branches(&with_protected, &strings(&["a", "kept", "master"])),
        IdenticalGroupPlan::Keep
    ));
}

#[test]
fn groups_by_tip_keep_shared_tips_only() {
    let app = create_run_app(&[]);
    let pairs = vec![
        ("a".to_string(), "c1".to_string()),
        ("b".to_string(), "c2".to_string()),
        ("c".to_string(), "c1".to_string()),
        ("d".to_string(), "c3".to_string()),
        ("e".to_string(), "c3".to_string()),
    ];
    let groups = app.delete_identical_branches(&pairs);
    assert_eq!(groups.len(), 2);
    assert_eq!(groups[0].tip, "c1");
    assert_eq!(groups[0].branches, strings(&["a", "c"]));
    assert_eq!(groups[1].tip, "c3");
    assert_eq!(groups[1].branches, strings(&["d", "e"]));
}

#[test]
fn batch_keep_one_keeps_smallest_name() {
    let selected = BatchAppUi.select_identical_branches_to_delete_keep_one(&strings(&["topic3", "topic1", "topic2"]));
    assert_eq!(selected, strings(&["topic2", "topic3"]));
    let selected = BatchAppUi.select_identical_branches_to_delete_keep_one(&strings(&["c", "a", "b"]));
    assert_eq!(selected, strings(&["b", "c"]));
    let selected = BatchAppUi.select_identical_branches_to_delete_keep_one(&strings(&["ab", "a", "b"]));
    assert_eq!(selected, strings(&["ab", "b"]));
    let selected = BatchAppUi.select_identical_branches_to_delete_keep_one(&strings(&["b", "a", "a"]));
    assert_eq!(selected, strings(&["a", "b"]));
    let selected = BatchAppUi.select_identical_branches_to_delete_keep_one(&strings(&["only"]));
    assert!(selected.is_empty());
}

#[test]
fn keep_one_selection_validity() {
    let offered = strings(&["a", "b"]);
    assert!(keep_one_selection_is_valid(&offered, &strings(&["a"])));
    assert!(keep_one_selection_is_valid(&offered, &Vec::new()));
    assert!(!keep_one_selection_is_valid(&offered, &strings(&["b", "a"])));
}

#[test]
fn name_order() {
    assert!(name_less(&"a".to_string(), &"ab".to_string()));
    assert!(!name_less(&"ab".to_string(), &"a".to_string()));
    assert!(name_less(&"B".to_string(), &"a".to_string()));
    assert!(!name_less(&"x".to_string(), &"x".to_string()));
}

#[test]
fn working_tree_states() {
    assert_eq!(App::is_working_tree_clean(&None, &Ok(false)), Err(WorkingTreeProblem::NoCurrentBranch));
    let current = Some("master".to_string());
    assert_eq!(App::is_working_tree_clean(&current, &Ok(true)), Err(WorkingTreeProblem::UncommittedChanges));
    assert_eq!(
        App::is_working_tree_clean(&current, &Err(GitError::TerminatedBySignal)),
        Err(WorkingTreeProblem::StatusUnknown)
    );
    assert_eq!(App::is_working_tree_clean(&current, &Ok(false)), Ok(()));
}

#[test]
fn default_branch_resolution() {
    assert_eq!(App::get_default_branch(&strings(&["main"])), Some("main".to_string()));
    assert_eq!(App::get_default_branch(&strings(&["main", "other"])), None);
    assert_eq!(App::get_default_branch(&Vec::new()), None);

    let fetching = App::new(&CliArgs { excluded: Vec::new(), no_fetch: false, yes: true }, &Vec::new());
    let offline = App::new(&CliArgs { excluded: Vec::new(), no_fetch: true, yes: true }, &Vec::new());
    assert!(matches!(fetching.default_branch_step(Some("main".to_string())), DefaultBranchStep::Known(b) if b == "main"));
    assert!(matches!(fetching.default_branch_step(None), DefaultBranchStep::DetectFromRemote));
    assert!(matches!(offline.default_branch_step(None), DefaultBranchStep::AskUser));

    assert!(matches!(App::find_default_branch_from_git(Ok("main".to_string())), DefaultBranchStep::Known(b) if b == "main"));
    assert!(matches!(App::find_default_branch_from_git(Err(GitError::FailedToRunGit)), DefaultBranchStep::AskUser));
    assert_eq!(App::find_default_branch_from_user(Some("main".to_string())), Ok("main".to_string()));
    assert_eq!(App::find_default_branch_from_user(None), Err(AppError::InterruptedByUser));
}

#[test]
fn protected_branch_never_planned() {
    let mut repo = FakeRepo::new();
    repo.create_branch("release");
    repo.checkout(INITIAL_BRANCH).unwrap();
    repo.merge("release");
    repo.branch("release2", "release");
    let app = create_run_app(&["release", "release2"]);
    assert!(deletable_branches(&app, &repo).is_empty());
    assert_eq!(run_all(&app, &mut repo), Ok(()));
    assert_eq!(repo.list_branches(), &[INITIAL_BRANCH, "release", "release2"]);
}

#[test]
fn keep_one_group_keeps_exactly_one() {
    let mut repo = FakeRepo::new();
    repo.create_branch("topic2");
    repo.branch("topic1", "topic2");
    repo.branch("topic3", "topic2");
    let app = create_run_app(&[]);
    assert_eq!(run_all(&app, &mut repo), Ok(()));
    let left: BTreeSet<String> = repo.list_branches().into_iter().collect();
    assert_eq!(left.len(), 2);
    assert!(left.contains(INITIAL_BRANCH));
    assert!(left.contains("topic1"));
    assert_eq!(repo.current, INITIAL_BRANCH);
}

#[test]
fn missing_fallback_deletes_nothing() {
    let mut repo = FakeRepo::new();
    repo.branch("topic1", INITIAL_BRANCH);
    repo.checkout("topic1").unwrap();
    let app = create_app(&["gone"]);
    let (result, warnings) = delete_branches(&app, &mut repo, strings(&["topic1"]));
    assert_eq!(result, Ok(()));
    assert!(matches!(warnings[0], DeleteWarning::NoFallback));
    assert_eq!(repo.list_branches(), &[INITIAL_BRANCH, "topic1"]);
    assert_eq!(repo.current, "topic1");
}

#[test]
fn failed_move_to_fallback_deletes_nothing() {
    let app = create_run_app(&[]);
    let existing = strings(&[INITIAL_BRANCH, "topic1"]);
    let (mut deleter, step) = app.delete_branches("topic1".to_string(), strings(&["topic1"]), &existing);
    assert!(matches!(&step.action, DeleteAction::Checkout(b) if b == INITIAL_BRANCH));
    let step = deleter.step(DeleteEvent::CheckedOut(Err(GitError::CommandFailed { exit_code: 1 })));
    assert!(matches!(step.warning, Some(DeleteWarning::NoFallback)));
    assert!(matches!(step.action, DeleteAction::Finish));
    assert_eq!(deleter.result(), Ok(()));
    assert!(deleter.deleted_branches().is_empty());
}

#[test]
fn failed_return_to_original_branch_is_an_error() {
    let mut repo = FakeRepo::new();
    repo.branch("topic1", INITIAL_BRANCH);
    repo.create_branch("work");
    let app = create_run_app(&[]);
    let (mut deleter, step) = app.delete_branches("work".to_string(), strings(&["topic1", "work"]), &repo.list_branches());
    assert!(matches!(&step.action, DeleteAction::Checkout(b) if b == INITIAL_BRANCH));
    let step = deleter.step(DeleteEvent::CheckedOut(repo.checkout(INITIAL_BRANCH)));
    assert!(matches!(&step.action, DeleteAction::ListContaining(b) if b == "topic1"));
    let step = deleter.step(DeleteEvent::Listed(repo.list_branches_containing("topic1")));
    assert!(matches!(&step.action, DeleteAction::Delete(b) if b == "topic1"));
    let step = deleter.step(DeleteEvent::Deleted(Ok(())));
    assert!(matches!(&step.action, DeleteAction::ListContaining(b) if b == "work"));
    let step = deleter.step(DeleteEvent::Listed(Ok(strings(&["work"]))));
    assert!(matches!(&step.warning, Some(DeleteWarning::Unsafe(b)) if b == "work"));
    assert!(matches!(&step.action, DeleteAction::Checkout(b) if b == "work"));
    let step = deleter.step(DeleteEvent::CheckedOut(Err(GitError::TerminatedBySignal)));
    assert!(matches!(step.action, DeleteAction::Finish));
    assert!(deleter.is_finished());
    assert_eq!(deleter.result(), Err(AppError::Git(GitError::TerminatedBySignal)));
    assert_eq!(deleter.deleted_branches(), strings(&["topic1"]));
}

#[test]
fn unexpected_event_repeats_pending_action() {
    let app = create_run_app(&[]);
    let (mut deleter, step) = app.delete_branches(INITIAL_BRANCH.to_string(), strings(&["topic1"]), &strings(&[INITIAL_BRANCH, "topic1"]));
    assert!(matches!(&step.action, DeleteAction::ListContaining(b) if b == "topic1"));
    let step = deleter.step(DeleteEvent::Deleted(Ok(())));
    assert!(step.warning.is_none());
    assert!(matches!(&step.action, DeleteAction::ListContaining(b) if b == "topic1"));
    assert!(deleter.deleted_branches().is_empty());
}

#[test]
fn update_restore_failure_is_a_warning() {
    let app = create_run_app(&[]);
    let (mut updater, action) = app.update_tracking_branches("work".to_string(), Vec::new());
    assert!(matches!(&action, UpdateAction::Checkout(b) if b == "work"));
    let step = updater.step(UpdateEvent::CheckedOut(Err(GitError::FailedToRunGit)));
    assert!(matches!(&step.warning, Some(UpdateWarning::RestoreFailed(b)) if b == "work"));
    assert!(matches!(step.action, UpdateAction::Finish));
    assert!(updater.is_finished());
    assert_eq!(updater.result(), Ok(()));
}

#[test]
fn git_error_converts_to_app_error() {
    assert_eq!(AppError::from(GitError::FailedToRunGit), AppError::Git(GitError::FailedToRunGit));
}
