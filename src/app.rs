//! The protection policy and the decisions of a run, held by `App`.
use vstd::prelude::*;
use crate::error::{AppError, GitError};
use crate::executor::{BranchDeleter, DeleteStep};
use crate::identical::{
    group_by_tip, groups_by_tip, group_plan_is, identical_group_plan, IdenticalGroup,
    IdenticalGroupPlan,
};
use crate::merged::{deletable_branches, merged_plan, plan_view, BranchToDeleteInfo};
use crate::names::{contains_name, has_name, has_other_name, lemma_has_name_push, name_set, nonempty};
use crate::tracking::{TrackingUpdater, UpdateAction};

verus! {

/// The repository configuration key that holds the default branch.
pub const DEFAULT_BRANCH_CONFIG_KEY: &'static str = "git-bonsai.default-branch";

/// The repository configuration key that holds further protected branches.
pub const PROTECTED_BRANCHES_CONFIG_KEY: &'static str = "git-bonsai.protected-branches";

/// The options of a run.
pub struct CliArgs {
    /// Branches to protect from deletion, besides the default branch.
    pub excluded: Vec<String>,
    /// Do not fetch changes.
    pub no_fetch: bool,
    /// Ask nobody: take every choice offered.
    pub yes: bool,
}

/// Why the working tree is not fit for a run.
#[derive(Clone, Copy, Debug, PartialEq, Eq, Structural)]
pub enum WorkingTreeProblem {
    /// No branch is checked out.
    NoCurrentBranch,
    /// The working tree holds uncommitted changes.
    UncommittedChanges,
    /// The status of the working tree could not be read.
    StatusUnknown,
}

/// How to learn the default branch.
#[derive(Debug)]
pub enum DefaultBranchStep {
    /// It is this branch.
    Known(String),
    /// Ask the repository to detect it from its remote.
    DetectFromRemote,
    /// Ask the user to pick it.
    AskUser,
}

/// The first name of `list` that `existing` holds.
pub open spec fn first_present(list: Seq<String>, existing: Seq<String>) -> Option<Seq<char>>
    decreases list.len(),
{
    if list.len() == 0 {
        None
    } else if has_name(existing, list[0]@) {
        Some(list[0]@)
    } else {
        first_present(list.drop_first(), existing)
    }
}

/// The groups of `all` with two or more branches, in order.
pub open spec fn shared_groups(all: Seq<IdenticalGroup>) -> Seq<IdenticalGroup>
    decreases all.len(),
{
    if all.len() == 0 {
        all
    } else if all.last().branches.len() > 1 {
        shared_groups(all.drop_last()).push(all.last())
    } else {
        shared_groups(all.drop_last())
    }
}

/// The protection policy of a run, and the decisions taken under it.
pub struct App {
    protected_branches: Vec<String>,
    default_branch: Option<String>,
    fetch: bool,
}

impl App {
    /// The protected branches.
    pub closed spec fn protected(&self) -> Set<Seq<char>> {
        name_set(self.protected_branches@)
    }

    /// The default branch, once resolved.
    pub closed spec fn default_branch(&self) -> Option<Seq<char>> {
        match self.default_branch {
            Some(b) => Some(b@),
            None => None,
        }
    }

    /// Whether the run fetches changes.
    pub closed spec fn fetches(&self) -> bool {
        self.fetch
    }

    /// The protected branches, as held: each once.
    pub closed spec fn protected_list(&self) -> Seq<String> {
        self.protected_branches@
    }

    /// The default branch, once resolved, is protected, and each protected
    /// branch is held once.
    pub closed spec fn wf(&self) -> bool {
        &&& forall|i: int, j: int|
            0 <= i < j < self.protected_branches@.len() ==> (#[trigger] self.protected_branches@[i])@
                != (#[trigger] self.protected_branches@[j])@
        &&& (self.default_branch matches Some(d) ==> has_name(self.protected_branches@, d@))
    }

    #[verifier::type_invariant]
    spec fn inv(&self) -> bool {
        self.wf()
    }

    /// Adds `name` to the protected branches unless it is there.
    fn protect(&mut self, name: &String)
        ensures
            final(self).protected() == old(self).protected().insert(name@),
            final(self).default_branch() == old(self).default_branch(),
            final(self).fetches() == old(self).fetches(),
    {
        proof {
            use_type_invariant(&*self);
        }
        let ghost before = self.protected_branches@;
        if !contains_name(&self.protected_branches, name) {
            let copy = name.clone();
            proof {
                let after = before.push(copy);
                assert forall|s: Seq<char>| has_name(after, s) <==> (has_name(before, s) || s == name@) by {
                    lemma_has_name_push(before, copy, s);
                }
                assert(name_set(after) =~= name_set(before).insert(name@));
                assert forall|i: int, j: int| 0 <= i < j < after.len()
                    implies (#[trigger] after[i])@ != (#[trigger] after[j])@ by {
                    if j == before.len() {
                        if before[i]@ == name@ {
                            assert(has_name(before, name@));
                        }
                        assert(after[i] == before[i]);
                    } else {
                        assert(after[i] == before[i]);
                        assert(after[j] == before[j]);
                    }
                }
                if self.default_branch is Some {
                    let d = self.default_branch->Some_0;
                    assert(has_name(before, d@));
                    let k = choose|k: int| 0 <= k < before.len() && (#[trigger] before[k])@ == d@;
                    assert(after[k] == before[k]);
                }
            }
            let mut list = crate::names::copy_names(&self.protected_branches);
            list.push(copy);
            self.protected_branches = list;
        } else {
            assert(name_set(before) =~= name_set(before).insert(name@));
        }
    }

    /// A run protecting the branches that the repository configuration lists
    /// (`configured`) and those that the options exclude.
    pub fn new(args: &CliArgs, configured: &Vec<String>) -> (r: App)
        ensures
            r.protected() == name_set(configured@).union(name_set(args.excluded@)),
            r.default_branch() is None,
            r.fetches() == !args.no_fetch,
    {
        let mut app = App { protected_branches: Vec::new(), default_branch: None, fetch: !args.no_fetch };
        assert(name_set(app.protected_branches@) =~= Set::<Seq<char>>::empty());
        let mut i: usize = 0;
        while i < configured.len()
            invariant
                0 <= i <= configured.len(),
                app.default_branch() is None,
                app.fetches() == !args.no_fetch,
                app.protected() == name_set(configured@.subrange(0, i as int)),
            decreases configured.len() - i,
        {
            let ghost before = app.protected();
            app.protect(&configured[i]);
            proof {
                assert(configured@.subrange(0, i + 1) == configured@.subrange(0, i as int).push(configured@[i as int]));
                assert forall|s: Seq<char>| app.protected().contains(s) == name_set(configured@.subrange(0, i + 1)).contains(s) by {
                    lemma_has_name_push(configured@.subrange(0, i as int), configured@[i as int], s);
                    assert(name_set(configured@.subrange(0, i + 1)).contains(s) == has_name(configured@.subrange(0, i + 1), s));
                    assert(before.contains(s) == has_name(configured@.subrange(0, i as int), s));
                }
                assert(app.protected() =~= name_set(configured@.subrange(0, i + 1)));
            }
            i += 1;
        }
        let mut k: usize = 0;
        while k < args.excluded.len()
            invariant
                0 <= k <= args.excluded.len(),
                i == configured.len(),
                app.default_branch() is None,
                app.fetches() == !args.no_fetch,
                app.protected() == name_set(configured@.subrange(0, i as int)).union(name_set(args.excluded@.subrange(0, k as int))),
            decreases args.excluded.len() - k,
        {
            let ghost before = app.protected();
            app.protect(&args.excluded[k]);
            proof {
                let ex = args.excluded@;
                assert(ex.subrange(0, k + 1) == ex.subrange(0, k as int).push(ex[k as int]));
                assert forall|s: Seq<char>| app.protected().contains(s) == name_set(configured@.subrange(0, i as int)).union(name_set(ex.subrange(0, k + 1))).contains(s) by {
                    lemma_has_name_push(ex.subrange(0, k as int), ex[k as int], s);
                    assert(name_set(ex.subrange(0, k + 1)).contains(s) == has_name(ex.subrange(0, k + 1), s));
                    assert(name_set(ex.subrange(0, k as int)).contains(s) == has_name(ex.subrange(0, k as int), s));
                }
                assert(app.protected() =~= name_set(configured@.subrange(0, i as int)).union(name_set(ex.subrange(0, k + 1))));
            }
            k += 1;
        }
        assert(configured@.subrange(0, i as int) == configured@);
        assert(args.excluded@.subrange(0, k as int) == args.excluded@);
        app
    }

    /// The protected branches, each once.
    pub fn get_protected_branches(&self) -> (r: Vec<String>)
        ensures
            name_set(r@) == self.protected(),
            forall|i: int, j: int| 0 <= i < j < r.len() ==> (#[trigger] r@[i])@ != (#[trigger] r@[j])@,
    {
        proof {
            use_type_invariant(self);
        }
        crate::names::copy_names(&self.protected_branches)
    }

    /// Whether the run fetches changes.
    pub fn fetch_enabled(&self) -> (r: bool)
        ensures
            r == self.fetches(),
    {
        self.fetch
    }

    /// Whether a run may work in the working tree, from the checked-out
    /// branch (none when detached) and whether the tree has uncommitted
    /// changes, as the repository reported them.
    pub fn is_working_tree_clean(current_branch: &Option<String>, has_changes: &Result<bool, GitError>) -> (r: Result<(), WorkingTreeProblem>)
        ensures
            current_branch is None ==> r == Err::<(), WorkingTreeProblem>(WorkingTreeProblem::NoCurrentBranch),
            current_branch is Some && has_changes is Err ==> r == Err::<(), WorkingTreeProblem>(WorkingTreeProblem::StatusUnknown),
            current_branch is Some && has_changes == Ok::<bool, GitError>(true) ==> r == Err::<(), WorkingTreeProblem>(WorkingTreeProblem::UncommittedChanges),
            current_branch is Some && has_changes == Ok::<bool, GitError>(false) ==> r is Ok,
    {
        if current_branch.is_none() {
            return Err(WorkingTreeProblem::NoCurrentBranch);
        }
        match has_changes {
            Ok(true) => Err(WorkingTreeProblem::UncommittedChanges),
            Ok(false) => Ok(()),
            Err(_) => Err(WorkingTreeProblem::StatusUnknown),
        }
    }

    /// The default branch that the repository configuration holds: its value
    /// when the key holds exactly one.
    pub fn get_default_branch(config_values: &Vec<String>) -> (r: Option<String>)
        ensures
            config_values.len() == 1 ==> r == Some(config_values@[0]),
            config_values.len() != 1 ==> r is None,
    {
        if config_values.len() == 1 {
            Some(config_values[0].clone())
        } else {
            None
        }
    }

    /// How to learn the default branch, given the one found in the
    /// configuration, if any: without it, a run that fetches asks the
    /// remote, and one that does not asks the user.
    pub fn default_branch_step(&self, configured: Option<String>) -> (r: DefaultBranchStep)
        ensures
            configured matches Some(b) ==> r matches DefaultBranchStep::Known(k) && k == b,
            configured is None && self.fetches() ==> r is DetectFromRemote,
            configured is None && !self.fetches() ==> r is AskUser,
    {
        match configured {
            Some(b) => DefaultBranchStep::Known(b),
            None => if self.fetch {
                DefaultBranchStep::DetectFromRemote
            } else {
                DefaultBranchStep::AskUser
            },
        }
    }

    /// What follows the detection of the default branch: the branch found,
    /// or, if the detection failed, asking the user.
    pub fn find_default_branch_from_git(detected: Result<String, GitError>) -> (r: DefaultBranchStep)
        ensures
            detected matches Ok(b) ==> r matches DefaultBranchStep::Known(k) && k == b,
            detected is Err ==> r is AskUser,
    {
        match detected {
            Ok(b) => DefaultBranchStep::Known(b),
            Err(_) => DefaultBranchStep::AskUser,
        }
    }

    /// The default branch that the user picked; picking none interrupts the
    /// run.
    pub fn find_default_branch_from_user(choice: Option<String>) -> (r: Result<String, AppError>)
        ensures
            choice matches Some(b) ==> r == Ok::<String, AppError>(b),
            choice is None ==> r == Err::<String, AppError>(AppError::InterruptedByUser),
    {
        match choice {
            Some(b) => Ok(b),
            None => Err(AppError::InterruptedByUser),
        }
    }

    /// Records the default branch and protects it.
    pub fn add_default_branch_to_protected_branches(&mut self, default_branch: String)
        ensures
            final(self).protected() == old(self).protected().insert(default_branch@),
            final(self).default_branch() == Some(default_branch@),
            final(self).fetches() == old(self).fetches(),
    {
        self.protect(&default_branch);
        proof {
            use_type_invariant(&*self);
        }
        assert(self.protected().contains(default_branch@));
        assert(has_name(self.protected_branches@, default_branch@));
        self.default_branch = Some(default_branch);
    }

    /// The branch to move to when the checked-out branch is to be deleted,
    /// among the `existing` branches: the default branch once resolved and
    /// present, else the first protected branch present, else none.
    pub open spec fn fallback(&self, existing: Seq<String>) -> Option<Seq<char>> {
        if self.default_branch() matches Some(d) && has_name(existing, d) {
            self.default_branch()
        } else {
            first_present(self.protected_list(), existing)
        }
    }

    /// The branch to move to when the checked-out branch is to be deleted,
    /// among the `existing` branches: the default branch once resolved and
    /// present, else the first protected branch present, else none.
    pub fn fallback_branch(&self, existing: &Vec<String>) -> (r: Option<String>)
        ensures
            (match r {
                Some(b) => Some(b@),
                None => None,
            }) == self.fallback(existing@),
            r matches Some(b) ==> self.protected().contains(b@) && has_name(existing@, b@),
    {
        proof {
            use_type_invariant(self);
        }
        let default_present = match &self.default_branch {
            Some(d) => contains_name(existing, d),
            None => false,
        };
        if default_present {
            return self.default_branch.clone();
        }
        assert(!(self.default_branch() matches Some(d) && has_name(existing@, d)));
        let list = &self.protected_branches;
        let mut k: usize = 0;
        assert(list@.skip(0) =~= list@);
        while k < list.len()
            invariant
                0 <= k <= list.len(),
                list@ == self.protected_list(),
                first_present(list@, existing@) == first_present(list@.skip(k as int), existing@),
                !(self.default_branch() matches Some(d) && has_name(existing@, d)),
            decreases list.len() - k,
        {
            proof {
                assert(list@.skip(k as int)[0] == list@[k as int]);
                assert(list@.skip(k as int).drop_first() =~= list@.skip(k + 1));
            }
            if contains_name(existing, &list[k]) {
                assert(has_name(list@, list@[k as int]@));
                assert(first_present(list@.skip(k as int), existing@) == Some(list@[k as int]@));
                assert(self.fallback(existing@) == Some(list@[k as int]@));
                return Some(list[k].clone());
            }
            k += 1;
        }
        assert(list@.skip(k as int) =~= Seq::<String>::empty());
        None
    }

    /// The branches merged into another branch, offered for deletion under
    /// this run's protection; `containing[i]` is what the repository
    /// reported as containing `branches[i]`.
    pub fn get_deletable_branches(&self, branches: &Vec<String>, containing: &Vec<Vec<String>>) -> (r: Vec<BranchToDeleteInfo>)
        requires
            containing.len() == branches.len(),
        ensures
            plan_view(r@) == merged_plan(branches@, containing@, self.protected(), branches.len() as nat),
    {
        deletable_branches(branches, containing, &self.protected_branches)
    }

    /// The groups of two or more branches that share their tip, from the
    /// (branch, tip) pairs of the repository.
    pub fn delete_identical_branches(&self, branches_with_tips: &Vec<(String, String)>) -> (r: Vec<IdenticalGroup>)
        ensures
            forall|g: int| 0 <= g < r.len() ==> (#[trigger] r@[g]).branches.len() > 1,
            exists|all: Seq<IdenticalGroup>| groups_by_tip(branches_with_tips@, all) && r@ == shared_groups(all),
    {
        let mut rest = group_by_tip(branches_with_tips);
        let ghost all = rest@;
        let mut r: Vec<IdenticalGroup> = Vec::new();
        let ghost mut k: int = 0;
        while rest.len() > 0
            invariant
                0 <= k <= all.len(),
                rest@ == all.subrange(k, all.len() as int),
                r@ == shared_groups(all.subrange(0, k)),
                forall|g: int| 0 <= g < r.len() ==> (#[trigger] r@[g]).branches.len() > 1,
            decreases rest.len(),
        {
            let g = rest.remove(0);
            proof {
                assert(g == all[k]);
                assert(all.subrange(0, k + 1).drop_last() == all.subrange(0, k));
                assert(all.subrange(0, k + 1).last() == all[k]);
            }
            if g.branches.len() > 1 {
                r.push(g);
            }
            proof {
                k = k + 1;
                assert(rest@ =~= all.subrange(k, all.len() as int));
            }
        }
        assert(all.subrange(0, all.len() as int) == all);
        r
    }

    /// Which branches of a group that shares a tip may be deleted, under this
    /// run's protection; `containing` is what the repository reported as
    /// containing the shared tip.
    pub fn do_delete_identical_branches(&self, group: &Vec<String>, containing: &Vec<String>) -> (r: IdenticalGroupPlan)
        ensures
            group_plan_is(r, group@, containing@, self.protected()),
    {
        identical_group_plan(group, containing, &self.protected_branches)
    }

    /// Whether `branch` may be deleted: some other branch must contain it,
    /// as `containing` (what the repository reported) shows.
    pub fn safe_delete_branch(branch: &String, containing: &Vec<String>) -> (r: Result<(), AppError>)
        ensures
            r is Ok <==> nonempty(name_set(containing@).remove(branch@)),
            r is Err ==> r == Err::<(), AppError>(AppError::UnsafeDelete),
    {
        if has_other_name(containing, branch) {
            Ok(())
        } else {
            Err(AppError::UnsafeDelete)
        }
    }

    /// Starts deleting `branches` while `current` is checked out, with this
    /// run's fallback branch among the `existing` ones.
    pub fn delete_branches(&self, current: String, branches: Vec<String>, existing: &Vec<String>) -> (r: (BranchDeleter, DeleteStep))
        ensures
            r.0.starts(r.1, current@, branches@, self.fallback(existing@)),
            self.fallback(existing@) matches Some(f) ==> self.protected().contains(f) && has_name(existing@, f),
    {
        let fallback = self.fallback_branch(existing);
        BranchDeleter::new(current, branches, fallback)
    }

    /// Starts updating the tracking branches while `current` is checked out.
    pub fn update_tracking_branches(&self, current: String, tracking: Vec<String>) -> (r: (TrackingUpdater, UpdateAction))
        ensures
            r.0.wf(),
            r.0.settled(),
            r.0.asks_for(r.1),
            r.0.branches() == tracking@,
            r.0.starting() == current@,
            r.0.next() == 0,
            r.0.failure() is None,
    {
        TrackingUpdater::new(current, tracking)
    }
}

} // verus!
