//! A model of a repository (branches pointing at commits, and which commit
//! reaches which) and what a deletion does to a repository that answers
//! each of its actions faithfully.
use vstd::prelude::*;
use crate::executor::{BranchDeleter, DeleteAction, DeleteEvent, DeletePhase, DeleteStep};
use crate::names::{has_name, name_set, nonempty};

verus! {

/// A repository: the tip commit of each branch, and the checked-out branch.
pub struct RepoModel {
    pub branches: Map<Seq<char>, Seq<char>>,
    pub head: Seq<char>,
}

/// `reaches(a, b)` says that commit `b` is in the history of commit `a`: a
/// commit reaches itself, and what it reaches, it reaches through.
pub open spec fn is_history(reaches: spec_fn(Seq<char>, Seq<char>) -> bool) -> bool {
    &&& forall|a: Seq<char>| #[trigger] reaches(a, a)
    &&& forall|a: Seq<char>, b: Seq<char>, c: Seq<char>|
        #[trigger] reaches(a, b) && #[trigger] reaches(b, c) ==> reaches(a, c)
}

/// The branches of `r` whose history holds `commit`.
pub open spec fn containing(
    r: RepoModel,
    reaches: spec_fn(Seq<char>, Seq<char>) -> bool,
    commit: Seq<char>,
) -> Set<Seq<char>> {
    Set::new(|n: Seq<char>| r.branches.contains_key(n) && reaches(r.branches[n], commit))
}

/// Some branch of `r` holds `commit` in its history.
pub open spec fn holds_commit(
    r: RepoModel,
    reaches: spec_fn(Seq<char>, Seq<char>) -> bool,
    commit: Seq<char>,
) -> bool {
    exists|n: Seq<char>| r.branches.contains_key(n) && #[trigger] reaches(r.branches[n], commit)
}

/// `r`, asked to do `a`, answers `e` and becomes `r2`, as a repository
/// does: a checkout succeeds only onto an existing branch, a listing names
/// exactly the branches that contain the branch, and a deletion succeeds
/// only on an existing branch that is not checked out. Any command may fail,
/// and a failed one changes nothing.
pub open spec fn answers(
    r: RepoModel,
    reaches: spec_fn(Seq<char>, Seq<char>) -> bool,
    a: DeleteAction,
    e: DeleteEvent,
    r2: RepoModel,
) -> bool {
    match a {
        DeleteAction::Checkout(b) => e is CheckedOut && match e->CheckedOut_0 {
            Ok(_) => r.branches.contains_key(b@) && r2 == RepoModel { branches: r.branches, head: b@ },
            Err(_) => r2 == r,
        },
        DeleteAction::ListContaining(b) => e is Listed && r2 == r && (e->Listed_0 matches Ok(list)
            ==> r.branches.contains_key(b@) && name_set(list@) == containing(r, reaches, r.branches[b@])),
        DeleteAction::Delete(b) => e is Deleted && match e->Deleted_0 {
            Ok(_) => {
                &&& r.branches.contains_key(b@)
                &&& b@ != r.head
                &&& r2 == RepoModel { branches: r.branches.remove(b@), head: r.head }
            },
            Err(_) => r2 == r,
        },
        DeleteAction::Finish => false,
    }
}

/// `r` is where a deletion `d`, started on the repository `r0`, has brought
/// it: the deleter's checked-out branch is the head and exists, only
/// branches that the deleter deleted are gone, no branch moved, and a
/// branch about to be deleted has its tip held by another branch.
pub open spec fn consistent(
    d: BranchDeleter,
    r: RepoModel,
    r0: RepoModel,
    reaches: spec_fn(Seq<char>, Seq<char>) -> bool,
) -> bool {
    &&& d.wf()
    &&& r.head == d.checked_out()
    &&& r.branches.contains_key(r.head)
    &&& forall|n: Seq<char>|
        #[trigger] r.branches.contains_key(n) ==> r0.branches.contains_key(n) && r.branches[n] == r0.branches[n]
    &&& forall|n: Seq<char>|
        #[trigger] r0.branches.contains_key(n) && !has_name(d.deleted(), n) ==> r.branches.contains_key(n)
    &&& (d.phase() == DeletePhase::Deleting ==> {
        &&& r.branches.contains_key(d.current_target())
        &&& exists|n: Seq<char>|
            n != d.current_target() && r.branches.contains_key(n) && #[trigger] reaches(
                r.branches[n],
                r.branches[d.current_target()],
            )
    })
}

/// A deletion started on a repository whose head is the current branch is
/// consistent with it.
pub proof fn law_start_is_consistent(
    d: BranchDeleter,
    step: DeleteStep,
    current: Seq<char>,
    to_delete: Seq<String>,
    fallback: Option<Seq<char>>,
    r0: RepoModel,
    reaches: spec_fn(Seq<char>, Seq<char>) -> bool,
)
    requires
        d.starts(step, current, to_delete, fallback),
        r0.head == current,
        r0.branches.contains_key(current),
    ensures
        consistent(d, r0, r0, reaches),
{
}

/// A step of a deletion against a repository that answers faithfully
/// keeps the two consistent: the repository is never left on a missing
/// branch, and loses only branches that the deleter deleted.
pub proof fn law_faithful_step_stays_consistent(
    d: BranchDeleter,
    a: DeleteAction,
    event: DeleteEvent,
    d2: BranchDeleter,
    step: DeleteStep,
    r: RepoModel,
    r2: RepoModel,
    r0: RepoModel,
    reaches: spec_fn(Seq<char>, Seq<char>) -> bool,
)
    requires
        consistent(d, r, r0, reaches),
        d.asks_for(a),
        answers(r, reaches, a, event, r2),
        BranchDeleter::steps_to(d, event, d2, step),
    ensures
        consistent(d2, r2, r0, reaches),
        r2.branches.contains_key(r2.head),
{
    if d.phase() == DeletePhase::Listing {
        if let DeleteEvent::Listed(Ok(list)) = event {
            if d2.phase() == DeletePhase::Deleting {
                let target = d.current_target();
                assert(nonempty(name_set(list@).remove(target)));
                let n = choose|n: Seq<char>| name_set(list@).remove(target).contains(n);
                assert(containing(r, reaches, r.branches[target]).contains(n));
            }
        }
    }
    if d.phase() == DeletePhase::Deleting {
        if let DeleteEvent::Deleted(Ok(_)) = event {
            let b = d.current_target();
            assert forall|n: Seq<char>| #[trigger] r0.branches.contains_key(n) && !has_name(d2.deleted(), n)
                implies r2.branches.contains_key(n) by {
                crate::names::lemma_has_name_push(d.deleted(), d.to_delete()[d.next()], n);
            }
        }
    }
}

/// A step of a deletion against a repository that answers faithfully never
/// loses history: a commit that some branch held is still held by one.
pub proof fn law_faithful_step_keeps_history(
    d: BranchDeleter,
    a: DeleteAction,
    event: DeleteEvent,
    d2: BranchDeleter,
    step: DeleteStep,
    r: RepoModel,
    r2: RepoModel,
    r0: RepoModel,
    reaches: spec_fn(Seq<char>, Seq<char>) -> bool,
    commit: Seq<char>,
)
    requires
        is_history(reaches),
        consistent(d, r, r0, reaches),
        d.asks_for(a),
        answers(r, reaches, a, event, r2),
        BranchDeleter::steps_to(d, event, d2, step),
        holds_commit(r, reaches, commit),
    ensures
        holds_commit(r2, reaches, commit),
{
    let n = choose|n: Seq<char>| r.branches.contains_key(n) && #[trigger] reaches(r.branches[n], commit);
    if let DeleteAction::Delete(b) = a {
        if let DeleteEvent::Deleted(Ok(_)) = event {
            if n == b@ {
                let m = choose|m: Seq<char>|
                    m != d.current_target() && r.branches.contains_key(m) && #[trigger] reaches(
                        r.branches[m],
                        r.branches[d.current_target()],
                    );
                assert(reaches(r.branches[m], commit));
                assert(r2.branches.contains_key(m) && r2.branches[m] == r.branches[m]);
                assert(reaches(r2.branches[m], commit));
            } else {
                assert(r2.branches.contains_key(n) && r2.branches[n] == r.branches[n]);
                assert(reaches(r2.branches[n], commit));
            }
        } else {
            assert(r2 == r);
            assert(reaches(r2.branches[n], commit));
        }
    } else {
        assert(r2.branches == r.branches);
        assert(reaches(r2.branches[n], commit));
    }
}

/// Of a group of branches that alone hold a commit in the repository where
/// the deletion started, some branch that holds the commit survives every
/// step against a repository that answers faithfully, whatever branches
/// were chosen for deletion.
pub proof fn law_group_keeps_a_member(
    d: BranchDeleter,
    a: DeleteAction,
    event: DeleteEvent,
    d2: BranchDeleter,
    step: DeleteStep,
    r: RepoModel,
    r2: RepoModel,
    r0: RepoModel,
    reaches: spec_fn(Seq<char>, Seq<char>) -> bool,
    group: Set<Seq<char>>,
    commit: Seq<char>,
)
    requires
        is_history(reaches),
        consistent(d, r, r0, reaches),
        d.asks_for(a),
        answers(r, reaches, a, event, r2),
        BranchDeleter::steps_to(d, event, d2, step),
        forall|n: Seq<char>| r0.branches.contains_key(n) && #[trigger] reaches(r0.branches[n], commit) ==> group.contains(n),
        exists|n: Seq<char>| group.contains(n) && r.branches.contains_key(n) && #[trigger] reaches(r.branches[n], commit),
    ensures
        exists|n: Seq<char>| group.contains(n) && r2.branches.contains_key(n) && #[trigger] reaches(r2.branches[n], commit),
{
    law_faithful_step_keeps_history(d, a, event, d2, step, r, r2, r0, reaches, commit);
    law_faithful_step_stays_consistent(d, a, event, d2, step, r, r2, r0, reaches);
    let n = choose|n: Seq<char>| r2.branches.contains_key(n) && #[trigger] reaches(r2.branches[n], commit);
    assert(r0.branches.contains_key(n) && r2.branches[n] == r0.branches[n]);
    assert(reaches(r0.branches[n], commit));
}

/// A deletion whose list names no protected branch leaves every protected
/// branch of the repository in place.
pub proof fn law_protected_branches_survive(
    d: BranchDeleter,
    r: RepoModel,
    r0: RepoModel,
    reaches: spec_fn(Seq<char>, Seq<char>) -> bool,
    protected: Set<Seq<char>>,
)
    requires
        consistent(d, r, r0, reaches),
        forall|k: int| 0 <= k < d.to_delete().len() ==> !protected.contains((#[trigger] d.to_delete()[k])@),
    ensures
        forall|n: Seq<char>| protected.contains(n) && #[trigger] r0.branches.contains_key(n) ==> r.branches.contains_key(n)
            && r.branches[n] == r0.branches[n],
{
    assert forall|n: Seq<char>| protected.contains(n) && #[trigger] r0.branches.contains_key(n)
        implies r.branches.contains_key(n) && r.branches[n] == r0.branches[n] by {
        if has_name(d.deleted(), n) {
            let j = choose|j: int| 0 <= j < d.deleted().len() && (#[trigger] d.deleted()[j])@ == n;
            assert(has_name(d.to_delete(), d.deleted()[j]@));
            let k = choose|k: int| 0 <= k < d.to_delete().len() && (#[trigger] d.to_delete()[k])@ == n;
        }
    }
}

} // verus!
