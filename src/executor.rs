//! Deletion of a confirmed list of branches, one repository command at a
//! time. The caller performs each action that the deleter asks for and hands
//! back what came of it.
use vstd::prelude::*;
use crate::error::{AppError, GitError};
use crate::names::{has_name, contains_name, has_other_name, name_set, nonempty, lemma_has_name_push};

verus! {

/// What the caller is asked to do next.
#[derive(Debug)]
pub enum DeleteAction {
    /// Check out this branch.
    Checkout(String),
    /// List the branches that contain this branch.
    ListContaining(String),
    /// Delete this branch.
    Delete(String),
    /// Nothing more: the outcome is known.
    Finish,
}

/// What came of the last action.
#[derive(Debug)]
pub enum DeleteEvent {
    CheckedOut(Result<(), GitError>),
    Listed(Result<Vec<String>, GitError>),
    Deleted(Result<(), GitError>),
}

/// Something to report to the user; none of these stops the deletions.
#[derive(Debug)]
pub enum DeleteWarning {
    /// The checked-out branch is to be deleted and there is no branch to
    /// move to, or moving there failed: nothing is deleted.
    NoFallback,
    /// No other branch contains this one: it is kept.
    Unsafe(String),
    /// This branch is the one checked out: it is kept.
    CheckedOut(String),
    /// The branches containing this one could not be listed: it is kept.
    ListFailed(String),
    /// Deleting this branch failed.
    DeleteFailed(String),
}

/// The next action, with what to report first.
#[derive(Debug)]
pub struct DeleteStep {
    pub warning: Option<DeleteWarning>,
    pub action: DeleteAction,
}

/// Where the deleter stands.
#[derive(Clone, Copy, Debug, PartialEq, Eq, Structural)]
pub enum DeletePhase {
    /// Moving off the checked-out branch, which is to be deleted.
    SwitchingAway,
    /// Waiting for the branches that contain the next branch.
    Listing,
    /// Waiting for the deletion of the next branch.
    Deleting,
    /// Checking the starting branch out again.
    Restoring,
    Finished,
}

/// A deletion in progress.
pub struct BranchDeleter {
    to_delete: Vec<String>,
    starting: String,
    fallback: Option<String>,
    checked_out: String,
    next: usize,
    deleted: Vec<String>,
    phase: DeletePhase,
    outcome: Result<(), AppError>,
}

/// The name a warning is about, if any.
pub open spec fn warning_names(w: DeleteWarning, name: Seq<char>) -> bool {
    match w {
        DeleteWarning::NoFallback => false,
        DeleteWarning::Unsafe(b) => b@ == name,
        DeleteWarning::CheckedOut(b) => b@ == name,
        DeleteWarning::ListFailed(b) => b@ == name,
        DeleteWarning::DeleteFailed(b) => b@ == name,
    }
}

impl BranchDeleter {
    /// The branches to delete, in order.
    pub closed spec fn to_delete(&self) -> Seq<String> {
        self.to_delete@
    }

    /// The branch checked out when the deletion began.
    pub closed spec fn starting(&self) -> Seq<char> {
        self.starting@
    }

    /// The branch to move to if the starting branch is to be deleted.
    pub closed spec fn fallback(&self) -> Option<Seq<char>> {
        match self.fallback {
            Some(f) => Some(f@),
            None => None,
        }
    }

    /// The branch checked out now.
    pub closed spec fn checked_out(&self) -> Seq<char> {
        self.checked_out@
    }

    /// How many branches of the list have been dealt with.
    pub closed spec fn next(&self) -> int {
        self.next as int
    }

    /// The branches deleted so far.
    pub closed spec fn deleted(&self) -> Seq<String> {
        self.deleted@
    }

    pub closed spec fn phase(&self) -> DeletePhase {
        self.phase
    }

    /// How the deletion ended, once it has.
    pub closed spec fn outcome(&self) -> Result<(), AppError> {
        self.outcome
    }

    /// The branch that the list holds at position `next`.
    pub open spec fn current_target(&self) -> Seq<char> {
        self.to_delete()[self.next()]@
    }

    /// Where the deleter goes once it is done with the branches before
    /// `next`: on to the next branch, back to the starting branch, or to the
    /// end.
    pub open spec fn settled(&self) -> bool {
        if self.next() < self.to_delete().len() {
            self.phase() == DeletePhase::Listing
        } else if !has_name(self.deleted(), self.starting()) && self.checked_out() != self.starting() {
            self.phase() == DeletePhase::Restoring
        } else {
            self.phase() == DeletePhase::Finished && self.outcome() is Ok
        }
    }

    /// `a` is the action that the deleter waits on.
    pub open spec fn asks_for(&self, a: DeleteAction) -> bool {
        match self.phase() {
            DeletePhase::SwitchingAway => a is Checkout && self.fallback() == Some(a->Checkout_0@),
            DeletePhase::Listing => a is ListContaining && a->ListContaining_0@ == self.current_target(),
            DeletePhase::Deleting => a is Delete && a->Delete_0@ == self.current_target(),
            DeletePhase::Restoring => a is Checkout && a->Checkout_0@ == self.starting(),
            DeletePhase::Finished => a is Finish,
        }
    }

    /// The invariant of a deletion in progress.
    pub open spec fn wf(&self) -> bool {
        &&& 0 <= self.next() <= self.to_delete().len()
        &&& (self.checked_out() == self.starting() || self.fallback() == Some(self.checked_out()))
        &&& !has_name(self.deleted(), self.checked_out())
        &&& forall|k: int| 0 <= k < self.deleted().len() ==> has_name(self.to_delete(), (#[trigger] self.deleted()[k])@)
        &&& (self.phase() == DeletePhase::SwitchingAway ==> {
            &&& self.next() == 0
            &&& self.deleted().len() == 0
            &&& self.checked_out() == self.starting()
            &&& self.fallback() is Some
        })
        &&& (self.phase() == DeletePhase::Listing ==> self.next() < self.to_delete().len())
        &&& (self.phase() == DeletePhase::Deleting ==> {
            &&& self.next() < self.to_delete().len()
            &&& self.current_target() != self.checked_out()
        })
        &&& (self.phase() == DeletePhase::Restoring ==> {
            &&& self.next() == self.to_delete().len()
            &&& !has_name(self.deleted(), self.starting())
        })
        &&& (self.phase() == DeletePhase::Finished && self.outcome() is Ok ==> (has_name(
            self.deleted(),
            self.starting(),
        ) || self.checked_out() == self.starting()))
    }

    /// `self` has just started deleting `to_delete` while `current` is
    /// checked out, with `fallback` to move to, and `step` is its first step.
    pub open spec fn starts(
        &self,
        step: DeleteStep,
        current: Seq<char>,
        to_delete: Seq<String>,
        fallback: Option<Seq<char>>,
    ) -> bool {
        &&& self.wf()
        &&& self.asks_for(step.action)
        &&& self.to_delete() == to_delete
        &&& self.starting() == current
        &&& self.checked_out() == current
        &&& self.fallback() == fallback
        &&& self.next() == 0
        &&& self.deleted().len() == 0
        &&& (has_name(to_delete, current) && fallback is None ==> {
            &&& self.phase() == DeletePhase::Finished
            &&& self.outcome() is Ok
            &&& step.warning == Some(DeleteWarning::NoFallback)
        })
        &&& (has_name(to_delete, current) && fallback is Some ==> {
            &&& self.phase() == DeletePhase::SwitchingAway
            &&& step.warning is None
        })
        &&& (!has_name(to_delete, current) ==> self.settled() && step.warning is None)
    }

    /// Moves on once the branches before `next` are dealt with.
    fn settle(&mut self) -> (r: DeleteAction)
        requires
            old(self).next() <= old(self).to_delete().len(),
        ensures
            final(self).settled(),
            final(self).asks_for(r),
            final(self).to_delete() == old(self).to_delete(),
            final(self).starting() == old(self).starting(),
            final(self).fallback() == old(self).fallback(),
            final(self).checked_out() == old(self).checked_out(),
            final(self).next() == old(self).next(),
            final(self).deleted() == old(self).deleted(),
            final(self).phase() != DeletePhase::Finished ==> final(self).outcome() == old(self).outcome(),
    {
        if self.next < self.to_delete.len() {
            self.phase = DeletePhase::Listing;
            DeleteAction::ListContaining(self.to_delete[self.next].clone())
        } else if !contains_name(&self.deleted, &self.starting) && self.checked_out != self.starting {
            self.phase = DeletePhase::Restoring;
            DeleteAction::Checkout(self.starting.clone())
        } else {
            self.phase = DeletePhase::Finished;
            self.outcome = Ok(());
            DeleteAction::Finish
        }
    }

    /// Starts deleting `to_delete` while `current` is checked out. If
    /// `current` is to be deleted, the deleter first moves to `fallback`; with
    /// no fallback it deletes nothing and says so.
    pub fn new(current: String, to_delete: Vec<String>, fallback: Option<String>) -> (r: (
        BranchDeleter,
        DeleteStep,
    ))
        ensures
            r.0.starts(r.1, current@, to_delete@, match fallback {
                Some(f) => Some(f@),
                None => None,
            }),
    {
        let slated = contains_name(&to_delete, &current);
        let mut d = BranchDeleter {
            to_delete,
            starting: current.clone(),
            fallback: None,
            checked_out: current,
            next: 0,
            deleted: Vec::new(),
            phase: DeletePhase::Finished,
            outcome: Ok(()),
        };
        if slated {
            match fallback {
                Some(f) => {
                    d.fallback = Some(f.clone());
                    d.phase = DeletePhase::SwitchingAway;
                    (d, DeleteStep { warning: None, action: DeleteAction::Checkout(f) })
                },
                None => (d, DeleteStep { warning: Some(DeleteWarning::NoFallback), action: DeleteAction::Finish }),
            }
        } else {
            d.fallback = fallback;
            let action = d.settle();
            (d, DeleteStep { warning: None, action })
        }
    }

    /// Whether the deleter is done.
    pub fn is_finished(&self) -> (r: bool)
        ensures
            r == (self.phase() == DeletePhase::Finished),
    {
        self.phase == DeletePhase::Finished
    }

    /// How the deletion ended, once it has.
    pub fn result(&self) -> (r: Result<(), AppError>)
        ensures
            r == self.outcome(),
    {
        self.outcome
    }

    /// The branches deleted so far.
    pub fn deleted_branches(&self) -> (r: Vec<String>)
        ensures
            r@ == self.deleted(),
    {
        crate::names::copy_names(&self.deleted)
    }

    /// Moves on by one branch after a warning about it.
    fn skip_current(&mut self) -> (r: DeleteAction)
        requires
            old(self).next() < old(self).to_delete().len(),
        ensures
            final(self).settled(),
            final(self).asks_for(r),
            final(self).to_delete() == old(self).to_delete(),
            final(self).starting() == old(self).starting(),
            final(self).fallback() == old(self).fallback(),
            final(self).checked_out() == old(self).checked_out(),
            final(self).next() == old(self).next() + 1,
            final(self).deleted() == old(self).deleted(),
    {
        let n = self.to_delete.len();
        assert(self.next < n);
        self.next = self.next + 1;
        self.settle()
    }

    /// `post` and `step` are what the deleter becomes and says when, in
    /// state `pre`, it takes `event`.
    pub open spec fn steps_to(pre: BranchDeleter, event: DeleteEvent, post: BranchDeleter, step: DeleteStep) -> bool {
        &&& (post.wf())
        &&& (post.asks_for(step.action))
        &&& (post.to_delete() == pre.to_delete())
        &&& (post.starting() == pre.starting())
        &&& (post.fallback() == pre.fallback())
        &&& (pre.phase() == DeletePhase::SwitchingAway && event is CheckedOut ==> {
                &&& post.deleted() == pre.deleted()
                &&& match event->CheckedOut_0 {
                    Ok(_) => {
                        &&& Some(post.checked_out()) == pre.fallback()
                        &&& post.next() == 0
                        &&& post.settled()
                        &&& step.warning is None
                    },
                    Err(_) => {
                        &&& post.checked_out() == pre.checked_out()
                        &&& post.phase() == DeletePhase::Finished
                        &&& post.outcome() is Ok
                        &&& step.warning == Some(DeleteWarning::NoFallback)
                    },
                }
            })
        &&& (pre.phase() == DeletePhase::Listing && event is Listed ==> {
                let target = pre.current_target();
                &&& post.checked_out() == pre.checked_out()
                &&& post.deleted() == pre.deleted()
                &&& match event->Listed_0 {
                    Ok(list) => if target == pre.checked_out() {
                        &&& step.warning matches Some(DeleteWarning::CheckedOut(b)) && b@ == target
                        &&& post.next() == pre.next() + 1
                        &&& post.settled()
                    } else if !nonempty(name_set(list@).remove(target)) {
                        &&& step.warning matches Some(DeleteWarning::Unsafe(b)) && b@ == target
                        &&& post.next() == pre.next() + 1
                        &&& post.settled()
                    } else {
                        &&& step.warning is None
                        &&& post.next() == pre.next()
                        &&& post.phase() == DeletePhase::Deleting
                    },
                    Err(_) => {
                        &&& step.warning matches Some(DeleteWarning::ListFailed(b)) && b@ == target
                        &&& post.next() == pre.next() + 1
                        &&& post.settled()
                    },
                }
            })
        &&& (pre.phase() == DeletePhase::Deleting && event is Deleted ==> {
                &&& post.checked_out() == pre.checked_out()
                &&& post.next() == pre.next() + 1
                &&& post.settled()
                &&& match event->Deleted_0 {
                    Ok(_) => {
                        &&& post.deleted() == pre.deleted().push(pre.to_delete()[pre.next()])
                        &&& step.warning is None
                    },
                    Err(_) => {
                        &&& post.deleted() == pre.deleted()
                        &&& step.warning matches Some(DeleteWarning::DeleteFailed(b)) && b@ == pre.current_target()
                    },
                }
            })
        &&& (pre.phase() == DeletePhase::Restoring && event is CheckedOut ==> {
                &&& post.deleted() == pre.deleted()
                &&& post.phase() == DeletePhase::Finished
                &&& step.warning is None
                &&& match event->CheckedOut_0 {
                    Ok(_) => {
                        &&& post.checked_out() == pre.starting()
                        &&& post.outcome() is Ok
                    },
                    Err(e) => {
                        &&& post.checked_out() == pre.checked_out()
                        &&& post.outcome() == Err::<(), AppError>(AppError::Git(e))
                    },
                }
            })
        &&& (!(pre.phase() == DeletePhase::SwitchingAway && event is CheckedOut)
                && !(pre.phase() == DeletePhase::Listing && event is Listed)
                && !(pre.phase() == DeletePhase::Deleting && event is Deleted)
                && !(pre.phase() == DeletePhase::Restoring && event is CheckedOut) ==> {
                &&& post.checked_out() == pre.checked_out()
                &&& post.deleted() == pre.deleted()
                &&& post.next() == pre.next()
                &&& post.phase() == pre.phase()
                &&& post.outcome() == pre.outcome()
                &&& step.warning is None
            })
    }

    /// Takes what came of the last action and says what to do next. An
    /// event that does not answer the pending action changes nothing.
    pub fn step(&mut self, event: DeleteEvent) -> (r: DeleteStep)
        requires
            old(self).wf(),
        ensures
            Self::steps_to(*old(self), event, *final(self), r),

    {
        match (self.phase, event) {
            (DeletePhase::SwitchingAway, DeleteEvent::CheckedOut(res)) => {
                match res {
                    Ok(()) => {
                        let f = match &self.fallback {
                            Some(f) => f.clone(),
                            None => self.checked_out.clone(),
                        };
                        self.checked_out = f;
                        let action = self.settle();
                        DeleteStep { warning: None, action }
                    },
                    Err(_) => {
                        self.phase = DeletePhase::Finished;
                        self.outcome = Ok(());
                        DeleteStep { warning: Some(DeleteWarning::NoFallback), action: DeleteAction::Finish }
                    },
                }
            },
            (DeletePhase::Listing, DeleteEvent::Listed(res)) => {
                let target = self.to_delete[self.next].clone();
                match res {
                    Ok(list) => {
                        if target == self.checked_out {
                            let action = self.skip_current();
                            DeleteStep { warning: Some(DeleteWarning::CheckedOut(target)), action }
                        } else if !has_other_name(&list, &target) {
                            let action = self.skip_current();
                            DeleteStep { warning: Some(DeleteWarning::Unsafe(target)), action }
                        } else {
                            self.phase = DeletePhase::Deleting;
                            DeleteStep { warning: None, action: DeleteAction::Delete(target) }
                        }
                    },
                    Err(_) => {
                        let action = self.skip_current();
                        DeleteStep { warning: Some(DeleteWarning::ListFailed(target)), action }
                    },
                }
            },
            (DeletePhase::Deleting, DeleteEvent::Deleted(res)) => {
                let target = self.to_delete[self.next].clone();
                match res {
                    Ok(()) => {
                        let ghost before = self.deleted@;
                        self.deleted.push(target);
                        proof {
                            assert forall|s: Seq<char>| has_name(self.deleted@, s) implies has_name(self.to_delete@, s) by {
                                lemma_has_name_push(before, target, s);
                                if s == target@ {
                                    assert(self.to_delete@[self.next as int] == target);
                                }
                            }
                            assert forall|k: int| 0 <= k < self.deleted@.len() implies has_name(self.to_delete@, (#[trigger] self.deleted@[k])@) by {
                                assert(has_name(self.deleted@, self.deleted@[k]@));
                            }
                            lemma_has_name_push(before, target, self.checked_out@);
                            lemma_has_name_push(before, target, self.starting@);
                        }
                        let action = self.skip_current();
                        DeleteStep { warning: None, action }
                    },
                    Err(_) => {
                        let action = self.skip_current();
                        DeleteStep { warning: Some(DeleteWarning::DeleteFailed(target)), action }
                    },
                }
            },
            (DeletePhase::Restoring, DeleteEvent::CheckedOut(res)) => {
                self.phase = DeletePhase::Finished;
                match res {
                    Ok(()) => {
                        self.checked_out = self.starting.clone();
                        self.outcome = Ok(());
                    },
                    Err(e) => {
                        self.outcome = Err(AppError::Git(e));
                    },
                }
                DeleteStep { warning: None, action: DeleteAction::Finish }
            },
            _ => {
                let action = self.pending_action();
                DeleteStep { warning: None, action }
            },
        }
    }

    /// The action that the deleter waits on.
    fn pending_action(&self) -> (r: DeleteAction)
        requires
            self.wf(),
        ensures
            self.asks_for(r),
    {
        match self.phase {
            DeletePhase::SwitchingAway => {
                let f = match &self.fallback {
                    Some(f) => f.clone(),
                    None => self.checked_out.clone(),
                };
                DeleteAction::Checkout(f)
            },
            DeletePhase::Listing => DeleteAction::ListContaining(self.to_delete[self.next].clone()),
            DeletePhase::Deleting => DeleteAction::Delete(self.to_delete[self.next].clone()),
            DeletePhase::Restoring => DeleteAction::Checkout(self.starting.clone()),
            DeletePhase::Finished => DeleteAction::Finish,
        }
    }
}

/// At every point of a deletion the branch checked out is one that was
/// never deleted: the starting branch or the fallback. Once the deletion is
/// over, if the starting branch was deleted the fallback is checked out, and
/// if it survived and the deletion went through, it is checked out again.
pub proof fn law_deletion_keeps_a_surviving_branch_checked_out(d: BranchDeleter)
    requires
        d.wf(),
    ensures
        !has_name(d.deleted(), d.checked_out()),
        d.checked_out() == d.starting() || d.fallback() == Some(d.checked_out()),
        d.phase() == DeletePhase::Finished && has_name(d.deleted(), d.starting()) ==> d.fallback() == Some(
            d.checked_out(),
        ),
        d.phase() == DeletePhase::Finished && d.outcome() is Ok && !has_name(d.deleted(), d.starting())
            ==> d.checked_out() == d.starting(),
{
}

/// A deletion removes only listed branches: of a group with a branch left
/// out of the list, some branch survives.
pub proof fn law_unlisted_branch_survives(d: BranchDeleter, group: Seq<String>)
    requires
        d.wf(),
        exists|k: int| 0 <= k < group.len() && !has_name(d.to_delete(), (#[trigger] group[k])@),
    ensures
        exists|k: int| 0 <= k < group.len() && !has_name(d.deleted(), (#[trigger] group[k])@),
{
    let k = choose|k: int| 0 <= k < group.len() && !has_name(d.to_delete(), (#[trigger] group[k])@);
    if has_name(d.deleted(), group[k]@) {
        let j = choose|j: int| 0 <= j < d.deleted().len() && (#[trigger] d.deleted()[j])@ == group[k]@;
        assert(has_name(d.to_delete(), d.deleted()[j]@));
    }
}

} // verus!
