//! Fast-forward update of the branches that track a remote branch, one
//! repository command at a time, with the starting branch checked out again
//! at the end.
use vstd::prelude::*;
use crate::error::{AppError, GitError};

verus! {

/// What the caller is asked to do next.
#[derive(Debug)]
pub enum UpdateAction {
    /// Check out this branch.
    Checkout(String),
    /// Fast-forward the checked-out branch to its remote branch.
    FastForward,
    /// Nothing more: the outcome is known.
    Finish,
}

/// What came of the last action.
#[derive(Debug)]
pub enum UpdateEvent {
    CheckedOut(Result<(), GitError>),
    FastForwarded(Result<(), GitError>),
}

/// Something to report to the user; none of these stops the run.
#[derive(Debug)]
pub enum UpdateWarning {
    /// This branch could not be fast-forwarded (its history has diverged from
    /// the remote one): it is left as it was.
    UpdateFailed(String),
    /// The starting branch could not be checked out again.
    RestoreFailed(String),
}

/// The next action, with what to report first.
#[derive(Debug)]
pub struct UpdateStep {
    pub warning: Option<UpdateWarning>,
    pub action: UpdateAction,
}

/// Where the updater stands.
#[derive(Clone, Copy, Debug, PartialEq, Eq, Structural)]
pub enum UpdatePhase {
    CheckingOut,
    Updating,
    Restoring,
    Finished,
}

/// An update of the tracking branches in progress.
pub struct TrackingUpdater {
    branches: Vec<String>,
    starting: String,
    next: usize,
    failure: Option<GitError>,
    phase: UpdatePhase,
    outcome: Result<(), AppError>,
}

impl TrackingUpdater {
    /// The branches to update, in order.
    pub closed spec fn branches(&self) -> Seq<String> {
        self.branches@
    }

    /// The branch checked out when the update began.
    pub closed spec fn starting(&self) -> Seq<char> {
        self.starting@
    }

    /// How many branches have been dealt with.
    pub closed spec fn next(&self) -> int {
        self.next as int
    }

    /// The checkout failure that cut the update short, if any.
    pub closed spec fn failure(&self) -> Option<GitError> {
        self.failure
    }

    pub closed spec fn phase(&self) -> UpdatePhase {
        self.phase
    }

    /// How the update ended, once it has.
    pub closed spec fn outcome(&self) -> Result<(), AppError> {
        self.outcome
    }

    /// `a` is the action that the updater waits on.
    pub open spec fn asks_for(&self, a: UpdateAction) -> bool {
        match self.phase() {
            UpdatePhase::CheckingOut => a is Checkout && a->Checkout_0@ == self.branches()[self.next()]@,
            UpdatePhase::Updating => a is FastForward,
            UpdatePhase::Restoring => a is Checkout && a->Checkout_0@ == self.starting(),
            UpdatePhase::Finished => a is Finish,
        }
    }

    /// The invariant of an update in progress.
    pub open spec fn wf(&self) -> bool {
        &&& 0 <= self.next() <= self.branches().len()
        &&& (self.phase() == UpdatePhase::CheckingOut || self.phase() == UpdatePhase::Updating)
            ==> self.next() < self.branches().len() && self.failure() is None
        &&& (self.phase() == UpdatePhase::Finished ==> self.outcome() == match self.failure() {
            Some(e) => Err::<(), AppError>(AppError::Git(e)),
            None => Ok(()),
        })
    }

    /// Where the updater goes once it is done with the branches before
    /// `next`: on to the next branch, or back to the starting one.
    pub open spec fn settled(&self) -> bool {
        if self.next() < self.branches().len() {
            self.phase() == UpdatePhase::CheckingOut
        } else {
            self.phase() == UpdatePhase::Restoring
        }
    }

    fn settle(&mut self) -> (r: UpdateAction)
        requires
            old(self).next() <= old(self).branches().len(),
        ensures
            final(self).settled(),
            final(self).asks_for(r),
            final(self).branches() == old(self).branches(),
            final(self).starting() == old(self).starting(),
            final(self).next() == old(self).next(),
            final(self).failure() == old(self).failure(),
            final(self).outcome() == old(self).outcome(),
    {
        if self.next < self.branches.len() {
            self.phase = UpdatePhase::CheckingOut;
            UpdateAction::Checkout(self.branches[self.next].clone())
        } else {
            self.phase = UpdatePhase::Restoring;
            UpdateAction::Checkout(self.starting.clone())
        }
    }

    /// Starts updating `branches` while `starting` is checked out.
    pub fn new(starting: String, branches: Vec<String>) -> (r: (TrackingUpdater, UpdateAction))
        ensures
            r.0.wf(),
            r.0.settled(),
            r.0.asks_for(r.1),
            r.0.branches() == branches@,
            r.0.starting() == starting@,
            r.0.next() == 0,
            r.0.failure() is None,
    {
        let mut u = TrackingUpdater {
            branches,
            starting,
            next: 0,
            failure: None,
            phase: UpdatePhase::Finished,
            outcome: Ok(()),
        };
        let action = u.settle();
        (u, action)
    }

    /// Whether the updater is done.
    pub fn is_finished(&self) -> (r: bool)
        ensures
            r == (self.phase() == UpdatePhase::Finished),
    {
        self.phase == UpdatePhase::Finished
    }

    /// How the update ended, once it has.
    pub fn result(&self) -> (r: Result<(), AppError>)
        ensures
            r == self.outcome(),
    {
        self.outcome
    }

    /// `post` and `step` are what the updater becomes and says when, in
    /// state `pre`, it takes `event`.
    pub open spec fn steps_to(pre: TrackingUpdater, event: UpdateEvent, post: TrackingUpdater, step: UpdateStep) -> bool {
        &&& (post.wf())
        &&& (post.asks_for(step.action))
        &&& (post.branches() == pre.branches())
        &&& (post.starting() == pre.starting())
        &&& (pre.phase() == UpdatePhase::CheckingOut && event is CheckedOut ==> {
                &&& post.next() == pre.next()
                &&& step.warning is None
                &&& match event->CheckedOut_0 {
                    Ok(_) => post.phase() == UpdatePhase::Updating && post.failure() is None,
                    Err(e) => post.phase() == UpdatePhase::Restoring && post.failure() == Some(e),
                }
            })
        &&& (pre.phase() == UpdatePhase::Updating && event is FastForwarded ==> {
                &&& post.next() == pre.next() + 1
                &&& post.failure() is None
                &&& post.settled()
                &&& match event->FastForwarded_0 {
                    Ok(_) => step.warning is None,
                    Err(_) => step.warning matches Some(UpdateWarning::UpdateFailed(b)) && b@ == pre.branches()[pre.next()]@,
                }
            })
        &&& (pre.phase() == UpdatePhase::Restoring && event is CheckedOut ==> {
                &&& post.phase() == UpdatePhase::Finished
                &&& post.next() == pre.next()
                &&& post.failure() == pre.failure()
                &&& post.outcome() == match pre.failure() {
                    Some(e) => Err::<(), AppError>(AppError::Git(e)),
                    None => Ok(()),
                }
                &&& match event->CheckedOut_0 {
                    Ok(_) => step.warning is None,
                    Err(_) => step.warning matches Some(UpdateWarning::RestoreFailed(b)) && b@ == pre.starting(),
                }
            })
        &&& (!(pre.phase() == UpdatePhase::CheckingOut && event is CheckedOut)
                && !(pre.phase() == UpdatePhase::Updating && event is FastForwarded)
                && !(pre.phase() == UpdatePhase::Restoring && event is CheckedOut) ==> {
                &&& post.next() == pre.next()
                &&& post.phase() == pre.phase()
                &&& post.failure() == pre.failure()
                &&& post.outcome() == pre.outcome()
                &&& step.warning is None
            })
    }

    /// Takes what came of the last action and says what to do next. A failed
    /// checkout of a branch ends the update with that error, once the
    /// starting branch is checked out again; a failed fast-forward is only
    /// reported. An event that does not answer the pending action changes
    /// nothing.
    pub fn step(&mut self, event: UpdateEvent) -> (r: UpdateStep)
        requires
            old(self).wf(),
        ensures
            Self::steps_to(*old(self), event, *final(self), r),

    {
        match (self.phase, event) {
            (UpdatePhase::CheckingOut, UpdateEvent::CheckedOut(res)) => {
                match res {
                    Ok(()) => {
                        self.phase = UpdatePhase::Updating;
                        UpdateStep { warning: None, action: UpdateAction::FastForward }
                    },
                    Err(e) => {
                        self.failure = Some(e);
                        self.phase = UpdatePhase::Restoring;
                        UpdateStep { warning: None, action: UpdateAction::Checkout(self.starting.clone()) }
                    },
                }
            },
            (UpdatePhase::Updating, UpdateEvent::FastForwarded(res)) => {
                let branch = self.branches[self.next].clone();
                let n = self.branches.len();
                assert(self.next < n);
                self.next = self.next + 1;
                let action = self.settle();
                match res {
                    Ok(()) => UpdateStep { warning: None, action },
                    Err(_) => UpdateStep { warning: Some(UpdateWarning::UpdateFailed(branch)), action },
                }
            },
            (UpdatePhase::Restoring, UpdateEvent::CheckedOut(res)) => {
                self.phase = UpdatePhase::Finished;
                self.outcome = match self.failure {
                    Some(e) => Err(AppError::Git(e)),
                    None => Ok(()),
                };
                match res {
                    Ok(()) => UpdateStep { warning: None, action: UpdateAction::Finish },
                    Err(_) => UpdateStep {
                        warning: Some(UpdateWarning::RestoreFailed(self.starting.clone())),
                        action: UpdateAction::Finish,
                    },
                }
            },
            _ => {
                let action = match self.phase {
                    UpdatePhase::CheckingOut => UpdateAction::Checkout(self.branches[self.next].clone()),
                    UpdatePhase::Updating => UpdateAction::FastForward,
                    UpdatePhase::Restoring => UpdateAction::Checkout(self.starting.clone()),
                    UpdatePhase::Finished => UpdateAction::Finish,
                };
                UpdateStep { warning: None, action }
            },
        }
    }
}

/// A finished update fails only because a branch could not be checked
/// out; a fast-forward that failed (a diverged branch) never fails it.
pub proof fn law_update_fails_only_on_checkout(u: TrackingUpdater)
    requires
        u.wf(),
        u.phase() == UpdatePhase::Finished,
    ensures
        u.failure() is None ==> u.outcome() is Ok,
        u.failure() matches Some(e) ==> u.outcome() == Err::<(), AppError>(AppError::Git(e)),
{
}

/// A failed fast-forward is reported and the update moves on to the next
/// branch, with nothing recorded against the run.
pub proof fn law_failed_fast_forward_is_a_warning(
    u: TrackingUpdater,
    e: GitError,
    u2: TrackingUpdater,
    r: UpdateStep,
)
    requires
        u.wf(),
        u.phase() == UpdatePhase::Updating,
        TrackingUpdater::steps_to(u, UpdateEvent::FastForwarded(Err(e)), u2, r),
    ensures
        r.warning matches Some(UpdateWarning::UpdateFailed(b)) && b@ == u.branches()[u.next()]@,
        u2.next() == u.next() + 1,
        u2.failure() is None,
        u2.phase() != UpdatePhase::Finished,
{
}

} // verus!
