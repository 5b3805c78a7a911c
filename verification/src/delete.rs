//! Deciding how each worktree is removed, and reporting what happened.
//!
//! Removing a worktree alternates work on disk with decisions: a directory
//! removal, or one or two runs of `git worktree remove`. The decisions live
//! here as small state machines: [`start_removal`] says what to do first,
//! and [`continue_git_removal`] / [`finish_directory_removal`] turn what the
//! disk or git answered into the next step or the final [`DeleteOutcome`].
//! A [`DeletionRun`] strings them together over a whole list, so that each
//! worktree gets exactly one outcome whatever happened to the others. The
//! caller performs each step and hands back its result.

use vstd::prelude::*;

use crate::paths::{parent_of, path_parent};
use crate::size::Amount;
use crate::text::{trim, trimmed};
use crate::worktree::{Worktree, WorktreeStatus};

verus! {

/// What happened (or would happen) to a worktree during deletion.
#[derive(Debug, Clone, Copy, PartialEq, Eq, Structural)]
pub enum DeleteAction {
    /// The worktree was removed.
    Removed,
    /// Nothing was done because this was a dry run.
    DryRun,
    /// Deliberately not touched (the main working tree).
    Skipped,
    /// Removal was attempted but failed.
    Failed,
}

/// The verb shown for an action.
pub open spec fn verb_text(a: DeleteAction) -> Seq<char> {
    match a {
        DeleteAction::Removed => "removed"@,
        DeleteAction::DryRun => "would remove"@,
        DeleteAction::Skipped => "skipped"@,
        DeleteAction::Failed => "failed"@,
    }
}

impl DeleteAction {
    /// The verb shown for this action in reports.
    pub fn verb(&self) -> (r: &'static str)
        ensures
            r@ == verb_text(*self),
    {
        match self {
            DeleteAction::Removed => "removed",
            DeleteAction::DryRun => "would remove",
            DeleteAction::Skipped => "skipped",
            DeleteAction::Failed => "failed",
        }
    }
}

/// The outcome of attempting to delete one worktree.
#[derive(Debug, PartialEq, Eq)]
pub struct DeleteOutcome {
    pub path: String,
    pub action: DeleteAction,
    pub detail: String,
}

impl Clone for DeleteOutcome {
    fn clone(&self) -> (r: Self)
        ensures
            r == *self,
    {
        DeleteOutcome { path: self.path.clone(), action: self.action, detail: self.detail.clone() }
    }
}

/// An event emitted while worktrees are being deleted in the background.
#[derive(Debug)]
pub enum DeleteEvent {
    /// Removal of the worktree at this path has started.
    Deleting(String),
    /// One worktree has been dealt with.
    Deleted(DeleteOutcome),
    /// Every worktree has been dealt with.
    Done,
}

/// Whether `o` is the outcome for `wt` with this action and detail.
pub open spec fn outcome_is(
    o: DeleteOutcome,
    wt: Worktree,
    action: DeleteAction,
    detail: Seq<char>,
) -> bool {
    &&& o.path == wt.path
    &&& o.action == action
    &&& o.detail@ == detail
}

/// The next step of removing one worktree.
#[derive(Debug)]
pub enum RemovalStep {
    /// Nothing (more) to do: this is the outcome.
    Finished(DeleteOutcome),
    /// Remove the worktree's directory from the filesystem (its repository is
    /// gone, so git cannot help), then call [`finish_directory_removal`].
    RemoveDirectory,
    /// Run `git -C <repo_dir> worktree remove [--force] <path>`, then call
    /// [`continue_git_removal`].
    GitRemove { repo_dir: String, force: bool },
}

/// What running `git worktree remove` produced.
#[derive(Debug)]
pub enum GitRemoveReply {
    /// git ran; whether it succeeded, and what it printed on stderr.
    Exited { success: bool, stderr: String },
    /// git could not be run at all; the error message.
    NotRun(String),
}

/// The directory of the repository owning `wt`: the parent of its `.git`
/// directory, when known.
pub open spec fn owning_repo_dir(wt: Worktree) -> Option<Seq<char>> {
    match wt.repo_path {
        Some(p) => path_parent(p@),
        None => None,
    }
}

/// The detail of a dry-run outcome for `wt`, whose owning repository's
/// directory is `dir`: what a real run would do.
pub open spec fn dry_run_detail(wt: Worktree, dir: Option<Seq<char>>) -> Seq<char> {
    if wt.status == WorktreeStatus::MainRepo {
        "main working tree, never removed"@
    } else if wt.status == WorktreeStatus::Orphaned {
        "would remove orphaned directory"@
    } else if dir is Some {
        "would run git worktree remove"@
    } else {
        "no owning repository"@
    }
}

/// The first step of removing `wt`, whose owning repository's directory is
/// `dir` (`None` when unknown):
/// - a dry run removes nothing: every worktree's outcome is `DryRun` at
///   once, its detail saying what a real run would do;
/// - the main working tree is never touched;
/// - an orphaned worktree has no repository to drive `git worktree remove`,
///   so its directory is removed;
/// - otherwise git removes it from its owning repository, which must be known.
pub open spec fn first_step_given(
    wt: Worktree,
    dry_run: bool,
    dir: Option<Seq<char>>,
    step: RemovalStep,
) -> bool {
    if dry_run {
        step matches RemovalStep::Finished(o) && outcome_is(
            o,
            wt,
            DeleteAction::DryRun,
            dry_run_detail(wt, dir),
        )
    } else if wt.status == WorktreeStatus::MainRepo {
        step matches RemovalStep::Finished(o) && outcome_is(
            o,
            wt,
            DeleteAction::Skipped,
            "main working tree"@,
        )
    } else if wt.status == WorktreeStatus::Orphaned {
        step is RemoveDirectory
    } else {
        match dir {
            None => step matches RemovalStep::Finished(o) && outcome_is(
                o,
                wt,
                DeleteAction::Failed,
                "no owning repository"@,
            ),
            Some(d) => step matches RemovalStep::GitRemove { repo_dir, force } && repo_dir@ == d
                && !force,
        }
    }
}

/// The first step of removing `wt` (see [`first_step_given`]), its owning
/// repository's directory being the parent of its `.git` path.
pub open spec fn first_step(wt: Worktree, dry_run: bool, step: RemovalStep) -> bool {
    first_step_given(wt, dry_run, owning_repo_dir(wt), step)
}

/// What follows a run of `git worktree remove` (`forced`: whether that run
/// had `--force`): success removes the worktree; a refusal is retried once
/// with `--force` when `force` allows it; otherwise the removal failed, with
/// git's trimmed stderr or the reason git could not run.
pub open spec fn git_step(
    wt: Worktree,
    repo_dir: Seq<char>,
    forced: bool,
    force: bool,
    reply: GitRemoveReply,
    step: RemovalStep,
) -> bool {
    match reply {
        GitRemoveReply::Exited { success, stderr } => if success {
            step matches RemovalStep::Finished(o) && outcome_is(
                o,
                wt,
                DeleteAction::Removed,
                if forced {
                    "force-removed (had local changes)"@
                } else {
                    "git worktree remove"@
                },
            )
        } else if force && !forced {
            step matches RemovalStep::GitRemove { repo_dir: d, force: f } && d@ == repo_dir && f
        } else {
            step matches RemovalStep::Finished(o) && outcome_is(
                o,
                wt,
                DeleteAction::Failed,
                trimmed(stderr@),
            )
        },
        GitRemoveReply::NotRun(msg) => step matches RemovalStep::Finished(o) && outcome_is(
            o,
            wt,
            DeleteAction::Failed,
            msg@,
        ),
    }
}

fn outcome(wt: &Worktree, action: DeleteAction, detail: &str) -> (r: DeleteOutcome)
    ensures
        outcome_is(r, *wt, action, detail@),
{
    DeleteOutcome { path: wt.path.clone(), action, detail: String::from_str(detail) }
}

/// The first step of removing `wt`, given its owning repository's
/// directory `repo_dir` (see [`first_step_given`]).
pub fn first_step_with(wt: &Worktree, dry_run: bool, repo_dir: Option<String>) -> (r: RemovalStep)
    ensures
        first_step_given(
            *wt,
            dry_run,
            match repo_dir {
                Some(d) => Some(d@),
                None => None,
            },
            r,
        ),
{
    if dry_run {
        let detail = if wt.status == WorktreeStatus::MainRepo {
            "main working tree, never removed"
        } else if wt.status == WorktreeStatus::Orphaned {
            "would remove orphaned directory"
        } else if repo_dir.is_some() {
            "would run git worktree remove"
        } else {
            "no owning repository"
        };
        return RemovalStep::Finished(outcome(wt, DeleteAction::DryRun, detail));
    }
    if wt.status == WorktreeStatus::MainRepo {
        return RemovalStep::Finished(outcome(wt, DeleteAction::Skipped, "main working tree"));
    }
    if wt.status == WorktreeStatus::Orphaned {
        return RemovalStep::RemoveDirectory;
    }
    match repo_dir {
        None => RemovalStep::Finished(outcome(wt, DeleteAction::Failed, "no owning repository")),
        Some(dir) => RemovalStep::GitRemove { repo_dir: dir, force: false },
    }
}

/// The first step of removing `wt` (see [`first_step`]).
pub fn start_removal(wt: &Worktree, dry_run: bool) -> (r: RemovalStep)
    ensures
        first_step(*wt, dry_run, r),
{
    let repo_dir = match &wt.repo_path {
        Some(p) => parent_of(p.as_str()),
        None => None,
    };
    first_step_with(wt, dry_run, repo_dir)
}

/// The outcome of removing an orphaned worktree's directory: `Ok` means it
/// was removed, `Err` carries the filesystem's error message.
pub fn finish_directory_removal(wt: &Worktree, result: Result<(), String>) -> (r: DeleteOutcome)
    ensures
        match result {
            Ok(()) => outcome_is(r, *wt, DeleteAction::Removed, "removed orphaned directory"@),
            Err(e) => outcome_is(r, *wt, DeleteAction::Failed, e@),
        },
{
    match result {
        Ok(()) => outcome(wt, DeleteAction::Removed, "removed orphaned directory"),
        Err(e) => outcome(wt, DeleteAction::Failed, e.as_str()),
    }
}

/// The step after a run of `git worktree remove` (see [`git_step`]).
pub fn continue_git_removal(
    wt: &Worktree,
    repo_dir: &String,
    forced: bool,
    force: bool,
    reply: GitRemoveReply,
) -> (r: RemovalStep)
    ensures
        git_step(*wt, repo_dir@, forced, force, reply, r),
{
    match reply {
        GitRemoveReply::Exited { success, stderr } => {
            if success {
                if forced {
                    RemovalStep::Finished(
                        outcome(wt, DeleteAction::Removed, "force-removed (had local changes)"),
                    )
                } else {
                    RemovalStep::Finished(outcome(wt, DeleteAction::Removed, "git worktree remove"))
                }
            } else if force && !forced {
                RemovalStep::GitRemove { repo_dir: repo_dir.clone(), force: true }
            } else {
                let detail = trim(stderr.as_str());
                RemovalStep::Finished(outcome(wt, DeleteAction::Failed, detail.as_str()))
            }
        },
        GitRemoveReply::NotRun(msg) => RemovalStep::Finished(
            outcome(wt, DeleteAction::Failed, msg.as_str()),
        ),
    }
}

/// The main working tree is never removed: its removal ends at once,
/// skipped (or, in a dry run, reported as a dry run).
pub proof fn lemma_main_repo_is_skipped(wt: Worktree, dry_run: bool, step: RemovalStep)
    requires
        wt.status == WorktreeStatus::MainRepo,
        first_step(wt, dry_run, step),
    ensures
        step matches RemovalStep::Finished(o) && o.action == (if dry_run {
            DeleteAction::DryRun
        } else {
            DeleteAction::Skipped
        }),
{
}

/// A dry run never touches the disk: every worktree's first step is
/// already its outcome, and that outcome is `DryRun`.
pub proof fn lemma_dry_run_touches_nothing(wt: Worktree, step: RemovalStep)
    requires
        first_step(wt, true, step),
    ensures
        step matches RemovalStep::Finished(o) && o.action == DeleteAction::DryRun,
{
}

/// Without `force`, git is run once: its answer always ends the removal.
pub proof fn lemma_no_force_no_retry(
    wt: Worktree,
    repo_dir: Seq<char>,
    forced: bool,
    reply: GitRemoveReply,
    step: RemovalStep,
)
    requires
        git_step(wt, repo_dir, forced, false, reply, step),
    ensures
        step is Finished,
{
}

/// A forced run is never retried: its answer always ends the removal.
pub proof fn lemma_forced_run_is_final(
    wt: Worktree,
    repo_dir: Seq<char>,
    force: bool,
    reply: GitRemoveReply,
    step: RemovalStep,
)
    requires
        git_step(wt, repo_dir, true, force, reply, step),
    ensures
        step is Finished,
{
}

/// What a deletion run asks its driver to do next.
#[derive(Debug)]
pub enum RunRequest {
    /// Remove this directory from the filesystem, then report with
    /// [`DeletionRun::directory_removed`].
    RemoveDirectory(String),
    /// Run `git -C <repo_dir> worktree remove [--force] <path>`, then report
    /// with [`DeletionRun::git_replied`].
    GitRemove { repo_dir: String, path: String, force: bool },
    /// Every worktree has its outcome.
    Done,
}

/// How far the removal of the next worktree has come: nothing under way,
/// a first request under way, or a forced retry under way.
pub open spec fn step_credit(p: Option<RemovalStep>) -> int {
    match p {
        None => 0,
        Some(step) => match step {
            RemovalStep::GitRemove { repo_dir, force } => if force {
                2
            } else {
                1
            },
            _ => 1,
        },
    }
}

/// Whether `r` asks for step `step` of removing the worktree at `path`.
pub open spec fn asks_for(r: RunRequest, step: RemovalStep, path: Seq<char>) -> bool {
    match step {
        RemovalStep::RemoveDirectory => r matches RunRequest::RemoveDirectory(p) && p@ == path,
        RemovalStep::GitRemove { repo_dir, force } => r matches RunRequest::GitRemove {
            repo_dir: d,
            path: p,
            force: f,
        } && d == repo_dir && p@ == path && f == force,
        RemovalStep::Finished(_) => false,
    }
}

/// `b` is run `a` after git, run for the next worktree from `repo_dir`
/// (`forced`: with `--force`), answered `reply`, leading to `step`: an
/// outcome is recorded, or the step is the next request.
pub open spec fn replied(
    a: DeletionRun,
    repo_dir: Seq<char>,
    forced: bool,
    reply: GitRemoveReply,
    step: RemovalStep,
    b: DeletionRun,
    r: RunRequest,
) -> bool {
    let w = a.worktrees()[a.results().len() as int];
    &&& git_step(w, repo_dir, forced, a.forcing(), reply, step)
    &&& match step {
        RemovalStep::Finished(o) => {
            &&& b.results() == a.results().push(o)
            &&& b.awaiting() is None
            &&& r is Done
        },
        _ => {
            &&& b.results() == a.results()
            &&& b.awaiting() == Some(step)
            &&& asks_for(r, step, w.path@)
        },
    }
}

/// The removal of a list of worktrees, one after the other: each gets
/// exactly one outcome, in order, whatever happened to the ones before.
/// The driver performs each request and reports what happened.
pub struct DeletionRun {
    items: Vec<Worktree>,
    dry_run: bool,
    force: bool,
    outcomes: Vec<DeleteOutcome>,
    /// The step under way for the next worktree, if any.
    pending: Option<RemovalStep>,
}

impl DeletionRun {
    /// The worktrees to remove, in order.
    pub closed spec fn worktrees(&self) -> Seq<Worktree> {
        self.items@
    }

    /// The outcomes so far: one per worktree, in order.
    pub closed spec fn results(&self) -> Seq<DeleteOutcome> {
        self.outcomes@
    }

    /// The step under way for the next worktree, if any.
    pub closed spec fn awaiting(&self) -> Option<RemovalStep> {
        self.pending
    }

    /// Whether nothing is removed.
    pub closed spec fn is_dry_run(&self) -> bool {
        self.dry_run
    }

    /// Whether a refused removal is retried with `--force`.
    pub closed spec fn forcing(&self) -> bool {
        self.force
    }

    /// The outcomes so far belong to the leading worktrees, path for path;
    /// a step under way belongs to the next worktree and is no outcome.
    pub open spec fn wf(&self) -> bool {
        &&& self.results().len() <= self.worktrees().len()
        &&& forall|i: int|
            0 <= i < self.results().len() ==> (#[trigger] self.results()[i]).path
                == self.worktrees()[i].path
        &&& self.awaiting() is Some ==> {
            &&& self.results().len() < self.worktrees().len()
            &&& self.awaiting()->0 !is Finished
        }
    }

    /// An upper bound on the requests still to come: each worktree needs at
    /// most three (its start, a git run and a forced retry).
    pub open spec fn work_left(&self) -> int {
        3 * (self.worktrees().len() - self.results().len()) - step_credit(self.awaiting())
    }

    /// A run over `items`, nothing done yet.
    pub fn new(items: Vec<Worktree>, dry_run: bool, force: bool) -> (r: Self)
        ensures
            r.wf(),
            r.worktrees() == items@,
            r.results().len() == 0,
            r.awaiting() is None,
            r.is_dry_run() == dry_run,
            r.forcing() == force,
    {
        DeletionRun { items, dry_run, force, outcomes: Vec::new(), pending: None }
    }

    /// How many worktrees have their outcome.
    pub fn done_count(&self) -> (r: usize)
        ensures
            r == self.results().len(),
    {
        self.outcomes.len()
    }

    /// The worktree at position `i`.
    pub fn worktree(&self, i: usize) -> (r: &Worktree)
        requires
            i < self.worktrees().len(),
        ensures
            *r == self.worktrees()[i as int],
    {
        &self.items[i]
    }

    /// The outcome of the worktree at position `i`.
    pub fn outcome(&self, i: usize) -> (r: &DeleteOutcome)
        requires
            i < self.results().len(),
        ensures
            *r == self.results()[i as int],
    {
        &self.outcomes[i]
    }

    /// The outcomes, one per worktree in order once the run is done.
    pub fn into_outcomes(self) -> (r: Vec<DeleteOutcome>)
        ensures
            r@ == self.results(),
    {
        self.outcomes
    }

    /// Move on: settle every next worktree whose removal ends at its first
    /// step (the main working tree, a dry run, an unknown repository), then
    /// ask for the disk or git work the next one needs, or report that every
    /// worktree has its outcome.
    pub fn next_request(&mut self) -> (r: RunRequest)
        requires
            old(self).wf(),
            old(self).awaiting() is None,
        ensures
            final(self).wf(),
            final(self).worktrees() == old(self).worktrees(),
            final(self).is_dry_run() == old(self).is_dry_run(),
            final(self).forcing() == old(self).forcing(),
            final(self).results().len() >= old(self).results().len(),
            final(self).results().subrange(0, old(self).results().len() as int) == old(
                self,
            ).results(),
            forall|i: int|
                old(self).results().len() <= i < final(self).results().len() ==> first_step(
                    final(self).worktrees()[i],
                    final(self).is_dry_run(),
                    RemovalStep::Finished(#[trigger] final(self).results()[i]),
                ),
            r is Done <==> final(self).results().len() == final(self).worktrees().len(),
            r is Done ==> final(self).awaiting() is None,
            final(self).is_dry_run() ==> r is Done,
            !(r is Done) ==> {
                let k = final(self).results().len() as int;
                &&& final(self).awaiting() matches Some(step)
                &&& first_step(final(self).worktrees()[k], final(self).is_dry_run(), step)
                &&& asks_for(r, step, final(self).worktrees()[k].path@)
                &&& final(self).work_left() < old(self).work_left()
            },
            final(self).work_left() <= old(self).work_left(),
            final(self).work_left() >= 0,
    {
        let n = self.items.len();
        let ghost start = self.outcomes@;
        loop
            invariant
                n == self.items@.len(),
                self.items@ == old(self).items@,
                self.dry_run == old(self).dry_run,
                self.force == old(self).force,
                self.pending is None,
                self.wf(),
                self.outcomes@.len() >= start.len(),
                self.outcomes@.subrange(0, start.len() as int) == start,
                start == old(self).outcomes@,
                start.len() <= n,
                old(self).pending is None,
                forall|i: int|
                    start.len() <= i < self.outcomes@.len() ==> first_step(
                        self.items@[i],
                        self.dry_run,
                        RemovalStep::Finished(#[trigger] self.outcomes@[i]),
                    ),
            decreases n - self.outcomes@.len(),
        {
            let i = self.outcomes.len();
            if i >= n {
                return RunRequest::Done;
            }
            let step = start_removal(&self.items[i], self.dry_run);
            match step {
                RemovalStep::Finished(o) => {
                    let ghost before = self.outcomes@;
                    self.outcomes.push(o);
                    assert(self.outcomes@.subrange(0, start.len() as int) =~= before.subrange(
                        0,
                        start.len() as int,
                    ));
                    assert(self.outcomes@[i as int] == o);
                },
                RemovalStep::RemoveDirectory => {
                    self.pending = Some(RemovalStep::RemoveDirectory);
                    return RunRequest::RemoveDirectory(self.items[i].path.clone());
                },
                RemovalStep::GitRemove { repo_dir, force } => {
                    let path = self.items[i].path.clone();
                    self.pending = Some(RemovalStep::GitRemove { repo_dir: repo_dir.clone(), force });
                    return RunRequest::GitRemove { repo_dir, path, force };
                },
            }
        }
    }

    /// Report how removing the directory asked for went: `Ok`, or the
    /// filesystem's error message. The worktree gets its outcome.
    pub fn directory_removed(&mut self, result: Result<(), String>)
        requires
            old(self).wf(),
            old(self).awaiting() == Some(RemovalStep::RemoveDirectory),
        ensures
            final(self).wf(),
            final(self).worktrees() == old(self).worktrees(),
            final(self).is_dry_run() == old(self).is_dry_run(),
            final(self).forcing() == old(self).forcing(),
            final(self).awaiting() is None,
            final(self).results().len() == old(self).results().len() + 1,
            final(self).results().drop_last() == old(self).results(),
            match result {
                Ok(()) => outcome_is(
                    final(self).results().last(),
                    old(self).worktrees()[old(self).results().len() as int],
                    DeleteAction::Removed,
                    "removed orphaned directory"@,
                ),
                Err(e) => outcome_is(
                    final(self).results().last(),
                    old(self).worktrees()[old(self).results().len() as int],
                    DeleteAction::Failed,
                    e@,
                ),
            },
            final(self).work_left() < old(self).work_left(),
    {
        let i = self.outcomes.len();
        let o = finish_directory_removal(&self.items[i], result);
        self.outcomes.push(o);
        self.pending = None;
        assert(self.outcomes@.drop_last() =~= old(self).outcomes@);
    }

    /// Report what the git run asked for answered. Success or a final
    /// refusal gives the worktree its outcome; a first refusal under
    /// `force` asks for a forced retry next (see [`git_step`]).
    pub fn git_replied(&mut self, reply: GitRemoveReply) -> (r: RunRequest)
        requires
            old(self).wf(),
            old(self).awaiting() matches Some(RemovalStep::GitRemove { .. }),
        ensures
            final(self).wf(),
            final(self).worktrees() == old(self).worktrees(),
            final(self).is_dry_run() == old(self).is_dry_run(),
            final(self).forcing() == old(self).forcing(),
            old(self).awaiting() matches Some(RemovalStep::GitRemove { repo_dir, force: forced })
                ==> exists|step: RemovalStep|
                #[trigger] replied(*old(self), repo_dir@, forced, reply, step, *final(self), r),
            final(self).work_left() < old(self).work_left(),
    {
        let i = self.outcomes.len();
        let (repo_dir, forced) = match &self.pending {
            Some(RemovalStep::GitRemove { repo_dir, force }) => (repo_dir.clone(), *force),
            _ => (String::new(), false),
        };
        let ghost old_run = *old(self);
        let ghost g_reply = reply;
        let step = continue_git_removal(&self.items[i], &repo_dir, forced, self.force, reply);
        let ghost g = step;
        let r = match step {
            RemovalStep::Finished(o) => {
                self.outcomes.push(o);
                self.pending = None;
                RunRequest::Done
            },
            RemovalStep::RemoveDirectory => {
                self.pending = Some(RemovalStep::RemoveDirectory);
                RunRequest::RemoveDirectory(self.items[i].path.clone())
            },
            RemovalStep::GitRemove { repo_dir: d, force: f } => {
                let path = self.items[i].path.clone();
                self.pending = Some(RemovalStep::GitRemove { repo_dir: d.clone(), force: f });
                RunRequest::GitRemove { repo_dir: d, path, force: f }
            },
        };
        assert(replied(old_run, repo_dir@, forced, g_reply, g, *self, r));
        r
    }
}

/// A run always ends with every worktree having its outcome, paired by
/// path: when the run reports `Done`, no worktree is left out, whatever
/// failed before.
pub proof fn lemma_every_worktree_gets_an_outcome(run: DeletionRun)
    requires
        run.wf(),
        run.results().len() == run.worktrees().len(),
    ensures
        forall|i: int|
            0 <= i < run.worktrees().len() ==> (#[trigger] run.results()[i]).path
                == run.worktrees()[i].path,
        run.awaiting() is None,
        run.work_left() == 0,
{
}

/// Saturating sum of the known sizes of the worktrees whose outcome (if
/// any yet) has `action`, over the first `n` pairs.
pub open spec fn action_bytes(
    items: Seq<Worktree>,
    actions: Seq<Option<DeleteAction>>,
    action: DeleteAction,
    n: nat,
) -> nat
    decreases n,
{
    if n == 0 {
        0
    } else {
        let prev = action_bytes(items, actions, action, (n - 1) as nat);
        let i = n - 1;
        if actions[i] == Some(action) && items[i].size_bytes is Some {
            let t: nat = prev + items[i].size_bytes.unwrap() as nat;
            if t > u64::MAX {
                u64::MAX as nat
            } else {
                t
            }
        } else {
            prev
        }
    }
}

/// Whether some worktree among the first `n` pairs has an outcome with
/// `action` but no known size.
pub open spec fn action_partial(
    items: Seq<Worktree>,
    actions: Seq<Option<DeleteAction>>,
    action: DeleteAction,
    n: nat,
) -> bool {
    exists|i: int|
        0 <= i < n && #[trigger] actions[i] == Some(action) && items[i].size_bytes is None
}

/// The actions of a sequence of outcomes.
pub open spec fn actions_of(outcomes: Seq<DeleteOutcome>) -> Seq<Option<DeleteAction>> {
    outcomes.map_values(|o: DeleteOutcome| Some(o.action))
}

/// The actions of a sequence of outcomes that may not have arrived yet.
pub open spec fn pending_actions_of(outcomes: Seq<Option<DeleteOutcome>>) -> Seq<
    Option<DeleteAction>,
> {
    outcomes.map_values(
        |o: Option<DeleteOutcome>|
            match o {
                Some(o) => Some(o.action),
                None => None,
            },
    )
}

/// Whether extending the first `i` pairs by pair `i` extends the partial
/// flags of every action accordingly.
pub(crate) proof fn lemma_action_partial_step(
    items: Seq<Worktree>,
    acts: Seq<Option<DeleteAction>>,
    i: nat,
)
    ensures
        forall|act: DeleteAction|
            #[trigger] action_partial(items, acts, act, i + 1) == (action_partial(
                items,
                acts,
                act,
                i,
            ) || (acts[i as int] == Some(act) && items[i as int].size_bytes is None)),
{
    assert forall|act: DeleteAction|
        #[trigger] action_partial(items, acts, act, i + 1) == (action_partial(items, acts, act, i)
            || (acts[i as int] == Some(act) && items[i as int].size_bytes is None)) by {
        if action_partial(items, acts, act, i + 1) {
            let j = choose|j: int|
                0 <= j < i + 1 && #[trigger] acts[j] == Some(act) && items[j].size_bytes is None;
            if j < i {
                assert(action_partial(items, acts, act, i));
            }
        }
        if action_partial(items, acts, act, i) {
            let j = choose|j: int|
                0 <= j < i && #[trigger] acts[j] == Some(act) && items[j].size_bytes is None;
            assert(action_partial(items, acts, act, i + 1));
        }
    }
}

/// Space freed by a deletion run, and space a dry run would free.
#[derive(Debug, Clone, Copy)]
pub struct Reclaimed {
    /// Total size of removed worktrees.
    pub freed: Amount,
    /// Total size of worktrees a dry run would remove.
    pub would_free: Amount,
}

impl Reclaimed {
    /// Tally the outcomes of a run against the worktrees they belong to,
    /// paired by position (extra entries of the longer list are ignored).
    pub fn of(items: &[Worktree], outcomes: &[DeleteOutcome]) -> (r: Reclaimed)
        ensures
            ({
                let n = if items@.len() < outcomes@.len() {
                    items@.len()
                } else {
                    outcomes@.len()
                };
                let acts = actions_of(outcomes@);
                &&& r.freed.known() == action_bytes(items@, acts, DeleteAction::Removed, n)
                &&& r.freed.is_partial() == action_partial(items@, acts, DeleteAction::Removed, n)
                &&& r.would_free.known() == action_bytes(items@, acts, DeleteAction::DryRun, n)
                &&& r.would_free.is_partial() == action_partial(
                    items@,
                    acts,
                    DeleteAction::DryRun,
                    n,
                )
            }),
    {
        let n = if items.len() < outcomes.len() {
            items.len()
        } else {
            outcomes.len()
        };
        let ghost acts = actions_of(outcomes@);
        let mut freed = Amount::new(0, false);
        let mut would_free = Amount::new(0, false);
        let mut i: usize = 0;
        while i < n
            invariant
                i <= n,
                n <= items@.len(),
                n <= outcomes@.len(),
                acts == actions_of(outcomes@),
                freed.known() == action_bytes(items@, acts, DeleteAction::Removed, i as nat),
                freed.is_partial() == action_partial(items@, acts, DeleteAction::Removed, i as nat),
                would_free.known() == action_bytes(items@, acts, DeleteAction::DryRun, i as nat),
                would_free.is_partial() == action_partial(
                    items@,
                    acts,
                    DeleteAction::DryRun,
                    i as nat,
                ),
            decreases n - i,
        {
            let a = outcomes[i].action;
            assert(acts[i as int] == Some(a));
            if a == DeleteAction::Removed {
                freed.add(items[i].size_bytes);
            } else if a == DeleteAction::DryRun {
                would_free.add(items[i].size_bytes);
            }
            proof {
                lemma_action_partial_step(items@, acts, i as nat);
            }
            i = i + 1;
        }
        Reclaimed { freed, would_free }
    }
}

/// Outside a dry run, a worktree that is neither the main working tree nor
/// orphaned, whose repository directory `d` is known, is first handed to
/// git from `d` without `--force`, whatever its status: local changes are
/// never discarded by the first run.
pub proof fn lemma_first_git_run_is_unforced(
    wt: Worktree,
    dir: Option<Seq<char>>,
    step: RemovalStep,
)
    requires
        first_step_given(wt, false, dir, step),
        wt.status != WorktreeStatus::MainRepo,
        wt.status != WorktreeStatus::Orphaned,
        dir is Some,
    ensures
        step matches RemovalStep::GitRemove { repo_dir, force } && repo_dir@ == dir->0 && !force,
{
}

/// Whatever the worktree, `--force` never appears on the first step: a
/// forced git run only ever follows a refusal under `force`.
pub proof fn lemma_force_only_after_a_refusal(
    wt: Worktree,
    dry_run: bool,
    dir: Option<Seq<char>>,
    step: RemovalStep,
    repo_dir: Seq<char>,
    forced: bool,
    force: bool,
    reply: GitRemoveReply,
    next: RemovalStep,
)
    ensures
        first_step_given(wt, dry_run, dir, step) ==> !(step matches RemovalStep::GitRemove {
            force: f,
            ..
        } && f),
        git_step(wt, repo_dir, forced, force, reply, next) && (next matches RemovalStep::GitRemove {
            force: f,
            ..
        } && f) ==> force && !forced && (reply matches GitRemoveReply::Exited { success, .. }
            && !success),
{
}

} // verus!
