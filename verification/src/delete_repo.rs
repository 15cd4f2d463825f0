//! The removal of a cloned repository, and the checks that come before it.
//!
//! Work that would be lost is looked for first: changes that are not committed,
//! and commits that the upstream lacks. Each finding is a warning that must be
//! confirmed, unless the removal is forced. A dry run asks nothing and removes
//! nothing. The removal itself comes only after a last confirmation.

use vstd::prelude::*;
use vstd::string::*;
use crate::backend::{
    find_reference, git_failure, graph_ahead_behind, head_reference, reference_is_branch,
    reference_shorthand, reference_tip, status_count,
};
use crate::error::Error;
use crate::paths::{join, join_path};
use crate::text::concat2;

verus! {

/// Where a removal stands, and with it what its caller is asked to do.
#[derive(Debug, Clone, Copy, PartialEq, Eq)]
pub enum DeleteStage {
    /// Report whether the repository holds changes that are not committed.
    CheckUncommitted,
    /// Warn of such changes; unless this is a dry run, ask whether to go on.
    WarnUncommitted,
    /// Report whether the repository holds commits that its upstream lacks.
    CheckUnpushed,
    /// Warn of such commits; unless this is a dry run, ask whether to go on.
    WarnUnpushed,
    /// Say what would be removed.
    DryRunReport,
    /// Ask whether to remove the repository.
    ConfirmRemoval,
    /// Remove the repository.
    Remove,
    /// Say that the removal was called off.
    ReportCancelled,
    /// Nothing is left to do.
    Finished,
}

/// The stage that a removal starts in: the checks are skipped when it is forced.
pub open spec fn first_stage(force: bool, dry_run: bool) -> DeleteStage {
    if force {
        last_stage(dry_run)
    } else {
        DeleteStage::CheckUncommitted
    }
}

/// The stage that follows the checks: a dry run reports, any other run asks.
pub open spec fn last_stage(dry_run: bool) -> DeleteStage {
    if dry_run {
        DeleteStage::DryRunReport
    } else {
        DeleteStage::ConfirmRemoval
    }
}

/// The stage that follows `stage` once the caller has replied. The reply is the
/// finding of a check or the answer to a question; a dry run asks no question
/// at a warning and goes on; the other stages take no reply and ignore it.
pub open spec fn next_stage(stage: DeleteStage, dry_run: bool, reply: bool) -> DeleteStage {
    match stage {
        DeleteStage::CheckUncommitted => if reply {
            DeleteStage::WarnUncommitted
        } else {
            DeleteStage::CheckUnpushed
        },
        DeleteStage::WarnUncommitted => if dry_run || reply {
            DeleteStage::CheckUnpushed
        } else {
            DeleteStage::Finished
        },
        DeleteStage::CheckUnpushed => if reply {
            DeleteStage::WarnUnpushed
        } else {
            last_stage(dry_run)
        },
        DeleteStage::WarnUnpushed => if dry_run || reply {
            last_stage(dry_run)
        } else {
            DeleteStage::Finished
        },
        DeleteStage::DryRunReport => DeleteStage::Finished,
        DeleteStage::ConfirmRemoval => if reply {
            DeleteStage::Remove
        } else {
            DeleteStage::ReportCancelled
        },
        DeleteStage::Remove => DeleteStage::Finished,
        DeleteStage::ReportCancelled => DeleteStage::Finished,
        DeleteStage::Finished => DeleteStage::Finished,
    }
}

/// A dry run is in none of the stages that ask for the removal or carry it out.
pub open spec fn stage_fits(stage: DeleteStage, dry_run: bool) -> bool {
    if dry_run {
        stage != DeleteStage::ConfirmRemoval && stage != DeleteStage::Remove && stage
            != DeleteStage::ReportCancelled
    } else {
        stage != DeleteStage::DryRunReport
    }
}

/// The stage after a run of replies.
pub open spec fn stage_after(stage: DeleteStage, dry_run: bool, replies: Seq<bool>) -> DeleteStage
    decreases replies.len(),
{
    if replies.len() == 0 {
        stage
    } else {
        next_stage(stage_after(stage, dry_run, replies.drop_last()), dry_run, replies.last())
    }
}

/// The removal is carried out only right after its confirmation: whatever the
/// replies, a run that stands at `Remove` stood at `ConfirmRemoval` one reply
/// earlier and got the answer yes. A dry run never stands at either.
pub proof fn lemma_removal_is_confirmed(force: bool, dry_run: bool, replies: Seq<bool>)
    ensures
        stage_fits(stage_after(first_stage(force, dry_run), dry_run, replies), dry_run),
        stage_after(first_stage(force, dry_run), dry_run, replies) == DeleteStage::Remove ==> {
            &&& replies.len() > 0
            &&& replies.last()
            &&& stage_after(first_stage(force, dry_run), dry_run, replies.drop_last())
                == DeleteStage::ConfirmRemoval
            &&& !dry_run
        },
    decreases replies.len(),
{
    if replies.len() > 0 {
        lemma_removal_is_confirmed(force, dry_run, replies.drop_last());
    }
}

/// What a warning warns of: `DirtyWorkingTree` for changes that are not
/// committed, `UnpushedCommits` for commits that the upstream lacks. The other
/// stages warn of nothing.
pub fn warning_of(stage: DeleteStage) -> (r: Option<Error>)
    ensures
        r == match stage {
            DeleteStage::WarnUncommitted => Some(Error::DirtyWorkingTree),
            DeleteStage::WarnUnpushed => Some(Error::UnpushedCommits),
            _ => None,
        },
{
    match stage {
        DeleteStage::WarnUncommitted => Some(Error::DirtyWorkingTree),
        DeleteStage::WarnUnpushed => Some(Error::UnpushedCommits),
        _ => None,
    }
}

/// The course of one removal.
pub struct DeleteFlow {
    dry_run: bool,
    stage: DeleteStage,
}

impl DeleteFlow {
    /// Whether this is a dry run.
    pub closed spec fn dry_run(&self) -> bool {
        self.dry_run
    }

    /// The stage that the removal is in.
    pub closed spec fn stage(&self) -> DeleteStage {
        self.stage
    }

    /// A removal that has yet to begin.
    pub fn new(force: bool, dry_run: bool) -> (r: DeleteFlow)
        ensures
            r.dry_run() == dry_run,
            r.stage() == first_stage(force, dry_run),
    {
        let stage = if !force {
            DeleteStage::CheckUncommitted
        } else if dry_run {
            DeleteStage::DryRunReport
        } else {
            DeleteStage::ConfirmRemoval
        };
        DeleteFlow { dry_run, stage }
    }

    /// What the caller is to do next.
    pub fn request(&self) -> (r: DeleteStage)
        ensures
            r == self.stage(),
    {
        self.stage
    }

    /// Whether the caller is to put a question with its warning.
    pub fn asks(&self) -> (r: bool)
        ensures
            r == !self.dry_run(),
    {
        !self.dry_run
    }

    /// Takes the caller's reply and moves on.
    pub fn advance(&mut self, reply: bool)
        ensures
            final(self).dry_run() == old(self).dry_run(),
            final(self).stage() == next_stage(old(self).stage(), old(self).dry_run(), reply),
    {
        let after_checks = if self.dry_run {
            DeleteStage::DryRunReport
        } else {
            DeleteStage::ConfirmRemoval
        };
        self.stage = match self.stage {
            DeleteStage::CheckUncommitted => if reply {
                DeleteStage::WarnUncommitted
            } else {
                DeleteStage::CheckUnpushed
            },
            DeleteStage::WarnUncommitted => if self.dry_run || reply {
                DeleteStage::CheckUnpushed
            } else {
                DeleteStage::Finished
            },
            DeleteStage::CheckUnpushed => if reply {
                DeleteStage::WarnUnpushed
            } else {
                after_checks
            },
            DeleteStage::WarnUnpushed => if self.dry_run || reply {
                after_checks
            } else {
                DeleteStage::Finished
            },
            DeleteStage::ConfirmRemoval => if reply {
                DeleteStage::Remove
            } else {
                DeleteStage::ReportCancelled
            },
            _ => DeleteStage::Finished,
        };
    }
}

/// The directory that is to be removed: the one that was picked from the list
/// when the choice is interactive, else the path that was given, each below the
/// root. Without either there is nothing to remove.
pub fn removal_target(root: &str, interactive: bool, selected: Option<&str>, given: Option<&str>) -> (r:
    Result<String, Error>)
    ensures
        match (if interactive {
            selected
        } else {
            given
        }) {
            Some(path) => r matches Ok(target) && target@ == join(root@, path@),
            None => r matches Err(e) && e is InvalidInput,
        },
{
    let chosen = if interactive {
        selected
    } else {
        given
    };
    match chosen {
        Some(path) => Ok(join_path(root, path)),
        None => Err(
            Error::InvalidInput("Either specify a repository path or use --interactive".to_owned()),
        ),
    }
}

/// Whether a repository holds changes that are not committed. `changed` is the
/// number of paths whose status is not clean, `None` where the status could not
/// be read, which counts as clean.
pub fn is_dirty(changed: Option<usize>) -> (r: bool)
    ensures
        r == (changed matches Some(n) && n > 0),
{
    match changed {
        Some(n) => n > 0,
        None => false,
    }
}

/// Whether the working tree or the index of a repository holds changes.
pub fn has_uncommitted_changes(repo: &git2::Repository) -> (r: bool) {
    is_dirty(status_count(repo))
}

/// Whether a branch that is `ahead` commits ahead of its upstream holds work
/// that would be lost. How far it is behind does not matter.
pub fn is_ahead(ahead: usize) -> (r: bool)
    ensures
        r == (ahead > 0),
{
    ahead > 0
}

/// The name of the reference that tracks a branch on `origin`.
pub fn upstream_reference(branch: &str) -> (r: String)
    ensures
        r@ == "refs/remotes/origin/"@ + branch@,
{
    concat2("refs/remotes/origin/", branch)
}

/// What was seen of the current branch and of the reference that tracks it
/// on `origin`.
#[derive(Debug, Clone, PartialEq, Eq)]
pub enum Tracking {
    /// `HEAD` cannot be read.
    NoHead,
    /// `HEAD` does not point at a branch.
    Detached,
    /// No reference tracks the branch.
    NoUpstream,
    /// The branch has this many commits that the tracking reference lacks.
    Ahead(usize),
    /// The backend failed to resolve the two commits or to compare them.
    Failed(Error),
}

/// Whether commits would be lost, from what was seen: only a branch that is
/// ahead of its tracking reference holds unpushed commits. Without `HEAD`, on a
/// detached `HEAD` and without a tracking reference nothing is unpushed, and
/// that is no failure; how far the branch is behind does not matter.
pub open spec fn unpushed_in(seen: Tracking) -> Result<bool, Error> {
    match seen {
        Tracking::NoHead => Ok(false),
        Tracking::Detached => Ok(false),
        Tracking::NoUpstream => Ok(false),
        Tracking::Ahead(ahead) => Ok(ahead > 0),
        Tracking::Failed(e) => Err(e),
    }
}

/// Whether commits would be lost, from what was seen.
pub fn unpushed_from(seen: Tracking) -> (r: Result<bool, Error>)
    ensures
        r == unpushed_in(seen),
{
    match seen {
        Tracking::NoHead => Ok(false),
        Tracking::Detached => Ok(false),
        Tracking::NoUpstream => Ok(false),
        Tracking::Ahead(ahead) => Ok(is_ahead(ahead)),
        Tracking::Failed(e) => Err(e),
    }
}

/// Looks at the current branch and at the reference `refs/remotes/origin/<branch>`.
pub fn tracking(repo: &git2::Repository) -> (r: Tracking)
    ensures
        r matches Tracking::Failed(e) ==> e is Git,
{
    let head = match head_reference(repo) {
        Ok(h) => h,
        Err(_) => {
            return Tracking::NoHead;
        },
    };
    if !reference_is_branch(&head) {
        return Tracking::Detached;
    }
    let branch = match reference_shorthand(&head) {
        Some(name) => name,
        None => String::new(),
    };
    let upstream_name = upstream_reference(branch.as_str());
    let upstream = match find_reference(repo, upstream_name.as_str()) {
        Ok(u) => u,
        Err(_) => {
            return Tracking::NoUpstream;
        },
    };
    let local_tip = match reference_tip(&head) {
        Ok(tip) => tip,
        Err(e) => {
            return Tracking::Failed(e);
        },
    };
    let upstream_tip = match reference_tip(&upstream) {
        Ok(tip) => tip,
        Err(e) => {
            return Tracking::Failed(e);
        },
    };
    match graph_ahead_behind(repo, &local_tip, &upstream_tip) {
        Ok((ahead, _)) => Tracking::Ahead(ahead),
        Err(e) => Tracking::Failed(git_failure(&e)),
    }
}

/// Whether the current branch is ahead of the reference that tracks it on
/// `origin`: what `unpushed_from` makes of what `tracking` saw. The only
/// failures are those of the backend when it resolves the two commits or
/// compares them.
pub fn has_unpushed_commits(repo: &git2::Repository) -> (r: Result<bool, Error>)
    ensures
        r matches Err(e) ==> e is Git,
{
    unpushed_from(tracking(repo))
}

} // verus!
