//! The deletion of stale branches.
//!
//! The branches that may go are the local ones but the current and the base
//! branch. Unless all of them are asked for, or the deletion is forced, or each
//! one is to be confirmed by hand, only the merged ones are kept. The deletion
//! itself runs branch by branch: a branch that cannot be deleted is counted and
//! the run goes on.

use vstd::prelude::*;
use vstd::string::*;
use crate::branch::{
    detect_base_branch, get_current_branch, get_local_branches, is_branch_merged, merged_or_default,
};
use crate::error::Error;
use crate::text::{concat2, same_text};

verus! {

/// The options of a deletion as they were given.
#[derive(Debug, Clone, Copy, PartialEq, Eq)]
pub struct DeleteOptions {
    /// Delete all branches except base and current.
    pub all: bool,
    /// Delete only merged branches.
    pub merged: bool,
    /// Select branches one by one.
    pub select: bool,
    /// Force the deletion of branches that are not merged.
    pub force: bool,
    /// Also delete the branches that track them on the remote.
    pub remote: bool,
}

/// Options that exclude each other: `all` with `merged` or with `select`, and
/// `force` with `merged`.
pub open spec fn conflicting(options: DeleteOptions) -> bool {
    (options.all && options.merged) || (options.all && options.select) || (options.force
        && options.merged)
}

/// Whether only merged branches become candidates: not when all are asked for,
/// not when the deletion is forced, and not when the branches are selected one
/// by one, unless `merged` was given with it.
pub open spec fn prefilter_of(options: DeleteOptions) -> bool {
    !options.all && !options.force && (options.merged || !options.select)
}

/// Options that were checked: what a deletion goes by.
#[derive(Debug, Clone, Copy, PartialEq, Eq)]
pub struct DeletePlan {
    prefilter: bool,
    select: bool,
    force: bool,
    remote: bool,
}

impl DeletePlan {
    /// Whether only merged branches become candidates.
    pub closed spec fn prefilter(&self) -> bool {
        self.prefilter
    }

    /// Whether each branch is confirmed by hand.
    pub closed spec fn select(&self) -> bool {
        self.select
    }

    /// Whether branches are deleted whether merged or not.
    pub closed spec fn force(&self) -> bool {
        self.force
    }

    /// Whether the remote branches are offered for deletion too.
    pub closed spec fn remote(&self) -> bool {
        self.remote
    }

    /// Checks the options. Options that exclude each other are refused here,
    /// before anything is asked of a repository: every function of this module
    /// that takes a repository takes a plan.
    pub fn new(options: &DeleteOptions) -> (r: Result<DeletePlan, Error>)
        ensures
            r is Err <==> conflicting(*options),
            r matches Err(e) ==> e is ConflictingOptions,
            r matches Ok(plan) ==> {
                &&& plan.prefilter() == prefilter_of(*options)
                &&& plan.select() == options.select
                &&& plan.force() == options.force
                &&& plan.remote() == options.remote
            },
    {
        if options.all && options.merged {
            return Err(conflict("all", "merged"));
        }
        if options.all && options.select {
            return Err(conflict("all", "select"));
        }
        if options.force && options.merged {
            return Err(conflict("force", "merged"));
        }
        Ok(
            DeletePlan {
                prefilter: !options.all && !options.force && (options.merged || !options.select),
                select: options.select,
                force: options.force,
                remote: options.remote,
            },
        )
    }

    /// Whether only merged branches become candidates.
    pub fn prefilters(&self) -> (r: bool)
        ensures
            r == self.prefilter(),
    {
        self.prefilter
    }

    /// Whether each branch is confirmed by hand.
    pub fn selects(&self) -> (r: bool)
        ensures
            r == self.select(),
    {
        self.select
    }

    /// Whether branches are deleted whether merged or not.
    pub fn forces(&self) -> (r: bool)
        ensures
            r == self.force(),
    {
        self.force
    }

    /// Whether the remote branches are offered for deletion too.
    pub fn includes_remote(&self) -> (r: bool)
        ensures
            r == self.remote(),
    {
        self.remote
    }
}

fn conflict(first: &str, second: &str) -> (r: Error)
    ensures
        r is ConflictingOptions,
{
    Error::ConflictingOptions { first: first.to_owned(), second: second.to_owned() }
}

/// `force` together with `merged` is never a plan.
pub proof fn lemma_force_excludes_merged(options: DeleteOptions)
    requires
        options.force,
        options.merged,
    ensures
        conflicting(options),
{
}

/// A branch that may be deleted, with the answer to whether it is merged.
#[derive(Debug, Clone, PartialEq, Eq)]
pub struct Candidate {
    pub name: String,
    pub merged: bool,
}

impl View for Candidate {
    type V = (Seq<char>, bool);

    open spec fn view(&self) -> (Seq<char>, bool) {
        (self.name@, self.merged)
    }
}

/// What a deletion found in a repository.
#[derive(Debug, Clone, PartialEq, Eq)]
pub struct Survey {
    pub current: String,
    pub base: String,
    pub candidates: Vec<Candidate>,
}

/// Whether a name is neither of two names.
pub open spec fn is_neither(a: Seq<char>, b: Seq<char>) -> spec_fn(Seq<char>) -> bool {
    |name: Seq<char>| name != a && name != b
}

/// Whether a candidate is merged.
pub open spec fn is_merged() -> spec_fn((Seq<char>, bool)) -> bool {
    |candidate: (Seq<char>, bool)| candidate.1
}

/// The names but `current` and `base`, in their order.
pub open spec fn others(names: Seq<Seq<char>>, current: Seq<char>, base: Seq<char>) -> Seq<Seq<char>> {
    names.filter(is_neither(current, base))
}

/// The candidates that are merged, in their order.
pub open spec fn merged_only(candidates: Seq<(Seq<char>, bool)>) -> Seq<(Seq<char>, bool)> {
    candidates.filter(is_merged())
}

/// The candidates that a plan keeps.
pub open spec fn kept(candidates: Seq<(Seq<char>, bool)>, prefilter: bool) -> Seq<(Seq<char>, bool)> {
    if prefilter {
        merged_only(candidates)
    } else {
        candidates
    }
}

/// How a branch is shown: its name, with ` [merged]` behind it where it is merged.
pub open spec fn label_of(name: Seq<char>, merged: bool) -> Seq<char> {
    if merged {
        name + " [merged]"@
    } else {
        name
    }
}

/// The branches that may be deleted: all but the current and the base branch.
pub fn candidate_names(branches: &Vec<String>, current: &str, base: &str) -> (r: Vec<String>)
    ensures
        r.deep_view() == others(branches.deep_view(), current@, base@),
{
    let mut out: Vec<String> = Vec::new();
    let mut i: usize = 0;
    proof {
        reveal(Seq::filter);
        assert(out.deep_view() =~= others(branches.deep_view().take(0), current@, base@));
    }
    while i < branches.len()
        invariant
            i <= branches.len(),
            out.deep_view() == others(branches.deep_view().take(i as int), current@, base@),
        decreases branches.len() - i,
    {
        let name = &branches[i];
        proof {
            let seen = branches.deep_view().take(i as int);
            assert(branches.deep_view().take(i + 1) =~= seen.push(name@));
            seen.lemma_filter_push(name@, is_neither(current@, base@));
        }
        if !same_text(name.as_str(), current) && !same_text(name.as_str(), base) {
            let ghost before = out.deep_view();
            out.push(name.clone());
            assert(out.deep_view() =~= before.push(name@));
        }
        i += 1;
    }
    assert(branches.deep_view().take(branches.len() as int) =~= branches.deep_view());
    out
}

/// What a `Vec` of candidates stands for.
pub open spec fn candidates_of(candidates: Seq<Candidate>) -> Seq<(Seq<char>, bool)> {
    Seq::new(candidates.len(), |i: int| candidates[i]@)
}

/// The candidates that a plan keeps: the merged ones under the filter, else all.
pub fn filter_candidates(candidates: Vec<Candidate>, prefilter: bool) -> (r: Vec<Candidate>)
    ensures
        candidates_of(r@) == kept(candidates_of(candidates@), prefilter),
{
    if !prefilter {
        return candidates;
    }
    let ghost all = candidates_of(candidates@);
    let mut out: Vec<Candidate> = Vec::new();
    let mut i: usize = 0;
    proof {
        reveal(Seq::filter);
        assert(candidates_of(out@) =~= merged_only(all.take(0)));
    }
    while i < candidates.len()
        invariant
            i <= candidates.len(),
            all == candidates_of(candidates@),
            candidates_of(out@) == merged_only(all.take(i as int)),
        decreases candidates.len() - i,
    {
        proof {
            let seen = all.take(i as int);
            assert(all.take(i + 1) =~= seen.push(candidates[i as int]@));
            seen.lemma_filter_push(candidates[i as int]@, is_merged());
        }
        if candidates[i].merged {
            let ghost before = candidates_of(out@);
            let kept = Candidate { name: candidates[i].name.clone(), merged: true };
            out.push(kept);
            assert(candidates_of(out@) =~= before.push(candidates[i as int]@));
        }
        i += 1;
    }
    assert(all.take(candidates.len() as int) =~= all);
    out
}

/// How a branch is shown.
pub fn branch_label(name: &str, merged: bool) -> (r: String)
    ensures
        r@ == label_of(name@, merged),
{
    if merged {
        concat2(name, " [merged]")
    } else {
        name.to_owned()
    }
}

/// The names as candidates, each with the answer to whether it is merged; a name
/// without an answer counts as not merged.
pub open spec fn rated(names: Seq<Seq<char>>, merged: Seq<bool>) -> Seq<(Seq<char>, bool)> {
    Seq::new(names.len(), |i: int| (names[i], i < merged.len() && merged[i]))
}

/// What a survey holds: for some local branches and some answers to whether
/// they are merged, the candidates that the filter keeps among the branches but
/// the current and the base one.
pub open spec fn surveyed(found: Survey, prefilter: bool) -> bool {
    exists|branches: Seq<Seq<char>>, merged: Seq<bool>|
        candidates_of(found.candidates@) == kept(
            #[trigger] rated(others(branches, found.current@, found.base@), merged),
            prefilter,
        )
}

/// No candidate is the current or the base branch, and under the filter every
/// candidate is merged.
pub proof fn lemma_candidates(
    branches: Seq<Seq<char>>,
    current: Seq<char>,
    base: Seq<char>,
    merged: Seq<bool>,
    prefilter: bool,
    k: int,
)
    requires
        0 <= k < kept(rated(others(branches, current, base), merged), prefilter).len(),
    ensures
        kept(rated(others(branches, current, base), merged), prefilter)[k].0 != current,
        kept(rated(others(branches, current, base), merged), prefilter)[k].0 != base,
        prefilter ==> kept(rated(others(branches, current, base), merged), prefilter)[k].1,
{
    let names = others(branches, current, base);
    let all = rated(names, merged);
    let shown = kept(all, prefilter);
    let c = shown[k];
    assert(shown.contains(c));
    if prefilter {
        all.lemma_filter_contains_rev(is_merged(), c);
        all.lemma_filter_pred(is_merged(), k);
    }
    let j = choose|j: int| 0 <= j < all.len() && all[j] == c;
    assert(names[j] == c.0);
    branches.lemma_filter_pred(is_neither(current, base), j);
}

/// Looks up the current branch, the base branch and the candidates of a deletion.
///
/// The candidates are the local branches but the current and the base branch,
/// each with the backend's answer to whether it is merged, and under the filter
/// of the plan only the merged ones. An answer that fails counts as not merged.
pub fn survey(repo: &git2::Repository, plan: &DeletePlan) -> (r: Result<Survey, Error>)
    ensures
        r matches Ok(s) ==> surveyed(s, plan.prefilter()),
        r matches Err(e) ==> e is Git || e is DetachedHead || e == Error::BaseBranchNotFound,
{
    let current = get_current_branch(repo)?;
    let base = detect_base_branch(repo)?;
    let branches = get_local_branches(repo)?;
    let names = candidate_names(&branches, current.as_str(), base.as_str());
    let mut candidates: Vec<Candidate> = Vec::new();
    let mut i: usize = 0;
    while i < names.len()
        invariant
            i <= names.len(),
            candidates.len() == i,
            forall|k: int| 0 <= k < i ==> (#[trigger] candidates[k]).name@ == names[k]@,
        decreases names.len() - i,
    {
        let answer = is_branch_merged(repo, names[i].as_str(), base.as_str());
        candidates.push(Candidate { name: names[i].clone(), merged: merged_or_default(&answer) });
        i += 1;
    }
    let ghost merged = Seq::new(candidates.len() as nat, |k: int| candidates[k].merged);
    let ghost all = rated(others(branches.deep_view(), current@, base@), merged);
    assert(candidates_of(candidates@) =~= all);
    let kept_candidates = filter_candidates(candidates, plan.prefilter);
    let found = Survey { current, base, candidates: kept_candidates };
    assert(candidates_of(found.candidates@) == kept(
        rated(others(branches.deep_view(), found.current@, found.base@), merged),
        plan.prefilter(),
    ));
    Ok(found)
}

/// The branches that were chosen for deletion. Where each branch is confirmed
/// by hand, `answers` holds one answer for each candidate, and a candidate
/// without an answer is not chosen; else the first answer confirms them all.
pub open spec fn chosen(candidates: Seq<(Seq<char>, bool)>, select: bool, answers: Seq<bool>) -> Seq<
    Seq<char>,
>
    decreases candidates.len(),
{
    if candidates.len() == 0 {
        Seq::empty()
    } else {
        let earlier = chosen(candidates.drop_last(), select, answers);
        let at = candidates.len() - 1;
        let yes = if select {
            at < answers.len() && answers[at]
        } else {
            answers.len() > 0 && answers[0]
        };
        if yes {
            earlier.push(candidates.last().0)
        } else {
            earlier
        }
    }
}

/// The branches that were chosen for deletion.
pub fn chosen_branches(plan: &DeletePlan, candidates: &Vec<Candidate>, answers: &Vec<bool>) -> (r: Vec<
    String,
>)
    ensures
        r.deep_view() == chosen(candidates_of(candidates@), plan.select(), answers@),
{
    let ghost all = candidates_of(candidates@);
    let mut names: Vec<String> = Vec::new();
    let mut i: usize = 0;
    while i < candidates.len()
        invariant
            i <= candidates.len(),
            all == candidates_of(candidates@),
            names.deep_view() == chosen(all.take(i as int), plan.select(), answers@),
        decreases candidates.len() - i,
    {
        assert(all.take(i + 1).drop_last() =~= all.take(i as int));
        assert(all.take(i + 1).last() == candidates[i as int]@);
        let yes = if plan.select {
            i < answers.len() && answers[i]
        } else {
            answers.len() > 0 && answers[0]
        };
        if yes {
            let ghost before = names.deep_view();
            names.push(candidates[i].name.clone());
            assert(names.deep_view() =~= before.push(candidates[i as int].name@));
        }
        i += 1;
    }
    assert(all.take(candidates.len() as int) =~= all);
    names
}

/// What is asked about the branch that a batch is at.
#[derive(Debug, Clone, Copy, PartialEq, Eq)]
pub enum BatchStep {
    /// Delete the local branch, and report whether that succeeded.
    DeleteLocal,
    /// Report whether a branch of the remote tracks it.
    CheckRemote,
    /// Ask whether the remote branch is to be deleted too.
    ConfirmRemote,
    /// Delete the remote branch, and report whether that succeeded.
    DeleteRemote,
}

/// The counts of a batch.
#[derive(Debug, Clone, Copy, PartialEq, Eq)]
pub struct BatchReport {
    /// Local branches that were deleted.
    pub deleted: usize,
    /// Local branches whose deletion failed.
    pub skipped: usize,
    /// Remote branches that were deleted.
    pub remote_deleted: usize,
    /// Remote branches whose deletion failed.
    pub remote_failed: usize,
}

/// What a batch asks of its caller next.
#[derive(Debug, Clone, PartialEq, Eq)]
pub enum BatchRequest {
    /// Do the step for the branch of this name, and reply.
    Step(BatchStep, String),
    /// Every branch was gone through.
    Finished(BatchReport),
}

/// What a `DeleteBatch` stands for.
pub struct BatchState {
    pub names: Seq<Seq<char>>,
    pub position: nat,
    pub step: BatchStep,
    pub remote: bool,
    pub report: BatchReport,
}

impl BatchState {
    /// The batch at its start.
    pub open spec fn start(names: Seq<Seq<char>>, remote: bool) -> BatchState {
        BatchState {
            names,
            position: 0,
            step: BatchStep::DeleteLocal,
            remote,
            report: BatchReport { deleted: 0, skipped: 0, remote_deleted: 0, remote_failed: 0 },
        }
    }

    /// Every branch was gone through.
    pub open spec fn finished(self) -> bool {
        self.position >= self.names.len()
    }

    /// The counts fit the position: each branch that was gone through was
    /// deleted or skipped, the branch whose remote is dealt with was deleted,
    /// and no more remote branches were dealt with than local ones deleted.
    pub open spec fn wf(self) -> bool {
        &&& self.position <= self.names.len()
        &&& self.names.len() <= usize::MAX
        &&& self.step != BatchStep::DeleteLocal ==> self.remote && self.position < self.names.len()
        &&& self.report.deleted + self.report.skipped == self.position + if self.step
            == BatchStep::DeleteLocal {
            0nat
        } else {
            1nat
        }
        &&& self.report.remote_deleted + self.report.remote_failed + if self.step
            == BatchStep::DeleteLocal {
            0nat
        } else {
            1nat
        } <= self.report.deleted
    }

    /// The batch at the next branch.
    pub open spec fn at_next(self, report: BatchReport) -> BatchState {
        BatchState { position: self.position + 1, step: BatchStep::DeleteLocal, report, ..self }
    }

    /// The batch after a reply. A local deletion that failed is counted and the
    /// batch goes on; one that succeeded is counted, and the remote branch is
    /// looked for where the remote is included. A remote branch that does not
    /// exist, or is not to be deleted, ends the work on its branch; a remote
    /// deletion is counted whichever way it went. A finished batch stays as
    /// it is.
    pub open spec fn after_reply(self, reply: bool) -> BatchState {
        let r = self.report;
        if self.finished() {
            self
        } else {
            match self.step {
                BatchStep::DeleteLocal => if !reply {
                    self.at_next(BatchReport { skipped: (r.skipped + 1) as usize, ..r })
                } else if self.remote {
                    BatchState {
                        step: BatchStep::CheckRemote,
                        report: BatchReport { deleted: (r.deleted + 1) as usize, ..r },
                        ..self
                    }
                } else {
                    self.at_next(BatchReport { deleted: (r.deleted + 1) as usize, ..r })
                },
                BatchStep::CheckRemote => if reply {
                    BatchState { step: BatchStep::ConfirmRemote, ..self }
                } else {
                    self.at_next(r)
                },
                BatchStep::ConfirmRemote => if reply {
                    BatchState { step: BatchStep::DeleteRemote, ..self }
                } else {
                    self.at_next(r)
                },
                BatchStep::DeleteRemote => if reply {
                    self.at_next(BatchReport { remote_deleted: (r.remote_deleted + 1) as usize, ..r })
                } else {
                    self.at_next(BatchReport { remote_failed: (r.remote_failed + 1) as usize, ..r })
                },
            }
        }
    }

    /// The batch after a run of replies.
    pub open spec fn after_replies(self, replies: Seq<bool>) -> BatchState
        decreases replies.len(),
    {
        if replies.len() == 0 {
            self
        } else {
            self.after_replies(replies.drop_last()).after_reply(replies.last())
        }
    }
}

/// How many of the replies are `wanted`.
pub open spec fn count_of(replies: Seq<bool>, wanted: bool) -> nat
    decreases replies.len(),
{
    if replies.len() == 0 {
        0
    } else {
        count_of(replies.drop_last(), wanted) + if replies.last() == wanted {
            1nat
        } else {
            0nat
        }
    }
}

/// A reply keeps the counts fitting.
pub proof fn lemma_reply_keeps_wf(s: BatchState, reply: bool)
    requires
        s.wf(),
    ensures
        s.after_reply(reply).wf(),
        s.after_reply(reply).names == s.names,
        s.after_reply(reply).remote == s.remote,
{
}

/// Whatever the replies, the counts fit, and a finished batch has counted every
/// branch once: as deleted or as skipped.
pub proof fn lemma_batch_counts(names: Seq<Seq<char>>, remote: bool, replies: Seq<bool>)
    requires
        names.len() <= usize::MAX,
    ensures
        BatchState::start(names, remote).after_replies(replies).wf(),
        BatchState::start(names, remote).after_replies(replies).names == names,
        BatchState::start(names, remote).after_replies(replies).remote == remote,
        BatchState::start(names, remote).after_replies(replies).finished() ==> BatchState::start(
            names,
            remote,
        ).after_replies(replies).report.deleted + BatchState::start(names, remote).after_replies(
            replies,
        ).report.skipped == names.len(),
    decreases replies.len(),
{
    if replies.len() > 0 {
        lemma_batch_counts(names, remote, replies.drop_last());
        lemma_reply_keeps_wf(
            BatchState::start(names, remote).after_replies(replies.drop_last()),
            replies.last(),
        );
    }
}

/// Without the remote, a batch that got one reply for each branch is finished,
/// and has counted as deleted the branches whose deletion succeeded and as
/// skipped the ones whose deletion failed. No failure takes a success away.
pub proof fn lemma_local_batch(names: Seq<Seq<char>>, replies: Seq<bool>)
    requires
        names.len() <= usize::MAX,
        replies.len() <= names.len(),
    ensures
        BatchState::start(names, false).after_replies(replies).position == replies.len(),
        BatchState::start(names, false).after_replies(replies).report.deleted == count_of(
            replies,
            true,
        ),
        BatchState::start(names, false).after_replies(replies).report.skipped == count_of(
            replies,
            false,
        ),
        BatchState::start(names, false).after_replies(replies).step == BatchStep::DeleteLocal,
    decreases replies.len(),
{
    if replies.len() > 0 {
        lemma_local_batch(names, replies.drop_last());
        lemma_batch_counts(names, false, replies.drop_last());
    }
}

/// Where a batch stands.
#[derive(Debug, Clone, Copy, PartialEq, Eq)]
struct Cursor {
    position: usize,
    step: BatchStep,
    report: BatchReport,
}

/// The run of a deletion over the branches that were chosen.
pub struct DeleteBatch {
    names: Vec<String>,
    remote: bool,
    cursor: Cursor,
}

impl View for DeleteBatch {
    type V = BatchState;

    closed spec fn view(&self) -> BatchState {
        BatchState {
            names: self.names.deep_view(),
            position: self.cursor.position as nat,
            step: self.cursor.step,
            remote: self.remote,
            report: self.cursor.report,
        }
    }
}

impl DeleteBatch {
    #[verifier::type_invariant]
    spec fn counts_fit(&self) -> bool {
        self@.wf()
    }

    /// A batch over these branches that has yet to begin.
    pub fn new(names: Vec<String>, plan: &DeletePlan) -> (r: DeleteBatch)
        ensures
            r@ == BatchState::start(names.deep_view(), plan.remote()),
            r@.wf(),
    {
        assert(names.deep_view().len() == names.len());
        DeleteBatch {
            names,
            remote: plan.remote,
            cursor: Cursor {
                position: 0,
                step: BatchStep::DeleteLocal,
                report: BatchReport { deleted: 0, skipped: 0, remote_deleted: 0, remote_failed: 0 },
            },
        }
    }

    /// What the caller is to do next.
    pub fn request(&self) -> (r: BatchRequest)
        ensures
            self@.wf(),
            match r {
                BatchRequest::Step(step, name) => !self@.finished() && step == self@.step && name@
                    == self@.names[self@.position as int],
                BatchRequest::Finished(report) => self@.finished() && report == self@.report,
            },
    {
        proof {
            use_type_invariant(self);
        }
        if self.cursor.position >= self.names.len() {
            BatchRequest::Finished(self.cursor.report)
        } else {
            BatchRequest::Step(self.cursor.step, self.names[self.cursor.position].clone())
        }
    }

    /// Takes the caller's reply and moves on.
    pub fn reply(&mut self, reply: bool)
        ensures
            final(self)@ == old(self)@.after_reply(reply),
            final(self)@.wf(),
    {
        proof {
            use_type_invariant(&*self);
            lemma_reply_keeps_wf(self@, reply);
        }
        let at = self.cursor;
        if at.position >= self.names.len() {
            return ;
        }
        let r = at.report;
        let next: usize = at.position + 1;
        let moved = match at.step {
            BatchStep::DeleteLocal => if !reply {
                Cursor {
                    position: next,
                    step: BatchStep::DeleteLocal,
                    report: BatchReport { skipped: r.skipped + 1, ..r },
                }
            } else if self.remote {
                Cursor {
                    position: at.position,
                    step: BatchStep::CheckRemote,
                    report: BatchReport { deleted: r.deleted + 1, ..r },
                }
            } else {
                Cursor {
                    position: next,
                    step: BatchStep::DeleteLocal,
                    report: BatchReport { deleted: r.deleted + 1, ..r },
                }
            },
            BatchStep::CheckRemote => if reply {
                Cursor { step: BatchStep::ConfirmRemote, ..at }
            } else {
                Cursor { position: next, step: BatchStep::DeleteLocal, report: r }
            },
            BatchStep::ConfirmRemote => if reply {
                Cursor { step: BatchStep::DeleteRemote, ..at }
            } else {
                Cursor { position: next, step: BatchStep::DeleteLocal, report: r }
            },
            BatchStep::DeleteRemote => if reply {
                Cursor {
                    position: next,
                    step: BatchStep::DeleteLocal,
                    report: BatchReport { remote_deleted: r.remote_deleted + 1, ..r },
                }
            } else {
                Cursor {
                    position: next,
                    step: BatchStep::DeleteLocal,
                    report: BatchReport { remote_failed: r.remote_failed + 1, ..r },
                }
            },
        };
        self.cursor = moved;
    }

    /// The counts so far.
    pub fn report(&self) -> (r: BatchReport)
        ensures
            r == self@.report,
    {
        self.cursor.report
    }
}

} // verus!
