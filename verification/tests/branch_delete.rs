use git_utils::branch_delete::{
    branch_label, candidate_names, chosen_branches, filter_candidates, survey, BatchReport,
    BatchRequest, BatchStep, Candidate, DeleteBatch, DeleteOptions, DeletePlan,
};
use git_utils::error::Error;

fn names(list: &[&str]) -> Vec<String> {
    list.iter().map(|s| s.to_string()).collect()
}

fn options() -> DeleteOptions {
    DeleteOptions { all: false, merged: false, select: false, force: false, remote: false }
}

fn candidate(name: &str, merged: bool) -> Candidate {
    Candidate { name: name.to_string(), merged }
}

#[test]
fn force_with_merged_is_refused() {
    let given = DeleteOptions { force: true, merged: true, ..options() };
    assert_eq!(
        DeletePlan::new(&given),
        Err(Error::ConflictingOptions { first: "force".to_string(), second: "merged".to_string() })
    );
}

#[test]
fn all_excludes_merged_and_select() {
    let with_merged = DeleteOptions { all: true, merged: true, ..options() };
    assert_eq!(
        DeletePlan::new(&with_merged),
        Err(Error::ConflictingOptions { first: "all".to_string(), second: "merged".to_string() })
    );
    let with_select = DeleteOptions { all: true, select: true, ..options() };
    assert_eq!(
        DeletePlan::new(&with_select),
        Err(Error::ConflictingOptions { first: "all".to_string(), second: "select".to_string() })
    );
}

#[test]
fn every_combination_is_a_plan_or_a_conflict() {
    for bits in 0..32u32 {
        let given = DeleteOptions {
            all: bits & 1 != 0,
            merged: bits & 2 != 0,
            select: bits & 4 != 0,
            force: bits & 8 != 0,
            remote: bits & 16 != 0,
        };
        let conflict =
            (given.all && (given.merged || given.select)) || (given.force && given.merged);
        match DeletePlan::new(&given) {
            Ok(plan) => {
                assert!(!conflict);
                assert_eq!(plan.forces(), given.force);
                assert_eq!(plan.selects(), given.select);
                assert_eq!(plan.includes_remote(), given.remote);
                assert_eq!(
                    plan.prefilters(),
                    !given.all && !given.force && (given.merged || !given.select)
                );
            }
            Err(e) => {
                assert!(conflict);
                assert!(matches!(e, Error::ConflictingOptions { .. }));
            }
        }
    }
}

#[test]
fn merged_is_the_default_filter() {
    assert!(DeletePlan::new(&options()).unwrap().prefilters());
    assert!(DeletePlan::new(&DeleteOptions { merged: true, ..options() }).unwrap().prefilters());
    assert!(!DeletePlan::new(&DeleteOptions { all: true, ..options() }).unwrap().prefilters());
    assert!(!DeletePlan::new(&DeleteOptions { force: true, ..options() }).unwrap().prefilters());
    assert!(!DeletePlan::new(&DeleteOptions { select: true, ..options() }).unwrap().prefilters());
    let both = DeleteOptions { select: true, merged: true, ..options() };
    assert!(DeletePlan::new(&both).unwrap().prefilters());
}

#[test]
fn candidates_leave_out_current_and_base() {
    let all = names(&["main", "a", "work", "b", "main"]);
    assert_eq!(candidate_names(&all, "work", "main"), names(&["a", "b"]));
    assert_eq!(candidate_names(&all, "main", "main"), names(&["a", "work", "b"]));
    assert_eq!(candidate_names(&names(&[]), "x", "y"), names(&[]));
}

#[test]
fn filter_keeps_merged_candidates_in_order() {
    let all = vec![candidate("a", true), candidate("b", false), candidate("c", true)];
    assert_eq!(filter_candidates(all.clone(), true), vec![candidate("a", true), candidate("c", true)]);
    assert_eq!(filter_candidates(all.clone(), false), all);
    assert_eq!(filter_candidates(Vec::new(), true), Vec::new());
}

#[test]
fn chosen_branches_follow_the_answers() {
    let all = vec![candidate("a", true), candidate("b", false), candidate("c", true)];
    let by_hand = DeletePlan::new(&DeleteOptions { select: true, ..options() }).unwrap();
    assert_eq!(chosen_branches(&by_hand, &all, &vec![true, false, true]), names(&["a", "c"]));
    assert_eq!(chosen_branches(&by_hand, &all, &vec![false, true]), names(&["b"]));
    assert_eq!(chosen_branches(&by_hand, &all, &vec![]), names(&[]));
    let at_once = DeletePlan::new(&options()).unwrap();
    assert_eq!(chosen_branches(&at_once, &all, &vec![true]), names(&["a", "b", "c"]));
    assert_eq!(chosen_branches(&at_once, &all, &vec![false, true, true]), names(&[]));
    assert_eq!(chosen_branches(&at_once, &all, &vec![]), names(&[]));
}

#[test]
fn label_marks_merged_branches() {
    assert_eq!(branch_label("topic", true), "topic [merged]");
    assert_eq!(branch_label("topic", false), "topic");
}

fn drive(batch: &mut DeleteBatch, replies: &[bool]) -> Vec<BatchRequest> {
    let mut seen = Vec::new();
    for reply in replies {
        seen.push(batch.request());
        batch.reply(*reply);
    }
    seen.push(batch.request());
    seen
}

#[test]
fn failure_of_one_branch_does_not_stop_the_batch() {
    let plan = DeletePlan::new(&options()).unwrap();
    let mut batch = DeleteBatch::new(names(&["x", "y"]), &plan);
    let seen = drive(&mut batch, &[true, false]);
    let report = BatchReport { deleted: 1, skipped: 1, remote_deleted: 0, remote_failed: 0 };
    assert_eq!(
        seen,
        vec![
            BatchRequest::Step(BatchStep::DeleteLocal, "x".to_string()),
            BatchRequest::Step(BatchStep::DeleteLocal, "y".to_string()),
            BatchRequest::Finished(report),
        ]
    );
    assert_eq!(batch.report(), report);
}

#[test]
fn failure_first_does_not_hide_a_later_success() {
    let plan = DeletePlan::new(&options()).unwrap();
    let mut batch = DeleteBatch::new(names(&["y", "x", "z"]), &plan);
    drive(&mut batch, &[false, true, false]);
    assert_eq!(
        batch.report(),
        BatchReport { deleted: 1, skipped: 2, remote_deleted: 0, remote_failed: 0 }
    );
    // a finished batch takes no more replies
    batch.reply(true);
    assert_eq!(
        batch.request(),
        BatchRequest::Finished(BatchReport { deleted: 1, skipped: 2, remote_deleted: 0, remote_failed: 0 })
    );
}

#[test]
fn empty_batch_is_finished_at_once() {
    let plan = DeletePlan::new(&options()).unwrap();
    let batch = DeleteBatch::new(Vec::new(), &plan);
    assert_eq!(
        batch.request(),
        BatchRequest::Finished(BatchReport { deleted: 0, skipped: 0, remote_deleted: 0, remote_failed: 0 })
    );
}

#[test]
fn remote_branch_is_offered_after_a_local_deletion() {
    let plan = DeletePlan::new(&DeleteOptions { remote: true, ..options() }).unwrap();
    let mut batch = DeleteBatch::new(names(&["a", "b", "c", "d", "e"]), &plan);
    let seen = drive(
        &mut batch,
        &[
            true, true, true, true, // a: deleted, remote exists, confirmed, remote deleted
            false, // b: local deletion fails
            true, false, // c: deleted, no remote branch
            true, true, false, // d: deleted, remote exists, declined
            true, true, true, false, // e: deleted, remote exists, confirmed, remote deletion fails
        ],
    );
    let steps: Vec<(BatchStep, String)> = seen
        .iter()
        .filter_map(|r| match r {
            BatchRequest::Step(step, name) => Some((*step, name.clone())),
            BatchRequest::Finished(_) => None,
        })
        .collect();
    let expected: Vec<(BatchStep, String)> = [
        (BatchStep::DeleteLocal, "a"),
        (BatchStep::CheckRemote, "a"),
        (BatchStep::ConfirmRemote, "a"),
        (BatchStep::DeleteRemote, "a"),
        (BatchStep::DeleteLocal, "b"),
        (BatchStep::DeleteLocal, "c"),
        (BatchStep::CheckRemote, "c"),
        (BatchStep::DeleteLocal, "d"),
        (BatchStep::CheckRemote, "d"),
        (BatchStep::ConfirmRemote, "d"),
        (BatchStep::DeleteLocal, "e"),
        (BatchStep::CheckRemote, "e"),
        (BatchStep::ConfirmRemote, "e"),
        (BatchStep::DeleteRemote, "e"),
    ]
    .iter()
    .map(|(s, n)| (*s, n.to_string()))
    .collect();
    assert_eq!(steps, expected);
    assert_eq!(
        batch.report(),
        BatchReport { deleted: 4, skipped: 1, remote_deleted: 1, remote_failed: 1 }
    );
}

fn scratch(name: &str) -> git2::Repository {
    let nanos = std::time::SystemTime::now()
        .duration_since(std::time::UNIX_EPOCH)
        .map(|d| d.as_nanos())
        .unwrap_or(0);
    git2::Repository::init(format!("/tmp/git-utils-tests/{}-{}", name, nanos)).unwrap()
}

fn commit(repo: &git2::Repository, message: &str, parents: &[git2::Oid]) -> git2::Oid {
    let tree = repo.find_tree(repo.treebuilder(None).unwrap().write().unwrap()).unwrap();
    let who = git2::Signature::new("t", "t@example.com", &git2::Time::new(0, 0)).unwrap();
    let parents: Vec<git2::Commit> = parents.iter().map(|p| repo.find_commit(*p).unwrap()).collect();
    let refs: Vec<&git2::Commit> = parents.iter().collect();
    repo.commit(None, &who, &who, message, &tree, &refs).unwrap()
}

#[test]
fn survey_finds_the_candidates_of_a_repository() {
    let repo = scratch("survey");
    let a = commit(&repo, "a", &[]);
    let b = commit(&repo, "b", &[a]);
    let side = commit(&repo, "side", &[]);
    for (name, at) in [("main", a), ("work", b), ("landed", b), ("side", side)] {
        repo.branch(name, &repo.find_commit(at).unwrap(), true).unwrap();
    }
    repo.set_head("refs/heads/work").unwrap();
    let merged_only = survey(&repo, &DeletePlan::new(&options()).unwrap()).unwrap();
    assert_eq!(merged_only.current, "work");
    assert_eq!(merged_only.base, "main");
    assert_eq!(merged_only.candidates, vec![candidate("landed", true)]);
    let all = DeleteOptions { all: true, ..options() };
    let mut every = survey(&repo, &DeletePlan::new(&all).unwrap()).unwrap().candidates;
    every.sort_by(|x, y| x.name.cmp(&y.name));
    assert_eq!(every, vec![candidate("landed", true), candidate("side", false)]);
}
