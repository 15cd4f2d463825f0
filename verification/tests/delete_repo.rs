use git_utils::delete_repo::{
    has_uncommitted_changes, has_unpushed_commits, is_ahead, is_dirty, removal_target, tracking,
    unpushed_from, upstream_reference, warning_of, DeleteFlow, DeleteStage, Tracking,
};
use git_utils::error::Error;

/// Runs a removal with the given replies and returns the stages it went through.
fn run(force: bool, dry_run: bool, replies: &[bool]) -> Vec<DeleteStage> {
    let mut flow = DeleteFlow::new(force, dry_run);
    let mut stages = vec![flow.request()];
    for reply in replies {
        flow.advance(*reply);
        stages.push(flow.request());
    }
    stages
}

#[test]
fn clean_repository_is_removed_after_confirmation() {
    assert_eq!(
        run(false, false, &[false, false, true, true]),
        vec![DeleteStage::CheckUncommitted, DeleteStage::CheckUnpushed, DeleteStage::ConfirmRemoval, DeleteStage::Remove, DeleteStage::Finished]
    );
}

#[test]
fn removal_is_called_off_without_confirmation() {
    assert_eq!(
        run(false, false, &[false, false, false, true]),
        vec![DeleteStage::CheckUncommitted, DeleteStage::CheckUnpushed, DeleteStage::ConfirmRemoval, DeleteStage::ReportCancelled, DeleteStage::Finished]
    );
}

#[test]
fn each_warning_must_be_confirmed() {
    assert_eq!(
        run(false, false, &[true, true, true, true, true, true]),
        vec![
            DeleteStage::CheckUncommitted,
            DeleteStage::WarnUncommitted,
            DeleteStage::CheckUnpushed,
            DeleteStage::WarnUnpushed,
            DeleteStage::ConfirmRemoval,
            DeleteStage::Remove,
            DeleteStage::Finished
        ]
    );
    assert_eq!(run(false, false, &[true, false]), vec![DeleteStage::CheckUncommitted, DeleteStage::WarnUncommitted, DeleteStage::Finished]);
    assert_eq!(
        run(false, false, &[false, true, false]),
        vec![DeleteStage::CheckUncommitted, DeleteStage::CheckUnpushed, DeleteStage::WarnUnpushed, DeleteStage::Finished]
    );
}

#[test]
fn force_skips_the_checks_but_not_the_confirmation() {
    assert_eq!(run(true, false, &[true, true]), vec![DeleteStage::ConfirmRemoval, DeleteStage::Remove, DeleteStage::Finished]);
    assert_eq!(run(true, false, &[false]), vec![DeleteStage::ConfirmRemoval, DeleteStage::ReportCancelled]);
}

#[test]
fn dry_run_warns_without_asking_and_removes_nothing() {
    let flow = DeleteFlow::new(false, true);
    assert!(!flow.asks());
    assert!(DeleteFlow::new(false, false).asks());
    for replies in [[true, false, true, false, true], [true, true, true, true, true]] {
        assert_eq!(
            run(false, true, &replies),
            vec![DeleteStage::CheckUncommitted, DeleteStage::WarnUncommitted, DeleteStage::CheckUnpushed, DeleteStage::WarnUnpushed, DeleteStage::DryRunReport, DeleteStage::Finished]
        );
    }
    assert_eq!(run(true, true, &[true, true]), vec![DeleteStage::DryRunReport, DeleteStage::Finished, DeleteStage::Finished]);
}

#[test]
fn warnings_name_what_would_be_lost() {
    assert_eq!(warning_of(DeleteStage::WarnUncommitted), Some(Error::DirtyWorkingTree));
    assert_eq!(warning_of(DeleteStage::WarnUnpushed), Some(Error::UnpushedCommits));
    for stage in [
        DeleteStage::CheckUncommitted,
        DeleteStage::CheckUnpushed,
        DeleteStage::DryRunReport,
        DeleteStage::ConfirmRemoval,
        DeleteStage::Remove,
        DeleteStage::ReportCancelled,
        DeleteStage::Finished,
    ] {
        assert_eq!(warning_of(stage), None);
    }
}

#[test]
fn target_is_the_selection_or_the_given_path() {
    assert_eq!(removal_target("/r", false, None, Some("d/u/x")), Ok("/r/d/u/x".to_string()));
    assert_eq!(removal_target("/r", true, Some("a/b/c"), Some("ignored")), Ok("/r/a/b/c".to_string()));
    assert!(matches!(removal_target("/r", false, None, None), Err(Error::InvalidInput(_))));
    assert!(matches!(removal_target("/r", false, Some("a"), None), Err(Error::InvalidInput(_))));
    assert!(matches!(removal_target("/r", true, None, Some("a")), Err(Error::InvalidInput(_))));
}

#[test]
fn only_a_branch_that_is_ahead_holds_unpushed_commits() {
    assert_eq!(unpushed_from(Tracking::NoHead), Ok(false));
    assert_eq!(unpushed_from(Tracking::Detached), Ok(false));
    assert_eq!(unpushed_from(Tracking::NoUpstream), Ok(false));
    assert_eq!(unpushed_from(Tracking::Ahead(0)), Ok(false));
    assert_eq!(unpushed_from(Tracking::Ahead(1)), Ok(true));
    assert_eq!(unpushed_from(Tracking::Ahead(usize::MAX)), Ok(true));
    assert_eq!(
        unpushed_from(Tracking::Failed(Error::Git("broken".to_string()))),
        Err(Error::Git("broken".to_string()))
    );
}

#[test]
fn dirty_and_ahead_are_counts_above_zero() {
    assert!(is_dirty(Some(1)));
    assert!(!is_dirty(Some(0)));
    assert!(!is_dirty(None));
    assert!(is_ahead(1));
    assert!(!is_ahead(0));
    assert_eq!(upstream_reference("topic"), "refs/remotes/origin/topic");
}

fn scratch(name: &str) -> git2::Repository {
    let nanos = std::time::SystemTime::now()
        .duration_since(std::time::UNIX_EPOCH)
        .map(|d| d.as_nanos())
        .unwrap_or(0);
    git2::Repository::init(format!("/tmp/git-utils-tests/{}-{}", name, nanos)).unwrap()
}

fn commit(repo: &git2::Repository, message: &str, parents: &[git2::Oid]) -> git2::Oid {
    let tree = repo.find_tree(repo.treebuilder(None).unwrap().write().unwrap()).unwrap();
    let who = git2::Signature::new("t", "t@example.com", &git2::Time::new(0, 0)).unwrap();
    let parents: Vec<git2::Commit> = parents.iter().map(|p| repo.find_commit(*p).unwrap()).collect();
    let refs: Vec<&git2::Commit> = parents.iter().collect();
    repo.commit(None, &who, &who, message, &tree, &refs).unwrap()
}

#[test]
fn unpushed_commits_are_those_ahead_of_origin() {
    let repo = scratch("unpushed");
    assert_eq!(tracking(&repo), Tracking::NoHead);
    assert_eq!(has_unpushed_commits(&repo), Ok(false));
    let a = commit(&repo, "a", &[]);
    let b = commit(&repo, "b", &[a]);
    repo.branch("main", &repo.find_commit(b).unwrap(), true).unwrap();
    repo.set_head("refs/heads/main").unwrap();
    // no upstream: nothing is unpushed
    assert_eq!(tracking(&repo), Tracking::NoUpstream);
    assert_eq!(has_unpushed_commits(&repo), Ok(false));
    repo.reference("refs/remotes/origin/main", a, true, "test").unwrap();
    assert_eq!(tracking(&repo), Tracking::Ahead(1));
    assert_eq!(has_unpushed_commits(&repo), Ok(true));
    repo.reference("refs/remotes/origin/main", b, true, "test").unwrap();
    assert_eq!(has_unpushed_commits(&repo), Ok(false));
    // behind alone does not count
    repo.reference("refs/heads/main", a, true, "test").unwrap();
    assert_eq!(has_unpushed_commits(&repo), Ok(false));
    assert_eq!(tracking(&repo), Tracking::Ahead(0));
    repo.set_head_detached(b).unwrap();
    assert_eq!(tracking(&repo), Tracking::Detached);
    assert_eq!(has_unpushed_commits(&repo), Ok(false));
}

#[test]
fn staged_change_makes_a_repository_dirty() {
    let repo = scratch("dirty");
    assert!(!has_uncommitted_changes(&repo));
    let blob = repo.blob(b"content").unwrap();
    let mut index = repo.index().unwrap();
    let entry = git2::IndexEntry {
        ctime: git2::IndexTime::new(0, 0),
        mtime: git2::IndexTime::new(0, 0),
        dev: 0,
        ino: 0,
        mode: 0o100644,
        uid: 0,
        gid: 0,
        file_size: 7,
        id: blob,
        flags: 0,
        flags_extended: 0,
        path: b"file.txt".to_vec(),
    };
    index.add(&entry).unwrap();
    index.write().unwrap();
    assert!(has_uncommitted_changes(&repo));
}
