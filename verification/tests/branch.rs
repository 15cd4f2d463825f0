use git_utils::backend::CommitId;
use git_utils::branch::{
    branch_names, current_branch_of, delete_guard, existence_of, local_reference,
    merged_from_tips, merged_or_default, recent_branches, remote_reference, resolve_base_branch,
    same_commit, BranchEntry, HeadState, Lookup,
};
use git_utils::error::Error;

fn id(bytes: &[u8]) -> CommitId {
    CommitId { bytes: bytes.to_vec() }
}

fn names(list: &[&str]) -> Vec<String> {
    list.iter().map(|s| s.to_string()).collect()
}

#[test]
fn branch_names_keep_the_order_and_drop_unreadable_names() {
    let entries: Vec<BranchEntry> =
        vec![Ok(Some("b".to_string())), Ok(None), Ok(Some("a".to_string()))];
    assert_eq!(branch_names(entries), Ok(names(&["b", "a"])));
    assert_eq!(branch_names(Vec::new()), Ok(Vec::new()));
}

#[test]
fn first_failure_among_branch_entries_wins() {
    let entries: Vec<BranchEntry> = vec![
        Ok(Some("a".to_string())),
        Err(Error::Git("first".to_string())),
        Ok(Some("b".to_string())),
        Err(Error::Git("second".to_string())),
    ];
    assert_eq!(branch_names(entries), Err(Error::Git("first".to_string())));
}

#[test]
fn detached_head_has_no_current_branch() {
    let attached = HeadState { is_branch: true, shorthand: Some("main".to_string()) };
    assert_eq!(current_branch_of(&attached), Ok("main".to_string()));
    let detached = HeadState { is_branch: false, shorthand: Some("HEAD".to_string()) };
    assert_eq!(current_branch_of(&detached), Err(Error::DetachedHead));
    let unreadable = HeadState { is_branch: true, shorthand: None };
    assert_eq!(current_branch_of(&unreadable), Err(Error::DetachedHead));
}

#[test]
fn merge_decision_follows_the_ancestry_answer() {
    let a = id(&[1; 20]);
    let b = id(&[2; 20]);
    // the base is an ancestor of the branch
    assert_eq!(merged_from_tips(&a, &b, Ok(true)), Ok(true));
    // unrelated commits
    assert_eq!(merged_from_tips(&a, &b, Ok(false)), Ok(false));
    // the same commit is merged whatever the backend says of descent
    assert_eq!(merged_from_tips(&a, &a.clone(), Ok(false)), Ok(true));
    assert_eq!(merged_from_tips(&a, &a.clone(), Err(Error::Git("x".to_string()))), Ok(true));
    assert_eq!(
        merged_from_tips(&a, &b, Err(Error::Git("x".to_string()))),
        Err(Error::Git("x".to_string()))
    );
}

#[test]
fn commits_are_compared_byte_by_byte() {
    assert!(same_commit(&id(&[1, 2, 3]), &id(&[1, 2, 3])));
    assert!(!same_commit(&id(&[1, 2, 3]), &id(&[1, 2, 4])));
    assert!(!same_commit(&id(&[1, 2, 3]), &id(&[1, 2])));
    assert!(same_commit(&id(&[]), &id(&[])));
}

#[test]
fn failed_merge_query_counts_as_not_merged() {
    assert!(merged_or_default(&Ok(true)));
    assert!(!merged_or_default(&Ok(false)));
    assert!(!merged_or_default(&Err(Error::Git("x".to_string()))));
    assert!(!merged_or_default(&Err(Error::BranchNotFound("b".to_string()))));
}

#[test]
fn base_branch_resolution_follows_the_priority() {
    assert_eq!(
        resolve_base_branch(Some("trunk".to_string()), &names(&["main"])),
        Ok("trunk".to_string())
    );
    assert_eq!(resolve_base_branch(Some("gone".to_string()), &names(&[])), Ok("gone".to_string()));
    assert_eq!(
        resolve_base_branch(None, &names(&["develop", "master", "main"])),
        Ok("main".to_string())
    );
    assert_eq!(resolve_base_branch(None, &names(&["develop", "master"])), Ok("master".to_string()));
    assert_eq!(resolve_base_branch(None, &names(&["develop", "x"])), Ok("develop".to_string()));
    assert_eq!(resolve_base_branch(None, &names(&["trunk"])), Err(Error::BaseBranchNotFound));
    assert_eq!(resolve_base_branch(None, &names(&[])), Err(Error::BaseBranchNotFound));
}

#[test]
fn delete_guard_lets_only_merged_branches_pass() {
    assert_eq!(delete_guard("b", "main", Ok(true)), Ok(()));
    assert_eq!(
        delete_guard("b", "main", Ok(false)),
        Err(Error::BranchNotMerged { branch: "b".to_string(), base: "main".to_string() })
    );
    assert_eq!(
        delete_guard("b", "main", Err(Error::Git("x".to_string()))),
        Err(Error::Git("x".to_string()))
    );
}

#[test]
fn reference_that_is_not_found_is_an_answer() {
    assert_eq!(existence_of(Lookup::Found), Ok(true));
    assert_eq!(existence_of(Lookup::Missing), Ok(false));
    assert_eq!(
        existence_of(Lookup::Failed(Error::Git("locked".to_string()))),
        Err(Error::Git("locked".to_string()))
    );
}

#[test]
fn reference_names_are_built_from_their_parts() {
    assert_eq!(local_reference("topic"), "refs/heads/topic");
    assert_eq!(remote_reference("origin", "topic/a"), "refs/remotes/origin/topic/a");
}

#[test]
fn recent_branches_are_checkout_targets_in_first_seen_order() {
    let messages = vec![
        Some("checkout: moving from main to feature".to_string()),
        Some("commit: something".to_string()),
        None,
        Some("checkout: moving from feature to main".to_string()),
        Some("checkout: moving from main to feature".to_string()),
        Some("checkout: moving from x to  spaced \t".to_string()),
        Some("rebase (finish): checkout: moving from a to b".to_string()),
        Some("checkout: moving from".to_string()),
    ];
    assert_eq!(recent_branches(&messages), names(&["feature", "main", "spaced", "from"]));
    assert_eq!(recent_branches(&Vec::new()), Vec::<String>::new());
}
