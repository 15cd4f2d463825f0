use git_utils::clone::{
    clone_step, clone_target, collision_choice, collision_labels, credential_kind, credential_user,
    fetch_depth, free_suffix, renamed_target, suffixed_name, update_guard, CloneOptions, CloneStep,
    CollisionChoice, CredentialKind,
};
use git_utils::error::Error;
use git_utils::repo_url::RepoInfo;

fn info(domain: &str, user: &str, repo: &str) -> RepoInfo {
    RepoInfo { domain: domain.to_string(), user: user.to_string(), repo: repo.to_string() }
}

fn names(list: &[&str]) -> Vec<String> {
    list.iter().map(|s| s.to_string()).collect()
}

#[test]
fn target_is_root_domain_user_repo() {
    assert_eq!(clone_target("/srv/src", &info("github.com", "org", "repo")), "/srv/src/github.com/org/repo");
    assert_eq!(clone_target("root/", &info("d", "u", "r")), "root/d/u/r");
    assert_eq!(clone_target("", &info("d", "u", "r")), "d/u/r");
}

#[test]
fn rename_picks_the_lowest_free_suffix() {
    let r = info("d", "u", "r");
    let existing = names(&["r", "r-2"]);
    let suffix = free_suffix("r", &existing).unwrap();
    assert_eq!(suffix, 3);
    assert_eq!(renamed_target("root", &r, suffix), "root/d/u/r-3");
}

#[test]
fn rename_starts_at_two_and_fills_gaps() {
    assert_eq!(free_suffix("r", &names(&[])), Some(2));
    assert_eq!(free_suffix("r", &names(&["r"])), Some(2));
    assert_eq!(free_suffix("r", &names(&["r-3", "r-2", "r-5"])), Some(4));
    assert_eq!(free_suffix("r", &names(&["r-02", "x-2"])), Some(2));
    let many: Vec<String> = (2..=11).map(|k| format!("r-{}", k)).collect();
    assert_eq!(free_suffix("r", &many), Some(12));
    assert_eq!(suffixed_name("r", 12), "r-12");
    assert_eq!(suffixed_name("", 0), "-0");
}

#[test]
fn labels_read_back_as_choices() {
    let labels = collision_labels("repo");
    assert_eq!(
        labels,
        names(&[
            "Skip (do nothing)",
            "Update (git pull)",
            "Replace (rm -rf && clone)",
            "Rename (clone as repo-2)",
        ])
    );
    let choices: Vec<Option<CollisionChoice>> =
        labels.iter().map(|l| collision_choice(true, l)).collect();
    assert_eq!(
        choices,
        vec![
            Some(CollisionChoice::Skip),
            Some(CollisionChoice::Update),
            Some(CollisionChoice::Replace),
            Some(CollisionChoice::Rename),
        ]
    );
    assert_eq!(collision_choice(true, "Something else"), None);
    assert_eq!(collision_choice(true, ""), None);
}

#[test]
fn without_a_terminal_the_choice_is_to_skip() {
    assert_eq!(collision_choice(false, "Replace (rm -rf && clone)"), Some(CollisionChoice::Skip));
    assert_eq!(collision_choice(false, ""), Some(CollisionChoice::Skip));
}

#[test]
fn step_follows_from_existence_and_choice() {
    for choice in [
        CollisionChoice::Skip,
        CollisionChoice::Update,
        CollisionChoice::Replace,
        CollisionChoice::Rename,
    ] {
        assert_eq!(clone_step(false, choice), CloneStep::Clone);
    }
    assert_eq!(clone_step(true, CollisionChoice::Skip), CloneStep::Skip);
    assert_eq!(clone_step(true, CollisionChoice::Update), CloneStep::Update);
    assert_eq!(clone_step(true, CollisionChoice::Replace), CloneStep::ReplaceThenClone);
    assert_eq!(clone_step(true, CollisionChoice::Rename), CloneStep::CloneRenamed);
}

#[test]
fn update_is_refused_for_a_dirty_tree() {
    assert_eq!(update_guard(Some(2)), Err(Error::DirtyWorkingTree));
    assert_eq!(update_guard(Some(0)), Ok(()));
    assert_eq!(update_guard(None), Ok(()));
}

#[test]
fn shallow_clone_fetches_depth_one() {
    let mut options = CloneOptions { shallow: true, bare: false, branch: None };
    assert_eq!(fetch_depth(&options), Some(1));
    options.shallow = false;
    assert_eq!(fetch_depth(&options), None);
}

#[test]
fn credentials_prefer_the_agent() {
    assert_eq!(credential_kind(true, true), Some(CredentialKind::SshKeyFromAgent));
    assert_eq!(credential_kind(true, false), Some(CredentialKind::SshKeyFromAgent));
    assert_eq!(credential_kind(false, true), Some(CredentialKind::Username));
    assert_eq!(credential_kind(false, false), None);
    assert_eq!(credential_user(Some("me")), "me");
    assert_eq!(credential_user(None), "git");
}
