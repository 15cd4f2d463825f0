use git_utils::branch_delete::branch_label;
use git_utils::branch_switch::{
    branch_of_label, filter_by_pattern, keep_passing, label_choices, passes_filter, switch_choices,
    Choice, SwitchOptions,
};
use git_utils::error::Error;

fn names(list: &[&str]) -> Vec<String> {
    list.iter().map(|s| s.to_string()).collect()
}

#[test]
fn pattern_keeps_the_names_that_hold_it() {
    let all = names(&["feature/login", "fix/login-bug", "main", "log"]);
    assert_eq!(filter_by_pattern(&all, "login"), names(&["feature/login", "fix/login-bug"]));
    assert_eq!(filter_by_pattern(&all, ""), all);
    assert_eq!(filter_by_pattern(&all, "zzz"), names(&[]));
    assert_eq!(filter_by_pattern(&all, "log"), names(&["feature/login", "fix/login-bug", "log"]));
}

#[test]
fn merge_filter_drops_branches_without_an_answer() {
    assert!(passes_filter(&Ok(true), true));
    assert!(!passes_filter(&Ok(false), true));
    assert!(passes_filter(&Ok(false), false));
    assert!(!passes_filter(&Ok(true), false));
    assert!(!passes_filter(&Err(Error::Git("x".to_string())), true));
    assert!(!passes_filter(&Err(Error::Git("x".to_string())), false));
}

#[test]
fn branches_are_kept_by_their_answers() {
    let all = names(&["a", "b", "c", "d"]);
    let answers = vec![Ok(true), Ok(false), Err(Error::Git("x".to_string()))];
    assert_eq!(keep_passing(&all, &answers, true), names(&["a"]));
    assert_eq!(keep_passing(&all, &answers, false), names(&["b"]));
    assert_eq!(keep_passing(&all, &Vec::new(), true), names(&[]));
}

#[test]
fn choices_carry_the_labels_of_their_branches() {
    let choices = label_choices(&names(&["a", "b", "c"]), &vec![true, false]);
    let shown: Vec<(String, String)> = choices.into_iter().map(|c| (c.name, c.label)).collect();
    assert_eq!(shown, vec![pair("a", "a [merged]"), pair("b", "b"), pair("c", "c")]);
}

#[test]
fn label_leads_back_to_its_branch() {
    for name in ["topic", "feature/a-b", "x"] {
        for merged in [true, false] {
            assert_eq!(branch_of_label(&branch_label(name, merged)), Some(name.to_string()));
        }
    }
    assert_eq!(branch_of_label("  padded  [merged]"), Some("padded".to_string()));
    assert_eq!(branch_of_label(" \t "), None);
    assert_eq!(branch_of_label(""), None);
}

fn scratch(name: &str) -> git2::Repository {
    let nanos = std::time::SystemTime::now()
        .duration_since(std::time::UNIX_EPOCH)
        .map(|d| d.as_nanos())
        .unwrap_or(0);
    git2::Repository::init(format!("/tmp/git-utils-tests/{}-{}", name, nanos)).unwrap()
}

fn commit(repo: &git2::Repository, message: &str, parents: &[git2::Oid]) -> git2::Oid {
    let tree = repo.find_tree(repo.treebuilder(None).unwrap().write().unwrap()).unwrap();
    let who = git2::Signature::new("t", "t@example.com", &git2::Time::new(0, 0)).unwrap();
    let parents: Vec<git2::Commit> = parents.iter().map(|p| repo.find_commit(*p).unwrap()).collect();
    let refs: Vec<&git2::Commit> = parents.iter().collect();
    repo.commit(None, &who, &who, message, &tree, &refs).unwrap()
}

fn sorted(mut choices: Vec<Choice>) -> Vec<(String, String)> {
    choices.sort_by(|a, b| a.name.cmp(&b.name));
    choices.into_iter().map(|c| (c.name, c.label)).collect()
}

fn pair(name: &str, label: &str) -> (String, String) {
    (name.to_string(), label.to_string())
}

#[test]
fn choices_leave_out_the_current_branch_and_carry_labels() {
    let repo = scratch("choices");
    let a = commit(&repo, "a", &[]);
    let b = commit(&repo, "b", &[a]);
    let side = commit(&repo, "side", &[]);
    for (name, at) in [("main", a), ("work", b), ("landed", b), ("side", side)] {
        repo.branch(name, &repo.find_commit(at).unwrap(), true).unwrap();
    }
    repo.set_head("refs/heads/work").unwrap();
    let none = SwitchOptions { branch_pattern: None, recent: false, merged: false, no_merged: false };
    let offer = switch_choices(&repo, &none).unwrap();
    assert_eq!(offer.current, "work");
    assert_eq!(
        sorted(offer.choices),
        vec![pair("landed", "landed [merged]"), pair("main", "main [merged]"), pair("side", "side")]
    );
    let merged = SwitchOptions { merged: true, ..none.clone() };
    assert_eq!(
        sorted(switch_choices(&repo, &merged).unwrap().choices),
        vec![pair("landed", "landed [merged]"), pair("main", "main [merged]")]
    );
    let unmerged = SwitchOptions { no_merged: true, ..none.clone() };
    assert_eq!(sorted(switch_choices(&repo, &unmerged).unwrap().choices), vec![pair("side", "side")]);
    let pattern = SwitchOptions { branch_pattern: Some("an".to_string()), ..none.clone() };
    assert_eq!(
        sorted(switch_choices(&repo, &pattern).unwrap().choices),
        vec![pair("landed", "landed [merged]")]
    );
    let recent = SwitchOptions { recent: true, ..none };
    assert_eq!(switch_choices(&repo, &recent).unwrap().choices, Vec::new());
}
