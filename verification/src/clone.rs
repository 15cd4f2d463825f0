//! Where a clone goes, and what happens when something is already there.
//!
//! A repository is cloned to `<root>/<domain>/<user>/<repo>`. Where that path
//! exists, one of four things is done: nothing, an update of what is there, a
//! replacement, or a clone beside it under the lowest free name `<repo>-2`,
//! `<repo>-3`, and so on.

use vstd::prelude::*;
use vstd::string::*;
use vstd::relations::injective_on;
use vstd::seq_lib::seq_to_set_is_finite;
use vstd::set_lib::{lemma_int_range, lemma_len_subset, lemma_map_size, set_int_range};
use crate::decimal::{decimal, lemma_decimal_injective, to_decimal};
use crate::error::Error;
use crate::paths::{join, join_path};
use crate::repo_url::{RepoInfo, RepoName};
use crate::text::{concat3, contains_name, same_text, starts_with, starts_with_in, to_chars};

verus! {

/// How a clone is made.
#[derive(Debug, Clone, PartialEq, Eq)]
pub struct CloneOptions {
    /// Cut the history to depth 1.
    pub shallow: bool,
    /// Make no working tree.
    pub bare: bool,
    /// Check out this branch in place of the default one.
    pub branch: Option<String>,
}

/// What to do when the target of a clone exists.
#[derive(Debug, Clone, Copy, PartialEq, Eq)]
pub enum CollisionChoice {
    /// Leave everything as it is.
    Skip,
    /// Pull into the repository that is there.
    Update,
    /// Remove what is there, then clone.
    Replace,
    /// Clone beside it, under a name with a numeric suffix.
    Rename,
}

/// What the caller is to do for a clone.
#[derive(Debug, Clone, Copy, PartialEq, Eq)]
pub enum CloneStep {
    /// Clone into the target.
    Clone,
    /// Do nothing.
    Skip,
    /// Pull into the target.
    Update,
    /// Remove the target, then clone into it.
    ReplaceThenClone,
    /// Clone into the renamed target.
    CloneRenamed,
}

/// How a clone authenticates.
#[derive(Debug, Clone, Copy, PartialEq, Eq)]
pub enum CredentialKind {
    /// A key from the SSH agent.
    SshKeyFromAgent,
    /// The user name alone.
    Username,
}

/// The directory of a repository below the root: `<root>/<domain>/<user>/<repo>`.
pub open spec fn target_of(root: Seq<char>, name: RepoName) -> Seq<char> {
    join(join(join(root, name.domain), name.user), name.repo)
}

/// The name of a repository with a numeric suffix: `<repo>-<k>`.
pub open spec fn suffixed(repo: Seq<char>, k: nat) -> Seq<char> {
    repo + "-"@ + decimal(k)
}

/// The directory of a renamed clone: `<root>/<domain>/<user>/<repo>-<k>`.
pub open spec fn renamed_target_of(root: Seq<char>, name: RepoName, k: nat) -> Seq<char> {
    join(join(join(root, name.domain), name.user), suffixed(name.repo, k))
}

/// The step that follows from whether the target exists and, where it does,
/// from the choice made.
pub open spec fn step_for(exists: bool, choice: CollisionChoice) -> CloneStep {
    if !exists {
        CloneStep::Clone
    } else {
        match choice {
            CollisionChoice::Skip => CloneStep::Skip,
            CollisionChoice::Update => CloneStep::Update,
            CollisionChoice::Replace => CloneStep::ReplaceThenClone,
            CollisionChoice::Rename => CloneStep::CloneRenamed,
        }
    }
}

/// The choice that a label of `collision_labels` stands for.
pub open spec fn choice_of_label(label: Seq<char>) -> Option<CollisionChoice> {
    if label == "Skip (do nothing)"@ {
        Some(CollisionChoice::Skip)
    } else if label == "Update (git pull)"@ {
        Some(CollisionChoice::Update)
    } else if label == "Replace (rm -rf && clone)"@ {
        Some(CollisionChoice::Replace)
    } else if starts_with(label, "Rename (clone as "@) {
        Some(CollisionChoice::Rename)
    } else {
        None
    }
}

/// The target directory of a clone.
pub fn clone_target(root: &str, info: &RepoInfo) -> (r: String)
    ensures
        r@ == target_of(root@, info@),
{
    let a = join_path(root, info.domain.as_str());
    let b = join_path(a.as_str(), info.user.as_str());
    join_path(b.as_str(), info.repo.as_str())
}

/// The target directory of a clone under the name `<repo>-<suffix>`.
pub fn renamed_target(root: &str, info: &RepoInfo, suffix: u64) -> (r: String)
    ensures
        r@ == renamed_target_of(root@, info@, suffix as nat),
{
    let a = join_path(root, info.domain.as_str());
    let b = join_path(a.as_str(), info.user.as_str());
    let name = suffixed_name(info.repo.as_str(), suffix);
    join_path(b.as_str(), name.as_str())
}

/// The name `<repo>-<suffix>`.
pub fn suffixed_name(repo: &str, suffix: u64) -> (r: String)
    ensures
        r@ == suffixed(repo@, suffix as nat),
{
    let digits = to_decimal(suffix);
    concat3(repo, "-", digits.as_str())
}

/// Names with different suffixes differ.
pub proof fn lemma_suffixed_injective(repo: Seq<char>, a: nat, b: nat)
    requires
        suffixed(repo, a) == suffixed(repo, b),
    ensures
        a == b,
{
    let head = repo + "-"@;
    assert(suffixed(repo, a).skip(head.len() as int) =~= decimal(a));
    assert(suffixed(repo, b).skip(head.len() as int) =~= decimal(b));
    lemma_decimal_injective(a, b);
}

/// Among the suffixes from 2 up to the number of entries plus 2, one is free:
/// where every suffix from 2 up to `k` is taken, `k` is at most that far.
pub proof fn lemma_taken_suffixes_are_few(repo: Seq<char>, existing: Seq<Seq<char>>, k: nat)
    requires
        forall|j: nat| 2 <= j < k ==> existing.contains(suffixed(repo, j)),
    ensures
        k <= existing.len() + 2,
{
    if k > 2 {
        let numbers = set_int_range(2, k as int);
        let name = |j: int| suffixed(repo, j as nat);
        let names = numbers.map(name);
        lemma_int_range(2, k as int);
        assert(injective_on(name, numbers)) by {
            assert forall|x: int, y: int|
                numbers.contains(x) && numbers.contains(y) && #[trigger] name(x) == #[trigger] name(
                    y,
                ) implies x == y by {
                lemma_suffixed_injective(repo, x as nat, y as nat);
            }
        }
        lemma_map_size(numbers, names, name);
        seq_to_set_is_finite(existing);
        assert(names.subset_of(existing.to_set())) by {
            assert forall|n: Seq<char>| names.contains(n) implies existing.to_set().contains(n) by {
                let j = choose|j: int| numbers.contains(j) && n == name(j);
                assert(existing.contains(suffixed(repo, j as nat)));
            }
        }
        lemma_len_subset(names, existing.to_set());
        existing.lemma_cardinality_of_set();
    }
}

/// The lowest suffix from 2 on under which no entry exists beside the target.
///
/// `existing` holds the names of the entries of the owner's directory. One of
/// the suffixes up to the number of entries plus 2 is free, so the result is
/// `None` only where that many suffixes do not fit in 64 bits.
pub fn free_suffix(repo: &str, existing: &Vec<String>) -> (r: Option<u64>)
    ensures
        match r {
            Some(k) => {
                &&& 2 <= k <= existing.len() + 2
                &&& !existing.deep_view().contains(suffixed(repo@, k as nat))
                &&& forall|j: nat| 2 <= j < k ==> existing.deep_view().contains(suffixed(repo@, j))
            },
            None => existing.len() + 2 >= u64::MAX,
        },
{
    let mut k: u64 = 2;
    while k < u64::MAX
        invariant
            2 <= k <= u64::MAX,
            forall|j: nat| 2 <= j < k ==> existing.deep_view().contains(suffixed(repo@, j)),
        decreases u64::MAX - k,
    {
        let name = suffixed_name(repo, k);
        if !contains_name(existing, name.as_str()) {
            proof {
                lemma_taken_suffixes_are_few(repo@, existing.deep_view(), k as nat);
            }
            return Some(k);
        }
        k += 1;
    }
    proof {
        lemma_taken_suffixes_are_few(repo@, existing.deep_view(), k as nat);
    }
    None
}

/// The four choices as they are shown, in the order skip, update, replace, rename.
pub fn collision_labels(repo: &str) -> (r: Vec<String>)
    ensures
        r.len() == 4,
        r[0]@ == "Skip (do nothing)"@,
        r[1]@ == "Update (git pull)"@,
        r[2]@ == "Replace (rm -rf && clone)"@,
        r[3]@ == "Rename (clone as "@ + repo@ + "-2)"@,
{
    let mut labels: Vec<String> = Vec::new();
    labels.push("Skip (do nothing)".to_owned());
    labels.push("Update (git pull)".to_owned());
    labels.push("Replace (rm -rf && clone)".to_owned());
    labels.push(concat3("Rename (clone as ", repo, "-2)"));
    labels
}

/// The choice for a target that exists: to skip where no terminal is attached
/// and nobody can be asked, else what the label that was picked stands for.
pub fn collision_choice(terminal: bool, picked: &str) -> (r: Option<CollisionChoice>)
    ensures
        r == if terminal {
            choice_of_label(picked@)
        } else {
            Some(CollisionChoice::Skip)
        },
{
    if !terminal {
        return Some(CollisionChoice::Skip);
    }
    if same_text(picked, "Skip (do nothing)") {
        Some(CollisionChoice::Skip)
    } else if same_text(picked, "Update (git pull)") {
        Some(CollisionChoice::Update)
    } else if same_text(picked, "Replace (rm -rf && clone)") {
        Some(CollisionChoice::Replace)
    } else {
        let v = to_chars(picked);
        let prefix = to_chars("Rename (clone as ");
        assert(v@.subrange(0, v.len() as int) =~= v@);
        if starts_with_in(&v, 0, v.len(), &prefix) {
            Some(CollisionChoice::Rename)
        } else {
            None
        }
    }
}

/// The step of a clone, from whether its target exists and from the choice made
/// for that case.
pub fn clone_step(exists: bool, choice: CollisionChoice) -> (r: CloneStep)
    ensures
        r == step_for(exists, choice),
{
    if !exists {
        CloneStep::Clone
    } else {
        match choice {
            CollisionChoice::Skip => CloneStep::Skip,
            CollisionChoice::Update => CloneStep::Update,
            CollisionChoice::Replace => CloneStep::ReplaceThenClone,
            CollisionChoice::Rename => CloneStep::CloneRenamed,
        }
    }
}

/// Whether a repository may be updated in place: not while it holds changes
/// that are not committed. `changed` is the number of paths whose status is not
/// clean, `None` where the status could not be read, which does not stand in
/// the way.
pub fn update_guard(changed: Option<usize>) -> (r: Result<(), Error>)
    ensures
        r == match changed {
            Some(n) => if n > 0 {
                Err::<(), Error>(Error::DirtyWorkingTree)
            } else {
                Ok(())
            },
            None => Ok(()),
        },
{
    match changed {
        Some(n) => if n > 0 {
            Err(Error::DirtyWorkingTree)
        } else {
            Ok(())
        },
        None => Ok(()),
    }
}

/// The depth to which history is fetched: 1 for a shallow clone, else all of it.
pub fn fetch_depth(options: &CloneOptions) -> (r: Option<i32>)
    ensures
        r == if options.shallow {
            Some(1i32)
        } else {
            None
        },
{
    if options.shallow {
        Some(1)
    } else {
        None
    }
}

/// The way to authenticate among those that the remote allows: a key from the
/// SSH agent first, the user name second, and none where neither is allowed.
pub fn credential_kind(allows_ssh_key: bool, allows_username: bool) -> (r: Option<CredentialKind>)
    ensures
        r == if allows_ssh_key {
            Some(CredentialKind::SshKeyFromAgent)
        } else if allows_username {
            Some(CredentialKind::Username)
        } else {
            None
        },
{
    if allows_ssh_key {
        Some(CredentialKind::SshKeyFromAgent)
    } else if allows_username {
        Some(CredentialKind::Username)
    } else {
        None
    }
}

/// The user name to authenticate with: the one in the URL, else `git`.
pub fn credential_user(from_url: Option<&str>) -> (r: String)
    ensures
        r@ == match from_url {
            Some(name) => name@,
            None => "git"@,
        },
{
    match from_url {
        Some(name) => name.to_owned(),
        None => "git".to_owned(),
    }
}

} // verus!
