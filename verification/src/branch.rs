//! Facts about the branches of a repository: the current branch, the base
//! branch, whether a branch is merged, and the branches that were visited.
//!
//! Each function that asks the backend is paired with one that takes the
//! backend's answer as a plain value and decides; the second states the rule.

use vstd::prelude::*;
use vstd::string::*;
use crate::backend::{
    branch_delete, branch_failure, branch_name, branch_reference, checkout_tree, config_string,
    discover_repository, error_is_not_found, find_local_branch, find_reference, git_failure,
    graph_descendant_of, head_reference, local_branches, next_branch, open_reflog,
    reference_is_branch, reference_shorthand, reference_tip, reflog_entry, reflog_entry_message,
    reflog_len, repository_config, revparse_single, set_head, workdir, CommitId,
};
use crate::error::{missing_branch, unmerged_branch, Error};
use crate::text::{
    concat2, concat3, contains_name, last_word, last_word_of, starts_with, starts_with_in, to_chars,
};

verus! {

/// The configuration key that names the base branch.
pub const BASE_BRANCH_KEY: &'static str = "git-branch-delete.base";

/// What was read of `HEAD`.
#[derive(Debug, Clone, PartialEq, Eq)]
pub struct HeadState {
    /// Whether `HEAD` points at a branch.
    pub is_branch: bool,
    /// The short name of what it points at, where it can be read as text.
    pub shorthand: Option<String>,
}

/// What the backend told of one local branch: a name, `None` for a name that
/// cannot be read as text, or a failure.
pub type BranchEntry = Result<Option<String>, Error>;

/// The names among branch entries, in their order; the first failure where
/// there is one.
pub open spec fn names_in(entries: Seq<BranchEntry>) -> Result<Seq<Seq<char>>, Error>
    decreases entries.len(),
{
    if entries.len() == 0 {
        Ok(Seq::empty())
    } else {
        match names_in(entries.drop_last()) {
            Err(e) => Err(e),
            Ok(names) => match entries.last() {
                Err(e) => Err(e),
                Ok(None) => Ok(names),
                Ok(Some(name)) => Ok(names.push(name@)),
            },
        }
    }
}

/// The current branch, from what was read of `HEAD`.
pub open spec fn current_branch_in(is_branch: bool, shorthand: Option<Seq<char>>) -> Option<Seq<char>> {
    if is_branch {
        shorthand
    } else {
        None
    }
}

/// A branch is merged when the tip of the base is the tip of the branch or one
/// of its ancestors. `base_is_ancestor` is the backend's answer to whether the
/// tip of the branch descends from the tip of the base; its failure is the
/// failure of the whole, unless the two tips are the same.
pub open spec fn merged_in(
    base_tip: Seq<u8>,
    branch_tip: Seq<u8>,
    base_is_ancestor: Result<bool, Error>,
) -> Result<bool, Error> {
    if base_tip == branch_tip {
        Ok(true)
    } else {
        base_is_ancestor
    }
}

/// The base branch: the configured one, else the first of `main`, `master`,
/// `develop` that exists.
pub open spec fn base_branch_in(configured: Option<Seq<char>>, existing: Seq<Seq<char>>) -> Option<
    Seq<char>,
> {
    match configured {
        Some(name) => Some(name),
        None => if existing.contains("main"@) {
            Some("main"@)
        } else if existing.contains("master"@) {
            Some("master"@)
        } else if existing.contains("develop"@) {
            Some("develop"@)
        } else {
            None
        },
    }
}

/// The branch that a reflog message says was switched to: the last word of a
/// message that starts with `checkout: moving from`.
pub open spec fn checkout_target(message: Seq<char>) -> Option<Seq<char>> {
    if starts_with(message, "checkout: moving from"@) {
        last_word(message)
    } else {
        None
    }
}

/// The branches that were switched to, each once, in the order in which the
/// messages name them first.
pub open spec fn recent_in(messages: Seq<Option<Seq<char>>>) -> Seq<Seq<char>>
    decreases messages.len(),
{
    if messages.len() == 0 {
        Seq::empty()
    } else {
        let earlier = recent_in(messages.drop_last());
        match messages.last() {
            Some(message) => match checkout_target(message) {
                Some(target) => if earlier.contains(target) {
                    earlier
                } else {
                    earlier.push(target)
                },
                None => earlier,
            },
            None => earlier,
        }
    }
}

/// The names are the recent branches of some reflog: the targets of its
/// checkout messages, each once, in the order of the log.
pub open spec fn from_reflog(names: Seq<Seq<char>>) -> bool {
    exists|messages: Seq<Option<Seq<char>>>| names == #[trigger] recent_in(messages)
}

/// The message at index `i` says that `name` was switched to.
pub open spec fn names_target(messages: Seq<Option<Seq<char>>>, i: int, name: Seq<char>) -> bool {
    0 <= i < messages.len() && match messages[i] {
        Some(message) => checkout_target(message) == Some(name),
        None => false,
    }
}

/// No branch is listed twice among the recent ones, and the ones listed are the
/// targets of the messages.
pub proof fn lemma_recent_in(messages: Seq<Option<Seq<char>>>)
    ensures
        recent_in(messages).no_duplicates(),
        forall|name: Seq<char>|
            recent_in(messages).contains(name) <==> exists|i: int|
                names_target(messages, i, name),
    decreases messages.len(),
{
    if messages.len() > 0 {
        let init = messages.drop_last();
        lemma_recent_in(init);
        let earlier = recent_in(init);
        let now = recent_in(messages);
        let last = messages.len() - 1;
        assert forall|name: Seq<char>| now.contains(name) implies exists|i: int|
            names_target(messages, i, name) by {
            if earlier.contains(name) {
                let i = choose|i: int| names_target(init, i, name);
                assert(messages[i] == init[i]);
                assert(names_target(messages, i, name));
            } else {
                let k = choose|k: int| 0 <= k < now.len() && now[k] == name;
                if k < earlier.len() {
                    assert(earlier[k] == name);
                }
                assert(names_target(messages, last, name));
            }
        }
        assert forall|name: Seq<char>|
            (exists|i: int| names_target(messages, i, name)) implies now.contains(name) by {
            let i = choose|i: int| names_target(messages, i, name);
            if i < init.len() {
                assert(init[i] == messages[i]);
                assert(names_target(init, i, name));
                assert(earlier.contains(name));
                let k = choose|k: int| 0 <= k < earlier.len() && earlier[k] == name;
                assert(now[k] == name);
            } else {
                if earlier.contains(name) {
                    let k = choose|k: int| 0 <= k < earlier.len() && earlier[k] == name;
                    assert(now[k] == name);
                } else {
                    assert(now[earlier.len() as int] == name);
                }
            }
        }
    }
}

/// Merging goes by reachability: a branch whose tip is the tip of the base, or
/// descends from it, is merged; a branch whose tip differs from the tip of the
/// base and does not descend from it is not.
pub proof fn lemma_merged_by_reachability(base_tip: Seq<u8>, branch_tip: Seq<u8>, descends: bool)
    ensures
        base_tip == branch_tip || descends ==> merged_in(base_tip, branch_tip, Ok(descends)) == Ok::<
            bool,
            Error,
        >(true),
        base_tip != branch_tip && !descends ==> merged_in(base_tip, branch_tip, Ok(descends)) == Ok::<
            bool,
            Error,
        >(false),
{
}

/// Opens the git repository in the current directory or in one above it.
pub fn open_repo() -> (r: Result<git2::Repository, Error>)
    ensures
        r matches Err(e) ==> e == Error::NotARepository,
{
    match discover_repository(".") {
        Ok(repo) => Ok(repo),
        Err(_) => Err(Error::NotARepository),
    }
}

/// The names among what the backend told of the local branches.
pub fn branch_names(entries: Vec<BranchEntry>) -> (r: Result<Vec<String>, Error>)
    ensures
        match names_in(entries@) {
            Ok(names) => r matches Ok(v) && v.deep_view() == names,
            Err(e) => r == Err::<Vec<String>, Error>(e),
        },
{
    let mut names: Vec<String> = Vec::new();
    let ghost all = entries@;
    let mut rest = entries;
    // a vector gives up its last element, so the entries are turned around
    // first and then taken in their order
    let mut reversed: Vec<BranchEntry> = Vec::new();
    while rest.len() > 0
        invariant
            rest@.len() + reversed@.len() == all.len(),
            forall|k: int| 0 <= k < rest@.len() ==> rest@[k] == all[k],
            forall|k: int|
                0 <= k < reversed@.len() ==> reversed@[k] == all[all.len() - 1 - k],
        decreases rest.len(),
    {
        let entry = rest.pop().unwrap();
        reversed.push(entry);
    }
    let mut i: usize = 0;
    let total = reversed.len();
    while reversed.len() > 0
        invariant
            all == entries@,
            total == all.len(),
            i + reversed@.len() == total,
            forall|k: int|
                0 <= k < reversed@.len() ==> reversed@[k] == all[all.len() - 1 - k],
            names_in(all.take(i as int)) matches Ok(found) && found == names.deep_view(),
        decreases reversed.len(),
    {
        let entry = reversed.pop().unwrap();
        assert(entry == all[i as int]);
        assert(all.take(i + 1).drop_last() =~= all.take(i as int));
        assert(all.take(i + 1).last() == all[i as int]);
        match entry {
            Err(e) => {
                proof {
                    lemma_names_in_fails(all, i as int);
                }
                return Err(e);
            },
            Ok(None) => {},
            Ok(Some(name)) => {
                let ghost before = names.deep_view();
                names.push(name);
                assert(names.deep_view() =~= before.push(name@));
            },
        }
        i += 1;
    }
    assert(all.take(total as int) =~= all);
    Ok(names)
}

/// A failure among the entries is the failure of the whole, the first one
/// where there are several.
pub proof fn lemma_names_in_fails(entries: Seq<BranchEntry>, i: int)
    requires
        0 <= i < entries.len(),
        names_in(entries.take(i)) is Ok,
        entries[i] is Err,
    ensures
        names_in(entries) == Err::<Seq<Seq<char>>, Error>(entries[i]->Err_0),
    decreases entries.len(),
{
    if i == entries.len() - 1 {
        assert(entries.drop_last() =~= entries.take(i));
    } else {
        assert(entries.drop_last().take(i) =~= entries.take(i));
        lemma_names_in_fails(entries.drop_last(), i);
    }
}

/// What the backend tells of the local branches, one after the other, up to
/// the first failure.
fn local_branch_entries(repo: &git2::Repository) -> (r: Result<Vec<BranchEntry>, Error>)
    ensures
        r matches Err(e) ==> e is Git,
        r matches Ok(entries) ==> forall|k: int|
            0 <= k < entries@.len() ==> ((#[trigger] entries@[k]) matches Err(e) ==> e is Git),
        r matches Ok(entries) ==> forall|k: int|
            0 <= k < entries@.len() - 1 ==> (#[trigger] entries@[k]) is Ok,
{
    let mut branches = match local_branches(repo) {
        Ok(branches) => branches,
        Err(e) => {
            return Err(git_failure(&e));
        },
    };
    let mut entries: Vec<BranchEntry> = Vec::new();
    // the walk ends with the iterator, with a failure, or with a full vector
    while entries.len() < usize::MAX
        invariant
            forall|k: int| 0 <= k < entries@.len() ==> (#[trigger] entries@[k]) is Ok,
        decreases usize::MAX - entries.len(),
    {
        match next_branch(&mut branches) {
            None => {
                return Ok(entries);
            },
            Some(Err(e)) => {
                entries.push(Err(git_failure(&e)));
                return Ok(entries);
            },
            Some(Ok(branch)) => match branch_name(&branch) {
                Ok(name) => {
                    entries.push(Ok(name));
                },
                Err(e) => {
                    entries.push(Err(git_failure(&e)));
                    return Ok(entries);
                },
            },
        }
    }
    Ok(entries)
}

/// Get all local branch names.
pub fn get_local_branches(repo: &git2::Repository) -> (r: Result<Vec<String>, Error>)
    ensures
        r matches Err(e) ==> e is Git,
{
    let entries = local_branch_entries(repo)?;
    proof {
        lemma_names_in_error(entries@);
    }
    branch_names(entries)
}

/// A failure of the whole is one of the entries.
pub proof fn lemma_names_in_error(entries: Seq<BranchEntry>)
    ensures
        names_in(entries) matches Err(e) ==> exists|k: int|
            0 <= k < entries.len() && #[trigger] entries[k] == Err::<Option<String>, Error>(e),
    decreases entries.len(),
{
    if entries.len() > 0 {
        lemma_names_in_error(entries.drop_last());
        if let Err(e) = names_in(entries) {
            if let Err(f) = names_in(entries.drop_last()) {
                let k = choose|k: int|
                    0 <= k < entries.drop_last().len() && #[trigger] entries.drop_last()[k] == Err::<
                        Option<String>,
                        Error,
                    >(f);
                assert(entries[k] == entries.drop_last()[k]);
            } else {
                assert(entries[entries.len() - 1] == Err::<Option<String>, Error>(e));
            }
        }
    }
}

/// The current branch, from what was read of `HEAD`: its short name where it
/// points at a branch whose name can be read, `DetachedHead` otherwise.
pub fn current_branch_of(head: &HeadState) -> (r: Result<String, Error>)
    ensures
        match current_branch_in(head.is_branch, head.shorthand.deep_view()) {
            Some(name) => r matches Ok(n) && n@ == name,
            None => r == Err::<String, Error>(Error::DetachedHead),
        },
{
    if !head.is_branch {
        return Err(Error::DetachedHead);
    }
    match &head.shorthand {
        Some(name) => Ok(name.clone()),
        None => Err(Error::DetachedHead),
    }
}

/// Get the current branch name.
pub fn get_current_branch(repo: &git2::Repository) -> (r: Result<String, Error>)
    ensures
        r matches Err(e) ==> e is Git || e is DetachedHead,
{
    let head = match head_reference(repo) {
        Ok(head) => head,
        Err(e) => {
            return Err(git_failure(&e));
        },
    };
    let state = HeadState {
        is_branch: reference_is_branch(&head),
        shorthand: reference_shorthand(&head),
    };
    current_branch_of(&state)
}

/// Whether two commit identifiers are the same.
pub fn same_commit(a: &CommitId, b: &CommitId) -> (r: bool)
    ensures
        r == (a@ == b@),
{
    if a.bytes.len() != b.bytes.len() {
        return false;
    }
    let mut i: usize = 0;
    while i < a.bytes.len()
        invariant
            a.bytes.len() == b.bytes.len(),
            i <= a.bytes.len(),
            forall|j: int| 0 <= j < i ==> a.bytes@[j] == b.bytes@[j],
        decreases a.bytes.len() - i,
    {
        if a.bytes[i] != b.bytes[i] {
            assert(a@[i as int] != b@[i as int]);
            return false;
        }
        i += 1;
    }
    assert(a@ =~= b@);
    true
}

/// Whether a branch is merged, from the tips of the two branches and from the
/// backend's answer to whether the tip of the branch descends from the tip of
/// the base.
pub fn merged_from_tips(base_tip: &CommitId, branch_tip: &CommitId, base_is_ancestor: Result<bool, Error>) -> (r:
    Result<bool, Error>)
    ensures
        r == merged_in(base_tip@, branch_tip@, base_is_ancestor),
{
    if same_commit(base_tip, branch_tip) {
        Ok(true)
    } else {
        base_is_ancestor
    }
}

/// What a failed or missing answer about a merge counts as: not merged.
pub fn merged_or_default(answer: &Result<bool, Error>) -> (r: bool)
    ensures
        r == (*answer matches Ok(merged) && merged),
{
    match answer {
        Ok(merged) => *merged,
        Err(_) => false,
    }
}

/// The tip of a local branch.
fn local_branch_tip(repo: &git2::Repository, name: &str) -> (r: Result<CommitId, Error>)
    ensures
        r matches Err(e) ==> e is Git || missing_branch(e, name@),
{
    let branch = match find_local_branch(repo, name) {
        Ok(branch) => branch,
        Err(e) => {
            return Err(branch_failure(&e, name));
        },
    };
    reference_tip(branch_reference(&branch))
}

/// Check if a branch is merged into the base branch.
pub fn is_branch_merged(repo: &git2::Repository, branch_name: &str, base_branch: &str) -> (r: Result<
    bool,
    Error,
>)
    ensures
        r matches Err(e) ==> e is Git || missing_branch(e, branch_name@) || missing_branch(
            e,
            base_branch@,
        ),
{
    let base_tip = local_branch_tip(repo, base_branch)?;
    let branch_tip = local_branch_tip(repo, branch_name)?;
    let answer = match graph_descendant_of(repo, &branch_tip, &base_tip) {
        Ok(descends) => Ok(descends),
        Err(e) => Err(git_failure(&e)),
    };
    merged_from_tips(&base_tip, &branch_tip, answer)
}

/// The base branch, from the configured name and from the usual names that exist.
pub fn resolve_base_branch(configured: Option<String>, existing: &Vec<String>) -> (r: Result<
    String,
    Error,
>)
    ensures
        match base_branch_in(configured.deep_view(), existing.deep_view()) {
            Some(name) => r matches Ok(n) && n@ == name,
            None => r == Err::<String, Error>(Error::BaseBranchNotFound),
        },
{
    match configured {
        Some(name) => Ok(name),
        None => if contains_name(existing, "main") {
            Ok("main".to_owned())
        } else if contains_name(existing, "master") {
            Ok("master".to_owned())
        } else if contains_name(existing, "develop") {
            Ok("develop".to_owned())
        } else {
            Err(Error::BaseBranchNotFound)
        },
    }
}

/// Detect base branch (main, master, or develop).
pub fn detect_base_branch(repo: &git2::Repository) -> (r: Result<String, Error>)
    ensures
        r matches Err(e) ==> e == Error::BaseBranchNotFound,
{
    let configured = match repository_config(repo) {
        Ok(config) => match config_string(&config, BASE_BRANCH_KEY) {
            Ok(base) => Some(base),
            Err(_) => None,
        },
        Err(_) => None,
    };
    let mut existing: Vec<String> = Vec::new();
    if configured.is_none() {
        if find_local_branch(repo, "main").is_ok() {
            existing.push("main".to_owned());
        }
        if find_local_branch(repo, "master").is_ok() {
            existing.push("master".to_owned());
        }
        if find_local_branch(repo, "develop").is_ok() {
            existing.push("develop".to_owned());
        }
    }
    resolve_base_branch(configured, &existing)
}

/// The full name of the reference of a local branch.
pub fn local_reference(branch: &str) -> (r: String)
    ensures
        r@ == "refs/heads/"@ + branch@,
{
    concat2("refs/heads/", branch)
}

/// Switch to a branch.
pub fn switch_branch(repo: &git2::Repository, branch_name: &str) -> (r: Result<(), Error>)
    ensures
        r matches Err(e) ==> e is Git,
{
    let name = local_reference(branch_name);
    let object = match revparse_single(repo, name.as_str()) {
        Ok(object) => object,
        Err(e) => {
            return Err(git_failure(&e));
        },
    };
    match checkout_tree(repo, &object) {
        Ok(()) => {},
        Err(e) => {
            return Err(git_failure(&e));
        },
    }
    match set_head(repo, name.as_str()) {
        Ok(()) => Ok(()),
        Err(e) => Err(git_failure(&e)),
    }
}

/// Whether a branch may be deleted without force: only when it is merged into
/// the base. A failed answer stands in the way as itself.
pub fn delete_guard(branch: &str, base: &str, merged: Result<bool, Error>) -> (r: Result<(), Error>)
    ensures
        match merged {
            Ok(true) => r is Ok,
            Ok(false) => r matches Err(Error::BranchNotMerged { branch: b, base: a }) && b@ == branch@
                && a@ == base@,
            Err(e) => r == Err::<(), Error>(e),
        },
{
    match merged {
        Ok(true) => Ok(()),
        Ok(false) => Err(Error::BranchNotMerged { branch: branch.to_owned(), base: base.to_owned() }),
        Err(e) => Err(e),
    }
}

/// Delete a branch.
///
/// Without `force` the branch must be merged into the base branch, which is
/// asked of the backend here, whatever the caller found out before. With
/// `force` nothing is asked.
pub fn delete_branch(repo: &git2::Repository, branch_name: &str, force: bool) -> (r: Result<(), Error>)
    ensures
        r matches Err(e) ==> {
            ||| e is Git
            ||| missing_branch(e, branch_name@)
            ||| !force && (e is BranchNotFound || e == Error::BaseBranchNotFound || unmerged_branch(
                e,
                branch_name@,
            ))
        },
{
    let mut branch = match find_local_branch(repo, branch_name) {
        Ok(branch) => branch,
        Err(e) => {
            return Err(branch_failure(&e, branch_name));
        },
    };
    if !force {
        let base_branch = detect_base_branch(repo)?;
        let merged = is_branch_merged(repo, branch_name, base_branch.as_str());
        delete_guard(branch_name, base_branch.as_str(), merged)?;
    }
    match branch_delete(&mut branch) {
        Ok(()) => Ok(()),
        Err(e) => Err(git_failure(&e)),
    }
}

/// The full name of the reference that tracks a branch on a remote.
pub fn remote_reference(remote: &str, branch_name: &str) -> (r: String)
    ensures
        r@ == "refs/remotes/"@ + remote@ + "/"@ + branch_name@,
{
    let prefix = concat3("refs/remotes/", remote, "/");
    concat2(prefix.as_str(), branch_name)
}

/// What came of looking a reference up.
#[derive(Debug, Clone, PartialEq, Eq)]
pub enum Lookup {
    /// The reference is there.
    Found,
    /// The backend says that there is no such reference.
    Missing,
    /// The backend failed in another way.
    Failed(Error),
}

/// Whether a reference exists, from what came of looking it up: that the
/// backend does not find it is an answer, not a failure; any other failure is
/// handed on.
pub open spec fn existence_in(lookup: Lookup) -> Result<bool, Error> {
    match lookup {
        Lookup::Found => Ok(true),
        Lookup::Missing => Ok(false),
        Lookup::Failed(e) => Err(e),
    }
}

/// Whether a reference exists, from what came of looking it up.
pub fn existence_of(lookup: Lookup) -> (r: Result<bool, Error>)
    ensures
        r == existence_in(lookup),
{
    match lookup {
        Lookup::Found => Ok(true),
        Lookup::Missing => Ok(false),
        Lookup::Failed(e) => Err(e),
    }
}

/// Check if a remote branch exists.
///
/// The reference `refs/remotes/<remote>/<branch>` is looked up, and the answer
/// follows from what came of it as `existence_of` says.
pub fn remote_branch_exists(repo: &git2::Repository, branch_name: &str, remote: &str) -> (r: Result<
    bool,
    Error,
>)
    ensures
        r matches Err(e) ==> e is Git,
{
    let name = remote_reference(remote, branch_name);
    let lookup = match find_reference(repo, name.as_str()) {
        Ok(_) => Lookup::Found,
        Err(e) => if error_is_not_found(&e) {
            Lookup::Missing
        } else {
            Lookup::Failed(git_failure(&e))
        },
    };
    existence_of(lookup)
}

/// The branches that the messages of a reflog say were switched to, newest
/// first, each once.
pub fn recent_branches(messages: &Vec<Option<String>>) -> (r: Vec<String>)
    ensures
        r.deep_view() == recent_in(messages.deep_view()),
{
    let prefix = to_chars("checkout: moving from");
    let mut branches: Vec<String> = Vec::new();
    let mut i: usize = 0;
    while i < messages.len()
        invariant
            i <= messages.len(),
            prefix@ == "checkout: moving from"@,
            branches.deep_view() == recent_in(messages.deep_view().take(i as int)),
        decreases messages.len() - i,
    {
        assert(messages.deep_view().take(i + 1).drop_last() =~= messages.deep_view().take(i as int));
        assert(messages.deep_view().take(i + 1).last() == messages.deep_view()[i as int]);
        match &messages[i] {
            Some(message) => {
                let v = to_chars(message.as_str());
                assert(v@.subrange(0, v.len() as int) =~= v@);
                if starts_with_in(&v, 0, v.len(), &prefix) {
                    match last_word_of(message.as_str()) {
                        Some(target) => {
                            if !contains_name(&branches, target.as_str()) {
                                let ghost before = branches.deep_view();
                                branches.push(target);
                                assert(branches.deep_view() =~= before.push(target@));
                            }
                        },
                        None => {},
                    }
                }
            },
            None => {},
        }
        i += 1;
    }
    assert(messages.deep_view().take(messages.len() as int) =~= messages.deep_view());
    branches
}

/// Get recent branches from reflog.
pub fn get_recent_branches(repo: &git2::Repository) -> (r: Result<Vec<String>, Error>)
    ensures
        r matches Err(e) ==> e is Git,
        r matches Ok(names) ==> names.deep_view().no_duplicates(),
        r matches Ok(names) ==> from_reflog(names.deep_view()),
{
    let reflog = match open_reflog(repo, "HEAD") {
        Ok(reflog) => reflog,
        Err(e) => {
            return Err(git_failure(&e));
        },
    };
    let count = reflog_len(&reflog);
    let mut messages: Vec<Option<String>> = Vec::new();
    let mut i: usize = 0;
    while i < count
        invariant
            i <= count,
        decreases count - i,
    {
        match reflog_entry(&reflog, i) {
            Some(entry) => {
                messages.push(reflog_entry_message(&entry));
            },
            None => {},
        }
        i += 1;
    }
    proof {
        lemma_recent_in(messages.deep_view());
    }
    let names = recent_branches(&messages);
    assert(names.deep_view() == recent_in(messages.deep_view()));
    Ok(names)
}

/// Get repository root path: the working directory, which a bare repository
/// does not have.
pub fn get_repo_root(repo: &git2::Repository) -> (r: Result<String, Error>)
    ensures
        r matches Err(e) ==> e == Error::BareRepository,
{
    match workdir(repo) {
        Some(path) => Ok(path),
        None => Err(Error::BareRepository),
    }
}

} // verus!
