//! The version-control backend.
//!
//! Every call into `git2` stands here, one function for each function of
//! `git2`. What a call returns depends on the repository on disk, so none of
//! these functions promises anything about its result: callers are verified for
//! every outcome.

use vstd::prelude::*;
use git2::Error as GitError;
use crate::error::{missing_branch, Error};

verus! {

#[verifier::external_type_specification]
#[verifier::external_body]
pub struct ExRepository(git2::Repository);

#[verifier::external_type_specification]
#[verifier::external_body]
pub struct ExGitError(GitError);

#[verifier::external_type_specification]
#[verifier::external_body]
pub struct ExBranch<'repo>(git2::Branch<'repo>);

#[verifier::external_type_specification]
#[verifier::external_body]
pub struct ExBranches<'repo>(git2::Branches<'repo>);

#[verifier::external_type_specification]
#[verifier::external_body]
pub struct ExBranchType(git2::BranchType);

#[verifier::external_type_specification]
#[verifier::external_body]
pub struct ExReference<'repo>(git2::Reference<'repo>);

#[verifier::external_type_specification]
#[verifier::external_body]
pub struct ExCommit<'repo>(git2::Commit<'repo>);

#[verifier::external_type_specification]
#[verifier::external_body]
pub struct ExObject<'repo>(git2::Object<'repo>);

#[verifier::external_type_specification]
#[verifier::external_body]
pub struct ExConfig(git2::Config);

#[verifier::external_type_specification]
#[verifier::external_body]
pub struct ExReflog(git2::Reflog);

#[verifier::external_type_specification]
#[verifier::external_body]
pub struct ExReflogEntry<'reflog>(git2::ReflogEntry<'reflog>);

#[verifier::external_type_specification]
#[verifier::external_body]
pub struct ExStatuses<'repo>(git2::Statuses<'repo>);

#[verifier::external_type_specification]
#[verifier::external_body]
pub struct ExRemote<'repo>(git2::Remote<'repo>);

/// The identifier of a commit: the bytes of its object id.
#[derive(Debug, Clone, PartialEq, Eq)]
pub struct CommitId {
    pub bytes: Vec<u8>,
}

impl View for CommitId {
    type V = Seq<u8>;

    open spec fn view(&self) -> Seq<u8> {
        self.bytes@
    }
}

/// `git2::Repository::discover`: the repository at or above `path`.
#[verifier::external_body]
pub(crate) fn discover_repository(path: &str) -> (r: Result<git2::Repository, GitError>) {
    git2::Repository::discover(path)
}

/// `git2::Repository::open`: the repository at `path`.
#[verifier::external_body]
pub(crate) fn open_repository(path: &str) -> (r: Result<git2::Repository, GitError>) {
    git2::Repository::open(path)
}

/// `git2::Error::message`: the text of a backend failure.
#[verifier::external_body]
pub(crate) fn error_message(e: &GitError) -> (r: String) {
    e.message().to_string()
}

/// `git2::Error::code`: whether a backend failure says that something was not found.
#[verifier::external_body]
pub(crate) fn error_is_not_found(e: &GitError) -> (r: bool) {
    e.code() == git2::ErrorCode::NotFound
}

/// `git2::Repository::branches`: an iterator over the local branches.
#[verifier::external_body]
pub(crate) fn local_branches<'r>(repo: &'r git2::Repository) -> (r: Result<
    git2::Branches<'r>,
    GitError,
>) {
    repo.branches(Some(git2::BranchType::Local))
}

/// `Iterator::next` of `git2::Branches`: the next branch, the failure to read
/// it, or `None` at the end.
#[verifier::external_body]
pub(crate) fn next_branch<'r>(branches: &mut git2::Branches<'r>) -> (r: Option<
    Result<git2::Branch<'r>, GitError>,
>) {
    branches.next().map(|item| item.map(|(branch, _)| branch))
}

/// `git2::Branch::name`: the name of a branch, `None` where it is not UTF-8.
#[verifier::external_body]
pub(crate) fn branch_name(branch: &git2::Branch<'_>) -> (r: Result<Option<String>, GitError>) {
    branch.name().map(|name| name.map(|s| s.to_string()))
}

/// `git2::Repository::head`: the reference that `HEAD` resolves to.
#[verifier::external_body]
pub(crate) fn head_reference<'r>(repo: &'r git2::Repository) -> (r: Result<
    git2::Reference<'r>,
    GitError,
>) {
    repo.head()
}

/// `git2::Repository::find_reference`: the reference of that full name.
#[verifier::external_body]
pub(crate) fn find_reference<'r>(repo: &'r git2::Repository, name: &str) -> (r: Result<
    git2::Reference<'r>,
    GitError,
>) {
    repo.find_reference(name)
}

/// `git2::Reference::is_branch`.
#[verifier::external_body]
pub(crate) fn reference_is_branch(reference: &git2::Reference<'_>) -> (r: bool) {
    reference.is_branch()
}

/// `git2::Reference::shorthand`: the short name, `None` where it is not UTF-8.
#[verifier::external_body]
pub(crate) fn reference_shorthand(reference: &git2::Reference<'_>) -> (r: Option<String>) {
    reference.shorthand().ok().map(|s| s.to_string())
}

/// `git2::Reference::peel_to_commit`: the commit that a reference leads to.
#[verifier::external_body]
pub(crate) fn reference_commit<'r>(reference: &git2::Reference<'r>) -> (r: Result<
    git2::Commit<'r>,
    GitError,
>) {
    reference.peel_to_commit()
}

/// `git2::Commit::id`: the identifier of a commit.
#[verifier::external_body]
pub(crate) fn commit_id(commit: &git2::Commit<'_>) -> (r: CommitId) {
    CommitId { bytes: commit.id().as_bytes().to_vec() }
}

/// `git2::Repository::find_branch` among the local branches.
#[verifier::external_body]
pub(crate) fn find_local_branch<'r>(repo: &'r git2::Repository, name: &str) -> (r: Result<
    git2::Branch<'r>,
    GitError,
>) {
    repo.find_branch(name, git2::BranchType::Local)
}

/// `git2::Branch::get`: the reference that a branch is.
#[verifier::external_body]
pub(crate) fn branch_reference<'a, 'r>(branch: &'a git2::Branch<'r>) -> (r: &'a git2::Reference<
    'r,
>) {
    branch.get()
}

/// `git2::Branch::delete`.
#[verifier::external_body]
pub(crate) fn branch_delete(branch: &mut git2::Branch<'_>) -> (r: Result<(), GitError>) {
    branch.delete()
}

/// `git2::Repository::graph_descendant_of`: whether `commit` has `ancestor` among
/// its ancestors. A commit is no descendant of itself. The identifiers go
/// through `git2::Oid::from_bytes`, whose failure is the failure of the call.
#[verifier::external_body]
pub(crate) fn graph_descendant_of(
    repo: &git2::Repository,
    commit: &CommitId,
    ancestor: &CommitId,
) -> (r: Result<bool, GitError>) {
    let commit = git2::Oid::from_bytes(&commit.bytes)?;
    let ancestor = git2::Oid::from_bytes(&ancestor.bytes)?;
    repo.graph_descendant_of(commit, ancestor)
}

/// `git2::Repository::graph_ahead_behind`: how many commits `local` has that
/// `upstream` lacks, and the reverse. The identifiers go through
/// `git2::Oid::from_bytes`, whose failure is the failure of the call.
#[verifier::external_body]
pub(crate) fn graph_ahead_behind(
    repo: &git2::Repository,
    local: &CommitId,
    upstream: &CommitId,
) -> (r: Result<(usize, usize), GitError>) {
    let local = git2::Oid::from_bytes(&local.bytes)?;
    let upstream = git2::Oid::from_bytes(&upstream.bytes)?;
    repo.graph_ahead_behind(local, upstream)
}

/// `git2::Repository::config`: the configuration of a repository, with the
/// global and the system configuration behind it.
#[verifier::external_body]
pub(crate) fn repository_config(repo: &git2::Repository) -> (r: Result<git2::Config, GitError>) {
    repo.config()
}

/// `git2::Config::open_default`: the global and the system configuration.
#[verifier::external_body]
pub(crate) fn default_config() -> (r: Result<git2::Config, GitError>) {
    git2::Config::open_default()
}

/// `git2::Config::get_string`: the value of a key.
#[verifier::external_body]
pub(crate) fn config_string(config: &git2::Config, key: &str) -> (r: Result<String, GitError>) {
    config.get_string(key)
}

/// `git2::Config::get_bool`: the value of a key as a truth value.
#[verifier::external_body]
pub(crate) fn config_bool(config: &git2::Config, key: &str) -> (r: Result<bool, GitError>) {
    config.get_bool(key)
}

/// `git2::Repository::revparse_single`.
#[verifier::external_body]
pub(crate) fn revparse_single<'r>(repo: &'r git2::Repository, spec: &str) -> (r: Result<
    git2::Object<'r>,
    GitError,
>) {
    repo.revparse_single(spec)
}

/// `git2::Repository::checkout_tree` with the default options.
#[verifier::external_body]
pub(crate) fn checkout_tree(repo: &git2::Repository, treeish: &git2::Object<'_>) -> (r: Result<
    (),
    GitError,
>) {
    repo.checkout_tree(treeish, None)
}

/// `git2::Repository::set_head`.
#[verifier::external_body]
pub(crate) fn set_head(repo: &git2::Repository, refname: &str) -> (r: Result<(), GitError>) {
    repo.set_head(refname)
}

/// `git2::Repository::reflog`: the log of a reference.
#[verifier::external_body]
pub(crate) fn open_reflog(repo: &git2::Repository, name: &str) -> (r: Result<
    git2::Reflog,
    GitError,
>) {
    repo.reflog(name)
}

/// `git2::Reflog::len`: the number of entries of a log.
#[verifier::external_body]
pub(crate) fn reflog_len(reflog: &git2::Reflog) -> (r: usize) {
    reflog.len()
}

/// `git2::Reflog::get`: the entry at an index, the newest at 0; `None` where
/// there is none.
#[verifier::external_body]
pub(crate) fn reflog_entry<'a>(reflog: &'a git2::Reflog, index: usize) -> (r: Option<
    git2::ReflogEntry<'a>,
>) {
    reflog.get(index)
}

/// `git2::ReflogEntry::message`: the message of an entry, `None` where it has
/// none or where it is not UTF-8.
#[verifier::external_body]
pub(crate) fn reflog_entry_message(entry: &git2::ReflogEntry<'_>) -> (r: Option<String>) {
    entry.message().ok().flatten().map(|m| m.to_string())
}

/// `git2::Repository::workdir`: the working directory, `None` for a bare repository.
#[verifier::external_body]
pub(crate) fn workdir(repo: &git2::Repository) -> (r: Option<String>) {
    repo.workdir().map(|p| p.to_string_lossy().into_owned())
}

/// `git2::Repository::statuses` with the default options.
#[verifier::external_body]
pub(crate) fn repository_statuses<'r>(repo: &'r git2::Repository) -> (r: Result<
    git2::Statuses<'r>,
    GitError,
>) {
    repo.statuses(None)
}

/// `git2::Statuses::len`: the number of paths whose status is not clean.
#[verifier::external_body]
pub(crate) fn statuses_len(statuses: &git2::Statuses<'_>) -> (r: usize) {
    statuses.len()
}

/// `git2::Repository::find_remote`.
#[verifier::external_body]
pub(crate) fn find_remote<'r>(repo: &'r git2::Repository, name: &str) -> (r: Result<
    git2::Remote<'r>,
    GitError,
>) {
    repo.find_remote(name)
}

/// `git2::Remote::url`: the URL of a remote, `None` where it is not UTF-8.
#[verifier::external_body]
pub(crate) fn remote_url(remote: &git2::Remote<'_>) -> (r: Option<String>) {
    remote.url().ok().map(|u| u.to_string())
}

/// The number of paths of a repository whose status is not clean, `None` where
/// the status cannot be read.
pub(crate) fn status_count(repo: &git2::Repository) -> (r: Option<usize>) {
    match repository_statuses(repo) {
        Ok(statuses) => Some(statuses_len(&statuses)),
        Err(_) => None,
    }
}

/// The commit that a reference leads to.
pub(crate) fn reference_tip(reference: &git2::Reference<'_>) -> (r: Result<CommitId, Error>)
    ensures
        r matches Err(e) ==> e is Git,
{
    match reference_commit(reference) {
        Ok(commit) => Ok(commit_id(&commit)),
        Err(e) => Err(git_failure(&e)),
    }
}

/// A backend failure as an error of this library: `BranchNotFound` for a branch
/// that the backend did not find, `Git` with the backend's message otherwise.
pub(crate) fn branch_failure(e: &GitError, branch: &str) -> (r: Error)
    ensures
        r is Git || missing_branch(r, branch@),
{
    if error_is_not_found(e) {
        Error::BranchNotFound(branch.to_owned())
    } else {
        git_failure(e)
    }
}

/// A backend failure as an error of this library.
pub(crate) fn git_failure(e: &GitError) -> (r: Error)
    ensures
        r is Git,
{
    Error::Git(error_message(e))
}

} // verus!
