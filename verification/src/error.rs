//! The failures that the tools report.

use vstd::prelude::*;
use vstd::string::*;

verus! {

/// Why an operation was refused or could not be carried out.
#[derive(Debug, Clone, PartialEq, Eq)]
pub enum Error {
    /// No repository was found at or above the place that was asked for.
    NotARepository,
    /// `HEAD` does not point at a named branch.
    DetachedHead,
    /// No local branch has this name.
    BranchNotFound(String),
    /// No base branch is configured and none of the usual names exists.
    BaseBranchNotFound,
    /// A deletion without force was asked for a branch whose work has not landed on the base.
    BranchNotMerged { branch: String, base: String },
    /// The text is none of the clone URL forms, or names no owner and repository.
    InvalidRepositoryUrl,
    /// The working tree or the index holds changes that are not committed.
    DirtyWorkingTree,
    /// The local branch is ahead of its upstream.
    UnpushedCommits,
    /// A companion command ended with a status other than zero.
    ExternalCommandFailed { stderr: String },
    /// The file system refused an operation.
    IoFailure(String),
    /// The version-control backend reported the failure described by the message.
    Git(String),
    /// A configuration key that the tool needs has no value.
    NotConfigured(String),
    /// Two options were given that exclude each other.
    ConflictingOptions { first: String, second: String },
    /// The repository has no working directory.
    BareRepository,
    /// The home directory of the user cannot be told.
    NoHomeDirectory,
    /// The shell of the user cannot be told.
    ShellNotDetected,
    /// The shell of the user is none that the setup knows.
    UnsupportedShell(String),
    /// The remote is not on GitHub.
    NotGitHub,
    /// The invocation lacks an argument, or names something that does not exist.
    InvalidInput(String),
}

/// The error says that no local branch has this name.
pub open spec fn missing_branch(e: Error, name: Seq<char>) -> bool {
    match e {
        Error::BranchNotFound(n) => n@ == name,
        _ => false,
    }
}

/// The error says that the branch of this name is not merged.
pub open spec fn unmerged_branch(e: Error, name: Seq<char>) -> bool {
    match e {
        Error::BranchNotMerged { branch, base } => branch@ == name,
        _ => false,
    }
}

/// The error says that this configuration key has no value.
pub open spec fn unconfigured(e: Error, key: Seq<char>) -> bool {
    match e {
        Error::NotConfigured(k) => k@ == key,
        _ => false,
    }
}

/// The result of a companion command that has ended: its exit status gates
/// success, and a failure carries what the command wrote to its standard error.
pub fn command_outcome(success: bool, stderr: &str) -> (r: Result<(), Error>)
    ensures
        success ==> r is Ok,
        !success ==> (r matches Err(Error::ExternalCommandFailed { stderr: text }) && text@ == stderr@),
{
    if success {
        Ok(())
    } else {
        Err(Error::ExternalCommandFailed { stderr: stderr.to_owned() })
    }
}

} // verus!
