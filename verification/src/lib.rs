//! Branch and repository-tree rules for a family of git command-line tools.
//!
//! The tools delete stale branches, switch branches, list merged pull requests
//! and keep a tree of cloned repositories below a configured root. This
//! library holds what they decide: which branch is the base, whether a branch
//! is merged, which branches may be deleted, where a clone goes and what
//! happens when something is already there, which directories of a tree are
//! repositories, and when a repository may be removed. Looking at the file
//! system, asking the user and running commands is left to the caller, who
//! reports what came of it; the backend is asked through `backend`.

pub mod backend;
pub mod branch;
pub mod branch_delete;
pub mod branch_switch;
pub mod clone;
pub mod decimal;
pub mod delete_repo;
pub mod error;
pub mod list;
pub mod paths;
pub mod pr;
pub mod repo_url;
pub mod scan;
pub mod settings;
pub mod setup;
pub mod text;
