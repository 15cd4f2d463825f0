//! What the tools read from the git configuration of the user.

use vstd::prelude::*;
use vstd::string::*;
use crate::backend::{config_bool, config_string, default_config, git_failure};
use crate::error::{unconfigured, Error};
use crate::text::ends_with;

verus! {

/// The configuration key of the directory below which repositories are cloned.
pub const ROOT_KEY: &'static str = "git-repo.root";

/// The configuration key that asks for SSH URLs.
pub const PREFER_SSH_KEY: &'static str = "git-repo.prefer-ssh";

/// `shellexpand::tilde`: a `~` at the start of the text, where the end of the
/// text or a separator follows it, becomes the home directory of the user.
///
/// The home directory is read from the environment, so the contract says only
/// what holds of every outcome: a text without `~` at its start comes back as it
/// is, and so does one in which something other than `/` or `\` follows the `~`;
/// any other text comes back as it is or with its `~` replaced.
#[verifier::external_body]
pub(crate) fn expand_tilde(input: &str) -> (r: String)
    ensures
        !(input@.len() > 0 && input@[0] == '~') ==> r@ == input@,
        input@.len() > 1 && input@[1] != '/' && input@[1] != '\\' ==> r@ == input@,
        r@ == input@ || (input@.len() > 0 && ends_with(r@, input@.skip(1))),
{
    shellexpand::tilde(input).into_owned()
}

/// The root directory, from the configured value as it was read.
pub fn root_from_setting(setting: Option<String>) -> (r: Result<String, Error>)
    ensures
        setting is None <==> r is Err,
        r matches Err(e) ==> unconfigured(e, ROOT_KEY@),
        r matches Ok(root) ==> {
            let value = setting->Some_0@;
            &&& !(value.len() > 0 && value[0] == '~') ==> root@ == value
            &&& root@ == value || (value.len() > 0 && ends_with(root@, value.skip(1)))
        },
{
    match setting {
        Some(value) => Ok(expand_tilde(value.as_str())),
        None => Err(Error::NotConfigured(ROOT_KEY.to_owned())),
    }
}

/// Get the repository root from git config.
pub fn get_repo_root() -> (r: Result<String, Error>)
    ensures
        r matches Err(e) ==> e is Git || unconfigured(e, ROOT_KEY@),
{
    let config = match default_config() {
        Ok(config) => config,
        Err(e) => {
            return Err(git_failure(&e));
        },
    };
    let setting = match config_string(&config, ROOT_KEY) {
        Ok(value) => Some(value),
        Err(_) => None,
    };
    root_from_setting(setting)
}

/// Whether SSH is preferred, from the configured value as it was read: not
/// where nothing is configured.
pub fn prefer_ssh_from(setting: Option<bool>) -> (r: bool)
    ensures
        r == (setting == Some(true)),
{
    match setting {
        Some(prefer) => prefer,
        None => false,
    }
}

/// Check if SSH is preferred from git config.
pub fn prefer_ssh() -> (r: bool) {
    let setting = match default_config() {
        Ok(config) => match config_bool(&config, PREFER_SSH_KEY) {
            Ok(prefer) => Some(prefer),
            Err(_) => None,
        },
        Err(_) => None,
    };
    prefer_ssh_from(setting)
}

} // verus!
