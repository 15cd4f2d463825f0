//! The setup of the shell environment of the tools.
//!
//! The tools keep their environment files in `~/.git-utils` and have the shell
//! profile source one of them. This module knows which files those are, what
//! is written into a profile, and how it is taken out again.

use vstd::prelude::*;
use vstd::string::*;
use crate::error::Error;
use crate::paths::{join, join_path};
use crate::text::{
    concat2, contains, contains_text, each_ended, join_ended, last_piece, lines, lines_of, same_text,
    split,
};

verus! {

/// A shell whose profile the setup knows.
#[derive(Debug, Clone, Copy, PartialEq, Eq)]
pub enum Shell {
    Bash,
    Zsh,
    Fish,
}

/// The options of the setup command.
#[derive(Debug, Clone, Copy, PartialEq, Eq)]
pub struct Setup {
    /// The shell to set up, where it is not to be detected.
    pub shell: Option<Shell>,
    /// Print the configuration snippet for this shell.
    pub print: Option<Shell>,
    /// Print the recommended git configuration.
    pub gitconfig: bool,
    /// Take the setup out again.
    pub uninstall: bool,
}

/// What the setup command does.
#[derive(Debug, Clone, Copy, PartialEq, Eq)]
pub enum SetupAction {
    Uninstall,
    PrintGitconfig,
    PrintShellConfig(Shell),
    Install,
}

/// The name of a shell.
pub open spec fn shell_name(shell: Shell) -> Seq<char> {
    match shell {
        Shell::Bash => "bash"@,
        Shell::Zsh => "zsh"@,
        Shell::Fish => "fish"@,
    }
}

/// The shell of a name.
pub open spec fn shell_named(name: Seq<char>) -> Option<Shell> {
    if name == "bash"@ {
        Some(Shell::Bash)
    } else if name == "zsh"@ {
        Some(Shell::Zsh)
    } else if name == "fish"@ {
        Some(Shell::Fish)
    } else {
        None
    }
}

/// The profile of a shell, below the home directory.
pub open spec fn profile_name(shell: Shell) -> Seq<char> {
    match shell {
        Shell::Bash => ".bashrc"@,
        Shell::Zsh => ".zshrc"@,
        Shell::Fish => ".config/fish/config.fish"@,
    }
}

/// The line that makes a shell source its environment file, with its line end.
pub open spec fn source_line_of(shell: Shell) -> Seq<char> {
    match shell {
        Shell::Fish => "test -f ~/.git-utils/env.fish && source ~/.git-utils/env.fish\n"@,
        _ => "[ -f ~/.git-utils/env.sh ] && source ~/.git-utils/env.sh\n"@,
    }
}

/// What the setup command does, by its options: to uninstall comes first, then
/// the git configuration, then the snippet of a shell, and else the setup itself.
pub open spec fn action_of(setup: Setup) -> SetupAction {
    if setup.uninstall {
        SetupAction::Uninstall
    } else if setup.gitconfig {
        SetupAction::PrintGitconfig
    } else {
        match setup.print {
            Some(shell) => SetupAction::PrintShellConfig(shell),
            None => SetupAction::Install,
        }
    }
}

/// The lines that stay when the setup is taken out of a profile, and whether
/// the line before was the marker. A line that holds `# git-utils` is the
/// marker and goes; the line behind a marker goes too where it holds
/// `git-utils/env`.
pub open spec fn lines_kept(all: Seq<Seq<char>>) -> (Seq<Seq<char>>, bool)
    decreases all.len(),
{
    if all.len() == 0 {
        (Seq::empty(), false)
    } else {
        let (kept, after_marker) = lines_kept(all.drop_last());
        let line = all.last();
        if contains_text(line, "# git-utils"@) {
            (kept, true)
        } else if after_marker && contains_text(line, "git-utils/env"@) {
            (kept, false)
        } else {
            (kept.push(line), false)
        }
    }
}

/// A profile without the setup: the lines that stay, each ended by a line feed,
/// and a single line feed where none stays.
pub open spec fn profile_without_setup(content: Seq<char>) -> Seq<char> {
    let kept = lines_kept(lines(content)).0;
    if kept.len() == 0 {
        "\n"@
    } else {
        each_ended(kept, "\n"@)
    }
}

/// `dirs::home_dir`: the home directory of the user, `None` where there is none
/// or where its path is not UTF-8. It is read from the environment, so nothing
/// is promised of it.
#[verifier::external_body]
fn home_dir() -> (r: Option<String>) {
    dirs::home_dir().and_then(|path| path.into_os_string().into_string().ok())
}

impl Shell {
    /// The name of the shell.
    pub fn as_str(&self) -> (r: &'static str)
        ensures
            r@ == shell_name(*self),
    {
        match self {
            Shell::Bash => "bash",
            Shell::Zsh => "zsh",
            Shell::Fish => "fish",
        }
    }

    /// The shell of a name: `bash`, `zsh` or `fish`.
    pub fn from_name(name: &str) -> (r: Option<Shell>)
        ensures
            r == shell_named(name@),
    {
        if same_text(name, "bash") {
            Some(Shell::Bash)
        } else if same_text(name, "zsh") {
            Some(Shell::Zsh)
        } else if same_text(name, "fish") {
            Some(Shell::Fish)
        } else {
            None
        }
    }

    /// The profile of the shell below a home directory.
    pub fn profile(&self, home: &str) -> (r: String)
        ensures
            r@ == join(home@, profile_name(*self)),
    {
        match self {
            Shell::Bash => join_path(home, ".bashrc"),
            Shell::Zsh => join_path(home, ".zshrc"),
            Shell::Fish => join_path(home, ".config/fish/config.fish"),
        }
    }

    /// How the profile is sourced by hand: `source ~/` and the profile.
    pub fn restart_hint(&self) -> (r: String)
        ensures
            r@ == "source ~/"@ + profile_name(*self),
    {
        match self {
            Shell::Bash => concat2("source ~/", ".bashrc"),
            Shell::Zsh => concat2("source ~/", ".zshrc"),
            Shell::Fish => concat2("source ~/", ".config/fish/config.fish"),
        }
    }

    /// The line that makes the shell source its environment file.
    pub fn source_line(&self) -> (r: &'static str)
        ensures
            r@ == source_line_of(*self),
    {
        match self {
            Shell::Fish => "test -f ~/.git-utils/env.fish && source ~/.git-utils/env.fish\n",
            _ => "[ -f ~/.git-utils/env.sh ] && source ~/.git-utils/env.sh\n",
        }
    }

    /// What is put at the end of the profile: an empty line, the marker, and the
    /// source line.
    pub fn profile_addition(&self) -> (r: String)
        ensures
            r@ == "\n# git-utils\n"@ + source_line_of(*self),
    {
        concat2("\n# git-utils\n", self.source_line())
    }

    /// What is shown to someone who edits the profile by hand: where to add the
    /// line, and the line.
    pub fn config_snippet(&self) -> (r: String)
        ensures
            r@ == match *self {
                Shell::Fish => "# Add this to your ~/.config/fish/config.fish:\n"@,
                Shell::Bash => "# Add this to your ~/.bashrc:\n"@,
                Shell::Zsh => "# Add this to your ~/.zshrc:\n"@,
            } + source_line_of(*self),
    {
        match self {
            Shell::Fish => concat2("# Add this to your ~/.config/fish/config.fish:\n", self.source_line()),
            Shell::Bash => concat2("# Add this to your ~/.bashrc:\n", self.source_line()),
            Shell::Zsh => concat2("# Add this to your ~/.zshrc:\n", self.source_line()),
        }
    }
}

/// The shell that a path to a shell program names: the shell of its last component.
pub fn detect_shell(shell_path: Option<&str>) -> (r: Result<Shell, Error>)
    ensures
        match shell_path {
            None => r == Err::<Shell, Error>(Error::ShellNotDetected),
            Some(path) => match shell_named(split(path@, '/').last()) {
                Some(shell) => r == Ok::<Shell, Error>(shell),
                None => r matches Err(Error::UnsupportedShell(name)) && name@ == split(path@, '/').last(),
            },
        },
{
    match shell_path {
        None => Err(Error::ShellNotDetected),
        Some(path) => {
            let name = last_piece(path, '/');
            match Shell::from_name(name.as_str()) {
                Some(shell) => Ok(shell),
                None => Err(Error::UnsupportedShell(name)),
            }
        },
    }
}

/// Whether a profile already sources an environment file of the tools.
pub fn has_source_line(content: &str) -> (r: bool)
    ensures
        r == contains_text(content@, "git-utils/env"@),
{
    contains(content, "git-utils/env")
}

/// A profile without the lines that the setup added.
pub fn remove_source_lines(content: &str) -> (r: String)
    ensures
        r@ == profile_without_setup(content@),
{
    let all = lines_of(content);
    let mut kept: Vec<String> = Vec::new();
    let mut after_marker = false;
    let mut i: usize = 0;
    while i < all.len()
        invariant
            i <= all.len(),
            (kept.deep_view(), after_marker) == lines_kept(all.deep_view().take(i as int)),
        decreases all.len() - i,
    {
        assert(all.deep_view().take(i + 1).drop_last() =~= all.deep_view().take(i as int));
        assert(all.deep_view().take(i + 1).last() == all[i as int]@);
        let line = all[i].as_str();
        if contains(line, "# git-utils") {
            after_marker = true;
        } else if after_marker && contains(line, "git-utils/env") {
            after_marker = false;
        } else {
            let ghost before = kept.deep_view();
            kept.push(all[i].clone());
            assert(kept.deep_view() =~= before.push(all[i as int]@));
            after_marker = false;
        }
        i += 1;
    }
    assert(all.deep_view().take(all.len() as int) =~= all.deep_view());
    if kept.len() == 0 {
        "\n".to_owned()
    } else {
        join_ended(&kept, "\n")
    }
}

impl Setup {
    /// What the command is to do.
    pub fn action(&self) -> (r: SetupAction)
        ensures
            r == action_of(*self),
    {
        if self.uninstall {
            SetupAction::Uninstall
        } else if self.gitconfig {
            SetupAction::PrintGitconfig
        } else {
            match self.print {
                Some(shell) => SetupAction::PrintShellConfig(shell),
                None => SetupAction::Install,
            }
        }
    }

    /// The home directory of the user.
    pub fn get_home_dir() -> (r: Result<String, Error>)
        ensures
            r matches Err(e) ==> e == Error::NoHomeDirectory,
    {
        match home_dir() {
            Some(home) => Ok(home),
            None => Err(Error::NoHomeDirectory),
        }
    }

    /// The directory of the environment files below a home directory.
    pub fn git_utils_dir_in(home: &str) -> (r: String)
        ensures
            r@ == join(home@, ".git-utils"@),
    {
        join_path(home, ".git-utils")
    }

    /// The directory of the environment files: `.git-utils` below the home
    /// directory of the user.
    pub fn get_git_utils_dir() -> (r: Result<String, Error>)
        ensures
            r matches Err(e) ==> e == Error::NoHomeDirectory,
            r matches Ok(dir) ==> exists|home: Seq<char>| dir@ == join(home, ".git-utils"@),
    {
        match Self::get_home_dir() {
            Ok(home) => Ok(Self::git_utils_dir_in(home.as_str())),
            Err(e) => Err(e),
        }
    }
}

/// The name of an environment file: `env.sh` or `env.fish`, with `.example`
/// behind it for the copy that shows the current template.
pub open spec fn env_file_name(fish: bool, example: bool) -> Seq<char> {
    if fish {
        if example {
            "env.fish.example"@
        } else {
            "env.fish"@
        }
    } else {
        if example {
            "env.sh.example"@
        } else {
            "env.sh"@
        }
    }
}

/// The path of an environment file in the directory of the tools.
pub fn env_file(dir: &str, fish: bool, example: bool) -> (r: String)
    ensures
        r@ == join(dir@, env_file_name(fish, example)),
{
    if fish {
        if example {
            join_path(dir, "env.fish.example")
        } else {
            join_path(dir, "env.fish")
        }
    } else {
        if example {
            join_path(dir, "env.sh.example")
        } else {
            join_path(dir, "env.sh")
        }
    }
}

/// Whether an environment file is written by an installation: an example
/// always, the file itself only where it does not exist yet, so that what the
/// user changed in it stays.
pub fn writes_file(example: bool, exists: bool) -> (r: bool)
    ensures
        r == (example || !exists),
{
    example || !exists
}

} // verus!
