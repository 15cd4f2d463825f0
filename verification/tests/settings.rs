use git_utils::error::{command_outcome, Error};
use git_utils::settings::{get_repo_root, prefer_ssh, prefer_ssh_from, root_from_setting};
use git_utils::repo_url::convert_url_if_needed;

#[test]
fn command_that_fails_carries_its_standard_error() {
    assert_eq!(command_outcome(true, "warning: ignored"), Ok(()));
    assert_eq!(
        command_outcome(false, "fatal: no such remote"),
        Err(Error::ExternalCommandFailed { stderr: "fatal: no such remote".to_string() })
    );
    assert_eq!(command_outcome(false, ""), Err(Error::ExternalCommandFailed { stderr: String::new() }));
}

#[test]
fn root_must_be_configured() {
    assert_eq!(root_from_setting(None), Err(Error::NotConfigured("git-repo.root".to_string())));
    assert_eq!(root_from_setting(Some("/srv/src".to_string())), Ok("/srv/src".to_string()));
    assert_eq!(root_from_setting(Some("relative/dir".to_string())), Ok("relative/dir".to_string()));
    assert_eq!(root_from_setting(Some("~other/src".to_string())), Ok("~other/src".to_string()));
    assert_eq!(root_from_setting(Some("a/~/b".to_string())), Ok("a/~/b".to_string()));
}

#[test]
fn tilde_becomes_the_home_directory() {
    let expanded = root_from_setting(Some("~/src".to_string())).unwrap();
    assert!(expanded.ends_with("/src"));
    match dirs::home_dir().and_then(|p| p.to_str().map(|s| s.to_string())) {
        Some(home) => assert_eq!(expanded, format!("{}/src", home)),
        None => assert_eq!(expanded, "~/src"),
    }
}

#[test]
fn ssh_is_preferred_only_when_configured() {
    assert!(prefer_ssh_from(Some(true)));
    assert!(!prefer_ssh_from(Some(false)));
    assert!(!prefer_ssh_from(None));
}

#[test]
fn configuration_is_read_without_failing() {
    match get_repo_root() {
        Ok(root) => assert!(!root.starts_with("~/")),
        Err(e) => assert!(matches!(e, Error::NotConfigured(_) | Error::Git(_))),
    }
    let url = "https://github.com/org/repo.git";
    let converted = convert_url_if_needed(url);
    if prefer_ssh() {
        assert_eq!(converted, "git@github.com:org/repo.git");
    } else {
        assert_eq!(converted, url);
    }
}
