use git_utils::error::Error;
use git_utils::pr::{
    extract_pr_numbers, get_repo_info, github_repo_path, latest_tag_from, markdown_bullet,
    markdown_heading, needs_latest_tag, pr_numbers_from, pull_request_from, pull_request_from_json,
    pull_request_from_lookup, revision_range,
    search_url, text_line, PullRequest,
};

fn pr(number: u32, title: &str, url: &str, author: Option<&str>) -> PullRequest {
    PullRequest {
        number,
        title: title.to_string(),
        url: url.to_string(),
        merged_at: None,
        author: author.map(|a| a.to_string()),
    }
}

#[test]
fn range_is_the_given_one_or_a_default() {
    assert_eq!(revision_range(Some("v1..v2".to_string()), Some(3), Some("v9".to_string())), "v1..v2");
    assert_eq!(revision_range(None, Some(3), Some("v9".to_string())), "HEAD~3..HEAD");
    assert_eq!(revision_range(None, Some(0), None), "HEAD~0..HEAD");
    assert_eq!(revision_range(None, Some(1234567890), None), "HEAD~1234567890..HEAD");
    assert_eq!(revision_range(None, None, Some("v1.2.0".to_string())), "v1.2.0..HEAD");
    assert_eq!(revision_range(None, None, None), "HEAD~10..HEAD");
}

#[test]
fn latest_tag_is_looked_up_only_without_range_and_count() {
    assert!(needs_latest_tag(&None, None));
    assert!(!needs_latest_tag(&Some("a..b".to_string()), None));
    assert!(!needs_latest_tag(&None, Some(5)));
    assert!(!needs_latest_tag(&Some("a..b".to_string()), Some(5)));
}

#[test]
fn latest_tag_is_the_trimmed_output() {
    assert_eq!(latest_tag_from("v1.0.0\n"), "v1.0.0");
    assert_eq!(latest_tag_from("  v2 \r\n"), "v2");
    assert_eq!(latest_tag_from("\n"), "");
    assert_eq!(latest_tag_from(""), "");
}

#[test]
fn github_path_is_read_from_both_url_forms() {
    assert_eq!(github_repo_path("git@github.com:owner/repo.git"), Ok("owner/repo".to_string()));
    assert_eq!(github_repo_path("https://github.com/owner/repo.git"), Ok("owner/repo".to_string()));
    assert_eq!(github_repo_path("https://github.com/owner/repo"), Ok("owner/repo".to_string()));
    assert_eq!(github_repo_path("ssh://git@github.com/o/r.git.git"), Ok("o/r".to_string()));
    assert_eq!(github_repo_path("https://github.com/a/github.com/b"), Ok("a/".to_string()));
    assert_eq!(github_repo_path("https://github.com/"), Ok("".to_string()));
}

#[test]
fn url_that_is_not_on_github_is_refused() {
    assert_eq!(github_repo_path("https://gitlab.com/owner/repo.git"), Err(Error::NotGitHub));
    assert_eq!(github_repo_path("git@gitlab.com:owner/repo.git"), Err(Error::NotGitHub));
    assert_eq!(github_repo_path("https://github.com"), Err(Error::NotGitHub));
    assert_eq!(github_repo_path(""), Err(Error::NotGitHub));
}

#[test]
fn repo_info_comes_from_the_origin_remote() {
    let nanos = std::time::SystemTime::now()
        .duration_since(std::time::UNIX_EPOCH)
        .map(|d| d.as_nanos())
        .unwrap_or(0);
    let repo = git2::Repository::init(format!("/tmp/git-utils-tests/origin-{}", nanos)).unwrap();
    assert!(matches!(get_repo_info(&repo), Err(Error::Git(_))));
    repo.remote("origin", "git@github.com:owner/tool.git").unwrap();
    assert_eq!(get_repo_info(&repo), Ok("owner/tool".to_string()));
}

#[test]
fn pr_numbers_are_found_in_subjects() {
    let log = "Merge pull request #12 from a/b\nFix thing (#7)\nno number here\nAgain #12 and #3\n#x #\n";
    assert_eq!(extract_pr_numbers(log), vec![12, 7, 3]);
    assert_eq!(extract_pr_numbers(""), Vec::<u32>::new());
    assert_eq!(extract_pr_numbers("#4294967295 #4294967296 #007"), vec![4294967295, 7]);
}

#[test]
fn numbers_are_parsed_and_kept_once() {
    let tokens = vec![
        Some("5".to_string()),
        None,
        Some("x".to_string()),
        Some("05".to_string()),
        Some("6".to_string()),
        Some("".to_string()),
        Some("+7".to_string()),
        Some("99999999999".to_string()),
    ];
    assert_eq!(pr_numbers_from(&tokens), vec![5, 6]);
}

#[test]
fn pull_request_is_read_from_json() {
    let document = br#"{"number": 5, "title": "Add it", "url": "https://github.com/o/r/pull/5",
        "mergedAt": "2024-01-02T03:04:05Z", "author": {"login": "alice"}}"#
        .to_vec();
    assert_eq!(
        pull_request_from_json(5, &document),
        Ok(PullRequest {
            number: 5,
            title: "Add it".to_string(),
            url: "https://github.com/o/r/pull/5".to_string(),
            merged_at: Some("2024-01-02T03:04:05Z".to_string()),
            author: Some("alice".to_string()),
        })
    );
}

#[test]
fn missing_fields_are_empty_or_absent() {
    let document = br#"{"title": 7, "author": "bob", "mergedAt": null}"#.to_vec();
    assert_eq!(pull_request_from_json(9, &document), Ok(pr(9, "", "", None)));
    assert_eq!(pull_request_from_json(1, &b"[]".to_vec()), Ok(pr(1, "", "", None)));
    assert_eq!(pull_request_from(2, None, Some("u".to_string()), None, None), pr(2, "", "u", None));
}

#[test]
fn document_that_is_not_json_is_refused() {
    assert!(matches!(pull_request_from_json(1, &b"not json".to_vec()), Err(Error::InvalidInput(_))));
    assert!(matches!(pull_request_from_json(1, &Vec::new()), Err(Error::InvalidInput(_))));
}

#[test]
fn failed_lookup_carries_the_standard_error() {
    let document = br#"{"title": "T"}"#.to_vec();
    assert_eq!(
        pull_request_from_lookup(3, false, &document, "no such pull request"),
        Err(Error::ExternalCommandFailed { stderr: "no such pull request".to_string() })
    );
    assert_eq!(pull_request_from_lookup(3, true, &document, "ignored"), Ok(pr(3, "T", "", None)));
    assert!(matches!(
        pull_request_from_lookup(3, true, &b"<html>".to_vec(), ""),
        Err(Error::InvalidInput(_))
    ));
}

#[test]
fn plain_line_is_the_number() {
    let p = pr(42, "t", "https://x/42", None);
    assert_eq!(text_line(&p, false), "#42");
    assert_eq!(text_line(&p, true), "\x1b]8;;https://x/42\x1b\\#42\x1b]8;;\x1b\\");
}

#[test]
fn markdown_lists_number_url_title_and_author() {
    assert_eq!(markdown_heading("v1..v2"), "## Merged PRs (v1..v2)\n\n");
    assert_eq!(
        markdown_bullet(&pr(3, "Fix it", "https://x/3", Some("alice"))),
        "- [#3](https://x/3) Fix it (@alice)"
    );
    assert_eq!(markdown_bullet(&pr(10, "Title", "u", None)), "- [#10](u) Title");
}

#[test]
fn search_url_joins_the_numbers() {
    assert_eq!(
        search_url("o/r", &vec![1, 22, 333]),
        "https://github.com/o/r/pulls?q=is:pr+is:merged+1+22+333"
    );
    assert_eq!(search_url("o/r", &vec![7]), "https://github.com/o/r/pulls?q=is:pr+is:merged+7");
    assert_eq!(search_url("o/r", &vec![]), "https://github.com/o/r/pulls?q=is:pr+is:merged+");
}
