//! Merged pull requests: where they are looked for, and how they are shown.

use vstd::prelude::*;
use vstd::string::*;
use crate::backend::{find_remote, git_failure, remote_url};
use crate::decimal::{decimal, decimal_value, parse_u32, to_decimal};
use crate::error::Error;
use crate::text::{
    concat2, concat3, find_text, find_text_in, starts_with, starts_with_in, substring, to_chars, trim,
    trim_end_in, trim_end_matches, trim_start_in, trim_start_matches, trimmed,
};

verus! {

/// The pattern that finds the number of a pull request in the subject of a
/// commit: a `#` and the digits behind it.
pub const PR_PATTERN: &'static str = r"#(\d+)";

/// A pull request as it is listed.
#[derive(Debug, Clone, PartialEq, Eq)]
pub struct PullRequest {
    pub number: u32,
    pub title: String,
    pub url: String,
    pub merged_at: Option<String>,
    pub author: Option<String>,
}

/// The range of revisions that is searched: the one that was given; else the
/// last `count` commits; else what follows the latest tag; else the last ten
/// commits.
pub open spec fn range_of(given: Option<Seq<char>>, count: Option<nat>, latest_tag: Option<Seq<char>>) -> Seq<
    char,
> {
    match given {
        Some(range) => range,
        None => match count {
            Some(n) => "HEAD~"@ + decimal(n) + "..HEAD"@,
            None => match latest_tag {
                Some(tag) => tag + "..HEAD"@,
                None => "HEAD~10..HEAD"@,
            },
        },
    }
}

/// Owner and repository of a GitHub URL, as `owner/repo`: what follows
/// `git@github.com:`, or what stands between the first `github.com/` and the
/// next one, without any `.git` at its end. `None` for any other URL.
pub open spec fn github_path(url: Seq<char>) -> Option<Seq<char>> {
    if starts_with(url, "git@github.com:"@) {
        Some(trim_end_matches(trim_start_matches(url, "git@github.com:"@), ".git"@))
    } else {
        let start = find_text(url, "github.com/"@);
        if start >= url.len() {
            None
        } else {
            let rest = url.skip(start + "github.com/"@.len());
            Some(trim_end_matches(rest.take(find_text(rest, "github.com/"@)), ".git"@))
        }
    }
}

/// The text is owner and repository of some GitHub URL.
pub open spec fn is_github_path(path: Seq<char>) -> bool {
    exists|url: Seq<char>| #[trigger] github_path(url) == Some(path)
}

/// The numbers that the texts stand for, each once, in the order in which they
/// come first. A text that is no number, or one above `u32::MAX`, is passed over.
pub open spec fn numbers_in(tokens: Seq<Option<Seq<char>>>) -> Seq<u32>
    decreases tokens.len(),
{
    if tokens.len() == 0 {
        Seq::empty()
    } else {
        let earlier = numbers_in(tokens.drop_last());
        match tokens.last() {
            Some(token) => match decimal_value(token) {
                Some(value) => if value <= u32::MAX && !earlier.contains(value as u32) {
                    earlier.push(value as u32)
                } else {
                    earlier
                },
                None => earlier,
            },
            None => earlier,
        }
    }
}

/// What the first group of a regular expression holds in each match that
/// `regex::Regex::captures_iter` finds in a text, in the order of the matches:
/// `None` for a match in which the group took no part, and `None` as a whole
/// where `regex::Regex::new` refuses the pattern.
pub uninterp spec fn first_groups(pattern: Seq<char>, text: Seq<char>) -> Option<Seq<Option<Seq<char>>>>;

/// The text at a place in a JSON document: what `serde_json::Value::pointer`
/// and `serde_json::Value::as_str` give for what `serde_json::from_slice` read.
/// `None` where the document is not JSON, `Some(None)` where the place does not
/// exist or holds no text.
pub uninterp spec fn json_text(document: Seq<u8>, pointer: Seq<char>) -> Option<Option<Seq<char>>>;

/// Calls `regex::Regex::new`, then `regex::Regex::captures_iter`, and takes
/// group 1 of each match with `regex::Captures::get`. The result is a function
/// of pattern and text alone and goes by the name `first_groups`.
#[verifier::external_body]
fn capture_first_groups(pattern: &str, text: &str) -> (r: Option<Vec<Option<String>>>)
    ensures
        r.deep_view() == first_groups(pattern@, text@),
{
    let re = regex::Regex::new(pattern).ok()?;
    Some(re.captures_iter(text).map(|c| c.get(1).map(|m| m.as_str().to_string())).collect())
}

/// Calls `serde_json::from_slice`, then `serde_json::Value::pointer` and
/// `serde_json::Value::as_str`. The result is a function of document and
/// pointer alone and goes by the name `json_text`.
#[verifier::external_body]
fn json_text_at(document: &Vec<u8>, pointer: &str) -> (r: Option<Option<String>>)
    ensures
        r.deep_view() == json_text(document@, pointer@),
{
    let value: serde_json::Value = serde_json::from_slice(document).ok()?;
    Some(value.pointer(pointer).and_then(|v| v.as_str()).map(|s| s.to_string()))
}

/// Whether the latest tag has to be looked up: only where neither a range nor
/// a count was given.
pub fn needs_latest_tag(given: &Option<String>, count: Option<usize>) -> (r: bool)
    ensures
        r == (*given is None && count is None),
{
    given.is_none() && count.is_none()
}

/// The latest tag, from what `git describe` printed: its output without the
/// white space around it.
pub fn latest_tag_from(output: &str) -> (r: String)
    ensures
        r@ == trimmed(output@),
{
    trim(output)
}

/// The range of revisions that is searched.
pub fn revision_range(given: Option<String>, count: Option<usize>, latest_tag: Option<String>) -> (r: String)
    ensures
        r@ == range_of(
            given.deep_view(),
            match count {
                Some(n) => Some(n as nat),
                None => None,
            },
            latest_tag.deep_view(),
        ),
{
    match given {
        Some(range) => range,
        None => match count {
            Some(n) => {
                let digits = to_decimal(n as u64);
                concat3("HEAD~", digits.as_str(), "..HEAD")
            },
            None => match latest_tag {
                Some(tag) => concat2(tag.as_str(), "..HEAD"),
                None => "HEAD~10..HEAD".to_owned(),
            },
        },
    }
}

/// Owner and repository of a GitHub URL.
pub fn github_repo_path(url: &str) -> (r: Result<String, Error>)
    ensures
        match github_path(url@) {
            Some(path) => r matches Ok(p) && p@ == path,
            None => r == Err::<String, Error>(Error::NotGitHub),
        },
{
    let v = to_chars(url);
    let n = v.len();
    let suffix = to_chars(".git");
    assert(v@.subrange(0, n as int) =~= v@);
    let ssh = to_chars("git@github.com:");
    if starts_with_in(&v, 0, n, &ssh) {
        let start = trim_start_in(&v, 0, n, &ssh);
        let end = trim_end_in(&v, start, n, &suffix);
        return Ok(substring(url, start, end));
    }
    let marker = to_chars("github.com/");
    let at = find_text_in(&v, 0, n, &marker);
    if at >= n {
        return Err(Error::NotGitHub);
    }
    proof {
        crate::text::lemma_find_text(v@, marker@);
    }
    let start = at + marker.len();
    assert(v@.subrange(start as int, n as int) =~= v@.skip(start as int));
    let stop = find_text_in(&v, start, n, &marker);
    assert(v@.skip(start as int).take(stop - start) =~= v@.subrange(start as int, stop as int));
    let end = trim_end_in(&v, start, stop, &suffix);
    Ok(substring(url, start, end))
}

/// Owner and repository of the remote `origin`, which must be on GitHub.
pub fn get_repo_info(repo: &git2::Repository) -> (r: Result<String, Error>)
    ensures
        r matches Err(e) ==> e is Git || e is NotGitHub || e is InvalidRepositoryUrl,
        r matches Ok(path) ==> is_github_path(path@),
{
    let origin = match find_remote(repo, "origin") {
        Ok(remote) => remote,
        Err(e) => {
            return Err(git_failure(&e));
        },
    };
    match remote_url(&origin) {
        Some(url) => {
            let path = github_repo_path(url.as_str());
            assert(path matches Ok(p) ==> github_path(url@) == Some(p@));
            path
        },
        None => Err(Error::InvalidRepositoryUrl),
    }
}

/// Whether a list of numbers holds a number.
fn holds(numbers: &Vec<u32>, n: u32) -> (r: bool)
    ensures
        r == numbers@.contains(n),
{
    let mut i: usize = 0;
    while i < numbers.len()
        invariant
            i <= numbers.len(),
            forall|j: int| 0 <= j < i ==> numbers@[j] != n,
        decreases numbers.len() - i,
    {
        if numbers[i] == n {
            return true;
        }
        i += 1;
    }
    false
}

/// The numbers that the texts stand for, each once.
pub fn pr_numbers_from(tokens: &Vec<Option<String>>) -> (r: Vec<u32>)
    ensures
        r@ == numbers_in(tokens.deep_view()),
{
    let mut numbers: Vec<u32> = Vec::new();
    let mut i: usize = 0;
    while i < tokens.len()
        invariant
            i <= tokens.len(),
            numbers@ == numbers_in(tokens.deep_view().take(i as int)),
        decreases tokens.len() - i,
    {
        assert(tokens.deep_view().take(i + 1).drop_last() =~= tokens.deep_view().take(i as int));
        assert(tokens.deep_view().take(i + 1).last() == tokens.deep_view()[i as int]);
        match &tokens[i] {
            Some(token) => match parse_u32(token.as_str()) {
                Some(n) => {
                    if !holds(&numbers, n) {
                        numbers.push(n);
                    }
                },
                None => {},
            },
            None => {},
        }
        i += 1;
    }
    assert(tokens.deep_view().take(tokens.len() as int) =~= tokens.deep_view());
    numbers
}

/// The numbers of the pull requests that the subjects of a log name, each
/// once, in the order of the log.
pub fn extract_pr_numbers(log: &str) -> (r: Vec<u32>)
    ensures
        r@ == match first_groups(PR_PATTERN@, log@) {
            Some(tokens) => numbers_in(tokens),
            None => Seq::empty(),
        },
{
    match capture_first_groups(PR_PATTERN, log) {
        Some(tokens) => pr_numbers_from(&tokens),
        None => Vec::new(),
    }
}

/// A pull request, from its number and from the fields that were read of it. A
/// title or a URL that is missing is empty.
pub fn pull_request_from(
    number: u32,
    title: Option<String>,
    url: Option<String>,
    merged_at: Option<String>,
    author: Option<String>,
) -> (r: PullRequest)
    ensures
        r.number == number,
        r.title@ == match title {
            Some(t) => t@,
            None => Seq::empty(),
        },
        r.url@ == match url {
            Some(u) => u@,
            None => Seq::empty(),
        },
        r.merged_at == merged_at,
        r.author == author,
        r.merged_at.deep_view() == merged_at.deep_view(),
        r.author.deep_view() == author.deep_view(),
{
    PullRequest {
        number,
        title: match title {
            Some(t) => t,
            None => String::new(),
        },
        url: match url {
            Some(u) => u,
            None => String::new(),
        },
        merged_at,
        author,
    }
}

/// The text that was read at a place of a document, if any.
pub open spec fn text_or_none(read: Option<Option<Seq<char>>>) -> Option<Seq<char>> {
    match read {
        Some(text) => text,
        None => None,
    }
}

/// A text, or the empty text in its place.
pub open spec fn text_or_empty(text: Option<Seq<char>>) -> Seq<char> {
    match text {
        Some(t) => t,
        None => Seq::empty(),
    }
}

/// A pull request, from its number and from the JSON document that describes
/// it: the texts at `title`, `url`, `mergedAt` and `author.login`. A document
/// that is not JSON is refused.
pub fn pull_request_from_json(number: u32, document: &Vec<u8>) -> (r: Result<PullRequest, Error>)
    ensures
        match json_text(document@, "/title"@) {
            None => r matches Err(e) && e is InvalidInput,
            Some(title) => r matches Ok(pr) && {
                &&& pr.number == number
                &&& pr.title@ == text_or_empty(title)
                &&& pr.url@ == text_or_empty(text_or_none(json_text(document@, "/url"@)))
                &&& pr.merged_at.deep_view() == text_or_none(json_text(document@, "/mergedAt"@))
                &&& pr.author.deep_view() == text_or_none(json_text(document@, "/author/login"@))
            },
        },
{
    let title = match json_text_at(document, "/title") {
        Some(title) => title,
        None => {
            return Err(Error::InvalidInput("the pull request is not described in JSON".to_owned()));
        },
    };
    let url = match json_text_at(document, "/url") {
        Some(url) => url,
        None => None,
    };
    let merged_at = match json_text_at(document, "/mergedAt") {
        Some(at) => at,
        None => None,
    };
    let author = match json_text_at(document, "/author/login") {
        Some(login) => login,
        None => None,
    };
    Ok(pull_request_from(number, title, url, merged_at, author))
}

/// A pull request, from what the command that looked it up returned: the
/// failure of the command where its status was not zero, with what it wrote to
/// its standard error, else what its output describes.
pub fn pull_request_from_lookup(number: u32, success: bool, output: &Vec<u8>, stderr: &str) -> (r: Result<
    PullRequest,
    Error,
>)
    ensures
        !success ==> (r matches Err(Error::ExternalCommandFailed { stderr: text }) && text@ == stderr@),
        success ==> match json_text(output@, "/title"@) {
            None => r matches Err(e) && e is InvalidInput,
            Some(title) => r matches Ok(pr) && {
                &&& pr.number == number
                &&& pr.title@ == text_or_empty(title)
                &&& pr.url@ == text_or_empty(text_or_none(json_text(output@, "/url"@)))
                &&& pr.merged_at.deep_view() == text_or_none(json_text(output@, "/mergedAt"@))
                &&& pr.author.deep_view() == text_or_none(json_text(output@, "/author/login"@))
            },
        },
{
    if !success {
        return Err(Error::ExternalCommandFailed { stderr: stderr.to_owned() });
    }
    pull_request_from_json(number, output)
}

/// The line of a pull request in a plain listing: `#` and its number, inside a
/// terminal hyperlink to its page where links are asked for.
pub fn text_line(pr: &PullRequest, with_links: bool) -> (r: String)
    ensures
        r@ == if with_links {
            "\x1b]8;;"@ + pr.url@ + "\x1b\\#"@ + decimal(pr.number as nat) + "\x1b]8;;\x1b\\"@
        } else {
            "#"@ + decimal(pr.number as nat)
        },
{
    let digits = to_decimal(pr.number as u64);
    if with_links {
        let mut out = "\x1b]8;;".to_owned();
        out.append(pr.url.as_str());
        out.append("\x1b\\#");
        out.append(digits.as_str());
        out.append("\x1b]8;;\x1b\\");
        out
    } else {
        concat2("#", digits.as_str())
    }
}

/// The bullet of a pull request in Markdown: `- [#N](url) title`, with
/// ` (@author)` behind it where the author is known.
pub open spec fn bullet_of(number: u32, url: Seq<char>, title: Seq<char>, author: Option<Seq<char>>) -> Seq<
    char,
> {
    "- [#"@ + decimal(number as nat) + "]("@ + url + ") "@ + title + match author {
        Some(name) => " (@"@ + name + ")"@,
        None => Seq::empty(),
    }
}

/// The bullet of a pull request in Markdown.
pub fn markdown_bullet(pr: &PullRequest) -> (r: String)
    ensures
        r@ == bullet_of(pr.number, pr.url@, pr.title@, pr.author.deep_view()),
{
    let digits = to_decimal(pr.number as u64);
    let mut out = "- [#".to_owned();
    out.append(digits.as_str());
    out.append("](");
    out.append(pr.url.as_str());
    out.append(") ");
    out.append(pr.title.as_str());
    match &pr.author {
        Some(name) => {
            let ghost before = out@;
            out.append(" (@");
            out.append(name.as_str());
            out.append(")");
            assert(out@ =~= before + (" (@"@ + name@ + ")"@));
        },
        None => {
            assert(out@ + Seq::<char>::empty() =~= out@);
        },
    }
    out
}

/// The heading of a Markdown listing, with the empty line behind it.
pub fn markdown_heading(range: &str) -> (r: String)
    ensures
        r@ == "## Merged PRs ("@ + range@ + ")\n\n"@,
{
    concat3("## Merged PRs (", range, ")\n\n")
}

/// The numbers, written in decimal and joined by `+`.
pub open spec fn plus_joined(numbers: Seq<u32>) -> Seq<char>
    decreases numbers.len(),
{
    if numbers.len() == 0 {
        Seq::empty()
    } else if numbers.len() == 1 {
        decimal(numbers[0] as nat)
    } else {
        plus_joined(numbers.drop_last()) + "+"@ + decimal(numbers.last() as nat)
    }
}

/// The address of the search that lists these pull requests of a repository.
pub fn search_url(repo_info: &str, numbers: &Vec<u32>) -> (r: String)
    ensures
        r@ == "https://github.com/"@ + repo_info@ + "/pulls?q=is:pr+is:merged+"@ + plus_joined(numbers@),
{
    let mut query = String::new();
    let mut i: usize = 0;
    while i < numbers.len()
        invariant
            i <= numbers.len(),
            query@ == plus_joined(numbers@.take(i as int)),
        decreases numbers.len() - i,
    {
        assert(numbers@.take(i + 1).drop_last() =~= numbers@.take(i as int));
        let digits = to_decimal(numbers[i] as u64);
        if i == 0 {
            query = digits;
        } else {
            query.append("+");
            query.append(digits.as_str());
        }
        i += 1;
    }
    assert(numbers@.take(numbers.len() as int) =~= numbers@);
    let mut out = concat3("https://github.com/", repo_info, "/pulls?q=is:pr+is:merged+");
    out.append(query.as_str());
    out
}

} // verus!
