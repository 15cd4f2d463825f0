//! Clone URLs and the repository identity that they name.
//!
//! Two shapes are read. The SSH shape `user@host:owner/repo[.git]` is split by this
//! module alone. Every other text is handed to the `url` crate, and this module
//! reads owner and repository out of the host and path that it reports.

use vstd::prelude::*;
use vstd::string::*;
use crate::error::Error;
use crate::settings::prefer_ssh;
use crate::text::{
    after_last, ends_with, find_char, find_in, lemma_find_char, lemma_find_char_unique,
    lemma_rfind_char, lemma_rfind_char_unique, lemma_split_head, lemma_split_pieces,
    lemma_split_whole, rfind_char, rfind_in, split, starts_with, starts_with_in, substring,
    to_chars, trim_end_in, trim_end_matches, trim_start_in, trim_start_matches,
};

verus! {

/// Domain, owner and repository name of a clone URL.
#[derive(Debug, Clone, PartialEq, Eq)]
pub struct RepoInfo {
    pub domain: String,
    pub user: String,
    pub repo: String,
}

/// What a `RepoInfo` stands for: three texts.
pub struct RepoName {
    pub domain: Seq<char>,
    pub user: Seq<char>,
    pub repo: Seq<char>,
}

impl View for RepoInfo {
    type V = RepoName;

    open spec fn view(&self) -> RepoName {
        RepoName { domain: self.domain@, user: self.user@, repo: self.repo@ }
    }
}

/// Host and path of a URL, as the URL parser reports them.
#[derive(Debug, Clone, PartialEq, Eq)]
pub struct UrlParts {
    pub host: Option<String>,
    pub path: String,
}

/// Owner and repository are the first two pieces of a path, once every trailing
/// `.git` is gone. A path with fewer than two pieces names no repository.
pub open spec fn owner_and_repo(path: Seq<char>) -> Option<(Seq<char>, Seq<char>)> {
    let pieces = split(trim_end_matches(path, ".git"@), '/');
    if pieces.len() >= 2 {
        Some((pieces[0], pieces[1]))
    } else {
        None
    }
}

/// Whether a text has the SSH shape: an `@` stands before its first `:`, or
/// anywhere in a text without `:`.
pub open spec fn has_ssh_shape(url: Seq<char>) -> bool {
    url.take(find_char(url, ':')).contains('@')
}

/// The SSH shape: the text up to the first `:` holds the host behind its last
/// `@`, the text after the `:` is the path.
pub open spec fn parse_ssh(url: Seq<char>) -> Option<RepoName> {
    let colon = find_char(url, ':');
    if colon >= url.len() {
        None
    } else {
        match owner_and_repo(url.skip(colon + 1)) {
            Some((user, repo)) => Some(
                RepoName { domain: after_last(url.take(colon), '@'), user, repo },
            ),
            None => None,
        }
    }
}

/// The general shape, from the host and path of a parsed URL: the path loses its
/// leading slashes, then names owner and repository as in the SSH shape.
pub open spec fn parse_parts(host: Option<Seq<char>>, path: Seq<char>) -> Option<RepoName> {
    match host {
        None => None,
        Some(domain) => match owner_and_repo(trim_start_matches(path, "/"@)) {
            Some((user, repo)) => Some(RepoName { domain, user, repo }),
            None => None,
        },
    }
}

/// Host and path that `url::Url::parse` gives for a text: `None` where it rejects
/// the text, and a host of `None` where the URL has none.
pub uninterp spec fn url_parts(text: Seq<char>) -> Option<(Option<Seq<char>>, Seq<char>)>;

/// What a clone URL names, if anything.
pub open spec fn parse_url(url: Seq<char>) -> Option<RepoName> {
    if has_ssh_shape(url) {
        parse_ssh(url)
    } else {
        match url_parts(url) {
            Some((host, path)) => parse_parts(host, path),
            None => None,
        }
    }
}

/// The SSH form of a repository identity: `git@domain:user/repo`.
pub open spec fn canonical_url(name: RepoName) -> Seq<char> {
    "git@"@ + name.domain + ":"@ + name.user + "/"@ + name.repo
}

/// A name that reads back unchanged from its canonical URL: no `:` and no `@`
/// in the domain, no `/` in owner or repository, and no `.git` at the end of
/// the repository.
pub open spec fn is_canonical(name: RepoName) -> bool {
    &&& !name.domain.contains(':')
    &&& !name.domain.contains('@')
    &&& !name.user.contains('/')
    &&& !name.repo.contains('/')
    &&& !ends_with(name.repo, ".git"@)
}

/// `git@` + `host` + `:` + `rest` has the SSH shape; its first `:` stands right
/// behind the host where the host holds none, and the host is what follows the
/// last `@` before it where the host holds none.
proof fn lemma_ssh_layout(host: Seq<char>, rest: Seq<char>)
    requires
        !host.contains(':'),
        !host.contains('@'),
    ensures
        has_ssh_shape("git@"@ + host + ":"@ + rest),
        find_char("git@"@ + host + ":"@ + rest, ':') == 4 + host.len(),
        4 + host.len() < ("git@"@ + host + ":"@ + rest).len(),
        after_last(("git@"@ + host + ":"@ + rest).take(4 + host.len() as int), '@') == host,
        ("git@"@ + host + ":"@ + rest).skip(4 + host.len() as int + 1) == rest,
{
    reveal_strlit("git@");
    reveal_strlit(":");
    let url = "git@"@ + host + ":"@ + rest;
    let colon: int = 4 + host.len() as int;
    assert forall|j: int| 0 <= j < colon implies url[j] != ':' by {
        if j >= 4 {
            assert(url[j] == host[j - 4]);
            assert(host.contains(host[j - 4]));
        }
    }
    lemma_find_char_unique(url, ':', colon);
    let left = url.take(colon);
    assert(left =~= "git@"@ + host);
    assert(left[3] == '@');
    assert(left.contains('@'));
    assert forall|j: int| 3 < j < left.len() implies left[j] != '@' by {
        assert(left[j] == host[j - 4]);
        assert(host.contains(host[j - 4]));
    }
    lemma_rfind_char_unique(left, '@', 3);
    assert(left.skip(4) =~= host);
    assert(url.skip(colon + 1) =~= rest);
}

/// Owner and repository of `user/repo`, where neither holds a `/` and the
/// repository does not end in `.git`, are `user` and `repo`.
proof fn lemma_owner_and_repo_of_pair(user: Seq<char>, repo: Seq<char>)
    requires
        !user.contains('/'),
        !repo.contains('/'),
        !ends_with(repo, ".git"@),
    ensures
        owner_and_repo(user + "/"@ + repo) == Some((user, repo)),
{
    reveal_strlit(".git");
    reveal_strlit("/");
    let path = user + "/"@ + repo;
    if ends_with(path, ".git"@) {
        let tail = path.skip(path.len() - 4);
        if repo.len() >= 4 {
            assert(repo.skip(repo.len() - 4) =~= tail);
        } else {
            let k = user.len() - (path.len() - 4);
            assert(tail[k] == path[user.len() as int]);
            assert(tail[k] == '/');
        }
    }
    assert forall|j: int| 0 <= j < user.len() implies path[j] != '/' by {
        assert(path[j] == user[j]);
        assert(user.contains(user[j]));
    }
    lemma_find_char_unique(path, '/', user.len() as int);
    lemma_split_head(path, '/');
    assert(path.take(user.len() as int) =~= user);
    assert(path.skip(user.len() as int + 1) =~= repo);
    lemma_split_whole(repo, '/');
    assert(split(path, '/') =~= seq![user, repo]);
}

/// A canonical name reads back from its canonical URL.
pub proof fn lemma_canonical_url_round_trip(name: RepoName)
    requires
        is_canonical(name),
    ensures
        parse_url(canonical_url(name)) == Some(name),
{
    let rest = name.user + "/"@ + name.repo;
    lemma_ssh_layout(name.domain, rest);
    lemma_owner_and_repo_of_pair(name.user, name.repo);
    assert(canonical_url(name) =~= "git@"@ + name.domain + ":"@ + rest);
}

/// What the SSH shape yields has no `:` and no `@` in the domain, and no `/` in
/// owner or repository.
pub proof fn lemma_parsed_ssh_name(url: Seq<char>)
    ensures
        parse_ssh(url) matches Some(name) ==> {
            &&& !name.domain.contains(':')
            &&& !name.domain.contains('@')
            &&& !name.user.contains('/')
            &&& !name.repo.contains('/')
        },
{
    if let Some(name) = parse_ssh(url) {
        lemma_find_char(url, ':');
        let colon = find_char(url, ':');
        let left = url.take(colon);
        lemma_rfind_char(left, '@');
        let skipped = rfind_char(left, '@') + 1;
        if name.domain.contains(':') {
            let j = choose|j: int| 0 <= j < name.domain.len() && name.domain[j] == ':';
            assert(name.domain[j] == url[skipped + j]);
        }
        if name.domain.contains('@') {
            let j = choose|j: int| 0 <= j < name.domain.len() && name.domain[j] == '@';
            assert(name.domain[j] == left[skipped + j]);
        }
        lemma_split_pieces(trim_end_matches(url.skip(colon + 1), ".git"@), '/');
    }
}

/// Reading is idempotent: a name that came out of a URL, and does not end in
/// `.git`, comes out again from its own canonical URL. For the SSH shape nothing
/// else is asked; for the general shape the host must be free of `:` and `@`,
/// and owner and repository are free of `/` by construction.
pub proof fn lemma_reparse(url: Seq<char>)
    ensures
        parse_url(url) matches Some(name) ==> (!ends_with(name.repo, ".git"@) && !name.domain.contains(
            ':',
        ) && !name.domain.contains('@') ==> parse_url(canonical_url(name)) == Some(name)),
        parse_ssh(url) matches Some(name) ==> (!ends_with(name.repo, ".git"@) ==> parse_url(
            canonical_url(name),
        ) == Some(name)),
{
    if let Some(name) = parse_ssh(url) {
        lemma_parsed_ssh_name(url);
        if !ends_with(name.repo, ".git"@) {
            lemma_canonical_url_round_trip(name);
        }
    }
    if let Some(name) = parse_url(url) {
        if !ends_with(name.repo, ".git"@) && !name.domain.contains(':') && !name.domain.contains('@') {
            if has_ssh_shape(url) {
                lemma_parsed_ssh_name(url);
            } else {
                let (host, path) = url_parts(url).unwrap();
                lemma_split_pieces(trim_end_matches(trim_start_matches(path, "/"@), ".git"@), '/');
            }
            lemma_canonical_url_round_trip(name);
        }
    }
}

/// The two shapes agree: the SSH form of a host and a path names what the
/// general form names whose URL has that host and `/` + that path. The host is
/// free of `:` and `@`; the path does not start with `/`.
pub proof fn lemma_forms_agree(host: Seq<char>, path: Seq<char>)
    requires
        !host.contains(':'),
        !host.contains('@'),
        !starts_with(path, "/"@),
    ensures
        parse_url("git@"@ + host + ":"@ + path) == parse_parts(Some(host), "/"@ + path),
        forall|general: Seq<char>|
            !has_ssh_shape(general) && #[trigger] url_parts(general) == Some(
                (Some(host), "/"@ + path),
            ) ==> parse_url(general) == parse_url("git@"@ + host + ":"@ + path),
{
    reveal_strlit("/");
    lemma_ssh_layout(host, path);
    let slashed = "/"@ + path;
    assert(slashed.take(1) =~= "/"@);
    assert(slashed.skip(1) =~= path);
    assert(trim_start_matches(slashed, "/"@) == trim_start_matches(path, "/"@));
}

/// The SSH form of a URL with this host and path: `git@host:path`, the path
/// without its leading slashes. A URL without a host has none.
pub open spec fn ssh_form(host: Option<Seq<char>>, path: Seq<char>) -> Option<Seq<char>> {
    match host {
        Some(h) => Some("git@"@ + h + ":"@ + trim_start_matches(path, "/"@)),
        None => None,
    }
}

/// What a URL is cloned from: the URL itself, or its SSH form where SSH is
/// preferred and the URL parser finds a host in it.
pub open spec fn converted(url: Seq<char>, prefer_ssh: bool) -> Seq<char> {
    if !prefer_ssh || starts_with(url, "git@"@) {
        url
    } else {
        match url_parts(url) {
            Some((host, path)) => match ssh_form(host, path) {
                Some(ssh) => ssh,
                None => url,
            },
            None => url,
        }
    }
}

/// Calls `url::Url::parse`, then `Url::host_str` and `Url::path` on what it
/// returned. The three are functions of the text alone; the contract gives their
/// joint result the name `url_parts` and claims nothing else about it.
#[verifier::external_body]
fn split_url(text: &str) -> (r: Option<UrlParts>)
    ensures
        match r {
            Some(parts) => url_parts(text@) == Some((parts.host.deep_view(), parts.path@)),
            None => url_parts(text@) is None,
        },
{
    let url = url::Url::parse(text).ok()?;
    Some(UrlParts { host: url.host_str().map(|h| h.to_string()), path: url.path().to_string() })
}

/// The first two pieces of the window `lo..hi` once its trailing `.git` is gone:
/// the owner is `lo..slash`, the repository `slash + 1..end`.
fn owner_and_repo_in(v: &Vec<char>, lo: usize, hi: usize) -> (r: Option<(usize, usize)>)
    requires
        lo <= hi <= v.len(),
    ensures
        match r {
            Some((slash, end)) => {
                &&& lo <= slash < end <= hi
                &&& owner_and_repo(v@.subrange(lo as int, hi as int)) == Some(
                    (v@.subrange(lo as int, slash as int), v@.subrange(slash + 1, end as int)),
                )
            },
            None => owner_and_repo(v@.subrange(lo as int, hi as int)) is None,
        },
{
    let suffix = to_chars(".git");
    let limit = trim_end_in(v, lo, hi, &suffix);
    let slash = find_in(v, lo, limit, '/');
    let ghost path = v@.subrange(lo as int, limit as int);
    proof {
        lemma_split_head(path, '/');
    }
    if slash >= limit {
        return None;
    }
    let end = find_in(v, slash + 1, limit, '/');
    proof {
        let rest = path.skip(slash - lo + 1);
        assert(rest =~= v@.subrange(slash + 1, limit as int));
        lemma_split_head(rest, '/');
        assert(path.take(slash - lo) =~= v@.subrange(lo as int, slash as int));
        assert(rest.take(end - slash - 1) =~= v@.subrange(slash + 1, end as int));
    }
    Some((slash, end))
}

/// Reads a URL of the SSH shape.
pub fn parse_ssh_url(url_str: &str) -> (r: Result<RepoInfo, Error>)
    ensures
        match parse_ssh(url_str@) {
            Some(name) => r matches Ok(info) && info@ == name,
            None => r == Err::<RepoInfo, Error>(Error::InvalidRepositoryUrl),
        },
{
    let v = to_chars(url_str);
    let n = v.len();
    let colon = find_in(&v, 0, n, ':');
    assert(v@.subrange(0, n as int) =~= v@);
    if colon >= n {
        return Err(Error::InvalidRepositoryUrl);
    }
    let host_start = rfind_in(&v, 0, colon, '@');
    assert(v@.subrange(0, colon as int) =~= v@.take(colon as int));
    assert(v@.take(colon as int).skip(host_start as int) =~= v@.subrange(
        host_start as int,
        colon as int,
    ));
    assert(v@.subrange(colon + 1, n as int) =~= v@.skip(colon + 1));
    match owner_and_repo_in(&v, colon + 1, n) {
        None => Err(Error::InvalidRepositoryUrl),
        Some((slash, end)) => Ok(
            RepoInfo {
                domain: substring(url_str, host_start, colon),
                user: substring(url_str, colon + 1, slash),
                repo: substring(url_str, slash + 1, end),
            },
        ),
    }
}

/// Reads owner and repository out of the host and path of a parsed URL.
pub fn repo_info_from_parts(parts: &UrlParts) -> (r: Result<RepoInfo, Error>)
    ensures
        match parse_parts(parts.host.deep_view(), parts.path@) {
            Some(name) => r matches Ok(info) && info@ == name,
            None => r == Err::<RepoInfo, Error>(Error::InvalidRepositoryUrl),
        },
{
    match &parts.host {
        None => Err(Error::InvalidRepositoryUrl),
        Some(host) => {
            let v = to_chars(parts.path.as_str());
            let n = v.len();
            let slash_pat = to_chars("/");
            let start = trim_start_in(&v, 0, n, &slash_pat);
            assert(v@.subrange(0, n as int) =~= v@);
            match owner_and_repo_in(&v, start, n) {
                None => Err(Error::InvalidRepositoryUrl),
                Some((slash, end)) => Ok(
                    RepoInfo {
                        domain: host.clone(),
                        user: substring(parts.path.as_str(), start, slash),
                        repo: substring(parts.path.as_str(), slash + 1, end),
                    },
                ),
            }
        },
    }
}

/// Parse a repository URL into domain, owner and repository name.
///
/// A text with an `@` before its first `:` is read as the SSH shape; any other
/// text goes through the URL parser. The error is `InvalidRepositoryUrl` in every case in
/// which no identity comes out.
pub fn parse_repo_url(url_str: &str) -> (r: Result<RepoInfo, Error>)
    ensures
        match parse_url(url_str@) {
            Some(name) => r matches Ok(info) && info@ == name,
            None => r == Err::<RepoInfo, Error>(Error::InvalidRepositoryUrl),
        },
{
    let v = to_chars(url_str);
    let n = v.len();
    assert(v@.subrange(0, n as int) =~= v@);
    let colon = find_in(&v, 0, n, ':');
    assert(v@.subrange(0, colon as int) =~= v@.take(colon as int));
    proof {
        lemma_rfind_char(v@.take(colon as int), '@');
    }
    if rfind_in(&v, 0, colon, '@') > 0 {
        parse_ssh_url(url_str)
    } else {
        match split_url(url_str) {
            None => Err(Error::InvalidRepositoryUrl),
            Some(parts) => repo_info_from_parts(&parts),
        }
    }
}

impl RepoInfo {
    /// The SSH form of this identity: `git@domain:user/repo`.
    pub fn canonical_url(&self) -> (r: String)
        ensures
            r@ == canonical_url(self@),
    {
        let mut out = "git@".to_owned();
        out.append(self.domain.as_str());
        out.append(":");
        out.append(self.user.as_str());
        out.append("/");
        out.append(self.repo.as_str());
        out
    }
}

/// The SSH form of a URL, from the host and path of the parsed URL.
pub fn ssh_url_from_parts(parts: &UrlParts) -> (r: Option<String>)
    ensures
        r.deep_view() == ssh_form(parts.host.deep_view(), parts.path@),
{
    match &parts.host {
        Some(host) => {
            let p = to_chars(parts.path.as_str());
            let slash = to_chars("/");
            let start = trim_start_in(&p, 0, p.len(), &slash);
            assert(p@.subrange(0, p.len() as int) =~= p@);
            let rest = substring(parts.path.as_str(), start, p.len());
            let mut out = "git@".to_owned();
            out.append(host.as_str());
            out.append(":");
            out.append(rest.as_str());
            Some(out)
        },
        None => None,
    }
}

/// Converts a URL to its SSH form where SSH is preferred.
pub fn convert_url(url: &str, prefer_ssh: bool) -> (r: String)
    ensures
        r@ == converted(url@, prefer_ssh),
{
    if !prefer_ssh {
        return url.to_owned();
    }
    let v = to_chars(url);
    let prefix = to_chars("git@");
    assert(v@.subrange(0, v.len() as int) =~= v@);
    if starts_with_in(&v, 0, v.len(), &prefix) {
        return url.to_owned();
    }
    match split_url(url) {
        Some(parts) => match ssh_url_from_parts(&parts) {
            Some(ssh) => ssh,
            None => url.to_owned(),
        },
        None => url.to_owned(),
    }
}

/// Convert HTTPS URL to SSH if needed: where the configuration of the user
/// prefers SSH.
pub fn convert_url_if_needed(url: &str) -> (r: String)
    ensures
        r@ == converted(url@, true) || r@ == converted(url@, false),
{
    convert_url(url, prefer_ssh())
}

} // verus!
