//! The listing of the repositories below the root.

use vstd::prelude::*;
use vstd::string::*;
use crate::backend::{head_reference, open_repository, reference_shorthand, status_count};
use crate::paths::{join, join_path};
use crate::scan::{joined, relative_path};
use crate::text::to_chars;

verus! {

/// What a listing shows.
#[derive(Debug, Clone, Copy, PartialEq, Eq)]
pub struct ListOptions {
    /// Show branch and status beside each path.
    pub long: bool,
    /// Show absolute paths.
    pub absolute: bool,
    /// Leave out the repositories that are clean.
    pub dirty: bool,
    /// Write the entries as JSON.
    pub json: bool,
}

/// One repository of a listing. A field that is `None` is not shown.
#[derive(Debug, Clone, PartialEq, Eq)]
pub struct RepoEntry {
    /// The path below the root.
    pub path: String,
    pub absolute_path: Option<String>,
    pub branch: Option<String>,
    pub status: Option<String>,
}

/// What was read from a repository that could be opened.
#[derive(Debug, Clone, PartialEq, Eq)]
pub struct RepoFacts {
    /// The short name of what `HEAD` points at, if it can be told.
    pub branch: Option<String>,
    /// Whether the working tree and the index hold no changes.
    pub clean: bool,
}

/// What a `RepoEntry` stands for.
pub struct EntryText {
    pub path: Seq<char>,
    pub absolute_path: Option<Seq<char>>,
    pub branch: Option<Seq<char>>,
    pub status: Option<Seq<char>>,
}

impl View for RepoEntry {
    type V = EntryText;

    open spec fn view(&self) -> EntryText {
        EntryText {
            path: self.path@,
            absolute_path: self.absolute_path.deep_view(),
            branch: self.branch.deep_view(),
            status: self.status.deep_view(),
        }
    }
}

/// What `RepoFacts` stand for, where there are any.
pub open spec fn facts_of(facts: Option<RepoFacts>) -> Option<(Option<Seq<char>>, bool)> {
    match facts {
        Some(f) => Some((f.branch.deep_view(), f.clean)),
        None => None,
    }
}

/// The word for a status.
pub open spec fn status_text(clean: bool) -> Seq<char> {
    if clean {
        "[clean]"@
    } else {
        "[dirty]"@
    }
}

/// Whether a listing has to open the repositories.
pub open spec fn needs_facts(options: ListOptions) -> bool {
    options.dirty || options.long || options.json
}

/// The entry of a repository, or `None` where the listing leaves it out: a
/// listing of dirty repositories leaves out what is known to be clean. The
/// absolute path is held only where asked for, branch and status only in a long
/// or JSON listing of a repository that could be opened.
pub open spec fn entry_for(
    relative: Seq<char>,
    absolute: Seq<char>,
    options: ListOptions,
    facts: Option<(Option<Seq<char>>, bool)>,
) -> Option<EntryText> {
    if options.dirty && (facts matches Some((_, clean)) && clean) {
        None
    } else {
        let detailed = options.long || options.json;
        Some(
            EntryText {
                path: relative,
                absolute_path: if options.absolute {
                    Some(absolute)
                } else {
                    None
                },
                branch: match facts {
                    Some((branch, _)) => if detailed {
                        branch
                    } else {
                        None
                    },
                    None => None,
                },
                status: match facts {
                    Some((_, clean)) => if detailed {
                        Some(status_text(clean))
                    } else {
                        None
                    },
                    None => None,
                },
            },
        )
    }
}

/// `s`, with spaces behind it up to `width` characters.
pub open spec fn padded(s: Seq<char>, width: nat) -> Seq<char> {
    if s.len() >= width {
        s
    } else {
        s + Seq::new((width - s.len()) as nat, |i: int| ' ')
    }
}

/// The path that a line shows: the absolute one where asked for and held.
pub open spec fn shown_path(entry: EntryText, options: ListOptions) -> Seq<char> {
    match entry.absolute_path {
        Some(absolute) => if options.absolute {
            absolute
        } else {
            entry.path
        },
        None => entry.path,
    }
}

/// What an `Option` of a text shows: nothing for `None`.
pub open spec fn shown(text: Option<Seq<char>>) -> Seq<char> {
    match text {
        Some(t) => t,
        None => Seq::empty(),
    }
}

/// The line of an entry: the path alone, or in a long listing the path in a
/// column of 50, the branch in a column of 20, and the status.
pub open spec fn line_for(entry: EntryText, options: ListOptions) -> Seq<char> {
    if options.long {
        padded(shown_path(entry, options), 50) + " "@ + padded(shown(entry.branch), 20) + " "@
            + shown(entry.status)
    } else {
        shown_path(entry, options)
    }
}

/// Whether a repository is clean. `changed` is the number of paths whose status
/// is not clean, `None` where the status could not be read, which counts as clean.
pub fn is_repo_clean(changed: Option<usize>) -> (r: bool)
    ensures
        r == !(changed matches Some(n) && n > 0),
{
    match changed {
        Some(n) => n == 0,
        None => true,
    }
}

/// The word that a listing shows for a status.
pub fn get_repo_status(clean: bool) -> (r: String)
    ensures
        r@ == status_text(clean),
{
    if clean {
        "[clean]".to_owned()
    } else {
        "[dirty]".to_owned()
    }
}

/// Builds the entry of a repository.
pub fn make_entry(relative: &str, absolute: &str, options: &ListOptions, facts: Option<RepoFacts>) -> (r:
    Option<RepoEntry>)
    ensures
        match entry_for(relative@, absolute@, *options, facts_of(facts)) {
            Some(text) => r matches Some(entry) && entry@ == text,
            None => r is None,
        },
{
    let detailed = options.long || options.json;
    let mut entry = RepoEntry {
        path: relative.to_owned(),
        absolute_path: None,
        branch: None,
        status: None,
    };
    if options.absolute {
        entry.absolute_path = Some(absolute.to_owned());
    }
    match facts {
        Some(f) => {
            if options.dirty && f.clean {
                return None;
            }
            if detailed {
                entry.branch = f.branch;
                entry.status = Some(get_repo_status(f.clean));
            }
        },
        None => {},
    }
    Some(entry)
}

/// Opens the repository at a path and reads its branch and status; `None`
/// where it cannot be opened.
pub fn repo_facts(path: &str) -> (r: Option<RepoFacts>) {
    match open_repository(path) {
        Err(_) => None,
        Ok(repo) => {
            let branch = match head_reference(&repo) {
                Ok(head) => reference_shorthand(&head),
                Err(_) => None,
            };
            let clean = is_repo_clean(status_count(&repo));
            Some(RepoFacts { branch, clean })
        },
    }
}

/// The entries of a listing, from the repositories that a scan found below
/// `root` and from what was read of each one: the entry of each repository that
/// the listing does not leave out, in the order of the scan.
pub open spec fn entries_for(
    root: Seq<char>,
    found: Seq<Seq<Seq<char>>>,
    options: ListOptions,
    facts: Seq<Option<(Option<Seq<char>>, bool)>>,
) -> Seq<EntryText>
    decreases found.len(),
{
    if found.len() == 0 || facts.len() != found.len() {
        Seq::empty()
    } else {
        let earlier = entries_for(root, found.drop_last(), options, facts.drop_last());
        let relative = joined(found.last());
        match entry_for(relative, join(root, relative), options, facts.last()) {
            Some(entry) => earlier.push(entry),
            None => earlier,
        }
    }
}

/// What a `Vec` of entries stands for.
pub open spec fn entries_of(entries: Seq<RepoEntry>) -> Seq<EntryText> {
    Seq::new(entries.len(), |i: int| entries[i]@)
}

/// The entries of the repositories that a scan found below `root`, in the order
/// of the scan. Each repository is opened only where the options ask for what
/// is inside; what is read of it decides the rest. Without the option `dirty`
/// every repository has its entry.
pub fn list_entries(root: &str, found: &Vec<Vec<String>>, options: &ListOptions) -> (r: Vec<RepoEntry>)
    ensures
        exists|facts: Seq<Option<(Option<Seq<char>>, bool)>>|
            {
                &&& facts.len() == found.len()
                &&& !needs_facts(*options) ==> forall|i: int|
                    0 <= i < facts.len() ==> (#[trigger] facts[i]) is None
                &&& entries_of(r@) == #[trigger] entries_for(root@, found.deep_view(), *options, facts)
            },
        r.len() <= found.len(),
        !options.dirty ==> r.len() == found.len(),
        !options.dirty ==> forall|i: int|
            0 <= i < r.len() ==> (#[trigger] r[i]).path@ == joined(found[i].deep_view()),
{
    let mut entries: Vec<RepoEntry> = Vec::new();
    let ghost mut seen: Seq<Option<(Option<Seq<char>>, bool)>> = Seq::empty();
    let mut i: usize = 0;
    assert(entries_of(entries@) =~= entries_for(root@, found.deep_view().take(0), *options, seen));
    while i < found.len()
        invariant
            i <= found.len(),
            seen.len() == i,
            !needs_facts(*options) ==> forall|k: int| 0 <= k < seen.len() ==> (#[trigger] seen[k]) is None,
            entries_of(entries@) == entries_for(
                root@,
                found.deep_view().take(i as int),
                *options,
                seen,
            ),
            entries.len() <= i,
            !options.dirty ==> entries.len() == i,
            !options.dirty ==> forall|k: int|
                0 <= k < entries.len() ==> (#[trigger] entries[k]).path@ == joined(
                    found[k].deep_view(),
                ),
        decreases found.len() - i,
    {
        let relative = relative_path(&found[i]);
        let absolute = join_path(root, relative.as_str());
        let facts = if options.dirty || options.long || options.json {
            repo_facts(absolute.as_str())
        } else {
            None
        };
        proof {
            let before = seen;
            seen = seen.push(facts_of(facts));
            assert(seen.drop_last() =~= before);
            assert(found.deep_view().take(i + 1).drop_last() =~= found.deep_view().take(i as int));
            assert(found.deep_view().take(i + 1).last() == found[i as int].deep_view());
        }
        let ghost shown = entries_of(entries@);
        match make_entry(relative.as_str(), absolute.as_str(), options, facts) {
            Some(entry) => {
                entries.push(entry);
                assert(entries_of(entries@) =~= shown.push(entry@));
            },
            None => {},
        }
        i += 1;
    }
    assert(found.deep_view().take(found.len() as int) =~= found.deep_view());
    entries
}

/// `s` with spaces behind it up to `width` characters.
pub fn pad_right(s: &str, width: usize) -> (r: String)
    ensures
        r@ == padded(s@, width as nat),
{
    let n = to_chars(s).len();
    let mut out = s.to_owned();
    if n >= width {
        return out;
    }
    let mut k: usize = n;
    proof {
        reveal_strlit(" ");
    }
    while k < width
        invariant
            n <= k <= width,
            n == s@.len(),
            out@ == s@ + Seq::new((k - n) as nat, |i: int| ' '),
            " "@ == seq![' '],
        decreases width - k,
    {
        out.append(" ");
        assert(out@ =~= s@ + Seq::new((k + 1 - n) as nat, |i: int| ' '));
        k += 1;
    }
    out
}

/// The line that a listing shows for an entry.
pub fn entry_line(entry: &RepoEntry, options: &ListOptions) -> (r: String)
    ensures
        r@ == line_for(entry@, *options),
{
    let path: &str = match &entry.absolute_path {
        Some(absolute) => if options.absolute {
            absolute.as_str()
        } else {
            entry.path.as_str()
        },
        None => entry.path.as_str(),
    };
    if !options.long {
        return path.to_owned();
    }
    let branch: &str = match &entry.branch {
        Some(b) => b.as_str(),
        None => "",
    };
    let status: &str = match &entry.status {
        Some(s) => s.as_str(),
        None => "",
    };
    proof {
        reveal_strlit("");
    }
    assert(""@ =~= Seq::<char>::empty());
    let mut out = pad_right(path, 50);
    out.append(" ");
    let column = pad_right(branch, 20);
    out.append(column.as_str());
    out.append(" ");
    out.append(status);
    out
}

} // verus!
