//! Discovery of repositories below a root directory.
//!
//! The walk is depth first and bounded: a directory that holds a repository
//! marker is recorded and not entered, a directory without one is entered only
//! above `MAX_DEPTH`. The scanner keeps the worklist and decides; its caller
//! looks at the file system and reports what it saw. A directory is named by the
//! components of its path below the root, the root itself by no component.

use vstd::prelude::*;
use vstd::string::*;
use crate::error::Error;
use crate::text::concat3;

verus! {

/// The depth at which directories are no longer entered: the layout is
/// `<root>/<domain>/<user>/<repo>`.
pub const MAX_DEPTH: usize = 3;

/// What the scanner asks of its caller next.
#[derive(Debug, Clone, PartialEq, Eq)]
pub enum ScanRequest {
    /// Report whether this path is a directory and whether it holds a repository marker.
    Inspect(Vec<String>),
    /// Report the names of the entries of this directory.
    ListChildren(Vec<String>),
    /// Nothing is left to visit.
    Finished,
}

/// The worklist of a scan and the repositories found so far.
pub struct TreeScanner {
    pending: Vec<Vec<String>>,
    found: Vec<Vec<String>>,
    awaiting_children: bool,
}

/// What a `TreeScanner` stands for. The last pending path is visited next.
pub struct ScanState {
    pub pending: Seq<Seq<Seq<char>>>,
    pub found: Seq<Seq<Seq<char>>>,
    pub awaiting_children: bool,
}

/// `p` names `q` or a directory above it.
pub open spec fn is_at_or_above(p: Seq<Seq<char>>, q: Seq<Seq<char>>) -> bool {
    p.len() <= q.len() && q.take(p.len() as int) == p
}

/// The children of `parent` with these names, last name first, so that the
/// first name is on top of the worklist.
pub open spec fn children_of(parent: Seq<Seq<char>>, names: Seq<Seq<char>>) -> Seq<Seq<Seq<char>>> {
    Seq::new(names.len(), |i: int| parent.push(names[names.len() - 1 - i]))
}

impl ScanState {
    /// The scan of a root: only the root is pending.
    pub open spec fn start() -> ScanState {
        ScanState { pending: seq![Seq::<Seq<char>>::empty()], found: seq![], awaiting_children: false }
    }

    /// Every path that the scan holds, found or pending.
    pub open spec fn paths(self) -> Seq<Seq<Seq<char>>> {
        self.found + self.pending
    }

    /// No path that the scan holds is at or above another one.
    pub open spec fn flat(self) -> bool {
        forall|i: int, j: int|
            0 <= i < self.paths().len() && 0 <= j < self.paths().len() && i != j ==> !is_at_or_above(
                #[trigger] self.paths()[i],
                #[trigger] self.paths()[j],
            )
    }

    /// No path is deeper than the bound, and a directory that is to be listed
    /// lies above it.
    pub open spec fn bounded(self) -> bool {
        &&& forall|i: int|
            0 <= i < self.paths().len() ==> (#[trigger] self.paths()[i]).len() <= MAX_DEPTH
        &&& self.expects_children() ==> self.pending.last().len() < MAX_DEPTH
    }

    /// The scan expects the report of an inspection.
    pub open spec fn expects_inspection(self) -> bool {
        self.pending.len() > 0 && !self.awaiting_children
    }

    /// The scan expects the listing of a directory.
    pub open spec fn expects_children(self) -> bool {
        self.pending.len() > 0 && self.awaiting_children
    }

    /// The scan after the top of the worklist was inspected. What is no directory
    /// is dropped; a directory with a marker is found and not entered; one at the
    /// bound is dropped; any other is to be listed. A report that was not asked
    /// for changes nothing.
    pub open spec fn after_inspection(self, is_dir: bool, has_marker: bool) -> ScanState {
        if !self.expects_inspection() {
            self
        } else if !is_dir {
            ScanState { pending: self.pending.drop_last(), ..self }
        } else if has_marker {
            ScanState {
                pending: self.pending.drop_last(),
                found: self.found.push(self.pending.last()),
                ..self
            }
        } else if self.pending.last().len() >= MAX_DEPTH {
            ScanState { pending: self.pending.drop_last(), ..self }
        } else {
            ScanState { awaiting_children: true, ..self }
        }
    }

    /// The scan after a directory could not be listed: it is over, and has
    /// found nothing.
    pub open spec fn after_failure(self) -> ScanState {
        ScanState { pending: Seq::empty(), found: Seq::empty(), awaiting_children: false }
    }

    /// The scan after the top of the worklist was listed: its children take its
    /// place. A listing that was not asked for changes nothing.
    pub open spec fn after_listing(self, names: Seq<Seq<char>>) -> ScanState {
        if !self.expects_children() {
            self
        } else {
            ScanState {
                pending: self.pending.drop_last() + children_of(self.pending.last(), names),
                awaiting_children: false,
                ..self
            }
        }
    }
}

/// An inspection keeps a flat scan flat.
pub proof fn lemma_inspection_keeps_flat(s: ScanState, is_dir: bool, has_marker: bool)
    requires
        s.flat(),
    ensures
        s.after_inspection(is_dir, has_marker).flat(),
{
    let t = s.after_inspection(is_dir, has_marker);
    let n = s.found.len() as int;
    let last = s.paths().len() - 1;
    assert forall|i: int, j: int|
        0 <= i < t.paths().len() && 0 <= j < t.paths().len() && i != j implies !is_at_or_above(
        #[trigger] t.paths()[i],
        #[trigger] t.paths()[j],
    ) by {
        if s.expects_inspection() && is_dir && has_marker {
            let a = if i < n { i } else if i == n { last } else { i - 1 };
            let b = if j < n { j } else if j == n { last } else { j - 1 };
            assert(t.paths()[i] == s.paths()[a]);
            assert(t.paths()[j] == s.paths()[b]);
        } else {
            assert(t.paths()[i] == s.paths()[i]);
            assert(t.paths()[j] == s.paths()[j]);
        }
    }
}

/// A listing without a repeated name keeps a flat scan flat.
pub proof fn lemma_listing_keeps_flat(s: ScanState, names: Seq<Seq<char>>)
    requires
        s.flat(),
        names.no_duplicates(),
    ensures
        s.after_listing(names).flat(),
{
    let t = s.after_listing(names);
    if s.expects_children() {
        let kept = s.paths().len() - 1;
        let top = s.pending.last();
        assert(s.paths()[kept] == top);
        assert forall|i: int, j: int|
            0 <= i < t.paths().len() && 0 <= j < t.paths().len() && i != j implies !is_at_or_above(
            #[trigger] t.paths()[i],
            #[trigger] t.paths()[j],
        ) by {
            let p = t.paths()[i];
            let q = t.paths()[j];
            if i < kept {
                assert(p == s.paths()[i]);
            } else {
                assert(p == top.push(names[names.len() - 1 - (i - kept)]));
                assert(p.take(top.len() as int) =~= top);
            }
            if j < kept {
                assert(q == s.paths()[j]);
            } else {
                assert(q == top.push(names[names.len() - 1 - (j - kept)]));
                assert(q.take(top.len() as int) =~= top);
            }
            if is_at_or_above(p, q) {
                if i < kept && j < kept {
                } else if i < kept {
                    // an old path above a child is above the parent or is the child
                    if p.len() <= top.len() {
                        assert(top.take(p.len() as int) =~= q.take(p.len() as int));
                    } else {
                        assert(q.take(p.len() as int) =~= q);
                        assert(p.take(top.len() as int) =~= top);
                    }
                } else if j < kept {
                    // a child above an old path puts the parent above it
                    assert(q.take(top.len() as int) =~= q.take(p.len() as int).take(top.len() as int));
                } else {
                    assert(q.take(p.len() as int) =~= q);
                    assert(p[top.len() as int] == q[top.len() as int]);
                }
            }
        }
    }
}

/// In a flat scan no repository that was found lies inside another one, and none
/// was found twice.
pub proof fn lemma_flat_found(s: ScanState, i: int, j: int)
    requires
        s.flat(),
        0 <= i < s.found.len(),
        0 <= j < s.found.len(),
        i != j,
    ensures
        !is_at_or_above(s.found[i], s.found[j]),
{
    assert(s.paths()[i] == s.found[i]);
    assert(s.paths()[j] == s.found[j]);
}

/// What a scan is told of the directories below a root, each named by the
/// components of its path.
pub struct Directories {
    /// Whether the path is a directory.
    pub is_dir: spec_fn(Seq<Seq<char>>) -> bool,
    /// Whether the directory holds a repository marker.
    pub has_marker: spec_fn(Seq<Seq<char>>) -> bool,
    /// The names of the entries of the directory.
    pub names: spec_fn(Seq<Seq<char>>) -> Seq<Seq<char>>,
}

/// The repositories at or below a path: the path itself where it is a
/// directory with a marker; else, above the bound, the repositories at or below
/// its entries, in the order of the entries.
pub open spec fn repositories_below(fs: Directories, path: Seq<Seq<char>>) -> Seq<Seq<Seq<char>>>
    decreases MAX_DEPTH - path.len(), 1nat, 0nat,
{
    if !(fs.is_dir)(path) {
        Seq::empty()
    } else if (fs.has_marker)(path) {
        seq![path]
    } else if path.len() >= MAX_DEPTH {
        Seq::empty()
    } else {
        repositories_among(fs, path, (fs.names)(path))
    }
}

/// The repositories at or below the entries of `parent` with these names.
pub open spec fn repositories_among(
    fs: Directories,
    parent: Seq<Seq<char>>,
    names: Seq<Seq<char>>,
) -> Seq<Seq<Seq<char>>>
    decreases MAX_DEPTH - parent.len(), 0nat, names.len(),
{
    if names.len() == 0 || parent.len() >= MAX_DEPTH {
        Seq::empty()
    } else {
        repositories_below(fs, parent.push(names[0])) + repositories_among(
            fs,
            parent,
            names.drop_first(),
        )
    }
}

/// The scan after its request was answered from the directories.
pub open spec fn answered(fs: Directories, s: ScanState) -> ScanState {
    if s.expects_inspection() {
        s.after_inspection((fs.is_dir)(s.pending.last()), (fs.has_marker)(s.pending.last()))
    } else if s.expects_children() {
        s.after_listing((fs.names)(s.pending.last()))
    } else {
        s
    }
}

/// The scan after `n` of its requests were answered from the directories.
pub open spec fn answered_times(fs: Directories, s: ScanState, n: nat) -> ScanState
    decreases n,
{
    if n == 0 {
        s
    } else {
        answered_times(fs, answered(fs, s), (n - 1) as nat)
    }
}

/// The number of requests that a scan makes for a path and what lies below it.
pub open spec fn requests_below(fs: Directories, path: Seq<Seq<char>>) -> nat
    decreases MAX_DEPTH - path.len(), 1nat, 0nat,
{
    if !(fs.is_dir)(path) || (fs.has_marker)(path) || path.len() >= MAX_DEPTH {
        1
    } else {
        2 + requests_among(fs, path, (fs.names)(path))
    }
}

/// The number of requests that a scan makes for the entries of `parent` with
/// these names.
pub open spec fn requests_among(fs: Directories, parent: Seq<Seq<char>>, names: Seq<Seq<char>>) -> nat
    decreases MAX_DEPTH - parent.len(), 0nat, names.len(),
{
    if names.len() == 0 || parent.len() >= MAX_DEPTH {
        0
    } else {
        requests_below(fs, parent.push(names[0])) + requests_among(fs, parent, names.drop_first())
    }
}

/// Answering `a + b` requests is answering `a`, then `b`.
pub proof fn lemma_answered_times_add(fs: Directories, s: ScanState, a: nat, b: nat)
    ensures
        answered_times(fs, s, a + b) == answered_times(fs, answered_times(fs, s, a), b),
    decreases a,
{
    if a > 0 {
        lemma_answered_times_add(fs, answered(fs, s), (a - 1) as nat, b);
    }
}

/// A scan that is about to inspect a path finds the repositories at or below
/// it, in their order, and is left with the rest of its worklist.
pub proof fn lemma_scan_below(fs: Directories, s: ScanState)
    requires
        s.expects_inspection(),
    ensures
        answered_times(fs, s, requests_below(fs, s.pending.last())) == (ScanState {
            pending: s.pending.drop_last(),
            found: s.found + repositories_below(fs, s.pending.last()),
            awaiting_children: false,
        }),
    decreases MAX_DEPTH - s.pending.last().len(), 1nat, 0nat,
{
    let path = s.pending.last();
    let rest = s.pending.drop_last();
    let first = answered(fs, s);
    assert(answered_times(fs, first, 0) == first);
    if !(fs.is_dir)(path) || (fs.has_marker)(path) || path.len() >= MAX_DEPTH {
        if (fs.is_dir)(path) && (fs.has_marker)(path) {
            assert(s.found.push(path) =~= s.found + seq![path]);
        } else {
            assert(s.found =~= s.found + Seq::<Seq<Seq<char>>>::empty());
        }
    } else {
        let names = (fs.names)(path);
        let second = answered(fs, first);
        assert(first.pending.last() == path);
        assert(second.pending == rest + children_of(path, names));
        let start = ScanState {
            pending: rest + children_of(path, names),
            found: s.found,
            awaiting_children: false,
        };
        assert(second == start);
        lemma_scan_among(fs, rest, s.found, path, names);
        let n = requests_among(fs, path, names);
        assert(answered_times(fs, first, 1 + n) == answered_times(fs, second, n));
    }
}

/// A scan whose worklist ends with the entries of a directory finds the
/// repositories at or below them, in the order of the entries.
pub proof fn lemma_scan_among(
    fs: Directories,
    rest: Seq<Seq<Seq<char>>>,
    found: Seq<Seq<Seq<char>>>,
    parent: Seq<Seq<char>>,
    names: Seq<Seq<char>>,
)
    requires
        parent.len() < MAX_DEPTH,
    ensures
        answered_times(
            fs,
            ScanState {
                pending: rest + children_of(parent, names),
                found,
                awaiting_children: false,
            },
            requests_among(fs, parent, names),
        ) == (ScanState {
            pending: rest,
            found: found + repositories_among(fs, parent, names),
            awaiting_children: false,
        }),
    decreases MAX_DEPTH - parent.len(), 0nat, names.len(),
{
    let s = ScanState { pending: rest + children_of(parent, names), found, awaiting_children: false };
    if names.len() == 0 {
        assert(rest + children_of(parent, names) =~= rest);
        assert(found + repositories_among(fs, parent, names) =~= found);
    } else {
        let top = parent.push(names[0]);
        let later = names.drop_first();
        assert(s.pending.last() == top);
        assert(s.pending.drop_last() =~= rest + children_of(parent, later));
        lemma_scan_below(fs, s);
        let a = requests_below(fs, top);
        let b = requests_among(fs, parent, later);
        let middle = ScanState {
            pending: rest + children_of(parent, later),
            found: found + repositories_below(fs, top),
            awaiting_children: false,
        };
        assert(answered_times(fs, s, a) == middle);
        lemma_scan_among(fs, rest, found + repositories_below(fs, top), parent, later);
        lemma_answered_times_add(fs, s, a, b);
        assert(found + repositories_below(fs, top) + repositories_among(fs, parent, later) =~= found
            + repositories_among(fs, parent, names));
    }
}

/// A scan that is answered from the directories comes to its end, and has then
/// found the repositories below the root: each directory with a marker that is
/// reached through directories without one, within the bound, in the order of
/// the walk.
pub proof fn lemma_scan_finds_repositories(fs: Directories)
    ensures
        answered_times(fs, ScanState::start(), requests_below(fs, Seq::empty())).pending.len() == 0,
        answered_times(fs, ScanState::start(), requests_below(fs, Seq::empty())).found
            == repositories_below(fs, Seq::empty()),
{
    let s = ScanState::start();
    assert(s.pending.last() == Seq::<Seq<char>>::empty());
    assert(s.pending.drop_last() =~= Seq::<Seq<Seq<char>>>::empty());
    lemma_scan_below(fs, s);
    assert(s.found + repositories_below(fs, Seq::empty()) =~= repositories_below(fs, Seq::empty()));
}

/// Answered from directories whose listings repeat no name, a scan stays flat:
/// at no time does it hold a path at or above another one.
pub proof fn lemma_answered_stays_flat(fs: Directories, s: ScanState, n: nat)
    requires
        s.flat(),
        forall|path: Seq<Seq<char>>| (#[trigger] (fs.names)(path)).no_duplicates(),
    ensures
        answered_times(fs, s, n).flat(),
    decreases n,
{
    if n > 0 {
        if s.expects_inspection() {
            lemma_inspection_keeps_flat(
                s,
                (fs.is_dir)(s.pending.last()),
                (fs.has_marker)(s.pending.last()),
            );
        } else if s.expects_children() {
            lemma_listing_keeps_flat(s, (fs.names)(s.pending.last()));
        }
        lemma_answered_stays_flat(fs, answered(fs, s), (n - 1) as nat);
    }
}

/// The scan never returns nested entries: among the repositories below a root
/// whose listings repeat no name, none lies at or above another one.
pub proof fn lemma_repositories_are_not_nested(fs: Directories, i: int, j: int)
    requires
        forall|path: Seq<Seq<char>>| (#[trigger] (fs.names)(path)).no_duplicates(),
        0 <= i < repositories_below(fs, Seq::empty()).len(),
        0 <= j < repositories_below(fs, Seq::empty()).len(),
        i != j,
    ensures
        !is_at_or_above(
            repositories_below(fs, Seq::empty())[i],
            repositories_below(fs, Seq::empty())[j],
        ),
{
    let n = requests_below(fs, Seq::empty());
    let start = ScanState::start();
    assert(start.paths() =~= seq![Seq::<Seq<char>>::empty()]);
    lemma_scan_finds_repositories(fs);
    lemma_answered_stays_flat(fs, start, n);
    lemma_flat_found(answered_times(fs, start, n), i, j);
}

/// A copy of a path.
fn clone_path(path: &Vec<String>) -> (r: Vec<String>)
    ensures
        r.deep_view() == path.deep_view(),
{
    let mut out: Vec<String> = Vec::new();
    let mut i: usize = 0;
    while i < path.len()
        invariant
            i <= path.len(),
            out.len() == i,
            forall|k: int| 0 <= k < i ==> out@[k]@ == path@[k]@,
        decreases path.len() - i,
    {
        out.push(path[i].clone());
        i += 1;
    }
    assert(out.deep_view() =~= path.deep_view());
    out
}

impl View for TreeScanner {
    type V = ScanState;

    closed spec fn view(&self) -> ScanState {
        ScanState {
            pending: self.pending.deep_view(),
            found: self.found.deep_view(),
            awaiting_children: self.awaiting_children,
        }
    }
}

impl TreeScanner {
    /// A scan that has yet to look at its root.
    pub fn new() -> (r: TreeScanner)
        ensures
            r@ == ScanState::start(),
            r@.flat(),
            r@.bounded(),
    {
        let mut pending: Vec<Vec<String>> = Vec::new();
        pending.push(Vec::new());
        let r = TreeScanner { pending, found: Vec::new(), awaiting_children: false };
        assert(r.pending.deep_view() =~= seq![Seq::<Seq<char>>::empty()]) by {
            assert(r.pending@[0].deep_view() =~= Seq::<Seq<char>>::empty());
        }
        assert(r.found.deep_view() =~= Seq::<Seq<Seq<char>>>::empty());
        assert(r@.paths() =~= seq![Seq::<Seq<char>>::empty()]);
        r
    }

    /// What the caller is to report next.
    pub fn next_request(&self) -> (r: ScanRequest)
        ensures
            match r {
                ScanRequest::Inspect(path) => self@.expects_inspection() && path.deep_view()
                    == self@.pending.last(),
                ScanRequest::ListChildren(path) => self@.expects_children() && path.deep_view()
                    == self@.pending.last(),
                ScanRequest::Finished => self@.pending.len() == 0,
            },
    {
        let n = self.pending.len();
        if n == 0 {
            ScanRequest::Finished
        } else if self.awaiting_children {
            ScanRequest::ListChildren(clone_path(&self.pending[n - 1]))
        } else {
            ScanRequest::Inspect(clone_path(&self.pending[n - 1]))
        }
    }

    /// Takes the report of an inspection.
    pub fn inspected(&mut self, is_dir: bool, has_marker: bool)
        ensures
            final(self)@ == old(self)@.after_inspection(is_dir, has_marker),
            old(self)@.flat() ==> final(self)@.flat(),
            old(self)@.bounded() ==> final(self)@.bounded(),
    {
        proof {
            if self@.flat() {
                lemma_inspection_keeps_flat(self@, is_dir, has_marker);
            }
            lemma_inspection_keeps_bounded(self@, is_dir, has_marker);
        }
        let n = self.pending.len();
        if n == 0 || self.awaiting_children {
            return ;
        }
        let ghost before = self@;
        if is_dir && !has_marker && self.pending[n - 1].len() < MAX_DEPTH {
            self.awaiting_children = true;
            assert(self.pending[n - 1].deep_view().len() == self.pending[n - 1].len());
            return ;
        }
        assert(self.pending[n - 1].deep_view().len() == self.pending[n - 1].len());
        let top = self.pending.pop().unwrap();
        assert(self.pending.deep_view() =~= before.pending.drop_last());
        if is_dir && has_marker {
            self.found.push(top);
            assert(self.found.deep_view() =~= before.found.push(before.pending.last()));
        }
    }

    /// Takes the listing of a directory.
    pub fn children_listed(&mut self, names: &Vec<String>)
        ensures
            final(self)@ == old(self)@.after_listing(names.deep_view()),
            old(self)@.flat() && names.deep_view().no_duplicates() ==> final(self)@.flat(),
            old(self)@.bounded() ==> final(self)@.bounded(),
    {
        proof {
            if self@.flat() && names.deep_view().no_duplicates() {
                lemma_listing_keeps_flat(self@, names.deep_view());
            }
            lemma_listing_keeps_bounded(self@, names.deep_view());
        }
        let n = self.pending.len();
        if n == 0 || !self.awaiting_children {
            return ;
        }
        let ghost before = self@;
        let top = self.pending.pop().unwrap();
        assert(self.pending.deep_view() =~= before.pending.drop_last());
        self.awaiting_children = false;
        let count = names.len();
        let mut k: usize = 0;
        while k < count
            invariant
                k <= count,
                count == names.len(),
                top.deep_view() == before.pending.last(),
                self.awaiting_children == false,
                self.found == old(self).found,
                self.pending.deep_view() == before.pending.drop_last() + children_of(
                    before.pending.last(),
                    names.deep_view(),
                ).take(k as int),
            decreases count - k,
        {
            let mut child = clone_path(&top);
            child.push(names[count - 1 - k].clone());
            assert(child.deep_view() =~= top.deep_view().push(names.deep_view()[count - 1 - k]));
            let ghost was = self.pending.deep_view();
            self.pending.push(child);
            assert(self.pending.deep_view() =~= was.push(child.deep_view()));
            assert(children_of(before.pending.last(), names.deep_view()).take(k + 1)
                =~= children_of(before.pending.last(), names.deep_view()).take(k as int).push(
                child.deep_view(),
            ));
            k += 1;
        }
        assert(children_of(before.pending.last(), names.deep_view()).take(count as int)
            =~= children_of(before.pending.last(), names.deep_view()));
    }

    /// Takes the report that a directory could not be listed. This ends the
    /// scan without a result; what comes back is the failure to hand on.
    pub fn listing_failed(&mut self, reason: &str) -> (r: Error)
        ensures
            final(self)@ == old(self)@.after_failure(),
            final(self)@.flat(),
            final(self)@.bounded(),
            r matches Error::IoFailure(text) && text@ == reason@,
    {
        self.pending = Vec::new();
        self.found = Vec::new();
        self.awaiting_children = false;
        assert(self.pending.deep_view() =~= Seq::<Seq<Seq<char>>>::empty());
        assert(self.found.deep_view() =~= Seq::<Seq<Seq<char>>>::empty());
        assert(self@.paths() =~= Seq::<Seq<Seq<char>>>::empty());
        Error::IoFailure(reason.to_owned())
    }

    /// Whether nothing is left to visit.
    pub fn is_finished(&self) -> (r: bool)
        ensures
            r == (self@.pending.len() == 0),
    {
        self.pending.len() == 0
    }

    /// The repositories found so far, in the order of the walk, each as the
    /// components of its path below the root.
    pub fn found(&self) -> (r: &Vec<Vec<String>>)
        ensures
            r.deep_view() == self@.found,
    {
        &self.found
    }
}

/// No step makes a path deeper than the bound.
pub proof fn lemma_inspection_keeps_bounded(s: ScanState, is_dir: bool, has_marker: bool)
    ensures
        s.bounded() ==> s.after_inspection(is_dir, has_marker).bounded(),
{
    let t = s.after_inspection(is_dir, has_marker);
    if s.bounded() {
        let n = s.found.len() as int;
        let last = s.paths().len() - 1;
        assert forall|i: int| 0 <= i < t.paths().len() implies (#[trigger] t.paths()[i]).len()
            <= MAX_DEPTH by {
            if s.expects_inspection() && is_dir && has_marker {
                let a = if i < n { i } else if i == n { last } else { i - 1 };
                assert(t.paths()[i] == s.paths()[a]);
            } else {
                assert(t.paths()[i] == s.paths()[i]);
            }
        }
    }
}

/// A directory is listed only above the bound, so its children are within it.
pub proof fn lemma_listing_keeps_bounded(s: ScanState, names: Seq<Seq<char>>)
    ensures
        s.bounded() ==> s.after_listing(names).bounded(),
{
    let t = s.after_listing(names);
    if s.bounded() && s.expects_children() {
        let kept = s.paths().len() - 1;
        assert forall|i: int| 0 <= i < t.paths().len() implies (#[trigger] t.paths()[i]).len()
            <= MAX_DEPTH by {
            if i < kept {
                assert(t.paths()[i] == s.paths()[i]);
            }
        }
    }
}

/// The path of a repository below the root, with `/` between its components.
pub fn relative_path(components: &Vec<String>) -> (r: String)
    ensures
        r@ == joined(components.deep_view()),
{
    let mut out = String::new();
    let mut i: usize = 0;
    while i < components.len()
        invariant
            i <= components.len(),
            out@ == joined(components.deep_view().take(i as int)),
        decreases components.len() - i,
    {
        assert(components.deep_view().take(i + 1).drop_last() =~= components.deep_view().take(
            i as int,
        ));
        if i == 0 {
            out = components[i].clone();
        } else {
            out = concat3(out.as_str(), "/", components[i].as_str());
        }
        i += 1;
    }
    assert(components.deep_view().take(components.len() as int) =~= components.deep_view());
    out
}

/// The components of a path, with `/` between them.
pub open spec fn joined(components: Seq<Seq<char>>) -> Seq<char>
    decreases components.len(),
{
    if components.len() == 0 {
        Seq::empty()
    } else if components.len() == 1 {
        components[0]
    } else {
        joined(components.drop_last()) + "/"@ + components.last()
    }
}

} // verus!
