//! Paths as text, with `/` between their components.

use vstd::prelude::*;
use vstd::string::*;
use crate::text::{
    concat2, concat3, starts_with, starts_with_in, substring, to_chars, trim_start_in,
    trim_start_matches,
};

verus! {

/// `child` below `base`: an absolute `child` stands for itself, and a `/` is put
/// between the two unless `base` is empty or ends in one.
pub open spec fn join(base: Seq<char>, child: Seq<char>) -> Seq<char> {
    if child.len() > 0 && child[0] == '/' {
        child
    } else if base.len() == 0 || base.last() == '/' {
        base + child
    } else {
        base + "/"@ + child
    }
}

/// What is left of `path` below `root`: `None` unless `path` is `root` or lies
/// below it.
pub open spec fn below(root: Seq<char>, path: Seq<char>) -> Option<Seq<char>> {
    if !starts_with(path, root) {
        None
    } else {
        let rest = path.skip(root.len() as int);
        if rest.len() == 0 || rest[0] == '/' || root.len() == 0 || root.last() == '/' {
            Some(trim_start_matches(rest, "/"@))
        } else {
            None
        }
    }
}

/// Joins a path and a component.
pub fn join_path(base: &str, child: &str) -> (r: String)
    ensures
        r@ == join(base@, child@),
{
    let b = to_chars(base);
    let c = to_chars(child);
    if c.len() > 0 && c[0] == '/' {
        child.to_owned()
    } else if b.len() == 0 || b[b.len() - 1] == '/' {
        concat2(base, child)
    } else {
        concat3(base, "/", child)
    }
}

/// What is left of a path below a root, if it lies there.
pub fn path_below(root: &str, path: &str) -> (r: Option<String>)
    ensures
        r.deep_view() == below(root@, path@),
{
    let base = to_chars(root);
    let v = to_chars(path);
    let n = v.len();
    assert(v@.subrange(0, n as int) =~= v@);
    if !starts_with_in(&v, 0, n, &base) {
        return None;
    }
    let start = base.len();
    assert(v@.subrange(start as int, n as int) =~= v@.skip(start as int));
    if start == n || v[start] == '/' || start == 0 || base[start - 1] == '/' {
        let slash = to_chars("/");
        let from = trim_start_in(&v, start, n, &slash);
        Some(substring(path, from, n))
    } else {
        None
    }
}

/// A relative path below a root lies below that root, and is what is left of it.
pub proof fn lemma_below_join(root: Seq<char>, child: Seq<char>)
    requires
        child.len() == 0 || child[0] != '/',
    ensures
        below(root, join(root, child)) == Some(child),
{
    reveal_strlit("/");
    let path = join(root, child);
    assert(path.take(root.len() as int) =~= root);
    let rest = path.skip(root.len() as int);
    if root.len() == 0 || root.last() == '/' {
        assert(rest =~= child);
    } else {
        assert(rest =~= "/"@ + child);
        assert(rest.take(1) =~= "/"@);
        assert(rest.skip(1) =~= child);
        assert(trim_start_matches(rest, "/"@) == trim_start_matches(child, "/"@));
    }
    if child.len() > 0 {
        assert(child.take(1)[0] == child[0]);
    }
}

} // verus!
