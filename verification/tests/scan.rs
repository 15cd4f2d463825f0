use git_utils::error::Error;
use git_utils::scan::{relative_path, ScanRequest, TreeScanner, MAX_DEPTH};

/// A directory tree in memory: each node is a directory unless it is a file.
struct Node {
    name: &'static str,
    is_dir: bool,
    has_marker: bool,
    children: Vec<Node>,
}

fn dir(name: &'static str, children: Vec<Node>) -> Node {
    Node { name, is_dir: true, has_marker: false, children }
}

fn repo(name: &'static str, children: Vec<Node>) -> Node {
    Node { name, is_dir: true, has_marker: true, children }
}

fn file(name: &'static str) -> Node {
    Node { name, is_dir: false, has_marker: false, children: Vec::new() }
}

fn lookup<'a>(root: &'a Node, path: &[String]) -> &'a Node {
    let mut node = root;
    for part in path {
        node = node.children.iter().find(|c| c.name == part).unwrap();
    }
    node
}

/// Runs a scan against a tree, and counts the listings that were asked for.
fn scan(root: &Node) -> (Vec<String>, usize) {
    let mut scanner = TreeScanner::new();
    let mut listings = 0;
    loop {
        match scanner.next_request() {
            ScanRequest::Inspect(path) => {
                let node = lookup(root, &path);
                scanner.inspected(node.is_dir, node.has_marker);
            }
            ScanRequest::ListChildren(path) => {
                listings += 1;
                let node = lookup(root, &path);
                let names: Vec<String> = node.children.iter().map(|c| c.name.to_string()).collect();
                scanner.children_listed(&names);
            }
            ScanRequest::Finished => break,
        }
    }
    assert!(scanner.is_finished());
    (scanner.found().iter().map(relative_path).collect(), listings)
}

#[test]
fn nested_repository_is_not_returned() {
    let tree = dir("root", vec![repo("a", vec![repo("sub", vec![])])]);
    let (found, listings) = scan(&tree);
    assert_eq!(found, vec!["a".to_string()]);
    assert_eq!(listings, 1);
}

#[test]
fn scan_follows_the_layout_to_depth_three() {
    let tree = dir(
        "root",
        vec![
            dir(
                "github.com",
                vec![
                    dir("alice", vec![repo("one", vec![]), repo("two", vec![]), file("notes")]),
                    dir("bob", vec![dir("plain", vec![repo("too-deep", vec![])])]),
                ],
            ),
            file("README"),
            repo("loose", vec![]),
        ],
    );
    let (found, _) = scan(&tree);
    assert_eq!(
        found,
        vec![
            "github.com/alice/one".to_string(),
            "github.com/alice/two".to_string(),
            "loose".to_string(),
        ]
    );
}

#[test]
fn directory_at_the_bound_is_inspected_but_not_listed() {
    assert_eq!(MAX_DEPTH, 3);
    let tree = dir("root", vec![dir("a", vec![dir("b", vec![dir("c", vec![repo("d", vec![])])])])]);
    let (found, listings) = scan(&tree);
    assert!(found.is_empty());
    // root, a and b are listed; c lies at the bound
    assert_eq!(listings, 3);
}

#[test]
fn root_that_is_a_repository_is_the_only_entry() {
    let tree = repo("root", vec![repo("inner", vec![])]);
    let (found, listings) = scan(&tree);
    assert_eq!(found, vec!["".to_string()]);
    assert_eq!(listings, 0);
}

#[test]
fn root_that_is_no_directory_holds_nothing() {
    let (found, listings) = scan(&file("root"));
    assert!(found.is_empty());
    assert_eq!(listings, 0);
}

#[test]
fn reports_that_were_not_asked_for_change_nothing() {
    let mut scanner = TreeScanner::new();
    scanner.children_listed(&vec!["x".to_string()]);
    assert_eq!(scanner.next_request(), ScanRequest::Inspect(vec![]));
    scanner.inspected(true, false);
    assert_eq!(scanner.next_request(), ScanRequest::ListChildren(vec![]));
    scanner.inspected(true, true);
    assert_eq!(scanner.next_request(), ScanRequest::ListChildren(vec![]));
    scanner.children_listed(&vec!["x".to_string(), "y".to_string()]);
    assert_eq!(scanner.next_request(), ScanRequest::Inspect(vec!["x".to_string()]));
    scanner.inspected(false, false);
    assert_eq!(scanner.next_request(), ScanRequest::Inspect(vec!["y".to_string()]));
    scanner.inspected(true, true);
    assert_eq!(scanner.next_request(), ScanRequest::Finished);
    scanner.inspected(true, true);
    scanner.children_listed(&vec!["z".to_string()]);
    assert_eq!(scanner.found(), &vec![vec!["y".to_string()]]);
}

#[test]
fn directory_that_cannot_be_listed_ends_the_scan() {
    let mut scanner = TreeScanner::new();
    scanner.inspected(true, false);
    scanner.children_listed(&vec!["a".to_string(), "b".to_string()]);
    scanner.inspected(true, true);
    scanner.inspected(true, false);
    assert_eq!(scanner.next_request(), ScanRequest::ListChildren(vec!["b".to_string()]));
    assert_eq!(scanner.listing_failed("permission denied"), Error::IoFailure("permission denied".to_string()));
    assert_eq!(scanner.next_request(), ScanRequest::Finished);
    assert!(scanner.found().is_empty());
}

#[test]
fn relative_path_joins_with_slashes() {
    assert_eq!(relative_path(&vec![]), "");
    assert_eq!(relative_path(&vec!["a".to_string()]), "a");
    assert_eq!(relative_path(&vec!["a".to_string(), "b".to_string(), "c".to_string()]), "a/b/c");
}
