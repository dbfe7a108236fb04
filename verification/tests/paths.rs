use js_visitor::classify::{is_ignored_entry, should_process_file};
use js_visitor::walker::{walk_tree, FsEntry};

fn file(name: &str) -> FsEntry {
    FsEntry::File { name: String::from(name) }
}

fn dir(name: &str, entries: Vec<FsEntry>) -> FsEntry {
    FsEntry::Dir { name: String::from(name), entries }
}

#[test]
fn test_eligible_extensions() {
    assert!(should_process_file("a.js"));
    assert!(should_process_file("a.jsx"));
    assert!(should_process_file("a.ts"));
    assert!(should_process_file("a.tsx"));
    assert!(should_process_file("dir/sub/x.ts"));
    assert!(should_process_file("a.min.js"));
}

#[test]
fn test_ineligible_extensions() {
    assert!(!should_process_file("a.json"));
    assert!(!should_process_file("a.JS"));
    assert!(!should_process_file("js"));
    assert!(!should_process_file(".js"));
    assert!(!should_process_file("dir/.js"));
    assert!(!should_process_file("a.md"));
    assert!(!should_process_file(""));
}

#[test]
fn test_ignored_entries() {
    assert!(is_ignored_entry(".git", true, false));
    assert!(is_ignored_entry(".env.js", false, true));
    assert!(is_ignored_entry("node_modules", true, false));
    assert!(is_ignored_entry("notes.txt", false, true));
    assert!(!is_ignored_entry("src", true, false));
    assert!(!is_ignored_entry("index.js", false, true));
    assert!(!is_ignored_entry("node_modules_backup", true, false));
}

#[test]
fn test_walk_prunes_node_modules_and_dot_entries() {
    let tree = dir(
        "proj",
        vec![
            file("a.js"),
            dir("node_modules", vec![file("hidden.js"), dir("pkg", vec![file("deep.ts")])]),
            dir(".cache", vec![file("c.ts")]),
            file(".d.js"),
            dir("sub", vec![file("e.tsx"), file("f.txt")]),
        ],
    );
    let got = walk_tree("", &tree);
    assert_eq!(got, vec![String::from("proj/a.js"), String::from("proj/sub/e.tsx")]);
}

#[test]
fn test_walk_with_prefix_and_order() {
    let tree = dir("src", vec![file("m.js"), dir("inner", vec![file("n.ts")]), file("o.jsx")]);
    let got = walk_tree("base", &tree);
    assert_eq!(
        got,
        vec![
            String::from("base/src/m.js"),
            String::from("base/src/inner/n.ts"),
            String::from("base/src/o.jsx"),
        ]
    );
}

#[test]
fn test_walk_of_pruned_root_is_empty() {
    let dotted = dir(".hidden", vec![file("a.js")]);
    assert!(walk_tree("", &dotted).is_empty());
    let modules = dir("node_modules", vec![file("a.js")]);
    assert!(walk_tree("", &modules).is_empty());
}
