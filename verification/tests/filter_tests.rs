use gitingest::filter::is_included;
use gitingest::filter::should_exclude;
use gitingest::filter::should_include;
use gitingest::ignore::default_ignore_patterns;

fn strings(items: &[&str]) -> Vec<String> {
    items.iter().map(|s| s.to_string()).collect()
}

#[test]
fn empty_include_list_includes_everything_not_excluded() {
    let none: Vec<String> = Vec::new();
    assert!(is_included("src/main.rs", &none, &none, &none));
    assert!(should_include("anything", &none));
}

#[test]
fn include_patterns_gate_entries() {
    let inc = strings(&["*.md"]);
    let none: Vec<String> = Vec::new();
    assert!(is_included("README.md", &inc, &none, &none));
    assert!(!is_included("main.c", &inc, &none, &none));
}

#[test]
fn exclude_patterns_shut_entries_out() {
    let none: Vec<String> = Vec::new();
    let exc = strings(&["*.lock"]);
    assert!(!is_included("Cargo.lock", &none, &exc, &none));
    assert!(is_included("Cargo.toml", &none, &exc, &none));
}

#[test]
fn ignore_entries_match_as_substrings_at_any_depth() {
    let none: Vec<String> = Vec::new();
    let ignore = strings(&["node_modules"]);
    assert!(!is_included("a/b/node_modules/c/d.js", &none, &none, &ignore));
    assert!(is_included("a/b/c/d.js", &none, &none, &ignore));
    assert!(should_exclude("deep/node_modules/x", &none, &ignore));
}

#[test]
fn malformed_patterns_match_nothing() {
    let none: Vec<String> = Vec::new();
    let bad = strings(&["[".into()]);
    // A malformed exclude excludes nothing.
    assert!(is_included("anything", &none, &bad, &none));
    // A malformed include includes nothing.
    assert!(!is_included("anything", &bad, &none, &none));
}

#[test]
fn adding_an_ignore_entry_only_shrinks_the_included_set() {
    let none: Vec<String> = Vec::new();
    let paths = ["src/a.rs", "target/debug/a", "docs/readme.md", "x/target/y"];
    let before: Vec<bool> =
        paths.iter().map(|p| is_included(p, &none, &none, &none)).collect();
    let ignore = strings(&["target"]);
    let after: Vec<bool> =
        paths.iter().map(|p| is_included(p, &none, &none, &ignore)).collect();
    for (b, a) in before.iter().zip(after.iter()) {
        // Included afterwards implies included before.
        assert!(!a || *b);
    }
}

#[test]
fn inclusion_is_independent_of_entry_order() {
    let none: Vec<String> = Vec::new();
    let ignore = strings(&["target"]);
    let paths = ["a", "target/b", "c", "target/d"];
    let forward: Vec<bool> =
        paths.iter().map(|p| is_included(p, &none, &none, &ignore)).collect();
    let mut backward: Vec<bool> = paths
        .iter()
        .rev()
        .map(|p| is_included(p, &none, &none, &ignore))
        .collect();
    backward.reverse();
    assert_eq!(forward, backward);
}

#[test]
fn default_ignore_list_prunes_common_directories() {
    let none: Vec<String> = Vec::new();
    let ignore = default_ignore_patterns();
    assert!(!is_included("repo/.git/config", &none, &none, &ignore));
    assert!(!is_included("repo/node_modules/x.js", &none, &none, &ignore));
    assert!(!is_included("repo/__pycache__/a.pyc", &none, &none, &ignore));
    assert!(is_included("repo/src/lib.rs", &none, &none, &ignore));
}
