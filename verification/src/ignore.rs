//! The default ignore list: substrings of paths that conventionally carry
//! build artifacts, dependency caches or version-control metadata, pruned
//! from every traversal. Repository-declared ignore files are an extension
//! point that currently adds nothing to this list.

use vstd::prelude::*;

verus! {

use crate::strutil::views_of;

/// The default ignore entries, in order.
pub open spec fn default_ignore_spec() -> Seq<Seq<char>> {
    seq![
        ".git"@,
        "node_modules"@,
        "target"@,
        "dist"@,
        "build"@,
        "__pycache__"@,
        ".venv"@,
        ".idea"@,
        ".vscode"@,
        ".DS_Store"@,
    ]
}

/// The default ignore entries, in order.
pub fn default_ignore_patterns() -> (r: Vec<String>)
    ensures
        views_of(r@) == default_ignore_spec(),
{
    let mut v: Vec<String> = Vec::new();
    v.push(String::from_str(".git"));
    v.push(String::from_str("node_modules"));
    v.push(String::from_str("target"));
    v.push(String::from_str("dist"));
    v.push(String::from_str("build"));
    v.push(String::from_str("__pycache__"));
    v.push(String::from_str(".venv"));
    v.push(String::from_str(".idea"));
    v.push(String::from_str(".vscode"));
    v.push(String::from_str(".DS_Store"));
    proof {
        assert(views_of(v@) =~= default_ignore_spec());
    }
    v
}

} // verus!
