//! Per-entry inclusion: include globs, exclude globs, and ignore substrings.
//!
//! A path is included when the include list is empty or some include pattern
//! matches it, and no exclude pattern matches it, and no ignore entry occurs
//! in it as a substring. Ignore matching is deliberately coarser than glob
//! matching, so that conventionally irrelevant directories are pruned however
//! deep they are nested. A glob pattern that does not compile matches
//! nothing; a malformed exclude or ignore therefore excludes nothing.

use vstd::prelude::*;

verus! {

use crate::strutil::is_substring;
use crate::strutil::views_of;

/// What the glob engine decides for a pattern and a path; a pattern that does
/// not compile matches nothing. A function of the two texts alone.
pub uninterp spec fn glob_matches(pattern: Seq<char>, path: Seq<char>) -> bool;

/// Relies on glob's `Pattern::new` and `Pattern::matches`: shell-style
/// wildcard matching of a path, both functions of their string arguments
/// alone; a pattern that fails to compile is treated as matching nothing.
#[verifier::external_body]
fn glob_match(pattern: &str, path: &str) -> (r: bool)
    ensures
        r == glob_matches(pattern@, path@),
{
    match glob::Pattern::new(pattern) {
        Ok(p) => p.matches(path),
        Err(_) => false,
    }
}

/// Whether some pattern in `patterns` glob-matches `path`.
pub open spec fn any_glob_matches(patterns: Seq<Seq<char>>, path: Seq<char>) -> bool {
    exists|i: int| 0 <= i < patterns.len() && glob_matches(#[trigger] patterns[i], path)
}

/// Whether some entry of `ignore` occurs in `path` as a substring.
pub open spec fn any_ignore_hit(ignore: Seq<Seq<char>>, path: Seq<char>) -> bool {
    exists|i: int| 0 <= i < ignore.len() && is_substring(path, #[trigger] ignore[i])
}

/// The filter rule for one entry path.
pub open spec fn included(
    path: Seq<char>,
    include_globs: Seq<Seq<char>>,
    exclude_globs: Seq<Seq<char>>,
    ignore_subs: Seq<Seq<char>>,
) -> bool {
    (include_globs.len() == 0 || any_glob_matches(include_globs, path)) && !any_glob_matches(
        exclude_globs,
        path,
    ) && !any_ignore_hit(ignore_subs, path)
}

/// Whether `path` passes the include patterns: trivially when none is given,
/// else when some include pattern matches.
pub fn should_include(path: &str, include_patterns: &Vec<String>) -> (r: bool)
    ensures
        r == (include_patterns@.len() == 0 || any_glob_matches(views_of(include_patterns@), path@)),
{
    if include_patterns.len() == 0 {
        return true;
    }
    let mut i: usize = 0;
    while i < include_patterns.len()
        invariant
            i <= include_patterns@.len(),
            forall|j: int|
                0 <= j < i ==> !glob_matches(#[trigger] views_of(include_patterns@)[j], path@),
        decreases include_patterns@.len() - i,
    {
        if glob_match(include_patterns[i].as_str(), path) {
            proof {
                assert(views_of(include_patterns@)[i as int] == include_patterns@[i as int]@);
            }
            return true;
        }
        proof {
            assert(views_of(include_patterns@)[i as int] == include_patterns@[i as int]@);
        }
        i = i + 1;
    }
    false
}

/// Whether `path` is shut out: some exclude pattern glob-matches it, or some
/// ignore entry occurs in it.
pub fn should_exclude(path: &str, exclude_patterns: &Vec<String>, ignore_patterns: &Vec<String>) -> (r:
    bool)
    ensures
        r == (any_glob_matches(views_of(exclude_patterns@), path@) || any_ignore_hit(
            views_of(ignore_patterns@),
            path@,
        )),
{
    let mut i: usize = 0;
    while i < exclude_patterns.len()
        invariant
            i <= exclude_patterns@.len(),
            forall|j: int|
                0 <= j < i ==> !glob_matches(#[trigger] views_of(exclude_patterns@)[j], path@),
        decreases exclude_patterns@.len() - i,
    {
        if glob_match(exclude_patterns[i].as_str(), path) {
            proof {
                assert(views_of(exclude_patterns@)[i as int] == exclude_patterns@[i as int]@);
            }
            return true;
        }
        proof {
            assert(views_of(exclude_patterns@)[i as int] == exclude_patterns@[i as int]@);
        }
        i = i + 1;
    }
    let mut k: usize = 0;
    while k < ignore_patterns.len()
        invariant
            k <= ignore_patterns@.len(),
            !any_glob_matches(views_of(exclude_patterns@), path@),
            forall|j: int|
                0 <= j < k ==> !is_substring(path@, #[trigger] views_of(ignore_patterns@)[j]),
        decreases ignore_patterns@.len() - k,
    {
        if crate::strutil::contains_str(path, ignore_patterns[k].as_str()) {
            proof {
                assert(views_of(ignore_patterns@)[k as int] == ignore_patterns@[k as int]@);
            }
            return true;
        }
        proof {
            assert(views_of(ignore_patterns@)[k as int] == ignore_patterns@[k as int]@);
        }
        k = k + 1;
    }
    false
}

/// The whole filter rule for one entry path.
pub fn is_included(
    path: &str,
    include_patterns: &Vec<String>,
    exclude_patterns: &Vec<String>,
    ignore_patterns: &Vec<String>,
) -> (r: bool)
    ensures
        r == included(
            path@,
            views_of(include_patterns@),
            views_of(exclude_patterns@),
            views_of(ignore_patterns@),
        ),
{
    should_include(path, include_patterns) && !should_exclude(
        path,
        exclude_patterns,
        ignore_patterns,
    )
}

/// Adding one more ignore entry never lets a path in that was out, and never
/// lets in more paths at all: the included set only shrinks.
pub proof fn lemma_ignore_extension_monotone(
    path: Seq<char>,
    include_globs: Seq<Seq<char>>,
    exclude_globs: Seq<Seq<char>>,
    ignore_subs: Seq<Seq<char>>,
    extra: Seq<char>,
)
    ensures
        included(path, include_globs, exclude_globs, ignore_subs.push(extra)) ==> included(
            path,
            include_globs,
            exclude_globs,
            ignore_subs,
        ),
{
    if any_ignore_hit(ignore_subs, path) {
        let i = choose|i: int|
            0 <= i < ignore_subs.len() && is_substring(path, #[trigger] ignore_subs[i]);
        assert(ignore_subs.push(extra)[i] == ignore_subs[i]);
        assert(any_ignore_hit(ignore_subs.push(extra), path));
    }
}

} // verus!
