//! Git-reference parsing and resolution: from a request string to a `GitRef`,
//! and from request input, path-embedded hints and remote default-branch
//! metadata to the one reference an operation uses.

use vstd::prelude::*;

verus! {

use crate::errors::RepoError;
use crate::provider::GitRef;
use crate::strutil::count_char;
use crate::strutil::first_index_of;

/// The shape of a `GitRef`, over character sequences, for contracts.
pub enum GitRefModel {
    DefaultRef,
    BranchRef(Seq<char>),
    TagRef(Seq<char>),
    CommitRef(Seq<char>),
}

/// The model of a `GitRef` value.
pub open spec fn git_ref_model(g: GitRef) -> GitRefModel {
    match g {
        GitRef::Default => GitRefModel::DefaultRef,
        GitRef::Branch(b) => GitRefModel::BranchRef(b@),
        GitRef::Tag(t) => GitRefModel::TagRef(t@),
        GitRef::Commit(c) => GitRefModel::CommitRef(c@),
    }
}

/// What a reference request string denotes: nothing means the default
/// branch; a `tag:`, `commit:` or `branch:` prefix picks the kind; any other
/// text, even with several colons, names a branch verbatim.
pub open spec fn parse_git_ref_spec(s: Seq<char>) -> GitRefModel {
    if s.len() == 0 {
        GitRefModel::DefaultRef
    } else if count_char(s, ':') != 1 {
        GitRefModel::BranchRef(s)
    } else {
        let i = first_index_of(s, ':');
        let kind = s.take(i);
        let rest = s.skip(i + 1);
        if kind == "tag"@ {
            GitRefModel::TagRef(rest)
        } else if kind == "commit"@ {
            GitRefModel::CommitRef(rest)
        } else if kind == "branch"@ {
            GitRefModel::BranchRef(rest)
        } else {
            GitRefModel::BranchRef(s)
        }
    }
}

/// Parses a reference request string.
pub fn parse_git_ref_str(ref_str: &str) -> (r: GitRef)
    ensures
        git_ref_model(r) == parse_git_ref_spec(ref_str@),
{
    let len = ref_str.unicode_len();
    if len == 0 {
        return GitRef::Default;
    }
    let colons = crate::strutil::count_char_occurrences(ref_str, ':');
    if colons != 1 {
        return GitRef::Branch(String::from_str(ref_str));
    }
    proof {
        crate::strutil::lemma_first_index_of(ref_str@, ':');
    }
    let i = match crate::strutil::find_char_from(ref_str, ':', 0) {
        Some(i) => i,
        None => {
            proof {
                crate::strutil::lemma_count_char_zero(ref_str@, ':');
            }
            vstd::pervasive::unreached()
        },
    };
    proof {
        let fi = first_index_of(ref_str@, ':');
        assert(fi == i as int) by {
            crate::strutil::lemma_first_index_of(ref_str@, ':');
            if fi < i as int {
                assert(ref_str@[fi] == ':');
            }
            if fi > i as int {
                assert(ref_str@[i as int] != ':');
            }
        }
    }
    let kind = ref_str.substring_char(0, i);
    let rest = ref_str.substring_char(i + 1, len);
    proof {
        assert(kind@ =~= ref_str@.take(i as int));
        assert(rest@ =~= ref_str@.skip(i as int + 1));
    }
    if crate::strutil::str_eq(kind, "tag") {
        GitRef::Tag(String::from_str(rest))
    } else if crate::strutil::str_eq(kind, "commit") {
        GitRef::Commit(String::from_str(rest))
    } else if crate::strutil::str_eq(kind, "branch") {
        GitRef::Branch(String::from_str(rest))
    } else {
        GitRef::Branch(String::from_str(ref_str))
    }
}

/// Whether resolution will need the provider's default branch: an explicit
/// request for the default, or no explicit reference and no path-embedded
/// branch.
pub fn needs_default_branch(explicit_ref: &Option<GitRef>, path_branch: &Option<String>) -> (r:
    bool)
    ensures
        r == match explicit_ref {
            Some(GitRef::Default) => true,
            Some(_) => false,
            None => path_branch is None,
        },
{
    match explicit_ref {
        Some(GitRef::Default) => true,
        Some(_) => false,
        None => path_branch.is_none(),
    }
}

/// Picks the one reference an operation uses. First an explicit branch, tag
/// or commit, taken verbatim; then an explicit request for the default
/// branch, served from the fetched metadata; with no explicit reference, a
/// path-embedded branch; with neither, the fetched default again. Where the
/// default branch is needed, a failed metadata fetch is a hard error, since
/// no fallback reference exists; a fetch that succeeded without naming a
/// default branch resolves to no reference, which providers read as their
/// default.
pub fn resolve_reference(
    explicit_ref: Option<GitRef>,
    path_branch: Option<String>,
    fetched_default: Result<Option<String>, RepoError>,
) -> (r: Result<Option<String>, RepoError>)
    ensures
        r == match explicit_ref {
            Some(GitRef::Branch(b)) => Ok::<Option<String>, RepoError>(Some(b)),
            Some(GitRef::Tag(t)) => Ok::<Option<String>, RepoError>(Some(t)),
            Some(GitRef::Commit(c)) => Ok::<Option<String>, RepoError>(Some(c)),
            Some(GitRef::Default) => fetched_default,
            None => match path_branch {
                Some(b) => Ok::<Option<String>, RepoError>(Some(b)),
                None => fetched_default,
            },
        },
{
    match explicit_ref {
        Some(GitRef::Branch(b)) => Ok(Some(b)),
        Some(GitRef::Tag(t)) => Ok(Some(t)),
        Some(GitRef::Commit(c)) => Ok(Some(c)),
        Some(GitRef::Default) => fetched_default,
        None => match path_branch {
            Some(b) => Ok(Some(b)),
            None => fetched_default,
        },
    }
}

} // verus!
