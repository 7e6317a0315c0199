//! The repository-identifier grammar: the combined `provider:owner/repo`
//! form, the GitHub-style `owner/repo[/tree|blob/ref[/subpath]]` path, and
//! the GitLab-style `namespace/project[/-/tree/ref]` path.

use vstd::prelude::*;

verus! {

use crate::errors::RepoError;
use crate::strutil::count_char;
use crate::strutil::first_index_of;
use crate::strutil::first_match_from;
use crate::strutil::is_substring;
use crate::strutil::join_pieces;
use crate::strutil::nonempty_pieces;
use crate::strutil::split_char_spec;
use crate::strutil::starts_with;
use crate::strutil::views_of;

/// A remote source-hosting service.
#[derive(Debug, Clone, Copy, PartialEq, Eq, Structural)]
pub enum ProviderKind {
    GitHub,
    GitLab,
}

/// The name a provider goes by in identifiers.
pub open spec fn provider_name_spec(k: ProviderKind) -> Seq<char> {
    match k {
        ProviderKind::GitHub => "github"@,
        ProviderKind::GitLab => "gitlab"@,
    }
}

/// The name a provider goes by in identifiers.
pub fn provider_name(k: ProviderKind) -> (r: String)
    ensures
        r@ == provider_name_spec(k),
{
    match k {
        ProviderKind::GitHub => String::from_str("github"),
        ProviderKind::GitLab => String::from_str("gitlab"),
    }
}

/// Looks a provider up by its name.
pub fn provider_from_name(name: &str) -> (r: Option<ProviderKind>)
    ensures
        match r {
            Some(k) => name@ == provider_name_spec(k),
            None => name@ != provider_name_spec(ProviderKind::GitHub) && name@
                != provider_name_spec(ProviderKind::GitLab),
        },
{
    if crate::strutil::str_eq(name, "github") {
        Some(ProviderKind::GitHub)
    } else if crate::strutil::str_eq(name, "gitlab") {
        Some(ProviderKind::GitLab)
    } else {
        None
    }
}

/// Whether a combined identifier is well-shaped: exactly one colon, and a
/// slash somewhere after it.
pub open spec fn identifier_shape_ok(s: Seq<char>) -> bool {
    &&& count_char(s, ':') == 1
    &&& is_substring(s.skip(first_index_of(s, ':') + 1), "/"@)
}

/// Splits a combined identifier `provider:owner/repo` into the provider and
/// the repository path. A shape with more or fewer than one colon, a path
/// without a slash, and an unknown provider name are each invalid input.
pub fn parse_repo_identifier(s: &str) -> (r: Result<(ProviderKind, String), RepoError>)
    ensures
        match r {
            Ok((kind, path)) => identifier_shape_ok(s@) && s@.take(first_index_of(s@, ':'))
                == provider_name_spec(kind) && path@ == s@.skip(first_index_of(s@, ':') + 1),
            Err(e) => e matches RepoError::InvalidInput(_) && (!identifier_shape_ok(s@) || (forall|
                k: ProviderKind,
            | s@.take(first_index_of(s@, ':')) != provider_name_spec(k))),
        },
{
    let len = s.unicode_len();
    let colons = crate::strutil::count_char_occurrences(s, ':');
    if colons != 1 {
        return Err(
            RepoError::InvalidInput(
                String::from_str(
                    "expected a repository identifier of the form provider:owner/repo",
                ),
            ),
        );
    }
    proof {
        crate::strutil::lemma_first_index_of(s@, ':');
    }
    let i = match crate::strutil::find_char_from(s, ':', 0) {
        Some(i) => i,
        None => {
            proof {
                crate::strutil::lemma_count_char_zero(s@, ':');
            }
            vstd::pervasive::unreached()
        },
    };
    proof {
        let fi = first_index_of(s@, ':');
        assert(fi == i as int) by {
            if fi < i as int {
                assert(s@[fi] == ':');
            }
            if fi > i as int {
                assert(s@[i as int] != ':');
            }
        }
    }
    let provider_part = s.substring_char(0, i);
    let path_part = s.substring_char(i + 1, len);
    proof {
        assert(provider_part@ =~= s@.take(i as int));
        assert(path_part@ =~= s@.skip(i as int + 1));
    }
    if !crate::strutil::contains_str(path_part, "/") {
        return Err(
            RepoError::InvalidInput(
                String::from_str(
                    "expected a repository identifier of the form provider:owner/repo",
                ),
            ),
        );
    }
    match provider_from_name(provider_part) {
        Some(kind) => Ok((kind, String::from_str(path_part))),
        None => Err(
            RepoError::InvalidInput(String::from_str("unsupported provider in identifier")),
        ),
    }
}

/// The slash-separated nonempty segments of a repository path.
pub open spec fn path_segments(s: Seq<char>) -> Seq<Seq<char>> {
    nonempty_pieces(split_char_spec(s, '/'))
}

/// Parses a GitHub-style repository path into owner, repository name, an
/// optional path-embedded branch, and an optional subpath. The first two
/// nonempty slash-separated segments name owner and repository; fewer than
/// two is invalid input. A third segment `tree` or `blob` makes the fourth
/// the branch; anything after the fourth is the subpath.
pub fn parse_github_repo_path(repo_path: &str) -> (r: Result<
    (String, String, Option<String>, Option<String>),
    RepoError,
>)
    ensures
        match r {
            Ok((owner, repo, branch, sub)) => {
                let segs = path_segments(repo_path@);
                &&& segs.len() >= 2
                &&& owner@ == segs[0]
                &&& repo@ == segs[1]
                &&& if segs.len() > 3 && (segs[2] == "tree"@ || segs[2] == "blob"@) {
                    branch matches Some(b) && b@ == segs[3]
                } else {
                    branch is None
                }
                &&& if segs.len() > 4 {
                    sub matches Some(p) && p@ == join_pieces(segs.skip(4), '/')
                } else {
                    sub is None
                }
            },
            Err(e) => e matches RepoError::InvalidInput(_) && path_segments(repo_path@).len() < 2,
        },
{
    let pieces = crate::strutil::split_char(repo_path, '/');
    let segments = crate::strutil::filter_nonempty(&pieces);
    proof {
        assert(views_of(segments@) == path_segments(repo_path@));
    }
    if segments.len() < 2 {
        return Err(RepoError::InvalidInput(String::from_str("invalid repository path")));
    }
    let owner = segments[0].clone();
    let repo = segments[1].clone();
    proof {
        assert(views_of(segments@)[0] == segments@[0]@);
        assert(views_of(segments@)[1] == segments@[1]@);
    }
    let branch: Option<String> = if segments.len() > 3 && (crate::strutil::str_eq(
        segments[2].as_str(),
        "tree",
    ) || crate::strutil::str_eq(segments[2].as_str(), "blob")) {
        proof {
            assert(views_of(segments@)[2] == segments@[2]@);
            assert(views_of(segments@)[3] == segments@[3]@);
        }
        Some(segments[3].clone())
    } else {
        proof {
            if segments@.len() > 3 {
                assert(views_of(segments@)[2] == segments@[2]@);
            }
        }
        None
    };
    let sub: Option<String> = if segments.len() > 4 {
        let mut rest: Vec<String> = Vec::new();
        let mut i: usize = 4;
        while i < segments.len()
            invariant
                4 <= i <= segments@.len(),
                segments@.len() > 4,
                views_of(rest@) =~= views_of(segments@).subrange(4, i as int),
            decreases segments@.len() - i,
        {
            rest.push(segments[i].clone());
            proof {
                assert(views_of(rest@) =~= views_of(segments@).subrange(4, i as int).push(
                    segments@[i as int]@,
                ));
                assert(views_of(segments@).subrange(4, i as int).push(
                    views_of(segments@)[i as int],
                ) =~= views_of(segments@).subrange(4, i as int + 1));
            }
            i = i + 1;
        }
        proof {
            assert(views_of(rest@) =~= views_of(segments@).skip(4));
        }
        Some(crate::strutil::join_strings(&rest, '/'))
    } else {
        None
    };
    Ok((owner, repo, branch, sub))
}

/// The path-embedded branch of a GitLab-style path: the segment between the
/// first and second `/-/`, when it begins with `tree/`, names the branch in
/// what follows that prefix.
pub open spec fn gitlab_branch_spec(s: Seq<char>) -> Option<Seq<char>> {
    let i = first_match_from(s, "/-/"@, 0);
    if i == s.len() {
        Option::<Seq<char>>::None
    } else {
        let j = first_match_from(s, "/-/"@, i + 3);
        let seg = s.subrange(i + 3, j);
        if starts_with(seg, "tree/"@) {
            Some(seg.skip(5))
        } else {
            Option::<Seq<char>>::None
        }
    }
}

/// Parses a GitLab-style repository path: the project path percent-encoded
/// for the API, and the path-embedded branch if one is named.
pub fn parse_gitlab_repo_path(repo_path: &str) -> (r: (String, Option<String>))
    ensures
        r.0@ == crate::urls::url_encoded(repo_path@),
        match r.1 {
            Some(b) => gitlab_branch_spec(repo_path@) == Some(b@),
            None => gitlab_branch_spec(repo_path@) is None,
        },
{
    let encoded = crate::urls::url_encode(repo_path);
    let len = repo_path.unicode_len();
    proof {
        reveal_strlit("/-/");
    }
    let branch: Option<String> = match crate::strutil::find_sub_from(repo_path, "/-/", 0) {
        None => {
            proof {
                crate::strutil::lemma_first_match_from_none(repo_path@, "/-/"@, 0);
            }
            None
        },
        Some(i) => {
            proof {
                crate::strutil::lemma_first_match_from_found(repo_path@, "/-/"@, 0, i as int);
            }
            let j = match crate::strutil::find_sub_from(repo_path, "/-/", i + 3) {
                None => {
                    proof {
                        crate::strutil::lemma_first_match_from_none(
                            repo_path@,
                            "/-/"@,
                            i as int + 3,
                        );
                    }
                    len
                },
                Some(j) => {
                    proof {
                        crate::strutil::lemma_first_match_from_found(
                            repo_path@,
                            "/-/"@,
                            i as int + 3,
                            j as int,
                        );
                    }
                    j
                },
            };
            let seg = repo_path.substring_char(i + 3, j);
            proof {
                assert(seg@ =~= repo_path@.subrange(
                    i as int + 3,
                    first_match_from(repo_path@, "/-/"@, i as int + 3),
                ));
            }
            if crate::strutil::str_starts_with(seg, "tree/") {
                proof {
                    reveal_strlit("tree/");
                }
                let seglen = seg.unicode_len();
                let rest = seg.substring_char(5, seglen);
                proof {
                    assert(rest@ =~= seg@.skip(5));
                }
                Some(String::from_str(rest))
            } else {
                None
            }
        },
    };
    (encoded, branch)
}

} // verus!
