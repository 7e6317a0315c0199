//! The REST endpoints the providers are spoken to at, assembled from their
//! documented shapes. GitLab addresses a project by its URL-encoded path, so
//! percent-encoding runs through a trusted wrapper.

use vstd::prelude::*;

verus! {

use crate::strutil::dec_digits;

/// What percent-encoding makes of a text: a function of the text alone.
pub uninterp spec fn url_encoded(s: Seq<char>) -> Seq<char>;

/// Relies on urlencoding's `encode`: percent-encodes everything but
/// unreserved URL characters, a function of the input text alone.
#[verifier::external_body]
pub fn url_encode(s: &str) -> (r: String)
    ensures
        r@ == url_encoded(s@),
{
    urlencoding::encode(s).into_owned()
}

/// The per-page count a limit clamps to: providers serve at most one hundred
/// results per page.
pub open spec fn clamped_limit(limit: int) -> int {
    if limit < 100 {
        limit
    } else {
        100
    }
}

/// The GitHub contents endpoint for a path, optionally pinned to a
/// reference.
pub fn github_contents_url(owner: &str, repo: &str, path: &str, branch: Option<&str>) -> (r:
    String)
    ensures
        r@ == "https://api.github.com/repos/"@ + owner@ + "/"@ + repo@ + "/contents"@ + (
        if path@.len() > 0 {
            "/"@ + path@
        } else {
            Seq::<char>::empty()
        }) + (match branch {
            Some(b) => "?ref="@ + b@,
            None => Seq::<char>::empty(),
        }),
{
    let mut url = String::from_str("https://api.github.com/repos/");
    url.append(owner);
    url.append("/");
    url.append(repo);
    url.append("/contents");
    if !path.is_empty() {
        url.append("/");
        url.append(path);
    }
    match branch {
        Some(b) => {
            url.append("?ref=");
            url.append(b);
        },
        None => {},
    }
    proof {
        assert(url@ =~= "https://api.github.com/repos/"@ + owner@ + "/"@ + repo@ + "/contents"@ + (
        if path@.len() > 0 {
            "/"@ + path@
        } else {
            Seq::<char>::empty()
        }) + (match branch {
            Some(b) => "?ref="@ + b@,
            None => Seq::<char>::empty(),
        }));
    }
    url
}

/// The GitHub repository-metadata endpoint.
pub fn github_repo_url(owner: &str, repo: &str) -> (r: String)
    ensures
        r@ == "https://api.github.com/repos/"@ + owner@ + "/"@ + repo@,
{
    let mut url = String::from_str("https://api.github.com/repos/");
    url.append(owner);
    url.append("/");
    url.append(repo);
    proof {
        assert(url@ =~= "https://api.github.com/repos/"@ + owner@ + "/"@ + repo@);
    }
    url
}

/// The GitHub repository-search endpoint; a limit is clamped to the page
/// size GitHub serves.
pub fn github_search_url(query: &str, limit: Option<usize>) -> (r: String)
    ensures
        r@ == "https://api.github.com/search/repositories?q="@ + query@ + (match limit {
            Some(l) => "&per_page="@ + dec_digits(clamped_limit(l as int)),
            None => Seq::<char>::empty(),
        }),
{
    let mut url = String::from_str("https://api.github.com/search/repositories?q=");
    url.append(query);
    match limit {
        Some(l) => {
            let per_page: usize = if l < 100 {
                l
            } else {
                100
            };
            url.append("&per_page=");
            let digits = crate::strutil::u64_to_decimal(per_page as u64);
            url.append(digits.as_str());
        },
        None => {},
    }
    proof {
        assert(url@ =~= "https://api.github.com/search/repositories?q="@ + query@ + (match limit {
            Some(l) => "&per_page="@ + dec_digits(clamped_limit(l as int)),
            None => Seq::<char>::empty(),
        }));
    }
    url
}

/// The GitLab repository-search endpoint: the query percent-encoded, an
/// optional clamped page size, and ranking by stars.
pub fn gitlab_search_url(query: &str, limit: Option<usize>) -> (r: String)
    ensures
        r@ == "https://gitlab.com/api/v4/projects?search="@ + url_encoded(query@) + (match limit {
            Some(l) => "&per_page="@ + dec_digits(clamped_limit(l as int)),
            None => Seq::<char>::empty(),
        }) + "&order_by=star_count&sort=desc"@,
{
    let mut url = String::from_str("https://gitlab.com/api/v4/projects?search=");
    let encoded = url_encode(query);
    url.append(encoded.as_str());
    match limit {
        Some(l) => {
            let per_page: usize = if l < 100 {
                l
            } else {
                100
            };
            url.append("&per_page=");
            let digits = crate::strutil::u64_to_decimal(per_page as u64);
            url.append(digits.as_str());
        },
        None => {},
    }
    url.append("&order_by=star_count&sort=desc");
    proof {
        assert(url@ =~= "https://gitlab.com/api/v4/projects?search="@ + url_encoded(query@) + (
        match limit {
            Some(l) => "&per_page="@ + dec_digits(clamped_limit(l as int)),
            None => Seq::<char>::empty(),
        }) + "&order_by=star_count&sort=desc"@);
    }
    url
}

/// The GitLab project-metadata endpoint for a project path.
pub fn gitlab_project_url(project_path: &str) -> (r: String)
    ensures
        r@ == "https://gitlab.com/api/v4/projects/"@ + url_encoded(project_path@),
{
    let mut url = String::from_str("https://gitlab.com/api/v4/projects/");
    let encoded = url_encode(project_path);
    url.append(encoded.as_str());
    proof {
        assert(url@ =~= "https://gitlab.com/api/v4/projects/"@ + url_encoded(project_path@));
    }
    url
}

/// The GitLab repository-tree endpoint for a directory, optionally pinned to
/// a reference; the first query parameter present takes the question mark.
pub fn gitlab_tree_url(project_path: &str, path: &str, ref_name: Option<&str>) -> (r: String)
    ensures
        r@ == "https://gitlab.com/api/v4/projects/"@ + url_encoded(project_path@)
            + "/repository/tree"@ + (if path@.len() > 0 {
            "?path="@ + path@
        } else {
            Seq::<char>::empty()
        }) + (match ref_name {
            Some(n) => (if path@.len() > 0 {
                "&ref="@
            } else {
                "?ref="@
            }) + n@,
            None => Seq::<char>::empty(),
        }),
{
    let mut url = String::from_str("https://gitlab.com/api/v4/projects/");
    let encoded = url_encode(project_path);
    url.append(encoded.as_str());
    url.append("/repository/tree");
    let has_path = !path.is_empty();
    if has_path {
        url.append("?path=");
        url.append(path);
    }
    match ref_name {
        Some(n) => {
            if has_path {
                url.append("&ref=");
            } else {
                url.append("?ref=");
            }
            url.append(n);
        },
        None => {},
    }
    proof {
        assert(url@ =~= "https://gitlab.com/api/v4/projects/"@ + url_encoded(project_path@)
            + "/repository/tree"@ + (if path@.len() > 0 {
            "?path="@ + path@
        } else {
            Seq::<char>::empty()
        }) + (match ref_name {
            Some(n) => (if path@.len() > 0 {
                "&ref="@
            } else {
                "?ref="@
            }) + n@,
            None => Seq::<char>::empty(),
        }));
    }
    url
}

/// The GitLab file-content endpoint for a file, optionally pinned to a
/// reference; path and file are both percent-encoded.
pub fn gitlab_file_url(project_path: &str, file_path: &str, ref_name: Option<&str>) -> (r: String)
    ensures
        r@ == "https://gitlab.com/api/v4/projects/"@ + url_encoded(project_path@)
            + "/repository/files/"@ + url_encoded(file_path@) + (match ref_name {
            Some(n) => "?ref="@ + n@,
            None => Seq::<char>::empty(),
        }),
{
    let mut url = String::from_str("https://gitlab.com/api/v4/projects/");
    let encoded_project = url_encode(project_path);
    url.append(encoded_project.as_str());
    url.append("/repository/files/");
    let encoded_file = url_encode(file_path);
    url.append(encoded_file.as_str());
    match ref_name {
        Some(n) => {
            url.append("?ref=");
            url.append(n);
        },
        None => {},
    }
    proof {
        assert(url@ =~= "https://gitlab.com/api/v4/projects/"@ + url_encoded(project_path@)
            + "/repository/files/"@ + url_encoded(file_path@) + (match ref_name {
            Some(n) => "?ref="@ + n@,
            None => Seq::<char>::empty(),
        }));
    }
    url
}

} // verus!
