use gitingest::urls::github_contents_url;
use gitingest::urls::github_repo_url;
use gitingest::urls::github_search_url;
use gitingest::urls::gitlab_file_url;
use gitingest::urls::gitlab_project_url;
use gitingest::urls::gitlab_search_url;
use gitingest::urls::gitlab_tree_url;

#[test]
fn github_contents_urls() {
    assert_eq!(
        github_contents_url("o", "r", "", None).as_str(),
        "https://api.github.com/repos/o/r/contents"
    );
    assert_eq!(
        github_contents_url("o", "r", "src/lib.rs", Some("main")).as_str(),
        "https://api.github.com/repos/o/r/contents/src/lib.rs?ref=main"
    );
    assert_eq!(
        github_contents_url("o", "r", "", Some("dev")).as_str(),
        "https://api.github.com/repos/o/r/contents?ref=dev"
    );
}

#[test]
fn github_metadata_url() {
    assert_eq!(
        github_repo_url("rust-lang", "rust").as_str(),
        "https://api.github.com/repos/rust-lang/rust"
    );
}

#[test]
fn github_search_urls_clamp_the_page_size() {
    assert_eq!(
        github_search_url("web framework", None).as_str(),
        "https://api.github.com/search/repositories?q=web framework"
    );
    assert_eq!(
        github_search_url("rust", Some(30)).as_str(),
        "https://api.github.com/search/repositories?q=rust&per_page=30"
    );
    assert_eq!(
        github_search_url("rust", Some(250)).as_str(),
        "https://api.github.com/search/repositories?q=rust&per_page=100"
    );
}

#[test]
fn gitlab_search_urls_encode_the_query_and_rank_by_stars() {
    assert_eq!(
        gitlab_search_url("web framework", Some(5)).as_str(),
        "https://gitlab.com/api/v4/projects?search=web%20framework&per_page=5&order_by=star_count&sort=desc"
    );
    assert_eq!(
        gitlab_search_url("x", None).as_str(),
        "https://gitlab.com/api/v4/projects?search=x&order_by=star_count&sort=desc"
    );
}

#[test]
fn gitlab_project_and_tree_urls() {
    assert_eq!(
        gitlab_project_url("group/project").as_str(),
        "https://gitlab.com/api/v4/projects/group%2Fproject"
    );
    assert_eq!(
        gitlab_tree_url("group/project", "", None).as_str(),
        "https://gitlab.com/api/v4/projects/group%2Fproject/repository/tree"
    );
    assert_eq!(
        gitlab_tree_url("group/project", "src", None).as_str(),
        "https://gitlab.com/api/v4/projects/group%2Fproject/repository/tree?path=src"
    );
    assert_eq!(
        gitlab_tree_url("group/project", "", Some("main")).as_str(),
        "https://gitlab.com/api/v4/projects/group%2Fproject/repository/tree?ref=main"
    );
    assert_eq!(
        gitlab_tree_url("group/project", "src", Some("main")).as_str(),
        "https://gitlab.com/api/v4/projects/group%2Fproject/repository/tree?path=src&ref=main"
    );
}

#[test]
fn gitlab_file_urls_encode_both_paths() {
    assert_eq!(
        gitlab_file_url("group/project", "src/a.rs", Some("main")).as_str(),
        "https://gitlab.com/api/v4/projects/group%2Fproject/repository/files/src%2Fa.rs?ref=main"
    );
    assert_eq!(
        gitlab_file_url("g/p", "README.md", None).as_str(),
        "https://gitlab.com/api/v4/projects/g%2Fp/repository/files/README.md"
    );
}
