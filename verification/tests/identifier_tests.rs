use gitingest::errors::RepoError;
use gitingest::identifier::parse_github_repo_path;
use gitingest::identifier::parse_gitlab_repo_path;
use gitingest::identifier::parse_repo_identifier;
use gitingest::identifier::provider_from_name;
use gitingest::identifier::provider_name;
use gitingest::identifier::ProviderKind;

#[test]
fn provider_names_round_trip() {
    assert_eq!(provider_name(ProviderKind::GitHub).as_str(), "github");
    assert_eq!(provider_name(ProviderKind::GitLab).as_str(), "gitlab");
    assert_eq!(provider_from_name("github"), Some(ProviderKind::GitHub));
    assert_eq!(provider_from_name("gitlab"), Some(ProviderKind::GitLab));
    assert_eq!(provider_from_name("bitbucket"), None);
    assert_eq!(provider_from_name("GitHub"), None);
}

#[test]
fn combined_identifiers_split_on_the_colon() {
    let (kind, path) = parse_repo_identifier("github:rust-lang/rust").unwrap();
    assert_eq!(kind, ProviderKind::GitHub);
    assert_eq!(path.as_str(), "rust-lang/rust");

    let (kind, path) = parse_repo_identifier("gitlab:gitlab-org/gitlab").unwrap();
    assert_eq!(kind, ProviderKind::GitLab);
    assert_eq!(path.as_str(), "gitlab-org/gitlab");
}

#[test]
fn malformed_identifiers_are_invalid_input_before_any_network_call() {
    for bad in ["norepo", "github:norepoSlash", "a:b:c/d", "svn:owner/repo"] {
        match parse_repo_identifier(bad) {
            Err(RepoError::InvalidInput(_)) => {}
            other => panic!("expected invalid input for {bad}, got {other:?}"),
        }
    }
}

#[test]
fn github_paths_yield_owner_and_repository() {
    let (owner, repo, branch, sub) = parse_github_repo_path("rust-lang/rust").unwrap();
    assert_eq!(owner.as_str(), "rust-lang");
    assert_eq!(repo.as_str(), "rust");
    assert_eq!(branch, None);
    assert_eq!(sub, None);
}

#[test]
fn github_paths_carry_branch_and_subpath() {
    let (owner, repo, branch, sub) =
        parse_github_repo_path("rust-lang/rust/tree/master/src/libstd").unwrap();
    assert_eq!(owner.as_str(), "rust-lang");
    assert_eq!(repo.as_str(), "rust");
    assert_eq!(branch.as_deref(), Some("master"));
    assert_eq!(sub.as_deref(), Some("src/libstd"));

    let (_, _, branch, sub) = parse_github_repo_path("o/r/blob/dev/file.rs").unwrap();
    assert_eq!(branch.as_deref(), Some("dev"));
    assert_eq!(sub.as_deref(), Some("file.rs"));

    // A third segment that is neither tree nor blob names no branch.
    let (_, _, branch, _) = parse_github_repo_path("o/r/pulls/123").unwrap();
    assert_eq!(branch, None);
}

#[test]
fn github_paths_ignore_empty_segments() {
    let (owner, repo, _, _) = parse_github_repo_path("//owner//repo//").unwrap();
    assert_eq!(owner.as_str(), "owner");
    assert_eq!(repo.as_str(), "repo");
}

#[test]
fn github_paths_with_one_segment_are_invalid() {
    assert!(matches!(
        parse_github_repo_path("justone"),
        Err(RepoError::InvalidInput(_))
    ));
    assert!(matches!(parse_github_repo_path(""), Err(RepoError::InvalidInput(_))));
}

#[test]
fn gitlab_paths_encode_and_find_the_branch() {
    let (encoded, branch) = parse_gitlab_repo_path("group/project/-/tree/main");
    assert_eq!(encoded.as_str(), urlencoding::encode("group/project/-/tree/main"));
    assert_eq!(branch.as_deref(), Some("main"));

    let (encoded, branch) = parse_gitlab_repo_path("group/project");
    assert_eq!(encoded.as_str(), "group%2Fproject");
    assert_eq!(branch, None);

    // A marker not followed by a tree segment names no branch.
    let (_, branch) = parse_gitlab_repo_path("group/project/-/blob/main");
    assert_eq!(branch, None);

    // The branch segment ends at the next marker.
    let (_, branch) = parse_gitlab_repo_path("g/p/-/tree/main/-/rest");
    assert_eq!(branch.as_deref(), Some("main"));

    // A marker with nothing after it names no branch.
    let (_, branch) = parse_gitlab_repo_path("g/p/-/");
    assert_eq!(branch, None);

    // A bare tree marker names the empty branch, as the path grammar has it.
    let (_, branch) = parse_gitlab_repo_path("g/p/-/tree/");
    assert_eq!(branch.as_deref(), Some(""));
}
