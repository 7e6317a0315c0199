use gitingest::errors::classify_github_status;
use gitingest::errors::classify_gitlab_status;
use gitingest::errors::github_parse_fallback;
use gitingest::errors::github_search_fallback;
use gitingest::errors::ParseFallback;
use gitingest::errors::RepoError;
use gitingest::errors::SearchFallback;

#[test]
fn github_statuses_map_to_the_taxonomy() {
    assert_eq!(classify_github_status(200), None);
    assert_eq!(classify_github_status(201), None);
    assert!(matches!(classify_github_status(422), Some(RepoError::InvalidInput(_))));
    assert_eq!(classify_github_status(403), Some(RepoError::RateLimited));
    assert!(matches!(classify_github_status(404), Some(RepoError::NotFound(_))));
    assert_eq!(classify_github_status(500), Some(RepoError::Upstream(500)));
    assert_eq!(classify_github_status(299), None);
    assert_eq!(classify_github_status(300), Some(RepoError::Upstream(300)));
}

#[test]
fn gitlab_statuses_map_to_the_taxonomy() {
    assert_eq!(classify_gitlab_status(204), None);
    assert!(matches!(classify_gitlab_status(400), Some(RepoError::InvalidInput(_))));
    assert_eq!(classify_gitlab_status(401), Some(RepoError::AccessDenied));
    assert_eq!(classify_gitlab_status(403), Some(RepoError::RateLimited));
    assert!(matches!(classify_gitlab_status(404), Some(RepoError::NotFound(_))));
    assert_eq!(classify_gitlab_status(502), Some(RepoError::Upstream(502)));
}

#[test]
fn error_messages_are_short_and_name_the_subject() {
    assert_eq!(
        RepoError::NotFound("src/a.rs".to_string()).message().as_str(),
        "not found: src/a.rs"
    );
    assert_eq!(
        RepoError::InvalidInput("bad id".to_string()).message().as_str(),
        "invalid input: bad id"
    );
    assert_eq!(RepoError::RateLimited.message().as_str(), "rate limit exceeded");
    assert_eq!(
        RepoError::AccessDenied.message().as_str(),
        "access denied or authentication failed"
    );
    assert_eq!(
        RepoError::UpstreamParse("odd shape".to_string()).message().as_str(),
        "unexpected provider response: odd shape"
    );
    assert_eq!(RepoError::Upstream(503).message().as_str(), "provider error, status 503");
}

#[test]
fn unparseable_bodies_yield_their_hints() {
    assert_eq!(github_parse_fallback("{\"message\":\"Not Found\"}"), ParseFallback::NotFoundHint);
    assert_eq!(
        github_parse_fallback("API rate limit exceeded for ..."),
        ParseFallback::RateLimitHint
    );
    assert_eq!(github_parse_fallback("<html>weird</html>"), ParseFallback::NoHint);
    // The missing-resource hint is read first.
    assert_eq!(
        github_parse_fallback("Not Found; also rate limit"),
        ParseFallback::NotFoundHint
    );
}

#[test]
fn unparseable_search_bodies_yield_their_hints() {
    assert_eq!(github_search_fallback("rate limit exceeded"), SearchFallback::RateLimit);
    assert_eq!(
        github_search_fallback("{\"total_count\":0,\"items\":[]}"),
        SearchFallback::EmptyItems
    );
    assert_eq!(github_search_fallback("garbage"), SearchFallback::Malformed);
}
