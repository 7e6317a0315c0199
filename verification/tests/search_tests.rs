use gitingest::errors::RepoError;
use gitingest::provider::RepoSearchResult;
use gitingest::search::format_search_results;
use gitingest::search::github_search_result;
use gitingest::search::gitlab_search_result;
use gitingest::search::merge_and_rank;
use gitingest::search::trim_whitespace;
use gitingest::search::validate_search_query;

#[test]
fn empty_queries_are_invalid_input_before_any_network_call() {
    assert!(matches!(validate_search_query(""), Err(RepoError::InvalidInput(_))));
    assert!(matches!(validate_search_query("   \t\n"), Err(RepoError::InvalidInput(_))));
    assert!(validate_search_query("rust").is_ok());
    assert!(validate_search_query("  rust  ").is_ok());
}

#[test]
fn results_merge_across_providers_and_rank_by_stars() {
    let github = vec![github_search_result("x/y".to_string(), None, 5)];
    let gitlab = vec![gitlab_search_result("a/b".to_string(), None, 50)];
    let merged = merge_and_rank(vec![Ok(github), Ok(gitlab)]);
    assert_eq!(merged.len(), 2);
    assert_eq!(merged[0].full_name.as_str(), "a/b");
    assert_eq!(merged[0].stargazers_count, 50);
    assert_eq!(merged[1].full_name.as_str(), "x/y");
    assert_eq!(merged[1].stargazers_count, 5);
}

#[test]
fn failed_providers_are_dropped_silently() {
    let github = vec![github_search_result("x/y".to_string(), None, 5)];
    let merged = merge_and_rank(vec![Ok(github), Err(RepoError::RateLimited)]);
    assert_eq!(merged.len(), 1);
    assert_eq!(merged[0].full_name.as_str(), "x/y");

    // All providers failing yields an empty list, not an error.
    let merged = merge_and_rank(vec![
        Err(RepoError::RateLimited),
        Err(RepoError::Upstream(500)),
    ]);
    assert!(merged.is_empty());
}

#[test]
fn ranking_is_by_falling_star_count() {
    let batch = vec![
        github_search_result("low".to_string(), None, 1),
        github_search_result("high".to_string(), None, 9),
        github_search_result("mid".to_string(), None, 4),
    ];
    let merged = merge_and_rank(vec![Ok(batch)]);
    let names: Vec<&str> = merged.iter().map(|r| r.full_name.as_str()).collect();
    assert_eq!(names, vec!["high", "mid", "low"]);
}

#[test]
fn formatting_names_the_query_and_each_result() {
    let results = vec![
        RepoSearchResult {
            provider: "gitlab".to_string(),
            full_name: "a/b".to_string(),
            description: Some("  A thing.  ".to_string()),
            stargazers_count: 50,
        },
        RepoSearchResult {
            provider: "github".to_string(),
            full_name: "x/y".to_string(),
            description: None,
            stargazers_count: 5,
        },
    ];
    let text = format_search_results("thing", &results);
    assert_eq!(
        text.as_str(),
        "Search results for: \"thing\"\n\n- gitlab:a/b ⭐️50\n  A thing.\n\n- github:x/y ⭐️5\n  \n\n"
    );
}

#[test]
fn formatting_without_results_says_so() {
    let text = format_search_results("nothing", &Vec::new());
    assert_eq!(text.as_str(), "No repositories found matching query: \"nothing\"");
}

#[test]
fn whitespace_trimming() {
    assert_eq!(trim_whitespace("  a b  ").as_str(), "a b");
    assert_eq!(trim_whitespace("\t\n").as_str(), "");
    assert_eq!(trim_whitespace("solid").as_str(), "solid");
    assert_eq!(trim_whitespace("").as_str(), "");
}
