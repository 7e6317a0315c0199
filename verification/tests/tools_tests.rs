use gitingest::identifier::ProviderKind;
use gitingest::provider::GitRef;
use gitingest::tools::gitlab_root_name;
use gitingest::tools::parse_pattern_list;
use gitingest::tools::FindRepositories;
use gitingest::tools::RepositoryRead;
use gitingest::tools::RepositoryTreeView;

#[test]
fn tools_dispatch_over_both_providers() {
    let read = RepositoryRead::new();
    assert_eq!(read.get_provider("github"), Some(ProviderKind::GitHub));
    assert_eq!(read.get_provider("gitlab"), Some(ProviderKind::GitLab));
    assert_eq!(read.get_provider("sourcehut"), None);

    let view = RepositoryTreeView::new();
    assert_eq!(view.get_provider("gitlab"), Some(ProviderKind::GitLab));
    assert_eq!(view.get_provider(""), None);
}

#[test]
fn supported_provider_names_are_listed_in_order() {
    let names: Vec<String> = RepositoryRead::new().get_supported_providers();
    let names: Vec<&str> = names.iter().map(|s| s.as_str()).collect();
    assert_eq!(names, vec!["github", "gitlab"]);
    let names: Vec<String> = RepositoryTreeView::new().get_supported_providers();
    assert_eq!(names.len(), 2);
    let names: Vec<String> = FindRepositories::new().get_supported_providers();
    let names: Vec<&str> = names.iter().map(|s| s.as_str()).collect();
    assert_eq!(names, vec!["github", "gitlab"]);
}

#[test]
fn tools_read_reference_requests_alike() {
    let read = RepositoryRead::new();
    assert!(matches!(read.parse_git_ref("tag:v1"), GitRef::Tag(t) if t == "v1"));
    let view = RepositoryTreeView::new();
    assert!(matches!(view.parse_git_ref(""), GitRef::Default));
    assert!(matches!(view.parse_git_ref("main"), GitRef::Branch(b) if b == "main"));
}

#[test]
fn pattern_arguments_split_on_commas_trimmed_and_nonempty() {
    let got = parse_pattern_list(" *.rs , , docs/* ,");
    let got: Vec<&str> = got.iter().map(|s| s.as_str()).collect();
    assert_eq!(got, vec!["*.rs", "docs/*"]);
    assert!(parse_pattern_list("").is_empty());
    assert!(parse_pattern_list(" , ,").is_empty());
}

#[test]
fn gitlab_trees_are_named_from_metadata_or_the_path() {
    assert_eq!(
        gitlab_root_name(Some("Project".to_string()), "group/project").as_str(),
        "Project"
    );
    assert_eq!(gitlab_root_name(None, "group/project").as_str(), "project");
}
