use gitingest::provider::create_tree_structure;
use gitingest::provider::RepoItem;
use gitingest::provider::RepoItemType;
use gitingest::provider::RepoNode;
use gitingest::tools::rename_root;
use gitingest::tree::dir_display_name;
use gitingest::tree::expand_dir_entry;
use gitingest::tree::NameStyle;
use gitingest::tree::StepOutcome;
use gitingest::tree::TreeBuilder;

fn file(name: &str, path: &str, size: u64) -> RepoItem {
    RepoItem {
        name: name.to_string(),
        path: path.to_string(),
        item_type: RepoItemType::File,
        size: Some(size),
    }
}

fn dir(name: &str, path: &str) -> RepoItem {
    RepoItem {
        name: name.to_string(),
        path: path.to_string(),
        item_type: RepoItemType::Directory,
        size: None,
    }
}

fn build(
    root: &str,
    listings: &[(&str, Vec<RepoItem>)],
    max_depth: usize,
    style: NameStyle,
) -> RepoNode {
    let mut b = TreeBuilder::new(
        root.to_string(),
        Vec::new(),
        Vec::new(),
        Vec::new(),
        max_depth,
        style,
    );
    while let Some(path) = b.next_request() {
        let entries = listings
            .iter()
            .find(|(p, _)| *p == path.as_str())
            .map(|(_, v)| v.clone())
            .unwrap_or_default();
        b.provide_listing(entries);
    }
    b.take_result()
}

fn check_aggregates(node: &RepoNode) {
    match node.node_type {
        RepoItemType::File => {
            assert!(node.children.is_empty());
            assert_eq!(node.file_count, 1);
            assert_eq!(node.dir_count, 0);
        }
        RepoItemType::Directory => {
            let size: u64 = node.children.iter().map(|c| c.size).sum();
            let files: usize = node.children.iter().map(|c| c.file_count).sum();
            let dirs: usize = node.children.iter().map(|c| c.dir_count).sum();
            assert_eq!(node.size, size, "size of {} aggregates its children", node.name);
            assert_eq!(node.file_count, files);
            assert_eq!(node.dir_count, 1 + dirs);
            for c in &node.children {
                check_aggregates(c);
            }
        }
    }
}

fn check_child_order(node: &RepoNode) {
    for pair in node.children.windows(2) {
        let a = &pair[0];
        let b = &pair[1];
        match (a.node_type, b.node_type) {
            (RepoItemType::Directory, RepoItemType::File) => {}
            (RepoItemType::File, RepoItemType::Directory) => {
                panic!("file {} precedes directory {}", a.name, b.name)
            }
            _ => assert!(a.name <= b.name, "{} out of order before {}", a.name, b.name),
        }
    }
    for c in &node.children {
        check_child_order(c);
    }
}

#[test]
fn trees_aggregate_sizes_and_counts_bottom_up() {
    let listings = vec![
        ("", vec![file("b.txt", "b.txt", 2), dir("d", "d"), file("a.txt", "a.txt", 1)]),
        ("d", vec![file("z.bin", "d/z.bin", 4)]),
    ];
    let root = build("", &listings, 10, NameStyle::RootLabel);
    assert_eq!(root.name, "root");
    assert_eq!(root.size, 7);
    assert_eq!(root.file_count, 3);
    assert_eq!(root.dir_count, 2);
    check_aggregates(&root);
    check_child_order(&root);
    let names: Vec<&str> = root.children.iter().map(|c| c.name.as_str()).collect();
    assert_eq!(names, vec!["d", "a.txt", "b.txt"]);
}

#[test]
fn directory_children_precede_file_children_and_names_ascend() {
    let listings = vec![
        (
            "",
            vec![
                file("m.txt", "m.txt", 1),
                dir("zdir", "zdir"),
                file("b.txt", "b.txt", 1),
                dir("adir", "adir"),
            ],
        ),
        ("zdir", vec![]),
        ("adir", vec![]),
    ];
    let root = build("", &listings, 10, NameStyle::RootLabel);
    let names: Vec<&str> = root.children.iter().map(|c| c.name.as_str()).collect();
    assert_eq!(names, vec!["adir", "zdir", "b.txt", "m.txt"]);
    check_child_order(&root);
    check_aggregates(&root);
}

#[test]
fn a_directory_one_level_past_the_depth_bound_is_an_empty_stub() {
    let listings = vec![("", vec![dir("sub", "sub"), file("a", "a", 1)])];
    let root = build("", &listings, 0, NameStyle::RootLabel);
    assert_eq!(root.children.len(), 2);
    let stub = &root.children[0];
    assert_eq!(stub.name, "sub");
    assert!(matches!(stub.node_type, RepoItemType::Directory));
    assert_eq!(stub.file_count, 0);
    assert_eq!(stub.dir_count, 1);
    assert_eq!(stub.size, 0);
    assert!(stub.children.is_empty());
}

#[test]
fn the_depth_decision_is_exact() {
    let stub = expand_dir_entry("a/b", 10, 10).unwrap();
    assert_eq!(stub.name, "b");
    assert_eq!(stub.file_count, 0);
    assert_eq!(stub.dir_count, 1);
    assert!(stub.children.is_empty());
    assert!(expand_dir_entry("a/b", 9, 10).is_none());
    assert!(expand_dir_entry("a/b", 11, 10).is_some());
}

#[test]
fn the_file_cap_is_per_directory_level() {
    // One directory with more files than the cap: enumeration stops just past it.
    let mut many = Vec::new();
    for i in 0..502 {
        let name = format!("f{i:04}");
        many.push(file(&name, &name, 1));
    }
    let listings = vec![("", many)];
    let root = build("", &listings, 10, NameStyle::RootLabel);
    assert_eq!(root.file_count, 501);
    assert_eq!(root.children.len(), 501);

    // Two subtrees each under the cap: both are kept whole, and only the
    // parent's remaining entries are dropped, so the tree total passes the cap.
    let mut a_files = Vec::new();
    for i in 0..400 {
        let name = format!("a{i:04}");
        a_files.push(file(&name, &format!("a/{name}"), 1));
    }
    let mut b_files = Vec::new();
    for i in 0..401 {
        let name = format!("b{i:04}");
        b_files.push(file(&name, &format!("b/{name}"), 1));
    }
    let listings = vec![
        ("", vec![dir("a", "a"), dir("b", "b"), file("late", "late", 1)]),
        ("a", a_files),
        ("b", b_files),
    ];
    let root = build("", &listings, 10, NameStyle::RootLabel);
    assert_eq!(root.file_count, 801);
    assert_eq!(root.children.len(), 2, "the entry after the cap was hit is dropped");
}

#[test]
fn stepping_by_hand_walks_one_entry_at_a_time() {
    let mut b = TreeBuilder::new(
        "".to_string(),
        Vec::new(),
        Vec::new(),
        Vec::new(),
        10,
        NameStyle::RootLabel,
    );
    assert_eq!(b.next_request().as_deref(), Some(""));
    b.attach_listing(vec![file("a", "a", 1), dir("d", "d"), file("z", "z", 2)]);
    assert_eq!(b.step(), StepOutcome::Working); // the file a
    assert_eq!(b.step(), StepOutcome::NeedListing); // descending into d
    assert_eq!(b.next_request().as_deref(), Some("d"));
    b.attach_listing(Vec::new());
    assert_eq!(b.step(), StepOutcome::Working); // d completes empty
    assert_eq!(b.step(), StepOutcome::Working); // the file z
    assert_eq!(b.step(), StepOutcome::Finished); // the root completes
    assert!(b.next_request().is_none());
    let root = b.take_result();
    assert_eq!(root.file_count, 2);
    assert_eq!(root.dir_count, 2);
    assert_eq!(root.size, 3);
}

#[test]
fn sizes_saturate_instead_of_wrapping() {
    let listings = vec![(
        "",
        vec![file("huge", "huge", u64::MAX), file("more", "more", 5)],
    )];
    let root = build("", &listings, 10, NameStyle::RootLabel);
    assert_eq!(root.size, u64::MAX);
    assert_eq!(root.file_count, 2);
}

#[test]
fn filters_prune_entries_before_they_are_counted() {
    let mut b = TreeBuilder::new(
        "".to_string(),
        Vec::new(),
        vec!["*.log".to_string()],
        vec!["node_modules".to_string()],
        10,
        NameStyle::RootLabel,
    );
    assert_eq!(b.next_request().as_deref(), Some(""));
    b.provide_listing(vec![
        file("keep.txt", "keep.txt", 3),
        file("drop.log", "drop.log", 9),
        dir("node_modules", "node_modules"),
    ]);
    assert!(b.next_request().is_none());
    let root = b.take_result();
    assert_eq!(root.children.len(), 1);
    assert_eq!(root.children[0].name, "keep.txt");
    assert_eq!(root.size, 3);
    assert_eq!(root.file_count, 1);
    assert_eq!(root.dir_count, 1);
}

#[test]
fn building_twice_with_identical_listings_renders_identically() {
    let listings = vec![
        ("", vec![dir("src", "src"), file("README.md", "README.md", 10)]),
        ("src", vec![file("lib.rs", "src/lib.rs", 20), dir("deep", "src/deep")]),
        ("src/deep", vec![file("x.rs", "src/deep/x.rs", 1)]),
    ];
    let one = build("", &listings, 10, NameStyle::RootLabel);
    let two = build("", &listings, 10, NameStyle::RootLabel);
    let text_one = create_tree_structure(&one, "", true);
    let text_two = create_tree_structure(&two, "", true);
    assert_eq!(text_one, text_two);
}

#[test]
fn rendering_draws_the_documented_glyphs() {
    let a_txt = RepoNode {
        name: "a.txt".to_string(),
        node_type: RepoItemType::File,
        size: 1,
        children: Vec::new(),
        file_count: 1,
        dir_count: 0,
    };
    let src = RepoNode {
        name: "src".to_string(),
        node_type: RepoItemType::Directory,
        size: 1,
        children: vec![a_txt],
        file_count: 1,
        dir_count: 1,
    };
    let root = RepoNode {
        name: "root".to_string(),
        node_type: RepoItemType::Directory,
        size: 1,
        children: vec![src],
        file_count: 1,
        dir_count: 2,
    };
    let text = create_tree_structure(&root, "", true);
    assert_eq!(text.as_str(), "└── root\n    └── src\n        └── a.txt\n");
}

#[test]
fn rendering_marks_the_last_sibling_differently() {
    let mk_file = |name: &str| RepoNode {
        name: name.to_string(),
        node_type: RepoItemType::File,
        size: 0,
        children: Vec::new(),
        file_count: 1,
        dir_count: 0,
    };
    let root = RepoNode {
        name: "r".to_string(),
        node_type: RepoItemType::Directory,
        size: 0,
        children: vec![mk_file("a"), mk_file("b")],
        file_count: 2,
        dir_count: 1,
    };
    let text = create_tree_structure(&root, "", true);
    assert_eq!(text.as_str(), "└── r\n    ├── a\n    └── b\n");
    let text = create_tree_structure(&root, "", false);
    assert_eq!(text.as_str(), "├── r\n│   ├── a\n│   └── b\n");
}

#[test]
fn directory_display_names_follow_the_provider_convention() {
    assert_eq!(dir_display_name("", NameStyle::RawPath).as_str(), "");
    assert_eq!(dir_display_name("", NameStyle::RootLabel).as_str(), "root");
    assert_eq!(dir_display_name("a/b", NameStyle::RawPath).as_str(), "b");
    assert_eq!(dir_display_name("a/b", NameStyle::RootLabel).as_str(), "b");
}

#[test]
fn a_subdirectory_build_is_named_after_its_path() {
    let listings = vec![("src/deep", vec![file("x.rs", "src/deep/x.rs", 7)])];
    let root = build("src/deep", &listings, 10, NameStyle::RawPath);
    assert_eq!(root.name, "deep");
    assert_eq!(root.size, 7);
}

#[test]
fn nested_siblings_render_with_connecting_bars() {
    let listings = vec![
        ("", vec![dir("a", "a"), file("top.txt", "top.txt", 1)]),
        ("a", vec![file("one", "a/one", 1), file("two", "a/two", 1)]),
    ];
    let root = build("", &listings, 10, NameStyle::RootLabel);
    let text = create_tree_structure(&root, "", true);
    assert_eq!(
        text.as_str(),
        "└── root\n    ├── a\n    │   ├── one\n    │   └── two\n    └── top.txt\n"
    );
}

#[test]
fn the_root_is_relabeled_with_the_repository_name() {
    let listings = vec![("", vec![file("a", "a", 1)])];
    let built = build("", &listings, 10, NameStyle::RawPath);
    assert_eq!(built.name, "");
    let named = rename_root(built, "myrepo".to_string());
    assert_eq!(named.name, "myrepo");
    assert_eq!(named.size, 1);
    assert_eq!(named.file_count, 1);
    assert_eq!(named.dir_count, 1);
    assert_eq!(named.children.len(), 1);
}
