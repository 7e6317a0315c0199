//! The provider-agnostic data model: git references, listing entries, tree
//! nodes, search results, and the provider capability trait.

use vstd::prelude::*;

verus! {

/// A git reference naming one revision of a repository.
#[derive(Debug, Clone, PartialEq)]
pub enum GitRef {
    /// The provider's default branch (usually main or master).
    Default,
    /// A specific branch name.
    Branch(String),
    /// A specific tag name.
    Tag(String),
    /// A specific commit SHA.
    Commit(String),
}

impl Default for GitRef {
    fn default() -> (r: Self)
        ensures
            r == GitRef::Default,
    {
        Self::Default
    }
}

/// Whether a listing entry or tree node stands for a file or a directory.
#[derive(Debug, Clone, Copy, PartialEq, Eq, Structural)]
pub enum RepoItemType {
    File,
    Directory,
}

/// One item of a directory listing, as a provider reports it.
#[derive(Debug, Clone)]
pub struct RepoItem {
    pub name: String,
    pub path: String,
    pub item_type: RepoItemType,
    pub size: Option<u64>,
}

/// A node of the aggregated repository tree.
///
/// `size` is the total byte size of the subtree, `file_count` the number of
/// file leaves in it, and `dir_count` the number of directories counting the
/// node itself when it is a directory.
#[derive(Debug)]
pub struct RepoNode {
    pub name: String,
    pub node_type: RepoItemType,
    pub size: u64,
    pub children: Vec<RepoNode>,
    pub file_count: usize,
    pub dir_count: usize,
}

/// What a provider does for the tools; each remote host implements this at
/// the edge of the system, so the methods carry no contracts.
pub trait GitProvider {
    /// The name the provider goes by in identifiers.
    fn name(&self) -> String;

    /// Builds and renders the repository tree.
    fn get_tree_structure(
        &self,
        repo_path: &str,
        git_ref: Option<GitRef>,
        exclude_patterns: Vec<String>,
        include_patterns: Vec<String>,
    ) -> Result<String, crate::errors::RepoError>;

    /// Reads one file.
    fn get_file_content(&self, repo_path: &str, file_path: &str, git_ref: Option<GitRef>) -> Result<
        String,
        crate::errors::RepoError,
    >;

    /// Searches repositories by keyword.
    fn find_repositories(&self, query: &str, limit: Option<usize>) -> Result<
        Vec<RepoSearchResult>,
        crate::errors::RepoError,
    >;
}

/// The listing entry a GitHub content item becomes: GitHub marks directories
/// with the type `dir`, and anything else is taken as a file.
pub fn github_entry(name: String, path: String, content_type: &str, size: Option<u64>) -> (r:
    RepoItem)
    ensures
        r.name == name,
        r.path == path,
        r.size == size,
        r.item_type == (if content_type@ == "dir"@ {
            RepoItemType::Directory
        } else {
            RepoItemType::File
        }),
{
    let item_type = if crate::strutil::str_eq(content_type, "dir") {
        RepoItemType::Directory
    } else {
        RepoItemType::File
    };
    RepoItem { name, path, item_type, size }
}

/// The listing entry a GitLab tree item becomes: GitLab marks directories
/// with the type `tree`, and anything else is taken as a file.
pub fn gitlab_entry(name: String, path: String, item_type: &str, size: Option<u64>) -> (r:
    RepoItem)
    ensures
        r.name == name,
        r.path == path,
        r.size == size,
        r.item_type == (if item_type@ == "tree"@ {
            RepoItemType::Directory
        } else {
            RepoItemType::File
        }),
{
    let kind = if crate::strutil::str_eq(item_type, "tree") {
        RepoItemType::Directory
    } else {
        RepoItemType::File
    };
    RepoItem { name, path, item_type: kind, size }
}

/// One repository a search found, with its popularity.
#[derive(Debug, Clone)]
pub struct RepoSearchResult {
    pub provider: String,
    pub full_name: String,
    pub description: Option<String>,
    pub stargazers_count: usize,
}

/// The sum of `size` over a sequence of nodes.
pub open spec fn sum_sizes(s: Seq<RepoNode>) -> int {
    crate::sequences::sum_by(s, |n: RepoNode| n.size as int)
}

/// The sum of `file_count` over a sequence of nodes.
pub open spec fn sum_file_counts(s: Seq<RepoNode>) -> int {
    crate::sequences::sum_by(s, |n: RepoNode| n.file_count as int)
}

/// The sum of `dir_count` over a sequence of nodes.
pub open spec fn sum_dir_counts(s: Seq<RepoNode>) -> int {
    crate::sequences::sum_by(s, |n: RepoNode| n.dir_count as int)
}

/// A nonnegative quantity clipped to what a `u64` can hold.
pub open spec fn clip_u64(x: int) -> int {
    if x > u64::MAX as int {
        u64::MAX as int
    } else {
        x
    }
}

/// A nonnegative quantity clipped to what a `usize` can hold.
pub open spec fn clip_usize(x: int) -> int {
    if x > usize::MAX as int {
        usize::MAX as int
    } else {
        x
    }
}

/// The order of the children of a directory node: directories precede files,
/// and within one kind names ascend in code-point order.
pub open spec fn node_le(a: RepoNode, b: RepoNode) -> bool {
    match (a.node_type, b.node_type) {
        (RepoItemType::Directory, RepoItemType::File) => true,
        (RepoItemType::File, RepoItemType::Directory) => false,
        _ => crate::strutil::lex_le(a.name@, b.name@),
    }
}

/// Structural well-formedness of an aggregated tree: a file is a leaf that
/// counts once; a directory's `size`, `file_count` and `dir_count` aggregate
/// its children (saturating at the type's maximum), and its children are
/// ordered by `node_le`.
pub open spec fn node_wf(n: RepoNode) -> bool
    decreases n,
{
    match n.node_type {
        RepoItemType::File => n.children@.len() == 0 && n.file_count == 1 && n.dir_count == 0,
        RepoItemType::Directory => {
            &&& n.size as int == clip_u64(sum_sizes(n.children@))
            &&& n.file_count as int == clip_usize(sum_file_counts(n.children@))
            &&& n.dir_count as int == clip_usize(1 + sum_dir_counts(n.children@))
            &&& forall|i: int, j: int|
                0 <= i < j < n.children@.len() ==> node_le(
                    #[trigger] n.children@[i],
                    #[trigger] n.children@[j],
                )
            &&& forall|i: int| 0 <= i < n.children@.len() ==> node_wf(#[trigger] n.children@[i])
        },
    }
}

/// In every well-formed tree the aggregates hold bottom-up at each directory:
/// its size is the sum of its children's sizes, its file count the sum of
/// their file counts, and its directory count one more than the sum of their
/// directory counts — exactly whenever those sums fit their types, and capped
/// at the type's maximum otherwise. Files carry their own size and count
/// once.
pub proof fn lemma_sizes_aggregate(n: RepoNode)
    requires
        node_wf(n),
        n.node_type == RepoItemType::Directory,
    ensures
        n.size as int == clip_u64(sum_sizes(n.children@)),
        n.file_count as int == clip_usize(sum_file_counts(n.children@)),
        n.dir_count as int == clip_usize(1 + sum_dir_counts(n.children@)),
        sum_sizes(n.children@) <= u64::MAX ==> n.size as int == sum_sizes(n.children@),
        sum_file_counts(n.children@) <= usize::MAX ==> n.file_count as int == sum_file_counts(
            n.children@,
        ),
        forall|i: int| 0 <= i < n.children@.len() ==> node_wf(#[trigger] n.children@[i]),
{
}

/// In every well-formed tree the children of a directory are totally
/// ordered: every directory-kind child precedes every file-kind child, and
/// within one kind the names never decrease.
pub proof fn lemma_children_totally_ordered(n: RepoNode)
    requires
        node_wf(n),
        n.node_type == RepoItemType::Directory,
    ensures
        forall|i: int, j: int|
            0 <= i < j < n.children@.len() ==> !((#[trigger] n.children@[i]).node_type
                == RepoItemType::File && (#[trigger] n.children@[j]).node_type
                == RepoItemType::Directory),
        forall|i: int, j: int|
            0 <= i < j < n.children@.len() && (#[trigger] n.children@[i]).node_type == (
            #[trigger] n.children@[j]).node_type ==> crate::strutil::lex_le(
                n.children@[i].name@,
                n.children@[j].name@,
            ),
{
    assert forall|i: int, j: int| 0 <= i < j < n.children@.len() implies !((
    #[trigger] n.children@[i]).node_type == RepoItemType::File && (
    #[trigger] n.children@[j]).node_type == RepoItemType::Directory) by {
        assert(node_le(n.children@[i], n.children@[j]));
    }
    assert forall|i: int, j: int|
        0 <= i < j < n.children@.len() && (#[trigger] n.children@[i]).node_type == (
        #[trigger] n.children@[j]).node_type implies crate::strutil::lex_le(
        n.children@[i].name@,
        n.children@[j].name@,
    ) by {
        assert(node_le(n.children@[i], n.children@[j]));
    }
}

pub proof fn lemma_node_le_total(a: RepoNode, b: RepoNode)
    ensures
        node_le(a, b) || node_le(b, a),
{
    crate::strutil::lemma_lex_le_total(a.name@, b.name@);
}

pub proof fn lemma_node_le_trans(a: RepoNode, b: RepoNode, c: RepoNode)
    requires
        node_le(a, b),
        node_le(b, c),
    ensures
        node_le(a, c),
{
    if a.node_type == b.node_type && b.node_type == c.node_type {
        crate::strutil::lemma_lex_le_trans(a.name@, b.name@, c.name@);
    }
}

/// Whether `a` comes no later than `b` in the child order.
pub fn node_le_exec(a: &RepoNode, b: &RepoNode) -> (r: bool)
    ensures
        r == node_le(*a, *b),
{
    match (a.node_type, b.node_type) {
        (RepoItemType::Directory, RepoItemType::File) => true,
        (RepoItemType::File, RepoItemType::Directory) => false,
        _ => crate::strutil::str_le(a.name.as_str(), b.name.as_str()),
    }
}

/// The children of one directory, ordered by `node_le`.
pub open spec fn children_sorted(s: Seq<RepoNode>) -> bool {
    forall|i: int, j: int| 0 <= i < j < s.len() ==> node_le(#[trigger] s[i], #[trigger] s[j])
}

/// `post` is `pre` with `node` placed at `ins`: the first position whose
/// element does not come before `node`. This pins the stable insertion
/// exactly: ties go after what is already there.
pub open spec fn child_added(pre: Seq<RepoNode>, post: Seq<RepoNode>, node: RepoNode, ins: int) -> bool {
    &&& 0 <= ins <= pre.len()
    &&& post == pre.insert(ins, node)
    &&& forall|j: int| 0 <= j < ins ==> node_le(#[trigger] pre[j], node)
    &&& ins < pre.len() ==> !node_le(pre[ins], node)
}

/// Places `node` into the ordered child list `children`, keeping the order;
/// the sums and the multiset of children grow by exactly the new node.
pub fn insert_child_sorted(children: &mut Vec<RepoNode>, node: RepoNode)
    requires
        children_sorted(old(children)@),
    ensures
        children_sorted(final(children)@),
        final(children)@.len() == old(children)@.len() + 1,
        final(children)@.to_multiset() == old(children)@.to_multiset().insert(node),
        sum_sizes(final(children)@) == sum_sizes(old(children)@) + node.size,
        sum_file_counts(final(children)@) == sum_file_counts(old(children)@) + node.file_count,
        sum_dir_counts(final(children)@) == sum_dir_counts(old(children)@) + node.dir_count,
        node_wf(node) && (forall|i: int|
            0 <= i < old(children)@.len() ==> node_wf(#[trigger] old(children)@[i])) ==> forall|
            i: int,
        |
            0 <= i < final(children)@.len() ==> node_wf(#[trigger] final(children)@[i]),
        exists|ins: int| child_added(old(children)@, final(children)@, node, ins),
    decreases old(children)@.len(),
{
    let mut i: usize = 0;
    while i < children.len() && node_le_exec(&children[i], &node)
        invariant
            i <= children@.len(),
            children@ == old(children)@,
            forall|j: int| 0 <= j < i ==> node_le(#[trigger] children@[j], node),
        decreases children@.len() - i,
    {
        i = i + 1;
    }
    proof {
        if i < children@.len() {
            lemma_node_le_total(children@[i as int], node);
            assert forall|j: int| i <= j < children@.len() implies node_le(
                node,
                #[trigger] children@[j],
            ) by {
                if j > i {
                    lemma_node_le_trans(node, children@[i as int], children@[j]);
                }
            }
        }
    }
    let ghost old_seq = children@;
    children.insert(i, node);
    proof {
        crate::sequences::lemma_sum_by_insert(old_seq, i as int, node, |n: RepoNode| n.size as int);
        crate::sequences::lemma_sum_by_insert(
            old_seq,
            i as int,
            node,
            |n: RepoNode| n.file_count as int,
        );
        crate::sequences::lemma_sum_by_insert(
            old_seq,
            i as int,
            node,
            |n: RepoNode| n.dir_count as int,
        );
        crate::sequences::lemma_to_multiset_insert(old_seq, i as int, node);
        assert(child_added(old_seq, children@, node, i as int));
        assert forall|p: int, q: int| 0 <= p < q < children@.len() implies node_le(
            #[trigger] children@[p],
            #[trigger] children@[q],
        ) by {
            assert(children@ == old_seq.insert(i as int, node));
            if q < i {
            } else if p > i {
                assert(children@[p] == old_seq[p - 1]);
                assert(children@[q] == old_seq[q - 1]);
            } else if p == i {
                assert(children@[p] == node);
                assert(children@[q] == old_seq[q - 1]);
            } else if q == i {
                assert(children@[p] == old_seq[p]);
                assert(children@[q] == node);
            } else {
                assert(children@[p] == old_seq[p]);
                assert(children@[q] == old_seq[q - 1]);
            }
        }
    }
}

/// The empty directory node that stands for `name` where the traversal
/// hard-stops: no children, no files, and the one directory it is itself.
pub fn depth_stub_node(name: String) -> (r: RepoNode)
    ensures
        r.name == name,
        r.node_type == RepoItemType::Directory,
        r.size == 0,
        r.children@ =~= Seq::<RepoNode>::empty(),
        r.file_count == 0,
        r.dir_count == 1,
        node_wf(r),
{
    let r = RepoNode {
        name,
        node_type: RepoItemType::Directory,
        size: 0,
        children: Vec::new(),
        file_count: 0,
        dir_count: 1,
    };
    r
}

/// The glyph introducing a node's line: a right-angle branch for the last
/// sibling, a tee otherwise.
pub open spec fn marker(is_last: bool) -> Seq<char> {
    if is_last {
        "└── "@
    } else {
        "├── "@
    }
}

/// What one nesting level adds to the prefix of all lines under a node.
pub open spec fn child_pad(is_last: bool) -> Seq<char> {
    if is_last {
        "    "@
    } else {
        "│   "@
    }
}

/// The exact text the renderer emits for a node: its own line, then each
/// child in order under an extended prefix, the last child marked as last.
pub open spec fn render_spec(n: RepoNode, prefix: Seq<char>, is_last: bool) -> Seq<char>
    decreases n, n.children@.len() + 1,
{
    prefix + marker(is_last) + n.name@ + seq!['\n'] + render_children_spec(
        n,
        0,
        prefix + child_pad(is_last),
    )
}

/// The rendering of the children of `n` from index `i` on.
pub open spec fn render_children_spec(n: RepoNode, i: int, child_prefix: Seq<char>) -> Seq<char>
    decreases n, n.children@.len() - i,
{
    if 0 <= i < n.children@.len() {
        render_spec(n.children@[i], child_prefix, i == n.children@.len() - 1)
            + render_children_spec(n, i + 1, child_prefix)
    } else {
        Seq::<char>::empty()
    }
}

/// Serializes a tree as line-drawing text, one line per node, children
/// indented four columns under their parent.
pub fn create_tree_structure(node: &RepoNode, prefix: &str, is_last: bool) -> (r: String)
    ensures
        r@ == render_spec(*node, prefix@, is_last),
    decreases *node,
{
    let mut result = String::new();
    result.append(prefix);
    let m: &str = if is_last {
        "└── "
    } else {
        "├── "
    };
    result.append(m);
    result.append(node.name.as_str());
    crate::strutil::push_char(&mut result, '\n');
    proof {
        reveal_strlit("└── ");
        reveal_strlit("├── ");
        assert(m@ == marker(is_last));
        assert(result@ =~= prefix@ + marker(is_last) + node.name@ + seq!['\n']);
    }
    let mut child_prefix = String::from_str(prefix);
    let pad: &str = if is_last {
        "    "
    } else {
        "│   "
    };
    child_prefix.append(pad);
    proof {
        reveal_strlit("    ");
        reveal_strlit("│   ");
        assert(child_prefix@ == prefix@ + child_pad(is_last));
    }
    let mut i: usize = 0;
    while i < node.children.len()
        invariant
            i <= node.children@.len(),
            child_prefix@ == prefix@ + child_pad(is_last),
            render_spec(*node, prefix@, is_last) == result@ + render_children_spec(
                *node,
                i as int,
                child_prefix@,
            ),
        decreases node.children@.len() - i,
    {
        let piece = create_tree_structure(
            &node.children[i],
            child_prefix.as_str(),
            i == node.children.len() - 1,
        );
        result.append(piece.as_str());
        i = i + 1;
    }
    result
}

} // verus!
