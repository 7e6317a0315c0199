//! The three tool-level operations, over the closed set of providers: file
//! read, tree view, and repository search. Each tool knows the providers it
//! can dispatch to and how a reference request string is read; the network
//! driving sits outside, against the contracts of the building blocks.

use vstd::prelude::*;

verus! {

use crate::gitref::git_ref_model;
use crate::gitref::parse_git_ref_spec;
use crate::identifier::ProviderKind;
use crate::identifier::provider_name_spec;
use crate::provider::GitRef;
use crate::provider::RepoItemType;
use crate::provider::RepoNode;
use crate::provider::node_wf;
use crate::strutil::last_segment;
use crate::strutil::views_of;

/// The providers every tool dispatches over, in registration order.
pub open spec fn registered_providers() -> Seq<ProviderKind> {
    seq![ProviderKind::GitHub, ProviderKind::GitLab]
}

fn registered_provider_vec() -> (r: Vec<ProviderKind>)
    ensures
        r@ == registered_providers(),
{
    let mut v: Vec<ProviderKind> = Vec::new();
    v.push(ProviderKind::GitHub);
    v.push(ProviderKind::GitLab);
    proof {
        assert(v@ =~= registered_providers());
    }
    v
}

fn lookup_provider(providers: &Vec<ProviderKind>, provider_name: &str) -> (r: Option<ProviderKind>)
    ensures
        match r {
            Some(k) => providers@.contains(k) && provider_name@ == provider_name_spec(k),
            None => forall|i: int|
                0 <= i < providers@.len() ==> provider_name@ != provider_name_spec(
                    #[trigger] providers@[i],
                ),
        },
{
    let mut i: usize = 0;
    while i < providers.len()
        invariant
            i <= providers@.len(),
            forall|j: int|
                0 <= j < i ==> provider_name@ != provider_name_spec(#[trigger] providers@[j]),
        decreases providers@.len() - i,
    {
        let name = crate::identifier::provider_name(providers[i]);
        if crate::strutil::str_eq(provider_name, name.as_str()) {
            return Some(providers[i]);
        }
        i = i + 1;
    }
    None
}

fn supported_provider_names(providers: &Vec<ProviderKind>) -> (r: Vec<String>)
    ensures
        views_of(r@) == providers@.map_values(|k: ProviderKind| provider_name_spec(k)),
{
    let mut out: Vec<String> = Vec::new();
    let mut i: usize = 0;
    proof {
        assert(views_of(out@) =~= providers@.subrange(0, 0).map_values(
            |k: ProviderKind| provider_name_spec(k),
        ));
    }
    while i < providers.len()
        invariant
            i <= providers@.len(),
            views_of(out@) == providers@.subrange(0, i as int).map_values(
                |k: ProviderKind| provider_name_spec(k),
            ),
        decreases providers@.len() - i,
    {
        let name = crate::identifier::provider_name(providers[i]);
        let ghost old_out = out@;
        out.push(name);
        proof {
            let f = |k: ProviderKind| provider_name_spec(k);
            assert(views_of(out@) =~= views_of(old_out).push(provider_name_spec(
                providers@[i as int],
            )));
            assert(providers@.subrange(0, i as int + 1) =~= providers@.subrange(0, i as int).push(
                providers@[i as int],
            ));
            assert(providers@.subrange(0, i as int).push(providers@[i as int]).map_values(f)
                =~= providers@.subrange(0, i as int).map_values(f).push(f(providers@[i as int])));
        }
        i = i + 1;
    }
    proof {
        assert(providers@.subrange(0, i as int) =~= providers@);
    }
    out
}

/// The file-read tool.
pub struct RepositoryRead {
    pub providers: Vec<ProviderKind>,
}

impl RepositoryRead {
    /// A tool over the registered providers.
    pub fn new() -> (r: Self)
        ensures
            r.providers@ == registered_providers(),
    {
        RepositoryRead { providers: registered_provider_vec() }
    }

    /// The provider going by `provider_name`, if the tool dispatches to one.
    pub fn get_provider(&self, provider_name: &str) -> (r: Option<ProviderKind>)
        ensures
            match r {
                Some(k) => self.providers@.contains(k) && provider_name@ == provider_name_spec(k),
                None => forall|i: int|
                    0 <= i < self.providers@.len() ==> provider_name@ != provider_name_spec(
                        #[trigger] self.providers@[i],
                    ),
            },
    {
        lookup_provider(&self.providers, provider_name)
    }

    /// The names of the providers the tool dispatches to.
    pub fn get_supported_providers(&self) -> (r: Vec<String>)
        ensures
            views_of(r@) == self.providers@.map_values(|k: ProviderKind| provider_name_spec(k)),
    {
        supported_provider_names(&self.providers)
    }

    /// Reads a reference request string.
    pub fn parse_git_ref(&self, ref_str: &str) -> (r: GitRef)
        ensures
            git_ref_model(r) == parse_git_ref_spec(ref_str@),
    {
        crate::gitref::parse_git_ref_str(ref_str)
    }
}

/// The tree-view tool.
pub struct RepositoryTreeView {
    pub providers: Vec<ProviderKind>,
}

impl RepositoryTreeView {
    /// A tool over the registered providers.
    pub fn new() -> (r: Self)
        ensures
            r.providers@ == registered_providers(),
    {
        RepositoryTreeView { providers: registered_provider_vec() }
    }

    /// The provider going by `provider_name`, if the tool dispatches to one.
    pub fn get_provider(&self, provider_name: &str) -> (r: Option<ProviderKind>)
        ensures
            match r {
                Some(k) => self.providers@.contains(k) && provider_name@ == provider_name_spec(k),
                None => forall|i: int|
                    0 <= i < self.providers@.len() ==> provider_name@ != provider_name_spec(
                        #[trigger] self.providers@[i],
                    ),
            },
    {
        lookup_provider(&self.providers, provider_name)
    }

    /// The names of the providers the tool dispatches to.
    pub fn get_supported_providers(&self) -> (r: Vec<String>)
        ensures
            views_of(r@) == self.providers@.map_values(|k: ProviderKind| provider_name_spec(k)),
    {
        supported_provider_names(&self.providers)
    }

    /// Reads a reference request string.
    pub fn parse_git_ref(&self, ref_str: &str) -> (r: GitRef)
        ensures
            git_ref_model(r) == parse_git_ref_spec(ref_str@),
    {
        crate::gitref::parse_git_ref_str(ref_str)
    }
}

/// The repository-search tool.
pub struct FindRepositories {
    pub providers: Vec<ProviderKind>,
}

impl FindRepositories {
    /// A tool over the registered providers.
    pub fn new() -> (r: Self)
        ensures
            r.providers@ == registered_providers(),
    {
        FindRepositories { providers: registered_provider_vec() }
    }

    /// The names of the providers the tool dispatches to.
    pub fn get_supported_providers(&self) -> (r: Vec<String>)
        ensures
            views_of(r@) == self.providers@.map_values(|k: ProviderKind| provider_name_spec(k)),
    {
        supported_provider_names(&self.providers)
    }
}

/// What a comma-separated pattern argument denotes: each piece trimmed of
/// white space, empty pieces dropped.
pub open spec fn pattern_list_spec(s: Seq<char>) -> Seq<Seq<char>> {
    crate::strutil::nonempty_pieces(
        crate::strutil::split_char_spec(s, ',').map_values(|p: Seq<char>| crate::search::trim_spec(p)),
    )
}

/// Reads a comma-separated pattern argument: each piece trimmed, empty
/// pieces dropped.
pub fn parse_pattern_list(s: &str) -> (r: Vec<String>)
    ensures
        views_of(r@) == pattern_list_spec(s@),
{
    let pieces = crate::strutil::split_char(s, ',');
    let mut trimmed: Vec<String> = Vec::new();
    let mut i: usize = 0;
    proof {
        let f = |p: Seq<char>| crate::search::trim_spec(p);
        assert(views_of(trimmed@) =~= views_of(pieces@).subrange(0, 0).map_values(f));
    }
    while i < pieces.len()
        invariant
            i <= pieces@.len(),
            views_of(trimmed@) == views_of(pieces@).subrange(0, i as int).map_values(
                |p: Seq<char>| crate::search::trim_spec(p),
            ),
        decreases pieces@.len() - i,
    {
        let piece = crate::search::trim_whitespace(pieces[i].as_str());
        let ghost old_trimmed = trimmed@;
        trimmed.push(piece);
        proof {
            let f = |p: Seq<char>| crate::search::trim_spec(p);
            assert(views_of(trimmed@) =~= views_of(old_trimmed).push(
                crate::search::trim_spec(pieces@[i as int]@),
            ));
            assert(views_of(pieces@).subrange(0, i as int + 1) =~= views_of(pieces@).subrange(
                0,
                i as int,
            ).push(views_of(pieces@)[i as int]));
            assert(views_of(pieces@).subrange(0, i as int).push(
                views_of(pieces@)[i as int],
            ).map_values(f) =~= views_of(pieces@).subrange(0, i as int).map_values(f).push(
                f(views_of(pieces@)[i as int]),
            ));
        }
        i = i + 1;
    }
    proof {
        assert(views_of(pieces@).subrange(0, i as int) =~= views_of(pieces@));
    }
    crate::strutil::filter_nonempty(&trimmed)
}

/// The finished tree under the repository's own name: the built root keeps
/// its children and aggregates and is relabeled for display.
pub fn rename_root(node: RepoNode, name: String) -> (r: RepoNode)
    requires
        node_wf(node),
        node.node_type == RepoItemType::Directory,
    ensures
        r.name == name,
        r.node_type == RepoItemType::Directory,
        r.size == node.size,
        r.children == node.children,
        r.file_count == node.file_count,
        r.dir_count == node.dir_count,
        node_wf(r),
{
    let r = RepoNode {
        name,
        node_type: RepoItemType::Directory,
        size: node.size,
        children: node.children,
        file_count: node.file_count,
        dir_count: node.dir_count,
    };
    r
}

/// The display name a GitLab tree gets: the project name the metadata gives,
/// or the last segment of the repository path when the metadata names none.
pub fn gitlab_root_name(metadata_name: Option<String>, repo_path: &str) -> (r: String)
    ensures
        match metadata_name {
            Some(n) => r == n,
            None => r@ == last_segment(repo_path@),
        },
{
    match metadata_name {
        Some(n) => n,
        None => crate::strutil::last_segment_of(repo_path),
    }
}

} // verus!
