//! The tree builder: a stepwise traversal of a remote directory listing API.
//!
//! The builder holds an explicit stack of directories under construction.
//! Whoever drives it repeatedly asks `next_request` for the path whose
//! listing is needed, performs that one fetch, and hands the entries to
//! `provide_listing`; everything between two fetches is synchronous, verified
//! work. Recursion depth is bounded by `max_depth`: a directory one level
//! past the bound becomes an empty stub without erroring. Enumeration of one
//! directory's remaining entries stops once the file count aggregated at that
//! directory passes `MAX_FILES`; the cap is per directory, not per tree. A
//! failed listing fetch is a hard failure for the whole build: the driver
//! propagates the fetch error and drops the builder.

use vstd::prelude::*;

verus! {

use crate::provider::RepoItem;
use crate::provider::RepoItemType;
use crate::provider::RepoNode;
use crate::provider::child_added;
use crate::provider::children_sorted;
use crate::provider::clip_u64;
use crate::provider::clip_usize;
use crate::provider::depth_stub_node;
use crate::provider::insert_child_sorted;
use crate::provider::node_wf;
use crate::provider::sum_dir_counts;
use crate::provider::sum_file_counts;
use crate::provider::sum_sizes;
use crate::strutil::last_segment;
use crate::strutil::last_segment_of;

/// Entries of one directory stop being enumerated once its aggregated file
/// count passes this bound.
pub const MAX_FILES: usize = 500;

/// How a directory derives its displayed name from its path: from the last
/// path segment alone, or with a literal root label for the empty path.
#[derive(Debug, Clone, Copy, PartialEq, Eq, Structural)]
pub enum NameStyle {
    /// The last path segment, which for an empty path is empty.
    RawPath,
    /// The last path segment, with the empty path shown as `root`.
    RootLabel,
}

/// The displayed name of a directory at `path`.
pub open spec fn dir_name_spec(path: Seq<char>, style: NameStyle) -> Seq<char> {
    match style {
        NameStyle::RawPath => last_segment(path),
        NameStyle::RootLabel => if path.len() == 0 {
            "root"@
        } else {
            last_segment(path)
        },
    }
}

/// Computes the displayed name of a directory at `path`.
pub fn dir_display_name(path: &str, style: NameStyle) -> (r: String)
    ensures
        r@ == dir_name_spec(path@, style),
{
    match style {
        NameStyle::RawPath => last_segment_of(path),
        NameStyle::RootLabel => {
            if path.is_empty() {
                String::from_str("root")
            } else {
                last_segment_of(path)
            }
        },
    }
}

/// Saturating addition on `u64`.
pub fn sat_add_u64(a: u64, b: u64) -> (r: u64)
    ensures
        r as int == clip_u64(a as int + b as int),
{
    if a > u64::MAX - b {
        u64::MAX
    } else {
        a + b
    }
}

/// Saturating addition on `usize`.
pub fn sat_add_usize(a: usize, b: usize) -> (r: usize)
    ensures
        r as int == clip_usize(a as int + b as int),
{
    if a > usize::MAX - b {
        usize::MAX
    } else {
        a + b
    }
}

/// Decides what a directory entry reached from a parent at `parent_depth`
/// becomes. One level past `max_depth` the traversal hard-stops: the entry
/// yields an empty leaf stub named after its last path segment, with no
/// children, no files, and one directory (itself). Within the bound it
/// yields nothing here and is descended into instead.
pub fn expand_dir_entry(path: &str, parent_depth: usize, max_depth: usize) -> (r: Option<RepoNode>)
    ensures
        (parent_depth >= max_depth) == (r is Some),
        match r {
            Some(stub) => stub.name@ == last_segment(path@) && stub.node_type
                == RepoItemType::Directory && stub.size == 0 && stub.children@
                =~= Seq::<RepoNode>::empty() && stub.file_count == 0 && stub.dir_count == 1
                && node_wf(stub),
            None => parent_depth < max_depth,
        },
{
    if parent_depth >= max_depth {
        Some(depth_stub_node(last_segment_of(path)))
    } else {
        None
    }
}

/// One directory under construction.
pub struct PendingDir {
    /// The displayed name the finished node will carry.
    pub name: String,
    /// The repository path of this directory.
    pub path: String,
    /// Its recursion depth; the root of the build is at depth zero.
    pub depth: usize,
    /// Whether the listing for `path` has been handed in yet.
    pub has_listing: bool,
    /// The listing, once handed in.
    pub entries: Vec<RepoItem>,
    /// How many entries have been consumed.
    pub next: usize,
    /// The finished children so far, ordered.
    pub children: Vec<RepoNode>,
    /// Aggregated subtree byte size so far (saturating).
    pub size: u64,
    /// Aggregated file count so far (saturating).
    pub file_count: usize,
    /// Aggregated directory count so far, this directory included
    /// (saturating).
    pub dir_count: usize,
}

/// Internal consistency of one frame: counters aggregate exactly the children
/// collected so far, the children are ordered and well-formed, and a frame
/// still waiting for its listing has consumed nothing.
pub open spec fn frame_wf(f: PendingDir) -> bool {
    &&& f.next <= f.entries@.len()
    &&& children_sorted(f.children@)
    &&& (forall|i: int| 0 <= i < f.children@.len() ==> node_wf(#[trigger] f.children@[i]))
    &&& f.size as int == clip_u64(sum_sizes(f.children@))
    &&& f.file_count as int == clip_usize(sum_file_counts(f.children@))
    &&& f.dir_count as int == clip_usize(1 + sum_dir_counts(f.children@))
    &&& (!f.has_listing ==> f.entries@.len() == 0 && f.next == 0 && f.children@.len() == 0)
}

/// How much work one frame still holds.
pub open spec fn frame_pending(f: PendingDir) -> int {
    if f.next <= f.entries@.len() {
        f.entries@.len() - f.next
    } else {
        0
    }
}

/// How much work a stack of frames still holds.
pub open spec fn frames_measure(s: Seq<PendingDir>) -> int
    decreases s.len(),
{
    if s.len() == 0 {
        0
    } else {
        frames_measure(s.drop_last()) + frame_pending(s.last()) + 1
    }
}

proof fn lemma_frames_measure_nonneg(s: Seq<PendingDir>)
    ensures
        frames_measure(s) >= 0,
    decreases s.len(),
{
    if s.len() != 0 {
        lemma_frames_measure_nonneg(s.drop_last());
    }
}

/// The builder of one repository tree.
pub struct TreeBuilder {
    /// Include glob patterns; empty means everything not excluded.
    pub include_patterns: Vec<String>,
    /// Exclude glob patterns.
    pub exclude_patterns: Vec<String>,
    /// Ignore substrings.
    pub ignore_patterns: Vec<String>,
    /// The recursion depth bound.
    pub max_depth: usize,
    /// How directories derive their displayed names.
    pub name_style: NameStyle,
    /// The directories under construction, root first.
    pub stack: Vec<PendingDir>,
    /// The finished tree, once the root directory completes.
    pub result: Option<RepoNode>,
}

impl TreeBuilder {
    /// The whole tree has been built.
    pub open spec fn is_done(self) -> bool {
        self.result is Some
    }

    /// The builder waits for the listing of the top directory.
    pub open spec fn awaiting(self) -> bool {
        &&& !self.is_done()
        &&& self.stack@.len() > 0
        &&& !self.stack@.last().has_listing
    }

    /// The builder rests between two steps of its driver: it either waits for
    /// one listing or is done.
    pub open spec fn quiescent(self) -> bool {
        self.is_done() || self.awaiting()
    }

    /// Internal consistency: every frame is consistent, frames sit at their
    /// recursion depth, only the top frame can lack its listing, and a result
    /// exists exactly when no work is left.
    pub open spec fn wf(self) -> bool {
        &&& (forall|i: int| 0 <= i < self.stack@.len() ==> frame_wf(#[trigger] self.stack@[i]))
        &&& (forall|i: int|
            0 <= i < self.stack@.len() ==> (#[trigger] self.stack@[i]).depth == i)
        &&& (forall|i: int|
            0 <= i < self.stack@.len() - 1 ==> (#[trigger] self.stack@[i]).has_listing)
        &&& (forall|i: int|
            0 <= i < self.stack@.len() ==> (#[trigger] self.stack@[i]).depth <= self.max_depth)
        &&& match self.result {
            Some(n) => self.stack@.len() == 0 && node_wf(n) && n.node_type
                == RepoItemType::Directory,
            None => self.stack@.len() >= 1,
        }
    }

    /// Starts a build at `root_path`.
    pub fn new(
        root_path: String,
        include_patterns: Vec<String>,
        exclude_patterns: Vec<String>,
        ignore_patterns: Vec<String>,
        max_depth: usize,
        name_style: NameStyle,
    ) -> (r: TreeBuilder)
        ensures
            r.wf(),
            r.awaiting(),
            r.stack@.len() == 1,
            r.stack@[0].path == root_path,
            r.stack@[0].name@ == dir_name_spec(root_path@, name_style),
            r.include_patterns == include_patterns,
            r.exclude_patterns == exclude_patterns,
            r.ignore_patterns == ignore_patterns,
            r.max_depth == max_depth,
            r.name_style == name_style,
    {
        let name = dir_display_name(root_path.as_str(), name_style);
        let root = PendingDir {
            name,
            path: root_path,
            depth: 0,
            has_listing: false,
            entries: Vec::new(),
            next: 0,
            children: Vec::new(),
            size: 0,
            file_count: 0,
            dir_count: 1,
        };
        let mut stack: Vec<PendingDir> = Vec::new();
        stack.push(root);
        TreeBuilder {
            include_patterns,
            exclude_patterns,
            ignore_patterns,
            max_depth,
            name_style,
            stack,
            result: None,
        }
    }

    /// The path whose listing the builder needs next, or nothing when the
    /// tree is finished.
    pub fn next_request(&self) -> (r: Option<String>)
        requires
            self.wf(),
            self.quiescent(),
        ensures
            match r {
                Some(p) => self.awaiting() && p@ == self.stack@.last().path@,
                None => self.is_done(),
            },
    {
        if self.stack.len() > 0 {
            Some(self.stack[self.stack.len() - 1].path.clone())
        } else {
            None
        }
    }

    /// The finished tree.
    pub fn take_result(self) -> (r: RepoNode)
        requires
            self.wf(),
            self.is_done(),
        ensures
            Some(r) == self.result,
            node_wf(r),
            r.node_type == RepoItemType::Directory,
    {
        match self.result {
            Some(n) => n,
            None => vstd::pervasive::unreached(),
        }
    }

    /// The filter and ignore configuration, the depth bound and the naming
    /// style, which stay what they were for the whole of one build.
    pub open spec fn config(self) -> (Seq<String>, Seq<String>, Seq<String>, usize, NameStyle) {
        (
            self.include_patterns@,
            self.exclude_patterns@,
            self.ignore_patterns@,
            self.max_depth,
            self.name_style,
        )
    }

    /// Hands the waiting top frame its listing. Nothing else changes: every
    /// other frame stays as it was, and no entry is consumed yet.
    pub fn attach_listing(&mut self, entries: Vec<RepoItem>)
        requires
            old(self).wf(),
            old(self).awaiting(),
        ensures
            final(self).wf(),
            !final(self).is_done(),
            final(self).stack@.last().has_listing,
            final(self).config() == old(self).config(),
            listing_attached(*old(self), *final(self), entries),
    {
        let mut top = match self.stack.pop() {
            Some(f) => f,
            None => vstd::pervasive::unreached(),
        };
        top.has_listing = true;
        top.entries = entries;
        top.next = 0;
        self.stack.push(top);
        proof {
            assert(self.stack@ =~= old(self).stack@.update(
                old(self).stack@.len() - 1,
                PendingDir {
                    has_listing: true,
                    entries: entries,
                    next: 0usize,
                    ..old(self).stack@.last()
                },
            ));
            assert(forall|i: int|
                0 <= i < self.stack@.len() - 1 ==> self.stack@[i] == old(self).stack@[i]);
        }
    }

    /// Does one unit of work, exactly as `step_spec` describes: the top
    /// frame's next entry is skipped, becomes a leaf, becomes a stub or opens
    /// a fresh frame, or the exhausted top frame completes into a node.
    pub fn step(&mut self) -> (r: StepOutcome)
        requires
            old(self).wf(),
            !old(self).is_done(),
            old(self).stack@.last().has_listing,
        ensures
            final(self).wf(),
            final(self).config() == old(self).config(),
            step_spec(*old(self), *final(self)),
            (r == StepOutcome::NeedListing) == final(self).awaiting(),
            (r == StepOutcome::Finished) == final(self).is_done(),
            r == StepOutcome::Working ==> final(self).stack@.len() > 0
                && final(self).stack@.last().has_listing
                && frames_measure(final(self).stack@) < frames_measure(old(self).stack@),
    {
        proof {
            lemma_frames_measure_nonneg(self.stack@.drop_last());
        }
        let ghost pre_stack = self.stack@;
        let mut fr = match self.stack.pop() {
            Some(f) => f,
            None => vstd::pervasive::unreached(),
        };
        let ghost fr0 = fr;
        proof {
            assert(pre_stack.drop_last() =~= self.stack@);
        }
        if fr.next < fr.entries.len() {
            let ghost entry = fr0.entries@[fr0.next as int];
            let entry_path = fr.entries[fr.next].path.clone();
            let keep = crate::filter::is_included(
                entry_path.as_str(),
                &self.include_patterns,
                &self.exclude_patterns,
                &self.ignore_patterns,
            );
            if !keep {
                fr.next = fr.next + 1;
                self.stack.push(fr);
                proof {
                    lemma_push_back_preserves(pre_stack, self.stack@, fr);
                    assert(fr == PendingDir { next: (fr0.next + 1) as usize, ..fr0 });
                    assert(self.stack@ =~= pre_stack.update(pre_stack.len() - 1, fr));
                }
                StepOutcome::Working
            } else {
                match fr.entries[fr.next].item_type {
                    RepoItemType::File => {
                        let fsize = match fr.entries[fr.next].size {
                            Some(s) => s,
                            None => 0,
                        };
                        let leaf = RepoNode {
                            name: fr.entries[fr.next].name.clone(),
                            node_type: RepoItemType::File,
                            size: fsize,
                            children: Vec::new(),
                            file_count: 1,
                            dir_count: 0,
                        };
                        let ghost leaf0 = leaf;
                        insert_child_sorted(&mut fr.children, leaf);
                        fr.size = sat_add_u64(fr.size, fsize);
                        fr.file_count = sat_add_usize(fr.file_count, 1);
                        fr.next = fr.next + 1;
                        if fr.file_count > MAX_FILES {
                            fr.next = fr.entries.len();
                        }
                        self.stack.push(fr);
                        proof {
                            lemma_push_back_preserves(pre_stack, self.stack@, fr);
                            let ins = choose|ins: int|
                                child_added(fr0.children@, fr.children@, leaf0, ins);
                            assert(fr.children@[ins] == leaf0);
                            assert(child_added(fr0.children@, fr.children@, fr.children@[ins], ins)
                                && is_leaf_for(fr.children@[ins], entry));
                            assert(step_adds_file(
                                *old(self),
                                *self,
                                pre_stack.len() - 1,
                                fr0,
                                entry,
                            ));
                        }
                        StepOutcome::Working
                    },
                    RepoItemType::Directory => {
                        match expand_dir_entry(entry_path.as_str(), fr.depth, self.max_depth) {
                            Some(stub) => {
                                let ghost stub0 = stub;
                                let sdc = stub.dir_count;
                                insert_child_sorted(&mut fr.children, stub);
                                fr.dir_count = sat_add_usize(fr.dir_count, sdc);
                                fr.next = fr.next + 1;
                                self.stack.push(fr);
                                proof {
                                    lemma_push_back_preserves(pre_stack, self.stack@, fr);
                                    let ins = choose|ins: int|
                                        child_added(fr0.children@, fr.children@, stub0, ins);
                                    assert(fr.children@[ins] == stub0);
                                    assert(child_added(
                                        fr0.children@,
                                        fr.children@,
                                        fr.children@[ins],
                                        ins,
                                    ) && is_stub_for(fr.children@[ins], entry.path@));
                                    assert(step_adds_stub(
                                        *old(self),
                                        *self,
                                        pre_stack.len() - 1,
                                        fr0,
                                        entry,
                                    ));
                                }
                                StepOutcome::Working
                            },
                            None => {
                                fr.next = fr.next + 1;
                                let child_depth = fr.depth + 1;
                                let child_name = dir_display_name(
                                    entry_path.as_str(),
                                    self.name_style,
                                );
                                let child = PendingDir {
                                    name: child_name,
                                    path: entry_path,
                                    depth: child_depth,
                                    has_listing: false,
                                    entries: Vec::new(),
                                    next: 0,
                                    children: Vec::new(),
                                    size: 0,
                                    file_count: 0,
                                    dir_count: 1,
                                };
                                self.stack.push(fr);
                                proof {
                                    lemma_push_back_preserves(pre_stack, self.stack@, fr);
                                }
                                self.stack.push(child);
                                proof {
                                    assert(forall|i: int|
                                        0 <= i < self.stack@.len() - 1
                                            ==> #[trigger] self.stack@[i] == pre_stack.update(
                                            pre_stack.len() - 1,
                                            fr,
                                        )[i]);
                                    assert(fr == PendingDir {
                                        next: (fr0.next + 1) as usize,
                                        ..fr0
                                    });
                                    assert(step_descends(
                                        *old(self),
                                        *self,
                                        pre_stack.len() - 1,
                                        fr0,
                                        entry,
                                    ));
                                }
                                StepOutcome::NeedListing
                            },
                        }
                    },
                }
            }
        } else {
            let node = RepoNode {
                name: fr.name,
                node_type: RepoItemType::Directory,
                size: fr.size,
                children: fr.children,
                file_count: fr.file_count,
                dir_count: fr.dir_count,
            };
            if self.stack.len() == 0 {
                self.result = Some(node);
                return StepOutcome::Finished;
            }
            let ghost mid_stack = self.stack@;
            let ghost node0 = node;
            let mut parent = match self.stack.pop() {
                Some(f) => f,
                None => vstd::pervasive::unreached(),
            };
            let ghost p0 = parent;
            proof {
                assert(mid_stack.drop_last() =~= self.stack@);
                lemma_frames_measure_nonneg(self.stack@);
            }
            let nsize = node.size;
            let nfc = node.file_count;
            let ndc = node.dir_count;
            insert_child_sorted(&mut parent.children, node);
            parent.size = sat_add_u64(parent.size, nsize);
            parent.file_count = sat_add_usize(parent.file_count, nfc);
            parent.dir_count = sat_add_usize(parent.dir_count, ndc);
            if parent.file_count > MAX_FILES {
                parent.next = parent.entries.len();
            }
            self.stack.push(parent);
            proof {
                assert(self.stack@.drop_last() =~= mid_stack.drop_last());
                lemma_push_back_preserves(mid_stack, self.stack@, parent);
                assert(frames_measure(self.stack@) == frames_measure(mid_stack.drop_last())
                    + frame_pending(parent) + 1);
                assert(frames_measure(pre_stack) == frames_measure(mid_stack) + frame_pending(
                    pre_stack.last(),
                ) + 1);
                assert(frames_measure(mid_stack) == frames_measure(mid_stack.drop_last())
                    + frame_pending(mid_stack.last()) + 1);
                assert(frame_pending(parent) <= frame_pending(mid_stack.last()));
                let ins = choose|ins: int|
                    child_added(p0.children@, parent.children@, node0, ins);
                assert(parent.children@[ins] == node0);
                assert(child_added(p0.children@, parent.children@, parent.children@[ins], ins)
                    && completed_node(parent.children@[ins], fr0));
                assert(step_completes(*old(self), *self, pre_stack.len() - 1, fr0));
            }
            StepOutcome::Working
        }
    }

    /// Hands the builder the listing of the directory it waits on, and works
    /// until it either needs another listing or has finished the tree: one
    /// `attach_listing`, then `step` until it rests. Everything that happens
    /// in between is a chain of `step_spec` transitions.
    pub fn provide_listing(&mut self, entries: Vec<RepoItem>)
        requires
            old(self).wf(),
            old(self).awaiting(),
        ensures
            final(self).wf(),
            final(self).quiescent(),
            final(self).config() == old(self).config(),
            exists|attached: TreeBuilder|
                #[trigger] listing_attached(*old(self), attached, entries) && steps_between(
                    attached,
                    *final(self),
                ),
    {
        self.attach_listing(entries);
        let ghost attached = *self;
        let ghost mut trace: Seq<TreeBuilder> = seq![*self];
        loop
            invariant_except_break
                !self.is_done(),
                self.stack@.len() >= 1,
                self.stack@.last().has_listing,
            invariant
                self.wf(),
                self.config() == old(self).config(),
                run_of(trace),
                trace.len() >= 1,
                trace[0] == attached,
                trace.last() == *self,
            ensures
                self.wf(),
                self.quiescent(),
                self.config() == old(self).config(),
                run_of(trace),
                trace.len() >= 1,
                trace[0] == attached,
                trace.last() == *self,
            decreases frames_measure(self.stack@),
        {
            proof {
                lemma_frames_measure_nonneg(self.stack@);
            }
            let ghost measure_before = frames_measure(self.stack@);
            let ghost pre_step = *self;
            let outcome = self.step();
            proof {
                let old_trace = trace;
                trace = trace.push(*self);
                assert(trace.last() == *self);
                assert(trace[0] == attached);
                assert forall|i: int| 0 <= i < trace.len() - 1 implies step_spec(
                    trace[i],
                    #[trigger] trace[i + 1],
                ) by {
                    if i < old_trace.len() - 1 {
                        assert(trace[i] == old_trace[i]);
                        assert(trace[i + 1] == old_trace[i + 1]);
                    } else {
                        assert(trace[i] == pre_step);
                        assert(trace[i + 1] == *self);
                    }
                }
            }
            match outcome {
                StepOutcome::Working => {
                    proof {
                        lemma_frames_measure_nonneg(self.stack@);
                        assert(frames_measure(self.stack@) < measure_before);
                    }
                },
                _ => {
                    break ;
                },
            }
        }
        proof {
            assert(run_of(trace) && trace.len() >= 1 && trace[0] == attached && trace.last()
                == *self);
            assert(steps_between(attached, *self));
        }
    }
}

/// The one change attaching a listing makes: the waiting top frame now holds
/// `entries` with nothing consumed, and everything else stands.
pub open spec fn listing_attached(pre: TreeBuilder, post: TreeBuilder, entries: Vec<RepoItem>) -> bool {
    &&& post.config() == pre.config()
    &&& post.result == pre.result
    &&& post.stack@ == pre.stack@.update(
        pre.stack@.len() - 1,
        PendingDir { has_listing: true, entries: entries, next: 0usize, ..pre.stack@.last() },
    )
}

/// Consecutive states of one run of the builder.
pub open spec fn run_of(trace: Seq<TreeBuilder>) -> bool {
    forall|i: int| 0 <= i < trace.len() - 1 ==> step_spec(trace[i], #[trigger] trace[i + 1])
}

/// `post` is reachable from `pre` by a chain of builder steps.
pub open spec fn steps_between(pre: TreeBuilder, post: TreeBuilder) -> bool {
    exists|trace: Seq<TreeBuilder>|
        #[trigger] run_of(trace) && trace.len() >= 1 && trace[0] == pre && trace.last() == post
}

/// What a step left behind: more synchronous work, a frame waiting for its
/// listing, or the finished tree.
#[derive(Debug, Clone, Copy, PartialEq, Eq, Structural)]
pub enum StepOutcome {
    Working,
    NeedListing,
    Finished,
}

/// What never changes about a directory while its frame is on the stack.
pub open spec fn frame_same_dir(g: PendingDir, fr: PendingDir) -> bool {
    &&& g.name == fr.name
    &&& g.path == fr.path
    &&& g.depth == fr.depth
    &&& g.has_listing == fr.has_listing
    &&& g.entries == fr.entries
}

/// The leaf node a kept file entry becomes: its own name and size (an absent
/// size counts zero), one file, no directories, no children.
pub open spec fn is_leaf_for(n: RepoNode, entry: RepoItem) -> bool {
    &&& n.name == entry.name
    &&& n.node_type == RepoItemType::File
    &&& n.size == (match entry.size {
        Some(s) => s,
        None => 0u64,
    })
    &&& n.children@.len() == 0
    &&& n.file_count == 1
    &&& n.dir_count == 0
}

/// The stub node a directory entry past the depth bound becomes.
pub open spec fn is_stub_for(n: RepoNode, path: Seq<char>) -> bool {
    &&& n.name@ == last_segment(path)
    &&& n.node_type == RepoItemType::Directory
    &&& n.size == 0
    &&& n.children@.len() == 0
    &&& n.file_count == 0
    &&& n.dir_count == 1
}

/// The node an exhausted frame becomes.
pub open spec fn completed_node(n: RepoNode, fr: PendingDir) -> bool {
    &&& n.name == fr.name
    &&& n.node_type == RepoItemType::Directory
    &&& n.size == fr.size
    &&& n.children == fr.children
    &&& n.file_count == fr.file_count
    &&& n.dir_count == fr.dir_count
}

/// The filter decision a step applies to one entry.
pub open spec fn entry_kept(pre: TreeBuilder, entry: RepoItem) -> bool {
    crate::filter::included(
        entry.path@,
        crate::strutil::views_of(pre.include_patterns@),
        crate::strutil::views_of(pre.exclude_patterns@),
        crate::strutil::views_of(pre.ignore_patterns@),
    )
}

/// One step skipped a filtered-out entry: only the top frame's cursor moved.
pub open spec fn step_skips(pre: TreeBuilder, post: TreeBuilder, k: int, fr: PendingDir) -> bool {
    &&& post.result == pre.result
    &&& post.stack@ == pre.stack@.update(k, PendingDir { next: (fr.next + 1) as usize, ..fr })
}

/// One step turned a kept file entry into a leaf child of the top frame: the
/// leaf sits at its sorted place, the aggregates grow by the file
/// (saturating), and once the file count passes the cap the frame's
/// remaining entries are abandoned.
pub open spec fn step_adds_file(
    pre: TreeBuilder,
    post: TreeBuilder,
    k: int,
    fr: PendingDir,
    entry: RepoItem,
) -> bool {
    &&& post.result == pre.result
    &&& post.stack@.len() == pre.stack@.len()
    &&& (forall|i: int| 0 <= i < k ==> post.stack@[i] == pre.stack@[i])
    &&& {
        let g = post.stack@[k];
        &&& frame_same_dir(g, fr)
        &&& (exists|ins: int|
            #[trigger] child_added(fr.children@, g.children@, g.children@[ins], ins)
                && is_leaf_for(g.children@[ins], entry))
        &&& g.size as int == clip_u64(
            fr.size + (match entry.size {
                Some(s) => s,
                None => 0u64,
            }),
        )
        &&& g.file_count as int == clip_usize(fr.file_count + 1)
        &&& g.dir_count == fr.dir_count
        &&& g.next as int == (if clip_usize(fr.file_count + 1) > MAX_FILES as int {
            fr.entries@.len() as int
        } else {
            fr.next + 1
        })
    }
}

/// One step turned a kept directory entry one level past the depth bound
/// into an empty stub child of the top frame.
pub open spec fn step_adds_stub(
    pre: TreeBuilder,
    post: TreeBuilder,
    k: int,
    fr: PendingDir,
    entry: RepoItem,
) -> bool {
    &&& post.result == pre.result
    &&& post.stack@.len() == pre.stack@.len()
    &&& (forall|i: int| 0 <= i < k ==> post.stack@[i] == pre.stack@[i])
    &&& {
        let g = post.stack@[k];
        &&& frame_same_dir(g, fr)
        &&& (exists|ins: int|
            #[trigger] child_added(fr.children@, g.children@, g.children@[ins], ins)
                && is_stub_for(g.children@[ins], entry.path@))
        &&& g.size == fr.size
        &&& g.file_count == fr.file_count
        &&& g.dir_count as int == clip_usize(fr.dir_count + 1)
        &&& g.next == fr.next + 1
    }
}

/// One step descended into a kept directory entry within the depth bound:
/// the entry is consumed and a fresh frame for it waits for its listing.
pub open spec fn step_descends(
    pre: TreeBuilder,
    post: TreeBuilder,
    k: int,
    fr: PendingDir,
    entry: RepoItem,
) -> bool {
    &&& post.result == pre.result
    &&& post.stack@.len() == pre.stack@.len() + 1
    &&& (forall|i: int| 0 <= i < k ==> post.stack@[i] == pre.stack@[i])
    &&& post.stack@[k] == PendingDir { next: (fr.next + 1) as usize, ..fr }
    &&& {
        let c = post.stack@[k + 1];
        &&& c.name@ == dir_name_spec(entry.path@, pre.name_style)
        &&& c.path == entry.path
        &&& c.depth == fr.depth + 1
        &&& !c.has_listing
        &&& c.entries@.len() == 0
        &&& c.next == 0
        &&& c.children@.len() == 0
        &&& c.size == 0
        &&& c.file_count == 0
        &&& c.dir_count == 1
    }
}

/// One step completed the exhausted top frame into a node: the finished tree
/// when it was the last frame, else a child at its sorted place in its
/// parent, whose aggregates grow by the finished subtree (saturating) and
/// whose remaining entries are abandoned once its file count passes the cap.
pub open spec fn step_completes(pre: TreeBuilder, post: TreeBuilder, k: int, fr: PendingDir) -> bool {
    if k == 0 {
        &&& post.stack@.len() == 0
        &&& post.result matches Some(n) && completed_node(n, fr)
    } else {
        let p = pre.stack@[k - 1];
        &&& post.result == pre.result
        &&& post.stack@.len() == k
        &&& (forall|i: int| 0 <= i < k - 1 ==> post.stack@[i] == pre.stack@[i])
        &&& {
            let q = post.stack@[k - 1];
            &&& frame_same_dir(q, p)
            &&& (exists|ins: int|
                #[trigger] child_added(p.children@, q.children@, q.children@[ins], ins)
                    && completed_node(q.children@[ins], fr))
            &&& q.size as int == clip_u64(p.size + fr.size)
            &&& q.file_count as int == clip_usize(p.file_count + fr.file_count)
            &&& q.dir_count as int == clip_usize(p.dir_count + fr.dir_count)
            &&& q.next as int == (if clip_usize(p.file_count + fr.file_count) > MAX_FILES as int {
                p.entries@.len() as int
            } else {
                p.next as int
            })
        }
    }
}

/// What one step of the builder does, exactly. With `fr` the top frame: a
/// remaining entry is skipped when the filter rejects it, becomes a leaf
/// when it is a file, becomes a stub when it is a directory past the depth
/// bound, and opens a fresh frame otherwise; an exhausted frame completes.
pub open spec fn step_spec(pre: TreeBuilder, post: TreeBuilder) -> bool {
    let k = pre.stack@.len() - 1;
    let fr = pre.stack@[k];
    &&& post.config() == pre.config()
    &&& (if fr.next < fr.entries@.len() {
        let entry = fr.entries@[fr.next as int];
        if !entry_kept(pre, entry) {
            step_skips(pre, post, k, fr)
        } else if entry.item_type == RepoItemType::File {
            step_adds_file(pre, post, k, fr, entry)
        } else if fr.depth >= pre.max_depth {
            step_adds_stub(pre, post, k, fr, entry)
        } else {
            step_descends(pre, post, k, fr, entry)
        }
    } else {
        step_completes(pre, post, k, fr)
    })
}

/// After popping the last frame and pushing `f` back, every lower frame is
/// unchanged and the measure moved with `f`'s pending work alone.
proof fn lemma_push_back_preserves(pre: Seq<PendingDir>, post: Seq<PendingDir>, f: PendingDir)
    requires
        pre.len() >= 1,
        post.len() == pre.len(),
        post.drop_last() =~= pre.drop_last(),
        post.last() == f,
    ensures
        frames_measure(post) == frames_measure(pre.drop_last()) + frame_pending(f) + 1,
        forall|i: int| 0 <= i < pre.len() - 1 ==> post[i] == pre[i],
{
    assert forall|i: int| 0 <= i < pre.len() - 1 implies post[i] == pre[i] by {
        assert(post.drop_last()[i] == post[i]);
        assert(pre.drop_last()[i] == pre[i]);
    }
}

} // verus!
