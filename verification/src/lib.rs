//! Inspection of remote source-hosting repositories without cloning them:
//! directory-tree aggregation with include/exclude/ignore filtering and
//! depth and size bounds, deterministic rendering of the tree as
//! line-drawing text, git-reference resolution, file-content decoding, and
//! repository search ranking, for GitHub- and GitLab-style providers.
//!
//! The library is everything that decides or computes; the network sits
//! outside it. A traversal is driven through [`tree::TreeBuilder`]: the
//! driver fetches the one listing the builder asks for and hands it back,
//! and every step in between is verified, synchronous work.

pub mod content;
pub mod errors;
pub mod filter;
pub mod gitref;
pub mod identifier;
pub mod ignore;
pub mod provider;
pub mod search;
pub mod sequences;
pub mod strutil;
pub mod tools;
pub mod tree;
pub mod urls;
