//! The core of Hyde, a static site generator tailored towards blogs: the
//! build pipeline that turns a directory of Markdown posts plus a theme of
//! HTML templates into a static HTML site, recompiling only what changed.
//!
//! The pieces with real algorithmic content live here, verified: the
//! directory-synchronisation decisions, the per-post incremental build
//! decision, the frontmatter splitter, the content compiler's event
//! rewriting (highlighted code blocks, heading anchors, mathematics
//! segments), the post summariser, and the selection of the most recent
//! posts.  Filesystem walks, template rendering and the command line stand
//! outside, hand plain values in, and carry the decisions out.

use vstd::prelude::*;

pub mod content;
pub mod filters;
pub mod frontmatter;
pub mod highlight;
pub mod latex;
pub mod new;
pub mod post;
pub mod recent;
pub mod schedule;
pub mod summary;
pub mod sync;
pub mod text;
pub mod timestamp;
pub mod yaml;

verus! {

/// Site-wide configuration read from the project's `hyde.toml`.
pub struct Config {
    /// The name of the site
    pub name: String,
    /// A description of the site (or some witty tagline)
    pub description: String,
    /// The path of the theme directory, relative to the project root
    pub theme: String,
}

} // verus!
