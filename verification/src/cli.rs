//! The command surface's data: what a release or next-version invocation
//! asks for.  Argument parsing itself happens outside; these are the plain
//! values it produces.

use vstd::prelude::*;

verus! {

/// Release a project: compute, write and optionally commit and tag the
/// next version.
pub struct Release {
    /// Project name.
    pub project: String,
    /// Force release.
    pub force: bool,
    /// Commit changes.
    pub commit: bool,
    /// Create a tag (requires commit).
    pub tag: bool,
}

/// Print the next version for a project, writing nothing.
pub struct Next {
    /// Project name.
    pub project: String,
}

/// The two commands.
pub enum SubCommand {
    Release(Release),
    Next(Next),
}

} // verus!
