//! What a scan reports while it runs.

use vstd::prelude::*;
use crate::stats::Stats;

verus! {

/// One report of the scan, in the order in which things happened. In the
/// reports on a pair of paths, `src` is the path that was found to be a
/// duplicate and `dst` the path whose content it now shares.
#[derive(Debug, PartialEq, Eq)]
pub enum ScanEvent {
    /// A path is about to be looked at; `stats` are the totals so far.
    FileScanned { path: String, stats: Stats },
    /// A dry run found `src` to be a duplicate of `dst`.
    DuplicateFound { src: String, dst: String },
    /// `src` was replaced by a hardlink to `dst`.
    Hardlinked { src: String, dst: String },
    /// `src` was replaced by a clone of `dst`.
    Reflinked { src: String, dst: String },
}

} // verus!
