//! What a scan is allowed to do, and how it is told to stop.

use vstd::prelude::*;
use std::sync::atomic::AtomicU32;
use std::sync::atomic::Ordering;

verus! {

/// What happens to the duplicates that a scan finds.
#[derive(Debug, Copy, Clone, PartialEq, Eq, Structural)]
pub enum RunMode {
    /// Merges paths in memory, but not on disk, and reports each duplicate.
    DryRun,
    /// Like a dry run, but groups are left as they were found.
    DryRunNoMerging,
    /// Replaces duplicates by hardlinks.
    Hardlink,
    /// Replaces duplicates by copy-on-write clones, or not at all.
    Reflink,
    /// Tries a copy-on-write clone first and falls back to a hardlink.
    ReflinkOrHardlink,
}

impl RunMode {
    /// Whether this mode ever changes the filesystem.
    pub open spec fn spec_touches_disk(self) -> bool {
        self == RunMode::Hardlink || self == RunMode::Reflink || self == RunMode::ReflinkOrHardlink
    }

    #[verifier::when_used_as_spec(spec_touches_disk)]
    pub fn touches_disk(self) -> (r: bool)
        ensures
            r == self.spec_touches_disk(),
    {
        match self {
            RunMode::Hardlink | RunMode::Reflink | RunMode::ReflinkOrHardlink => true,
            RunMode::DryRun | RunMode::DryRunNoMerging => false,
        }
    }
}

#[derive(Debug)]
pub struct Settings {
    /// Ignore files smaller than a filesystem block: merging them is unlikely
    /// to save space.
    pub ignore_small: bool,
    pub run_mode: RunMode,
    /// Counts requests to stop. At 1 the scan goes on to the final merge, at
    /// 2 or more it gives that up as well.
    pub break_on: Option<&'static AtomicU32>,
}

impl Settings {
    /// How often the scan has been asked to stop; 0 when no counter is set.
    pub fn breaks(&self) -> (r: u32)
        ensures
            self.break_on is None ==> r == 0,
    {
        if let Some(break_on) = self.break_on {
            break_on.load(Ordering::SeqCst)
        } else {
            0
        }
    }
}

} // verus!
