//! Counters that a scan keeps.

use vstd::prelude::*;

verus! {

/// Running totals of a scan. A counter that reaches the largest value of its
/// type stays there.
#[derive(Debug, Copy, Clone, PartialEq, Eq, Structural)]
pub struct Stats {
    pub added: usize,
    pub skipped: usize,
    pub dupes: usize,
    pub bytes_deduplicated: usize,
    pub hardlinks: usize,
    pub bytes_saved_by_hardlinks: usize,
    pub reflinks: usize,
    pub bytes_saved_by_reflinks: usize,
}

/// `x + n`, or the largest `usize` where the sum does not fit.
pub open spec fn capped_add(x: usize, n: int) -> usize {
    if x + n <= usize::MAX {
        (x + n) as usize
    } else {
        usize::MAX
    }
}

/// Adds one to a counter.
pub fn count_one(x: usize) -> (r: usize)
    ensures
        r == capped_add(x, 1),
{
    if x < usize::MAX {
        x + 1
    } else {
        x
    }
}

/// Adds a number of bytes to a counter.
pub fn count_bytes(x: usize, n: u64) -> (r: usize)
    ensures
        r == capped_add(x, n as int),
{
    let room: usize = usize::MAX - x;
    if n <= room as u64 {
        x + n as usize
    } else {
        usize::MAX
    }
}

impl Stats {
    /// All counters at zero.
    pub open spec fn zero() -> Stats {
        Stats {
            added: 0,
            skipped: 0,
            dupes: 0,
            bytes_deduplicated: 0,
            hardlinks: 0,
            bytes_saved_by_hardlinks: 0,
            reflinks: 0,
            bytes_saved_by_reflinks: 0,
        }
    }

    pub fn new() -> (r: Stats)
        ensures
            r == Stats::zero(),
    {
        Stats {
            added: 0,
            skipped: 0,
            dupes: 0,
            bytes_deduplicated: 0,
            hardlinks: 0,
            bytes_saved_by_hardlinks: 0,
            reflinks: 0,
            bytes_saved_by_reflinks: 0,
        }
    }
}

impl Default for Stats {
    fn default() -> (r: Stats)
        ensures
            r == Stats::zero(),
    {
        Stats::new()
    }
}

} // verus!
