//! Keeps count of the merges that were put off, and says when it is time to
//! work them off.

use vstd::prelude::*;

verus! {

/// Number of deferred merges after which the first flush is due.
pub const FIRST_THRESHOLD: usize = 4096;

/// `n` doubled, or the largest `usize` where the double does not fit.
pub open spec fn doubled(n: usize) -> usize {
    if n * 2 <= usize::MAX {
        (n * 2) as usize
    } else {
        usize::MAX
    }
}

/// Merges that involve files with hardlinks are put off until the whole
/// hardlink group is known. To keep their number bounded, all of them are
/// worked off whenever it reaches a threshold, which then doubles.
#[derive(Debug, Copy, Clone, PartialEq, Eq, Structural)]
pub struct Deferred {
    /// Merges put off since the last flush.
    pub count: usize,
    /// Count at which the next flush is due.
    pub next: usize,
}

impl Deferred {
    /// The controller after one more merge was put off, and whether a flush
    /// is due now.
    pub open spec fn spec_defer(self) -> (Deferred, bool) {
        if self.count + 1 >= self.next {
            (Deferred { count: 0, next: doubled(self.next) }, true)
        } else {
            (Deferred { count: (self.count + 1) as usize, next: self.next }, false)
        }
    }

    pub fn new() -> (r: Deferred)
        ensures
            r == (Deferred { count: 0, next: FIRST_THRESHOLD }),
    {
        Deferred { count: 0, next: FIRST_THRESHOLD }
    }

    /// Counts one more deferred merge. Returns whether all deferred merges
    /// have to be worked off now; the count then starts again from zero and
    /// the threshold doubles.
    pub fn defer(&mut self) -> (due: bool)
        ensures
            (*final(self), due) == old(self).spec_defer(),
    {
        if self.count >= self.next || self.count + 1 >= self.next {
            self.count = 0;
            self.next = if self.next <= usize::MAX / 2 {
                self.next * 2
            } else {
                usize::MAX
            };
            true
        } else {
            self.count = self.count + 1;
            false
        }
    }
}

/// The threshold never goes down. It doubles with every flush, as long as
/// the double fits, and stays as it is otherwise.
pub proof fn threshold_only_grows(d: Deferred)
    ensures
        d.spec_defer().0.next >= d.next,
        d.spec_defer().1 ==> d.spec_defer().0.next == doubled(d.next) && d.spec_defer().0.count == 0,
        d.spec_defer().1 && d.next * 2 <= usize::MAX ==> d.spec_defer().0.next == 2 * d.next,
        !d.spec_defer().1 ==> d.spec_defer().0.next == d.next && d.spec_defer().0.count == d.count
            + 1,
{
}

} // verus!
