//! The state that merging changes: the groups of paths, the totals, and the
//! reports not yet handed out.

use vstd::prelude::*;
use crate::events::ScanEvent;
use crate::file::{groups_of, FileSet, FileSetModel};
use crate::stats::Stats;

verus! {

/// Mathematical value of the records.
pub struct World {
    pub groups: Seq<FileSetModel>,
    pub stats: Stats,
    pub events: Seq<ScanEvent>,
}

/// Every fileset the scan has created, the totals, and the reports that
/// wait to be collected. Filesets are never removed: other structures refer
/// to them by their position.
#[derive(Debug)]
pub struct Records {
    pub filesets: Vec<FileSet>,
    pub stats: Stats,
    pub events: Vec<ScanEvent>,
}

impl View for Records {
    type V = World;

    open spec fn view(&self) -> World {
        World { groups: groups_of(self.filesets@), stats: self.stats, events: self.events@ }
    }
}

impl Records {
    pub fn new() -> (r: Records)
        ensures
            r@.groups == Seq::<FileSetModel>::empty(),
            r@.stats == Stats::zero(),
            r@.events == Seq::<ScanEvent>::empty(),
    {
        let r = Records { filesets: Vec::new(), stats: Stats::new(), events: Vec::new() };
        assert(r@.groups =~= Seq::<FileSetModel>::empty());
        r
    }
}

} // verus!
