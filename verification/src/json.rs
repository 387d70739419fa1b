//! What of a scan goes into its report: the groups of paths that share
//! their content.

use vstd::prelude::*;
use crate::file::{groups_of, FileSet, FileSetModel};

verus! {

/// The path lists of the filesets that hold at least one path, in order.
pub open spec fn kept_sets(sets: Seq<FileSetModel>) -> Seq<Seq<String>>
    decreases sets.len(),
{
    if sets.len() == 0 {
        Seq::empty()
    } else if sets.last().paths.len() > 0 {
        kept_sets(sets.drop_last()).push(sets.last().paths)
    } else {
        kept_sets(sets.drop_last())
    }
}

/// Whether one of the path lists holds more than one path.
pub open spec fn shares(sets: Seq<Seq<String>>) -> bool {
    exists|i: int| 0 <= i < sets.len() && (#[trigger] sets[i]).len() > 1
}

/// The groups that are reported: of every group the filesets that hold
/// paths, and only the groups in which some fileset holds more than one.
pub open spec fn reported(groups: Seq<Seq<FileSetModel>>) -> Seq<Seq<Seq<String>>>
    decreases groups.len(),
{
    if groups.len() == 0 {
        Seq::empty()
    } else if shares(kept_sets(groups.last())) {
        reported(groups.drop_last()).push(kept_sets(groups.last()))
    } else {
        reported(groups.drop_last())
    }
}

/// The values of a list of groups of filesets.
pub open spec fn dupes_view(dupes: Seq<Vec<FileSet>>) -> Seq<Seq<FileSetModel>> {
    Seq::new(dupes.len(), |i: int| groups_of(dupes[i]@))
}

/// The values of a list of path lists.
pub open spec fn sets_view(sets: Seq<Vec<String>>) -> Seq<Seq<String>> {
    Seq::new(sets.len(), |i: int| sets[i]@)
}

/// The values of a list of groups of path lists.
pub open spec fn report_view(report: Seq<Vec<Vec<String>>>) -> Seq<Seq<Seq<String>>> {
    Seq::new(report.len(), |i: int| sets_view(report[i]@))
}

/// Copies a list of paths.
fn copy_paths(paths: &Vec<String>) -> (r: Vec<String>)
    ensures
        r@ == paths@,
{
    let mut out: Vec<String> = Vec::new();
    let mut i: usize = 0;
    while i < paths.len()
        invariant
            0 <= i <= paths@.len(),
            out@ == paths@.take(i as int),
        decreases paths@.len() - i,
    {
        out.push(paths[i].clone());
        assert(out@ =~= paths@.take(i + 1));
        i += 1;
    }
    assert(out@ =~= paths@);
    out
}

/// The path lists of one group that are reported, and whether one of them
/// holds more than one path.
fn group_report(sets: &Vec<FileSet>) -> (r: (Vec<Vec<String>>, bool))
    ensures
        sets_view(r.0@) == kept_sets(groups_of(sets@)),
        r.1 == shares(kept_sets(groups_of(sets@))),
{
    let ghost all = groups_of(sets@);
    let mut kept: Vec<Vec<String>> = Vec::new();
    let mut shared = false;
    let mut i: usize = 0;
    assert(all.take(0) =~= Seq::<FileSetModel>::empty());
    assert(sets_view(kept@) =~= Seq::<Seq<String>>::empty());
    while i < sets.len()
        invariant
            0 <= i <= sets@.len(),
            all == groups_of(sets@),
            sets_view(kept@) == kept_sets(all.take(i as int)),
            shared == shares(kept_sets(all.take(i as int))),
        decreases sets@.len() - i,
    {
        let ghost before = kept_sets(all.take(i as int));
        let ghost list = sets_view(kept@);
        assert(all.take(i + 1).drop_last() =~= all.take(i as int));
        assert(all.take(i + 1).last() == sets@[i as int]@);
        if sets[i].paths.len() > 0 {
            let paths = copy_paths(&sets[i].paths);
            if paths.len() > 1 {
                shared = true;
            }
            kept.push(paths);
            proof {
                let after = kept_sets(all.take(i + 1));
                assert(sets_view(kept@) =~= list.push(sets@[i as int].paths@));
                assert(after == before.push(sets@[i as int].paths@));
                if shares(before) {
                    let w = choose|w: int| 0 <= w < before.len() && (#[trigger] before[w]).len() > 1;
                    assert(after[w] == before[w]);
                }
                if sets@[i as int].paths@.len() > 1 {
                    assert(after[before.len() as int].len() > 1);
                }
                if shares(after) {
                    let w = choose|w: int| 0 <= w < after.len() && (#[trigger] after[w]).len() > 1;
                    if w < before.len() {
                        assert(before[w] == after[w]);
                    }
                }
            }
        }
        i += 1;
    }
    assert(all.take(sets@.len() as int) =~= all);
    (kept, shared)
}

/// The groups of paths that go into a report.
pub fn report_groups(dupes: &Vec<Vec<FileSet>>) -> (r: Vec<Vec<Vec<String>>>)
    ensures
        report_view(r@) == reported(dupes_view(dupes@)),
{
    let ghost all = dupes_view(dupes@);
    let mut out: Vec<Vec<Vec<String>>> = Vec::new();
    let mut i: usize = 0;
    assert(all.take(0) =~= Seq::<Seq<FileSetModel>>::empty());
    assert(report_view(out@) =~= Seq::<Seq<Seq<String>>>::empty());
    while i < dupes.len()
        invariant
            0 <= i <= dupes@.len(),
            all == dupes_view(dupes@),
            report_view(out@) == reported(all.take(i as int)),
        decreases dupes@.len() - i,
    {
        let ghost list = report_view(out@);
        assert(all.take(i + 1).drop_last() =~= all.take(i as int));
        assert(all.take(i + 1).last() == groups_of(dupes@[i as int]@));
        let (kept, shared) = group_report(&dupes[i]);
        if shared {
            out.push(kept);
            assert(report_view(out@) =~= list.push(sets_view(kept@)));
        }
        i += 1;
    }
    assert(all.take(dupes@.len() as int) =~= all);
    out
}

} // verus!
