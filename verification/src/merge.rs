//! The merge planner: folds the filesets of one content group into one.
//!
//! Of the filesets that hold paths, the one with the most links becomes the
//! canonical one. Every path of every other fileset is replaced on disk by a
//! link to the first canonical path, and then moved to the canonical
//! fileset. A path whose replacement fails is dropped from its fileset and
//! the planner goes on with the next one.

use vstd::prelude::*;
use crate::events::ScanEvent;
use crate::file::{groups_of, FileSet, FileSetModel};
use crate::links::{LinkOp, LinkState, LinkType};
use crate::records::{Records, World};
use crate::settings::RunMode;
use crate::stats::{capped_add, count_bytes, count_one, Stats};

verus! {

/// The group names existing filesets, and none of them twice.
pub open spec fn bucket_ok(groups: Seq<FileSetModel>, bucket: Seq<usize>) -> bool {
    &&& bucket.len() <= usize::MAX
    &&& forall|k: int| 0 <= k < bucket.len() ==> (#[trigger] bucket[k]) < groups.len()
    &&& forall|j: int, k: int| 0 <= j < k < bucket.len() ==> bucket[j] != bucket[k]
}

/// Position `p` of the group holds the canonical fileset: it has paths, no
/// fileset with paths has more links, and none before it has as many.
pub open spec fn is_canonical(groups: Seq<FileSetModel>, bucket: Seq<usize>, p: int) -> bool {
    &&& 0 <= p < bucket.len()
    &&& groups[bucket[p] as int].paths.len() > 0
    &&& forall|j: int|
        0 <= j < bucket.len() && groups[(#[trigger] bucket[j]) as int].paths.len() > 0
            ==> groups[bucket[j] as int].links() <= groups[bucket[p] as int].links()
    &&& forall|j: int|
        0 <= j < p && groups[(#[trigger] bucket[j]) as int].paths.len() > 0 ==> groups[bucket[j] as int].links()
            < groups[bucket[p] as int].links()
}

/// Position of the canonical fileset in the group, if the group has one.
pub open spec fn spec_canonical(groups: Seq<FileSetModel>, bucket: Seq<usize>) -> Option<int> {
    if exists|p: int| is_canonical(groups, bucket, p) {
        Some(choose|p: int| is_canonical(groups, bucket, p))
    } else {
        None
    }
}

/// A group has at most one canonical fileset.
pub proof fn canonical_is_unique(groups: Seq<FileSetModel>, bucket: Seq<usize>, p: int, q: int)
    requires
        is_canonical(groups, bucket, p),
        is_canonical(groups, bucket, q),
    ensures
        p == q,
        spec_canonical(groups, bucket) == Some(p),
{
    if p < q {
        assert(groups[bucket[p] as int].links() < groups[bucket[q] as int].links());
    }
    if q < p {
        assert(groups[bucket[q] as int].links() < groups[bucket[p] as int].links());
    }
    let c = choose|c: int| is_canonical(groups, bucket, c);
    if p < c {
        assert(groups[bucket[p] as int].links() < groups[bucket[c] as int].links());
    }
    if c < p {
        assert(groups[bucket[c] as int].links() < groups[bucket[p] as int].links());
    }
}

/// No fileset of the group holds a path.
pub open spec fn all_empty(groups: Seq<FileSetModel>, bucket: Seq<usize>) -> bool {
    forall|j: int| 0 <= j < bucket.len() ==> groups[(#[trigger] bucket[j]) as int].paths.len() == 0
}

/// The groups after fileset `from` lost its first path.
pub open spec fn drop_first(groups: Seq<FileSetModel>, from: int) -> Seq<FileSetModel> {
    groups.update(
        from,
        FileSetModel { max_hardlinks: groups[from].max_hardlinks, paths: groups[from].paths.remove(0) },
    )
}

/// The groups after the first path of fileset `from` went to the end of
/// fileset `to`.
pub open spec fn move_first(groups: Seq<FileSetModel>, from: int, to: int) -> Seq<FileSetModel> {
    drop_first(
        groups.update(
            to,
            FileSetModel {
                max_hardlinks: groups[to].max_hardlinks,
                paths: groups[to].paths.push(groups[from].paths[0]),
            },
        ),
        from,
    )
}

/// Finds the canonical fileset of a group; `None` when no fileset of the
/// group holds a path.
pub fn pick_canonical(filesets: &Vec<FileSet>, bucket: &Vec<usize>) -> (r: Option<usize>)
    requires
        bucket_ok(groups_of(filesets@), bucket@),
    ensures
        match r {
            Some(p) => is_canonical(groups_of(filesets@), bucket@, p as int),
            None => all_empty(groups_of(filesets@), bucket@),
        },
        r is Some <==> spec_canonical(groups_of(filesets@), bucket@) is Some,
        r matches Some(p) ==> spec_canonical(groups_of(filesets@), bucket@) == Some(p as int),
{
    let ghost groups = groups_of(filesets@);
    let mut best: Option<usize> = None;
    let mut best_links: u64 = 0;
    let mut i: usize = 0;
    while i < bucket.len()
        invariant
            0 <= i <= bucket@.len(),
            groups == groups_of(filesets@),
            bucket_ok(groups, bucket@),
            match best {
                Some(p) => {
                    &&& p < i
                    &&& groups[bucket@[p as int] as int].paths.len() > 0
                    &&& best_links == groups[bucket@[p as int] as int].links()
                    &&& forall|j: int|
                        0 <= j < i && groups[(#[trigger] bucket@[j]) as int].paths.len() > 0
                            ==> groups[bucket@[j] as int].links() <= best_links
                    &&& forall|j: int|
                        0 <= j < p && groups[(#[trigger] bucket@[j]) as int].paths.len() > 0
                            ==> groups[bucket@[j] as int].links() < best_links
                },
                None => forall|j: int|
                    0 <= j < i ==> groups[(#[trigger] bucket@[j]) as int].paths.len() == 0,
            },
        decreases bucket@.len() - i,
    {
        let set = &filesets[bucket[i]];
        if set.paths.len() > 0 {
            let links = set.links();
            if best.is_none() || links > best_links {
                best = Some(i);
                best_links = links;
            }
        }
        i += 1;
    }
    proof {
        match best {
            Some(p) => {
                canonical_is_unique(groups, bucket@, p as int, p as int);
            },
            None => {
                assert forall|q: int| !is_canonical(groups, bucket@, q) by {
                    if 0 <= q < bucket@.len() {
                        assert(groups[bucket@[q] as int].paths.len() == 0);
                    }
                }
            },
        }
    }
    best
}

/// Where the merging of one group stands.
#[derive(Debug, Copy, Clone, PartialEq, Eq, Structural)]
pub struct Merge {
    /// The fileset that receives the paths.
    pub canonical: usize,
    /// Position in the group of the fileset that is being emptied.
    pub pos: usize,
    /// The replacement under way for the first path of that fileset.
    pub link: Option<LinkState>,
}

impl Merge {
    /// The planner can go on from here.
    pub open spec fn wf(self, groups: Seq<FileSetModel>, bucket: Seq<usize>) -> bool {
        &&& bucket_ok(groups, bucket)
        &&& self.canonical < groups.len()
        &&& groups[self.canonical as int].paths.len() > 0
        &&& self.pos <= bucket.len()
        &&& self.link matches Some(state) ==> {
            &&& self.pos < bucket.len()
            &&& bucket[self.pos as int] != self.canonical
            &&& groups[bucket[self.pos as int] as int].paths.len() > 0
            &&& state.spec_op() is Some
        }
    }

    /// The path that every other path of the group becomes a link to.
    pub open spec fn spec_source(self, groups: Seq<FileSetModel>) -> String {
        groups[self.canonical as int].paths[0]
    }

    /// The path that is being replaced.
    pub open spec fn spec_dest(self, groups: Seq<FileSetModel>, bucket: Seq<usize>) -> String {
        groups[bucket[self.pos as int] as int].paths[0]
    }

    /// Size of the pile of work left: positions to visit, and paths in the
    /// fileset at the current position.
    pub open spec fn paths_here(self, groups: Seq<FileSetModel>, bucket: Seq<usize>) -> nat {
        if self.pos < bucket.len() {
            groups[bucket[self.pos as int] as int].paths.len()
        } else {
            0
        }
    }
}

/// The state in which the merging of a group starts; none when there is
/// nothing to merge: the mode forbids it, or no fileset of the group holds a
/// path.
pub open spec fn spec_begin(groups: Seq<FileSetModel>, bucket: Seq<usize>, mode: RunMode) -> Option<
    Merge,
> {
    if mode == RunMode::DryRunNoMerging {
        None
    } else {
        match spec_canonical(groups, bucket) {
            Some(p) => Some(Merge { canonical: bucket[p], pos: 0, link: None }),
            None => None,
        }
    }
}

/// The report for a path that was replaced by a link of type `kind`.
pub open spec fn linked_event(kind: LinkType, src: String, dst: String) -> ScanEvent {
    match kind {
        LinkType::Hardlink => ScanEvent::Hardlinked { src, dst },
        LinkType::Reflink => ScanEvent::Reflinked { src, dst },
    }
}

/// The totals after a path of `size` bytes was replaced by a link of type
/// `kind`: clones are counted, hardlinks are not.
pub open spec fn linked_stats(stats: Stats, kind: LinkType, size: u64) -> Stats {
    match kind {
        LinkType::Hardlink => stats,
        LinkType::Reflink => Stats {
            reflinks: capped_add(stats.reflinks, 1),
            bytes_saved_by_reflinks: capped_add(stats.bytes_saved_by_reflinks, size as int),
            ..stats
        },
    }
}

/// Runs the planner until it needs a filesystem call or has gone through the
/// group: the state it stops in, the records as they are then, and the call
/// it needs, if any.
///
/// Filesets without paths and the canonical one are passed over. A path that
/// is the canonical path itself is already where it belongs and is only
/// taken out of its old fileset. In a dry run every other path is reported
/// and moved. In the other modes the replacement of the path starts.
pub open spec fn spec_proceed(m: Merge, w: World, bucket: Seq<usize>, mode: RunMode) -> (
    Merge,
    World,
    Option<LinkOp>,
)
    decreases bucket.len() - m.pos, m.paths_here(w.groups, bucket),
    when m.wf(w.groups, bucket) && m.link is None
{
    if m.pos >= bucket.len() || mode == RunMode::DryRunNoMerging {
        (m, w, None)
    } else {
        let victim = bucket[m.pos as int] as int;
        if victim == m.canonical || w.groups[victim].paths.len() == 0 {
            spec_proceed(Merge { pos: (m.pos + 1) as usize, ..m }, w, bucket, mode)
        } else {
            let dest = m.spec_dest(w.groups, bucket);
            let source = m.spec_source(w.groups);
            if dest@ == source@ {
                spec_proceed(m, World { groups: drop_first(w.groups, victim), ..w }, bucket, mode)
            } else {
                match LinkState::spec_start(mode) {
                    Some(state) => (Merge { link: Some(state), ..m }, w, state.spec_op()),
                    None => spec_proceed(
                        m,
                        World {
                            groups: move_first(w.groups, victim, m.canonical as int),
                            events: w.events.push(ScanEvent::DuplicateFound { src: dest, dst: source }),
                            ..w
                        },
                        bucket,
                        mode,
                    ),
                }
            }
        }
    }
}

/// Takes in the outcome of the call that the planner asked for and runs it
/// on. While the replacement is under way, the next call is asked for. Once
/// it has succeeded, the path is moved to the canonical fileset and
/// reported; once it has failed, the path is dropped.
pub open spec fn spec_completed(
    m: Merge,
    w: World,
    bucket: Seq<usize>,
    mode: RunMode,
    size: u64,
    ok: bool,
) -> (Merge, World, Option<LinkOp>) {
    let victim = bucket[m.pos as int] as int;
    let dest = m.spec_dest(w.groups, bucket);
    let source = m.spec_source(w.groups);
    let idle = Merge { link: None, ..m };
    match m.link->0.spec_advance(ok) {
        LinkState::Linked(kind) => spec_proceed(
            idle,
            World {
                groups: move_first(w.groups, victim, m.canonical as int),
                stats: linked_stats(w.stats, kind, size),
                events: w.events.push(linked_event(kind, dest, source)),
            },
            bucket,
            mode,
        ),
        LinkState::Failed => spec_proceed(
            idle,
            World { groups: drop_first(w.groups, victim), ..w },
            bucket,
            mode,
        ),
        state => (Merge { link: Some(state), ..m }, w, state.spec_op()),
    }
}

/// In a mode that leaves the disk alone, a group is merged without a single
/// filesystem call: the planner runs through to the end of the group.
pub proof fn dry_merge_needs_no_call(m: Merge, w: World, bucket: Seq<usize>, mode: RunMode)
    requires
        m.wf(w.groups, bucket),
        m.link is None,
        !mode.touches_disk(),
    ensures
        spec_proceed(m, w, bucket, mode).2 is None,
        spec_proceed(m, w, bucket, mode).0.link is None,
    decreases bucket.len() - m.pos, m.paths_here(w.groups, bucket),
{
    if m.pos >= bucket.len() || mode == RunMode::DryRunNoMerging {
    } else {
        let victim = bucket[m.pos as int] as int;
        if victim == m.canonical || w.groups[victim].paths.len() == 0 {
            dry_merge_needs_no_call(Merge { pos: (m.pos + 1) as usize, ..m }, w, bucket, mode);
        } else {
            let dest = m.spec_dest(w.groups, bucket);
            let source = m.spec_source(w.groups);
            if dest@ == source@ {
                dry_merge_needs_no_call(
                    m,
                    World { groups: drop_first(w.groups, victim), ..w },
                    bucket,
                    mode,
                );
            } else {
                dry_merge_needs_no_call(
                    m,
                    World {
                        groups: move_first(w.groups, victim, m.canonical as int),
                        events: w.events.push(ScanEvent::DuplicateFound { src: dest, dst: source }),
                        ..w
                    },
                    bucket,
                    mode,
                );
            }
        }
    }
}

/// Every fileset that the planner has passed is the canonical one or holds
/// no path any more.
pub open spec fn behind_is_done(m: Merge, groups: Seq<FileSetModel>, bucket: Seq<usize>) -> bool {
    forall|k: int|
        0 <= k < m.pos && k < bucket.len() ==> (#[trigger] bucket[k]) == m.canonical
            || groups[bucket[k] as int].paths.len() == 0
}

/// When the planner has gone through a group, the canonical fileset is the
/// only one of the group that still holds paths. All the while the
/// canonical fileset stays the same and keeps its first path, so that every
/// link of the group is made to one and the same file.
pub proof fn finished_merge_leaves_one_set(m: Merge, w: World, bucket: Seq<usize>, mode: RunMode)
    requires
        m.wf(w.groups, bucket),
        m.link is None,
        mode != RunMode::DryRunNoMerging,
        behind_is_done(m, w.groups, bucket),
    ensures
        ({
            let end = spec_proceed(m, w, bucket, mode);
            &&& end.0.canonical == m.canonical
            &&& end.1.groups.len() == w.groups.len()
            &&& end.1.groups[m.canonical as int].paths.len() > 0
            &&& end.1.groups[m.canonical as int].paths[0] == w.groups[m.canonical as int].paths[0]
            &&& end.2 is None ==> forall|k: int|
                0 <= k < bucket.len() ==> (#[trigger] bucket[k]) == m.canonical
                    || end.1.groups[bucket[k] as int].paths.len() == 0
            &&& end.2 is Some ==> behind_is_done(end.0, end.1.groups, bucket)
        }),
    decreases bucket.len() - m.pos, m.paths_here(w.groups, bucket),
{
    if m.pos >= bucket.len() {
    } else {
        let victim = bucket[m.pos as int] as int;
        if victim == m.canonical || w.groups[victim].paths.len() == 0 {
            let next = Merge { pos: (m.pos + 1) as usize, ..m };
            finished_merge_leaves_one_set(next, w, bucket, mode);
        } else {
            let dest = m.spec_dest(w.groups, bucket);
            let source = m.spec_source(w.groups);
            if dest@ == source@ {
                let after = World { groups: drop_first(w.groups, victim), ..w };
                assert(behind_is_done(m, after.groups, bucket)) by {
                    assert forall|k: int| 0 <= k < m.pos && k < bucket.len() implies (
                    #[trigger] bucket[k]) == m.canonical || after.groups[bucket[k] as int].paths.len()
                        == 0 by {
                        assert(bucket[k] != bucket[m.pos as int]);
                    }
                }
                finished_merge_leaves_one_set(m, after, bucket, mode);
            } else if LinkState::spec_start(mode) is None {
                let after = World {
                    groups: move_first(w.groups, victim, m.canonical as int),
                    events: w.events.push(ScanEvent::DuplicateFound { src: dest, dst: source }),
                    ..w
                };
                assert(behind_is_done(m, after.groups, bucket)) by {
                    assert forall|k: int| 0 <= k < m.pos && k < bucket.len() implies (
                    #[trigger] bucket[k]) == m.canonical || after.groups[bucket[k] as int].paths.len()
                        == 0 by {
                        assert(bucket[k] != bucket[m.pos as int]);
                    }
                }
                finished_merge_leaves_one_set(m, after, bucket, mode);
            }
        }
    }
}

impl Records {
    /// Takes the first path out of fileset `from`.
    pub fn drop_first(&mut self, from: usize)
        requires
            from < old(self)@.groups.len(),
            old(self)@.groups[from as int].paths.len() > 0,
        ensures
            final(self)@ == (World { groups: drop_first(old(self)@.groups, from as int), ..old(self)@ }),
    {
        self.filesets[from].paths.remove(0);
        assert(self@.groups =~= drop_first(old(self)@.groups, from as int));
    }

    /// Moves the first path of fileset `from` to the end of fileset `to`.
    /// The path is entered there before it is taken out here.
    pub fn move_first(&mut self, from: usize, to: usize)
        requires
            from < old(self)@.groups.len(),
            to < old(self)@.groups.len(),
            from != to,
            old(self)@.groups[from as int].paths.len() > 0,
        ensures
            final(self)@ == (World {
                groups: move_first(old(self)@.groups, from as int, to as int),
                ..old(self)@
            }),
    {
        let path = self.filesets[from].paths[0].clone();
        self.filesets[to].paths.push(path);
        self.filesets[from].paths.remove(0);
        assert(self@.groups =~= move_first(old(self)@.groups, from as int, to as int));
    }
}

impl Merge {
    /// Starts merging a group. `None` when there is nothing to merge: the
    /// mode forbids it, or no fileset of the group holds a path.
    pub fn begin(records: &Records, bucket: &Vec<usize>, mode: RunMode) -> (r: Option<Merge>)
        requires
            bucket_ok(records@.groups, bucket@),
        ensures
            r == spec_begin(records@.groups, bucket@, mode),
            r matches Some(m) ==> m.wf(records@.groups, bucket@) && m.link is None
                && is_canonical(records@.groups, bucket@, spec_canonical(records@.groups, bucket@)->0),
            r is None ==> mode == RunMode::DryRunNoMerging || all_empty(records@.groups, bucket@),
    {
        if matches!(mode, RunMode::DryRunNoMerging) {
            return None;
        }
        match pick_canonical(&records.filesets, bucket) {
            Some(p) => Some(Merge { canonical: bucket[p], pos: 0, link: None }),
            None => None,
        }
    }

    /// The path that the paths of the group become links to.
    pub fn source(&self, records: &Records) -> (r: String)
        requires
            self.canonical < records@.groups.len(),
            records@.groups[self.canonical as int].paths.len() > 0,
        ensures
            r == self.spec_source(records@.groups),
    {
        records.filesets[self.canonical].paths[0].clone()
    }

    /// The path that is being replaced.
    pub fn dest(&self, records: &Records, bucket: &Vec<usize>) -> (r: String)
        requires
            self.pos < bucket@.len(),
            bucket@[self.pos as int] < records@.groups.len(),
            records@.groups[bucket@[self.pos as int] as int].paths.len() > 0,
        ensures
            r == self.spec_dest(records@.groups, bucket@),
    {
        records.filesets[bucket[self.pos]].paths[0].clone()
    }

    /// Goes on merging until a filesystem call is needed, which is
    /// returned, or the group is done.
    pub fn proceed(&mut self, records: &mut Records, bucket: &Vec<usize>, mode: RunMode) -> (r: Option<
        LinkOp,
    >)
        requires
            old(self).wf(old(records)@.groups, bucket@),
            old(self).link is None,
        ensures
            (*final(self), final(records)@, r) == spec_proceed(
                *old(self),
                old(records)@,
                bucket@,
                mode,
            ),
            final(self).wf(final(records)@.groups, bucket@),
            final(self).canonical == old(self).canonical,
            r is Some <==> final(self).link is Some,
            final(records)@.groups.len() == old(records)@.groups.len(),
    {
        loop
            invariant
                self.wf(records@.groups, bucket@),
                self.link is None,
                self.canonical == old(self).canonical,
                records@.groups.len() == old(records)@.groups.len(),
                spec_proceed(*self, records@, bucket@, mode) == spec_proceed(
                    *old(self),
                    old(records)@,
                    bucket@,
                    mode,
                ),
            decreases bucket@.len() - self.pos, self.paths_here(records@.groups, bucket@),
        {
            if self.pos >= bucket.len() || matches!(mode, RunMode::DryRunNoMerging) {
                return None;
            }
            let victim = bucket[self.pos];
            if victim == self.canonical || records.filesets[victim].paths.len() == 0 {
                self.pos = self.pos + 1;
                continue ;
            }
            let dest = self.dest(records, bucket);
            let source = self.source(records);
            if dest == source {
                records.drop_first(victim);
                continue ;
            }
            match LinkState::start(mode) {
                Some(state) => {
                    self.link = Some(state);
                    return state.op();
                },
                None => {
                    records.move_first(victim, self.canonical);
                    records.events.push(ScanEvent::DuplicateFound { src: dest, dst: source });
                },
            }
        }
    }

    /// Takes in how the call went that the planner asked for, and goes on.
    /// `size` is the length of the files of this group.
    pub fn completed(
        &mut self,
        records: &mut Records,
        bucket: &Vec<usize>,
        mode: RunMode,
        size: u64,
        ok: bool,
    ) -> (r: Option<LinkOp>)
        requires
            old(self).wf(old(records)@.groups, bucket@),
            old(self).link is Some,
        ensures
            (*final(self), final(records)@, r) == spec_completed(
                *old(self),
                old(records)@,
                bucket@,
                mode,
                size,
                ok,
            ),
            final(self).wf(final(records)@.groups, bucket@),
            final(self).canonical == old(self).canonical,
            r is Some <==> final(self).link is Some,
            final(records)@.groups.len() == old(records)@.groups.len(),
    {
        let state = match self.link {
            Some(state) => state.advance(ok),
            None => LinkState::Failed,
        };
        let victim = bucket[self.pos];
        match state {
            LinkState::Linked(kind) => {
                let dest = self.dest(records, bucket);
                let source = self.source(records);
                records.move_first(victim, self.canonical);
                match kind {
                    LinkType::Hardlink => {
                        records.events.push(ScanEvent::Hardlinked { src: dest, dst: source });
                    },
                    LinkType::Reflink => {
                        records.stats.reflinks = count_one(records.stats.reflinks);
                        records.stats.bytes_saved_by_reflinks = count_bytes(
                            records.stats.bytes_saved_by_reflinks,
                            size,
                        );
                        records.events.push(ScanEvent::Reflinked { src: dest, dst: source });
                    },
                }
                self.link = None;
                self.proceed(records, bucket, mode)
            },
            LinkState::Failed => {
                records.drop_first(victim);
                self.link = None;
                self.proceed(records, bucket, mode)
            },
            _ => {
                self.link = Some(state);
                state.op()
            },
        }
    }
}

} // verus!
