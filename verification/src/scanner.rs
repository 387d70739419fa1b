//! The scanner: takes in directory entries one by one, files them by inode
//! and by content, and merges what turns out to be the same.
//!
//! The scanner never touches the filesystem. Whenever it needs a chunk of a
//! file or a change on disk it stops and says so in an [`Action`]; the caller
//! does what is asked and hands the outcome back, and the scanner goes on
//! from where it stopped.

use vstd::prelude::*;
use std::collections::HashMap;
use crate::deferred::Deferred;
use crate::events::ScanEvent;
use crate::file::{key_compare, FileContent, FileSet, FileSetModel, KeyModel};
use crate::gate::{classify, inode_key, inode_key_of, spec_classify, too_small, Entry};
use crate::hasher::{data_view, Chunk, Comparison};
use crate::index::{
    found_means_same_content, keys_wf, middle, same_content, search_ok, spec_insert, spec_join, spec_search, spec_supply, ContentIndex, EntryModel,
    Search, SearchModel, SearchStep,
};
use crate::links::LinkOp;
use crate::merge::{
    bucket_ok, dry_merge_needs_no_call, spec_begin, spec_completed, spec_proceed, Merge,
};
use crate::metadata::{FileKind, FileStat, Metadata};
use crate::paths::{file_name, file_name_of, temp_path, temp_path_of};
use crate::queue::{order_key, DirQueue, QueuedDir};
use crate::records::{Records, World};
use crate::settings::{RunMode, Settings};
use crate::stats::{capped_add, count_bytes, count_one, Stats};

verus! {

/// What the caller has to do before the scanner can go on. Paths are given
/// as the scanner received them.
#[derive(Debug, PartialEq, Eq)]
pub enum Action {
    /// Nothing: the scanner is ready for the next entry.
    Idle,
    /// Read `size` bytes at `offset` from each of the files named, and hand
    /// them to `supply`.
    Read { a: Option<String>, b: Option<String>, offset: u64, size: u64 },
    /// Clone `source` copy-on-write at `temp`, which does not exist.
    Clone { source: String, temp: String },
    /// Create a hardlink to `source` at `temp`, which does not exist.
    HardLink { source: String, temp: String },
    /// Rename `temp` over `dest`.
    Rename { temp: String, dest: String },
    /// Remove `temp` if it exists.
    Remove { temp: String },
}

/// Mathematical value of an action.
pub enum ActionModel {
    Idle,
    Read { a: Option<Seq<char>>, b: Option<Seq<char>>, offset: u64, size: u64 },
    Clone { source: Seq<char>, temp: Seq<char> },
    HardLink { source: Seq<char>, temp: Seq<char> },
    Rename { temp: Seq<char>, dest: Seq<char> },
    Remove { temp: Seq<char> },
}

/// The text of a path that may be absent.
pub open spec fn text_of(path: Option<String>) -> Option<Seq<char>> {
    match path {
        Some(p) => Some(p@),
        None => None,
    }
}

impl View for Action {
    type V = ActionModel;

    open spec fn view(&self) -> ActionModel {
        match *self {
            Action::Idle => ActionModel::Idle,
            Action::Read { a, b, offset, size } => ActionModel::Read {
                a: text_of(a),
                b: text_of(b),
                offset,
                size,
            },
            Action::Clone { source, temp } => ActionModel::Clone { source: source@, temp: temp@ },
            Action::HardLink { source, temp } => ActionModel::HardLink {
                source: source@,
                temp: temp@,
            },
            Action::Rename { temp, dest } => ActionModel::Rename { temp: temp@, dest: dest@ },
            Action::Remove { temp } => ActionModel::Remove { temp: temp@ },
        }
    }
}

impl ActionModel {
    /// Whether carrying out the action changes the filesystem.
    pub open spec fn touches_disk(self) -> bool {
        self is Clone || self is HardLink || self is Rename || self is Remove
    }
}

/// The merging of content groups that is under way.
#[derive(Debug, Copy, Clone, PartialEq, Eq, Structural)]
pub struct MergeJob {
    /// Position in the index of the group that is being merged.
    pub bucket: usize,
    /// Whether the groups after this one are merged as well.
    pub flush: bool,
    /// How far the merging of the group has got; `None` before it starts.
    pub merge: Option<Merge>,
}

/// Mathematical value of the work in progress.
pub enum TaskModel {
    Idle,
    Search(SearchModel),
    Merge(MergeJob),
}

/// What the scanner is in the middle of.
#[derive(Debug)]
pub enum Task {
    Idle,
    Search(Search),
    Merge(MergeJob),
}

impl View for Task {
    type V = TaskModel;

    open spec fn view(&self) -> TaskModel {
        match *self {
            Task::Idle => TaskModel::Idle,
            Task::Search(s) => TaskModel::Search(s@),
            Task::Merge(job) => TaskModel::Merge(job),
        }
    }
}

/// Mathematical value of a scanner.
pub struct ScannerModel {
    /// Fileset of every inode seen, by `inode_key`.
    pub inodes: Map<u128, usize>,
    /// The content index.
    pub index: Seq<EntryModel>,
    /// Directories waiting to be read.
    pub queue: Seq<QueuedDir>,
    /// Filesets, totals and reports.
    pub world: World,
    /// File names that are not scanned.
    pub exclude: Seq<String>,
    pub ignore_small: bool,
    pub mode: RunMode,
    pub deferred: Deferred,
    pub task: TaskModel,
}

/// Every fileset of the group has exactly one link.
pub open spec fn all_single(groups: Seq<FileSetModel>, bucket: Seq<usize>) -> bool {
    forall|k: int| 0 <= k < bucket.len() ==> groups[(#[trigger] bucket[k]) as int].links() == 1
}

/// No group of the index names this fileset.
pub open spec fn fresh(index: Seq<EntryModel>, fileset: usize) -> bool {
    forall|i: int, k: int|
        0 <= i < index.len() && 0 <= k < index[i].filesets.len() ==> (#[trigger] index[i].filesets[k])
            != fileset
}

/// No fileset belongs to two groups, or twice to one.
pub open spec fn owned_once(index: Seq<EntryModel>) -> bool {
    forall|i: int, k: int, j: int, l: int|
        0 <= i < index.len() && 0 <= k < index[i].filesets.len() && 0 <= j < index.len() && 0 <= l
            < index[j].filesets.len() && (i != j || k != l) ==> (#[trigger] index[i].filesets[k])
            != (#[trigger] index[j].filesets[l])
}

/// The parts of a scanner fit together: every group names filesets that
/// exist, no fileset belongs to two groups, every known inode leads to a
/// fileset that exists, the ledgers are in step with their files, and the
/// work in progress is in order.
pub open spec fn model_wf(m: ScannerModel) -> bool {
    &&& m.index.len() <= usize::MAX
    &&& m.world.groups.len() <= usize::MAX
    &&& keys_wf(m.index)
    &&& owned_once(m.index)
    &&& forall|i: int| 0 <= i < m.index.len() ==> bucket_ok(m.world.groups, (#[trigger] m.index[i]).filesets)
    &&& forall|k: u128| m.inodes.contains_key(k) ==> (#[trigger] m.inodes[k]) < m.world.groups.len()
    &&& match m.task {
        TaskModel::Idle => true,
        TaskModel::Search(s) => {
            &&& search_ok(m.index, s)
            &&& s.fileset < m.world.groups.len()
            &&& fresh(m.index, s.fileset)
        },
        TaskModel::Merge(job) => job.merge matches Some(merge) ==> {
            &&& job.bucket < m.index.len()
            &&& merge.wf(m.world.groups, m.index[job.bucket as int].filesets)
        },
    }
}

/// The scanner after a key was found to have the content of the entry at
/// `pos`: the fileset joins the group and the duplicate is counted. If no
/// file of the group has other hardlinks, the group is merged right away.
/// Otherwise the merge is put off, and if enough merges have been put off by
/// now, all groups are merged.
pub open spec fn spec_found(m: ScannerModel, s: SearchModel, pos: int) -> ScannerModel {
    let index = spec_join(m.index, pos, s.fileset);
    let stats = Stats {
        dupes: capped_add(m.world.stats.dupes, 1),
        bytes_deduplicated: capped_add(m.world.stats.bytes_deduplicated, s.key.metadata.size as int),
        ..m.world.stats
    };
    let world = World { stats, ..m.world };
    if all_single(m.world.groups, index[pos].filesets) {
        ScannerModel {
            index,
            world,
            task: TaskModel::Merge(MergeJob { bucket: pos as usize, flush: false, merge: None }),
            ..m
        }
    } else {
        let deferred = m.deferred.spec_defer();
        ScannerModel {
            index,
            world,
            deferred: deferred.0,
            task: if deferred.1 {
                TaskModel::Merge(MergeJob { bucket: 0, flush: true, merge: None })
            } else {
                TaskModel::Idle
            },
            ..m
        }
    }
}

/// The work that follows the merging of one group: the next group during a
/// flush, nothing otherwise.
pub open spec fn spec_next_group(job: MergeJob) -> TaskModel {
    if job.flush && job.bucket < usize::MAX {
        TaskModel::Merge(MergeJob { bucket: (job.bucket + 1) as usize, flush: true, merge: None })
    } else {
        TaskModel::Idle
    }
}

/// How much is left to do before the scanner comes to rest.
pub open spec fn phase(m: ScannerModel) -> nat {
    if m.task is Search {
        1
    } else {
        0
    }
}

pub open spec fn groups_left(m: ScannerModel) -> nat {
    match m.task {
        TaskModel::Merge(job) => if job.bucket < m.index.len() {
            (m.index.len() - job.bucket) as nat
        } else {
            0
        },
        _ => 0,
    }
}

pub open spec fn begun(m: ScannerModel) -> nat {
    match m.task {
        TaskModel::Merge(job) => if job.merge is None {
            2
        } else {
            1
        },
        _ => 0,
    }
}

/// Whether the scanner is waiting for the outcome of a filesystem call.
pub open spec fn waiting(m: ScannerModel) -> bool {
    m.task matches TaskModel::Merge(job) && job.merge matches Some(merge) && merge.link is Some
        && job.bucket < m.index.len()
}

/// One move of the scanner. `breaks` is the number of requests to stop: from
/// two on, a flush does not go on to the next group.
///
/// A search is carried as far as the ledgers allow. If it ends at a free
/// place, the key is entered there; if it ends at an entry, see
/// `spec_found`. A group whose merging has not begun is begun, or passed
/// over if there is nothing to merge; one whose merging has begun is merged
/// until a filesystem call is needed or the group is done.
pub open spec fn spec_step(m: ScannerModel, breaks: u32) -> ScannerModel {
    match m.task {
        TaskModel::Idle => m,
        TaskModel::Search(s) => {
            let found = spec_search(m.index, s);
            match found.1 {
                SearchStep::Read(_) => ScannerModel { task: TaskModel::Search(found.0), ..m },
                SearchStep::Vacant(pos) => ScannerModel {
                    index: spec_insert(m.index, pos as int, found.0.key, found.0.fileset),
                    task: TaskModel::Idle,
                    ..m
                },
                SearchStep::Found(pos) => spec_found(m, found.0, pos as int),
            }
        },
        TaskModel::Merge(job) => if job.bucket >= m.index.len() || (job.flush && breaks > 1
            && job.merge is None) {
            ScannerModel { task: TaskModel::Idle, ..m }
        } else {
            let bucket = m.index[job.bucket as int].filesets;
            match job.merge {
                None => match spec_begin(m.world.groups, bucket, m.mode) {
                    Some(merge) => ScannerModel {
                        task: TaskModel::Merge(MergeJob { merge: Some(merge), ..job }),
                        ..m
                    },
                    None => ScannerModel { task: spec_next_group(job), ..m },
                },
                Some(merge) => if merge.link is Some {
                    m
                } else {
                    let gone = spec_proceed(merge, m.world, bucket, m.mode);
                    if gone.2 is Some {
                        ScannerModel {
                            world: gone.1,
                            task: TaskModel::Merge(MergeJob { merge: Some(gone.0), ..job }),
                            ..m
                        }
                    } else {
                        ScannerModel { world: gone.1, task: spec_next_group(job), ..m }
                    }
                },
            }
        },
    }
}

/// Whether the next move of the scanner ends with a request to the caller:
/// a search that needs a chunk, or a merge that needs a filesystem call.
pub open spec fn spec_halts(m: ScannerModel, breaks: u32) -> bool {
    match m.task {
        TaskModel::Idle => false,
        TaskModel::Search(s) => spec_search(m.index, s).1 is Read,
        TaskModel::Merge(job) => {
            &&& job.bucket < m.index.len()
            &&& job.merge matches Some(merge)
            &&& merge.link is None
            &&& spec_proceed(merge, m.world, m.index[job.bucket as int].filesets, m.mode).2 is Some
        },
    }
}

/// Runs the scanner until it needs something from outside or has nothing
/// left to do.
pub open spec fn spec_run(m: ScannerModel, breaks: u32) -> ScannerModel
    decreases phase(m), groups_left(m), begun(m),
{
    if m.task is Idle || waiting(m) {
        m
    } else if spec_halts(m, breaks) {
        spec_step(m, breaks)
    } else {
        spec_run(spec_step(m, breaks), breaks)
    }
}

/// The scanner has come to rest: it is idle, or it has asked for a chunk or
/// for a filesystem call.
pub open spec fn at_rest(m: ScannerModel) -> bool {
    match m.task {
        TaskModel::Idle => true,
        TaskModel::Search(s) => {
            let other = m.index[middle(s.lo, s.hi)].key;
            &&& s.lo < s.hi
            &&& other.metadata.size == s.key.metadata.size
            &&& key_compare(s.key, other, s.slot).0 is Read
        },
        TaskModel::Merge(_) => waiting(m),
    }
}

/// What the scanner is waiting for.
pub open spec fn spec_pending(m: ScannerModel) -> ActionModel {
    match m.task {
        TaskModel::Idle => ActionModel::Idle,
        TaskModel::Search(s) => {
            let other = m.index[middle(s.lo, s.hi)].key;
            match key_compare(s.key, other, s.slot).0 {
                Comparison::Read(request) => ActionModel::Read {
                    a: if request.a {
                        Some(s.key.path@)
                    } else {
                        None
                    },
                    b: if request.b {
                        Some(other.path@)
                    } else {
                        None
                    },
                    offset: request.offset,
                    size: request.size,
                },
                _ => ActionModel::Idle,
            }
        },
        TaskModel::Merge(job) => match job.merge {
            Some(merge) => {
                let bucket = m.index[job.bucket as int].filesets;
                let source = merge.spec_source(m.world.groups)@;
                let dest = merge.spec_dest(m.world.groups, bucket)@;
                let temp = temp_path(dest);
                match merge.link {
                    Some(state) => match state.spec_op() {
                        Some(LinkOp::Clone) => ActionModel::Clone { source, temp },
                        Some(LinkOp::HardLink) => ActionModel::HardLink { source, temp },
                        Some(LinkOp::Rename) => ActionModel::Rename { temp, dest },
                        Some(LinkOp::RemoveTemp) => ActionModel::Remove { temp },
                        None => ActionModel::Idle,
                    },
                    None => ActionModel::Idle,
                }
            },
            None => ActionModel::Idle,
        },
    }
}

/// The larger of two link counts.
pub open spec fn larger(a: u64, b: u64) -> u64 {
    if a >= b {
        a
    } else {
        b
    }
}

/// The scanner after it was handed the entry `path` with the facts `stat`.
///
/// The entry is reported first. A directory is queued. What is not a regular
/// file, or too small, is counted as skipped. A regular file whose inode is
/// known is one more path of the fileset of that inode and is counted as an
/// existing hardlink; nothing is read or linked for it. A regular file with a
/// new inode gets a fileset of its own, and its place in the content index
/// is looked for.
///
/// A scanner that is not idle does not take the entry in.
pub open spec fn spec_add(m: ScannerModel, path: String, stat: FileStat, breaks: u32) -> ScannerModel {
    if m.task is Idle {
        spec_take(m, path, stat, breaks)
    } else {
        m
    }
}

/// What an idle scanner does with an entry.
pub open spec fn spec_take(m: ScannerModel, path: String, stat: FileStat, breaks: u32) -> ScannerModel {
    let stats = m.world.stats;
    let events = m.world.events.push(ScanEvent::FileScanned { path, stats });
    match spec_classify(stat, m.ignore_small) {
        Entry::Directory => ScannerModel {
            queue: m.queue.push(QueuedDir { key: order_key(stat.ino), path }),
            world: World { events, ..m.world },
            ..m
        },
        Entry::Skip => ScannerModel {
            world: World {
                events,
                stats: Stats { skipped: capped_add(stats.skipped, 1), ..stats },
                ..m.world
            },
            ..m
        },
        Entry::File => {
            let key = inode_key(stat.dev, stat.ino);
            if m.inodes.contains_key(key) {
                let known = m.inodes[key] as int;
                let set = m.world.groups[known];
                ScannerModel {
                    world: World {
                        events,
                        stats: Stats {
                            added: capped_add(stats.added, 1),
                            hardlinks: capped_add(stats.hardlinks, 1),
                            bytes_saved_by_hardlinks: capped_add(
                                stats.bytes_saved_by_hardlinks,
                                stat.size as int,
                            ),
                            ..stats
                        },
                        groups: m.world.groups.update(
                            known,
                            FileSetModel {
                                max_hardlinks: larger(set.max_hardlinks, stat.nlink),
                                paths: set.paths.push(path),
                            },
                        ),
                    },
                    ..m
                }
            } else {
                let fileset = m.world.groups.len() as usize;
                spec_run(
                    ScannerModel {
                        inodes: m.inodes.insert(key, fileset),
                        world: World {
                            events,
                            stats: Stats { added: capped_add(stats.added, 1), ..stats },
                            groups: m.world.groups.push(
                                FileSetModel { max_hardlinks: stat.nlink, paths: seq![path] },
                            ),
                        },
                        task: TaskModel::Search(
                            SearchModel {
                                key: KeyModel {
                                    path,
                                    metadata: Metadata { dev: stat.dev, size: stat.size },
                                    ledger: Seq::<Option<Chunk>>::empty(),
                                },
                                fileset,
                                lo: 0,
                                hi: m.index.len() as int,
                                slot: 0,
                            },
                        ),
                        ..m
                    },
                    breaks,
                )
            }
        },
    }
}

/// The scanner after the chunk that it asked for was supplied: `a` for the
/// new file, `b` for the file it is compared with.
pub open spec fn spec_chunks(
    m: ScannerModel,
    a: Option<Seq<u8>>,
    b: Option<Seq<u8>>,
    breaks: u32,
) -> ScannerModel {
    match m.task {
        TaskModel::Search(s) => {
            let supplied = spec_supply(m.index, s, a, b);
            spec_run(
                ScannerModel { index: supplied.0, task: TaskModel::Search(supplied.1), ..m },
                breaks,
            )
        },
        _ => m,
    }
}

/// The scanner after the filesystem call that it asked for succeeded (`ok`)
/// or failed.
pub open spec fn spec_returned(m: ScannerModel, ok: bool, breaks: u32) -> ScannerModel {
    match m.task {
        TaskModel::Merge(job) => match job.merge {
            Some(merge) => if merge.link is Some && job.bucket < m.index.len() {
                let entry = m.index[job.bucket as int];
                let gone = spec_completed(
                    merge,
                    m.world,
                    entry.filesets,
                    m.mode,
                    entry.key.metadata.size,
                    ok,
                );
                spec_run(
                    ScannerModel {
                        world: gone.1,
                        task: TaskModel::Merge(MergeJob { merge: Some(gone.0), ..job }),
                        ..m
                    },
                    breaks,
                )
            } else {
                m
            },
            None => m,
        },
        _ => m,
    }
}

/// The scanner after it was told to merge every group of the index.
pub open spec fn spec_flush(m: ScannerModel, breaks: u32) -> ScannerModel {
    match m.task {
        TaskModel::Idle => spec_run(
            ScannerModel {
                task: TaskModel::Merge(MergeJob { bucket: 0, flush: true, merge: None }),
                ..m
            },
            breaks,
        ),
        _ => m,
    }
}

/// The scanner after one more entry was counted as skipped.
pub open spec fn spec_skipped(m: ScannerModel) -> ScannerModel {
    ScannerModel {
        world: World {
            stats: Stats { skipped: capped_add(m.world.stats.skipped, 1), ..m.world.stats },
            ..m.world
        },
        ..m
    }
}

/// Whether `name` is one of the excluded file names.
pub open spec fn is_excluded(exclude: Seq<String>, name: Seq<char>) -> bool {
    exists|i: int| 0 <= i < exclude.len() && (#[trigger] exclude[i])@ == name
}

/// Whether a path is in the middle of being replaced by a link.
pub open spec fn link_in_progress(task: TaskModel) -> bool {
    task matches TaskModel::Merge(job) && job.merge matches Some(merge) && merge.link is Some
}

/// The scanner with another task.
pub open spec fn with_task(m: ScannerModel, task: TaskModel) -> ScannerModel {
    ScannerModel { task, ..m }
}

/// Finds duplicate files among the entries it is handed, and plans how they
/// are merged.
#[derive(Debug)]
pub struct Scanner {
    /// All hardlinks of one inode are one file.
    by_inode: HashMap<u128, usize>,
    by_content: ContentIndex,
    to_scan: DirQueue,
    records: Records,
    exclude: Vec<String>,
    pub settings: Settings,
    deferred: Deferred,
    task: Task,
}

impl View for Scanner {
    type V = ScannerModel;

    closed spec fn view(&self) -> ScannerModel {
        ScannerModel {
            inodes: self.by_inode@,
            index: self.by_content@,
            queue: self.to_scan.entries@,
            world: self.records@,
            exclude: self.exclude@,
            ignore_small: self.settings.ignore_small,
            mode: self.settings.run_mode,
            deferred: self.deferred,
            task: self.task@,
        }
    }
}

impl Scanner {
    /// The parts fit together, whether or not the scanner is at rest.
    closed spec fn sound(&self) -> bool {
        &&& model_wf(self@)
        &&& self.task matches Task::Search(s) ==> s.wf(self.by_content@)
        &&& !self@.mode.touches_disk() ==> !link_in_progress(self@.task)
    }

    /// The scanner is in a state in which its caller may find it.
    pub closed spec fn wf(&self) -> bool {
        self.sound() && at_rest(self@)
    }

    /// What `wf` says of the scanner's value: its parts fit together, it is
    /// at rest, and in a mode that leaves the disk alone no path is in the
    /// middle of being replaced.
    pub proof fn wf_is_sound(&self)
        requires
            self.wf(),
        ensures
            model_wf(self@),
            at_rest(self@),
            !self@.mode.touches_disk() ==> !link_in_progress(self@.task),
    {
    }

    /// Whether a counter of requests to stop has been set.
    pub closed spec fn can_be_stopped(&self) -> bool {
        self.settings.break_on is Some
    }

    /// A scanner that has seen nothing: it replaces duplicates by hardlinks,
    /// passes over small files, excludes no name and is never told to stop.
    pub fn new() -> (r: Scanner)
        ensures
            r.wf(),
            !r.can_be_stopped(),
            r@ == (ScannerModel {
                inodes: Map::<u128, usize>::empty(),
                index: Seq::<EntryModel>::empty(),
                queue: Seq::<QueuedDir>::empty(),
                world: World {
                    groups: Seq::<FileSetModel>::empty(),
                    stats: Stats::zero(),
                    events: Seq::<ScanEvent>::empty(),
                },
                exclude: Seq::<String>::empty(),
                ignore_small: true,
                mode: RunMode::Hardlink,
                deferred: Deferred { count: 0, next: 4096 },
                task: TaskModel::Idle,
            }),
    {
        Scanner {
            settings: Settings { ignore_small: true, run_mode: RunMode::Hardlink, break_on: None },
            by_inode: HashMap::new(),
            by_content: ContentIndex::new(),
            to_scan: DirQueue::new(),
            records: Records::new(),
            exclude: Vec::new(),
            deferred: Deferred::new(),
            task: Task::Idle,
        }
    }

    /// Whether every fileset of the group at `pos` has exactly one link.
    fn all_single(&self, pos: usize) -> (r: bool)
        requires
            pos < self@.index.len(),
            bucket_ok(self@.world.groups, self@.index[pos as int].filesets),
        ensures
            r == all_single(self@.world.groups, self@.index[pos as int].filesets),
    {
        assert(self.by_content@[pos as int] == self.by_content.entries@[pos as int]@);
        let bucket = &self.by_content.entries[pos].filesets;
        let mut k: usize = 0;
        while k < bucket.len()
            invariant
                0 <= k <= bucket@.len(),
                bucket@ == self@.index[pos as int].filesets,
                bucket_ok(self@.world.groups, bucket@),
                forall|j: int|
                    0 <= j < k ==> self@.world.groups[(#[trigger] bucket@[j]) as int].links() == 1,
            decreases bucket@.len() - k,
        {
            if self.records.filesets[bucket[k]].links() != 1 {
                return false;
            }
            k += 1;
        }
        true
    }

    /// Files a fileset under the entry whose content it was found to have.
    fn found(&mut self, s: Search, pos: usize)
        requires
            old(self)@.task is Idle,
            model_wf(with_task(old(self)@, TaskModel::Search(s@))),
            pos < old(self)@.index.len(),
        ensures
            final(self)@ == spec_found(with_task(old(self)@, TaskModel::Search(s@)), s@, pos as int),
            final(self).sound(),
            final(self).settings == old(self).settings,
    {
        let ghost before = with_task(self@, TaskModel::Search(s@));
        let fileset = s.fileset;
        let size = s.key.metadata.size;
        self.by_content.join(pos, fileset);
        self.records.stats.dupes = count_one(self.records.stats.dupes);
        self.records.stats.bytes_deduplicated = count_bytes(
            self.records.stats.bytes_deduplicated,
            size,
        );
        proof {
            let joined = self@.index;
            assert(keys_wf(joined));
            assert forall|i: int| 0 <= i < joined.len() implies bucket_ok(
                self@.world.groups,
                (#[trigger] joined[i]).filesets,
            ) by {
                assert(bucket_ok(before.world.groups, before.index[i].filesets));
                if i == pos {
                    let old_bucket = before.index[i].filesets;
                    assert forall|j: int| 0 <= j < old_bucket.len() implies old_bucket[j]
                        != fileset by {
                        assert(before.index[i].filesets[j] != fileset);
                    }
                    assert(joined[i].filesets.len() <= usize::MAX) by {
                        vstd::std_specs::vec::axiom_spec_len(
                            &self.by_content.entries@[i].filesets,
                        );
                        assert(joined[i] == self.by_content.entries@[i]@);
                    }
                }
            }
        }
        if self.all_single(pos) {
            self.task = Task::Merge(MergeJob { bucket: pos, flush: false, merge: None });
        } else if self.deferred.defer() {
            self.task = Task::Merge(MergeJob { bucket: 0, flush: true, merge: None });
        }
    }

    /// One move of a search.
    fn search_step(&mut self, s: Search) -> (halt: bool)
        requires
            old(self)@.task is Idle,
            model_wf(with_task(old(self)@, TaskModel::Search(s@))),
            s.wf(old(self)@.index),
        ensures
            final(self)@ == spec_step(with_task(old(self)@, TaskModel::Search(s@)), 0),
            halt == spec_halts(with_task(old(self)@, TaskModel::Search(s@)), 0),
            final(self).sound(),
            halt ==> at_rest(final(self)@),
            final(self).settings == old(self).settings,
    {
        let mut s = s;
        let ghost before = with_task(self@, TaskModel::Search(s@));
        match self.by_content.search(&mut s) {
            SearchStep::Read(_) => {
                self.task = Task::Search(s);
                true
            },
            SearchStep::Vacant(pos) => {
                let Search { key, fileset, lo: _, hi: _, iter: _ } = s;
                self.by_content.insert(pos, key, fileset);
                proof {
                    vstd::std_specs::vec::axiom_spec_len(&self.by_content.entries);
                    let grown = self@.index;
                    assert forall|i: int| 0 <= i < grown.len() implies (#[trigger] grown[i]).key.wf()
                        && bucket_ok(self@.world.groups, grown[i].filesets) by {
                        if i < pos {
                            assert(grown[i] == before.index[i]);
                        } else if i > pos {
                            assert(grown[i] == before.index[i - 1]);
                        } else {
                            assert(grown[i].filesets =~= seq![fileset]);
                        }
                    }
                }
                false
            },
            SearchStep::Found(pos) => {
                self.found(s, pos);
                false
            },
        }
    }

    /// One move of a merge.
    fn merge_step(&mut self, job: MergeJob, breaks: u32) -> (halt: bool)
        requires
            old(self)@.task is Idle,
            model_wf(with_task(old(self)@, TaskModel::Merge(job))),
            !waiting(with_task(old(self)@, TaskModel::Merge(job))),
        ensures
            final(self)@ == spec_step(with_task(old(self)@, TaskModel::Merge(job)), breaks),
            halt == spec_halts(with_task(old(self)@, TaskModel::Merge(job)), breaks),
            final(self).sound(),
            halt ==> at_rest(final(self)@),
            final(self).settings == old(self).settings,
    {
        if job.bucket >= self.by_content.entries.len() || (job.flush && breaks > 1
            && job.merge.is_none()) {
            return false;
        }
        assert(self.by_content@[job.bucket as int] == self.by_content.entries@[job.bucket as int]@);
        let mode = self.settings.run_mode;
        let next = if job.flush && job.bucket < usize::MAX {
            Task::Merge(MergeJob { bucket: job.bucket + 1, flush: true, merge: None })
        } else {
            Task::Idle
        };
        match job.merge {
            None => {
                match Merge::begin(
                    &self.records,
                    &self.by_content.entries[job.bucket].filesets,
                    mode,
                ) {
                    Some(merge) => {
                        self.task = Task::Merge(MergeJob { merge: Some(merge), ..job });
                    },
                    None => {
                        self.task = next;
                    },
                }
                false
            },
            Some(merge) => {
                let ghost start = merge;
                let mut merge = merge;
                let op = merge.proceed(
                    &mut self.records,
                    &self.by_content.entries[job.bucket].filesets,
                    mode,
                );
                proof {
                    if !mode.touches_disk() {
                        dry_merge_needs_no_call(
                            start,
                            old(self)@.world,
                            old(self)@.index[job.bucket as int].filesets,
                            mode,
                        );
                    }
                    lemma_groups_grow(
                        old(self)@.index,
                        old(self)@.world.groups,
                        self@.world.groups,
                    );
                }
                if op.is_some() {
                    self.task = Task::Merge(MergeJob { merge: Some(merge), ..job });
                    true
                } else {
                    self.task = next;
                    false
                }
            },
        }
    }

    /// One move of the scanner; whether it ended with a request to the
    /// caller.
    fn step(&mut self, breaks: u32) -> (halt: bool)
        requires
            old(self).sound(),
            !waiting(old(self)@),
        ensures
            final(self)@ == spec_step(old(self)@, breaks),
            halt == spec_halts(old(self)@, breaks),
            final(self).sound(),
            halt ==> at_rest(final(self)@),
            final(self).settings == old(self).settings,
    {
        let mut task = Task::Idle;
        core::mem::swap(&mut self.task, &mut task);
        match task {
            Task::Idle => false,
            Task::Search(s) => self.search_step(s),
            Task::Merge(job) => self.merge_step(job, breaks),
        }
    }

    /// Whether the scanner is idle or waits for a filesystem call.
    fn rests(&self) -> (r: bool)
        requires
            self.sound(),
        ensures
            r == (self@.task is Idle || waiting(self@)),
    {
        match &self.task {
            Task::Idle => true,
            Task::Search(_) => false,
            Task::Merge(job) => match job.merge {
                Some(merge) => merge.link.is_some() && job.bucket < self.by_content.entries.len(),
                None => false,
            },
        }
    }

    /// Runs until something is needed from outside, or nothing is left to
    /// do.
    fn run(&mut self, breaks: u32)
        requires
            old(self).sound(),
        ensures
            final(self).wf(),
            final(self)@ == spec_run(old(self)@, breaks),
            final(self).settings == old(self).settings,
    {
        loop
            invariant
                self.sound(),
                self.settings == old(self).settings,
                spec_run(self@, breaks) == spec_run(old(self)@, breaks),
            decreases phase(self@), groups_left(self@), begun(self@),
        {
            if self.rests() {
                return ;
            }
            if self.step(breaks) {
                return ;
            }
        }
    }

    /// What the scanner is waiting for.
    pub fn pending(&self) -> (r: Action)
        requires
            self.wf(),
        ensures
            r@ == spec_pending(self@),
            !self@.mode.touches_disk() ==> !r@.touches_disk(),
    {
        match &self.task {
            Task::Idle => Action::Idle,
            Task::Search(s) => {
                let mid = s.lo + (s.hi - s.lo) / 2;
                assert(self.by_content@[mid as int] == self.by_content.entries@[mid as int]@);
                let other = &self.by_content.entries[mid].key;
                let mut iter = s.iter;
                match s.key.compare(other, &mut iter) {
                    Comparison::Read(request) => Action::Read {
                        a: if request.a {
                            Some(s.key.path.clone())
                        } else {
                            None
                        },
                        b: if request.b {
                            Some(other.path.clone())
                        } else {
                            None
                        },
                        offset: request.offset,
                        size: request.size,
                    },
                    _ => Action::Idle,
                }
            },
            Task::Merge(job) => match job.merge {
                Some(merge) => {
                    assert(self.by_content@[job.bucket as int]
                        == self.by_content.entries@[job.bucket as int]@);
                    let bucket = &self.by_content.entries[job.bucket].filesets;
                    let source = merge.source(&self.records);
                    let dest = merge.dest(&self.records, bucket);
                    let temp = temp_path_of(dest.as_str());
                    match merge.link {
                        Some(state) => match state.op() {
                            Some(LinkOp::Clone) => Action::Clone { source, temp },
                            Some(LinkOp::HardLink) => Action::HardLink { source, temp },
                            Some(LinkOp::Rename) => Action::Rename { temp, dest },
                            Some(LinkOp::RemoveTemp) => Action::Remove { temp },
                            None => Action::Idle,
                        },
                        None => Action::Idle,
                    }
                },
                None => Action::Idle,
            },
        }
    }

    /// Whether nothing is pending, so that the next entry can be handed in.
    pub fn is_idle(&self) -> (r: bool)
        requires
            self.wf(),
        ensures
            r == (self@.task is Idle),
    {
        matches!(self.task, Task::Idle)
    }

    /// Takes in one entry: its path, and what `stat` says of it without
    /// following a symbolic link. `breaks` is the number of requests to stop
    /// that have been made.
    pub fn add(&mut self, path: String, stat: &FileStat, breaks: u32) -> (r: Action)
        requires
            old(self).wf(),
        ensures
            final(self).wf(),
            final(self)@ == spec_add(old(self)@, path, *stat, breaks),
            r@ == spec_pending(final(self)@),
            !final(self)@.mode.touches_disk() ==> !r@.touches_disk(),
            final(self).can_be_stopped() == old(self).can_be_stopped(),
    {
        broadcast use vstd::std_specs::hash::group_hash_axioms;

        if !matches!(self.task, Task::Idle) {
            return self.pending();
        }
        let ghost before = self@;
        let stats = self.records.stats;
        self.records.events.push(ScanEvent::FileScanned { path: path.clone(), stats });
        match classify(*stat, self.settings.ignore_small) {
            Entry::Directory => {
                self.to_scan.push(stat.ino, path);
            },
            Entry::Skip => {
                self.records.stats.skipped = count_one(stats.skipped);
            },
            Entry::File => {
                self.records.stats.added = count_one(stats.added);
                let key = inode_key_of(stat.dev, stat.ino);
                let known = match self.by_inode.get(&key) {
                    Some(known) => Some(*known),
                    None => None,
                };
                match known {
                    Some(known) => {
                        self.records.stats.hardlinks = count_one(stats.hardlinks);
                        self.records.stats.bytes_saved_by_hardlinks = count_bytes(
                            stats.bytes_saved_by_hardlinks,
                            stat.size,
                        );
                        if stat.nlink > self.records.filesets[known].max_hardlinks {
                            self.records.filesets[known].max_hardlinks = stat.nlink;
                        }
                        self.records.filesets[known].paths.push(path);
                        proof {
                            assert(self@.world.groups =~= before.world.groups.update(
                                known as int,
                                FileSetModel {
                                    max_hardlinks: larger(
                                        before.world.groups[known as int].max_hardlinks,
                                        stat.nlink,
                                    ),
                                    paths: before.world.groups[known as int].paths.push(path),
                                },
                            ));
                            lemma_groups_grow(
                                before.index,
                                before.world.groups,
                                self@.world.groups,
                            );
                        }
                    },
                    None => {
                        let fileset = self.records.filesets.len();
                        self.records.filesets.push(FileSet::new(path.clone(), stat.nlink));
                        proof {
                            vstd::std_specs::vec::axiom_spec_len(&self.records.filesets);
                        }
                        self.by_inode.insert(key, fileset);
                        let content = FileContent::new(path, Metadata::new(stat));
                        self.task = Task::Search(Search::new(content, fileset, &self.by_content));
                        proof {
                            assert(self@.world.groups =~= before.world.groups.push(
                                FileSetModel { max_hardlinks: stat.nlink, paths: seq![path] },
                            ));
                            lemma_groups_grow(before.index, before.world.groups, self@.world.groups);
                            assert(fresh(self@.index, fileset)) by {
                                assert forall|i: int, k: int|
                                    0 <= i < self@.index.len() && 0 <= k
                                        < self@.index[i].filesets.len() implies (
                                #[trigger] self@.index[i].filesets[k]) != fileset by {
                                    assert(bucket_ok(before.world.groups, before.index[i].filesets));
                                }
                            }
                        }
                        self.run(breaks);
                    },
                }
            },
        }
        self.pending()
    }

    /// Takes in the chunk that the scanner asked for: the bytes read from
    /// the first file named in the request, and those read from the second.
    /// For a file that was not named, or whose chunk could not be read in
    /// full, `None` is handed in.
    pub fn chunks_read(&mut self, a: Option<Vec<u8>>, b: Option<Vec<u8>>, breaks: u32) -> (r: Action)
        requires
            old(self).wf(),
        ensures
            final(self).wf(),
            final(self)@ == spec_chunks(old(self)@, data_view(a), data_view(b), breaks),
            r@ == spec_pending(final(self)@),
            !final(self)@.mode.touches_disk() ==> !r@.touches_disk(),
            final(self).can_be_stopped() == old(self).can_be_stopped(),
    {
        let mut task = Task::Idle;
        core::mem::swap(&mut self.task, &mut task);
        match task {
            Task::Search(s) => {
                let mut s = s;
                let ghost before = with_task(self@, TaskModel::Search(s@));
                self.by_content.supply(&mut s, a, b);
                self.task = Task::Search(s);
                proof {
                    let after = self@.index;
                    assert forall|i: int| 0 <= i < after.len() implies bucket_ok(
                        self@.world.groups,
                        (#[trigger] after[i]).filesets,
                    ) by {
                        assert(bucket_ok(before.world.groups, before.index[i].filesets));
                    }
                    assert(fresh(after, s.fileset)) by {
                        assert forall|i: int, k: int|
                            0 <= i < after.len() && 0 <= k < after[i].filesets.len() implies (
                        #[trigger] after[i].filesets[k]) != s.fileset by {
                            assert(before.index[i].filesets[k] != s.fileset);
                        }
                    }
                }
                self.run(breaks);
            },
            other => {
                self.task = other;
            },
        }
        self.pending()
    }

    /// Takes in whether the filesystem call that the scanner asked for
    /// succeeded.
    pub fn call_returned(&mut self, ok: bool, breaks: u32) -> (r: Action)
        requires
            old(self).wf(),
        ensures
            final(self).wf(),
            final(self)@ == spec_returned(old(self)@, ok, breaks),
            r@ == spec_pending(final(self)@),
            !final(self)@.mode.touches_disk() ==> !r@.touches_disk(),
            final(self).can_be_stopped() == old(self).can_be_stopped(),
    {
        let job = match &self.task {
            Task::Merge(job) => Some(*job),
            _ => None,
        };
        match job {
            Some(job) => match job.merge {
                Some(merge) => {
                    if merge.link.is_some() && job.bucket < self.by_content.entries.len() {
                        let ghost before = self@;
                        assert(self.by_content@[job.bucket as int]
                            == self.by_content.entries@[job.bucket as int]@);
                        let mut merge = merge;
                        let entry = &self.by_content.entries[job.bucket];
                        let _ = merge.completed(
                            &mut self.records,
                            &entry.filesets,
                            self.settings.run_mode,
                            entry.key.metadata.size,
                            ok,
                        );
                        self.task = Task::Merge(MergeJob { merge: Some(merge), ..job });
                        proof {
                            lemma_groups_grow(
                                before.index,
                                before.world.groups,
                                self@.world.groups,
                            );
                        }
                        self.run(breaks);
                    }
                },
                None => {},
            },
            None => {},
        }
        self.pending()
    }

    /// Starts merging every group of the index, the deferred ones with the
    /// rest.
    pub fn merge_all(&mut self, breaks: u32) -> (r: Action)
        requires
            old(self).wf(),
        ensures
            final(self).wf(),
            final(self)@ == spec_flush(old(self)@, breaks),
            r@ == spec_pending(final(self)@),
            !final(self)@.mode.touches_disk() ==> !r@.touches_disk(),
            final(self).can_be_stopped() == old(self).can_be_stopped(),
    {
        if matches!(self.task, Task::Idle) {
            self.task = Task::Merge(MergeJob { bucket: 0, flush: true, merge: None });
            self.run(breaks);
        }
        self.pending()
    }

    /// Sets the file names that are not scanned, in place of those set
    /// before. A name excludes the entries that have exactly that name;
    /// there are no wildcards.
    pub fn exclude(&mut self, exclude: Vec<String>)
        requires
            old(self).wf(),
        ensures
            final(self).wf(),
            final(self)@ == (ScannerModel { exclude: exclude@, ..old(self)@ }),
            final(self).can_be_stopped() == old(self).can_be_stopped(),
    {
        self.exclude = exclude;
    }

    /// Sets what is done with duplicates.
    pub fn set_run_mode(&mut self, mode: RunMode)
        requires
            old(self).wf(),
            old(self)@.task is Idle,
        ensures
            final(self).wf(),
            final(self)@ == (ScannerModel { mode, ..old(self)@ }),
            final(self).can_be_stopped() == old(self).can_be_stopped(),
    {
        self.settings.run_mode = mode;
    }

    /// Sets whether files smaller than a filesystem block are passed over.
    pub fn set_ignore_small(&mut self, ignore_small: bool)
        requires
            old(self).wf(),
        ensures
            final(self).wf(),
            final(self)@ == (ScannerModel { ignore_small, ..old(self)@ }),
            final(self).can_be_stopped() == old(self).can_be_stopped(),
    {
        self.settings.ignore_small = ignore_small;
    }

    /// Decides whether the directory entry at `path` is left out because of
    /// its name. An entry that is left out is counted as skipped.
    pub fn skip_excluded(&mut self, path: &str) -> (r: bool)
        requires
            old(self).wf(),
        ensures
            final(self).wf(),
            r == is_excluded(old(self)@.exclude, file_name(path@)),
            final(self)@ == if r {
                spec_skipped(old(self)@)
            } else {
                old(self)@
            },
            final(self).can_be_stopped() == old(self).can_be_stopped(),
    {
        let name = file_name_of(path);
        let mut i: usize = 0;
        while i < self.exclude.len()
            invariant
                0 <= i <= self.exclude@.len(),
                name@ == file_name(path@),
                *self == *old(self),
                self.wf(),
                forall|j: int| 0 <= j < i ==> (#[trigger] self.exclude@[j])@ != name@,
            decreases self.exclude@.len() - i,
        {
            if self.exclude[i] == name {
                self.records.stats.skipped = count_one(self.records.stats.skipped);
                return true;
            }
            i += 1;
        }
        false
    }

    /// Counts a directory that could not be read as skipped.
    pub fn dir_failed(&mut self)
        requires
            old(self).wf(),
        ensures
            final(self).wf(),
            final(self)@ == spec_skipped(old(self)@),
            final(self).can_be_stopped() == old(self).can_be_stopped(),
    {
        self.records.stats.skipped = count_one(self.records.stats.skipped);
    }

    /// Takes the next directory to read out of the queue: the one with the
    /// largest key, and among several the one that was queued first. `None`
    /// when no directory is waiting, and also when the scan has been asked to
    /// stop (`breaks` is 1 or more); the queue is then left as it is.
    pub fn pop_dir(&mut self, breaks: u32) -> (r: Option<String>)
        requires
            old(self).wf(),
        ensures
            final(self).wf(),
            old(self)@.queue.len() == 0 || breaks >= 1 ==> r is None && final(self)@ == old(self)@,
            old(self)@.queue.len() > 0 && breaks == 0 ==> exists|i: int|
                {
                    &&& crate::queue::is_next(old(self)@.queue, i)
                    &&& r == Some(old(self)@.queue[i].path)
                    &&& final(self)@ == (ScannerModel {
                        queue: old(self)@.queue.remove(i),
                        ..old(self)@
                    })
                },
            final(self).can_be_stopped() == old(self).can_be_stopped(),
    {
        if breaks >= 1 {
            return None;
        }
        let r = self.to_scan.pop();
        assert(self@.inodes == old(self)@.inodes);
        assert(self@.world == old(self)@.world);
        assert(self@.index == old(self)@.index);
        r
    }

    /// Like `pop_dir`, with the number of requests to stop read from the
    /// counter in the settings.
    pub fn next_dir(&mut self) -> (r: Option<String>)
        requires
            old(self).wf(),
        ensures
            final(self).wf(),
            old(self)@.queue.len() == 0 ==> r is None && final(self)@ == old(self)@,
            r is None ==> final(self)@ == old(self)@,
            r is Some ==> exists|i: int|
                {
                    &&& crate::queue::is_next(old(self)@.queue, i)
                    &&& r == Some(old(self)@.queue[i].path)
                    &&& final(self)@ == (ScannerModel {
                        queue: old(self)@.queue.remove(i),
                        ..old(self)@
                    })
                },
            !old(self).can_be_stopped() && old(self)@.queue.len() > 0 ==> r is Some,
            final(self).can_be_stopped() == old(self).can_be_stopped(),
    {
        let breaks = self.settings.breaks();
        self.pop_dir(breaks)
    }

    /// Whether the scan has been asked to stop. Entries of the directory
    /// that is being read are then no longer handed in.
    pub fn stopping(&self) -> (r: bool)
        ensures
            !self.can_be_stopped() ==> !r,
    {
        self.settings.breaks() > 0
    }

    /// The reports made since they were last taken, oldest first.
    pub fn take_events(&mut self) -> (r: Vec<ScanEvent>)
        requires
            old(self).wf(),
        ensures
            final(self).wf(),
            r@ == old(self)@.world.events,
            final(self)@ == (ScannerModel {
                world: World { events: Seq::<ScanEvent>::empty(), ..old(self)@.world },
                ..old(self)@
            }),
            final(self).can_be_stopped() == old(self).can_be_stopped(),
    {
        let mut events: Vec<ScanEvent> = Vec::new();
        core::mem::swap(&mut self.records.events, &mut events);
        events
    }

    /// The totals so far.
    pub fn stats(&self) -> (r: Stats)
        requires
            self.wf(),
        ensures
            r == self@.world.stats,
    {
        self.records.stats
    }

    /// The groups of the content index in its order, each with a copy of
    /// its filesets in the order in which they were found.
    pub fn dupes(&self) -> (r: Vec<Vec<FileSet>>)
        requires
            self.wf(),
        ensures
            r@.len() == self@.index.len(),
            forall|i: int|
                0 <= i < r@.len() ==> (#[trigger] r@[i])@.len() == self@.index[i].filesets.len(),
            forall|i: int, k: int|
                0 <= i < r@.len() && 0 <= k < r@[i]@.len() ==> (#[trigger] r@[i]@[k])@
                    == self@.world.groups[self@.index[i].filesets[k] as int],
    {
        let mut out: Vec<Vec<FileSet>> = Vec::new();
        let mut i: usize = 0;
        while i < self.by_content.entries.len()
            invariant
                self.wf(),
                0 <= i <= self@.index.len(),
                self@.index.len() == self.by_content.entries@.len(),
                out@.len() == i,
                forall|j: int|
                    0 <= j < i ==> (#[trigger] out@[j])@.len() == self@.index[j].filesets.len(),
                forall|j: int, k: int|
                    0 <= j < i && 0 <= k < out@[j]@.len() ==> (#[trigger] out@[j]@[k])@
                        == self@.world.groups[self@.index[j].filesets[k] as int],
            decreases self@.index.len() - i,
        {
            assert(self.by_content@[i as int] == self.by_content.entries@[i as int]@);
            let bucket = &self.by_content.entries[i].filesets;
            let mut sets: Vec<FileSet> = Vec::new();
            let mut k: usize = 0;
            while k < bucket.len()
                invariant
                    self.wf(),
                    i < self@.index.len(),
                    bucket@ == self@.index[i as int].filesets,
                    0 <= k <= bucket@.len(),
                    sets@.len() == k,
                    forall|j: int|
                        0 <= j < k ==> (#[trigger] sets@[j])@
                            == self@.world.groups[bucket@[j] as int],
                decreases bucket@.len() - k,
            {
                assert(bucket_ok(self@.world.groups, self@.index[i as int].filesets));
                sets.push(self.records.filesets[bucket[k]].clone());
                k += 1;
            }
            out.push(sets);
            i += 1;
        }
        out
    }

    /// Like `add`, with the number of requests to stop read from the
    /// counter in the settings.
    pub fn enqueue(&mut self, path: String, stat: &FileStat) -> (r: Action)
        requires
            old(self).wf(),
        ensures
            final(self).wf(),
            r@ == spec_pending(final(self)@),
            !final(self)@.mode.touches_disk() ==> !r@.touches_disk(),
            exists|breaks: u32|
                (!old(self).can_be_stopped() ==> breaks == 0) && final(self)@ == #[trigger] spec_add(
                    old(self)@,
                    path,
                    *stat,
                    breaks,
                ),
            final(self).can_be_stopped() == old(self).can_be_stopped(),
    {
        let breaks = self.settings.breaks();
        self.add(path, stat, breaks)
    }

    /// Like `chunks_read`, with the number of requests to stop read from the
    /// counter in the settings.
    pub fn supply(&mut self, a: Option<Vec<u8>>, b: Option<Vec<u8>>) -> (r: Action)
        requires
            old(self).wf(),
        ensures
            final(self).wf(),
            r@ == spec_pending(final(self)@),
            !final(self)@.mode.touches_disk() ==> !r@.touches_disk(),
            exists|breaks: u32|
                (!old(self).can_be_stopped() ==> breaks == 0) && final(self)@
                    == #[trigger] spec_chunks(old(self)@, data_view(a), data_view(b), breaks),
            final(self).can_be_stopped() == old(self).can_be_stopped(),
    {
        let breaks = self.settings.breaks();
        self.chunks_read(a, b, breaks)
    }

    /// Like `call_returned`, with the number of requests to stop read from
    /// the counter in the settings.
    pub fn completed(&mut self, ok: bool) -> (r: Action)
        requires
            old(self).wf(),
        ensures
            final(self).wf(),
            r@ == spec_pending(final(self)@),
            !final(self)@.mode.touches_disk() ==> !r@.touches_disk(),
            exists|breaks: u32|
                (!old(self).can_be_stopped() ==> breaks == 0) && final(self)@
                    == #[trigger] spec_returned(old(self)@, ok, breaks),
            final(self).can_be_stopped() == old(self).can_be_stopped(),
    {
        let breaks = self.settings.breaks();
        self.call_returned(ok, breaks)
    }

    /// Like `merge_all`, with the number of requests to stop read from the
    /// counter in the settings.
    pub fn flush_deferred(&mut self) -> (r: Action)
        requires
            old(self).wf(),
        ensures
            final(self).wf(),
            r@ == spec_pending(final(self)@),
            !final(self)@.mode.touches_disk() ==> !r@.touches_disk(),
            exists|breaks: u32|
                (!old(self).can_be_stopped() ==> breaks == 0) && final(self)@
                    == #[trigger] spec_flush(old(self)@, breaks),
            final(self).can_be_stopped() == old(self).can_be_stopped(),
    {
        let breaks = self.settings.breaks();
        self.merge_all(breaks)
    }
}

/// Groups that only grow keep every index valid.
proof fn lemma_groups_grow(
    index: Seq<EntryModel>,
    before: Seq<FileSetModel>,
    after: Seq<FileSetModel>,
)
    requires
        before.len() <= after.len(),
        forall|i: int| 0 <= i < index.len() ==> bucket_ok(before, (#[trigger] index[i]).filesets),
    ensures
        forall|i: int| 0 <= i < index.len() ==> bucket_ok(after, (#[trigger] index[i]).filesets),
{
    assert forall|i: int| 0 <= i < index.len() implies bucket_ok(
        after,
        (#[trigger] index[i]).filesets,
    ) by {
        assert(bucket_ok(before, index[i].filesets));
    }
}

/// A file whose inode has been seen before is one more path of the
/// fileset of that inode. Nothing is read for it and nothing is linked; the
/// content index stays as it is.
pub proof fn known_inode_asks_for_nothing(m: ScannerModel, path: String, stat: FileStat, breaks: u32)
    requires
        model_wf(m),
        m.task is Idle,
        spec_classify(stat, m.ignore_small) == Entry::File,
        m.inodes.contains_key(inode_key(stat.dev, stat.ino)),
    ensures
        spec_pending(spec_add(m, path, stat, breaks)) == ActionModel::Idle,
        spec_add(m, path, stat, breaks).index == m.index,
        spec_add(m, path, stat, breaks).inodes == m.inodes,
        spec_add(m, path, stat, breaks).world.stats.dupes == m.world.stats.dupes,
        spec_add(m, path, stat, breaks).world.groups[m.inodes[inode_key(
            stat.dev,
            stat.ino,
        )] as int].paths == m.world.groups[m.inodes[inode_key(stat.dev, stat.ino)] as int].paths.push(
            path,
        ),
{
}

/// An entry that is no candidate is counted as skipped and otherwise
/// forgotten: a symbolic link, anything else that is neither a directory
/// nor a regular file, an empty file and, unless small files are asked for,
/// a file smaller than a block. It enters no fileset and no index, and
/// nothing is read or linked for it.
pub proof fn no_candidate_is_only_counted(m: ScannerModel, path: String, stat: FileStat, breaks: u32)
    requires
        m.task is Idle,
        stat.kind == FileKind::Symlink || stat.kind == FileKind::Other || (stat.kind
            == FileKind::Regular && too_small(stat.size, stat.blksize, m.ignore_small)),
    ensures
        spec_add(m, path, stat, breaks) == (ScannerModel {
            world: World {
                events: m.world.events.push(ScanEvent::FileScanned { path, stats: m.world.stats }),
                stats: Stats { skipped: capped_add(m.world.stats.skipped, 1), ..m.world.stats },
                groups: m.world.groups,
            },
            ..m
        }),
        spec_pending(spec_add(m, path, stat, breaks)) == ActionModel::Idle,
{
}

/// A fileset joins a group only if its key and the key of the group are
/// keys of one content: the files are on one device and of one length, and
/// their digests have been found equal over the whole length. A file for
/// which no such group exists founds a group of its own. As long as the
/// search needs a chunk, the groups stay as they are.
pub proof fn only_same_content_joins(m: ScannerModel, s: SearchModel, breaks: u32)
    requires
        model_wf(m),
        m.task == TaskModel::Search(s),
    ensures
        match spec_search(m.index, s).1 {
            SearchStep::Found(pos) => same_content(s.key, m.index[pos as int].key) && spec_step(
                m,
                breaks,
            ).index == spec_join(m.index, pos as int, s.fileset),
            SearchStep::Vacant(pos) => spec_step(m, breaks).index == spec_insert(
                m.index,
                pos as int,
                s.key,
                s.fileset,
            ),
            SearchStep::Read(_) => spec_step(m, breaks).index == m.index,
        },
{
    found_means_same_content(m.index, s);
}

} // verus!
