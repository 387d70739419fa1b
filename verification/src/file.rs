//! Groups of paths that share one content, and the keys by which contents
//! are told apart.

use vstd::prelude::*;
use crate::hasher::{
    compare_from, data_view, filled, ledger_fits, Chunk, Comparison, HashIter, Hasher,
};
use crate::metadata::{Metadata, Order};

verus! {

/// Paths known to hold the same content, together with the largest hardlink
/// count the filesystem ever reported for them. The count can exceed the
/// number of paths when some links live outside the scanned trees.
#[derive(Debug)]
pub struct FileSet {
    pub max_hardlinks: u64,
    pub paths: Vec<String>,
}

/// Mathematical value of a fileset.
pub struct FileSetModel {
    pub max_hardlinks: u64,
    pub paths: Seq<String>,
}

impl FileSetModel {
    /// Number of known hardlinks to this content.
    pub open spec fn links(self) -> nat {
        links_of(self.max_hardlinks, self.paths.len())
    }
}

impl View for FileSet {
    type V = FileSetModel;

    open spec fn view(&self) -> FileSetModel {
        FileSetModel { max_hardlinks: self.max_hardlinks, paths: self.paths@ }
    }
}

/// The values of a sequence of filesets.
pub open spec fn groups_of(sets: Seq<FileSet>) -> Seq<FileSetModel> {
    Seq::new(sets.len(), |i: int| sets[i]@)
}

/// The larger of the reported hardlink count and the number of known paths.
pub open spec fn links_of(max_hardlinks: u64, paths: nat) -> nat {
    if max_hardlinks as nat >= paths {
        max_hardlinks as nat
    } else {
        paths
    }
}

impl FileSet {
    /// A fileset for a file that was seen under `path` and for which the
    /// filesystem reported `max_hardlinks` links.
    pub fn new(path: String, max_hardlinks: u64) -> (r: FileSet)
        ensures
            r@ == (FileSetModel { max_hardlinks, paths: seq![path] }),
    {
        let mut paths: Vec<String> = Vec::new();
        paths.push(path);
        FileSet { max_hardlinks, paths }
    }

    /// Adds one more path under which the content was seen.
    pub fn push(&mut self, path: String)
        ensures
            final(self)@ == (FileSetModel {
                max_hardlinks: old(self).max_hardlinks,
                paths: old(self).paths@.push(path),
            }),
    {
        self.paths.push(path);
    }

    /// Number of known hardlinks to this content.
    pub fn links(&self) -> (r: u64)
        ensures
            r as nat == self@.links(),
    {
        let n: u64 = self.paths.len() as u64;
        if self.max_hardlinks >= n {
            self.max_hardlinks
        } else {
            n
        }
    }
}

impl Clone for FileSet {
    fn clone(&self) -> (r: FileSet)
        ensures
            r@ == self@,
    {
        let mut paths: Vec<String> = Vec::new();
        let mut i: usize = 0;
        while i < self.paths.len()
            invariant
                0 <= i <= self.paths@.len(),
                paths@ == self.paths@.take(i as int),
            decreases self.paths@.len() - i,
        {
            paths.push(self.paths[i].clone());
            assert(paths@ =~= self.paths@.take(i + 1));
            i += 1;
        }
        assert(paths@ =~= self.paths@);
        FileSet { max_hardlinks: self.max_hardlinks, paths }
    }
}

/// A fileset never reports fewer links than it has paths, nor fewer than the
/// filesystem reported.
pub proof fn links_bounds(s: FileSetModel)
    ensures
        s.links() >= s.paths.len(),
        s.links() >= s.max_hardlinks,
{
}

/// The sortable stand-in for a file's bytes: its path, its device and
/// length, and the ledger of chunk digests read so far.
#[derive(Debug)]
pub struct FileContent {
    pub path: String,
    pub metadata: Metadata,
    pub hashes: Hasher,
}

/// Mathematical value of a content key.
pub struct KeyModel {
    pub path: String,
    pub metadata: Metadata,
    pub ledger: Seq<Option<Chunk>>,
}

impl KeyModel {
    /// The ledger agrees with the chunk schedule for the file's length.
    pub open spec fn wf(self) -> bool {
        ledger_fits(self.ledger, self.metadata.size as int)
    }
}

impl View for FileContent {
    type V = KeyModel;

    open spec fn view(&self) -> KeyModel {
        KeyModel { path: self.path, metadata: self.metadata, ledger: self.hashes@ }
    }
}

/// How two content keys compare, as far as their ledgers allow, when the walk
/// over the ledgers starts at slot `i`; with it, the slot at which the walk
/// stopped.
///
/// Keys on different devices or of different lengths are ordered by those
/// alone. Two keys for one path name one file and are equal without a look at
/// its bytes. All others are ordered by their chunk digests.
pub open spec fn key_compare(a: KeyModel, b: KeyModel, i: nat) -> (Comparison, nat) {
    if a.metadata.order(b.metadata) != Order::Equal {
        (Comparison::Done(a.metadata.order(b.metadata)), i)
    } else if a.path@ == b.path@ {
        (Comparison::Done(Order::Equal), i)
    } else {
        compare_from(a.ledger, b.ledger, a.metadata.size as int, i)
    }
}

/// The key after the chunk at slot `i` has been supplied.
pub open spec fn key_filled(key: KeyModel, i: nat, data: Option<Seq<u8>>) -> KeyModel {
    KeyModel { ledger: filled(key.ledger, key.metadata.size as int, i, data), ..key }
}

impl FileContent {
    /// The ledger agrees with the chunk schedule for the file's length.
    pub open spec fn wf(&self) -> bool {
        self@.wf()
    }

    pub fn new(path: String, metadata: Metadata) -> (r: FileContent)
        ensures
            r.wf(),
            r@ == (KeyModel { path, metadata, ledger: Seq::<Option<Chunk>>::empty() }),
    {
        FileContent { path, metadata, hashes: Hasher::new() }
    }

    /// Position from which a comparison against this key starts.
    pub fn start(&self) -> (r: HashIter)
        ensures
            r.wf(),
            r.index == 0,
            r.end_offset == self.metadata.size,
    {
        HashIter::new(self.metadata.size)
    }

    /// Compares two keys as far as that takes no reading. `iter` holds the
    /// place between calls: after `Comparison::Read` the chunk is read and
    /// handed to `supply`, and `compare` is called again with the same
    /// `iter`.
    pub fn compare(&self, other: &FileContent, iter: &mut HashIter) -> (r: Comparison)
        requires
            self.wf(),
            other.wf(),
            old(iter).wf(),
            old(iter).end_offset == self.metadata.size,
        ensures
            final(iter).wf(),
            final(iter).end_offset == old(iter).end_offset,
            (r, final(iter).index as nat) == key_compare(self@, other@, old(iter).index as nat),
            r is Read ==> key_compare(self@, other@, final(iter).index as nat) == (
                r,
                final(iter).index as nat,
            ),
    {
        let order = self.metadata.compare(&other.metadata);
        if !matches!(order, Order::Equal) {
            return Comparison::Done(order);
        }
        if self.path == other.path {
            return Comparison::Done(Order::Equal);
        }
        self.hashes.compare(&other.hashes, iter)
    }

    /// Records the chunk that was read for the slot at which `iter` stands,
    /// for each of the two keys that lacks it. Nothing is recorded unless
    /// the two files have the same length and `iter` was started for it.
    pub fn supply(
        &mut self,
        other: &mut FileContent,
        iter: &HashIter,
        data: Option<Vec<u8>>,
        other_data: Option<Vec<u8>>,
    )
        requires
            old(self).wf(),
            old(other).wf(),
            iter.wf(),
        ensures
            final(self).wf(),
            final(other).wf(),
            iter.end_offset == old(self).metadata.size && old(other).metadata.size == old(
                self,
            ).metadata.size ==> {
                &&& final(self)@ == key_filled(old(self)@, iter.index as nat, data_view(data))
                &&& final(other)@ == key_filled(
                    old(other)@,
                    iter.index as nat,
                    data_view(other_data),
                )
            },
            iter.end_offset != old(self).metadata.size || old(other).metadata.size != old(
                self,
            ).metadata.size ==> final(self)@ == old(self)@ && final(other)@ == old(other)@,
    {
        if iter.end_offset == self.metadata.size && other.metadata.size == self.metadata.size {
            iter.supply(&mut self.hashes, &mut other.hashes, data, other_data);
        }
    }
}

/// A key compared with itself is equal, whatever its ledger holds, and the
/// comparison asks for nothing to be read.
pub proof fn key_equals_itself(key: KeyModel, i: nat)
    ensures
        key_compare(key, key, i) == (Comparison::Done(Order::Equal), i),
{
}

/// Keys of files of different lengths, or on different devices, are told
/// apart without a look at their ledgers, and nothing is read for them.
pub proof fn different_metadata_needs_no_reading(a: KeyModel, b: KeyModel, i: nat)
    requires
        a.metadata != b.metadata,
    ensures
        key_compare(a, b, i).0 is Done,
        key_compare(a, b, i).0 != Comparison::Done(Order::Equal),
        key_compare(a, b, i).1 == i,
{
}

} // verus!
