//! The content index: one entry per distinct content seen so far, kept in
//! the order of the content keys.
//!
//! Looking a key up is a binary search, so it takes a logarithmic number of
//! comparisons. A comparison may need chunks that have not been read yet; the
//! search then stops, says which chunk it needs, and is taken up again once
//! the chunk has been supplied.

use vstd::prelude::*;
use crate::file::{key_compare, key_filled, FileContent, KeyModel};
use crate::hasher::{
    agree_before, agree_throughout, data_view, equal_means_same_digests, filling_keeps_fit,
    walked_slots_agree, Comparison, HashIter, ReadRequest,
};
use crate::metadata::Order;

verus! {

/// Mathematical value of an entry of the index.
pub struct EntryModel {
    pub key: KeyModel,
    pub filesets: Seq<usize>,
}

/// One content, and the filesets that were found to have it.
#[derive(Debug)]
pub struct ContentEntry {
    pub key: FileContent,
    pub filesets: Vec<usize>,
}

impl View for ContentEntry {
    type V = EntryModel;

    open spec fn view(&self) -> EntryModel {
        EntryModel { key: self.key@, filesets: self.filesets@ }
    }
}

/// The values of a sequence of entries.
pub open spec fn entries_of(entries: Seq<ContentEntry>) -> Seq<EntryModel> {
    Seq::new(entries.len(), |i: int| entries[i]@)
}

/// Mathematical value of a search.
pub struct SearchModel {
    pub key: KeyModel,
    pub fileset: usize,
    pub lo: int,
    pub hi: int,
    /// Ledger slot at which the comparison with the middle entry stands.
    pub slot: nat,
}

/// A lookup in progress: the key that is looked for, the fileset that came
/// with it, and the range of entries among which its place must lie.
#[derive(Debug)]
pub struct Search {
    pub key: FileContent,
    pub fileset: usize,
    pub lo: usize,
    pub hi: usize,
    pub iter: HashIter,
}

impl View for Search {
    type V = SearchModel;

    open spec fn view(&self) -> SearchModel {
        SearchModel {
            key: self.key@,
            fileset: self.fileset,
            lo: self.lo as int,
            hi: self.hi as int,
            slot: self.iter.index as nat,
        }
    }
}

/// How far a search got.
#[derive(Debug, Copy, Clone, PartialEq, Eq, Structural)]
pub enum SearchStep {
    /// The comparison with the middle entry needs this chunk.
    Read(ReadRequest),
    /// The entry at this position has the same content.
    Found(usize),
    /// No entry has the same content; the key belongs at this position.
    Vacant(usize),
}

/// The entry with which the key is compared next.
pub open spec fn middle(lo: int, hi: int) -> int {
    lo + (hi - lo) / 2
}

/// Where a search gets without reading, and in what state it stops. A
/// comparison that a failed read has made impossible counts as "greater":
/// the key is then kept apart from the entry.
pub open spec fn spec_search(index: Seq<EntryModel>, s: SearchModel) -> (SearchModel, SearchStep)
    decreases s.hi - s.lo,
{
    if s.lo >= s.hi {
        (s, SearchStep::Vacant(s.lo as usize))
    } else {
        let mid = middle(s.lo, s.hi);
        let found = key_compare(s.key, index[mid].key, s.slot);
        match found.0 {
            Comparison::Read(request) => (SearchModel { slot: found.1, ..s }, SearchStep::Read(request)),
            Comparison::Done(Order::Equal) => (
                SearchModel { slot: found.1, ..s },
                SearchStep::Found(mid as usize),
            ),
            Comparison::Done(Order::Less) => spec_search(index, SearchModel { hi: mid, slot: 0, ..s }),
            _ => spec_search(index, SearchModel { lo: mid + 1, slot: 0, ..s }),
        }
    }
}

/// The index and the search after the chunk that the search asked for has
/// been supplied for both files.
pub open spec fn spec_supply(
    index: Seq<EntryModel>,
    s: SearchModel,
    data: Option<Seq<u8>>,
    other_data: Option<Seq<u8>>,
) -> (Seq<EntryModel>, SearchModel) {
    let mid = middle(s.lo, s.hi);
    if s.lo < s.hi && index[mid].key.metadata.size == s.key.metadata.size {
        (
            index.update(
                mid,
                EntryModel { key: key_filled(index[mid].key, s.slot, other_data), ..index[mid] },
            ),
            SearchModel { key: key_filled(s.key, s.slot, data), ..s },
        )
    } else {
        (index, s)
    }
}

/// The index after a new entry for `key` with the one fileset `fileset` was
/// put at position `pos`.
pub open spec fn spec_insert(index: Seq<EntryModel>, pos: int, key: KeyModel, fileset: usize) -> Seq<
    EntryModel,
> {
    index.insert(pos, EntryModel { key, filesets: seq![fileset] })
}

/// The index after `fileset` joined the entry at position `pos`.
pub open spec fn spec_join(index: Seq<EntryModel>, pos: int, fileset: usize) -> Seq<EntryModel> {
    index.update(pos, EntryModel { filesets: index[pos].filesets.push(fileset), ..index[pos] })
}

/// Two keys that the index takes for one content: they are on one device and
/// of one length, and they are keys for one path or their ledgers agree on
/// every chunk of the file.
pub open spec fn same_content(a: KeyModel, b: KeyModel) -> bool {
    a.metadata == b.metadata && (a.path@ == b.path@ || agree_throughout(
        a.ledger,
        b.ledger,
        a.metadata.size as int,
    ))
}

/// The search is in order: its range lies inside the index, the ledger of
/// its key fits the file, and the comparison with the middle entry has found
/// both ledgers to agree on every slot that it has passed.
pub open spec fn search_ok(index: Seq<EntryModel>, s: SearchModel) -> bool {
    &&& s.key.wf()
    &&& 0 <= s.lo <= s.hi <= index.len() <= usize::MAX
    &&& s.lo < s.hi ==> agree_before(s.key.ledger, index[middle(s.lo, s.hi)].key.ledger, s.slot)
}

/// A search never changes the key it looks for, and it stays in order. It
/// ends at an entry only if the key and the entry's key are keys of one
/// content: no file joins a group without its digests having been found
/// equal to the group's over the whole length of the file.
pub proof fn found_means_same_content(index: Seq<EntryModel>, s: SearchModel)
    requires
        search_ok(index, s),
        keys_wf(index),
    ensures
        spec_search(index, s).0.key == s.key,
        spec_search(index, s).0.fileset == s.fileset,
        search_ok(index, spec_search(index, s).0),
        spec_search(index, s).1 matches SearchStep::Found(pos) ==> s.lo <= pos < s.hi
            && same_content(s.key, index[pos as int].key),
        spec_search(index, s).1 matches SearchStep::Vacant(pos) ==> s.lo <= pos <= s.hi,
    decreases s.hi - s.lo,
{
    if s.lo < s.hi {
        let mid = middle(s.lo, s.hi);
        let other = index[mid].key;
        let size = s.key.metadata.size as int;
        let found = key_compare(s.key, other, s.slot);
        match found.0 {
            Comparison::Read(request) => {
                assert forall|j: int| 0 <= j < found.1 implies crate::hasher::agree_on(
                    s.key.ledger,
                    other.ledger,
                    j,
                ) by {
                    if j >= s.slot {
                        walked_slots_agree(s.key.ledger, other.ledger, size, s.slot, j as nat);
                    }
                }
            },
            Comparison::Done(Order::Equal) => {
                if s.key.path@ != other.path@ {
                    assert forall|j: int| 0 <= j && crate::hasher::chunk_start(size, j as nat)
                        < size implies crate::hasher::agree_on(s.key.ledger, other.ledger, j) by {
                        if j >= s.slot {
                            equal_means_same_digests(
                                s.key.ledger,
                                other.ledger,
                                size,
                                s.slot,
                                j as nat,
                            );
                        }
                    }
                    assert forall|j: int| 0 <= j < found.1 implies crate::hasher::agree_on(
                        s.key.ledger,
                        other.ledger,
                        j,
                    ) by {
                        if j >= s.slot {
                            walked_slots_agree(s.key.ledger, other.ledger, size, s.slot, j as nat);
                        }
                    }
                }
            },
            Comparison::Done(Order::Less) => {
                found_means_same_content(index, SearchModel { hi: mid, slot: 0, ..s });
            },
            _ => {
                found_means_same_content(index, SearchModel { lo: mid + 1, slot: 0, ..s });
            },
        }
    }
}

/// Supplying a chunk keeps the search in order and the ledgers of the index
/// in step with their files.
pub proof fn supply_keeps_order(
    index: Seq<EntryModel>,
    s: SearchModel,
    data: Option<Seq<u8>>,
    other_data: Option<Seq<u8>>,
)
    requires
        search_ok(index, s),
        keys_wf(index),
    ensures
        search_ok(spec_supply(index, s, data, other_data).0, spec_supply(index, s, data, other_data).1),
        keys_wf(spec_supply(index, s, data, other_data).0),
{
    let mid = middle(s.lo, s.hi);
    if s.lo < s.hi && index[mid].key.metadata.size == s.key.metadata.size {
        let size = s.key.metadata.size as int;
        filling_keeps_fit(s.key.ledger, size, s.slot, data);
        filling_keeps_fit(index[mid].key.ledger, size, s.slot, other_data);
        let after = spec_supply(index, s, data, other_data);
        assert forall|i: int| 0 <= i < after.0.len() implies (#[trigger] after.0[i]).key.wf() by {
            if i != mid {
                assert(after.0[i] == index[i]);
            }
        }
        assert forall|j: int| 0 <= j < s.slot implies crate::hasher::agree_on(
            after.1.key.ledger,
            after.0[mid].key.ledger,
            j,
        ) by {
            assert(crate::hasher::agree_on(s.key.ledger, index[mid].key.ledger, j));
        }
    }
}

/// Every ledger in the index agrees with the chunk schedule of its file.
pub open spec fn keys_wf(index: Seq<EntryModel>) -> bool {
    forall|i: int| 0 <= i < index.len() ==> (#[trigger] index[i]).key.wf()
}

impl Search {
    /// The search can go on in `index`.
    pub open spec fn wf(&self, index: Seq<EntryModel>) -> bool {
        &&& self.iter.wf()
        &&& self.iter.end_offset == self.key.metadata.size
        &&& search_ok(index, self@)
    }

    /// Starts looking for `key` among all entries of `index`.
    pub fn new(key: FileContent, fileset: usize, index: &ContentIndex) -> (r: Search)
        requires
            key.wf(),
        ensures
            r.wf(index@),
            r@ == (SearchModel { key: key@, fileset, lo: 0, hi: index@.len() as int, slot: 0 }),
    {
        let iter = key.start();
        Search { key, fileset, lo: 0, hi: index.entries.len(), iter }
    }
}

/// The contents seen so far, in the order of their keys.
#[derive(Debug)]
pub struct ContentIndex {
    pub entries: Vec<ContentEntry>,
}

impl View for ContentIndex {
    type V = Seq<EntryModel>;

    open spec fn view(&self) -> Seq<EntryModel> {
        entries_of(self.entries@)
    }
}

impl ContentIndex {
    pub fn new() -> (r: ContentIndex)
        ensures
            r@ == Seq::<EntryModel>::empty(),
    {
        let r = ContentIndex { entries: Vec::new() };
        assert(r@ =~= Seq::<EntryModel>::empty());
        r
    }

    /// Number of distinct contents.
    pub fn len(&self) -> (r: usize)
        ensures
            r == self@.len(),
    {
        self.entries.len()
    }

    /// Narrows the search down as far as the ledgers allow.
    pub fn search(&self, s: &mut Search) -> (r: SearchStep)
        requires
            old(s).wf(self@),
            keys_wf(self@),
        ensures
            final(s).wf(self@),
            (final(s)@, r) == spec_search(self@, old(s)@),
            final(s)@.key == old(s)@.key,
            final(s).fileset == old(s).fileset,
            match r {
                SearchStep::Read(request) => {
                    let other = self@[middle(final(s).lo as int, final(s).hi as int)].key;
                    &&& final(s).lo < final(s).hi
                    &&& other.metadata.size == final(s).key.metadata.size
                    &&& key_compare(final(s)@.key, other, final(s)@.slot).0 == Comparison::Read(
                        request,
                    )
                    &&& spec_search(self@, final(s)@) == (final(s)@, r)
                },
                SearchStep::Found(pos) => pos < self@.len() && same_content(
                    final(s)@.key,
                    self@[pos as int].key,
                ),
                SearchStep::Vacant(pos) => pos <= self@.len(),
            },
    {
        loop
            invariant
                s.wf(self@),
                keys_wf(self@),
                s@.key == old(s)@.key,
                s.fileset == old(s).fileset,
                spec_search(self@, s@) == spec_search(self@, old(s)@),
            decreases s.hi - s.lo,
        {
            if s.lo >= s.hi {
                return SearchStep::Vacant(s.lo);
            }
            let mid = s.lo + (s.hi - s.lo) / 2;
            assert(self@[mid as int] == self.entries@[mid as int]@);
            let ghost before = s@;
            match s.key.compare(&self.entries[mid].key, &mut s.iter) {
                Comparison::Read(request) => {
                    proof {
                        found_means_same_content(self@, before);
                    }
                    return SearchStep::Read(request);
                },
                Comparison::Done(Order::Equal) => {
                    proof {
                        found_means_same_content(self@, before);
                    }
                    return SearchStep::Found(mid);
                },
                Comparison::Done(Order::Less) => {
                    s.hi = mid;
                    s.iter = s.key.start();
                },
                _ => {
                    s.lo = mid + 1;
                    s.iter = s.key.start();
                },
            }
        }
    }

    /// Path of the entry with which the search is comparing its key.
    pub fn middle_path(&self, s: &Search) -> (r: String)
        requires
            s.lo < s.hi <= self@.len(),
        ensures
            r == self@[middle(s.lo as int, s.hi as int)].key.path,
    {
        let mid = s.lo + (s.hi - s.lo) / 2;
        assert(self@[mid as int] == self.entries@[mid as int]@);
        self.entries[mid].key.path.clone()
    }

    /// Takes in the chunk that the search asked for: `data` of the file that
    /// is looked for, `other_data` of the entry it is compared with. A file
    /// whose chunk was not asked for keeps its ledger.
    pub fn supply(&mut self, s: &mut Search, data: Option<Vec<u8>>, other_data: Option<Vec<u8>>)
        requires
            old(s).wf(old(self)@),
            keys_wf(old(self)@),
        ensures
            final(s).wf(final(self)@),
            keys_wf(final(self)@),
            (final(self)@, final(s)@) == spec_supply(
                old(self)@,
                old(s)@,
                data_view(data),
                data_view(other_data),
            ),
    {
        if s.lo >= s.hi {
            return ;
        }
        let mid = s.lo + (s.hi - s.lo) / 2;
        assert(self@[mid as int] == self.entries@[mid as int]@);
        if self.entries[mid].key.metadata.size != s.key.metadata.size {
            return ;
        }
        s.key.supply(&mut self.entries[mid].key, &s.iter, data, other_data);
        assert(self@ =~= spec_supply(old(self)@, old(s)@, data_view(data), data_view(other_data)).0);
        proof {
            supply_keeps_order(old(self)@, old(s)@, data_view(data), data_view(other_data));
        }
    }

    /// Puts a new entry for `key` at position `pos`.
    pub fn insert(&mut self, pos: usize, key: FileContent, fileset: usize)
        requires
            pos <= old(self)@.len(),
        ensures
            final(self)@ == spec_insert(old(self)@, pos as int, key@, fileset),
    {
        let mut filesets: Vec<usize> = Vec::new();
        filesets.push(fileset);
        self.entries.insert(pos, ContentEntry { key, filesets });
        assert(self@ =~= spec_insert(old(self)@, pos as int, key@, fileset));
    }

    /// Adds `fileset` to the entry at position `pos`.
    pub fn join(&mut self, pos: usize, fileset: usize)
        requires
            pos < old(self)@.len(),
        ensures
            final(self)@ == spec_join(old(self)@, pos as int, fileset),
    {
        self.entries[pos].filesets.push(fileset);
        assert(self@ =~= spec_join(old(self)@, pos as int, fileset));
    }
}

} // verus!
