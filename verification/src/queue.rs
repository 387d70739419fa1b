//! Directories that are waiting to be read.

use vstd::prelude::*;

verus! {

/// Priority of a directory: the complement of its inode number without the
/// low eight bits. Inode numbers that are close together share a priority,
/// and directories with high inode numbers come out first.
pub open spec fn order_key(ino: u64) -> u64 {
    !(ino >> 8)
}

/// Computes `order_key`.
pub fn order_key_of(ino: u64) -> (r: u64)
    ensures
        r == order_key(ino),
{
    !(ino >> 8)
}

/// A directory whose inode number lies in a higher block of 256 has the lower
/// key, and one in the same block has the same key.
pub proof fn order_key_reverses_inode_blocks(a: u64, b: u64)
    ensures
        a / 256 < b / 256 <==> order_key(a) > order_key(b),
        a / 256 == b / 256 <==> order_key(a) == order_key(b),
{
    assert(a / 256 == a >> 8) by (bit_vector);
    assert(b / 256 == b >> 8) by (bit_vector);
    let x = a >> 8;
    let y = b >> 8;
    assert(x < y <==> !x > !y) by (bit_vector);
    assert(x == y <==> !x == !y) by (bit_vector);
}

/// A directory together with its priority.
#[derive(Debug)]
pub struct QueuedDir {
    pub key: u64,
    pub path: String,
}

/// Position of the entry that leaves the queue next: the first one among
/// those with the largest key.
pub open spec fn is_next(entries: Seq<QueuedDir>, i: int) -> bool {
    &&& 0 <= i < entries.len()
    &&& forall|j: int| 0 <= j < entries.len() ==> (#[trigger] entries[j]).key <= entries[i].key
    &&& forall|j: int| 0 <= j < i ==> (#[trigger] entries[j]).key < entries[i].key
}

/// The directories left to scan.
#[derive(Debug)]
pub struct DirQueue {
    pub entries: Vec<QueuedDir>,
}

impl DirQueue {
    pub fn new() -> (r: DirQueue)
        ensures
            r.entries@ == Seq::<QueuedDir>::empty(),
    {
        DirQueue { entries: Vec::new() }
    }

    pub fn len(&self) -> (r: usize)
        ensures
            r == self.entries@.len(),
    {
        self.entries.len()
    }

    /// Adds a directory with the priority that its inode number gives it.
    pub fn push(&mut self, ino: u64, path: String)
        ensures
            final(self).entries@ == old(self).entries@.push(
                QueuedDir { key: order_key(ino), path },
            ),
    {
        self.entries.push(QueuedDir { key: order_key_of(ino), path });
    }

    /// Takes out the directory with the largest key; among several, the one
    /// that was added first. `None` when the queue is empty.
    pub fn pop(&mut self) -> (r: Option<String>)
        ensures
            old(self).entries@.len() == 0 ==> r is None && final(self).entries@ == old(
                self,
            ).entries@,
            old(self).entries@.len() > 0 ==> exists|i: int|
                {
                    &&& is_next(old(self).entries@, i)
                    &&& r == Some(old(self).entries@[i].path)
                    &&& final(self).entries@ == old(self).entries@.remove(i)
                },
    {
        let n = self.entries.len();
        if n == 0 {
            return None;
        }
        let mut best: usize = 0;
        let mut i: usize = 1;
        while i < n
            invariant
                n == self.entries@.len(),
                0 <= best < i <= n,
                forall|j: int| 0 <= j < i ==> (#[trigger] self.entries@[j]).key <= self.entries@[best as int].key,
                forall|j: int| 0 <= j < best ==> (#[trigger] self.entries@[j]).key < self.entries@[best as int].key,
            decreases n - i,
        {
            if self.entries[i].key > self.entries[best].key {
                best = i;
            }
            i += 1;
        }
        assert(is_next(self.entries@, best as int));
        let entry = self.entries.remove(best);
        Some(entry.path)
    }
}

} // verus!
