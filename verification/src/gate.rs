//! What is done with a directory entry, decided from its `stat` alone.

use vstd::prelude::*;
use crate::metadata::{FileKind, FileStat};

verus! {

/// Files below this size are never worth merging, whatever block size the
/// filesystem claims to have (16 KiB).
pub const SMALL_CAP: u64 = 16384;

/// What the scan does with an entry.
#[derive(Debug, Copy, Clone, PartialEq, Eq, Structural)]
pub enum Entry {
    /// A directory: it is queued and read later.
    Directory,
    /// Not a candidate: it is counted as skipped.
    Skip,
    /// A regular file that takes part in the search for duplicates.
    File,
}

/// Size below which a file counts as small: one filesystem block, but no
/// more than the cap.
pub open spec fn small_size(blksize: u64) -> u64 {
    if blksize < SMALL_CAP {
        blksize
    } else {
        SMALL_CAP
    }
}

/// Whether a regular file of this size stays out of the scan: empty files
/// always do, small ones when `ignore_small` is set.
pub open spec fn too_small(size: u64, blksize: u64, ignore_small: bool) -> bool {
    size == 0 || (ignore_small && size < small_size(blksize))
}

/// Directories are queued. Symbolic links are never followed and never
/// merged, and neither is anything else that is not a regular file. Regular
/// files take part unless they are too small.
pub open spec fn spec_classify(stat: FileStat, ignore_small: bool) -> Entry {
    match stat.kind {
        FileKind::Directory => Entry::Directory,
        FileKind::Symlink => Entry::Skip,
        FileKind::Other => Entry::Skip,
        FileKind::Regular => if too_small(stat.size, stat.blksize, ignore_small) {
            Entry::Skip
        } else {
            Entry::File
        },
    }
}

/// Decides what is done with an entry.
#[verifier::when_used_as_spec(spec_classify)]
pub fn classify(stat: FileStat, ignore_small: bool) -> (r: Entry)
    ensures
        r == spec_classify(stat, ignore_small),
{
    match stat.kind {
        FileKind::Directory => Entry::Directory,
        FileKind::Symlink => Entry::Skip,
        FileKind::Other => Entry::Skip,
        FileKind::Regular => {
            let small: u64 = if stat.blksize < SMALL_CAP {
                stat.blksize
            } else {
                SMALL_CAP
            };
            if stat.size == 0 || (ignore_small && stat.size < small) {
                Entry::Skip
            } else {
                Entry::File
            }
        },
    }
}

/// One number for a device and an inode on it; different files get different
/// numbers.
pub open spec fn inode_key(dev: u64, ino: u64) -> u128 {
    (dev as u128 * 0x1_0000_0000_0000_0000 + ino as u128) as u128
}

/// Computes `inode_key`.
pub fn inode_key_of(dev: u64, ino: u64) -> (r: u128)
    ensures
        r == inode_key(dev, ino),
{
    dev as u128 * 0x1_0000_0000_0000_0000 + ino as u128
}

/// Two files have the same key only if they are on the same device and have
/// the same inode number.
pub proof fn inode_key_is_injective(dev: u64, ino: u64, dev2: u64, ino2: u64)
    ensures
        inode_key(dev, ino) == inode_key(dev2, ino2) <==> dev == dev2 && ino == ino2,
{
}

/// Only regular files ever take part, and never an empty one.
pub proof fn only_regular_files_take_part(stat: FileStat, ignore_small: bool)
    ensures
        spec_classify(stat, ignore_small) == Entry::File ==> stat.kind == FileKind::Regular
            && stat.size > 0,
        stat.kind == FileKind::Symlink ==> spec_classify(stat, ignore_small) == Entry::Skip,
        stat.kind == FileKind::Regular && ignore_small && stat.size < small_size(stat.blksize)
            ==> spec_classify(stat, ignore_small) == Entry::Skip,
        stat.kind == FileKind::Regular && !ignore_small && stat.size > 0 ==> spec_classify(
            stat,
            ignore_small,
        ) == Entry::File,
{
}

} // verus!
