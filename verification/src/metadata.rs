//! The facts about a file that come from a single `stat` call.

use vstd::prelude::*;

verus! {

/// Outcome of a three-way comparison.
#[derive(Clone, Copy, Debug, PartialEq, Eq, Structural)]
pub enum Order {
    Less,
    Equal,
    Greater,
}

/// What kind of directory entry a path names. Symbolic links are reported as
/// such and never followed.
#[derive(Clone, Copy, Debug, PartialEq, Eq, Structural)]
pub enum FileKind {
    Directory,
    Regular,
    Symlink,
    Other,
}

/// The result of a `stat` call that does not follow symbolic links, reduced to
/// the fields the engine reads.
#[derive(Clone, Copy, Debug, PartialEq, Eq, Structural)]
pub struct FileStat {
    pub dev: u64,
    pub ino: u64,
    pub size: u64,
    pub nlink: u64,
    pub blksize: u64,
    pub kind: FileKind,
}

/// The cheap part of a content key: two files on different devices, or of
/// different lengths, are never candidates for merging.
#[derive(Clone, Copy, Debug, PartialEq, Eq, Structural)]
pub struct Metadata {
    pub dev: u64,
    pub size: u64,
}

/// Three-way comparison of two integers.
pub open spec fn int_order(a: int, b: int) -> Order {
    if a < b {
        Order::Less
    } else if a == b {
        Order::Equal
    } else {
        Order::Greater
    }
}

impl Metadata {
    pub fn new(m: &FileStat) -> (r: Metadata)
        ensures
            r.dev == m.dev,
            r.size == m.size,
    {
        Metadata { dev: m.dev, size: m.size }
    }

    /// Lexicographic order on `(dev, size)`.
    pub open spec fn order(self, other: Metadata) -> Order {
        if self.dev != other.dev {
            int_order(self.dev as int, other.dev as int)
        } else {
            int_order(self.size as int, other.size as int)
        }
    }

    pub fn compare(&self, other: &Metadata) -> (r: Order)
        ensures
            r == self.order(*other),
    {
        if self.dev < other.dev {
            Order::Less
        } else if self.dev > other.dev {
            Order::Greater
        } else if self.size < other.size {
            Order::Less
        } else if self.size > other.size {
            Order::Greater
        } else {
            Order::Equal
        }
    }
}

/// The order on metadata is a total order whose equality is equality of both
/// fields: reflexive, antisymmetric under swapping, and transitive.
pub proof fn metadata_order_is_total(a: Metadata, b: Metadata, c: Metadata)
    ensures
        a.order(b) == Order::Equal <==> a == b,
        a.order(b) == Order::Less <==> b.order(a) == Order::Greater,
        a.order(b) == Order::Less && b.order(c) == Order::Less ==> a.order(c) == Order::Less,
{
}

} // verus!
