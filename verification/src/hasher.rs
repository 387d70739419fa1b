//! Incremental comparison of file contents by chunk digests.
//!
//! A file is cut into chunks whose sizes grow geometrically, so that files
//! which differ are told apart after a few kilobytes while identical files are
//! read in large pieces. Each file keeps a ledger of the digests computed so
//! far; a comparison walks two ledgers side by side and stops as soon as it
//! needs a chunk that has not been read yet.

use vstd::prelude::*;
use crate::metadata::{int_order, Order};

verus! {

/// Size of the first chunk.
pub const FIRST_WINDOW: u64 = 4096;

/// No chunk is larger than this (128 MiB).
pub const WINDOW_CAP: u64 = 134217728;

/// The SHA-1 digest of a byte string.
pub uninterp spec fn sha1_digest(data: Seq<u8>) -> Seq<u8>;

/// The byte string hashed in front of every chunk, so that published SHA-1
/// collisions do not count as duplicates.
pub open spec fn salt() -> Seq<u8> {
    seq![
        73u8, 83, 112, 101, 110, 116, 36, 55, 53, 75, 84, 111, 67, 111, 108, 108, 105, 100, 101,
        87, 105, 116, 104, 84, 104, 105, 115, 83, 116, 114, 105, 110, 103, 65, 110, 100, 65, 108,
        108, 73, 71, 111, 116, 87, 97, 115, 65, 68, 101, 108, 101, 116, 101, 100, 70, 105, 108,
        101,
    ]
}

/// Mathematical value of a hashed chunk.
pub struct Chunk {
    pub size: u64,
    pub hash: Seq<u8>,
}

/// The chunk that stands for the bytes `data`.
pub open spec fn chunk_of(data: Seq<u8>) -> Chunk {
    Chunk { size: data.len() as u64, hash: sha1_digest(salt() + data) }
}

/// Lexicographic order of two byte strings of equal length, looking only at
/// positions from `from` on.
pub open spec fn bytes_order(a: Seq<u8>, b: Seq<u8>, from: int) -> Order
    decreases a.len() - from,
{
    if from < 0 || from >= a.len() || from >= b.len() {
        Order::Equal
    } else if a[from] != b[from] {
        int_order(a[from] as int, b[from] as int)
    } else {
        bytes_order(a, b, from + 1)
    }
}

/// Chunks are ordered by size first, then by digest.
pub open spec fn chunk_order(x: Chunk, y: Chunk) -> Order {
    if x.size != y.size {
        int_order(x.size as int, y.size as int)
    } else {
        bytes_order(x.hash, y.hash, 0)
    }
}

/// Number of bytes in the chunk that starts at `start` when the window is
/// `window` and the file is `size` bytes long.
pub open spec fn chunk_len(size: int, start: int, window: int) -> int {
    if start >= size {
        0
    } else if size - start <= window {
        size - start
    } else {
        window
    }
}

/// Window that follows a chunk of `len` bytes: eight times as large, up to the
/// cap.
pub open spec fn next_window(len: int) -> int {
    if len * 8 <= WINDOW_CAP as int {
        len * 8
    } else {
        WINDOW_CAP as int
    }
}

/// Start offset and window of chunk number `i` of a file of `size` bytes.
pub open spec fn cursor(size: int, i: nat) -> (int, int)
    decreases i,
{
    if i == 0 {
        (0, FIRST_WINDOW as int)
    } else {
        let prev = cursor(size, (i - 1) as nat);
        let len = chunk_len(size, prev.0, prev.1);
        (prev.0 + len, next_window(len))
    }
}

/// Offset at which chunk number `i` starts.
pub open spec fn chunk_start(size: int, i: nat) -> int {
    cursor(size, i).0
}

/// Length of chunk number `i`; zero once the file is exhausted.
pub open spec fn chunk_size(size: int, i: nat) -> int {
    chunk_len(size, cursor(size, i).0, cursor(size, i).1)
}

/// Every chunk lies inside the file and is no larger than the cap, and a
/// chunk that starts before the end of the file is not empty.
pub proof fn lemma_cursor_bounds(size: int, i: nat)
    requires
        0 <= size,
    ensures
        0 <= chunk_start(size, i) <= size,
        0 <= cursor(size, i).1 <= WINDOW_CAP,
        0 <= chunk_size(size, i) <= WINDOW_CAP,
        chunk_start(size, i) + chunk_size(size, i) <= size,
        chunk_start(size, i) < size ==> chunk_size(size, i) >= 1,
    decreases i,
{
    if i > 0 {
        lemma_cursor_bounds(size, (i - 1) as nat);
    }
}

/// A hashed chunk of a file.
#[derive(Debug)]
pub struct HashedRange {
    pub size: u64,
    pub hash: [u8; 20],
}

impl View for HashedRange {
    type V = Chunk;

    open spec fn view(&self) -> Chunk {
        Chunk { size: self.size, hash: self.hash@ }
    }
}

/// Calls `Sha1::new`, `Sha1::update` and `Sha1::digest` of the `sha1` crate.
/// Trusted: feeding `prefix` and then `data` to one hasher yields the SHA-1
/// digest of the two byte strings joined.
#[verifier::external_body]
fn sha1_of_parts(prefix: &[u8], data: &[u8]) -> (r: [u8; 20])
    ensures
        r@ == sha1_digest(prefix@ + data@),
{
    let mut hasher = sha1::Sha1::new();
    hasher.update(prefix);
    hasher.update(data);
    hasher.digest().bytes()
}

/// The salt as bytes.
fn salt_bytes() -> (r: [u8; 58])
    ensures
        r@ == salt(),
{
    let r: [u8; 58] = [
        73, 83, 112, 101, 110, 116, 36, 55, 53, 75, 84, 111, 67, 111, 108, 108, 105, 100, 101,
        87, 105, 116, 104, 84, 104, 105, 115, 83, 116, 114, 105, 110, 103, 65, 110, 100, 65, 108,
        108, 73, 71, 111, 116, 87, 97, 115, 65, 68, 101, 108, 101, 116, 101, 100, 70, 105, 108,
        101,
    ];
    assert(r@ =~= salt());
    r
}

impl HashedRange {
    /// Hashes the bytes of one chunk.
    pub fn from_data(data: &[u8]) -> (r: HashedRange)
        ensures
            r@ == chunk_of(data@),
    {
        let salt = salt_bytes();
        let hash = sha1_of_parts(salt.as_slice(), data);
        HashedRange { size: data.len() as u64, hash }
    }

    /// Orders two chunks by size, then by digest.
    pub fn compare(&self, other: &HashedRange) -> (r: Order)
        ensures
            r == chunk_order(self@, other@),
    {
        if self.size < other.size {
            return Order::Less;
        }
        if self.size > other.size {
            return Order::Greater;
        }
        let mut i: usize = 0;
        while i < 20
            invariant
                0 <= i <= 20,
                self.size == other.size,
                self.hash@.len() == 20,
                other.hash@.len() == 20,
                bytes_order(self.hash@, other.hash@, 0) == bytes_order(
                    self.hash@,
                    other.hash@,
                    i as int,
                ),
            decreases 20 - i,
        {
            if self.hash[i] < other.hash[i] {
                return Order::Less;
            }
            if self.hash[i] > other.hash[i] {
                return Order::Greater;
            }
            i += 1;
        }
        Order::Equal
    }
}

/// Calls `rayon::join`. Trusted: the pair it returns holds what each of the
/// two closures returned, the first closure's result first.
#[verifier::external_body]
fn hash_pair(a: &[u8], b: &[u8]) -> (r: (HashedRange, HashedRange))
    ensures
        r.0@ == chunk_of(a@),
        r.1@ == chunk_of(b@),
{
    rayon::join(|| HashedRange::from_data(a), || HashedRange::from_data(b))
}

/// Mathematical value of a ledger slot: `None` marks a chunk that could not
/// be read.
pub open spec fn slot_view(slot: Option<HashedRange>) -> Option<Chunk> {
    match slot {
        Some(r) => Some(r@),
        None => None,
    }
}

/// The slot exists and records a failed read.
pub open spec fn poisoned(ledger: Seq<Option<Chunk>>, i: int) -> bool {
    0 <= i < ledger.len() && ledger[i] is None
}

/// The ledger has not reached slot `i` yet.
pub open spec fn missing(ledger: Seq<Option<Chunk>>, i: int) -> bool {
    i >= ledger.len()
}

/// Every populated slot covers exactly the chunk that the schedule assigns
/// to its index in a file of `size` bytes.
pub open spec fn ledger_fits(ledger: Seq<Option<Chunk>>, size: int) -> bool {
    forall|i: int|
        0 <= i < ledger.len() ==> ((#[trigger] ledger[i]) matches Some(c) ==> c.size as int
            == chunk_size(size, i as nat))
}

/// Which chunk has to be read, and for which of the two files.
#[derive(Clone, Copy, Debug, PartialEq, Eq, Structural)]
pub struct ReadRequest {
    pub a: bool,
    pub b: bool,
    pub offset: u64,
    pub size: u64,
}

/// What looking at one pair of slots gives.
#[derive(Clone, Copy, Debug, PartialEq, Eq, Structural)]
pub enum Step {
    /// The whole file has been covered.
    End,
    /// One of the two slots records a failed read.
    Failed,
    /// At least one of the two slots has not been computed yet.
    Read(ReadRequest),
    /// Both slots are there; this is how they compare.
    Compared(Order),
}

/// Result of comparing two ledgers as far as they go.
#[derive(Clone, Copy, Debug, PartialEq, Eq, Structural)]
pub enum Comparison {
    /// The order of the two files is known.
    Done(Order),
    /// A failed read stands in the way; the files cannot be compared.
    Failed,
    /// The comparison cannot go on before this chunk has been supplied.
    Read(ReadRequest),
}

/// The size of chunk number `i` on which two ledgers agree: the size of the
/// chunk that one of them already holds there, and the scheduled size if
/// neither holds one.
pub open spec fn agreed_size(a: Seq<Option<Chunk>>, b: Seq<Option<Chunk>>, size: int, i: nat) -> int {
    if i < a.len() && a[i as int] is Some {
        a[i as int]->0.size as int
    } else if i < b.len() && b[i as int] is Some {
        b[i as int]->0.size as int
    } else {
        chunk_size(size, i)
    }
}

/// Ledgers of files of one length always agree on the scheduled size.
pub proof fn agreed_size_is_scheduled(
    a: Seq<Option<Chunk>>,
    b: Seq<Option<Chunk>>,
    size: int,
    i: nat,
)
    requires
        ledger_fits(a, size),
        ledger_fits(b, size),
    ensures
        agreed_size(a, b, size, i) == chunk_size(size, i),
{
}

/// What slot `i` of two ledgers gives for files of `size` bytes.
pub open spec fn probe(a: Seq<Option<Chunk>>, b: Seq<Option<Chunk>>, size: int, i: nat) -> Step {
    if chunk_start(size, i) >= size {
        Step::End
    } else if poisoned(a, i as int) || poisoned(b, i as int) {
        Step::Failed
    } else if missing(a, i as int) || missing(b, i as int) {
        Step::Read(
            ReadRequest {
                a: missing(a, i as int),
                b: missing(b, i as int),
                offset: chunk_start(size, i) as u64,
                size: agreed_size(a, b, size, i) as u64,
            },
        )
    } else {
        Step::Compared(chunk_order(a[i as int]->0, b[i as int]->0))
    }
}

/// Result of walking two ledgers from slot `i` on, together with the slot at
/// which the walk stopped.
pub open spec fn compare_from(
    a: Seq<Option<Chunk>>,
    b: Seq<Option<Chunk>>,
    size: int,
    i: nat,
) -> (Comparison, nat)
    decreases a.len() - i,
{
    match probe(a, b, size, i) {
        Step::End => (Comparison::Done(Order::Equal), i),
        Step::Failed => (Comparison::Failed, i),
        Step::Read(request) => (Comparison::Read(request), i),
        Step::Compared(order) => if order == Order::Equal {
            compare_from(a, b, size, i + 1)
        } else {
            (Comparison::Done(order), i + 1)
        },
    }
}

/// The ledger after the chunk at slot `i` has been supplied. Only the next
/// free slot can be filled; bytes of the wrong length, or none at all, leave
/// a poisoned slot.
pub open spec fn filled(
    ledger: Seq<Option<Chunk>>,
    size: int,
    i: nat,
    data: Option<Seq<u8>>,
) -> Seq<Option<Chunk>> {
    if i != ledger.len() || chunk_start(size, i) >= size {
        ledger
    } else if data is Some && data->0.len() == chunk_size(size, i) {
        ledger.push(Some(chunk_of(data->0)))
    } else {
        ledger.push(None)
    }
}

/// The bytes that were read, if any.
pub open spec fn data_view(data: Option<Vec<u8>>) -> Option<Seq<u8>> {
    match data {
        Some(d) => Some(d@),
        None => None,
    }
}

/// The ledger of one file: the digests of its chunks, in order, as far as
/// they have been computed. It only grows.
#[derive(Debug)]
pub struct Hasher {
    ranges: Vec<Option<HashedRange>>,
}

impl View for Hasher {
    type V = Seq<Option<Chunk>>;

    closed spec fn view(&self) -> Seq<Option<Chunk>> {
        Seq::new(self.ranges@.len(), |i: int| slot_view(self.ranges@[i]))
    }
}

/// Position of a comparison in progress.
#[derive(Clone, Copy, Debug, PartialEq, Eq, Structural)]
pub struct HashIter {
    pub index: usize,
    pub start_offset: u64,
    pub end_offset: u64,
    pub next_buffer_size: u64,
}

impl HashIter {
    /// Offset and window are those that the schedule gives for the index.
    pub open spec fn wf(&self) -> bool {
        (self.start_offset as int, self.next_buffer_size as int) == cursor(
            self.end_offset as int,
            self.index as nat,
        )
    }

    /// Starts a comparison of two files of `size` bytes.
    pub fn new(size: u64) -> (r: HashIter)
        ensures
            r.wf(),
            r.index == 0,
            r.end_offset == size,
    {
        HashIter { index: 0, start_offset: 0, end_offset: size, next_buffer_size: FIRST_WINDOW }
    }

    /// Looks at the next pair of slots and moves past it if both are there.
    pub fn next(&mut self, a: &Hasher, b: &Hasher) -> (r: Step)
        requires
            old(self).wf(),
            a.fits(old(self).end_offset),
            b.fits(old(self).end_offset),
        ensures
            r == probe(a@, b@, old(self).end_offset as int, old(self).index as nat),
            final(self).wf(),
            final(self).end_offset == old(self).end_offset,
            final(self).index == if r is Compared {
                old(self).index + 1
            } else {
                old(self).index as int
            },
    {
        proof {
            lemma_cursor_bounds(self.end_offset as int, self.index as nat);
            lemma_cursor_bounds(self.end_offset as int, (self.index + 1) as nat);
        }
        if self.start_offset >= self.end_offset {
            return Step::End;
        }
        let i = self.index;
        let rest: u64 = self.end_offset - self.start_offset;
        let a_has = i < a.ranges.len();
        let b_has = i < b.ranges.len();
        if a_has && a.ranges[i].is_none() {
            return Step::Failed;
        }
        if b_has && b.ranges[i].is_none() {
            return Step::Failed;
        }
        proof {
            if a_has {
                assert(a@[i as int] == slot_view(a.ranges@[i as int]));
            }
            if b_has {
                assert(b@[i as int] == slot_view(b.ranges@[i as int]));
            }
        }
        let size: u64 = if a_has {
            match &a.ranges[i] {
                Some(range) => range.size,
                None => 0,
            }
        } else if b_has {
            match &b.ranges[i] {
                Some(range) => range.size,
                None => 0,
            }
        } else if rest <= self.next_buffer_size {
            rest
        } else {
            self.next_buffer_size
        };
        proof {
            agreed_size_is_scheduled(a@, b@, self.end_offset as int, i as nat);
        }
        if !a_has || !b_has {
            return Step::Read(ReadRequest { a: !a_has, b: !b_has, offset: self.start_offset, size });
        }
        let order = match (&a.ranges[i], &b.ranges[i]) {
            (Some(x), Some(y)) => x.compare(y),
            _ => Order::Greater,
        };
        assert(a@[i as int] == slot_view(a.ranges@[i as int]));
        assert(b@[i as int] == slot_view(b.ranges@[i as int]));
        self.index = i + 1;
        self.start_offset = self.start_offset + size;
        self.next_buffer_size = if size <= WINDOW_CAP / 8 {
            size * 8
        } else {
            WINDOW_CAP
        };
        Step::Compared(order)
    }

    /// Takes in the bytes that were read for the current slot. A ledger that
    /// already has the slot is left alone. `None`, or bytes of another length
    /// than the chunk, poison the slot.
    pub fn supply(
        &self,
        a: &mut Hasher,
        b: &mut Hasher,
        a_data: Option<Vec<u8>>,
        b_data: Option<Vec<u8>>,
    )
        requires
            self.wf(),
            old(a).fits(self.end_offset),
            old(b).fits(self.end_offset),
        ensures
            final(a).fits(self.end_offset),
            final(b).fits(self.end_offset),
            final(a)@ == filled(
                old(a)@,
                self.end_offset as int,
                self.index as nat,
                data_view(a_data),
            ),
            final(b)@ == filled(
                old(b)@,
                self.end_offset as int,
                self.index as nat,
                data_view(b_data),
            ),
    {
        proof {
            lemma_cursor_bounds(self.end_offset as int, self.index as nat);
        }
        if self.start_offset >= self.end_offset {
            return ;
        }
        let rest: u64 = self.end_offset - self.start_offset;
        let size: u64 = if rest <= self.next_buffer_size {
            rest
        } else {
            self.next_buffer_size
        };
        let a_need = a.ranges.len() == self.index;
        let b_need = b.ranges.len() == self.index;
        let a_good = a_need && usable(&a_data, size);
        let b_good = b_need && usable(&b_data, size);
        if a_good && b_good {
            match (&a_data, &b_data) {
                (Some(x), Some(y)) => {
                    let (ra, rb) = hash_pair(x.as_slice(), y.as_slice());
                    a.push(Some(ra));
                    b.push(Some(rb));
                },
                _ => {},
            }
        } else {
            if a_need {
                a.push(hash_if(a_good, &a_data));
            }
            if b_need {
                b.push(hash_if(b_good, &b_data));
            }
        }
    }
}

/// Whether bytes were read and there are exactly `size` of them.
fn usable(data: &Option<Vec<u8>>, size: u64) -> (r: bool)
    ensures
        r == (data_view(*data) is Some && data_view(*data)->0.len() == size),
{
    match data {
        Some(d) => d.len() as u64 == size,
        None => false,
    }
}

/// The slot for the bytes that were read: their digest if they are good.
fn hash_if(good: bool, data: &Option<Vec<u8>>) -> (r: Option<HashedRange>)
    ensures
        slot_view(r) == if good && data_view(*data) is Some {
            Some(chunk_of(data_view(*data)->0))
        } else {
            None
        },
{
    match data {
        Some(d) => if good {
            Some(HashedRange::from_data(d.as_slice()))
        } else {
            None
        },
        None => None,
    }
}

impl Hasher {
    /// The ledger agrees with the chunk schedule of a file of `size` bytes.
    pub open spec fn fits(&self, size: u64) -> bool {
        ledger_fits(self@, size as int)
    }

    pub fn new() -> (r: Hasher)
        ensures
            r@ == Seq::<Option<Chunk>>::empty(),
            forall|size: u64| r.fits(size),
    {
        let r = Hasher { ranges: Vec::new() };
        assert(r@ =~= Seq::<Option<Chunk>>::empty());
        r
    }

    /// Number of slots, computed or poisoned.
    pub fn len(&self) -> (r: usize)
        ensures
            r == self@.len(),
    {
        self.ranges.len()
    }

    fn push(&mut self, range: Option<HashedRange>)
        ensures
            final(self)@ == old(self)@.push(slot_view(range)),
    {
        self.ranges.push(range);
        assert(self@ =~= old(self)@.push(slot_view(range)));
    }

    /// Compares two files as far as their ledgers allow, starting where
    /// `iter` stands. The walk stops at the first pair of chunks that differ,
    /// at the end of the file, at a poisoned slot, or at a slot that one of
    /// the two ledgers lacks; in the last case the chunk has to be read and
    /// supplied before the comparison is taken up again.
    pub fn compare(&self, other: &Hasher, iter: &mut HashIter) -> (r: Comparison)
        requires
            old(iter).wf(),
            self.fits(old(iter).end_offset),
            other.fits(old(iter).end_offset),
        ensures
            final(iter).wf(),
            final(iter).end_offset == old(iter).end_offset,
            (r, final(iter).index as nat) == compare_from(
                self@,
                other@,
                old(iter).end_offset as int,
                old(iter).index as nat,
            ),
            r is Read ==> compare_from(
                self@,
                other@,
                old(iter).end_offset as int,
                final(iter).index as nat,
            ) == (r, final(iter).index as nat),
    {
        loop
            invariant
                iter.wf(),
                iter.end_offset == old(iter).end_offset,
                self.fits(iter.end_offset),
                other.fits(iter.end_offset),
                compare_from(
                    self@,
                    other@,
                    old(iter).end_offset as int,
                    old(iter).index as nat,
                ) == compare_from(self@, other@, iter.end_offset as int, iter.index as nat),
            decreases self@.len() - iter.index,
        {
            match iter.next(self, other) {
                Step::End => {
                    return Comparison::Done(Order::Equal);
                },
                Step::Failed => {
                    return Comparison::Failed;
                },
                Step::Read(request) => {
                    return Comparison::Read(request);
                },
                Step::Compared(order) => {
                    if !matches!(order, Order::Equal) {
                        return Comparison::Done(order);
                    }
                },
            }
        }
    }
}

/// A ledger only grows: supplying a chunk adds at most one slot at the end
/// and leaves every slot that was there as it was.
pub proof fn ledger_only_grows(ledger: Seq<Option<Chunk>>, size: int, i: nat, data: Option<Seq<u8>>)
    ensures
        ledger.len() <= filled(ledger, size, i, data).len() <= ledger.len() + 1,
        filled(ledger, size, i, data).take(ledger.len() as int) == ledger,
{
    assert(filled(ledger, size, i, data).take(ledger.len() as int) =~= ledger);
}

/// A ledger that agrees with the chunk schedule still does so after a chunk
/// has been supplied.
pub proof fn filling_keeps_fit(ledger: Seq<Option<Chunk>>, size: int, i: nat, data: Option<Seq<u8>>)
    requires
        0 <= size,
        ledger_fits(ledger, size),
    ensures
        ledger_fits(filled(ledger, size, i, data), size),
{
    lemma_cursor_bounds(size, i);
}

/// The window of chunk number `i` in a file that is long enough to have
/// one: 4 KiB at first, then eight times the one before, and 128 MiB from
/// the sixth chunk on.
pub open spec fn full_window(i: nat) -> int {
    if i == 0 {
        4096
    } else if i == 1 {
        32768
    } else if i == 2 {
        262144
    } else if i == 3 {
        2097152
    } else if i == 4 {
        16777216
    } else {
        134217728
    }
}

/// Chunk starts never go back.
pub proof fn chunk_starts_are_monotonic(size: int, i: nat, j: nat)
    requires
        0 <= size,
        i <= j,
    ensures
        chunk_start(size, i) <= chunk_start(size, j),
    decreases j - i,
{
    if i < j {
        chunk_starts_are_monotonic(size, i, (j - 1) as nat);
        lemma_cursor_bounds(size, (j - 1) as nat);
    }
}

/// However long a file is, it is read in windows that grow eightfold from
/// 4 KiB and stay at 128 MiB once they have reached that size. Every chunk
/// fills its window, except the last one, which ends with the file.
pub proof fn windows_grow_to_the_cap(size: int, i: nat)
    requires
        0 <= size,
        chunk_start(size, i) < size,
    ensures
        cursor(size, i).1 == full_window(i),
        chunk_size(size, i) == if size - chunk_start(size, i) <= full_window(i) {
            size - chunk_start(size, i)
        } else {
            full_window(i)
        },
        chunk_size(size, i) <= WINDOW_CAP,
    decreases i,
{
    if i > 0 {
        let before = (i - 1) as nat;
        lemma_cursor_bounds(size, before);
        windows_grow_to_the_cap(size, before);
    }
}

/// The bytes of chunk number `i` of a file with the given content.
pub open spec fn chunk_bytes(content: Seq<u8>, i: nat) -> Seq<u8> {
    content.subrange(
        chunk_start(content.len() as int, i),
        chunk_start(content.len() as int, i) + chunk_size(content.len() as int, i),
    )
}

/// Every slot of the ledger holds the digest of the chunk of `content`
/// that belongs there; no read has failed.
pub open spec fn faithful(ledger: Seq<Option<Chunk>>, content: Seq<u8>) -> bool {
    forall|i: int|
        0 <= i < ledger.len() ==> (#[trigger] ledger[i]) == Some(
            chunk_of(chunk_bytes(content, i as nat)),
        )
}

/// The ledger covers the whole file.
pub open spec fn complete(ledger: Seq<Option<Chunk>>, size: int) -> bool {
    chunk_start(size, ledger.len()) >= size
}

/// A byte string is equal to itself in the order of digests.
pub proof fn bytes_order_is_reflexive(a: Seq<u8>, from: int)
    ensures
        bytes_order(a, a, from) == Order::Equal,
    decreases a.len() - from,
{
    if 0 <= from < a.len() {
        bytes_order_is_reflexive(a, from + 1);
    }
}

/// Byte strings of one length are equal in the order of digests only if
/// they are the same.
pub proof fn bytes_order_equal_means_same(a: Seq<u8>, b: Seq<u8>, from: int)
    requires
        a.len() == b.len(),
        0 <= from,
        bytes_order(a, b, from) == Order::Equal,
    ensures
        forall|k: int| from <= k < a.len() ==> a[k] == b[k],
    decreases a.len() - from,
{
    if from < a.len() {
        bytes_order_equal_means_same(a, b, from + 1);
    }
}

/// Two chunks with digests of one length are equal in the order of chunks
/// exactly if they have the same size and the same digest.
pub proof fn chunk_order_equal_means_same(x: Chunk, y: Chunk)
    requires
        x.hash.len() == y.hash.len(),
    ensures
        chunk_order(x, y) == Order::Equal <==> x == y,
{
    if chunk_order(x, y) == Order::Equal {
        bytes_order_equal_means_same(x.hash, y.hash, 0);
        assert(x.hash =~= y.hash);
    }
    if x == y {
        bytes_order_is_reflexive(x.hash, 0);
    }
}

/// A ledger that holds the digests of a file agrees with the chunk schedule
/// of that file.
pub proof fn faithful_ledger_fits(ledger: Seq<Option<Chunk>>, content: Seq<u8>)
    requires
        faithful(ledger, content),
        content.len() <= u64::MAX,
    ensures
        ledger_fits(ledger, content.len() as int),
{
    assert forall|i: int| 0 <= i < ledger.len() implies ((#[trigger] ledger[i]) matches Some(c)
        ==> c.size as int == chunk_size(content.len() as int, i as nat)) by {
        lemma_cursor_bounds(content.len() as int, i as nat);
    }
}

/// A ledger stays faithful to a file when the chunk that is supplied is the
/// chunk of that file.
pub proof fn supplying_the_file_keeps_faith(ledger: Seq<Option<Chunk>>, content: Seq<u8>, i: nat)
    requires
        faithful(ledger, content),
    ensures
        faithful(
            filled(ledger, content.len() as int, i, Some(chunk_bytes(content, i))),
            content,
        ),
{
    lemma_cursor_bounds(content.len() as int, i);
}

/// Files with the same bytes are never told apart: as long as no read
/// fails, comparing their ledgers either finds them equal or asks for a
/// chunk that has not been read yet. Once both ledgers cover the file, the
/// verdict is "equal".
pub proof fn same_bytes_compare_equal(
    a: Seq<Option<Chunk>>,
    b: Seq<Option<Chunk>>,
    content: Seq<u8>,
    i: nat,
)
    requires
        faithful(a, content),
        faithful(b, content),
    ensures
        compare_from(a, b, content.len() as int, i).0 is Read || compare_from(
            a,
            b,
            content.len() as int,
            i,
        ).0 == Comparison::Done(Order::Equal),
        complete(a, content.len() as int) && complete(b, content.len() as int) ==> compare_from(
            a,
            b,
            content.len() as int,
            i,
        ).0 == Comparison::Done(Order::Equal),
    decreases a.len() - i,
{
    let size = content.len() as int;
    match probe(a, b, size, i) {
        Step::Compared(order) => {
            bytes_order_is_reflexive(a[i as int]->0.hash, 0);
            same_bytes_compare_equal(a, b, content, i + 1);
        },
        Step::Read(_) => {
            if complete(a, size) && complete(b, size) {
                if missing(a, i as int) {
                    chunk_starts_are_monotonic(size, a.len(), i);
                } else {
                    chunk_starts_are_monotonic(size, b.len(), i);
                }
            }
        },
        _ => {},
    }
}

/// Both ledgers hold a digest in slot `j`, and the two digests are equal.
pub open spec fn agree_on(a: Seq<Option<Chunk>>, b: Seq<Option<Chunk>>, j: int) -> bool {
    &&& 0 <= j < a.len()
    &&& j < b.len()
    &&& a[j] is Some
    &&& b[j] is Some
    &&& chunk_order(a[j]->0, b[j]->0) == Order::Equal
}

/// The ledgers agree on every slot before `slot`.
pub open spec fn agree_before(a: Seq<Option<Chunk>>, b: Seq<Option<Chunk>>, slot: nat) -> bool {
    forall|j: int| 0 <= j < slot ==> agree_on(a, b, j)
}

/// The ledgers agree on every chunk of a file of `size` bytes.
pub open spec fn agree_throughout(a: Seq<Option<Chunk>>, b: Seq<Option<Chunk>>, size: int) -> bool {
    forall|j: int| 0 <= j && chunk_start(size, j as nat) < size ==> agree_on(a, b, j)
}

/// A walk that does not end with a difference has found the ledgers to
/// agree on every slot that it passed.
pub proof fn walked_slots_agree(
    a: Seq<Option<Chunk>>,
    b: Seq<Option<Chunk>>,
    size: int,
    i: nat,
    j: nat,
)
    requires
        i <= j < compare_from(a, b, size, i).1,
        compare_from(a, b, size, i).0 is Done ==> compare_from(a, b, size, i).0
            == Comparison::Done(Order::Equal),
    ensures
        agree_on(a, b, j as int),
    decreases a.len() - i,
{
    match probe(a, b, size, i) {
        Step::Compared(order) => {
            if i < j {
                walked_slots_agree(a, b, size, i + 1, j);
            }
        },
        _ => {},
    }
}

/// Two files are found equal only if their ledgers agree up to the length
/// of the file: every chunk has been read for both, and for both it has the
/// same digest.
pub proof fn equal_means_same_digests(
    a: Seq<Option<Chunk>>,
    b: Seq<Option<Chunk>>,
    size: int,
    i: nat,
    j: nat,
)
    requires
        0 <= size,
        compare_from(a, b, size, i).0 == Comparison::Done(Order::Equal),
        i <= j,
        chunk_start(size, j) < size,
    ensures
        agree_on(a, b, j as int),
    decreases a.len() - i,
{
    match probe(a, b, size, i) {
        Step::Compared(order) => {
            if i < j {
                equal_means_same_digests(a, b, size, i + 1, j);
            }
        },
        Step::End => {
            chunk_starts_are_monotonic(size, i, j);
        },
        _ => {},
    }
}

} // verus!
