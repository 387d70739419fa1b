//! Path names as text: components, file names and sibling names.

use vstd::prelude::*;
use vstd::std_specs::iter::IteratorSpec;

verus! {

/// The characters of a string, one by one.
pub fn chars_of(s: &str) -> (r: Vec<char>)
    ensures
        r@ == s@,
{
    broadcast use vstd::string::group_string_axioms;

    let mut it = s.chars();
    let mut v: Vec<char> = Vec::new();
    loop
        invariant
            v@.len() <= s@.len(),
            v@ == s@.take(v@.len() as int),
            IteratorSpec::remaining(&it) == s@.skip(v@.len() as int),
            it.obeys_prophetic_iter_laws(),
            IteratorSpec::decrease(&it) is Some,
        decreases IteratorSpec::decrease(&it)->0,
    {
        match it.next() {
            Some(c) => {
                v.push(c);
                assert(v@ =~= s@.take(v@.len() as int));
                assert(IteratorSpec::remaining(&it) =~= s@.skip(v@.len() as int));
            },
            None => {
                assert(v@ =~= s@);
                return v;
            },
        }
    }
}

/// Name under which a link is first created, before it takes the place of
/// the path it replaces.
pub const TEMP_NAME: &'static str = ".tmp-dupe-e1iIQcBFn5pC4MUSm-xkcd-221";

/// Number of characters of `path` up to and including its last separator; 0
/// when it has none.
pub open spec fn dir_len(path: Seq<char>) -> int
    decreases path.len(),
{
    if path.len() == 0 {
        0
    } else if path.last() == '/' {
        path.len() as int
    } else {
        dir_len(path.drop_last())
    }
}

/// The text after the last separator: the name of the entry in its
/// directory.
pub open spec fn file_name(path: Seq<char>) -> Seq<char> {
    path.skip(dir_len(path))
}

/// The sibling of `path` under the temporary name.
pub open spec fn temp_path(path: Seq<char>) -> Seq<char> {
    path.take(dir_len(path)) + TEMP_NAME@
}

pub proof fn lemma_dir_len_bounds(path: Seq<char>)
    ensures
        0 <= dir_len(path) <= path.len(),
    decreases path.len(),
{
    if path.len() > 0 && path.last() != '/' {
        lemma_dir_len_bounds(path.drop_last());
    }
}

/// Computes `dir_len`.
pub fn dir_len_of(chars: &Vec<char>) -> (r: usize)
    ensures
        r == dir_len(chars@),
{
    let mut n: usize = chars.len();
    assert(chars@.take(n as int) =~= chars@);
    while n > 0
        invariant
            n <= chars@.len(),
            dir_len(chars@) == dir_len(chars@.take(n as int)),
        decreases n,
    {
        if chars[n - 1] == '/' {
            return n;
        }
        assert(chars@.take(n as int).drop_last() =~= chars@.take(n - 1));
        n -= 1;
    }
    assert(chars@.take(0) =~= Seq::<char>::empty());
    0
}

/// The name of the entry that `path` leads to.
pub fn file_name_of(path: &str) -> (r: String)
    ensures
        r@ == file_name(path@),
{
    let chars = chars_of(path);
    let k = dir_len_of(&chars);
    proof {
        lemma_dir_len_bounds(path@);
    }
    String::from_str(path.substring_char(k, chars.len()))
}

/// The path next to `dest` under which its replacement is prepared.
pub fn temp_path_of(dest: &str) -> (r: String)
    ensures
        r@ == temp_path(dest@),
{
    let chars = chars_of(dest);
    let k = dir_len_of(&chars);
    proof {
        lemma_dir_len_bounds(dest@);
    }
    let mut r = String::from_str(dest.substring_char(0, k));
    r.append(TEMP_NAME);
    r
}

/// Number of characters from position `from` on that come before the next
/// separator.
pub open spec fn run_len(path: Seq<char>, from: int) -> nat
    decreases path.len() - from,
{
    if from < 0 || from >= path.len() || path[from] == '/' {
        0
    } else {
        1 + run_len(path, from + 1)
    }
}

/// The components of `path` that start at position `from` or later. Empty
/// components are left out, and so is every component `.` except one that
/// comes first.
pub open spec fn components_from(path: Seq<char>, from: int, first: bool) -> Seq<Seq<char>>
    decreases
            if from <= path.len() {
                path.len() - from
            } else {
                0
            },
{
    if from < 0 || from >= path.len() {
        Seq::empty()
    } else if path[from] == '/' {
        components_from(path, from + 1, first)
    } else {
        let end = from + 1 + run_len(path, from + 1);
        let part = path.subrange(from, end);
        if part == seq!['.'] && !first {
            components_from(path, end, false)
        } else {
            seq![part] + components_from(path, end, false)
        }
    }
}

/// The components of a path: the root `/` if the path starts with it, then
/// the names between the separators.
pub open spec fn components(path: Seq<char>) -> Seq<Seq<char>> {
    if path.len() > 0 && path[0] == '/' {
        seq![seq!['/']] + components_from(path, 1, false)
    } else {
        components_from(path, 0, true)
    }
}

/// The pieces of `path` that the ranges cut out.
pub open spec fn cut(path: Seq<char>, ranges: Seq<(usize, usize)>) -> Seq<Seq<char>> {
    Seq::new(ranges.len(), |k: int| path.subrange(ranges[k].0 as int, ranges[k].1 as int))
}

/// Every range lies inside a text of `len` characters.
pub open spec fn ranges_within(ranges: Seq<(usize, usize)>, len: nat) -> bool {
    forall|k: int| 0 <= k < ranges.len() ==> (#[trigger] ranges[k]).0 <= ranges[k].1 <= len
}

/// Where in `chars` its components lie, as ranges of positions.
pub fn component_ranges(chars: &Vec<char>) -> (r: Vec<(usize, usize)>)
    ensures
        ranges_within(r@, chars@.len()),
        cut(chars@, r@) == components(chars@),
{
    let n = chars.len();
    let mut out: Vec<(usize, usize)> = Vec::new();
    let mut pos: usize = 0;
    let mut first = true;
    if n > 0 && chars[0] == '/' {
        out.push((0, 1));
        pos = 1;
        first = false;
        assert(chars@.subrange(0, 1) =~= seq!['/']);
        assert(cut(chars@, out@) =~= seq![seq!['/']]);
    } else {
        assert(cut(chars@, out@) =~= Seq::<Seq<char>>::empty());
    }
    while pos < n
        invariant
            n == chars@.len(),
            0 <= pos <= n,
            ranges_within(out@, chars@.len()),
            components(chars@) == cut(chars@, out@) + components_from(chars@, pos as int, first),
        decreases n - pos,
    {
        if chars[pos] == '/' {
            pos += 1;
            continue ;
        }
        let start = pos;
        let mut end = pos + 1;
        while end < n && chars[end] != '/'
            invariant
                n == chars@.len(),
                start < end <= n,
                start + 1 + run_len(chars@, start + 1) == end + run_len(chars@, end as int),
            decreases n - end,
        {
            end += 1;
        }
        let is_dot = end - start == 1 && chars[start] == '.';
        let ghost part = chars@.subrange(start as int, end as int);
        proof {
            assert(run_len(chars@, end as int) == 0);
            if is_dot {
                assert(part =~= seq!['.']);
            } else if part == seq!['.'] {
                assert(part.len() == 1);
                assert(part[0] == '.');
            }
        }
        if !(is_dot && !first) {
            let ghost before = out@;
            out.push((start, end));
            first = false;
            assert(cut(chars@, out@) =~= cut(chars@, before) + seq![part]);
        }
        pos = end;
    }
    assert(cut(chars@, out@) + Seq::<Seq<char>>::empty() =~= cut(chars@, out@));
    out
}

/// Whether two ranges of two texts hold the same characters.
pub fn same_text(a: &Vec<char>, ra: (usize, usize), b: &Vec<char>, rb: (usize, usize)) -> (r: bool)
    requires
        ra.0 <= ra.1 <= a@.len(),
        rb.0 <= rb.1 <= b@.len(),
    ensures
        r == (a@.subrange(ra.0 as int, ra.1 as int) == b@.subrange(rb.0 as int, rb.1 as int)),
{
    let ghost x = a@.subrange(ra.0 as int, ra.1 as int);
    let ghost y = b@.subrange(rb.0 as int, rb.1 as int);
    if ra.1 - ra.0 != rb.1 - rb.0 {
        assert(x.len() != y.len());
        return false;
    }
    let len = ra.1 - ra.0;
    let mut i: usize = 0;
    while i < len
        invariant
            0 <= i <= len,
            len == ra.1 - ra.0,
            len == rb.1 - rb.0,
            ra.1 <= a@.len(),
            rb.1 <= b@.len(),
            x == a@.subrange(ra.0 as int, ra.1 as int),
            y == b@.subrange(rb.0 as int, rb.1 as int),
            forall|j: int| 0 <= j < i ==> x[j] == y[j],
        decreases len - i,
    {
        if a[ra.0 + i] != b[rb.0 + i] {
            assert(x[i as int] != y[i as int]);
            return false;
        }
        i += 1;
    }
    assert(x =~= y);
    true
}

} // verus!
