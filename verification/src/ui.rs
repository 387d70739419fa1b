//! Text for the console: progress lines, and how a pair of paths is shown.

use vstd::prelude::*;
use crate::paths::{
    chars_of, component_ranges, components, cut, dir_len, dir_len_of, lemma_dir_len_bounds,
    ranges_within, same_text,
};
use crate::stats::Stats;

verus! {

/// Number of leading components that two paths share, counted from `i` on.
pub open spec fn common_prefix(a: Seq<Seq<char>>, b: Seq<Seq<char>>, i: nat) -> nat
    decreases a.len() - i,
{
    if i < a.len() && i < b.len() && a[i as int] == b[i as int] {
        common_prefix(a, b, i + 1)
    } else {
        i
    }
}

/// Number of trailing components that two paths share, counted from `k` on
/// and never more than `limit`.
pub open spec fn common_suffix(a: Seq<Seq<char>>, b: Seq<Seq<char>>, limit: nat, k: nat) -> nat
    decreases limit - k,
{
    if k < limit && k < a.len() && k < b.len() && a[a.len() - 1 - k] == b[b.len() - 1 - k] {
        common_suffix(a, b, limit, k + 1)
    } else {
        k
    }
}

/// The smaller of two numbers.
pub open spec fn least(a: nat, b: nat) -> nat {
    if a <= b {
        a
    } else {
        b
    }
}

/// The shared leading components as text: each is followed by a separator,
/// except the root, which is one.
pub open spec fn render_prefix(parts: Seq<Seq<char>>) -> Seq<char>
    decreases parts.len(),
{
    if parts.len() == 0 {
        Seq::empty()
    } else if parts.last() == seq!['/'] {
        render_prefix(parts.drop_last()) + parts.last()
    } else {
        render_prefix(parts.drop_last()) + parts.last() + seq!['/']
    }
}

/// Components joined by separators.
pub open spec fn join(parts: Seq<Seq<char>>) -> Seq<char>
    decreases parts.len(),
{
    if parts.len() == 0 {
        Seq::empty()
    } else if parts.len() == 1 {
        parts[0]
    } else {
        join(parts.drop_last()) + seq!['/'] + parts.last()
    }
}

/// The components in which a path differs from the other, as text: `.` if
/// there are none.
pub open spec fn render_middle(parts: Seq<Seq<char>>) -> Seq<char> {
    if parts.len() == 0 {
        seq!['.']
    } else {
        join(parts)
    }
}

/// The shared trailing components as text, each after a separator.
pub open spec fn render_suffix(parts: Seq<Seq<char>>) -> Seq<char>
    decreases parts.len(),
{
    if parts.len() == 0 {
        Seq::empty()
    } else {
        render_suffix(parts.drop_last()) + seq!['/'] + parts.last()
    }
}

/// The four pieces of which the text for two paths is made.
pub struct Parts {
    /// What both paths start with.
    pub prefix: Seq<char>,
    /// Where the first path differs.
    pub left: Seq<char>,
    /// Where the second path differs.
    pub right: Seq<char>,
    /// What both paths end with.
    pub suffix: Seq<char>,
}

/// Cuts two paths into what they share at the start, what they share at the
/// end, and the two middles in which they differ. A trailing component
/// counts as shared only if it is not already part of the shared start.
pub open spec fn parts_of(a: Seq<char>, b: Seq<char>) -> Parts {
    let ca = components(a);
    let cb = components(b);
    let pre = common_prefix(ca, cb, 0);
    let limit = (least(ca.len(), cb.len()) - pre) as nat;
    let suf = common_suffix(ca, cb, limit, 0);
    Parts {
        prefix: render_prefix(ca.take(pre as int)),
        left: render_middle(ca.subrange(pre as int, ca.len() - suf)),
        right: render_middle(cb.subrange(pre as int, cb.len() - suf)),
        suffix: render_suffix(cb.skip(cb.len() - suf)),
    }
}

/// The text for the pieces: `prefix{left => right}suffix`.
pub open spec fn render(p: Parts) -> Seq<char> {
    p.prefix + seq!['{'] + p.left + seq![' ', '=', '>', ' '] + p.right + seq!['}'] + p.suffix
}

/// Two paths as one text that shows what they share only once.
pub open spec fn combined(a: Seq<char>, b: Seq<char>) -> Seq<char> {
    render(parts_of(a, b))
}

proof fn lemma_prefix_bounds(a: Seq<Seq<char>>, b: Seq<Seq<char>>, i: nat)
    requires
        i <= a.len(),
        i <= b.len(),
    ensures
        i <= common_prefix(a, b, i) <= least(a.len(), b.len()),
        common_prefix(a, b, i) == common_prefix(b, a, i),
        forall|k: int| i <= k < common_prefix(a, b, i) ==> a[k] == b[k],
    decreases a.len() - i,
{
    if i < a.len() && i < b.len() && a[i as int] == b[i as int] {
        lemma_prefix_bounds(a, b, i + 1);
    }
}

proof fn lemma_suffix_bounds(a: Seq<Seq<char>>, b: Seq<Seq<char>>, limit: nat, k: nat)
    requires
        k <= limit,
        limit <= a.len(),
        limit <= b.len(),
    ensures
        k <= common_suffix(a, b, limit, k) <= limit,
        common_suffix(a, b, limit, k) == common_suffix(b, a, limit, k),
        forall|x: int|
            a.len() - common_suffix(a, b, limit, k) <= x < a.len() - k ==> (#[trigger] a[x]) == b[x
                - a.len() + b.len()],
    decreases limit - k,
{
    if k < limit && k < a.len() && k < b.len() && a[a.len() - 1 - k] == b[b.len() - 1 - k] {
        lemma_suffix_bounds(a, b, limit, k + 1);
    }
}

/// Swapping the two paths swaps the two middles and nothing else: the text
/// before the braces and the text after them stay as they are.
pub proof fn swapping_paths_swaps_middles(a: Seq<char>, b: Seq<char>)
    ensures
        parts_of(b, a) == (Parts {
            prefix: parts_of(a, b).prefix,
            left: parts_of(a, b).right,
            right: parts_of(a, b).left,
            suffix: parts_of(a, b).suffix,
        }),
{
    let ca = components(a);
    let cb = components(b);
    lemma_prefix_bounds(ca, cb, 0);
    let pre = common_prefix(ca, cb, 0);
    let limit = (least(ca.len(), cb.len()) - pre) as nat;
    lemma_suffix_bounds(ca, cb, limit, 0);
    let suf = common_suffix(ca, cb, limit, 0);
    assert(ca.take(pre as int) =~= cb.take(pre as int));
    assert(ca.skip(ca.len() - suf) =~= cb.skip(cb.len() - suf));
}

/// Appends the components `from..to` of `text`, joined by separators, or `.`
/// if there are none.
fn append_middle(
    out: &mut String,
    text: &str,
    ranges: &Vec<(usize, usize)>,
    from: usize,
    to: usize,
)
    requires
        ranges_within(ranges@, text@.len()),
        from <= to <= ranges@.len(),
    ensures
        final(out)@ == old(out)@ + render_middle(
            cut(text@, ranges@).subrange(from as int, to as int),
        ),
{
    let ghost parts = cut(text@, ranges@).subrange(from as int, to as int);
    if from == to {
        proof {
            reveal_strlit(".");
            assert("."@ =~= seq!['.']);
        }
        out.append(".");
        return ;
    }
    let mut i = from;
    while i < to
        invariant
            from <= i <= to <= ranges@.len(),
            ranges_within(ranges@, text@.len()),
            parts == cut(text@, ranges@).subrange(from as int, to as int),
            out@ == old(out)@ + join(parts.take(i - from)),
        decreases to - i,
    {
        let ghost before = out@;
        let ghost done = parts.take(i - from);
        let ghost more = parts.take(i + 1 - from);
        proof {
            assert(more.drop_last() =~= done);
            assert(more.last() == text@.subrange(ranges@[i as int].0 as int, ranges@[i as int].1 as int));
        }
        if i > from {
            proof {
                reveal_strlit("/");
                assert("/"@ =~= seq!['/']);
            }
            out.append("/");
        }
        out.append(text.substring_char(ranges[i].0, ranges[i].1));
        proof {
            if i == from {
                assert(done =~= Seq::<Seq<char>>::empty());
                assert(join(done) =~= Seq::<char>::empty());
                assert(out@ =~= old(out)@ + join(more));
            } else {
                assert(out@ =~= old(out)@ + join(more));
            }
        }
        i += 1;
    }
    assert(parts.take(to - from) =~= parts);
}

/// Shows two paths as one text: what they start with and what they end
/// with is written once, and between the two, in braces, where the first
/// path differs and where the second does.
pub fn combined_paths(base: &str, relativize: &str) -> (r: String)
    ensures
        r@ == combined(base@, relativize@),
{
    let a = chars_of(base);
    let b = chars_of(relativize);
    let ra = component_ranges(&a);
    let rb = component_ranges(&b);
    let ghost ca = components(base@);
    let ghost cb = components(relativize@);
    assert(ca.len() == ra@.len());
    assert(cb.len() == rb@.len());

    let shorter = if ra.len() <= rb.len() {
        ra.len()
    } else {
        rb.len()
    };
    let mut pre: usize = 0;
    let mut differ = false;
    while pre < shorter && !differ
        invariant
            0 <= pre <= shorter,
            differ ==> pre < shorter && ca[pre as int] != cb[pre as int],
            shorter == least(ca.len(), cb.len()),
            ca == cut(a@, ra@),
            cb == cut(b@, rb@),
            ranges_within(ra@, a@.len()),
            ranges_within(rb@, b@.len()),
            common_prefix(ca, cb, 0) == common_prefix(ca, cb, pre as nat),
        decreases
                shorter - pre + if differ {
                    0int
                } else {
                    1int
                },
    {
        if same_text(&a, ra[pre], &b, rb[pre]) {
            pre += 1;
        } else {
            differ = true;
        }
    }
    let limit = shorter - pre;
    let mut suf: usize = 0;
    let mut differ = false;
    while suf < limit && !differ
        invariant
            0 <= suf <= limit,
            differ ==> suf < limit && ca[ca.len() - 1 - suf] != cb[cb.len() - 1 - suf],
            limit + pre == shorter,
            shorter == least(ca.len(), cb.len()),
            ca == cut(a@, ra@),
            cb == cut(b@, rb@),
            ca.len() == ra@.len(),
            cb.len() == rb@.len(),
            ranges_within(ra@, a@.len()),
            ranges_within(rb@, b@.len()),
            common_suffix(ca, cb, limit as nat, 0) == common_suffix(ca, cb, limit as nat, suf as nat),
        decreases
                limit - suf + if differ {
                    0int
                } else {
                    1int
                },
    {
        if same_text(&a, ra[ra.len() - 1 - suf], &b, rb[rb.len() - 1 - suf]) {
            suf += 1;
        } else {
            differ = true;
        }
    }
    assert(pre == common_prefix(ca, cb, 0));
    assert(suf == common_suffix(ca, cb, limit as nat, 0));

    let mut out = String::new();
    let mut i: usize = 0;
    while i < pre
        invariant
            0 <= i <= pre <= ra@.len(),
            ca == cut(a@, ra@),
            a@ == base@,
            ranges_within(ra@, a@.len()),
            out@ == render_prefix(ca.take(i as int)),
        decreases pre - i,
    {
        let ghost done = ca.take(i as int);
        let ghost more = ca.take(i + 1);
        let range = ra[i];
        proof {
            assert(more.drop_last() =~= done);
            assert(more.last() == base@.subrange(range.0 as int, range.1 as int));
        }
        out.append(base.substring_char(range.0, range.1));
        let is_root = range.1 - range.0 == 1 && a[range.0] == '/';
        proof {
            if is_root {
                assert(more.last() =~= seq!['/']);
            } else if more.last() == seq!['/'] {
                assert(more.last().len() == 1);
                assert(more.last()[0] == '/');
            }
        }
        if !is_root {
            proof {
                reveal_strlit("/");
                assert("/"@ =~= seq!['/']);
            }
            out.append("/");
        }
        i += 1;
    }
    let ghost prefix = out@;
    proof {
        reveal_strlit("{");
        reveal_strlit(" => ");
        reveal_strlit("}");
        assert("{"@ =~= seq!['{']);
        assert(" => "@ =~= seq![' ', '=', '>', ' ']);
        assert("}"@ =~= seq!['}']);
    }
    out.append("{");
    append_middle(&mut out, base, &ra, pre, ra.len() - suf);
    out.append(" => ");
    append_middle(&mut out, relativize, &rb, pre, rb.len() - suf);
    out.append("}");
    let ghost head = out@;
    let first = rb.len() - suf;
    let mut k: usize = first;
    while k < rb.len()
        invariant
            first <= k <= rb@.len(),
            cb == cut(b@, rb@),
            b@ == relativize@,
            ranges_within(rb@, b@.len()),
            out@ == head + render_suffix(cb.subrange(first as int, k as int)),
        decreases rb@.len() - k,
    {
        let ghost done = cb.subrange(first as int, k as int);
        let ghost more = cb.subrange(first as int, k + 1);
        let range = rb[k];
        proof {
            assert(more.drop_last() =~= done);
            assert(more.last() == relativize@.subrange(range.0 as int, range.1 as int));
            reveal_strlit("/");
            assert("/"@ =~= seq!['/']);
        }
        out.append("/");
        out.append(relativize.substring_char(range.0, range.1));
        assert(out@ =~= head + render_suffix(more));
        k += 1;
    }
    proof {
        assert(cb.subrange(first as int, rb@.len() as int) =~= cb.skip(first as int));
        let p = parts_of(base@, relativize@);
        assert(out@ =~= render(p));
    }
    out
}

/// The character for one decimal digit.
pub open spec fn digit(d: int) -> char {
    if d == 0 {
        '0'
    } else if d == 1 {
        '1'
    } else if d == 2 {
        '2'
    } else if d == 3 {
        '3'
    } else if d == 4 {
        '4'
    } else if d == 5 {
        '5'
    } else if d == 6 {
        '6'
    } else if d == 7 {
        '7'
    } else if d == 8 {
        '8'
    } else {
        '9'
    }
}

/// A number in decimal notation, without leading zeros.
pub open spec fn decimal(n: nat) -> Seq<char>
    decreases n,
{
    if n < 10 {
        seq![digit(n as int)]
    } else {
        decimal(n / 10).push(digit((n % 10) as int))
    }
}

/// One decimal digit as text.
fn digit_text(d: u64) -> (r: &'static str)
    requires
        d < 10,
    ensures
        r@ == seq![digit(d as int)],
{
    proof {
        reveal_strlit("0");
        reveal_strlit("1");
        reveal_strlit("2");
        reveal_strlit("3");
        reveal_strlit("4");
        reveal_strlit("5");
        reveal_strlit("6");
        reveal_strlit("7");
        reveal_strlit("8");
        reveal_strlit("9");
    }
    let r = if d == 0 {
        "0"
    } else if d == 1 {
        "1"
    } else if d == 2 {
        "2"
    } else if d == 3 {
        "3"
    } else if d == 4 {
        "4"
    } else if d == 5 {
        "5"
    } else if d == 6 {
        "6"
    } else if d == 7 {
        "7"
    } else if d == 8 {
        "8"
    } else {
        "9"
    };
    assert(r@ =~= seq![digit(d as int)]);
    r
}

/// Writes a number in decimal notation.
pub fn decimal_text(n: u64) -> (r: String)
    ensures
        r@ == decimal(n as nat),
    decreases n,
{
    if n < 10 {
        String::from_str(digit_text(n))
    } else {
        let mut r = decimal_text(n / 10);
        r.append(digit_text(n % 10));
        assert(r@ =~= decimal(n as nat));
        r
    }
}

/// The directory in which `path` lies, as it is shown: the path without its
/// last name and the separator before it. The root stands for itself, and a
/// bare name lies in the directory without a name.
pub open spec fn parent(path: Seq<char>) -> Seq<char> {
    if dir_len(path) <= 1 {
        path.take(dir_len(path))
    } else {
        path.take(dir_len(path) - 1)
    }
}

/// The progress line: the totals so far, and where the scan is.
pub open spec fn progress_line(stats: Stats, path: Seq<char>) -> Seq<char> {
    decimal(stats.dupes as nat) + "+"@ + decimal(stats.hardlinks as nat) + " dupes. "@ + decimal(
        stats.added as nat,
    ) + "+"@ + decimal(stats.skipped as nat) + " files scanned. "@ + parent(path) + "/…"@
}

/// The line that closes a scan. `duration` is the time it took, as text.
pub open spec fn summary_line(stats: Stats, duration: Seq<char>) -> Seq<char> {
    "Dupes found: "@ + decimal(stats.dupes as nat) + ". Existing hardlinks: "@ + decimal(
        stats.hardlinks as nat,
    ) + ". Scanned: "@ + decimal(stats.added as nat) + ". Skipped "@ + decimal(
        stats.skipped as nat,
    ) + ". Total scan duration: "@ + duration
}

/// A duration of more than five seconds as text: seconds below a minute,
/// minutes and seconds from there on.
pub open spec fn long_duration(secs: u64) -> Seq<char> {
    if secs < 60 {
        decimal(secs as nat) + "s"@
    } else {
        decimal((secs / 60) as nat) + "m"@ + decimal((secs % 60) as nat) + "s"@
    }
}

/// Writes a duration of whole seconds. Durations of up to five seconds are
/// shown with a fraction, which is left to the caller: for them the result
/// is `None`.
pub fn nice_duration(secs: u64) -> (r: Option<String>)
    ensures
        secs <= 5 ==> r is None,
        secs > 5 ==> r is Some && r->0@ == long_duration(secs),
{
    if secs <= 5 {
        None
    } else if secs < 60 {
        let mut r = decimal_text(secs);
        r.append("s");
        Some(r)
    } else {
        let mut r = decimal_text(secs / 60);
        r.append("m");
        r.append(decimal_text(secs % 60).as_str());
        r.append("s");
        Some(r)
    }
}

/// The text user interface: turns what the scan reports into lines for the
/// console, at most one progress line per second.
#[derive(Debug)]
pub struct UI {
    /// Second of the scan from which the next progress line may be shown.
    pub next_update: u64,
}

impl UI {
    pub fn new() -> (r: UI)
        ensures
            r.next_update == 0,
    {
        UI { next_update: 0 }
    }

    /// The progress line for a path that is about to be looked at, `elapsed`
    /// whole seconds into the scan; `None` while the line of this second or
    /// of a later one has been shown already.
    pub fn file_scanned(&mut self, elapsed: u64, path: &str, stats: &Stats) -> (r: Option<String>)
        ensures
            elapsed > old(self).next_update ==> {
                &&& r is Some
                &&& r->0@ == progress_line(*stats, path@)
                &&& final(self).next_update == if elapsed < u64::MAX {
                    (elapsed + 1) as u64
                } else {
                    elapsed
                }
            },
            elapsed <= old(self).next_update ==> r is None && final(self).next_update == old(
                self,
            ).next_update,
    {
        if elapsed <= self.next_update {
            return None;
        }
        self.next_update = if elapsed < u64::MAX {
            elapsed + 1
        } else {
            elapsed
        };
        let chars = chars_of(path);
        let k = dir_len_of(&chars);
        proof {
            lemma_dir_len_bounds(path@);
        }
        let shown = if k <= 1 {
            k
        } else {
            k - 1
        };
        let mut r = decimal_text(stats.dupes as u64);
        r.append("+");
        r.append(decimal_text(stats.hardlinks as u64).as_str());
        r.append(" dupes. ");
        r.append(decimal_text(stats.added as u64).as_str());
        r.append("+");
        r.append(decimal_text(stats.skipped as u64).as_str());
        r.append(" files scanned. ");
        r.append(path.substring_char(0, shown));
        r.append("/…");
        Some(r)
    }

    /// The line that closes the scan.
    pub fn scan_over(&self, stats: &Stats, duration: &str) -> (r: String)
        ensures
            r@ == summary_line(*stats, duration@),
    {
        let mut r = String::from_str("Dupes found: ");
        r.append(decimal_text(stats.dupes as u64).as_str());
        r.append(". Existing hardlinks: ");
        r.append(decimal_text(stats.hardlinks as u64).as_str());
        r.append(". Scanned: ");
        r.append(decimal_text(stats.added as u64).as_str());
        r.append(". Skipped ");
        r.append(decimal_text(stats.skipped as u64).as_str());
        r.append(". Total scan duration: ");
        r.append(duration);
        r
    }

    /// The line for a path that was replaced by a hardlink.
    pub fn hardlinked(&self, src: &str, dst: &str) -> (r: String)
        ensures
            r@ == "Hardlinked "@ + combined(src@, dst@),
    {
        let mut r = String::from_str("Hardlinked ");
        r.append(combined_paths(src, dst).as_str());
        r
    }

    /// The line for a duplicate that a dry run found.
    pub fn duplicate_found(&self, src: &str, dst: &str) -> (r: String)
        ensures
            r@ == "Found dupe "@ + combined(src@, dst@),
    {
        let mut r = String::from_str("Found dupe ");
        r.append(combined_paths(src, dst).as_str());
        r
    }
}

} // verus!
