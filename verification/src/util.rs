//! Helpers shared by the processor's tool runner: executable name
//! candidates, bounded splitting of a child's output into display lines,
//! the bounded stderr tail kept for diagnostics, and exit-code selection.

use crate::bytes::copy_range;
use crate::path_policy::PathParts;
use crate::scan::strs;
use crate::text::{concat2, trim};
use vstd::utf8::{decode_utf8, encode_utf8, valid_utf8};
use std::collections::VecDeque;
use vstd::prelude::*;
use vstd::string::StringExecFns;

verus! {

/// Longest display line handed to the log before it is cut into fragments.
pub const MAX_DISPLAY_LINE_BYTES: usize = 65536;

/// Most lines kept in the stderr tail.
pub const STDERR_TAIL_LINES: usize = 100;

/// Most bytes (each line counted with one separator) kept in the stderr tail.
pub const STDERR_TAIL_BYTES: usize = 65536;

/// Candidate executable names for a tool: the bare name and the Windows
/// `.exe` name.
pub fn bin_names(stem: &str) -> (names: [String; 2])
    ensures
        names@[0]@ == stem@,
        names@[1]@ == stem@ + ".exe"@,
{
    [stem.to_owned(), stem.to_owned().concat(".exe")]
}

/// The outcome of running an external tool: its exit code, the tail of
/// its stderr, and its peak memory when it could be measured.
#[derive(Debug, Clone, PartialEq, Eq)]
pub struct CommandResult {
    pub exit_code: i32,
    pub stderr_tail: String,
    pub peak_memory_bytes: Option<u64>,
}

/// One piece of a child's output handed to the log.
pub struct Fragment {
    pub bytes: Vec<u8>,
    /// The piece was cut from a longer line.
    pub truncated: bool,
}

/// All bytes of a list of fragments, in order.
pub open spec fn fragments_bytes(f: Seq<Fragment>) -> Seq<u8>
    decreases f.len(),
{
    if f.len() == 0 {
        Seq::empty()
    } else {
        fragments_bytes(f.drop_last()) + f.last().bytes@
    }
}

proof fn lemma_fragments_push(f: Seq<Fragment>, x: Fragment)
    ensures
        fragments_bytes(f.push(x)) == fragments_bytes(f) + x.bytes@,
{
    assert(f.push(x).drop_last() =~= f);
}

/// Every fragment has at most `max` bytes and a cut fragment exactly `max`.
pub open spec fn fragments_bounded(f: Seq<Fragment>, max: int) -> bool {
    forall|i: int|
        0 <= i < f.len() ==> f[i].bytes@.len() <= max && (f[i].truncated ==> f[i].bytes@.len()
            == max)
}

/// No byte of `s` is a newline.
pub open spec fn no_newline(s: Seq<u8>) -> bool {
    forall|i: int| 0 <= i < s.len() ==> s[i] != 0x0au8
}

/// Every fragment marked as cut has exactly `max` bytes.
pub open spec fn cuts_exact(f: Seq<Fragment>, max: int) -> bool {
    forall|i: int| 0 <= i < f.len() && f[i].truncated ==> f[i].bytes@.len() == max
}

/// The fragments as (bytes, cut) pairs.
pub open spec fn frag_views(f: Seq<Fragment>) -> Seq<(Seq<u8>, bool)> {
    f.map_values(|x: Fragment| (x.bytes@, x.truncated))
}

/// The `max`-byte pieces cut from the front of `s` while more than `max`
/// bytes remain, each marked as cut.
pub open spec fn cut_pieces(s: Seq<u8>, max: nat) -> Seq<(Seq<u8>, bool)>
    decreases s.len(),
{
    if max == 0 || s.len() <= max {
        Seq::empty()
    } else {
        seq![(s.take(max as int), true)] + cut_pieces(s.skip(max as int), max)
    }
}

/// What is left of `s` once the pieces of `cut_pieces` are taken off: at
/// most `max` bytes, and never empty unless `s` is.
pub open spec fn cut_rest(s: Seq<u8>, max: nat) -> Seq<u8>
    decreases s.len(),
{
    if max == 0 || s.len() <= max {
        s
    } else {
        cut_rest(s.skip(max as int), max)
    }
}

/// `s` cut for display: `max`-byte pieces marked as cut while more than
/// `max` bytes remain, then the rest, unmarked, if there is any.
pub open spec fn bounded_pieces(s: Seq<u8>, max: nat) -> Seq<(Seq<u8>, bool)> {
    cut_pieces(s, max) + if cut_rest(s, max).len() > 0 {
        seq![(cut_rest(s, max), false)]
    } else {
        Seq::empty()
    }
}

/// The pieces of one complete line: cut to `max` when `split`, else whole.
pub open spec fn line_pieces(line: Seq<u8>, max: nat, split: bool) -> Seq<(Seq<u8>, bool)> {
    if split {
        bounded_pieces(line, max)
    } else {
        seq![(line, false)]
    }
}

/// `s` split at every newline: the complete lines, each ending in its
/// newline, and the partial line after the last newline.
pub open spec fn line_split(s: Seq<u8>) -> (Seq<Seq<u8>>, Seq<u8>)
    decreases s.len(),
{
    if s.len() == 0 {
        (Seq::empty(), Seq::empty())
    } else {
        let (lines, rest) = line_split(s.drop_last());
        if s.last() == 0x0au8 {
            (lines.push(rest.push(0x0au8)), Seq::empty())
        } else {
            (lines, rest.push(s.last()))
        }
    }
}

/// The pieces of the complete lines, in order.
pub open spec fn pieces_of_lines(ls: Seq<Seq<u8>>, max: nat, split: bool) -> Seq<(Seq<u8>, bool)>
    decreases ls.len(),
{
    if ls.len() == 0 {
        Seq::empty()
    } else {
        pieces_of_lines(ls.drop_last(), max, split) + line_pieces(ls.last(), max, split)
    }
}

proof fn lemma_frag_views_push(f: Seq<Fragment>, x: Fragment)
    ensures
        frag_views(f.push(x)) == frag_views(f).push((x.bytes@, x.truncated)),
{
    assert(frag_views(f.push(x)) =~= frag_views(f).push((x.bytes@, x.truncated)));
}

/// Each cut piece has exactly `max` bytes and is marked; the rest has at
/// most `max` bytes and is empty only when `s` is.
pub proof fn lemma_cut_shape(s: Seq<u8>, max: nat)
    requires
        max > 0,
    ensures
        forall|i: int|
            0 <= i < cut_pieces(s, max).len() ==> (#[trigger] cut_pieces(s, max)[i]).0.len() == max
                && cut_pieces(s, max)[i].1,
        cut_rest(s, max).len() <= max,
        cut_rest(s, max).len() > 0 <==> s.len() > 0,
    decreases s.len(),
{
    if s.len() > max {
        lemma_cut_shape(s.skip(max as int), max);
        let head = seq![(s.take(max as int), true)];
        let tail = cut_pieces(s.skip(max as int), max);
        assert forall|i: int| 0 <= i < cut_pieces(s, max).len() implies (#[trigger] cut_pieces(
            s,
            max,
        )[i]).0.len() == max && cut_pieces(s, max)[i].1 by {
            if i > 0 {
                assert(cut_pieces(s, max)[i] == tail[i - 1]);
            }
        }
    }
}

fn push_full_pieces(out: &mut Vec<Fragment>, src: &[u8], from: usize, to: usize, max: usize) -> (end:
    usize)
    requires
        from <= to <= src@.len(),
        max > 0,
        cuts_exact(old(out)@, max as int),
    ensures
        from <= end <= to,
        to - end <= max,
        fragments_bytes(final(out)@) == fragments_bytes(old(out)@) + src@.subrange(
            from as int,
            end as int,
        ),
        frag_views(final(out)@) == frag_views(old(out)@) + cut_pieces(
            src@.subrange(from as int, to as int),
            max as nat,
        ),
        src@.subrange(end as int, to as int) == cut_rest(
            src@.subrange(from as int, to as int),
            max as nat,
        ),
        cuts_exact(final(out)@, max as int),
        fragments_bounded(old(out)@, max as int) ==> fragments_bounded(final(out)@, max as int),
{
    let mut start = from;
    while to - start > max
        invariant
            from <= start <= to <= src@.len(),
            max > 0,
            cuts_exact(out@, max as int),
            fragments_bounded(old(out)@, max as int) ==> fragments_bounded(out@, max as int),
            fragments_bytes(out@) == fragments_bytes(old(out)@) + src@.subrange(
                from as int,
                start as int,
            ),
            frag_views(out@) + cut_pieces(src@.subrange(start as int, to as int), max as nat)
                == frag_views(old(out)@) + cut_pieces(
                src@.subrange(from as int, to as int),
                max as nat,
            ),
            cut_rest(src@.subrange(start as int, to as int), max as nat) == cut_rest(
                src@.subrange(from as int, to as int),
                max as nat,
            ),
        decreases to - start,
    {
        let piece = copy_range(src, start, start + max);
        let ghost before = out@;
        let ghost rem = src@.subrange(start as int, to as int);
        let f = Fragment { bytes: piece, truncated: true };
        proof {
            lemma_fragments_push(before, f);
            lemma_frag_views_push(before, f);
            assert(rem.take(max as int) =~= piece@);
            assert(rem.skip(max as int) =~= src@.subrange(start + max, to as int));
            assert(cut_pieces(rem, max as nat) == seq![(piece@, true)] + cut_pieces(
                src@.subrange(start + max, to as int),
                max as nat,
            ));
            assert(frag_views(before).push((piece@, true)) + cut_pieces(
                src@.subrange(start + max, to as int),
                max as nat,
            ) =~= frag_views(before) + (seq![(piece@, true)] + cut_pieces(
                src@.subrange(start + max, to as int),
                max as nat,
            )));
        }
        out.push(f);
        assert(src@.subrange(from as int, start as int) + src@.subrange(
            start as int,
            start + max,
        ) =~= src@.subrange(from as int, start + max));
        start = start + max;
    }
    assert(frag_views(out@) + Seq::empty() =~= frag_views(out@));
    start
}

fn push_bounded(out: &mut Vec<Fragment>, src: &[u8], from: usize, to: usize, max: usize)
    requires
        from <= to <= src@.len(),
        max > 0,
        cuts_exact(old(out)@, max as int),
    ensures
        fragments_bytes(final(out)@) == fragments_bytes(old(out)@) + src@.subrange(
            from as int,
            to as int,
        ),
        frag_views(final(out)@) == frag_views(old(out)@) + bounded_pieces(
            src@.subrange(from as int, to as int),
            max as nat,
        ),
        cuts_exact(final(out)@, max as int),
        fragments_bounded(old(out)@, max as int) ==> fragments_bounded(final(out)@, max as int),
{
    let ghost whole = src@.subrange(from as int, to as int);
    let start = push_full_pieces(out, src, from, to, max);
    proof {
        lemma_cut_shape(whole, max as nat);
    }
    if start < to {
        let piece = copy_range(src, start, to);
        let ghost before = out@;
        let f = Fragment { bytes: piece, truncated: false };
        proof {
            lemma_fragments_push(before, f);
            lemma_frag_views_push(before, f);
        }
        out.push(f);
        assert(src@.subrange(from as int, start as int) + src@.subrange(start as int, to as int)
            =~= src@.subrange(from as int, to as int));
        assert(frag_views(out@) =~= frag_views(old(out)@) + bounded_pieces(whole, max as nat));
    } else {
        assert(src@.subrange(from as int, start as int) =~= src@.subrange(from as int, to as int));
        assert(frag_views(out@) =~= frag_views(old(out)@) + bounded_pieces(whole, max as nat));
    }
}

/// Cut `bytes` for display: every piece but the last has exactly `max`
/// bytes and is marked as cut; the last is the rest, not empty and not
/// marked. No bytes give no piece.
pub fn emit_bounded_fragment(bytes: Vec<u8>, max: usize) -> (out: Vec<Fragment>)
    requires
        max > 0,
    ensures
        frag_views(out@) == bounded_pieces(bytes@, max as nat),
        fragments_bytes(out@) == bytes@,
        forall|i: int|
            0 <= i < out@.len() - 1 ==> (#[trigger] out@[i]).truncated && out@[i].bytes@.len()
                == max,
        out@.len() > 0 ==> !out@.last().truncated && 0 < out@.last().bytes@.len() <= max,
        out@.len() == 0 <==> bytes@.len() == 0,
{
    let mut out: Vec<Fragment> = Vec::new();
    push_bounded(&mut out, bytes.as_slice(), 0, bytes.len(), max);
    assert(bytes@.subrange(0, bytes@.len() as int) =~= bytes@);
    proof {
        lemma_cut_shape(bytes@, max as nat);
        let cp = cut_pieces(bytes@, max as nat);
        assert(frag_views(Seq::<Fragment>::empty()) =~= Seq::empty());
        assert(frag_views(out@) =~= bounded_pieces(bytes@, max as nat));
        assert(out@.len() == bounded_pieces(bytes@, max as nat).len());
        assert forall|i: int| 0 <= i < out@.len() - 1 implies (#[trigger] out@[i]).truncated
            && out@[i].bytes@.len() == max by {
            assert(frag_views(out@)[i] == (out@[i].bytes@, out@[i].truncated));
            assert(bounded_pieces(bytes@, max as nat)[i] == cp[i]);
        }
        if out@.len() > 0 {
            let last = out@.len() - 1;
            assert(frag_views(out@)[last] == (out@[last].bytes@, out@[last].truncated));
        }
    }
    out
}

/// Incremental splitter of a byte stream into display lines. Complete
/// lines are emitted when their newline arrives; a partial line longer than
/// `max` is emitted in `max`-byte pieces marked as cut, so memory stays
/// bounded however long a line is.
pub struct BoundedLines {
    pending: Vec<u8>,
    max: usize,
    split_lines: bool,
}

impl BoundedLines {
    /// The bytes received but not yet emitted.
    pub closed spec fn pending(&self) -> Seq<u8> {
        self.pending@
    }

    /// Limit on a display piece.
    pub closed spec fn max(&self) -> int {
        self.max as int
    }

    /// Whether complete lines are also cut to the limit.
    pub closed spec fn splits_lines(&self) -> bool {
        self.split_lines
    }

    /// Held state: no complete line and no more than `max` bytes pending.
    pub closed spec fn wf(&self) -> bool {
        &&& self.max > 0
        &&& no_newline(self.pending@)
        &&& self.pending@.len() <= self.max
    }

    /// A splitter with nothing pending. With `split_lines`, complete lines
    /// longer than `max` are cut as well (so every piece is bounded);
    /// without it they are emitted whole.
    pub fn new(max: usize, split_lines: bool) -> (r: Self)
        requires
            max > 0,
        ensures
            r.wf(),
            r.pending() == Seq::<u8>::empty(),
            r.max() == max,
            r.splits_lines() == split_lines,
    {
        BoundedLines { pending: Vec::new(), max, split_lines }
    }

    /// Take in the next chunk read from the stream and return what is ready
    /// for display. What was pending followed by `chunk` is split at every
    /// newline: each complete line goes out (cut to `max` when lines are
    /// split, else whole), then the partial line after the last newline is
    /// cut into `max`-byte pieces marked as cut while more than `max` of it
    /// remains, and the rest of it stays pending.
    pub fn feed(&mut self, chunk: &[u8]) -> (out: Vec<Fragment>)
        requires
            old(self).wf(),
        ensures
            final(self).wf(),
            final(self).max() == old(self).max(),
            final(self).splits_lines() == old(self).splits_lines(),
            frag_views(out@) == pieces_of_lines(
                line_split(old(self).pending() + chunk@).0,
                old(self).max() as nat,
                old(self).splits_lines(),
            ) + cut_pieces(line_split(old(self).pending() + chunk@).1, old(self).max() as nat),
            final(self).pending() == cut_rest(
                line_split(old(self).pending() + chunk@).1,
                old(self).max() as nat,
            ),
            fragments_bytes(out@) + final(self).pending() == old(self).pending() + chunk@,
            old(self).splits_lines() ==> fragments_bounded(out@, old(self).max()),
            cuts_exact(out@, old(self).max()),
    {
        let mut buf: Vec<u8> = Vec::new();
        crate::bytes::push_all(&mut buf, self.pending.as_slice());
        crate::bytes::push_all(&mut buf, chunk);
        let mut out: Vec<Fragment> = Vec::new();
        let mut start: usize = 0;
        let max = self.max;
        let split = self.split_lines;
        let mut i: usize = 0;
        assert(fragments_bytes(out@) =~= buf@.subrange(0, 0));
        assert(frag_views(out@) =~= Seq::empty());
        assert(buf@.take(0) =~= Seq::<u8>::empty());
        assert(buf@.subrange(0, 0) =~= Seq::<u8>::empty());
        while i < buf.len()
            invariant
                max > 0,
                start <= i <= buf@.len(),
                fragments_bytes(out@) == buf@.subrange(0, start as int),
                no_newline(buf@.subrange(start as int, i as int)),
                split ==> fragments_bounded(out@, max as int),
                cuts_exact(out@, max as int),
                line_split(buf@.take(i as int)).1 == buf@.subrange(start as int, i as int),
                frag_views(out@) == pieces_of_lines(
                    line_split(buf@.take(i as int)).0,
                    max as nat,
                    split,
                ),
            decreases buf.len() - i,
        {
            let ghost prefix = buf@.take(i + 1);
            let ghost lines = line_split(buf@.take(i as int)).0;
            proof {
                assert(prefix.drop_last() =~= buf@.take(i as int));
            }
            if buf[i] == 0x0a {
                let ghost before = out@;
                let ghost line = buf@.subrange(start as int, i + 1);
                if split {
                    push_bounded(&mut out, buf.as_slice(), start, i + 1, max);
                } else {
                    let piece = copy_range(buf.as_slice(), start, i + 1);
                    let f = Fragment { bytes: piece, truncated: false };
                    proof {
                        lemma_fragments_push(before, f);
                        lemma_frag_views_push(before, f);
                    }
                    out.push(f);
                }
                proof {
                    assert(buf@.subrange(start as int, i as int).push(0x0au8) =~= line);
                    assert(lines.push(line).drop_last() =~= lines);
                    assert(line_split(prefix).0 == lines.push(line));
                    assert(frag_views(out@) =~= pieces_of_lines(lines, max as nat, split)
                        + line_pieces(line, max as nat, split));
                }
                assert(buf@.subrange(0, start as int) + buf@.subrange(start as int, i + 1)
                    =~= buf@.subrange(0, i + 1));
                start = i + 1;
                assert(buf@.subrange(start as int, start as int) =~= Seq::<u8>::empty());
            } else {
                let ghost seg = buf@.subrange(start as int, i + 1);
                let ghost prev = buf@.subrange(start as int, i as int);
                assert(prev.push(buf@[i as int]) =~= seg);
                assert forall|k: int| 0 <= k < seg.len() implies #[trigger] seg[k] != 0x0au8 by {
                    if k < prev.len() {
                        assert(seg[k] == prev[k]);
                    }
                }
            }
            i += 1;
        }
        assert(buf@.take(buf@.len() as int) =~= buf@);
        let end = push_full_pieces(&mut out, buf.as_slice(), start, buf.len(), max);
        assert(buf@.subrange(0, start as int) + buf@.subrange(start as int, end as int)
            =~= buf@.subrange(0, end as int));
        self.pending = copy_range(buf.as_slice(), end, buf.len());
        assert(buf@.subrange(0, end as int) + buf@.subrange(end as int, buf@.len() as int) =~= buf@);
        assert forall|k: int| 0 <= k < self.pending@.len() implies self.pending@[k] != 0x0au8 by {
            assert(self.pending@[k] == buf@.subrange(start as int, buf@.len() as int)[k + end - start]);
        }
        out
    }

    /// At end of stream: the partial line still pending, if any.
    pub fn finish(self) -> (rest: Option<Vec<u8>>)
        ensures
            match rest {
                Some(r) => r@ == self.pending() && r@.len() > 0,
                None => self.pending().len() == 0,
            },
    {
        if self.pending.len() > 0 {
            Some(self.pending)
        } else {
            None
        }
    }
}

/// Bytes a line takes in the stderr tail: its UTF-8 length and a separator.
pub open spec fn line_cost(l: Seq<char>) -> int {
    encode_utf8(l).len() as int + 1
}

/// Total cost of the lines.
pub open spec fn tail_cost(ls: Seq<Seq<char>>) -> int
    decreases ls.len(),
{
    if ls.len() == 0 {
        0
    } else {
        tail_cost(ls.drop_last()) + line_cost(ls.last())
    }
}

/// The lines fit the tail's bounds.
pub open spec fn tail_fits(ls: Seq<Seq<char>>) -> bool {
    ls.len() <= STDERR_TAIL_LINES && tail_cost(ls) <= STDERR_TAIL_BYTES
}

/// The longest suffix of `ls` that fits: the oldest lines go first.
pub open spec fn keep_tail(ls: Seq<Seq<char>>) -> Seq<Seq<char>>
    decreases ls.len(),
{
    if tail_fits(ls) || ls.len() == 0 {
        ls
    } else {
        keep_tail(ls.skip(1))
    }
}

proof fn lemma_tail_cost_skip(ls: Seq<Seq<char>>)
    requires
        ls.len() > 0,
    ensures
        tail_cost(ls) == line_cost(ls[0]) + tail_cost(ls.skip(1)),
    decreases ls.len(),
{
    if ls.len() == 1 {
        assert(ls.skip(1) =~= Seq::<Seq<char>>::empty());
        assert(ls.drop_last() =~= Seq::<Seq<char>>::empty());
    } else {
        lemma_tail_cost_skip(ls.drop_last());
        assert(ls.drop_last().skip(1) =~= ls.skip(1).drop_last());
        assert(ls.skip(1).last() == ls.last());
    }
}

proof fn lemma_tail_cost_nonneg(ls: Seq<Seq<char>>)
    ensures
        tail_cost(ls) >= 0,
    decreases ls.len(),
{
    if ls.len() > 0 {
        lemma_tail_cost_nonneg(ls.drop_last());
    }
}

proof fn lemma_keep_tail(ls: Seq<Seq<char>>)
    ensures
        tail_fits(keep_tail(ls)),
        keep_tail(ls).len() <= ls.len(),
        keep_tail(ls) == ls.skip(ls.len() - keep_tail(ls).len()),
    decreases ls.len(),
{
    if tail_fits(ls) {
        assert(ls.skip(0) =~= ls);
    } else if ls.len() == 0 {
        assert(tail_cost(ls) == 0);
    } else {
        lemma_keep_tail(ls.skip(1));
        let k = keep_tail(ls.skip(1));
        assert(ls.skip(1).skip(ls.skip(1).len() - k.len()) =~= ls.skip(ls.len() - k.len()));
    }
}

/// The last lines of a child's stderr: at most 100 lines and 64 KiB
/// (each line counted with a separator); older lines are dropped first.
pub struct StderrTail {
    lines: VecDeque<String>,
    bytes: usize,
}

impl StderrTail {
    /// The lines kept, oldest first.
    pub closed spec fn kept(&self) -> Seq<Seq<char>> {
        Seq::new(self.lines@.len(), |i: int| self.lines@[i]@)
    }

    pub closed spec fn wf(&self) -> bool {
        &&& self.bytes == tail_cost(self.kept())
        &&& tail_fits(self.kept())
    }

    /// An empty tail.
    pub fn new() -> (r: Self)
        ensures
            r.wf(),
            r.kept() == Seq::<Seq<char>>::empty(),
    {
        let r = StderrTail { lines: VecDeque::new(), bytes: 0 };
        assert(r.kept() =~= Seq::<Seq<char>>::empty());
        r
    }

    /// Add a line, then drop the oldest lines until the bounds hold again.
    pub fn push(&mut self, line: String)
        requires
            old(self).wf(),
            encode_utf8(line@).len() < usize::MAX - 2 * STDERR_TAIL_BYTES,
        ensures
            final(self).wf(),
            final(self).kept() == keep_tail(old(self).kept().push(line@)),
    {
        let ghost all = self.kept().push(line@);
        let n = line.as_str().as_bytes().len();
        let ghost before = self.lines@;
        self.lines.push_back(line);
        assert(self.kept() =~= all);
        assert(all.drop_last() =~= Seq::new(before.len(), |i: int| before[i]@));
        self.bytes = self.bytes + n + 1;
        while self.lines.len() > STDERR_TAIL_LINES || self.bytes > STDERR_TAIL_BYTES
            invariant
                self.bytes == tail_cost(self.kept()),
                keep_tail(all) == keep_tail(self.kept()),
            decreases self.lines@.len(),
        {
            let ghost cur = self.kept();
            assert(!tail_fits(cur));
            assert(cur.len() > 0) by {
                if cur.len() == 0 {
                    assert(tail_cost(cur) == 0);
                }
            }
            proof {
                lemma_tail_cost_skip(cur);
                lemma_tail_cost_nonneg(cur.skip(1));
            }
            let front = self.lines.pop_front();
            match front {
                Some(f) => {
                    let m = f.as_str().as_bytes().len();
                    assert(self.kept() =~= cur.skip(1));
                    assert(f@ == cur[0]);
                    self.bytes = self.bytes - (m + 1);
                },
                None => {},
            }
        }
        proof {
            lemma_keep_tail(all);
        }
    }

    /// The kept lines joined with newlines.
    pub fn joined(&self) -> (r: String)
        ensures
            r@ == join_lines(self.kept()),
    {
        let mut out = String::new();
        let mut i: usize = 0;
        let ghost k = self.kept();
        while i < self.lines.len()
            invariant
                k == self.kept(),
                i <= self.lines@.len(),
                out@ == join_lines(k.take(i as int)),
            decreases self.lines@.len() - i,
        {
            assert(k.take(i + 1).drop_last() =~= k.take(i as int));
            assert(k.take(i + 1).last() == self.lines@[i as int]@);
            if i > 0 {
                out = concat2(out.as_str(), "\n");
            }
            out = concat2(out.as_str(), self.lines[i].as_str());
            i += 1;
        }
        assert(k.take(self.lines@.len() as int) =~= k);
        out
    }
}

/// Lines joined with `\n` between them.
pub open spec fn join_lines(ls: Seq<Seq<char>>) -> Seq<char>
    decreases ls.len(),
{
    if ls.len() == 0 {
        seq![]
    } else if ls.len() == 1 {
        ls[0]
    } else {
        join_lines(ls.drop_last()) + "\n"@ + ls.last()
    }
}

/// The kept stderr tail always respects its bounds, whatever was pushed.
pub proof fn lemma_stderr_tail_bounded(t: StderrTail)
    requires
        t.wf(),
    ensures
        t.kept().len() <= STDERR_TAIL_LINES,
        tail_cost(t.kept()) <= STDERR_TAIL_BYTES,
{
}

/// The exit code of a finished child: its status code, else 130 when it
/// was cancelled (killed by a signal) and 1 otherwise.
pub fn exit_code_of(status_code: Option<i32>, cancelled: bool) -> (r: i32)
    ensures
        r == match status_code {
            Some(c) => c,
            None => if cancelled {
                130i32
            } else {
                1i32
            },
        },
{
    match status_code {
        Some(c) => c,
        None => if cancelled {
            130
        } else {
            1
        },
    }
}

/// The command joined with spaces, as logged before it runs.
pub open spec fn join_words_spaced(ws: Seq<Seq<char>>) -> Seq<char>
    decreases ws.len(),
{
    if ws.len() == 0 {
        seq![]
    } else if ws.len() == 1 {
        ws[0]
    } else {
        join_words_spaced(ws.drop_last()) + " "@ + ws.last()
    }
}

/// The log line announcing a command (`$ ` and its words), or the refusal
/// of an empty command.
pub fn command_log_line(cmd: &Vec<String>) -> (r: Result<String, String>)
    ensures
        cmd@.len() == 0 ==> (r matches Err(e) && e@ == "cannot run an empty command"@),
        cmd@.len() > 0 ==> (r matches Ok(l) && l@ == "$ "@ + join_words_spaced(strs(cmd@))),
{
    if cmd.len() == 0 {
        return Err("cannot run an empty command".to_owned());
    }
    let mut out = String::new();
    let mut i: usize = 0;
    let ghost w = strs(cmd@);
    while i < cmd.len()
        invariant
            w == strs(cmd@),
            i <= cmd@.len(),
            out@ == join_words_spaced(w.take(i as int)),
        decreases cmd.len() - i,
    {
        assert(w.take(i + 1).drop_last() =~= w.take(i as int));
        assert(w.take(i + 1).last() == cmd@[i as int]@);
        if i > 0 {
            out = concat2(out.as_str(), " ");
        }
        out = concat2(out.as_str(), cmd[i].as_str());
        i += 1;
    }
    assert(w.take(cmd@.len() as int) =~= w);
    Ok(concat2("$ ", out.as_str()))
}

/// Text decoded from bytes with invalid sequences replaced, as
/// `String::from_utf8_lossy` does.
pub uninterp spec fn utf8_lossy(b: Seq<u8>) -> Seq<char>;

/// `String::from_utf8_lossy`: valid UTF-8 decodes exactly; otherwise
/// invalid sequences become U+FFFD (what exactly is left unstated).
#[verifier::external_body]
fn from_utf8_lossy(b: &[u8]) -> (r: String)
    ensures
        r@ == utf8_lossy(b@),
        valid_utf8(b@) ==> r@ == decode_utf8(b@),
{
    String::from_utf8_lossy(b).into_owned()
}

/// Bytes decoded as text, invalid sequences replaced.
pub fn decode_lossy(b: &[u8]) -> (r: String)
    ensures
        r@ == utf8_lossy(b@),
{
    from_utf8_lossy(b)
}

/// `s` without its trailing `\r` and `\n` characters.
pub open spec fn trim_line_end(s: Seq<char>) -> Seq<char>
    decreases s.len(),
{
    if s.len() > 0 && (s.last() == '\r' || s.last() == '\n') {
        trim_line_end(s.drop_last())
    } else {
        s
    }
}

/// How a stderr piece is shown: decoded (lossily), line end removed, and
/// marked when it was cut from a longer line.
pub open spec fn stderr_line_text(bytes: Seq<u8>, truncated: bool) -> Seq<char> {
    trim_line_end(utf8_lossy(bytes)) + if truncated {
        " …<line truncated>"@
    } else {
        seq![]
    }
}

/// The display text of one stderr piece.
pub fn stderr_display_line(bytes: &[u8], truncated: bool) -> (r: String)
    ensures
        r@ == stderr_line_text(bytes@, truncated),
{
    let text = from_utf8_lossy(bytes);
    let c = crate::text::chars_of(text.as_str());
    let mut n = c.len();
    assert(c@.take(n as int) =~= c@);
    while n > 0 && (c[n - 1] == '\r' || c[n - 1] == '\n')
        invariant
            n <= c.len(),
            trim_line_end(c@) == trim_line_end(c@.take(n as int)),
        decreases n,
    {
        assert(c@.take(n as int).drop_last() =~= c@.take(n - 1));
        n -= 1;
    }
    assert(n > 0 ==> c@.take(n as int).last() == c@[n - 1]);
    let line = crate::text::string_of_range(text.as_str(), &c, 0, n);
    if truncated {
        concat2(line.as_str(), " …<line truncated>")
    } else {
        line
    }
}

/// The log text of a stderr line.
pub fn stderr_log_line(line: &str) -> (r: String)
    ensures
        r@ == "[stderr] "@ + line@,
{
    concat2("[stderr] ", line)
}

/// The first line's value for a key of `/proc/<pid>/status` (`VmHWM:` or
/// `VmRSS:`), if a line starts with it.
pub open spec fn status_field(lines: Seq<Seq<char>>, key: Seq<char>) -> Option<Seq<char>>
    decreases lines.len(),
{
    if lines.len() == 0 {
        None
    } else if crate::text::starts_with(lines[0], key) {
        Some(lines[0].skip(key.len() as int))
    } else {
        status_field(lines.skip(1), key)
    }
}

/// Peak memory from a `/proc/<pid>/status` text: the `VmHWM:` line, or
/// failing any such line the `VmRSS:` line; its first word in KiB, in bytes
/// (saturating).
pub open spec fn peak_memory_of(text: Seq<char>) -> Option<int> {
    let lines = crate::validation::split_on(text, '\n');
    let v = match status_field(lines, "VmHWM:"@) {
        Some(v) => Some(v),
        None => status_field(lines, "VmRSS:"@),
    };
    match v {
        None => None,
        Some(v) => match crate::numbers::parse_uint_upto(crate::scan::first_word(v), u64::MAX as int) {
            Some(kb) => Some(if kb * 1024 > u64::MAX { u64::MAX as int } else { kb * 1024 }),
            None => None,
        },
    }
}

fn find_field(lines: &Vec<Vec<char>>, key: &Vec<char>) -> (r: Option<Vec<char>>)
    ensures
        match (r, status_field(crate::model::vviews(lines@), key@)) {
            (Some(a), Some(b)) => a@ == b,
            (None, None) => true,
            _ => false,
        },
{
    let ghost ls = crate::model::vviews(lines@);
    let mut i: usize = 0;
    assert(ls.skip(0) =~= ls);
    while i < lines.len()
        invariant
            ls == crate::model::vviews(lines@),
            i <= lines.len(),
            status_field(ls, key@) == status_field(ls.skip(i as int), key@),
        decreases lines.len() - i,
    {
        assert(ls.skip(i as int)[0] == lines@[i as int]@);
        assert(ls.skip(i as int).skip(1) =~= ls.skip(i + 1));
        if crate::text::chars_start_with(&lines[i], key) {
            let v = crate::text::slice_chars(&lines[i], key.len(), lines[i].len());
            assert(v@ =~= lines@[i as int]@.skip(key@.len() as int));
            return Some(v);
        }
        i += 1;
    }
    None
}

/// The peak memory a `/proc/<pid>/status` text reports, in bytes.
pub fn peak_memory_from_status(text: &str) -> (r: Option<u64>)
    ensures
        match (r, peak_memory_of(text@)) {
            (Some(a), Some(b)) => a as int == b,
            (None, None) => true,
            _ => false,
        },
{
    let lines = crate::model::split_lines(&crate::text::chars_of(text));
    let hwm = crate::text::chars_of("VmHWM:");
    let rss = crate::text::chars_of("VmRSS:");
    let v = match find_field(&lines, &hwm) {
        Some(v) => Some(v),
        None => find_field(&lines, &rss),
    };
    match v {
        None => None,
        Some(v) => {
            let lo = crate::text::skip_ws(&v, 0);
            let hi = crate::scan::word_end(&v, lo);
            let w = crate::text::string_of_chars(&crate::text::slice_chars(&v, lo, hi));
            match crate::numbers::parse_u64(w.as_str()) {
                None => None,
                Some(kb) => Some(
                    if kb > u64::MAX / 1024 {
                        u64::MAX
                    } else {
                        kb * 1024
                    },
                ),
            }
        },
    }
}

/// The higher of the peak seen so far and a new sample.
pub fn raise_peak(peak: u64, sample: Option<u64>) -> (r: u64)
    ensures
        r == match sample {
            Some(s) => if s > peak {
                s
            } else {
                peak
            },
            None => peak,
        },
{
    match sample {
        Some(s) => if s > peak {
            s
        } else {
            peak
        },
        None => peak,
    }
}

/// The peak memory reported: only a positive measurement counts.
pub fn reported_peak(peak: u64) -> (r: Option<u64>)
    ensures
        r == if peak > 0 {
            Some(peak)
        } else {
            None::<u64>
        },
{
    if peak > 0 {
        Some(peak)
    } else {
        None
    }
}

/// The index of the first candidate that exists, if any.
pub fn first_existing(exists: &Vec<bool>) -> (r: Option<usize>)
    ensures
        match r {
            Some(i) => i < exists@.len() && exists@[i as int] && forall|k: int| 0 <= k < i ==> !exists@[k],
            None => forall|k: int| 0 <= k < exists@.len() ==> !exists@[k],
        },
{
    let mut i: usize = 0;
    while i < exists.len()
        invariant
            i <= exists.len(),
            forall|k: int| 0 <= k < i ==> !exists@[k],
        decreases exists.len() - i,
    {
        if exists[i] {
            return Some(i);
        }
        i += 1;
    }
    None
}

pub open spec fn paths_view(v: Seq<PathParts>) -> Seq<(Seq<char>, Seq<Seq<char>>)> {
    Seq::new(v.len(), |i: int| (v[i].root@, v[i].comps()))
}

/// The executables named `stem` that may sit in `dir`.
pub fn sibling_bins(dir: &PathParts, stem: &str) -> (r: Vec<PathParts>)
    ensures
        paths_view(r@) == seq![
            (dir.root@, dir.comps().push(stem@)),
            (dir.root@, dir.comps().push(stem@ + ".exe"@)),
        ],
{
    let names = bin_names(stem);
    let mut out: Vec<PathParts> = Vec::new();
    out.push(crate::convert::join_one(dir, names[0].as_str()));
    out.push(crate::convert::join_one(dir, names[1].as_str()));
    assert(paths_view(out@) =~= seq![
        (dir.root@, dir.comps().push(stem@)),
        (dir.root@, dir.comps().push(stem@ + ".exe"@)),
    ]);
    out
}

/// The executables named `stem` that a build of the repository at `root`
/// leaves under `target/release` and `target/debug`, in that order.
pub fn profile_bins(root: &PathParts, stem: &str) -> (r: Vec<PathParts>)
    ensures
        paths_view(r@) == seq![
            (root.root@, root.comps() + seq!["target"@, "release"@, stem@]),
            (root.root@, root.comps() + seq!["target"@, "release"@, stem@ + ".exe"@]),
            (root.root@, root.comps() + seq!["target"@, "debug"@, stem@]),
            (root.root@, root.comps() + seq!["target"@, "debug"@, stem@ + ".exe"@]),
        ],
{
    let target = crate::convert::join_one(root, "target");
    let release = crate::convert::join_one(&target, "release");
    let debug = crate::convert::join_one(&target, "debug");
    let names = bin_names(stem);
    let mut out: Vec<PathParts> = Vec::new();
    out.push(crate::convert::join_one(&release, names[0].as_str()));
    out.push(crate::convert::join_one(&release, names[1].as_str()));
    out.push(crate::convert::join_one(&debug, names[0].as_str()));
    out.push(crate::convert::join_one(&debug, names[1].as_str()));
    assert(root.comps().push("target"@).push("release"@).push(stem@) =~= root.comps() + seq!["target"@, "release"@, stem@]);
    assert(root.comps().push("target"@).push("release"@).push(stem@ + ".exe"@) =~= root.comps() + seq!["target"@, "release"@, stem@ + ".exe"@]);
    assert(root.comps().push("target"@).push("debug"@).push(stem@) =~= root.comps() + seq!["target"@, "debug"@, stem@]);
    assert(root.comps().push("target"@).push("debug"@).push(stem@ + ".exe"@) =~= root.comps() + seq!["target"@, "debug"@, stem@ + ".exe"@]);
    assert(paths_view(out@) =~= seq![
        (root.root@, root.comps() + seq!["target"@, "release"@, stem@]),
        (root.root@, root.comps() + seq!["target"@, "release"@, stem@ + ".exe"@]),
        (root.root@, root.comps() + seq!["target"@, "debug"@, stem@]),
        (root.root@, root.comps() + seq!["target"@, "debug"@, stem@ + ".exe"@]),
    ]);
    out
}

/// Where the processor finds its tools.
#[derive(Debug, Clone)]
pub struct ToolPaths {
    pub repo_root: PathParts,
    pub runtime_root: PathParts,
    pub convert_bin: PathParts,
    /// Release TopRebuild CLI (`top_rebuild`).
    pub top_rebuild: PathParts,
    /// Python baseline rebuild script.
    pub rebuild_py: PathParts,
    pub texture_py: PathParts,
    /// Packaged texture tool.
    pub texture_bin: PathParts,
    pub basisu: PathParts,
    pub python: PathParts,
    pub packaged: bool,
}

/// The tool to use: an explicit override wins, then the first candidate
/// that exists, then the bare fallback name (looked up on `PATH`).
pub fn choose_tool(env_override: Option<PathParts>, candidates: Vec<PathParts>, exists: &Vec<bool>, fallback: PathParts) -> (r: PathParts)
    requires
        candidates@.len() == exists@.len(),
    ensures
        env_override is Some ==> r == env_override.unwrap(),
        env_override is None ==> (exists|i: int| 0 <= i < exists@.len() && exists@[i] && r == candidates@[i]
            && forall|k: int| 0 <= k < i ==> !exists@[k]) || (r == fallback && forall|k: int|
            0 <= k < exists@.len() ==> !exists@[k]),
{
    if let Some(p) = env_override {
        return p;
    }
    match first_existing(exists) {
        Some(i) => {
            let mut c = candidates;
            let ghost before = c@;
            let r = c.swap_remove(i);
            assert(r == before[i as int]);
            r
        },
        None => fallback,
    }
}

/// The processor runs from an installed package when told so or when a
/// runtime root is set.
pub fn is_packaged(packaged_var: Option<&str>, runtime_root_set: bool) -> (r: bool)
    ensures
        r == ((packaged_var matches Some(v) && v@ == "1"@) || runtime_root_set),
{
    let one = match packaged_var {
        Some(v) => crate::text::str_eq(v, "1"),
        None => false,
    };
    one || runtime_root_set
}

} // verus!
