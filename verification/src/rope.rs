//! Rope buffer: chunked line storage for large scrollback.
//!
//! Lines are grouped in chunks of `CHUNK_SIZE`; eviction at the line cap
//! removes whole chunks from the front, so at most a chunk's worth of
//! lines below the cap is ever given up, and the newest lines always
//! survive.

use vstd::prelude::*;
use crate::cell::Cell;

verus! {

/// Number of lines per chunk.
pub const CHUNK_SIZE: usize = 64;

/// A line stored in the rope buffer.
#[derive(Debug)]
pub struct ChunkedLine {
    /// The cells of the line.
    pub content: Vec<Cell>,
    /// Whether the line was soft-wrapped rather than ended by a newline.
    pub wrapped: bool,
}

/// A line's mathematical content: its cells and its wrap flag.
pub open spec fn chunked_line_view(l: ChunkedLine) -> (Seq<Cell>, bool) {
    (l.content@, l.wrapped)
}

/// The views of a sequence of lines.
pub open spec fn chunked_lines_view(s: Seq<ChunkedLine>) -> Seq<(Seq<Cell>, bool)> {
    s.map_values(|l: ChunkedLine| chunked_line_view(l))
}

impl ChunkedLine {
    /// Create a line from cells and a wrap flag.
    pub fn new(content: Vec<Cell>, wrapped: bool) -> (r: ChunkedLine)
        ensures
            chunked_line_view(r) == (content@, wrapped),
    {
        ChunkedLine { content, wrapped }
    }

    /// An empty, hard-terminated line.
    pub fn empty() -> (r: ChunkedLine)
        ensures
            chunked_line_view(r) == (Seq::<Cell>::empty(), false),
    {
        ChunkedLine { content: Vec::new(), wrapped: false }
    }

    /// The number of cells on the line.
    pub fn len(&self) -> (n: usize)
        ensures
            n == self.content@.len(),
    {
        self.content.len()
    }

    /// Whether the line has no cells.
    pub fn is_empty(&self) -> (r: bool)
        ensures
            r == (self.content@.len() == 0),
    {
        self.content.len() == 0
    }

    /// A copy of this line.
    pub fn duplicate(&self) -> (r: ChunkedLine)
        ensures
            chunked_line_view(r) == chunked_line_view(*self),
    {
        ChunkedLine {
            content: vstd::slice::slice_to_vec(self.content.as_slice()),
            wrapped: self.wrapped,
        }
    }
}

/// Lines and offset after chunk-granular trimming at the cap.
pub ghost struct RopeTrim {
    /// The surviving lines.
    pub lines: Seq<(Seq<Cell>, bool)>,
    /// The adjusted scroll offset.
    pub offset: nat,
}

/// Trim whole chunks from the front while the line count exceeds a
/// positive cap, pulling the scroll offset along; a cap of zero means
/// unlimited.
pub open spec fn rope_trim(s: Seq<(Seq<Cell>, bool)>, off: nat, max: int) -> RopeTrim
    decreases s.len(),
{
    if max <= 0 || s.len() <= max || s.len() == 0 {
        RopeTrim { lines: s, offset: off }
    } else {
        let k: int = if s.len() >= CHUNK_SIZE {
            CHUNK_SIZE as int
        } else {
            s.len() as int
        };
        rope_trim(
            s.skip(k),
            if off > k {
                (off - k) as nat
            } else {
                0
            },
            max,
        )
    }
}

/// A rope of lines with a bounded total and chunk-granular eviction.
pub struct RopeBuffer {
    /// The lines, oldest first.
    lines: Vec<ChunkedLine>,
    /// Maximum lines retained; zero means unlimited.
    max_lines: usize,
    /// Scroll offset from the bottom.
    scroll_offset: usize,
}

impl RopeBuffer {
    /// The lines, at the specification level.
    pub closed spec fn spec_lines(&self) -> Seq<(Seq<Cell>, bool)> {
        chunked_lines_view(self.lines@)
    }

    /// The line cap; zero means unlimited.
    pub closed spec fn spec_max_lines(&self) -> usize {
        self.max_lines
    }

    /// The scroll offset from the bottom.
    pub closed spec fn spec_scroll_offset(&self) -> nat {
        self.scroll_offset as nat
    }

    /// Well-formedness: the offset stays on a line (or zero when empty).
    pub open spec fn wf(&self) -> bool {
        if self.spec_lines().len() == 0 {
            self.spec_scroll_offset() == 0
        } else {
            self.spec_scroll_offset() <= self.spec_lines().len() - 1
        }
    }

    /// Create a rope with the given cap (zero for unlimited), holding one
    /// empty line.
    pub fn new(max_lines: usize) -> (r: RopeBuffer)
        ensures
            r.wf(),
            r.spec_max_lines() == max_lines,
            r.spec_scroll_offset() == 0,
            r.spec_lines() == seq![(Seq::<Cell>::empty(), false)],
    {
        let mut lines: Vec<ChunkedLine> = Vec::new();
        lines.push(ChunkedLine::empty());
        let r = RopeBuffer { lines, max_lines, scroll_offset: 0 };
        proof {
            assert(r.spec_lines() =~= seq![(Seq::<Cell>::empty(), false)]);
        }
        r
    }

    /// Create an unbounded rope.
    pub fn unbounded() -> (r: RopeBuffer)
        ensures
            r.wf(),
            r.spec_max_lines() == 0,
            r.spec_scroll_offset() == 0,
            r.spec_lines() == seq![(Seq::<Cell>::empty(), false)],
    {
        RopeBuffer::new(0)
    }

    /// The number of lines.
    pub fn len(&self) -> (n: usize)
        ensures
            n == self.spec_lines().len(),
    {
        self.lines.len()
    }

    /// Whether the rope holds no lines.
    pub fn is_empty(&self) -> (r: bool)
        ensures
            r == (self.spec_lines().len() == 0),
    {
        self.lines.len() == 0
    }

    /// The number of chunks the lines occupy.
    pub fn chunk_count(&self) -> (n: usize)
        ensures
            n == (self.spec_lines().len() + CHUNK_SIZE - 1) / (CHUNK_SIZE as int),
    {
        let n = self.lines.len();
        proof {
            assert(n / 64 + (if n % 64 != 0 { 1int } else { 0 }) == (n + 63) / 64)
                by (nonlinear_arith);
        }
        n / CHUNK_SIZE + (if n % CHUNK_SIZE != 0 { 1 } else { 0 })
    }

    /// A copy of the line at the given index.
    pub fn get_line(&self, index: usize) -> (r: Option<ChunkedLine>)
        ensures
            index < self.spec_lines().len() ==> (r matches Some(l) && chunked_line_view(l)
                == self.spec_lines()[index as int]),
            index >= self.spec_lines().len() ==> r is None,
    {
        if index < self.lines.len() {
            Some(self.lines[index].duplicate())
        } else {
            None
        }
    }

    /// A copy of the current (last) line, when any.
    pub fn current_line(&self) -> (r: Option<ChunkedLine>)
        ensures
            self.spec_lines().len() > 0 ==> (r matches Some(l) && chunked_line_view(l)
                == self.spec_lines().last()),
            self.spec_lines().len() == 0 ==> r is None,
    {
        let n = self.lines.len();
        if n == 0 {
            None
        } else {
            Some(self.lines[n - 1].duplicate())
        }
    }

    /// Push a line, then evict whole chunks from the front while a
    /// positive cap is exceeded, pulling the scroll offset along.
    pub fn push_line(&mut self, line: ChunkedLine)
        requires
            old(self).wf(),
        ensures
            final(self).wf(),
            final(self).spec_max_lines() == old(self).spec_max_lines(),
            ({
                let t = rope_trim(
                    old(self).spec_lines().push(chunked_line_view(line)),
                    old(self).spec_scroll_offset(),
                    old(self).spec_max_lines() as int,
                );
                final(self).spec_lines() == t.lines && final(self).spec_scroll_offset()
                    == t.offset
            }),
    {
        let ghost lv = chunked_line_view(line);
        self.lines.push(line);
        proof {
            assert(self.spec_lines() =~= old(self).spec_lines().push(lv));
        }
        if self.max_lines > 0 {
            while self.lines.len() > self.max_lines
                invariant
                    self.max_lines == old(self).max_lines,
                    self.max_lines > 0,
                    rope_trim(
                        self.spec_lines(),
                        self.spec_scroll_offset(),
                        self.max_lines as int,
                    ) == rope_trim(
                        old(self).spec_lines().push(lv),
                        old(self).spec_scroll_offset(),
                        self.max_lines as int,
                    ),
                decreases self.lines@.len(),
            {
                let k: usize = if self.lines.len() >= CHUNK_SIZE {
                    CHUNK_SIZE
                } else {
                    self.lines.len()
                };
                let ghost before = self.spec_lines();
                let ghost off_before = self.spec_scroll_offset();
                proof {
                    assert(before.skip(0) =~= before);
                }
                let mut j: usize = 0;
                while j < k
                    invariant
                        j <= k,
                        k <= before.len(),
                        self.max_lines == old(self).max_lines,
                        self.scroll_offset == off_before,
                        self.spec_lines() == before.skip(j as int),
                    decreases k - j,
                {
                    let ghost mid = self.spec_lines();
                    self.lines.remove(0);
                    proof {
                        assert(self.spec_lines() =~= mid.skip(1));
                        assert(mid.skip(1) =~= before.skip(j as int + 1));
                    }
                    j = j + 1;
                }
                self.scroll_offset = if self.scroll_offset > k {
                    self.scroll_offset - k
                } else {
                    0
                };
            }
        }
        proof {
            let t = rope_trim(
                old(self).spec_lines().push(lv),
                old(self).spec_scroll_offset(),
                self.max_lines as int,
            );
            assert(rope_trim(self.spec_lines(), self.spec_scroll_offset(), self.max_lines as int)
                == RopeTrim { lines: self.spec_lines(), offset: self.spec_scroll_offset() });
            if self.max_lines == 0 {
                assert(t == RopeTrim {
                    lines: old(self).spec_lines().push(lv),
                    offset: old(self).spec_scroll_offset(),
                });
            }
            lemma_rope_wf_after_trim(
                old(self).spec_lines().push(lv),
                old(self).spec_scroll_offset(),
                self.max_lines as int,
            );
        }
    }

    /// Push an empty line.
    pub fn newline(&mut self)
        requires
            old(self).wf(),
        ensures
            final(self).wf(),
            final(self).spec_max_lines() == old(self).spec_max_lines(),
            ({
                let t = rope_trim(
                    old(self).spec_lines().push((Seq::<Cell>::empty(), false)),
                    old(self).spec_scroll_offset(),
                    old(self).spec_max_lines() as int,
                );
                final(self).spec_lines() == t.lines && final(self).spec_scroll_offset()
                    == t.offset
            }),
    {
        self.push_line(ChunkedLine::empty());
    }

    /// Append cells to the current line; nothing happens when the rope is
    /// empty.
    pub fn append(&mut self, cells: &Vec<Cell>)
        requires
            old(self).wf(),
        ensures
            final(self).wf(),
            final(self).spec_max_lines() == old(self).spec_max_lines(),
            final(self).spec_scroll_offset() == old(self).spec_scroll_offset(),
            old(self).spec_lines().len() == 0 ==> final(self).spec_lines() == old(
                self,
            ).spec_lines(),
            old(self).spec_lines().len() > 0 ==> final(self).spec_lines() == old(
                self,
            ).spec_lines().update(
                old(self).spec_lines().len() - 1,
                (old(self).spec_lines().last().0 + cells@, old(self).spec_lines().last().1),
            ),
    {
        if self.lines.len() == 0 {
            return ;
        }
        let mut line = match self.lines.pop() {
            Some(l) => l,
            None => ChunkedLine::empty(),
        };
        let mut add = vstd::slice::slice_to_vec(cells.as_slice());
        line.content.append(&mut add);
        self.lines.push(line);
        proof {
            assert(self.spec_lines() =~= old(self).spec_lines().update(
                old(self).spec_lines().len() - 1,
                (old(self).spec_lines().last().0 + cells@, old(self).spec_lines().last().1),
            ));
        }
    }

    /// Discard all content, leaving one empty line.
    pub fn clear(&mut self)
        ensures
            final(self).wf(),
            final(self).spec_max_lines() == old(self).spec_max_lines(),
            final(self).spec_scroll_offset() == 0,
            final(self).spec_lines() == seq![(Seq::<Cell>::empty(), false)],
    {
        self.lines = Vec::new();
        self.lines.push(ChunkedLine::empty());
        self.scroll_offset = 0;
        proof {
            assert(self.spec_lines() =~= seq![(Seq::<Cell>::empty(), false)]);
        }
    }

    /// The scroll offset from the bottom.
    pub fn scroll_offset(&self) -> (n: usize)
        ensures
            n == self.spec_scroll_offset(),
    {
        self.scroll_offset
    }

    /// Scroll up, clamped to the oldest line.
    pub fn scroll_up(&mut self, lines: usize)
        ensures
            final(self).wf(),
            final(self).spec_lines() == old(self).spec_lines(),
            final(self).spec_max_lines() == old(self).spec_max_lines(),
            ({
                let max_offset: int = if old(self).spec_lines().len() >= 1 {
                    old(self).spec_lines().len() - 1
                } else {
                    0
                };
                final(self).spec_scroll_offset() == if old(self).spec_scroll_offset() + lines
                    <= max_offset {
                    old(self).spec_scroll_offset() + lines
                } else {
                    max_offset
                }
            }),
    {
        let max_offset: usize = if self.lines.len() >= 1 {
            self.lines.len() - 1
        } else {
            0
        };
        self.scroll_offset = if lines <= max_offset && self.scroll_offset <= max_offset - lines {
            self.scroll_offset + lines
        } else {
            max_offset
        };
    }

    /// Scroll down, saturating at the bottom.
    pub fn scroll_down(&mut self, lines: usize)
        requires
            old(self).wf(),
        ensures
            final(self).wf(),
            final(self).spec_lines() == old(self).spec_lines(),
            final(self).spec_max_lines() == old(self).spec_max_lines(),
            final(self).spec_scroll_offset() == if lines <= old(self).spec_scroll_offset() {
                old(self).spec_scroll_offset() - lines
            } else {
                0
            },
    {
        self.scroll_offset = if lines <= self.scroll_offset {
            self.scroll_offset - lines
        } else {
            0
        };
    }

    /// Scroll to the newest content.
    pub fn scroll_to_bottom(&mut self)
        ensures
            final(self).wf(),
            final(self).spec_lines() == old(self).spec_lines(),
            final(self).spec_max_lines() == old(self).spec_max_lines(),
            final(self).spec_scroll_offset() == 0,
    {
        self.scroll_offset = 0;
    }

    /// Copies of the lines visible in a viewport of the given height,
    /// newest above the scroll offset, topmost first.
    pub fn visible_lines(&self, viewport_height: usize) -> (r: Vec<ChunkedLine>)
        ensures
            ({
                let len = self.spec_lines().len() as int;
                let end = if self.spec_scroll_offset() <= len {
                    len - self.spec_scroll_offset()
                } else {
                    0
                };
                let start = if viewport_height <= end {
                    end - viewport_height
                } else {
                    0
                };
                chunked_lines_view(r@) == self.spec_lines().subrange(start, end)
            }),
    {
        let len = self.lines.len();
        let end: usize = if self.scroll_offset <= len {
            len - self.scroll_offset
        } else {
            0
        };
        let start: usize = if viewport_height <= end {
            end - viewport_height
        } else {
            0
        };
        let mut out: Vec<ChunkedLine> = Vec::new();
        let mut i: usize = start;
        while i < end
            invariant
                start <= i <= end,
                end <= self.spec_lines().len(),
                chunked_lines_view(out@) == self.spec_lines().subrange(start as int, i as int),
            decreases end - i,
        {
            let dup = self.lines[i].duplicate();
            let ghost dv = dup;
            let ghost out0 = out@;
            out.push(dup);
            proof {
                assert(chunked_line_view(dv) == chunked_lines_view(self.lines@)[i as int]);
                assert(out@ == out0.push(dv));
                assert(chunked_lines_view(out0).len() == out0.len());
                assert forall|j: int|
                    0 <= j < out@.len() implies chunked_lines_view(out@)[j]
                    == self.spec_lines().subrange(start as int, i as int + 1)[j] by {
                    assert(chunked_lines_view(out@)[j] == chunked_line_view(out@[j]));
                    assert(self.spec_lines().subrange(start as int, i as int + 1)[j]
                        == self.spec_lines()[start + j]);
                    if j < out0.len() {
                        assert(out@[j] == out0[j]);
                        assert(chunked_lines_view(out0)[j] == chunked_line_view(out0[j]));
                        assert(chunked_lines_view(out0)[j] == self.spec_lines().subrange(
                            start as int,
                            i as int,
                        )[j]);
                        assert(self.spec_lines().subrange(start as int, i as int)[j]
                            == self.spec_lines()[start + j]);
                    } else {
                        assert(j == out0.len());
                        assert(out@[j] == dv);
                        assert(start + j == i);
                    }
                }
                assert(chunked_lines_view(out@) =~= self.spec_lines().subrange(
                    start as int,
                    i as int + 1,
                ));
            }
            i = i + 1;
        }
        out
    }
}

/// Trimming preserves well-formedness of the offset.
proof fn lemma_rope_wf_after_trim(s: Seq<(Seq<Cell>, bool)>, off: nat, max: int)
    requires
        s.len() >= 1,
        off <= s.len() - 1 || off == 0,
    ensures
        ({
            let t = rope_trim(s, off, max);
            t.lines.len() == 0 ==> t.offset == 0
        }),
        ({
            let t = rope_trim(s, off, max);
            t.lines.len() >= 1 ==> t.offset <= t.lines.len() - 1 || t.offset == 0
        }),
    decreases s.len(),
{
    if !(max <= 0 || s.len() <= max || s.len() == 0) {
        let k: int = if s.len() >= CHUNK_SIZE {
            CHUNK_SIZE as int
        } else {
            s.len() as int
        };
        let off1: nat = if off > k {
            (off - k) as nat
        } else {
            0
        };
        if s.skip(k).len() >= 1 {
            lemma_rope_wf_after_trim(s.skip(k), off1, max);
        } else {
            lemma_rope_trim_empty(s.skip(k), off1, max);
        }
    }
}

/// Trimming an empty sequence with a zero offset changes nothing.
proof fn lemma_rope_trim_empty(s: Seq<(Seq<Cell>, bool)>, off: nat, max: int)
    requires
        s.len() == 0,
        off == 0,
    ensures
        rope_trim(s, off, max) == (RopeTrim { lines: s, offset: off }),
{
}

/// Rope retention: with a positive cap, chunk-granular trimming keeps at
/// most the cap, loses less than one chunk below it, and what survives is
/// exactly the newest lines.
pub proof fn lemma_rope_retention(s: Seq<(Seq<Cell>, bool)>, off: nat, max: int)
    requires
        max >= 1,
    ensures
        rope_trim(s, off, max).lines.len() <= max,
        s.len() > max ==> rope_trim(s, off, max).lines.len() + CHUNK_SIZE > max,
        rope_trim(s, off, max).lines == s.skip(
            s.len() - rope_trim(s, off, max).lines.len(),
        ),
    decreases s.len(),
{
    if s.len() <= max || s.len() == 0 {
        assert(s.skip(0) =~= s);
    } else {
        let k: int = if s.len() >= CHUNK_SIZE {
            CHUNK_SIZE as int
        } else {
            s.len() as int
        };
        let off1: nat = if off > k {
            (off - k) as nat
        } else {
            0
        };
        lemma_rope_retention(s.skip(k), off1, max);
        let t = rope_trim(s, off, max);
        assert(s.skip(k).skip(s.skip(k).len() - t.lines.len()) =~= s.skip(
            s.len() - t.lines.len(),
        ));
    }
}

/// Memory usage statistics for a rope buffer.
#[derive(Clone, Copy, PartialEq, Eq, Structural, Debug)]
pub struct RopeMemoryStats {
    /// Number of chunks.
    pub chunks: usize,
    /// Number of lines.
    pub lines: usize,
    /// Number of cells.
    pub cells: usize,
    /// Estimated memory in bytes.
    pub bytes_estimated: usize,
}

/// The total number of cells across a sequence of lines.
pub open spec fn spec_total_cells(s: Seq<(Seq<Cell>, bool)>) -> int
    decreases s.len(),
{
    if s.len() == 0 {
        0
    } else {
        spec_total_cells(s.drop_last()) + s.last().0.len()
    }
}

impl RopeBuffer {
    /// Memory usage statistics: chunk, line and cell counts and a byte
    /// estimate (24 bytes per chunk header, 32 per line header, 16 per
    /// cell), saturating at the address-space limit.
    pub fn memory_stats(&self) -> (r: RopeMemoryStats)
        ensures
            r.lines == self.spec_lines().len(),
            r.chunks == (self.spec_lines().len() + CHUNK_SIZE - 1) / (CHUNK_SIZE as int),
            r.cells == spec_total_cells(self.spec_lines()) || (r.cells == usize::MAX
                && spec_total_cells(self.spec_lines()) > usize::MAX),
    {
        let nlines = self.lines.len();
        proof {
            assert(nlines / 64 + (if nlines % 64 != 0 { 1int } else { 0 }) == (nlines + 63) / 64)
                by (nonlinear_arith);
        }
        let chunks = nlines / CHUNK_SIZE + (if nlines % CHUNK_SIZE != 0 { 1 } else { 0 });
        let mut cells: usize = 0;
        let mut i: usize = 0;
        proof {
            assert(self.spec_lines().take(0) =~= Seq::<(Seq<Cell>, bool)>::empty());
        }
        while i < nlines
            invariant
                i <= nlines,
                nlines == self.spec_lines().len(),
                cells == spec_total_cells(self.spec_lines().take(i as int)) || (cells
                    == usize::MAX && spec_total_cells(self.spec_lines().take(i as int))
                    > usize::MAX),
            decreases nlines - i,
        {
            let n = self.lines[i].content.len();
            proof {
                assert(self.spec_lines().take(i + 1).drop_last() =~= self.spec_lines().take(
                    i as int,
                ));
                assert(self.spec_lines().take(i + 1).last() == self.spec_lines()[i as int]);
                assert(self.spec_lines()[i as int].0.len() == n);
            }
            cells = if cells <= usize::MAX - n {
                cells + n
            } else {
                usize::MAX
            };
            i = i + 1;
        }
        proof {
            assert(self.spec_lines().take(nlines as int) =~= self.spec_lines());
        }
        let bytes64: u64 = {
            let a: u64 = if (chunks as u64) <= u64::MAX / 24 {
                (chunks as u64) * 24
            } else {
                u64::MAX
            };
            let b: u64 = if (nlines as u64) <= u64::MAX / 32 {
                (nlines as u64) * 32
            } else {
                u64::MAX
            };
            let c: u64 = if (cells as u64) <= u64::MAX / 16 {
                (cells as u64) * 16
            } else {
                u64::MAX
            };
            let ab: u64 = if a <= u64::MAX - b {
                a + b
            } else {
                u64::MAX
            };
            if ab <= u64::MAX - c {
                ab + c
            } else {
                u64::MAX
            }
        };
        let bytes: usize = if bytes64 <= usize::MAX as u64 {
            bytes64 as usize
        } else {
            usize::MAX
        };
        RopeMemoryStats { chunks, lines: nlines, cells, bytes_estimated: bytes }
    }
}

} // verus!
