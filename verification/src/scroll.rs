//! Scroll buffer: a ring of styled lines with scrollback.
//!
//! The buffer keeps at most `max_lines` lines, discarding the oldest when
//! the cap is reached.  A scroll offset measures how far the viewer is
//! above the bottom; zero means the latest content is visible.

use vstd::prelude::*;
use std::collections::VecDeque;
use crate::cell::Cell;

verus! {

/// A line of cells, with a flag telling soft wrap from hard newline.
#[derive(Debug)]
pub struct StyledLine {
    /// The cells of the line.
    pub content: Vec<Cell>,
    /// Whether the line was soft-wrapped rather than ended by a newline.
    pub wrapped: bool,
}

/// A line's mathematical content: its cells and its wrap flag.
pub open spec fn line_view(l: StyledLine) -> (Seq<Cell>, bool) {
    (l.content@, l.wrapped)
}

impl StyledLine {
    /// Create a line from cells and a wrap flag.
    pub fn new(content: Vec<Cell>, wrapped: bool) -> (r: StyledLine)
        ensures
            line_view(r) == (content@, wrapped),
    {
        StyledLine { content, wrapped }
    }

    /// An empty, hard-terminated line.
    pub fn empty() -> (r: StyledLine)
        ensures
            line_view(r) == (Seq::<Cell>::empty(), false),
    {
        StyledLine { content: Vec::new(), wrapped: false }
    }

    /// A copy of this line.
    pub fn duplicate(&self) -> (r: StyledLine)
        ensures
            line_view(r) == line_view(*self),
    {
        StyledLine {
            content: vstd::slice::slice_to_vec(self.content.as_slice()),
            wrapped: self.wrapped,
        }
    }
}

/// The views of a sequence of lines.
pub open spec fn lines_view(s: Seq<StyledLine>) -> Seq<(Seq<Cell>, bool)> {
    s.map_values(|l: StyledLine| line_view(l))
}

/// The lines kept after making room for one more under the cap: the
/// newest `cap - 1` lines.
pub open spec fn trim_for_push(s: Seq<(Seq<Cell>, bool)>, cap: int) -> Seq<(Seq<Cell>, bool)> {
    if s.len() < cap {
        s
    } else {
        s.skip(s.len() - cap + 1)
    }
}

/// A ring buffer of lines with a bounded scrollback and a scroll offset
/// counted from the bottom.
pub struct ScrollBuffer {
    /// The lines, oldest first.
    lines: VecDeque<StyledLine>,
    /// Maximum number of lines retained.
    max_lines: usize,
    /// Scroll offset from the bottom; zero means at the bottom.
    scroll_offset: usize,
}

impl ScrollBuffer {
    /// The lines, at the specification level.
    pub closed spec fn spec_lines(&self) -> Seq<(Seq<Cell>, bool)> {
        lines_view(self.lines@)
    }

    /// The line cap.
    pub closed spec fn spec_max_lines(&self) -> usize {
        self.max_lines
    }

    /// The scroll offset from the bottom.
    pub closed spec fn spec_scroll_offset(&self) -> usize {
        self.scroll_offset
    }

    /// Well-formedness: a positive cap, at least one line, and an offset
    /// that stays on a line.
    pub open spec fn wf(&self) -> bool {
        &&& self.spec_max_lines() >= 1
        &&& 1 <= self.spec_lines().len() <= self.spec_max_lines()
        &&& self.spec_scroll_offset() < self.spec_lines().len()
    }

    /// Create a scroll buffer holding one empty line.
    pub fn new(max_lines: usize) -> (r: ScrollBuffer)
        requires
            max_lines >= 1,
        ensures
            r.wf(),
            r.spec_max_lines() == max_lines,
            r.spec_scroll_offset() == 0,
            r.spec_lines() == seq![(Seq::<Cell>::empty(), false)],
    {
        let mut lines: VecDeque<StyledLine> = VecDeque::new();
        lines.push_back(StyledLine::empty());
        let r = ScrollBuffer { lines, max_lines, scroll_offset: 0 };
        proof {
            assert(r.spec_lines() =~= seq![(Seq::<Cell>::empty(), false)]);
        }
        r
    }

    /// The number of lines.
    pub fn len(&self) -> (n: usize)
        ensures
            n == self.spec_lines().len(),
    {
        self.lines.len()
    }

    /// Whether the buffer holds no lines (never, for a well-formed
    /// buffer).
    pub fn is_empty(&self) -> (r: bool)
        ensures
            r == (self.spec_lines().len() == 0),
    {
        self.lines.len() == 0
    }

    /// A copy of the current (last) line.
    pub fn current_line(&self) -> (r: StyledLine)
        requires
            self.wf(),
        ensures
            line_view(r) == self.spec_lines().last(),
    {
        let n = self.lines.len();
        self.lines[n - 1].duplicate()
    }

    /// The number of cells on the current line.
    pub fn current_line_len(&self) -> (n: usize)
        requires
            self.wf(),
        ensures
            n == self.spec_lines().last().0.len(),
    {
        let n = self.lines.len();
        self.lines[n - 1].content.len()
    }

    /// Append cells to the current line.
    pub fn append(&mut self, cells: &Vec<Cell>)
        requires
            old(self).wf(),
        ensures
            final(self).wf(),
            final(self).spec_max_lines() == old(self).spec_max_lines(),
            final(self).spec_scroll_offset() == old(self).spec_scroll_offset(),
            final(self).spec_lines() == old(self).spec_lines().update(
                old(self).spec_lines().len() - 1,
                (old(self).spec_lines().last().0 + cells@, old(self).spec_lines().last().1),
            ),
    {
        let mut line = match self.lines.pop_back() {
            Some(l) => l,
            None => StyledLine::empty(),
        };
        let mut add = vstd::slice::slice_to_vec(cells.as_slice());
        line.content.append(&mut add);
        self.lines.push_back(line);
        proof {
            assert(self.spec_lines() =~= old(self).spec_lines().update(
                old(self).spec_lines().len() - 1,
                (old(self).spec_lines().last().0 + cells@, old(self).spec_lines().last().1),
            ));
        }
    }

    /// Start a new line, discarding the oldest lines when the cap is
    /// reached; `wrapped` records whether the break is a soft wrap.
    pub fn newline(&mut self, wrapped: bool)
        requires
            old(self).wf(),
        ensures
            final(self).wf(),
            final(self).spec_max_lines() == old(self).spec_max_lines(),
            final(self).spec_scroll_offset() == old(self).spec_scroll_offset(),
            final(self).spec_lines() == trim_for_push(
                old(self).spec_lines(),
                old(self).spec_max_lines() as int,
            ).push((Seq::<Cell>::empty(), wrapped)),
    {
        let ghost pre = self.spec_lines();
        let ghost mut k: int = 0;
        proof {
            assert(self.spec_lines() =~= pre.skip(0));
        }
        while self.lines.len() >= self.max_lines
            invariant
                self.max_lines == old(self).max_lines,
                self.scroll_offset == old(self).scroll_offset,
                self.max_lines >= 1,
                0 <= k <= pre.len(),
                self.spec_lines() == pre.skip(k),
                self.spec_lines().len() == pre.len() - k,
                k == 0 || pre.len() - (k - 1) >= self.max_lines,
            decreases self.lines@.len(),
        {
            let ghost before = self.spec_lines();
            self.lines.pop_front();
            proof {
                assert(self.spec_lines() =~= before.skip(1));
                assert(before.skip(1) =~= pre.skip(k + 1));
                k = k + 1;
            }
        }
        let ghost trimmed = self.spec_lines();
        proof {
            assert(trimmed =~= trim_for_push(pre, self.max_lines as int));
        }
        self.lines.push_back(StyledLine { content: Vec::new(), wrapped });
        proof {
            assert(self.spec_lines() =~= trimmed.push((Seq::<Cell>::empty(), wrapped)));
        }
    }

    /// A copy of the line at `index`, counted from the top.
    pub fn get(&self, index: usize) -> (r: Option<StyledLine>)
        ensures
            index < self.spec_lines().len() ==> (r matches Some(l) && line_view(l)
                == self.spec_lines()[index as int]),
            index >= self.spec_lines().len() ==> r is None,
    {
        if index < self.lines.len() {
            Some(self.lines[index].duplicate())
        } else {
            None
        }
    }

    /// Copies of the lines visible in a viewport of the given height,
    /// accounting for the scroll offset: the newest lines above the
    /// offset, topmost first.
    pub fn visible_lines(&self, viewport_height: usize) -> (r: Vec<StyledLine>)
        ensures
            ({
                let len = self.spec_lines().len() as int;
                let end = if self.spec_scroll_offset() <= len {
                    len - self.spec_scroll_offset()
                } else {
                    0
                };
                let start = if viewport_height <= end {
                    end - viewport_height
                } else {
                    0
                };
                lines_view(r@) == self.spec_lines().subrange(start, end)
            }),
    {
        let len = self.lines.len();
        let end: usize = if self.scroll_offset <= len {
            len - self.scroll_offset
        } else {
            0
        };
        let start: usize = if viewport_height <= end {
            end - viewport_height
        } else {
            0
        };
        let mut out: Vec<StyledLine> = Vec::new();
        let mut i: usize = start;
        while i < end
            invariant
                start <= i <= end,
                end <= self.spec_lines().len(),
                lines_view(out@) == self.spec_lines().subrange(start as int, i as int),
            decreases end - i,
        {
            let dup = self.lines[i].duplicate();
            let ghost dv = dup;
            let ghost out0 = out@;
            out.push(dup);
            proof {
                assert(line_view(dv) == lines_view(self.lines@)[i as int]);
                assert(out@ == out0.push(dv));
                assert(lines_view(out0).len() == out0.len());
                assert(out0.len() == i - start);
                assert forall|j: int|
                    0 <= j < out@.len() implies lines_view(out@)[j] == self.spec_lines().subrange(
                    start as int,
                    i as int + 1,
                )[j] by {
                    assert(lines_view(out@)[j] == line_view(out@[j]));
                    assert(self.spec_lines().subrange(start as int, i as int + 1)[j]
                        == self.spec_lines()[start + j]);
                    if j < out0.len() {
                        assert(out@[j] == out0[j]);
                        assert(lines_view(out0)[j] == line_view(out0[j]));
                        assert(lines_view(out0)[j] == self.spec_lines().subrange(
                            start as int,
                            i as int,
                        )[j]);
                        assert(self.spec_lines().subrange(start as int, i as int)[j]
                            == self.spec_lines()[start + j]);
                    } else {
                        assert(j == out0.len());
                        assert(out@[j] == dv);
                        assert(start + j == i);
                    }
                }
                assert(lines_view(out@) =~= self.spec_lines().subrange(
                    start as int,
                    i as int + 1,
                ));
            }
            i = i + 1;
        }
        out
    }

    /// Scroll up (away from the newest content), clamped to the top.
    pub fn scroll_up(&mut self, lines: usize)
        requires
            old(self).wf(),
        ensures
            final(self).wf(),
            final(self).spec_lines() == old(self).spec_lines(),
            final(self).spec_max_lines() == old(self).spec_max_lines(),
            final(self).spec_scroll_offset() == if old(self).spec_scroll_offset() + lines <= old(
                self,
            ).spec_lines().len() - 1 {
                old(self).spec_scroll_offset() + lines
            } else {
                old(self).spec_lines().len() - 1
            },
    {
        let max_offset = self.lines.len() - 1;
        self.scroll_offset = if lines <= max_offset && self.scroll_offset <= max_offset - lines {
            self.scroll_offset + lines
        } else {
            max_offset
        };
    }

    /// Scroll down (toward the newest content), saturating at the bottom.
    pub fn scroll_down(&mut self, lines: usize)
        ensures
            final(self).spec_lines() == old(self).spec_lines(),
            final(self).spec_max_lines() == old(self).spec_max_lines(),
            final(self).spec_scroll_offset() == if lines <= old(self).spec_scroll_offset() {
                old(self).spec_scroll_offset() - lines
            } else {
                0
            },
    {
        self.scroll_offset = if lines <= self.scroll_offset {
            self.scroll_offset - lines
        } else {
            0
        };
    }

    /// Scroll to the bottom: the latest content.
    pub fn scroll_to_bottom(&mut self)
        ensures
            final(self).spec_lines() == old(self).spec_lines(),
            final(self).spec_max_lines() == old(self).spec_max_lines(),
            final(self).spec_scroll_offset() == 0,
    {
        self.scroll_offset = 0;
    }

    /// The scroll offset from the bottom.
    pub fn scroll_offset(&self) -> (n: usize)
        ensures
            n == self.spec_scroll_offset(),
    {
        self.scroll_offset
    }

    /// Whether the viewer is at the bottom.
    pub fn at_bottom(&self) -> (r: bool)
        ensures
            r == (self.spec_scroll_offset() == 0),
    {
        self.scroll_offset == 0
    }

    /// Discard all content, leaving one empty line.
    pub fn clear(&mut self)
        ensures
            final(self).wf() == (old(self).spec_max_lines() >= 1),
            final(self).spec_max_lines() == old(self).spec_max_lines(),
            final(self).spec_scroll_offset() == 0,
            final(self).spec_lines() == seq![(Seq::<Cell>::empty(), false)],
    {
        self.lines.clear();
        self.lines.push_back(StyledLine::empty());
        self.scroll_offset = 0;
        proof {
            assert(self.spec_lines() =~= seq![(Seq::<Cell>::empty(), false)]);
        }
    }
}

/// The views of a sequence of cell vectors.
pub open spec fn cellvecs_view(s: Seq<Vec<Cell>>) -> Seq<Seq<Cell>> {
    s.map_values(|v: Vec<Cell>| v@)
}

/// Merge soft-wrapped lines into logical lines, from index `i`, with the
/// partial logical line `acc` and the finished logical lines `out`.  At
/// the end the partial line is kept when it is nonempty, or when nothing
/// else was produced.
pub open spec fn merge_from(
    lines: Seq<(Seq<Cell>, bool)>,
    i: int,
    acc: Seq<Cell>,
    out: Seq<Seq<Cell>>,
) -> Seq<Seq<Cell>>
    decreases lines.len() - i,
{
    if i >= lines.len() || i < 0 {
        if acc.len() > 0 || out.len() == 0 {
            out.push(acc)
        } else {
            out
        }
    } else {
        let acc2 = acc + lines[i].0;
        if !lines[i].1 {
            merge_from(lines, i + 1, Seq::<Cell>::empty(), out.push(acc2))
        } else {
            merge_from(lines, i + 1, acc2, out)
        }
    }
}

/// Break one logical line into rows of at most `w` cells; every row but
/// the last is marked soft-wrapped.
pub open spec fn chunk_line(cells: Seq<Cell>, w: int) -> Seq<(Seq<Cell>, bool)>
    decreases cells.len(),
{
    if w <= 0 {
        seq![]
    } else if cells.len() <= w {
        seq![(cells, false)]
    } else {
        seq![(cells.take(w), true)] + chunk_line(cells.skip(w), w)
    }
}

/// Re-break every logical line from index `i` on.
pub open spec fn rewrap_logicals(ls: Seq<Seq<Cell>>, i: int, w: int) -> Seq<(Seq<Cell>, bool)>
    decreases ls.len() - i,
{
    if i >= ls.len() || i < 0 {
        seq![]
    } else {
        chunk_line(ls[i], w) + rewrap_logicals(ls, i + 1, w)
    }
}

/// The lines after rewrapping to a new width: soft-wrapped lines merged
/// into logical lines, each re-broken at the new width, at least one line
/// kept, and the oldest lines dropped down to the cap.
pub open spec fn rewrap_spec(lines: Seq<(Seq<Cell>, bool)>, w: int, max: int) -> Seq<
    (Seq<Cell>, bool),
> {
    let out = rewrap_logicals(
        merge_from(lines, 0, Seq::<Cell>::empty(), Seq::<Seq<Cell>>::empty()),
        0,
        w,
    );
    let out2 = if out.len() == 0 {
        seq![(Seq::<Cell>::empty(), false)]
    } else {
        out
    };
    if out2.len() <= max {
        out2
    } else {
        out2.skip(out2.len() - max)
    }
}

impl ScrollBuffer {
    /// Rewrap all content to a new width: soft-wrapped lines are merged
    /// back into logical lines and re-broken at the new width, the line
    /// cap is enforced, and the view returns to the bottom.  A zero width
    /// changes nothing.
    pub fn rewrap(&mut self, new_width: usize)
        requires
            old(self).wf(),
        ensures
            final(self).spec_max_lines() == old(self).spec_max_lines(),
            new_width == 0 ==> *final(self) == *old(self),
            new_width > 0 ==> {
                &&& final(self).wf()
                &&& final(self).spec_scroll_offset() == 0
                &&& final(self).spec_lines() == rewrap_spec(
                    old(self).spec_lines(),
                    new_width as int,
                    old(self).spec_max_lines() as int,
                )
            },
    {
        if new_width == 0 {
            return ;
        }
        let ghost pre = self.spec_lines();
        let ghost w = new_width as int;
        let n = self.lines.len();
        let mut logicals: Vec<Vec<Cell>> = Vec::new();
        let mut current: Vec<Cell> = Vec::new();
        proof {
            assert(current@ =~= Seq::<Cell>::empty());
            assert(cellvecs_view(logicals@) =~= Seq::<Seq<Cell>>::empty());
        }
        let mut i: usize = 0;
        while i < n
            invariant
                i <= n,
                n == pre.len(),
                pre == self.spec_lines(),
                self.max_lines == old(self).max_lines,
                merge_from(pre, i as int, current@, cellvecs_view(logicals@)) == merge_from(
                    pre,
                    0,
                    Seq::<Cell>::empty(),
                    Seq::<Seq<Cell>>::empty(),
                ),
            decreases n - i,
        {
            let ghost acc0 = current@;
            let ghost out0 = cellvecs_view(logicals@);
            let mut add = vstd::slice::slice_to_vec(self.lines[i].content.as_slice());
            current.append(&mut add);
            proof {
                assert(current@ =~= acc0 + pre[i as int].0);
            }
            if !self.lines[i].wrapped {
                let mut fresh: Vec<Cell> = Vec::new();
                core::mem::swap(&mut current, &mut fresh);
                let ghost done = fresh@;
                logicals.push(fresh);
                proof {
                    assert(cellvecs_view(logicals@) =~= out0.push(done));
                    assert(current@ =~= Seq::<Cell>::empty());
                }
            }
            i = i + 1;
        }
        if current.len() > 0 || logicals.len() == 0 {
            let ghost done = current@;
            let ghost out0 = cellvecs_view(logicals@);
            logicals.push(current);
            proof {
                assert(cellvecs_view(logicals@) =~= out0.push(done));
            }
        } else {
            proof {
                assert(merge_from(pre, n as int, current@, cellvecs_view(logicals@))
                    == cellvecs_view(logicals@));
            }
        }
        let ghost lv = cellvecs_view(logicals@);
        proof {
            assert(lv == merge_from(pre, 0, Seq::<Cell>::empty(), Seq::<Seq<Cell>>::empty()));
        }
        self.lines.clear();
        proof {
            assert(self.spec_lines() =~= Seq::<(Seq<Cell>, bool)>::empty());
        }
        let m = logicals.len();
        let mut li: usize = 0;
        while li < m
            invariant
                li <= m,
                m == lv.len(),
                m == logicals@.len(),
                lv == cellvecs_view(logicals@),
                new_width >= 1,
                w == new_width as int,
                self.max_lines == old(self).max_lines,
                self.scroll_offset == old(self).scroll_offset,
                rewrap_logicals(lv, 0, w) == self.spec_lines() + rewrap_logicals(lv, li as int, w),
            decreases m - li,
        {
            let len = logicals[li].len();
            let ghost logical = lv[li as int];
            proof {
                assert(logical == logicals@[li as int]@);
            }
            if len == 0 {
                let ghost before = self.spec_lines();
                self.lines.push_back(StyledLine { content: Vec::new(), wrapped: false });
                proof {
                    assert(self.spec_lines() =~= before.push((Seq::<Cell>::empty(), false)));
                    assert(chunk_line(logical, w) == seq![(logical, false)]);
                    assert(logical =~= Seq::<Cell>::empty());
                    assert(rewrap_logicals(lv, 0, w) =~= self.spec_lines() + rewrap_logicals(
                        lv,
                        li as int + 1,
                        w,
                    ));
                }
            } else {
                proof {
                    assert(logical.skip(0) =~= logical);
                    assert(rewrap_logicals(lv, li as int, w) == chunk_line(logical, w)
                        + rewrap_logicals(lv, li as int + 1, w));
                    assert(rewrap_logicals(lv, 0, w) =~= self.spec_lines() + chunk_line(
                        logical.skip(0),
                        w,
                    ) + rewrap_logicals(lv, li as int + 1, w));
                }
                let mut pos: usize = 0;
                while pos < len
                    invariant
                        pos <= len,
                        len == logical.len(),
                        logical == logicals@[li as int]@,
                        li < m,
                        m == lv.len(),
                        m == logicals@.len(),
                        lv == cellvecs_view(logicals@),
                        new_width >= 1,
                        w == new_width as int,
                        self.max_lines == old(self).max_lines,
                        self.scroll_offset == old(self).scroll_offset,
                        pos < len ==> rewrap_logicals(lv, 0, w) == self.spec_lines() + chunk_line(
                            logical.skip(pos as int),
                            w,
                        ) + rewrap_logicals(lv, li as int + 1, w),
                        pos >= len ==> rewrap_logicals(lv, 0, w) == self.spec_lines()
                            + rewrap_logicals(lv, li as int + 1, w),
                    decreases len - pos,
                {
                    let k: usize = if new_width <= len - pos {
                        new_width
                    } else {
                        len - pos
                    };
                    let wrapped = pos + k < len;
                    let mut chunk: Vec<Cell> = Vec::new();
                    let mut j: usize = 0;
                    while j < k
                        invariant
                            j <= k,
                            pos + k <= len,
                            len == logical.len(),
                            logical == logicals@[li as int]@,
                            li < m,
                            m == logicals@.len(),
                            chunk@ == logical.subrange(pos as int, pos as int + j),
                        decreases k - j,
                    {
                        chunk.push(logicals[li][pos + j]);
                        proof {
                            assert(chunk@ =~= logical.subrange(pos as int, pos as int + j + 1));
                        }
                        j = j + 1;
                    }
                    let ghost before = self.spec_lines();
                    let ghost chunk_v = chunk@;
                    self.lines.push_back(StyledLine { content: chunk, wrapped });
                    proof {
                        assert(self.spec_lines() =~= before.push((chunk_v, wrapped)));
                        let rest = logical.skip(pos as int);
                        if wrapped {
                            assert(rest.len() > w);
                            assert(chunk_line(rest, w) == seq![(rest.take(w), true)] + chunk_line(
                                rest.skip(w),
                                w,
                            ));
                            assert(rest.take(w) =~= chunk_v);
                            assert(rest.skip(w) =~= logical.skip(pos as int + k as int));
                            assert(rewrap_logicals(lv, 0, w) =~= self.spec_lines() + chunk_line(
                                logical.skip(pos as int + k as int),
                                w,
                            ) + rewrap_logicals(lv, li as int + 1, w));
                        } else {
                            assert(rest.len() <= w);
                            assert(chunk_line(rest, w) == seq![(rest, false)]);
                            assert(rest =~= chunk_v);
                            assert(pos + k == len);
                            assert(rewrap_logicals(lv, 0, w) =~= self.spec_lines()
                                + rewrap_logicals(lv, li as int + 1, w));
                        }
                    }
                    pos = pos + k;
                }
            }
            li = li + 1;
        }
        proof {
            assert(rewrap_logicals(lv, m as int, w) == Seq::<(Seq<Cell>, bool)>::empty());
            assert(rewrap_logicals(lv, 0, w) =~= self.spec_lines());
        }
        if self.lines.len() == 0 {
            self.lines.push_back(StyledLine { content: Vec::new(), wrapped: false });
            proof {
                assert(self.spec_lines() =~= seq![(Seq::<Cell>::empty(), false)]);
            }
        }
        let ghost out2 = self.spec_lines();
        let ghost mut kdrop: int = 0;
        proof {
            assert(self.spec_lines() =~= out2.skip(0));
        }
        while self.lines.len() > self.max_lines
            invariant
                self.max_lines == old(self).max_lines,
                self.max_lines >= 1,
                0 <= kdrop <= out2.len(),
                self.spec_lines() == out2.skip(kdrop),
                self.spec_lines().len() == out2.len() - kdrop,
                kdrop == 0 || out2.len() - (kdrop - 1) > self.max_lines,
            decreases self.lines@.len(),
        {
            let ghost before = self.spec_lines();
            self.lines.pop_front();
            proof {
                assert(self.spec_lines() =~= before.skip(1));
                assert(before.skip(1) =~= out2.skip(kdrop + 1));
                kdrop = kdrop + 1;
            }
        }
        self.scroll_offset = 0;
        proof {
            if out2.len() <= self.max_lines {
                assert(out2.skip(0) =~= out2);
            }
            assert(self.spec_lines() =~= rewrap_spec(pre, w, self.max_lines as int));
        }
    }
}

} // verus!
