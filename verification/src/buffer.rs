//! Buffer: a grid of cells representing the terminal screen.
//!
//! Cells are stored row-major in contiguous memory.  Graphemes whose UTF-8
//! encoding exceeds the four inline bytes of a cell are kept in an overflow
//! table owned by the buffer; the cell then stores the table index.  All
//! positional writes silently do nothing when out of bounds; they never
//! panic.

use vstd::prelude::*;
use vstd::pervasive::VecAdditionalExecFns;
use vstd::utf8::{encode_utf8, encode_utf8_decode_utf8, encode_utf8_valid_utf8};
use crate::cell::{Cell, CellFlags, Modifiers, Rgb, OVERFLOW, WIDE_CONTINUATION};
use crate::unicode::{grapheme_cell_width, clamped_width};

verus! {

/// The cell an in-bounds `set_grapheme` stores when the encoding fits the
/// four inline bytes.
pub open spec fn spec_inline_cell(g: Seq<char>, fg: Rgb, bg: Rgb) -> Cell {
    let e = encode_utf8(g);
    Cell {
        g0: if e.len() >= 1 { e[0] } else { 0 },
        g1: if e.len() >= 2 { e[1] } else { 0 },
        g2: if e.len() >= 3 { e[2] } else { 0 },
        g3: if e.len() >= 4 { e[3] } else { 0 },
        grapheme_len: e.len() as u8,
        display_width: clamped_width(g) as u8,
        fg,
        bg,
        modifiers: Modifiers { bits: 0 },
        flags: CellFlags { bits: 0 },
        pad0: 0,
        pad1: 0,
    }
}

/// The cell an in-bounds `set_grapheme` stores when the grapheme spills to
/// the overflow table: the table index, little-endian, in the grapheme
/// bytes.
pub open spec fn spec_overflow_cell(index: u32, width: u8, fg: Rgb, bg: Rgb) -> Cell {
    Cell {
        g0: (index & 0xFF) as u8,
        g1: ((index >> 8) & 0xFF) as u8,
        g2: ((index >> 16) & 0xFF) as u8,
        g3: ((index >> 24) & 0xFF) as u8,
        grapheme_len: 0,
        display_width: width,
        fg,
        bg,
        modifiers: Modifiers { bits: 0 },
        flags: CellFlags { bits: OVERFLOW },
        pad0: 0,
        pad1: 0,
    }
}

/// The continuation cell placed to the right of a two-column grapheme; it
/// carries the grapheme's background.
pub open spec fn spec_continuation_cell(bg: Rgb) -> Cell {
    Cell {
        g0: 0,
        g1: 0,
        g2: 0,
        g3: 0,
        grapheme_len: 0,
        display_width: 0,
        fg: Rgb { r: 255, g: 255, b: 255 },
        bg,
        modifiers: Modifiers { bits: 0 },
        flags: CellFlags { bits: WIDE_CONTINUATION },
        pad0: 0,
        pad1: 0,
    }
}

/// The cell `set_grapheme` stores for grapheme `g`, given the next free
/// overflow index.
pub open spec fn spec_cell_for_grapheme(g: Seq<char>, fg: Rgb, bg: Rgb, next_index: int) -> Cell {
    if encode_utf8(g).len() <= 4 {
        spec_inline_cell(g, fg, bg)
    } else {
        spec_overflow_cell(next_index as u32, clamped_width(g) as u8, fg, bg)
    }
}

/// A grid of `width x height` cells in row-major order, with an overflow
/// table for graphemes longer than a cell's inline storage.
pub struct Buffer {
    /// Contiguous cell storage, row-major.
    cells: Vec<Cell>,
    /// Width in columns.
    width: u16,
    /// Height in rows.
    height: u16,
    /// Overflow storage for long graphemes; a cell stores an index into
    /// this table.
    overflow: Vec<String>,
}

impl Buffer {
    /// Width in columns, at the specification level.
    pub closed spec fn spec_width(&self) -> u16 {
        self.width
    }

    /// Height in rows, at the specification level.
    pub closed spec fn spec_height(&self) -> u16 {
        self.height
    }

    /// The cells, row-major, at the specification level.
    pub closed spec fn spec_cells(&self) -> Seq<Cell> {
        self.cells@
    }

    /// The overflow table as a sequence of character sequences.
    pub closed spec fn spec_overflow(&self) -> Seq<Seq<char>> {
        self.overflow@.map_values(|s: String| s@)
    }

    /// Well-formedness: positive dimensions and a fully allocated grid.
    pub open spec fn wf(&self) -> bool {
        &&& self.spec_width() > 0
        &&& self.spec_height() > 0
        &&& self.spec_cells().len() == self.spec_width() * self.spec_height()
        &&& self.spec_overflow().len() <= 0xFFFF_FFFF
    }

    /// Whether `(x, y)` lies inside the grid.
    pub open spec fn spec_in_bounds(&self, x: int, y: int) -> bool {
        0 <= x < self.spec_width() && 0 <= y < self.spec_height()
    }

    /// The row-major index of `(x, y)`.
    pub open spec fn spec_index_of(&self, x: int, y: int) -> int {
        y * self.spec_width() + x
    }

    /// The cell at `(x, y)`.
    pub open spec fn spec_cell_at(&self, x: int, y: int) -> Cell {
        self.spec_cells()[self.spec_index_of(x, y)]
    }

    /// The grapheme shown at `(x, y)`: `None` out of bounds, for
    /// continuation cells, for unresolvable overflow indices and for
    /// invalid inline bytes.
    pub open spec fn spec_grapheme_at(&self, x: int, y: int) -> Option<Seq<char>> {
        if !self.spec_in_bounds(x, y) {
            None
        } else {
            let c = self.spec_cell_at(x, y);
            if c.spec_is_wide_continuation() {
                None
            } else if c.spec_is_overflow() {
                if c.spec_overflow_index() < self.spec_overflow().len() {
                    Some(self.spec_overflow()[c.spec_overflow_index() as int])
                } else {
                    None
                }
            } else {
                c.spec_inline_grapheme()
            }
        }
    }

    /// Create a buffer of the given dimensions, every cell empty.
    pub fn new(width: u16, height: u16) -> (r: Buffer)
        requires
            width > 0,
            height > 0,
        ensures
            r.wf(),
            r.spec_width() == width,
            r.spec_height() == height,
            r.spec_overflow() == Seq::<Seq<char>>::empty(),
            forall|i: int|
                0 <= i < r.spec_cells().len() ==> r.spec_cells()[i] == Cell::spec_empty(),
    {
        proof {
            assert(width * height <= 0xFFFF * 0xFFFF) by (nonlinear_arith)
                requires
                    width <= 0xFFFF,
                    height <= 0xFFFF,
            ;
        }
        let size: usize = (width as usize) * (height as usize);
        let mut cells: Vec<Cell> = Vec::new();
        let empty = Cell::empty();
        let mut i: usize = 0;
        while i < size
            invariant
                i <= size,
                cells@.len() == i,
                forall|j: int| 0 <= j < i ==> cells@[j] == Cell::spec_empty(),
                empty == Cell::spec_empty(),
            decreases size - i,
        {
            cells.push(empty);
            i = i + 1;
        }
        let r = Buffer { cells, width, height, overflow: Vec::new() };
        proof {
            assert(r.spec_overflow() =~= Seq::<Seq<char>>::empty());
        }
        r
    }

    /// Width in columns.
    pub fn width(&self) -> (w: u16)
        ensures
            w == self.spec_width(),
    {
        self.width
    }

    /// Height in rows.
    pub fn height(&self) -> (h: u16)
        ensures
            h == self.spec_height(),
    {
        self.height
    }

    /// Total number of cells.
    pub fn len(&self) -> (n: usize)
        ensures
            n == self.spec_cells().len(),
    {
        self.cells.len()
    }

    /// Whether the buffer holds no cells (never true for a well-formed
    /// buffer).
    pub fn is_empty(&self) -> (r: bool)
        ensures
            r == (self.spec_cells().len() == 0),
    {
        self.cells.len() == 0
    }

    /// The underlying cell storage, row-major.
    pub fn cells(&self) -> (r: &Vec<Cell>)
        ensures
            r@ == self.spec_cells(),
    {
        &self.cells
    }

    /// The row-major index of `(x, y)`, when in bounds.
    pub fn index_of(&self, x: u16, y: u16) -> (r: Option<usize>)
        requires
            self.wf(),
        ensures
            self.spec_in_bounds(x as int, y as int) <==> r is Some,
            r matches Some(i) ==> i as int == self.spec_index_of(x as int, y as int) && i
                < self.spec_cells().len(),
    {
        if x < self.width && y < self.height {
            proof {
                assert(y * self.spec_width() + x < self.spec_width() * self.spec_height()
                    && y * self.spec_width() + x < 0xFFFF_FFFF) by (nonlinear_arith)
                    requires
                        x < self.spec_width(),
                        y < self.spec_height(),
                        self.spec_width() <= 0xFFFF,
                        self.spec_height() <= 0xFFFF,
                ;
            }
            Some((y as usize) * (self.width as usize) + (x as usize))
        } else {
            None
        }
    }

    /// The coordinates of a row-major index, when in range.
    pub fn coords_of(&self, index: usize) -> (r: Option<(u16, u16)>)
        requires
            self.wf(),
        ensures
            index < self.spec_cells().len() ==> r == Some(
                (
                    (index as int % self.spec_width() as int) as u16,
                    (index as int / self.spec_width() as int) as u16,
                ),
            ),
            index >= self.spec_cells().len() ==> r is None,
    {
        if index < self.cells.len() {
            proof {
                assert((index as int) / (self.spec_width() as int) < self.spec_height()
                    && (index as int) % (self.spec_width() as int) < self.spec_width())
                    by (nonlinear_arith)
                    requires
                        self.spec_width() > 0,
                        self.spec_height() > 0,
                        index < self.spec_width() * self.spec_height(),
                ;
            }
            let x = (index % (self.width as usize)) as u16;
            let y = (index / (self.width as usize)) as u16;
            Some((x, y))
        } else {
            None
        }
    }

    /// The cell at `(x, y)`, when in bounds.
    pub fn get(&self, x: u16, y: u16) -> (r: Option<Cell>)
        requires
            self.wf(),
        ensures
            self.spec_in_bounds(x as int, y as int) ==> r == Some(
                self.spec_cell_at(x as int, y as int),
            ),
            !self.spec_in_bounds(x as int, y as int) ==> r is None,
    {
        match self.index_of(x, y) {
            Some(i) => Some(self.cells[i]),
            None => None,
        }
    }

    /// The cell at `(x, y)`, which must be in bounds.
    pub fn cell_at(&self, x: u16, y: u16) -> (c: Cell)
        requires
            self.wf(),
            self.spec_in_bounds(x as int, y as int),
        ensures
            c == self.spec_cell_at(x as int, y as int),
    {
        match self.index_of(x, y) {
            Some(i) => self.cells[i],
            None => Cell::empty(),
        }
    }

    /// Store a cell at `(x, y)`; returns whether the position was in
    /// bounds.
    pub fn set(&mut self, x: u16, y: u16, cell: Cell) -> (r: bool)
        requires
            old(self).wf(),
        ensures
            final(self).wf(),
            final(self).spec_width() == old(self).spec_width(),
            final(self).spec_height() == old(self).spec_height(),
            final(self).spec_overflow() == old(self).spec_overflow(),
            r == old(self).spec_in_bounds(x as int, y as int),
            r ==> final(self).spec_cells() == old(self).spec_cells().update(
                old(self).spec_index_of(x as int, y as int),
                cell,
            ),
            !r ==> final(self).spec_cells() == old(self).spec_cells(),
    {
        match self.index_of(x, y) {
            Some(i) => {
                self.cells.set(i, cell);
                true
            },
            None => false,
        }
    }

    /// Store a grapheme at `(x, y)` with the given colors, spilling to the
    /// overflow table when its encoding does not fit a cell inline, and
    /// placing a continuation cell at `(x + 1, y)` for a two-column
    /// grapheme.  Returns the display width written, 0 when out of bounds.
    pub fn set_grapheme(&mut self, x: u16, y: u16, grapheme: &str, fg: Rgb, bg: Rgb) -> (w: u8)
        requires
            old(self).wf(),
        ensures
            final(self).wf(),
            final(self).spec_width() == old(self).spec_width(),
            final(self).spec_height() == old(self).spec_height(),
            !old(self).spec_in_bounds(x as int, y as int) ==> {
                &&& w == 0
                &&& final(self).spec_cells() == old(self).spec_cells()
                &&& final(self).spec_overflow() == old(self).spec_overflow()
            },
            old(self).spec_in_bounds(x as int, y as int) && encode_utf8(grapheme@).len() > 4
                && old(self).spec_overflow().len() == 0xFFFF_FFFF ==> {
                &&& w == 0
                &&& final(self).spec_cells() == old(self).spec_cells()
                &&& final(self).spec_overflow() == old(self).spec_overflow()
            },
            old(self).spec_in_bounds(x as int, y as int) && (encode_utf8(grapheme@).len() <= 4
                || old(self).spec_overflow().len() < 0xFFFF_FFFF) ==> {
                let g = grapheme@;
                let i = old(self).spec_index_of(x as int, y as int);
                let nc = spec_cell_for_grapheme(g, fg, bg, old(self).spec_overflow().len() as int);
                let base = old(self).spec_cells().update(i, nc);
                &&& w == clamped_width(g)
                &&& final(self).spec_overflow() == if encode_utf8(g).len() <= 4 {
                    old(self).spec_overflow()
                } else {
                    old(self).spec_overflow().push(g)
                }
                &&& final(self).spec_cells() == if w == 2 && x + 1 < old(self).spec_width() {
                    base.update(i + 1, spec_continuation_cell(bg))
                } else {
                    base
                }
                &&& final(self).spec_grapheme_at(x as int, y as int) == Some(g)
            },
    {
        let idx = match self.index_of(x, y) {
            Some(i) => i,
            None => {
                return 0;
            },
        };
        let w = grapheme_cell_width(grapheme);
        let bytes = grapheme.as_bytes();
        let n = bytes.len();
        let cell: Cell;
        if n <= 4 {
            let g0: u8 = if n >= 1 {
                bytes[0]
            } else {
                0
            };
            let g1: u8 = if n >= 2 {
                bytes[1]
            } else {
                0
            };
            let g2: u8 = if n >= 3 {
                bytes[2]
            } else {
                0
            };
            let g3: u8 = if n >= 4 {
                bytes[3]
            } else {
                0
            };
            cell = Cell {
                g0,
                g1,
                g2,
                g3,
                grapheme_len: n as u8,
                display_width: w,
                fg,
                bg,
                modifiers: Modifiers { bits: 0 },
                flags: CellFlags { bits: 0 },
                pad0: 0,
                pad1: 0,
            };
            proof {
                assert(cell == spec_inline_cell(grapheme@, fg, bg));
            }
        } else {
            if self.overflow.len() >= 0xFFFF_FFFFusize {
                return 0;
            }
            let index: u32 = self.overflow.len() as u32;
            self.overflow.push(grapheme.to_owned());
            proof {
                assert((index & 0xFF) < 256 && ((index >> 8) & 0xFF) < 256 && ((index >> 16)
                    & 0xFF) < 256 && ((index >> 24) & 0xFF) < 256) by (bit_vector);
            }
            cell = Cell {
                g0: (index & 0xFF) as u8,
                g1: ((index >> 8) & 0xFF) as u8,
                g2: ((index >> 16) & 0xFF) as u8,
                g3: ((index >> 24) & 0xFF) as u8,
                grapheme_len: 0,
                display_width: w,
                fg,
                bg,
                modifiers: Modifiers { bits: 0 },
                flags: CellFlags { bits: OVERFLOW },
                pad0: 0,
                pad1: 0,
            };
            proof {
                assert(self.overflow@.map_values(|s: String| s@) =~= old(
                    self,
                ).spec_overflow().push(grapheme@));
                assert(cell == spec_overflow_cell(index, w, fg, bg));
            }
        }
        self.cells.set(idx, cell);
        if w == 2 && x + 1 < self.width {
            let cont = Cell {
                g0: 0,
                g1: 0,
                g2: 0,
                g3: 0,
                grapheme_len: 0,
                display_width: 0,
                fg: Rgb { r: 255, g: 255, b: 255 },
                bg,
                modifiers: Modifiers { bits: 0 },
                flags: CellFlags { bits: WIDE_CONTINUATION },
                pad0: 0,
                pad1: 0,
            };
            proof {
                assert(y * self.spec_width() + x + 1 < self.spec_width() * self.spec_height()
                    && self.spec_width() * self.spec_height() <= 0xFFFF * 0xFFFF)
                    by (nonlinear_arith)
                    requires
                        x + 1 < self.spec_width(),
                        y < self.spec_height(),
                        self.spec_width() <= 0xFFFF,
                        self.spec_height() <= 0xFFFF,
                ;
            }
            self.cells.set(idx + 1, cont);
        }
        proof {
            self.lemma_set_grapheme_reads_back(*old(self), x as int, y as int, grapheme@, fg, bg);
        }
        w
    }

    /// After `set_grapheme` stored its cell, the grapheme reads back.
    proof fn lemma_set_grapheme_reads_back(
        &self,
        pre: Buffer,
        x: int,
        y: int,
        g: Seq<char>,
        fg: Rgb,
        bg: Rgb,
    )
        requires
            pre.wf(),
            pre.spec_in_bounds(x, y),
            self.spec_width() == pre.spec_width(),
            self.spec_height() == pre.spec_height(),
            self.spec_overflow() == if encode_utf8(g).len() <= 4 {
                pre.spec_overflow()
            } else {
                pre.spec_overflow().push(g)
            },
            ({
                let i = pre.spec_index_of(x, y);
                let nc = spec_cell_for_grapheme(g, fg, bg, pre.spec_overflow().len() as int);
                let base = pre.spec_cells().update(i, nc);
                self.spec_cells() == if clamped_width(g) == 2 && x + 1 < pre.spec_width() {
                    base.update(i + 1, spec_continuation_cell(bg))
                } else {
                    base
                }
            }),
        ensures
            self.spec_grapheme_at(x, y) == Some(g),
    {
        let i = pre.spec_index_of(x, y);
        let nc = spec_cell_for_grapheme(g, fg, bg, pre.spec_overflow().len() as int);
        assert(i < pre.spec_cells().len() && 0 <= i) by (nonlinear_arith)
            requires
                0 <= x < pre.spec_width(),
                0 <= y < pre.spec_height(),
                i == y * pre.spec_width() + x,
                pre.spec_cells().len() == pre.spec_width() * pre.spec_height(),
        ;
        if clamped_width(g) == 2 && x + 1 < pre.spec_width() {
            assert(i + 1 < pre.spec_cells().len()) by (nonlinear_arith)
                requires
                    0 <= x,
                    x + 1 < pre.spec_width(),
                    0 <= y < pre.spec_height(),
                    i == y * pre.spec_width() + x,
                    pre.spec_cells().len() == pre.spec_width() * pre.spec_height(),
            ;
        }
        assert(self.spec_cells().len() == pre.spec_cells().len());
        assert(self.spec_cell_at(x, y) == nc);
        if encode_utf8(g).len() <= 4 {
            let e = encode_utf8(g);
            assert(0u8 & 0x01u8 != 0x01u8 && 0u8 & 0x04u8 != 0x04u8) by (bit_vector);
            assert(nc.inline_bytes() =~= e);
            encode_utf8_valid_utf8(g);
            encode_utf8_decode_utf8(g);
        } else {
            let idx = pre.spec_overflow().len() as u32;
            assert(0x01u8 & 0x01u8 == 0x01u8 && 0x01u8 & 0x04u8 != 0x04u8) by (bit_vector);
            let b0 = (idx & 0xFF) as u8;
            let b1 = ((idx >> 8) & 0xFF) as u8;
            let b2 = ((idx >> 16) & 0xFF) as u8;
            let b3 = ((idx >> 24) & 0xFF) as u8;
            assert((b0 as u32) | ((b1 as u32) << 8) | ((b2 as u32) << 16) | ((b3 as u32) << 24)
                == idx) by (bit_vector)
                requires
                    b0 == (idx & 0xFF) as u8,
                    b1 == ((idx >> 8) & 0xFF) as u8,
                    b2 == ((idx >> 16) & 0xFF) as u8,
                    b3 == ((idx >> 24) & 0xFF) as u8,
            ;
            assert(nc.spec_overflow_index() == idx);
            assert(self.spec_overflow()[idx as int] == g);
        }
    }

    /// The grapheme at `(x, y)`, looking overflow cells up in the table;
    /// `None` out of bounds, for continuation cells and for unresolvable
    /// content.
    pub fn get_grapheme(&self, x: u16, y: u16) -> (r: Option<String>)
        requires
            self.wf(),
        ensures
            r matches Some(s) ==> self.spec_grapheme_at(x as int, y as int) == Some(s@),
            r is None <==> self.spec_grapheme_at(x as int, y as int) is None,
    {
        let cell = match self.get(x, y) {
            Some(c) => c,
            None => {
                return None;
            },
        };
        if cell.is_wide_continuation() {
            return None;
        }
        if cell.is_overflow() {
            let idx = match cell.overflow_index() {
                Some(i) => i,
                None => {
                    return None;
                },
            };
            self.get_overflow(idx)
        } else {
            cell.grapheme()
        }
    }

    /// An overflow grapheme by table index, as the differ reads it when it
    /// renders an overflow cell.
    pub fn get_overflow(&self, index: u32) -> (r: Option<String>)
        ensures
            index < self.spec_overflow().len() ==> (r matches Some(s) && s@
                == self.spec_overflow()[index as int]),
            index >= self.spec_overflow().len() ==> r is None,
    {
        if (index as usize) < self.overflow.len() {
            Some(self.overflow[index as usize].clone())
        } else {
            None
        }
    }

    /// Fill the rectangle clipped to the grid with a cell.
    pub fn fill_rect(&mut self, x: u16, y: u16, width: u16, height: u16, cell: Cell)
        requires
            old(self).wf(),
        ensures
            final(self).wf(),
            final(self).spec_width() == old(self).spec_width(),
            final(self).spec_height() == old(self).spec_height(),
            final(self).spec_overflow() == old(self).spec_overflow(),
            final(self).spec_cells().len() == old(self).spec_cells().len(),
            forall|cx: int, cy: int|
                0 <= cx < final(self).spec_width() && 0 <= cy < final(self).spec_height()
                    ==> #[trigger] final(self).spec_cell_at(cx, cy) == (if x <= cx < x + width && y
                    <= cy < y + height {
                    cell
                } else {
                    old(self).spec_cell_at(cx, cy)
                }),
    {
        let y_end: u16 = if (y as u32) + (height as u32) <= self.height as u32 {
            y + height
        } else {
            self.height
        };
        let x_end: u16 = if (x as u32) + (width as u32) <= self.width as u32 {
            x + width
        } else {
            self.width
        };
        let mut row: u16 = y;
        while row < y_end
            invariant
                self.wf(),
                y <= row <= y_end || row == y,
                y_end <= self.spec_height(),
                x_end <= self.spec_width(),
                y + height <= self.spec_height() ==> y_end == y + height,
                y + height > self.spec_height() ==> y_end == self.spec_height(),
                x + width <= self.spec_width() ==> x_end == x + width,
                x + width > self.spec_width() ==> x_end == self.spec_width(),
                self.spec_width() == old(self).spec_width(),
                self.spec_height() == old(self).spec_height(),
                self.spec_overflow() == old(self).spec_overflow(),
                self.spec_cells().len() == old(self).spec_cells().len(),
                forall|cx: int, cy: int|
                    0 <= cx < self.spec_width() && 0 <= cy < self.spec_height()
                        ==> #[trigger] self.spec_cell_at(cx, cy) == (if x <= cx < x_end && y <= cy
                        < row {
                        cell
                    } else {
                        old(self).spec_cell_at(cx, cy)
                    }),
            decreases y_end - row,
        {
            let mut col: u16 = x;
            while col < x_end
                invariant
                    self.wf(),
                    x <= col <= x_end || col == x,
                    row < y_end,
                    y_end <= self.spec_height(),
                    x_end <= self.spec_width(),
                    self.spec_width() == old(self).spec_width(),
                    self.spec_height() == old(self).spec_height(),
                    self.spec_overflow() == old(self).spec_overflow(),
                    self.spec_cells().len() == old(self).spec_cells().len(),
                    forall|cx: int, cy: int|
                        0 <= cx < self.spec_width() && 0 <= cy < self.spec_height()
                            ==> #[trigger] self.spec_cell_at(cx, cy) == (if (x <= cx < x_end && y
                            <= cy < row) || (cy == row && x <= cx < col) {
                            cell
                        } else {
                            old(self).spec_cell_at(cx, cy)
                        }),
                decreases x_end - col,
            {
                let ghost prev = *self;
                self.set(col, row, cell);
                proof {
                    assert forall|cx: int, cy: int|
                        0 <= cx < self.spec_width() && 0 <= cy < self.spec_height() implies #[trigger] self.spec_cell_at(
                        cx,
                        cy,
                    ) == (if (x <= cx < x_end && y <= cy < row) || (cy == row && x <= cx < col + 1) {
                        cell
                    } else {
                        old(self).spec_cell_at(cx, cy)
                    }) by {
                        let w = self.spec_width() as int;
                        assert(prev.spec_cell_at(cx, cy) == (if (x <= cx < x_end && y <= cy < row)
                            || (cy == row && x <= cx < col) {
                            cell
                        } else {
                            old(self).spec_cell_at(cx, cy)
                        }));
                        assert((cy * w + cx == row * w + col) <==> (cx == col && cy == row))
                            by (nonlinear_arith)
                            requires
                                0 <= cx < w,
                                0 <= cy,
                                0 <= col < w,
                                0 <= row,
                        ;
                        assert(0 <= cy * w + cx < self.spec_cells().len()) by (nonlinear_arith)
                            requires
                                0 <= cx < w,
                                0 <= cy < self.spec_height(),
                                self.spec_cells().len() == w * self.spec_height(),
                        ;
                        assert(0 <= row * w + col < self.spec_cells().len()) by (nonlinear_arith)
                            requires
                                0 <= col < w,
                                0 <= row < self.spec_height(),
                                self.spec_cells().len() == w * self.spec_height(),
                        ;
                    }
                }
                col = col + 1;
            }
            row = row + 1;
        }
    }

    /// Fill the whole grid with empty cells and discard the overflow table.
    pub fn clear(&mut self)
        requires
            old(self).wf(),
        ensures
            final(self).wf(),
            final(self).spec_width() == old(self).spec_width(),
            final(self).spec_height() == old(self).spec_height(),
            final(self).spec_overflow() == Seq::<Seq<char>>::empty(),
            final(self).spec_cells().len() == old(self).spec_cells().len(),
            forall|i: int|
                0 <= i < final(self).spec_cells().len() ==> final(self).spec_cells()[i]
                    == Cell::spec_empty(),
    {
        let n = self.cells.len();
        let empty = Cell::empty();
        let mut i: usize = 0;
        while i < n
            invariant
                i <= n,
                self.cells@.len() == n,
                self.width == old(self).width,
                self.height == old(self).height,
                forall|j: int| 0 <= j < i ==> self.cells@[j] == Cell::spec_empty(),
                empty == Cell::spec_empty(),
            decreases n - i,
        {
            self.cells.set(i, empty);
            i = i + 1;
        }
        self.overflow.clear();
        proof {
            assert(self.spec_overflow() =~= Seq::<Seq<char>>::empty());
        }
    }

    /// Clear a rectangle to empty cells.
    pub fn clear_rect(&mut self, x: u16, y: u16, width: u16, height: u16)
        requires
            old(self).wf(),
        ensures
            final(self).wf(),
            final(self).spec_width() == old(self).spec_width(),
            final(self).spec_height() == old(self).spec_height(),
            final(self).spec_overflow() == old(self).spec_overflow(),
            forall|cx: int, cy: int|
                0 <= cx < final(self).spec_width() && 0 <= cy < final(self).spec_height()
                    ==> #[trigger] final(self).spec_cell_at(cx, cy) == (if x <= cx < x + width && y
                    <= cy < y + height {
                    Cell::spec_empty()
                } else {
                    old(self).spec_cell_at(cx, cy)
                }),
    {
        self.fill_rect(x, y, width, height, Cell::empty());
    }

    /// Resize the grid, preserving the intersection and filling new area
    /// with empty cells.  The overflow table is kept, so surviving overflow
    /// cells still resolve.
    pub fn resize(&mut self, new_width: u16, new_height: u16)
        requires
            old(self).wf(),
            new_width > 0,
            new_height > 0,
        ensures
            final(self).wf(),
            final(self).spec_width() == new_width,
            final(self).spec_height() == new_height,
            final(self).spec_overflow() == old(self).spec_overflow(),
            forall|cx: int, cy: int|
                0 <= cx < new_width && 0 <= cy < new_height
                    ==> #[trigger] final(self).spec_cell_at(cx, cy) == (if cx < old(
                    self,
                ).spec_width() && cy < old(self).spec_height() {
                    old(self).spec_cell_at(cx, cy)
                } else {
                    Cell::spec_empty()
                }),
    {
        if new_width == self.width && new_height == self.height {
            proof {
                assert forall|cx: int, cy: int|
                    0 <= cx < new_width && 0 <= cy < new_height implies #[trigger] self.spec_cell_at(
                    cx,
                    cy,
                ) == old(self).spec_cell_at(cx, cy) by {}
            }
            return ;
        }
        proof {
            assert(new_width * new_height <= 0xFFFF * 0xFFFF) by (nonlinear_arith)
                requires
                    new_width <= 0xFFFF,
                    new_height <= 0xFFFF,
            ;
        }
        let new_size: usize = (new_width as usize) * (new_height as usize);
        let mut new_cells: Vec<Cell> = Vec::new();
        let empty = Cell::empty();
        let mut i: usize = 0;
        while i < new_size
            invariant
                i <= new_size,
                new_cells@.len() == i,
                self.wf(),
                *self == *old(self),
                new_size == new_width * new_height,
                new_width > 0,
                new_height > 0,
                empty == Cell::spec_empty(),
                forall|j: int|
                    0 <= j < i ==> #[trigger] new_cells@[j] == {
                        let cx = j % (new_width as int);
                        let cy = j / (new_width as int);
                        if cx < self.spec_width() && cy < self.spec_height() {
                            self.spec_cell_at(cx, cy)
                        } else {
                            Cell::spec_empty()
                        }
                    },
            decreases new_size - i,
        {
            proof {
                assert(0 <= i as int % (new_width as int) < new_width && 0 <= i as int / (
                new_width as int) < new_height) by (nonlinear_arith)
                    requires
                        new_width > 0,
                        new_height > 0,
                        0 <= i < new_width * new_height,
                ;
            }
            let cx: u16 = (i % (new_width as usize)) as u16;
            let cy: u16 = (i / (new_width as usize)) as u16;
            let c: Cell = if cx < self.width && cy < self.height {
                match self.get(cx, cy) {
                    Some(c) => c,
                    None => empty,
                }
            } else {
                empty
            };
            new_cells.push(c);
            i = i + 1;
        }
        self.cells = new_cells;
        self.width = new_width;
        self.height = new_height;
        proof {
            assert forall|cx: int, cy: int|
                0 <= cx < new_width && 0 <= cy < new_height implies #[trigger] self.spec_cell_at(
                cx,
                cy,
            ) == (if cx < old(self).spec_width() && cy < old(self).spec_height() {
                old(self).spec_cell_at(cx, cy)
            } else {
                Cell::spec_empty()
            }) by {
                let j = cy * (new_width as int) + cx;
                assert(0 <= j < new_width * new_height && j % (new_width as int) == cx && j / (
                new_width as int) == cy) by (nonlinear_arith)
                    requires
                        0 <= cx < new_width,
                        0 <= cy < new_height,
                        j == cy * (new_width as int) + cx,
                        new_width > 0,
                ;
            }
        }
    }

    /// Copy the cells and overflow table from another buffer of the same
    /// dimensions.
    pub fn copy_from(&mut self, other: &Buffer)
        requires
            old(self).wf(),
            other.wf(),
            other.spec_width() == old(self).spec_width(),
            other.spec_height() == old(self).spec_height(),
        ensures
            final(self).wf(),
            final(self).spec_width() == old(self).spec_width(),
            final(self).spec_height() == old(self).spec_height(),
            final(self).spec_cells() == other.spec_cells(),
            final(self).spec_overflow() == other.spec_overflow(),
    {
        self.cells = vstd::slice::slice_to_vec(other.cells.as_slice());
        let mut ov: Vec<String> = Vec::new();
        let n = other.overflow.len();
        let mut i: usize = 0;
        while i < n
            invariant
                i <= n,
                n == other.overflow@.len(),
                ov@.len() == i,
                forall|j: int| 0 <= j < i ==> #[trigger] ov@[j]@ == other.overflow@[j]@,
            decreases n - i,
        {
            ov.push(other.overflow[i].clone());
            i = i + 1;
        }
        self.overflow = ov;
        proof {
            assert(self.spec_overflow() =~= other.spec_overflow());
        }
    }

    /// Exchange the contents of two buffers.
    pub fn swap(&mut self, other: &mut Buffer)
        ensures
            final(self).spec_width() == old(other).spec_width(),
            final(self).spec_height() == old(other).spec_height(),
            final(self).spec_cells() == old(other).spec_cells(),
            final(self).spec_overflow() == old(other).spec_overflow(),
            final(other).spec_width() == old(self).spec_width(),
            final(other).spec_height() == old(self).spec_height(),
            final(other).spec_cells() == old(self).spec_cells(),
            final(other).spec_overflow() == old(self).spec_overflow(),
    {
        core::mem::swap(self, other);
    }

    /// Approximate memory usage in bytes: sixteen bytes per cell, each
    /// overflow entry's UTF-8 length plus bookkeeping, and a fixed header.
    /// Saturates at the address-space limit.
    pub fn memory_usage(&self) -> (r: usize)
        requires
            self.wf(),
        ensures
            r == crate::buffer::spec_memory_usage(*self) || (r == usize::MAX
                && crate::buffer::spec_memory_usage(*self) > usize::MAX),
    {
        proof {
            assert(self.spec_cells().len() <= 0xFFFF * 0xFFFF) by (nonlinear_arith)
                requires
                    self.spec_cells().len() == self.spec_width() * self.spec_height(),
                    self.spec_width() <= 0xFFFF,
                    self.spec_height() <= 0xFFFF,
            ;
        }
        let cells_bytes: u64 = (self.cells.len() as u64) * 16;
        let mut ov_bytes: u64 = 0;
        let n = self.overflow.len();
        let mut i: usize = 0;
        proof {
            assert(self.spec_overflow().take(0) =~= Seq::<Seq<char>>::empty());
        }
        while i < n
            invariant
                i <= n,
                n == self.overflow@.len(),
                ov_bytes == spec_overflow_usage(self.spec_overflow().take(i as int)) || (ov_bytes
                    == u64::MAX && spec_overflow_usage(self.spec_overflow().take(i as int))
                    > u64::MAX),
            decreases n - i,
        {
            let s_len: usize = self.overflow[i].as_str().len();
            let add: u64 = if s_len as u64 <= u64::MAX - 32 {
                s_len as u64 + 32
            } else {
                u64::MAX
            };
            ov_bytes = if ov_bytes <= u64::MAX - add {
                ov_bytes + add
            } else {
                u64::MAX
            };
            proof {
                assert(self.spec_overflow().take(i + 1).drop_last() =~= self.spec_overflow().take(
                    i as int,
                ));
                assert(self.spec_overflow().take(i + 1).last() == self.spec_overflow()[i as int]);
                let u_prev = spec_overflow_usage(self.spec_overflow().take(i as int));
                let u_new = spec_overflow_usage(self.spec_overflow().take(i + 1));
                assert(u_new == u_prev + (encode_utf8(self.spec_overflow()[i as int]).len()
                    as usize) + 32);
                assert(s_len == encode_utf8(self.spec_overflow()[i as int]).len() as usize);
                assert(add == s_len as int + 32 || (add == u64::MAX && s_len as int + 32
                    > u64::MAX));
            }
            i = i + 1;
        }
        proof {
            assert(self.spec_overflow().take(n as int) =~= self.spec_overflow());
        }
        let total: u64 = if cells_bytes <= u64::MAX - 64 && ov_bytes <= u64::MAX - 64 - cells_bytes {
            cells_bytes + ov_bytes + 64
        } else {
            u64::MAX
        };
        if total <= usize::MAX as u64 {
            total as usize
        } else {
            usize::MAX
        }
    }
}

/// The overflow table's contribution to the memory estimate: each entry's
/// UTF-8 byte length plus 32 bytes of bookkeeping.
pub open spec fn spec_overflow_usage(ov: Seq<Seq<char>>) -> int
    decreases ov.len(),
{
    if ov.len() == 0 {
        0
    } else {
        spec_overflow_usage(ov.drop_last()) + (encode_utf8(ov.last()).len() as usize) + 32
    }
}

/// The memory estimate: sixteen bytes per cell, the overflow contribution,
/// and a 64-byte header.
pub open spec fn spec_memory_usage(b: Buffer) -> int {
    b.spec_cells().len() * 16 + spec_overflow_usage(b.spec_overflow()) + 64
}

/// Round trip: a grapheme written by `set_grapheme` reads back verbatim
/// (that is `set_grapheme`'s own postcondition), and a later
/// `set_grapheme` at a different position - one that is neither the cell
/// nor the continuation cell of the earlier write - leaves the earlier
/// grapheme readable unchanged.  Chained over any sequence of writes at
/// distinct positions, every grapheme reads back, overflow entries
/// included.
pub proof fn lemma_set_grapheme_preserves(
    pre: Buffer,
    post: Buffer,
    x1: int,
    y1: int,
    x2: int,
    y2: int,
    g: Seq<char>,
    fg: Rgb,
    bg: Rgb,
)
    requires
        pre.wf(),
        post.wf(),
        pre.spec_in_bounds(x1, y1),
        pre.spec_in_bounds(x2, y2),
        !(x1 == x2 && y1 == y2),
        !(x1 == x2 + 1 && y1 == y2),
        post.spec_width() == pre.spec_width(),
        post.spec_height() == pre.spec_height(),
        post.spec_overflow() == if encode_utf8(g).len() <= 4 {
            pre.spec_overflow()
        } else {
            pre.spec_overflow().push(g)
        },
        ({
            let i = pre.spec_index_of(x2, y2);
            let nc = spec_cell_for_grapheme(g, fg, bg, pre.spec_overflow().len() as int);
            let base = pre.spec_cells().update(i, nc);
            post.spec_cells() == if clamped_width(g) == 2 && x2 + 1 < pre.spec_width() {
                base.update(i + 1, spec_continuation_cell(bg))
            } else {
                base
            }
        }),
        // The earlier cell's overflow index, if any, resolves in the table.
        pre.spec_cell_at(x1, y1).spec_is_overflow() ==> pre.spec_cell_at(
            x1,
            y1,
        ).spec_overflow_index() < pre.spec_overflow().len(),
    ensures
        post.spec_grapheme_at(x1, y1) == pre.spec_grapheme_at(x1, y1),
{
    let w = pre.spec_width() as int;
    let i1 = pre.spec_index_of(x1, y1);
    let i2 = pre.spec_index_of(x2, y2);
    assert(0 <= i1 < pre.spec_cells().len() && 0 <= i2 < pre.spec_cells().len() && i1 != i2
        && (x2 + 1 < pre.spec_width() ==> i1 != i2 + 1) && (x2 + 1 < pre.spec_width() ==> i2 + 1
        < pre.spec_cells().len())) by (nonlinear_arith)
        requires
            0 <= x1 < pre.spec_width(),
            0 <= y1 < pre.spec_height(),
            0 <= x2 < pre.spec_width(),
            0 <= y2 < pre.spec_height(),
            !(x1 == x2 && y1 == y2),
            !(x1 == x2 + 1 && y1 == y2),
            i1 == y1 * pre.spec_width() + x1,
            i2 == y2 * pre.spec_width() + x2,
            pre.spec_cells().len() == pre.spec_width() * pre.spec_height(),
    ;
    assert(post.spec_cell_at(x1, y1) == pre.spec_cell_at(x1, y1));
    let c = pre.spec_cell_at(x1, y1);
    if !c.spec_is_wide_continuation() && c.spec_is_overflow() {
        assert(post.spec_overflow()[c.spec_overflow_index() as int] == pre.spec_overflow()[
            c.spec_overflow_index() as int
        ]);
    }
}

} // verus!
