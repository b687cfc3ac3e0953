//! Stream widget: append-oriented text display with a fast-path bypass.
//!
//! Appends that stay on the current line go through the fast path: the
//! caller may emit the returned cursor-move, color and text bytes directly,
//! bypassing the differ.  Anything with newlines, wrapping or scrolling
//! takes the slow path, which updates the scroll buffer and accumulates a
//! dirty rectangle for the next diff render.

use vstd::prelude::*;
use vstd::utf8::encode_utf8;
use crate::cell::{Cell, Rgb};
use crate::rect::Rect;
use crate::buffer::{Buffer, spec_inline_cell};
use crate::scroll::{ScrollBuffer, trim_for_push};
use crate::unicode::{
    grapheme_clusters, clamped_width, char_cell_width, spec_has_newline, split_graphemes,
    grapheme_cell_width, measure_char_cell_width, str_chars, contains_newline,
};
use crate::ansi::{csi, dec_bytes, fg_bytes, bg_bytes, push_csi, push_decimal, push_fg, push_bg};

verus! {

/// Configuration of a stream widget.
#[derive(Clone, Copy, PartialEq, Eq, Structural, Debug)]
pub struct StreamConfig {
    /// Maximum lines kept in scrollback.
    pub max_scrollback: usize,
    /// Default foreground color.
    pub default_fg: Rgb,
    /// Default background color.
    pub default_bg: Rgb,
    /// Whether to stay at the bottom when new content scrolls.
    pub auto_scroll: bool,
    /// Whether to soft-wrap at the right edge.
    pub word_wrap: bool,
}

impl Default for StreamConfig {
    /// Ten thousand lines of scrollback, light-grey on black, auto-scroll
    /// and word wrap on.
    fn default() -> (r: StreamConfig)
        ensures
            r == (StreamConfig {
                max_scrollback: 10000usize,
                default_fg: Rgb { r: 220u8, g: 220u8, b: 220u8 },
                default_bg: Rgb { r: 0u8, g: 0u8, b: 0u8 },
                auto_scroll: true,
                word_wrap: true,
            }),
    {
        StreamConfig {
            max_scrollback: 10000,
            default_fg: Rgb { r: 220, g: 220, b: 220 },
            default_bg: Rgb { r: 0, g: 0, b: 0 },
            auto_scroll: true,
            word_wrap: true,
        }
    }
}

/// The result of an append.
#[derive(Clone, Copy, PartialEq, Eq, Structural, Debug)]
pub enum AppendResult {
    /// The text fit on the current line; the caller may emit bytes
    /// directly with `write_fast_path`.
    FastPath {
        /// Number of grapheme clusters appended.
        chars: usize,
        /// Column the append started at.
        start_col: u16,
        /// Row of the append.
        row: u16,
    },
    /// The text needed newline, wrap or scroll handling; the dirty
    /// rectangle covers the touched area.
    SlowPath {
        /// The rectangle that needs re-rendering.
        dirty_rect: Rect,
    },
    /// The text was empty.
    Empty,
}

/// The slow path's working state: the scroll-buffer lines, the scroll
/// offset, the cursor, the redraw flag, and the dirty-rectangle
/// accumulators.
pub ghost struct StreamState {
    /// The scroll buffer's lines.
    pub lines: Seq<(Seq<Cell>, bool)>,
    /// The scroll offset from the bottom.
    pub offset: nat,
    /// Cursor column.
    pub col: u16,
    /// Cursor row.
    pub row: u16,
    /// Whether a full redraw is pending.
    pub needs_full: bool,
    /// Leftmost touched column.
    pub min_col: u16,
    /// Lowest touched row.
    pub max_row: u16,
}

/// A `u16` sum, saturating.
pub open spec fn sat16(a: int) -> u16 {
    if a <= 0xFFFF {
        a as u16
    } else {
        0xFFFF
    }
}

/// The cell the slow path stores for one character.
pub open spec fn spec_char_cell(ch: char, fg: Rgb, bg: Rgb) -> Cell {
    Cell { display_width: char_cell_width(ch) as u8, ..spec_inline_cell(seq![ch], fg, bg) }
}

/// A line break in the slow path: push a new line (dropping the oldest at
/// the cap), keep a detached viewer detached, move the cursor to the next
/// row's start, and on passing the bottom clamp the cursor, stick to the
/// bottom if auto-scrolling from the bottom, and require a full redraw.
pub open spec fn spec_stream_break(
    s: StreamState,
    wrapped: bool,
    max: int,
    bounds: Rect,
    auto_scroll: bool,
) -> StreamState {
    let wab = s.offset == 0;
    let lines1 = trim_for_push(s.lines, max).push((Seq::<Cell>::empty(), wrapped));
    let offset1: nat = if !wab {
        if s.offset + 1 <= lines1.len() - 1 {
            (s.offset + 1) as nat
        } else {
            (lines1.len() - 1) as nat
        }
    } else {
        s.offset
    };
    let row1 = sat16(s.row + 1);
    if row1 >= bounds.height {
        StreamState {
            lines: lines1,
            offset: if auto_scroll && wab {
                0
            } else {
                offset1
            },
            col: 0,
            row: if bounds.height > 0 {
                (bounds.height - 1) as u16
            } else {
                0
            },
            needs_full: true,
            ..s
        }
    } else {
        StreamState { lines: lines1, offset: offset1, col: 0, row: row1, ..s }
    }
}

/// Appending one character in the slow path: wrap first when it would pass
/// the right edge (drop it instead when wrapping is off), then store the
/// cell on the current line and advance the cursor by its width.
pub open spec fn spec_append_char(
    s: StreamState,
    ch: char,
    bounds: Rect,
    word_wrap: bool,
    auto_scroll: bool,
    max: int,
    fg: Rgb,
    bg: Rgb,
) -> StreamState {
    let cw = char_cell_width(ch);
    if s.col + cw > bounds.width && !word_wrap {
        s
    } else {
        let s1 = if s.col + cw > bounds.width {
            spec_stream_break(s, true, max, bounds, auto_scroll)
        } else {
            s
        };
        let last = (s1.lines.len() - 1) as int;
        let lines2 = s1.lines.update(
            last,
            (s1.lines[last].0.push(spec_char_cell(ch, fg, bg)), s1.lines[last].1),
        );
        StreamState { lines: lines2, col: sat16(s1.col + cw), ..s1 }
    }
}

/// The tab expansion: spaces to the next multiple of four columns.
pub open spec fn spec_spaces(
    s: StreamState,
    n: nat,
    bounds: Rect,
    word_wrap: bool,
    auto_scroll: bool,
    max: int,
    fg: Rgb,
    bg: Rgb,
) -> StreamState
    decreases n,
{
    if n == 0 {
        s
    } else {
        spec_spaces(
            spec_append_char(s, ' ', bounds, word_wrap, auto_scroll, max, fg, bg),
            (n - 1) as nat,
            bounds,
            word_wrap,
            auto_scroll,
            max,
            fg,
            bg,
        )
    }
}

/// One character of the slow path: a hard newline, a carriage return, a
/// tab, or a printable character; then the dirty-area accumulators.
pub open spec fn spec_char_step(
    s: StreamState,
    ch: char,
    bounds: Rect,
    word_wrap: bool,
    auto_scroll: bool,
    max: int,
    fg: Rgb,
    bg: Rgb,
    initial_col: u16,
    initial_row: u16,
) -> StreamState {
    let s1 = if ch == '\n' {
        StreamState { min_col: 0, ..spec_stream_break(s, false, max, bounds, auto_scroll) }
    } else if ch == '\r' {
        StreamState { col: 0, min_col: 0, ..s }
    } else if ch == '\t' {
        spec_spaces(s, (4 - s.col % 4) as nat, bounds, word_wrap, auto_scroll, max, fg, bg)
    } else {
        spec_append_char(s, ch, bounds, word_wrap, auto_scroll, max, fg, bg)
    };
    let s2 = StreamState {
        max_row: if s1.row > s1.max_row {
            s1.row
        } else {
            s1.max_row
        },
        ..s1
    };
    if s2.col < initial_col && s2.row > initial_row {
        StreamState { min_col: 0, ..s2 }
    } else {
        s2
    }
}

/// The whole slow path: every character of the text in order.
pub open spec fn spec_slow_path(
    s: StreamState,
    text: Seq<char>,
    i: int,
    bounds: Rect,
    word_wrap: bool,
    auto_scroll: bool,
    max: int,
    fg: Rgb,
    bg: Rgb,
    initial_col: u16,
    initial_row: u16,
) -> StreamState
    decreases text.len() - i,
{
    if i >= text.len() {
        s
    } else {
        spec_slow_path(
            spec_char_step(
                s,
                text[i],
                bounds,
                word_wrap,
                auto_scroll,
                max,
                fg,
                bg,
                initial_col,
                initial_row,
            ),
            text,
            i + 1,
            bounds,
            word_wrap,
            auto_scroll,
            max,
            fg,
            bg,
            initial_col,
            initial_row,
        )
    }
}

/// The dirty rectangle of a slow-path append: from the leftmost touched
/// column on the starting row to the widget's right edge on the lowest
/// touched row.
pub open spec fn spec_dirty_rect(
    bounds: Rect,
    min_col: u16,
    initial_row: u16,
    max_row: u16,
) -> Rect {
    Rect {
        x: sat16(bounds.x + min_col),
        y: sat16(bounds.y + initial_row),
        width: bounds.width,
        height: sat16(if max_row >= initial_row {
            max_row - initial_row + 1
        } else {
            1
        }),
    }
}

/// The sum of the clamped widths of a run of grapheme clusters.
pub open spec fn clusters_width(cs: Seq<Seq<char>>) -> nat
    decreases cs.len(),
{
    if cs.len() == 0 {
        0
    } else {
        clamped_width(cs[0]) + clusters_width(cs.drop_first())
    }
}

/// The cells a fast-path append stores: one inline cell per cluster whose
/// encoding fits a cell; longer clusters are dropped on this path.
pub open spec fn fast_cells(cs: Seq<Seq<char>>, fg: Rgb, bg: Rgb) -> Seq<Cell>
    decreases cs.len(),
{
    if cs.len() == 0 {
        seq![]
    } else {
        let rest = fast_cells(cs.drop_first(), fg, bg);
        if encode_utf8(cs[0]).len() <= 4 {
            seq![spec_inline_cell(cs[0], fg, bg)] + rest
        } else {
            rest
        }
    }
}

/// The fast-path emission for an append at `(start_col, row)` inside
/// `bounds`: a full-form 1-indexed cursor move, both color sequences, then
/// the text's UTF-8 bytes.
pub open spec fn fast_path_bytes(
    bounds: Rect,
    start_col: u16,
    row: u16,
    fg: Rgb,
    bg: Rgb,
    text: Seq<char>,
) -> Seq<u8> {
    let abs_x = sat16(bounds.x + start_col + 1);
    let abs_y = sat16(bounds.y + row + 1);
    csi() + dec_bytes(abs_y as int) + seq![0x3bu8] + dec_bytes(abs_x as int) + seq![0x48u8]
        + fg_bytes(fg) + bg_bytes(bg) + encode_utf8(text)
}

/// A streaming text widget backed by a scroll buffer, with a fast path
/// for appends that stay on the current line.
pub struct StreamWidget {
    /// Bounds within the terminal.
    bounds: Rect,
    /// Configuration.
    config: StreamConfig,
    /// The content.
    content: ScrollBuffer,
    /// Cursor column within the viewport.
    cursor_col: u16,
    /// Cursor row within the viewport.
    cursor_row: u16,
    /// Foreground for subsequent text.
    current_fg: Rgb,
    /// Background for subsequent text.
    current_bg: Rgb,
    /// Whether the next render must redraw everything.
    needs_full_redraw: bool,
    /// Dirty rectangles accumulated since the last render.
    dirty_rects: Vec<Rect>,
}

impl StreamWidget {
    /// The widget's bounds, at the specification level.
    pub closed spec fn spec_bounds(&self) -> Rect {
        self.bounds
    }

    /// The configuration.
    pub closed spec fn spec_config(&self) -> StreamConfig {
        self.config
    }

    /// The scroll buffer's lines.
    pub closed spec fn spec_lines(&self) -> Seq<(Seq<Cell>, bool)> {
        self.content.spec_lines()
    }

    /// The scroll offset.
    pub closed spec fn spec_offset(&self) -> nat {
        self.content.spec_scroll_offset() as nat
    }

    /// The cursor column.
    pub closed spec fn spec_cursor_col(&self) -> u16 {
        self.cursor_col
    }

    /// The cursor row.
    pub closed spec fn spec_cursor_row(&self) -> u16 {
        self.cursor_row
    }

    /// The current foreground.
    pub closed spec fn spec_fg(&self) -> Rgb {
        self.current_fg
    }

    /// The current background.
    pub closed spec fn spec_bg(&self) -> Rgb {
        self.current_bg
    }

    /// Whether a full redraw is pending.
    pub closed spec fn spec_needs_full(&self) -> bool {
        self.needs_full_redraw
    }

    /// The accumulated dirty rectangles.
    pub closed spec fn spec_dirty_rects(&self) -> Seq<Rect> {
        self.dirty_rects@
    }

    /// The widget's state as the slow path sees it, with the given
    /// dirty-area accumulators.
    pub open spec fn state_with(&self, min_col: u16, max_row: u16) -> StreamState {
        StreamState {
            lines: self.spec_lines(),
            offset: self.spec_offset(),
            col: self.spec_cursor_col(),
            row: self.spec_cursor_row(),
            needs_full: self.spec_needs_full(),
            min_col,
            max_row,
        }
    }

    /// Well-formedness: the scroll buffer's own invariant, with its cap
    /// equal to the configured scrollback.
    pub closed spec fn wf(&self) -> bool {
        &&& self.content.wf()
        &&& self.content.spec_max_lines() == self.spec_config().max_scrollback
    }

    /// Create a stream widget with the default configuration.
    pub fn new(bounds: Rect) -> (r: StreamWidget)
        ensures
            r.wf(),
            r.spec_bounds() == bounds,
            r.spec_config() == (StreamConfig {
                max_scrollback: 10000usize,
                default_fg: Rgb { r: 220u8, g: 220u8, b: 220u8 },
                default_bg: Rgb { r: 0u8, g: 0u8, b: 0u8 },
                auto_scroll: true,
                word_wrap: true,
            }),
            r.spec_lines() == seq![(Seq::<Cell>::empty(), false)],
            r.spec_offset() == 0,
            r.spec_cursor_col() == 0,
            r.spec_cursor_row() == 0,
            r.spec_fg() == (Rgb { r: 220u8, g: 220u8, b: 220u8 }),
            r.spec_bg() == (Rgb { r: 0u8, g: 0u8, b: 0u8 }),
            r.spec_needs_full(),
            r.spec_dirty_rects() == Seq::<Rect>::empty(),
    {
        StreamWidget::with_config(bounds, StreamConfig::default())
    }

    /// Create a stream widget with the given configuration.  A zero
    /// scrollback cap is raised to one line.
    pub fn with_config(bounds: Rect, config: StreamConfig) -> (r: StreamWidget)
        ensures
            r.wf(),
            r.spec_bounds() == bounds,
            r.spec_config() == (StreamConfig {
                max_scrollback: if config.max_scrollback >= 1 {
                    config.max_scrollback
                } else {
                    1
                },
                ..config
            }),
            r.spec_lines() == seq![(Seq::<Cell>::empty(), false)],
            r.spec_offset() == 0,
            r.spec_cursor_col() == 0,
            r.spec_cursor_row() == 0,
            r.spec_fg() == config.default_fg,
            r.spec_bg() == config.default_bg,
            r.spec_needs_full(),
            r.spec_dirty_rects() == Seq::<Rect>::empty(),
    {
        let cap: usize = if config.max_scrollback >= 1 {
            config.max_scrollback
        } else {
            1
        };
        let cfg = StreamConfig { max_scrollback: cap, ..config };
        StreamWidget {
            bounds,
            current_fg: cfg.default_fg,
            current_bg: cfg.default_bg,
            content: ScrollBuffer::new(cap),
            config: cfg,
            cursor_col: 0,
            cursor_row: 0,
            needs_full_redraw: true,
            dirty_rects: Vec::new(),
        }
    }

    /// The widget's bounds.
    pub fn bounds(&self) -> (r: Rect)
        ensures
            r == self.spec_bounds(),
    {
        self.bounds
    }

    /// Move or resize the widget; a change forces a full redraw.
    pub fn set_bounds(&mut self, bounds: Rect)
        ensures
            final(self).spec_bounds() == bounds,
            final(self).spec_needs_full() == (old(self).spec_needs_full() || bounds != old(
                self,
            ).spec_bounds()),
            final(self).spec_lines() == old(self).spec_lines(),
            final(self).spec_offset() == old(self).spec_offset(),
            final(self).spec_cursor_col() == old(self).spec_cursor_col(),
            final(self).spec_cursor_row() == old(self).spec_cursor_row(),
            final(self).spec_config() == old(self).spec_config(),
            final(self).wf() == old(self).wf(),
    {
        if !(bounds == self.bounds) {
            self.bounds = bounds;
            self.needs_full_redraw = true;
        }
    }

    /// Set the foreground for subsequent text.
    pub fn set_fg(&mut self, fg: Rgb)
        ensures
            final(self).spec_fg() == fg,
            final(self).spec_bg() == old(self).spec_bg(),
            final(self).spec_lines() == old(self).spec_lines(),
            final(self).wf() == old(self).wf(),
    {
        self.current_fg = fg;
    }

    /// Set the background for subsequent text.
    pub fn set_bg(&mut self, bg: Rgb)
        ensures
            final(self).spec_bg() == bg,
            final(self).spec_fg() == old(self).spec_fg(),
            final(self).spec_lines() == old(self).spec_lines(),
            final(self).wf() == old(self).wf(),
    {
        self.current_bg = bg;
    }

    /// Reset both colors to the configured defaults.
    pub fn reset_colors(&mut self)
        ensures
            final(self).spec_fg() == old(self).spec_config().default_fg,
            final(self).spec_bg() == old(self).spec_config().default_bg,
            final(self).spec_lines() == old(self).spec_lines(),
            final(self).wf() == old(self).wf(),
    {
        self.current_fg = self.config.default_fg;
        self.current_bg = self.config.default_bg;
    }

    /// The cursor position within the widget.
    pub fn cursor_position(&self) -> (r: (u16, u16))
        ensures
            r == (self.spec_cursor_col(), self.spec_cursor_row()),
    {
        (self.cursor_col, self.cursor_row)
    }

    /// The number of lines in the scroll buffer.
    pub fn line_count(&self) -> (n: usize)
        ensures
            n == self.spec_lines().len(),
    {
        self.content.len()
    }

    /// Whether the next render must redraw or diff something.
    pub fn needs_redraw(&self) -> (r: bool)
        ensures
            r == (self.spec_needs_full() || self.spec_dirty_rects().len() > 0),
    {
        self.needs_full_redraw || self.dirty_rects.len() > 0
    }

    /// The accumulated dirty rectangles.
    pub fn dirty_rects(&self) -> (r: &Vec<Rect>)
        ensures
            r@ == self.spec_dirty_rects(),
    {
        &self.dirty_rects
    }

    /// Force a full redraw on the next render.
    pub fn invalidate(&mut self)
        ensures
            final(self).spec_needs_full(),
            final(self).spec_lines() == old(self).spec_lines(),
            final(self).wf() == old(self).wf(),
    {
        self.needs_full_redraw = true;
    }

    /// Discard all content and home the cursor.
    pub fn clear(&mut self)
        requires
            old(self).wf(),
        ensures
            final(self).wf(),
            final(self).spec_lines() == seq![(Seq::<Cell>::empty(), false)],
            final(self).spec_offset() == 0,
            final(self).spec_cursor_col() == 0,
            final(self).spec_cursor_row() == 0,
            final(self).spec_needs_full(),
    {
        self.content.clear();
        self.cursor_col = 0;
        self.cursor_row = 0;
        self.needs_full_redraw = true;
    }

    /// Scroll up, away from the newest content.
    pub fn scroll_up(&mut self, lines: usize)
        requires
            old(self).wf(),
        ensures
            final(self).wf(),
            final(self).spec_lines() == old(self).spec_lines(),
            final(self).spec_needs_full(),
            final(self).spec_offset() == if old(self).spec_offset() + lines <= old(
                self,
            ).spec_lines().len() - 1 {
                old(self).spec_offset() + lines
            } else {
                old(self).spec_lines().len() - 1
            },
    {
        self.content.scroll_up(lines);
        self.needs_full_redraw = true;
    }

    /// Scroll down, toward the newest content.
    pub fn scroll_down(&mut self, lines: usize)
        requires
            old(self).wf(),
        ensures
            final(self).wf(),
            final(self).spec_lines() == old(self).spec_lines(),
            final(self).spec_needs_full(),
            final(self).spec_offset() == if lines <= old(self).spec_offset() {
                old(self).spec_offset() - lines
            } else {
                0
            },
    {
        self.content.scroll_down(lines);
        self.needs_full_redraw = true;
    }

    /// The slow-path line break, shared by hard newlines and soft wraps.
    fn do_break(&mut self, wrapped: bool)
        requires
            old(self).wf(),
        ensures
            final(self).wf(),
            final(self).spec_bounds() == old(self).spec_bounds(),
            final(self).spec_config() == old(self).spec_config(),
            final(self).spec_fg() == old(self).spec_fg(),
            final(self).spec_bg() == old(self).spec_bg(),
            final(self).spec_dirty_rects() == old(self).spec_dirty_rects(),
            forall|m: u16, mr: u16|
                #![trigger final(self).state_with(m, mr)]
                final(self).state_with(m, mr) == spec_stream_break(
                    old(self).state_with(m, mr),
                    wrapped,
                    old(self).spec_config().max_scrollback as int,
                    old(self).spec_bounds(),
                    old(self).spec_config().auto_scroll,
                ),
    {
        let was_at_bottom = self.content.at_bottom();
        self.content.newline(wrapped);
        if !was_at_bottom {
            self.content.scroll_up(1);
        }
        self.cursor_col = 0;
        self.cursor_row = if self.cursor_row < 0xFFFF {
            self.cursor_row + 1
        } else {
            0xFFFF
        };
        if self.cursor_row >= self.bounds.height {
            self.cursor_row = if self.bounds.height > 0 {
                self.bounds.height - 1
            } else {
                0
            };
            if self.config.auto_scroll && was_at_bottom {
                self.content.scroll_to_bottom();
            }
            self.needs_full_redraw = true;
        }
    }

    /// The slow-path character append, with wrap handling.
    fn do_append_char(&mut self, ch: char)
        requires
            old(self).wf(),
        ensures
            final(self).wf(),
            final(self).spec_bounds() == old(self).spec_bounds(),
            final(self).spec_config() == old(self).spec_config(),
            final(self).spec_fg() == old(self).spec_fg(),
            final(self).spec_bg() == old(self).spec_bg(),
            final(self).spec_dirty_rects() == old(self).spec_dirty_rects(),
            forall|m: u16, mr: u16|
                #![trigger final(self).state_with(m, mr)]
                final(self).state_with(m, mr) == spec_append_char(
                    old(self).state_with(m, mr),
                    ch,
                    old(self).spec_bounds(),
                    old(self).spec_config().word_wrap,
                    old(self).spec_config().auto_scroll,
                    old(self).spec_config().max_scrollback as int,
                    old(self).spec_fg(),
                    old(self).spec_bg(),
                ),
    {
        let cw: u16 = measure_char_cell_width(ch) as u16;
        let ghost wrap_needed = old(self).spec_cursor_col() + char_cell_width(ch) > old(
            self,
        ).spec_bounds().width;
        if (self.cursor_col as u32) + (cw as u32) > self.bounds.width as u32 {
            if !self.config.word_wrap {
                return ;
            }
            self.do_break(true);
        }
        let ghost mid = *self;
        proof {
            assert forall|m: u16, mr: u16| #![trigger mid.state_with(m, mr)] mid.state_with(m, mr)
                == (if wrap_needed {
                spec_stream_break(
                    old(self).state_with(m, mr),
                    true,
                    old(self).spec_config().max_scrollback as int,
                    old(self).spec_bounds(),
                    old(self).spec_config().auto_scroll,
                )
            } else {
                old(self).state_with(m, mr)
            }) by {}
        }
        let mut cell = Cell::from_char(ch);
        cell.set_fg(self.current_fg);
        cell.set_bg(self.current_bg);
        proof {
            assert(cell == spec_char_cell(ch, self.current_fg, self.current_bg));
        }
        let mut one: Vec<Cell> = Vec::new();
        one.push(cell);
        let ghost pre = self.content.spec_lines();
        self.content.append(&one);
        proof {
            assert(pre.last().0 + one@ =~= pre.last().0.push(cell));
            assert(self.content.spec_lines() == pre.update(
                pre.len() - 1,
                (pre.last().0.push(cell), pre.last().1),
            ));
        }
        self.cursor_col = if (self.cursor_col as u32) + (cw as u32) <= 0xFFFF {
            self.cursor_col + cw
        } else {
            0xFFFF
        };
        proof {
            assert forall|m: u16, mr: u16| #![trigger self.state_with(m, mr)] self.state_with(
                m,
                mr,
            ) == spec_append_char(
                old(self).state_with(m, mr),
                ch,
                old(self).spec_bounds(),
                old(self).spec_config().word_wrap,
                old(self).spec_config().auto_scroll,
                old(self).spec_config().max_scrollback as int,
                old(self).spec_fg(),
                old(self).spec_bg(),
            ) by {
                assert(mid.state_with(m, mr) == (if wrap_needed {
                    spec_stream_break(
                        old(self).state_with(m, mr),
                        true,
                        old(self).spec_config().max_scrollback as int,
                        old(self).spec_bounds(),
                        old(self).spec_config().auto_scroll,
                    )
                } else {
                    old(self).state_with(m, mr)
                }));
            }
        }
    }

    /// One slow-path character, with the dirty accumulators threaded as
    /// ghost state.
    fn do_char_step(&mut self, ch: char, min_col: &mut u16, max_row: &mut u16, initial_col: u16,
        initial_row: u16)
        requires
            old(self).wf(),
        ensures
            final(self).wf(),
            final(self).spec_bounds() == old(self).spec_bounds(),
            final(self).spec_config() == old(self).spec_config(),
            final(self).spec_fg() == old(self).spec_fg(),
            final(self).spec_bg() == old(self).spec_bg(),
            final(self).spec_dirty_rects() == old(self).spec_dirty_rects(),
            ({
                let post = spec_char_step(
                    old(self).state_with(*old(min_col), *old(max_row)),
                    ch,
                    old(self).spec_bounds(),
                    old(self).spec_config().word_wrap,
                    old(self).spec_config().auto_scroll,
                    old(self).spec_config().max_scrollback as int,
                    old(self).spec_fg(),
                    old(self).spec_bg(),
                    initial_col,
                    initial_row,
                );
                final(self).state_with(*final(min_col), *final(max_row)) == post
            }),
    {
        if ch == '\n' {
            self.do_break(false);
            *min_col = 0;
        } else if ch == '\r' {
            self.cursor_col = 0;
            *min_col = 0;
        } else if ch == '\t' {
            let spaces: u16 = 4 - self.cursor_col % 4;
            let mut k: u16 = 0;
            while k < spaces
                invariant
                    k <= spaces,
                    self.wf(),
                    self.spec_bounds() == old(self).spec_bounds(),
                    self.spec_config() == old(self).spec_config(),
                    self.spec_fg() == old(self).spec_fg(),
                    self.spec_bg() == old(self).spec_bg(),
                    self.spec_dirty_rects() == old(self).spec_dirty_rects(),
                    forall|m: u16, mr: u16|
                        #![trigger self.state_with(m, mr)]
                        self.state_with(m, mr) == spec_spaces(
                            old(self).state_with(m, mr),
                            k as nat,
                            old(self).spec_bounds(),
                            old(self).spec_config().word_wrap,
                            old(self).spec_config().auto_scroll,
                            old(self).spec_config().max_scrollback as int,
                            old(self).spec_fg(),
                            old(self).spec_bg(),
                        ),
                decreases spaces - k,
            {
                let ghost mid = *self;
                self.do_append_char(' ');
                proof {
                    assert forall|m: u16, mr: u16|
                        #![trigger self.state_with(m, mr)]
                        self.state_with(m, mr) == spec_spaces(
                            old(self).state_with(m, mr),
                            k as nat + 1,
                            old(self).spec_bounds(),
                            old(self).spec_config().word_wrap,
                            old(self).spec_config().auto_scroll,
                            old(self).spec_config().max_scrollback as int,
                            old(self).spec_fg(),
                            old(self).spec_bg(),
                        ) by {
                        lemma_spaces_snoc(
                            old(self).state_with(m, mr),
                            k as nat,
                            old(self).spec_bounds(),
                            old(self).spec_config().word_wrap,
                            old(self).spec_config().auto_scroll,
                            old(self).spec_config().max_scrollback as int,
                            old(self).spec_fg(),
                            old(self).spec_bg(),
                        );
                    }
                }
                k = k + 1;
            }
        } else {
            self.do_append_char(ch);
        }
        let ghost mid = *self;
        if self.cursor_row > *max_row {
            *max_row = self.cursor_row;
        }
        if self.cursor_col < initial_col && self.cursor_row > initial_row {
            *min_col = 0;
        }
        proof {
            let s = old(self).state_with(*old(min_col), *old(max_row));
            let cb = old(self).spec_bounds();
            let cww = old(self).spec_config().word_wrap;
            let cas = old(self).spec_config().auto_scroll;
            let cmax = old(self).spec_config().max_scrollback as int;
            let cfg2 = old(self).spec_fg();
            let cbg = old(self).spec_bg();
            if ch == '\n' {
                assert(mid.state_with(*old(min_col), *old(max_row)) == spec_stream_break(
                    s,
                    false,
                    cmax,
                    cb,
                    cas,
                ));
            } else if ch == '\r' {
            } else if ch == '\t' {
                assert(mid.state_with(*old(min_col), *old(max_row)) == spec_spaces(
                    s,
                    (4 - s.col % 4) as nat,
                    cb,
                    cww,
                    cas,
                    cmax,
                    cfg2,
                    cbg,
                ));
            } else {
                assert(mid.state_with(*old(min_col), *old(max_row)) == spec_append_char(
                    s,
                    ch,
                    cb,
                    cww,
                    cas,
                    cmax,
                    cfg2,
                    cbg,
                ));
            }
        }
    }

    /// Append text: the fast path when the text has no newline, the
    /// viewer is at the bottom and the text fits on the current line;
    /// otherwise the slow path.  Empty text does nothing.
    pub fn append(&mut self, text: &str) -> (r: AppendResult)
        requires
            old(self).wf(),
        ensures
            final(self).wf(),
            final(self).spec_bounds() == old(self).spec_bounds(),
            final(self).spec_config() == old(self).spec_config(),
            final(self).spec_fg() == old(self).spec_fg(),
            final(self).spec_bg() == old(self).spec_bg(),
            text@.len() == 0 ==> r == AppendResult::Empty && *final(self) == *old(self),
            ({
                let fast = text@.len() > 0 && old(self).spec_offset() == 0 && !spec_has_newline(
                    text@,
                ) && old(self).spec_cursor_col() + clusters_width(grapheme_clusters(text@)) <= old(
                    self,
                ).spec_bounds().width;
                &&& (text@.len() > 0 && fast ==> {
                    let cs = grapheme_clusters(text@);
                    &&& r == AppendResult::FastPath {
                        chars: cs.len() as usize,
                        start_col: old(self).spec_cursor_col(),
                        row: old(self).spec_cursor_row(),
                    }
                    &&& final(self).spec_lines() == old(self).spec_lines().update(
                        old(self).spec_lines().len() - 1,
                        (
                            old(self).spec_lines().last().0 + fast_cells(
                                cs,
                                old(self).spec_fg(),
                                old(self).spec_bg(),
                            ),
                            old(self).spec_lines().last().1,
                        ),
                    )
                    &&& final(self).spec_cursor_col() == old(self).spec_cursor_col()
                        + clusters_width(cs)
                    &&& final(self).spec_cursor_row() == old(self).spec_cursor_row()
                    &&& final(self).spec_offset() == 0
                    &&& final(self).spec_needs_full() == old(self).spec_needs_full()
                    &&& final(self).spec_dirty_rects() == old(self).spec_dirty_rects()
                })
                &&& (text@.len() > 0 && !fast ==> {
                    let s0 = old(self).state_with(
                        old(self).spec_cursor_col(),
                        old(self).spec_cursor_row(),
                    );
                    let sf = spec_slow_path(
                        s0,
                        text@,
                        0,
                        old(self).spec_bounds(),
                        old(self).spec_config().word_wrap,
                        old(self).spec_config().auto_scroll,
                        old(self).spec_config().max_scrollback as int,
                        old(self).spec_fg(),
                        old(self).spec_bg(),
                        old(self).spec_cursor_col(),
                        old(self).spec_cursor_row(),
                    );
                    let rect = spec_dirty_rect(
                        old(self).spec_bounds(),
                        sf.min_col,
                        old(self).spec_cursor_row(),
                        sf.max_row,
                    );
                    &&& r == AppendResult::SlowPath { dirty_rect: rect }
                    &&& final(self).spec_lines() == sf.lines
                    &&& final(self).spec_offset() == sf.offset
                    &&& final(self).spec_cursor_col() == sf.col
                    &&& final(self).spec_cursor_row() == sf.row
                    &&& final(self).spec_needs_full() == sf.needs_full
                    &&& final(self).spec_dirty_rects() == if sf.needs_full {
                        old(self).spec_dirty_rects()
                    } else {
                        old(self).spec_dirty_rects().push(rect)
                    }
                })
            }),
    {
        if text.unicode_len() == 0 {
            return AppendResult::Empty;
        }
        let chars = str_chars(text);
        let clusters = split_graphemes(text);
        let has_nl = contains_newline(&chars);
        let n_clusters = clusters.len();
        let limit = self.bounds.width as usize;
        let mut width_total: usize = 0;
        let mut ok = true;
        let mut ci: usize = 0;
        while ci < n_clusters && ok
            invariant
                ci <= n_clusters,
                n_clusters == grapheme_clusters(text@).len(),
                clusters@.map_values(|t: String| t@) == grapheme_clusters(text@),
                limit == self.spec_bounds().width,
                ok ==> width_total == clusters_width(grapheme_clusters(text@).take(ci as int))
                    && width_total <= limit,
                !ok ==> clusters_width(grapheme_clusters(text@)) > limit,
            decreases n_clusters - ci,
        {
            let w = grapheme_cell_width(clusters[ci].as_str());
            proof {
                lemma_clusters_width_take(grapheme_clusters(text@), ci as int);
            }
            if width_total + (w as usize) <= limit {
                width_total = width_total + w as usize;
            } else {
                ok = false;
                proof {
                    lemma_clusters_width_mono(grapheme_clusters(text@), ci as int + 1);
                }
            }
            ci = ci + 1;
        }
        proof {
            if ok {
                assert(grapheme_clusters(text@).take(n_clusters as int) =~= grapheme_clusters(
                    text@,
                ));
            }
        }
        let at_bottom = self.content.at_bottom();
        let fits = ok && (self.cursor_col as usize) <= limit - width_total;
        if at_bottom && !has_nl && fits {
            // Fast path: append the cells and advance the cursor in place.
            let start_col = self.cursor_col;
            let row = self.cursor_row;
            let mut cells: Vec<Cell> = Vec::new();
            let mut i: usize = 0;
            while i < n_clusters
                invariant
                    i <= n_clusters,
                    n_clusters == grapheme_clusters(text@).len(),
                    clusters@.map_values(|t: String| t@) == grapheme_clusters(text@),
                    cells@ == fast_cells(
                        grapheme_clusters(text@).take(i as int),
                        self.current_fg,
                        self.current_bg,
                    ),
                    *self == *old(self),
                decreases n_clusters - i,
            {
                proof {
                    lemma_fast_cells_take(
                        grapheme_clusters(text@),
                        i as int,
                        self.current_fg,
                        self.current_bg,
                    );
                }
                match Cell::from_grapheme(clusters[i].as_str()) {
                    Some(mut c) => {
                        c.set_fg(self.current_fg);
                        c.set_bg(self.current_bg);
                        proof {
                            assert(c == spec_inline_cell(
                                grapheme_clusters(text@)[i as int],
                                self.current_fg,
                                self.current_bg,
                            ));
                        }
                        cells.push(c);
                        proof {
                            assert(cells@ =~= fast_cells(
                                grapheme_clusters(text@).take(i as int + 1),
                                self.current_fg,
                                self.current_bg,
                            ));
                        }
                    },
                    None => {
                        proof {
                            assert(cells@ =~= fast_cells(
                                grapheme_clusters(text@).take(i as int + 1),
                                self.current_fg,
                                self.current_bg,
                            ));
                        }
                    },
                }
                i = i + 1;
            }
            proof {
                assert(grapheme_clusters(text@).take(n_clusters as int) =~= grapheme_clusters(
                    text@,
                ));
            }
            let ghost pre = self.content.spec_lines();
            self.content.append(&cells);
            self.cursor_col = self.cursor_col + (width_total as u16);
            return AppendResult::FastPath { chars: n_clusters, start_col, row };
        }
        // Slow path: process character by character.
        let initial_col = self.cursor_col;
        let initial_row = self.cursor_row;
        let mut min_col: u16 = self.cursor_col;
        let mut max_row: u16 = self.cursor_row;
        let n = chars.len();
        let mut i: usize = 0;
        while i < n
            invariant
                i <= n,
                n == text@.len(),
                chars@ == text@,
                self.wf(),
                self.spec_bounds() == old(self).spec_bounds(),
                self.spec_config() == old(self).spec_config(),
                self.spec_fg() == old(self).spec_fg(),
                self.spec_bg() == old(self).spec_bg(),
                self.spec_dirty_rects() == old(self).spec_dirty_rects(),
                self.state_with(min_col, max_row) == spec_slow_path_prefix(
                    old(self).state_with(initial_col, initial_row),
                    text@,
                    i as int,
                    old(self).spec_bounds(),
                    old(self).spec_config().word_wrap,
                    old(self).spec_config().auto_scroll,
                    old(self).spec_config().max_scrollback as int,
                    old(self).spec_fg(),
                    old(self).spec_bg(),
                    initial_col,
                    initial_row,
                ),
            decreases n - i,
        {
            let ch = chars[i];
            self.do_char_step(ch, &mut min_col, &mut max_row, initial_col, initial_row);
            i = i + 1;
        }
        proof {
            lemma_slow_path_prefix_full(
                old(self).state_with(initial_col, initial_row),
                text@,
                old(self).spec_bounds(),
                old(self).spec_config().word_wrap,
                old(self).spec_config().auto_scroll,
                old(self).spec_config().max_scrollback as int,
                old(self).spec_fg(),
                old(self).spec_bg(),
                initial_col,
                initial_row,
            );
        }
        let height: u16 = if max_row >= initial_row {
            let d: u16 = max_row - initial_row;
            if d < 0xFFFF {
                d + 1
            } else {
                0xFFFF
            }
        } else {
            1
        };
        let rect = Rect {
            x: if (self.bounds.x as u32) + (min_col as u32) <= 0xFFFF {
                self.bounds.x + min_col
            } else {
                0xFFFF
            },
            y: if (self.bounds.y as u32) + (initial_row as u32) <= 0xFFFF {
                self.bounds.y + initial_row
            } else {
                0xFFFF
            },
            width: self.bounds.width,
            height,
        };
        if !self.needs_full_redraw {
            self.dirty_rects.push(rect);
        }
        AppendResult::SlowPath { dirty_rect: rect }
    }
}

/// The first `i` characters of the slow path, front first: the loop's view
/// of `spec_slow_path`.
pub open spec fn spec_slow_path_prefix(
    s: StreamState,
    text: Seq<char>,
    i: int,
    bounds: Rect,
    word_wrap: bool,
    auto_scroll: bool,
    max: int,
    fg: Rgb,
    bg: Rgb,
    initial_col: u16,
    initial_row: u16,
) -> StreamState
    decreases i,
{
    if i <= 0 {
        s
    } else {
        spec_char_step(
            spec_slow_path_prefix(
                s,
                text,
                i - 1,
                bounds,
                word_wrap,
                auto_scroll,
                max,
                fg,
                bg,
                initial_col,
                initial_row,
            ),
            text[i - 1],
            bounds,
            word_wrap,
            auto_scroll,
            max,
            fg,
            bg,
            initial_col,
            initial_row,
        )
    }
}

/// At the end of the text, the loop's prefix fold equals the whole slow
/// path.
proof fn lemma_slow_path_prefix_full(
    s: StreamState,
    text: Seq<char>,
    bounds: Rect,
    word_wrap: bool,
    auto_scroll: bool,
    max: int,
    fg: Rgb,
    bg: Rgb,
    initial_col: u16,
    initial_row: u16,
)
    ensures
        spec_slow_path_prefix(
            s,
            text,
            text.len() as int,
            bounds,
            word_wrap,
            auto_scroll,
            max,
            fg,
            bg,
            initial_col,
            initial_row,
        ) == spec_slow_path(
            s,
            text,
            0,
            bounds,
            word_wrap,
            auto_scroll,
            max,
            fg,
            bg,
            initial_col,
            initial_row,
        ),
{
    lemma_slow_path_prefix_full_rec(
        s,
        text,
        0,
        bounds,
        word_wrap,
        auto_scroll,
        max,
        fg,
        bg,
        initial_col,
        initial_row,
    );
}

proof fn lemma_slow_path_prefix_full_rec(
    s: StreamState,
    text: Seq<char>,
    i: int,
    bounds: Rect,
    word_wrap: bool,
    auto_scroll: bool,
    max: int,
    fg: Rgb,
    bg: Rgb,
    initial_col: u16,
    initial_row: u16,
)
    requires
        0 <= i <= text.len(),
    ensures
        spec_slow_path_prefix(
            s,
            text,
            text.len() as int,
            bounds,
            word_wrap,
            auto_scroll,
            max,
            fg,
            bg,
            initial_col,
            initial_row,
        ) == spec_slow_path(
            spec_slow_path_prefix(
                s,
                text,
                i,
                bounds,
                word_wrap,
                auto_scroll,
                max,
                fg,
                bg,
                initial_col,
                initial_row,
            ),
            text,
            i,
            bounds,
            word_wrap,
            auto_scroll,
            max,
            fg,
            bg,
            initial_col,
            initial_row,
        ),
    decreases text.len() - i,
{
    if i < text.len() {
        lemma_slow_path_prefix_full_rec(
            s,
            text,
            i + 1,
            bounds,
            word_wrap,
            auto_scroll,
            max,
            fg,
            bg,
            initial_col,
            initial_row,
        );
        assert(spec_slow_path_prefix(
            s,
            text,
            i + 1,
            bounds,
            word_wrap,
            auto_scroll,
            max,
            fg,
            bg,
            initial_col,
            initial_row,
        ) == spec_char_step(
            spec_slow_path_prefix(
                s,
                text,
                i,
                bounds,
                word_wrap,
                auto_scroll,
                max,
                fg,
                bg,
                initial_col,
                initial_row,
            ),
            text[i],
            bounds,
            word_wrap,
            auto_scroll,
            max,
            fg,
            bg,
            initial_col,
            initial_row,
        ));
    }
}

/// Appending one more space at the end of the expansion.
proof fn lemma_spaces_snoc(
    s: StreamState,
    n: nat,
    bounds: Rect,
    word_wrap: bool,
    auto_scroll: bool,
    max: int,
    fg: Rgb,
    bg: Rgb,
)
    ensures
        spec_spaces(s, n + 1, bounds, word_wrap, auto_scroll, max, fg, bg) == spec_append_char(
            spec_spaces(s, n, bounds, word_wrap, auto_scroll, max, fg, bg),
            ' ',
            bounds,
            word_wrap,
            auto_scroll,
            max,
            fg,
            bg,
        ),
    decreases n,
{
    let s1 = spec_append_char(s, ' ', bounds, word_wrap, auto_scroll, max, fg, bg);
    assert(spec_spaces(s, n + 1, bounds, word_wrap, auto_scroll, max, fg, bg) == spec_spaces(
        s1,
        n,
        bounds,
        word_wrap,
        auto_scroll,
        max,
        fg,
        bg,
    ));
    if n > 0 {
        lemma_spaces_snoc(s1, (n - 1) as nat, bounds, word_wrap, auto_scroll, max, fg, bg);
        assert(spec_spaces(s, n, bounds, word_wrap, auto_scroll, max, fg, bg) == spec_spaces(
            s1,
            (n - 1) as nat,
            bounds,
            word_wrap,
            auto_scroll,
            max,
            fg,
            bg,
        ));
    }
}

/// A prefix of a cluster run is never wider than the whole run.
proof fn lemma_clusters_width_mono(cs: Seq<Seq<char>>, i: int)
    requires
        0 <= i <= cs.len(),
    ensures
        clusters_width(cs.take(i)) <= clusters_width(cs),
    decreases cs.len() - i,
{
    if i < cs.len() {
        lemma_clusters_width_take(cs, i);
        lemma_clusters_width_mono(cs, i + 1);
    } else {
        assert(cs.take(i) =~= cs);
    }
}

/// The width of a cluster prefix grows by the next cluster's width.
proof fn lemma_clusters_width_take(cs: Seq<Seq<char>>, i: int)
    requires
        0 <= i < cs.len(),
    ensures
        clusters_width(cs.take(i + 1)) == clusters_width(cs.take(i)) + clamped_width(cs[i]),
        clusters_width(cs.take(i + 1)) <= 2 * (i + 1),
    decreases i,
{
    lemma_clusters_width_append_one(cs.take(i + 1));
    assert(cs.take(i + 1).drop_last() =~= cs.take(i));
    assert(cs.take(i + 1).last() == cs[i]);
    if i > 0 {
        lemma_clusters_width_take(cs, i - 1);
        assert(cs.take(i) =~= cs.take(i - 1 + 1));
    } else {
        assert(cs.take(0) =~= Seq::<Seq<char>>::empty());
    }
}

/// The width of a nonempty cluster run splits off its last cluster.
proof fn lemma_clusters_width_append_one(cs: Seq<Seq<char>>)
    requires
        cs.len() >= 1,
    ensures
        clusters_width(cs) == clusters_width(cs.drop_last()) + clamped_width(cs.last()),
    decreases cs.len(),
{
    if cs.len() == 1 {
        assert(cs.drop_last() =~= Seq::<Seq<char>>::empty());
        assert(cs.drop_first() =~= Seq::<Seq<char>>::empty());
    } else {
        lemma_clusters_width_append_one(cs.drop_first());
        assert(cs.drop_first().drop_last() =~= cs.drop_last().drop_first());
        assert(cs.drop_first().last() == cs.last());
        assert(cs.drop_last()[0] == cs[0]);
    }
}

/// The fast-path cells of a cluster prefix grow by the next cluster's
/// cell, when it fits inline.
proof fn lemma_fast_cells_take(cs: Seq<Seq<char>>, i: int, fg: Rgb, bg: Rgb)
    requires
        0 <= i < cs.len(),
    ensures
        fast_cells(cs.take(i + 1), fg, bg) == fast_cells(cs.take(i), fg, bg) + (if encode_utf8(
            cs[i],
        ).len() <= 4 {
            seq![spec_inline_cell(cs[i], fg, bg)]
        } else {
            seq![]
        }),
    decreases i,
{
    lemma_fast_cells_append_one(cs.take(i + 1), fg, bg);
    assert(cs.take(i + 1).drop_last() =~= cs.take(i));
    assert(cs.take(i + 1).last() == cs[i]);
}

/// The fast-path cells of a nonempty run split off the last cluster.
proof fn lemma_fast_cells_append_one(cs: Seq<Seq<char>>, fg: Rgb, bg: Rgb)
    requires
        cs.len() >= 1,
    ensures
        fast_cells(cs, fg, bg) == fast_cells(cs.drop_last(), fg, bg) + (if encode_utf8(
            cs.last(),
        ).len() <= 4 {
            seq![spec_inline_cell(cs.last(), fg, bg)]
        } else {
            seq![]
        }),
    decreases cs.len(),
{
    if cs.len() == 1 {
        assert(cs.drop_last() =~= Seq::<Seq<char>>::empty());
        assert(cs.drop_first() =~= Seq::<Seq<char>>::empty());
        if encode_utf8(cs[0]).len() <= 4 {
            assert(fast_cells(cs, fg, bg) =~= seq![spec_inline_cell(cs[0], fg, bg)]);
            assert(fast_cells(cs.drop_last(), fg, bg) + seq![spec_inline_cell(cs.last(), fg, bg)]
                =~= seq![spec_inline_cell(cs[0], fg, bg)]);
        } else {
            assert(fast_cells(cs.drop_last(), fg, bg) + Seq::<Cell>::empty() =~= Seq::<
                Cell,
            >::empty());
        }
    } else {
        lemma_fast_cells_append_one(cs.drop_first(), fg, bg);
        assert(cs.drop_first().drop_last() =~= cs.drop_last().drop_first());
        assert(cs.drop_first().last() == cs.last());
        assert(cs.drop_last()[0] == cs[0]);
        if encode_utf8(cs[0]).len() <= 4 {
            assert(fast_cells(cs, fg, bg) =~= seq![spec_inline_cell(cs[0], fg, bg)] + (fast_cells(
                cs.drop_last().drop_first(),
                fg,
                bg,
            ) + (if encode_utf8(cs.last()).len() <= 4 {
                seq![spec_inline_cell(cs.last(), fg, bg)]
            } else {
                seq![]
            })));
            assert(fast_cells(cs.drop_last(), fg, bg) == seq![spec_inline_cell(cs[0], fg, bg)]
                + fast_cells(cs.drop_last().drop_first(), fg, bg));
            assert(fast_cells(cs, fg, bg) =~= fast_cells(cs.drop_last(), fg, bg) + (if encode_utf8(
                cs.last(),
            ).len() <= 4 {
                seq![spec_inline_cell(cs.last(), fg, bg)]
            } else {
                seq![]
            }));
        } else {
            assert(fast_cells(cs, fg, bg) =~= fast_cells(cs.drop_last(), fg, bg) + (if encode_utf8(
                cs.last(),
            ).len() <= 4 {
                seq![spec_inline_cell(cs.last(), fg, bg)]
            } else {
                seq![]
            }));
        }
    }
}

/// The space cell used for padding, in the current colors.
pub open spec fn spec_space_cell(fg: Rgb, bg: Rgb) -> Cell {
    Cell {
        g0: 0x20,
        g1: 0,
        g2: 0,
        g3: 0,
        grapheme_len: 1,
        display_width: 1,
        fg,
        bg,
        modifiers: crate::cell::Modifiers { bits: 0 },
        flags: crate::cell::CellFlags { bits: 0 },
        pad0: 0,
        pad1: 0,
    }
}

/// A cell write into a grid of the given dimensions; out-of-bounds writes
/// do nothing, mirroring the buffer's policy.
pub open spec fn put_cell(cells: Seq<Cell>, w: int, h: int, x: u16, y: u16, c: Cell) -> Seq<Cell> {
    if x < w && y < h {
        cells.update(y * w + x, c)
    } else {
        cells
    }
}

/// A grid and a column position, while a line is being placed.
pub ghost struct PlaceAcc {
    /// The grid cells.
    pub cells: Seq<Cell>,
    /// The next column within the widget.
    pub col: u16,
}

/// Place a line's cells from `j` on, starting at widget column `col`,
/// each advancing the column by its display width, stopping at the
/// widget's right edge.
pub open spec fn place_line(
    cells: Seq<Cell>,
    w: int,
    h: int,
    line: Seq<Cell>,
    bounds: Rect,
    y: u16,
    col: u16,
    j: int,
) -> PlaceAcc
    decreases line.len() - j,
{
    if j >= line.len() || j < 0 || col >= bounds.width {
        PlaceAcc { cells, col }
    } else {
        let c = line[j];
        let cells1 = put_cell(cells, w, h, sat16(bounds.x + col), y, c);
        place_line(cells1, w, h, line, bounds, y, sat16(col + c.display_width), j + 1)
    }
}

/// Fill the rest of a widget row, from `col` to the right edge, with
/// styled spaces.
pub open spec fn pad_row(
    cells: Seq<Cell>,
    w: int,
    h: int,
    bounds: Rect,
    y: u16,
    col: int,
    fg: Rgb,
    bg: Rgb,
) -> Seq<Cell>
    decreases bounds.width - col,
{
    if col >= bounds.width {
        cells
    } else {
        pad_row(
            put_cell(cells, w, h, sat16(bounds.x + col), y, spec_space_cell(fg, bg)),
            w,
            h,
            bounds,
            y,
            col + 1,
            fg,
            bg,
        )
    }
}

/// Render the visible lines from `row` on: each line's cells, then
/// padding to the right edge.
pub open spec fn render_rows(
    cells: Seq<Cell>,
    w: int,
    h: int,
    lines: Seq<Seq<Cell>>,
    bounds: Rect,
    fg: Rgb,
    bg: Rgb,
    row: int,
) -> Seq<Cell>
    decreases lines.len() - row,
{
    if row >= lines.len() || row < 0 {
        cells
    } else {
        let y = sat16(bounds.y + row);
        let placed = place_line(cells, w, h, lines[row], bounds, y, 0, 0);
        let padded = pad_row(placed.cells, w, h, bounds, y, placed.col as int, fg, bg);
        render_rows(padded, w, h, lines, bounds, fg, bg, row + 1)
    }
}

/// Clear the widget rows from `row` to the viewport height with styled
/// spaces.
pub open spec fn clear_rows(
    cells: Seq<Cell>,
    w: int,
    h: int,
    bounds: Rect,
    fg: Rgb,
    bg: Rgb,
    row: int,
    vh: int,
) -> Seq<Cell>
    decreases vh - row,
{
    if row >= vh {
        cells
    } else {
        clear_rows(
            pad_row(cells, w, h, bounds, sat16(bounds.y + row), 0, fg, bg),
            w,
            h,
            bounds,
            fg,
            bg,
            row + 1,
            vh,
        )
    }
}

/// The visible lines' cells for a viewport of the given height: the
/// newest lines above the scroll offset, topmost first.
pub open spec fn spec_visible(lines: Seq<(Seq<Cell>, bool)>, offset: nat, vh: int) -> Seq<
    Seq<Cell>,
> {
    let len = lines.len() as int;
    let end = if offset <= len {
        len - offset
    } else {
        0
    };
    let start = if vh <= end {
        end - vh
    } else {
        0
    };
    lines.subrange(start, end).map_values(|p: (Seq<Cell>, bool)| p.0)
}

/// The buffer cells after the widget renders: the visible lines placed
/// row by row, the rest of the viewport cleared to styled spaces.
pub open spec fn spec_render(
    cells: Seq<Cell>,
    w: int,
    h: int,
    lines: Seq<(Seq<Cell>, bool)>,
    offset: nat,
    bounds: Rect,
    fg: Rgb,
    bg: Rgb,
) -> Seq<Cell> {
    let visible = spec_visible(lines, offset, bounds.height as int);
    clear_rows(
        render_rows(cells, w, h, visible, bounds, fg, bg, 0),
        w,
        h,
        bounds,
        fg,
        bg,
        visible.len() as int,
        bounds.height as int,
    )
}

impl StreamWidget {
    /// Write the fast-path emission for an append result: the full-form
    /// cursor move to the append's start inside the widget's bounds, both
    /// color sequences, then the text's bytes.  Other results write
    /// nothing.
    pub fn write_fast_path(&self, result: AppendResult, text: &str, output: &mut Vec<u8>)
        ensures
            (result matches AppendResult::FastPath { start_col, row, .. } ==> final(output)@
                == old(output)@ + fast_path_bytes(
                self.spec_bounds(),
                start_col,
                row,
                self.spec_fg(),
                self.spec_bg(),
                text@,
            )),
            !(result is FastPath) ==> final(output)@ == old(output)@,
    {
        match result {
            AppendResult::FastPath { start_col, row, .. } => {
                let abs_x: u16 = if (self.bounds.x as u32) + (start_col as u32) + 1 <= 0xFFFF {
                    self.bounds.x + start_col + 1
                } else {
                    0xFFFF
                };
                let abs_y: u16 = if (self.bounds.y as u32) + (row as u32) + 1 <= 0xFFFF {
                    self.bounds.y + row + 1
                } else {
                    0xFFFF
                };
                push_csi(output);
                push_decimal(output, abs_y);
                output.push(0x3b);
                push_decimal(output, abs_x);
                output.push(0x48);
                push_fg(output, self.current_fg);
                push_bg(output, self.current_bg);
                let mut v = vstd::slice::slice_to_vec(text.as_bytes());
                output.append(&mut v);
                proof {
                    assert(output@ =~= old(output)@ + fast_path_bytes(
                        self.spec_bounds(),
                        start_col,
                        row,
                        self.spec_fg(),
                        self.spec_bg(),
                        text@,
                    ));
                }
            },
            _ => {},
        }
    }

    /// Append text and, when the fast path applied, write its emission to
    /// `output` and return true; otherwise return false and leave the
    /// caller to the normal render cycle.
    pub fn append_fast_into(&mut self, text: &str, output: &mut Vec<u8>) -> (r: bool)
        requires
            old(self).wf(),
        ensures
            final(self).wf(),
            r <==> (text@.len() > 0 && old(self).spec_offset() == 0 && !spec_has_newline(text@)
                && old(self).spec_cursor_col() + clusters_width(grapheme_clusters(text@)) <= old(
                self,
            ).spec_bounds().width),
            r ==> final(output)@ == old(output)@ + fast_path_bytes(
                old(self).spec_bounds(),
                old(self).spec_cursor_col(),
                old(self).spec_cursor_row(),
                old(self).spec_fg(),
                old(self).spec_bg(),
                text@,
            ),
            !r ==> final(output)@ == old(output)@,
    {
        let result = self.append(text);
        match result {
            AppendResult::FastPath { .. } => {
                self.write_fast_path(result, text, output);
                true
            },
            _ => false,
        }
    }

    /// Render the visible content into the buffer within the widget's
    /// bounds, padding each line and clearing unused rows with styled
    /// spaces, and clear the dirty state.
    #[verifier::rlimit(100)]
    pub fn render(&mut self, buffer: &mut Buffer)
        requires
            old(self).wf(),
            old(buffer).wf(),
        ensures
            final(self).wf(),
            final(buffer).wf(),
            final(buffer).spec_width() == old(buffer).spec_width(),
            final(buffer).spec_height() == old(buffer).spec_height(),
            final(buffer).spec_overflow() == old(buffer).spec_overflow(),
            final(buffer).spec_cells() == spec_render(
                old(buffer).spec_cells(),
                old(buffer).spec_width() as int,
                old(buffer).spec_height() as int,
                old(self).spec_lines(),
                old(self).spec_offset(),
                old(self).spec_bounds(),
                old(self).spec_fg(),
                old(self).spec_bg(),
            ),
            final(self).spec_lines() == old(self).spec_lines(),
            final(self).spec_offset() == old(self).spec_offset(),
            final(self).spec_cursor_col() == old(self).spec_cursor_col(),
            final(self).spec_cursor_row() == old(self).spec_cursor_row(),
            final(self).spec_bounds() == old(self).spec_bounds(),
            final(self).spec_config() == old(self).spec_config(),
            final(self).spec_fg() == old(self).spec_fg(),
            final(self).spec_bg() == old(self).spec_bg(),
            !final(self).spec_needs_full(),
            final(self).spec_dirty_rects() == Seq::<Rect>::empty(),
    {
        let w = buffer.width();
        let h = buffer.height();
        let ghost bw = w as int;
        let ghost bh = h as int;
        let vh = self.bounds.height as usize;
        let visible = self.content.visible_lines(vh);
        let ghost vis = spec_visible(
            self.content.spec_lines(),
            self.content.spec_scroll_offset() as nat,
            self.bounds.height as int,
        );
        proof {
            assert(visible@.map_values(|l: crate::scroll::StyledLine| crate::scroll::line_view(l))
                =~= self.content.spec_lines().subrange(
                ({
                    let len = self.content.spec_lines().len() as int;
                    let end = if self.content.spec_scroll_offset() <= len {
                        len - self.content.spec_scroll_offset()
                    } else {
                        0
                    };
                    if vh <= end {
                        end - vh
                    } else {
                        0
                    }
                }),
                ({
                    let len = self.content.spec_lines().len() as int;
                    if self.content.spec_scroll_offset() <= len {
                        len - self.content.spec_scroll_offset()
                    } else {
                        0
                    }
                }),
            ));
            assert forall|i: int| 0 <= i < visible@.len() implies #[trigger] visible@[i].content@
                == vis[i] by {
                assert(crate::scroll::line_view(visible@[i]) == visible@.map_values(
                    |l: crate::scroll::StyledLine| crate::scroll::line_view(l),
                )[i]);
                assert(vis[i] == self.content.spec_lines().subrange(
                    ({
                        let len = self.content.spec_lines().len() as int;
                        let end = if self.content.spec_scroll_offset() <= len {
                            len - self.content.spec_scroll_offset()
                        } else {
                            0
                        };
                        if vh <= end {
                            end - vh
                        } else {
                            0
                        }
                    }),
                    ({
                        let len = self.content.spec_lines().len() as int;
                        if self.content.spec_scroll_offset() <= len {
                            len - self.content.spec_scroll_offset()
                        } else {
                            0
                        }
                    }),
                ).map_values(|p: (Seq<Cell>, bool)| p.0)[i]);
            }
            assert(vis.len() == visible@.len());
        }
        let nvis = visible.len();
        proof {
            assert(nvis <= vh);
        }
        let ghost grid0 = buffer.spec_cells();
        let ghost rendered = render_rows(
            grid0,
            bw,
            bh,
            vis,
            self.bounds,
            self.current_fg,
            self.current_bg,
            0,
        );
        let space = Cell { g0: 0x20, g1: 0, g2: 0, g3: 0, grapheme_len: 1, display_width: 1, fg:
            self.current_fg, bg: self.current_bg, modifiers: crate::cell::Modifiers { bits: 0 },
            flags: crate::cell::CellFlags { bits: 0 }, pad0: 0, pad1: 0 };
        let mut row: usize = 0;
        while row < nvis
            invariant
                row <= nvis,
                nvis <= vh,
                vh <= 0xFFFF,
                nvis == vis.len(),
                nvis == visible@.len(),
                forall|i: int|
                    0 <= i < visible@.len() ==> #[trigger] visible@[i].content@ == vis[i],
                buffer.wf(),
                bw == buffer.spec_width(),
                bh == buffer.spec_height(),
                buffer.spec_overflow() == old(buffer).spec_overflow(),
                *self == *old(self),
                space == spec_space_cell(self.current_fg, self.current_bg),
                rendered == render_rows(
                    grid0,
                    bw,
                    bh,
                    vis,
                    self.bounds,
                    self.current_fg,
                    self.current_bg,
                    0,
                ),
                rendered == render_rows(
                    buffer.spec_cells(),
                    bw,
                    bh,
                    vis,
                    self.bounds,
                    self.current_fg,
                    self.current_bg,
                    row as int,
                ),
            decreases nvis - row,
        {
            let y: u16 = if (self.bounds.y as u32) + (row as u32) <= 0xFFFF {
                self.bounds.y + (row as u16)
            } else {
                0xFFFF
            };
            let line_len = visible[row].content.len();
            let ghost line = vis[row as int];
            let ghost grid_row0 = buffer.spec_cells();
            let ghost placed = place_line(grid_row0, bw, bh, line, self.bounds, y, 0, 0);
            let mut col: u16 = 0;
            let mut j: usize = 0;
            while j < line_len && col < self.bounds.width
                invariant
                    j <= line_len,
                    line_len == line.len(),
                    row < nvis,
                    nvis == visible@.len(),
                    visible@[row as int].content@ == line,
                    buffer.wf(),
                    bw == buffer.spec_width(),
                    bh == buffer.spec_height(),
                    buffer.spec_overflow() == old(buffer).spec_overflow(),
                    *self == *old(self),
                    placed == place_line(grid_row0, bw, bh, line, self.bounds, y, 0, 0),
                    placed == place_line(
                        buffer.spec_cells(),
                        bw,
                        bh,
                        line,
                        self.bounds,
                        y,
                        col,
                        j as int,
                    ),
                decreases line_len - j,
            {
                let cell = visible[row].content[j];
                let x: u16 = if (self.bounds.x as u32) + (col as u32) <= 0xFFFF {
                    self.bounds.x + col
                } else {
                    0xFFFF
                };
                buffer.set(x, y, cell);
                col = if (col as u32) + (cell.display_width as u32) <= 0xFFFF {
                    col + (cell.display_width as u16)
                } else {
                    0xFFFF
                };
                j = j + 1;
            }
            proof {
                assert(placed == (PlaceAcc { cells: buffer.spec_cells(), col }));
            }
            let ghost padded = pad_row(
                buffer.spec_cells(),
                bw,
                bh,
                self.bounds,
                y,
                col as int,
                self.current_fg,
                self.current_bg,
            );
            while col < self.bounds.width
                invariant
                    buffer.wf(),
                    bw == buffer.spec_width(),
                    bh == buffer.spec_height(),
                    buffer.spec_overflow() == old(buffer).spec_overflow(),
                    *self == *old(self),
                    space == spec_space_cell(self.current_fg, self.current_bg),
                    padded == pad_row(
                        buffer.spec_cells(),
                        bw,
                        bh,
                        self.bounds,
                        y,
                        col as int,
                        self.current_fg,
                        self.current_bg,
                    ),
                decreases self.bounds.width - col,
            {
                let x: u16 = if (self.bounds.x as u32) + (col as u32) <= 0xFFFF {
                    self.bounds.x + col
                } else {
                    0xFFFF
                };
                buffer.set(x, y, space);
                col = col + 1;
            }
            row = row + 1;
        }
        let ghost cleared = clear_rows(
            buffer.spec_cells(),
            bw,
            bh,
            self.bounds,
            self.current_fg,
            self.current_bg,
            nvis as int,
            vh as int,
        );
        let mut crow: usize = nvis;
        while crow < vh
            invariant
                nvis <= crow <= vh || crow == nvis,
                vh <= 0xFFFF,
                buffer.wf(),
                bw == buffer.spec_width(),
                bh == buffer.spec_height(),
                buffer.spec_overflow() == old(buffer).spec_overflow(),
                *self == *old(self),
                space == spec_space_cell(self.current_fg, self.current_bg),
                cleared == clear_rows(
                    buffer.spec_cells(),
                    bw,
                    bh,
                    self.bounds,
                    self.current_fg,
                    self.current_bg,
                    crow as int,
                    vh as int,
                ),
            decreases vh - crow,
        {
            let y: u16 = if (self.bounds.y as u32) + (crow as u32) <= 0xFFFF {
                self.bounds.y + (crow as u16)
            } else {
                0xFFFF
            };
            let ghost padded = pad_row(
                buffer.spec_cells(),
                bw,
                bh,
                self.bounds,
                y,
                0,
                self.current_fg,
                self.current_bg,
            );
            let mut col: u16 = 0;
            while col < self.bounds.width
                invariant
                    buffer.wf(),
                    bw == buffer.spec_width(),
                    bh == buffer.spec_height(),
                    buffer.spec_overflow() == old(buffer).spec_overflow(),
                    *self == *old(self),
                    space == spec_space_cell(self.current_fg, self.current_bg),
                    padded == pad_row(
                        buffer.spec_cells(),
                        bw,
                        bh,
                        self.bounds,
                        y,
                        col as int,
                        self.current_fg,
                        self.current_bg,
                    ),
                decreases self.bounds.width - col,
            {
                let x: u16 = if (self.bounds.x as u32) + (col as u32) <= 0xFFFF {
                    self.bounds.x + col
                } else {
                    0xFFFF
                };
                buffer.set(x, y, space);
                col = col + 1;
            }
            crow = crow + 1;
        }
        self.needs_full_redraw = false;
        self.dirty_rects.clear();
        proof {
            assert(self.spec_dirty_rects() =~= Seq::<Rect>::empty());
        }
    }
}

} // verus!
