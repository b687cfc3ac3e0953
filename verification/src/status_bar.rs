//! Status bar widget: one row with left, center and right sections.

use vstd::prelude::*;
use crate::buffer::Buffer;
use crate::cell::{Cell, Rgb};
use crate::rect::Rect;
use crate::messages::InputEvent;
use crate::widget::Widget;
use crate::stream::{spec_char_cell, spec_space_cell};
use crate::unicode::str_chars;

verus! {

/// Colors of the status bar sections.
#[derive(Clone, Copy, PartialEq, Eq, Structural, Debug)]
pub struct StatusBarConfig {
    /// Background color.
    pub bg: Rgb,
    /// Left section text color.
    pub left_fg: Rgb,
    /// Center section text color.
    pub center_fg: Rgb,
    /// Right section text color.
    pub right_fg: Rgb,
}

impl Default for StatusBarConfig {
    /// Dark grey background; white, grey and green section texts.
    fn default() -> (r: StatusBarConfig)
        ensures
            r == (StatusBarConfig {
                bg: Rgb { r: 40u8, g: 40u8, b: 40u8 },
                left_fg: Rgb { r: 255u8, g: 255u8, b: 255u8 },
                center_fg: Rgb { r: 150u8, g: 150u8, b: 150u8 },
                right_fg: Rgb { r: 100u8, g: 200u8, b: 100u8 },
            }),
    {
        StatusBarConfig {
            bg: Rgb { r: 40, g: 40, b: 40 },
            left_fg: Rgb { r: 255, g: 255, b: 255 },
            center_fg: Rgb { r: 150, g: 150, b: 150 },
            right_fg: Rgb { r: 100, g: 200, b: 100 },
        }
    }
}

/// The cell at widget column `col` of a rendered status bar: the right
/// section wins over the center, the center over the left, and the rest
/// is background; each section is capped at a third of the width.
pub open spec fn status_row_cell(
    left: Seq<char>,
    center: Seq<char>,
    right: Seq<char>,
    cfg: StatusBarConfig,
    width: int,
    col: int,
) -> Cell {
    let third = width / 3;
    let l_len = if left.len() <= third {
        left.len() as int
    } else {
        third
    };
    let c_len = if center.len() <= third {
        center.len() as int
    } else {
        third
    };
    let c_start = (width - c_len) / 2;
    let r_len = if right.len() <= third {
        right.len() as int
    } else {
        third
    };
    let r_start = width - r_len;
    if r_start <= col < r_start + r_len {
        spec_char_cell(right[col - r_start], cfg.right_fg, cfg.bg)
    } else if c_start <= col < c_start + c_len {
        spec_char_cell(center[col - c_start], cfg.center_fg, cfg.bg)
    } else if 0 <= col < l_len {
        spec_char_cell(left[col], cfg.left_fg, cfg.bg)
    } else {
        spec_space_cell(Rgb { r: 255, g: 255, b: 255 }, cfg.bg)
    }
}

/// A three-section status bar: left, center and right texts on one row.
#[derive(Debug)]
pub struct StatusBar {
    /// Left section content.
    left: String,
    /// Center section content.
    center: String,
    /// Right section content.
    right: String,
    /// Widget bounds; only the first row is drawn.
    bounds: Rect,
    /// Section colors.
    config: StatusBarConfig,
    /// Redraw flag.
    dirty: bool,
}

impl StatusBar {
    /// The left text, at the specification level.
    pub closed spec fn spec_left(&self) -> Seq<char> {
        self.left@
    }

    /// The center text.
    pub closed spec fn spec_center(&self) -> Seq<char> {
        self.center@
    }

    /// The right text.
    pub closed spec fn spec_right(&self) -> Seq<char> {
        self.right@
    }

    /// The bounds.
    pub closed spec fn spec_bounds(&self) -> Rect {
        self.bounds
    }

    /// The configuration.
    pub closed spec fn spec_config(&self) -> StatusBarConfig {
        self.config
    }

    /// The redraw flag.
    pub closed spec fn spec_dirty(&self) -> bool {
        self.dirty
    }

    /// Create a status bar with the default colors.
    pub fn new(bounds: Rect) -> (r: StatusBar)
        ensures
            r.spec_left() == Seq::<char>::empty(),
            r.spec_center() == Seq::<char>::empty(),
            r.spec_right() == Seq::<char>::empty(),
            r.spec_bounds() == bounds,
            r.spec_config() == (StatusBarConfig {
                bg: Rgb { r: 40u8, g: 40u8, b: 40u8 },
                left_fg: Rgb { r: 255u8, g: 255u8, b: 255u8 },
                center_fg: Rgb { r: 150u8, g: 150u8, b: 150u8 },
                right_fg: Rgb { r: 100u8, g: 200u8, b: 100u8 },
            }),
            r.spec_dirty(),
    {
        let r = StatusBar {
            left: String::new(),
            center: String::new(),
            right: String::new(),
            bounds,
            config: StatusBarConfig {
                bg: Rgb { r: 40, g: 40, b: 40 },
                left_fg: Rgb { r: 255, g: 255, b: 255 },
                center_fg: Rgb { r: 150, g: 150, b: 150 },
                right_fg: Rgb { r: 100, g: 200, b: 100 },
            },
            dirty: true,
        };
        r
    }

    /// Create a status bar with the given colors.
    pub fn with_config(bounds: Rect, config: StatusBarConfig) -> (r: StatusBar)
        ensures
            r.spec_left() == Seq::<char>::empty(),
            r.spec_center() == Seq::<char>::empty(),
            r.spec_right() == Seq::<char>::empty(),
            r.spec_bounds() == bounds,
            r.spec_config() == config,
            r.spec_dirty(),
    {
        StatusBar {
            left: String::new(),
            center: String::new(),
            right: String::new(),
            bounds,
            config,
            dirty: true,
        }
    }

    /// Set the left section.
    pub fn set_left(&mut self, text: String)
        ensures
            final(self).spec_left() == text@,
            final(self).spec_center() == old(self).spec_center(),
            final(self).spec_right() == old(self).spec_right(),
            final(self).spec_bounds() == old(self).spec_bounds(),
            final(self).spec_config() == old(self).spec_config(),
            final(self).spec_dirty(),
    {
        self.left = text;
        self.dirty = true;
    }

    /// Set the center section.
    pub fn set_center(&mut self, text: String)
        ensures
            final(self).spec_center() == text@,
            final(self).spec_left() == old(self).spec_left(),
            final(self).spec_right() == old(self).spec_right(),
            final(self).spec_bounds() == old(self).spec_bounds(),
            final(self).spec_config() == old(self).spec_config(),
            final(self).spec_dirty(),
    {
        self.center = text;
        self.dirty = true;
    }

    /// Set the right section.
    pub fn set_right(&mut self, text: String)
        ensures
            final(self).spec_right() == text@,
            final(self).spec_left() == old(self).spec_left(),
            final(self).spec_center() == old(self).spec_center(),
            final(self).spec_bounds() == old(self).spec_bounds(),
            final(self).spec_config() == old(self).spec_config(),
            final(self).spec_dirty(),
    {
        self.right = text;
        self.dirty = true;
    }

    /// Set all three sections at once.
    pub fn set_all(&mut self, left: String, center: String, right: String)
        ensures
            final(self).spec_left() == left@,
            final(self).spec_center() == center@,
            final(self).spec_right() == right@,
            final(self).spec_bounds() == old(self).spec_bounds(),
            final(self).spec_config() == old(self).spec_config(),
            final(self).spec_dirty(),
    {
        self.left = left;
        self.center = center;
        self.right = right;
        self.dirty = true;
    }

    /// The left section's content.
    pub fn left(&self) -> (r: &str)
        ensures
            r@ == self.spec_left(),
    {
        self.left.as_str()
    }

    /// The center section's content.
    pub fn center(&self) -> (r: &str)
        ensures
            r@ == self.spec_center(),
    {
        self.center.as_str()
    }

    /// The right section's content.
    pub fn right(&self) -> (r: &str)
        ensures
            r@ == self.spec_right(),
    {
        self.right.as_str()
    }
}

impl Widget for StatusBar {
    /// The widget bounds.
    fn bounds(&self) -> (r: Rect)
        ensures
            r == self.spec_bounds(),
    {
        self.bounds
    }

    /// Move or resize the bar.
    fn set_bounds(&mut self, bounds: Rect) {
        self.bounds = bounds;
        self.dirty = true;
    }

    /// Render the bar's row into the buffer: background everywhere, then
    /// the left, center and right sections, later sections winning where
    /// they overlap.
    fn render(&self, buffer: &mut Buffer)
        ensures
            forall|cx: int, cy: int|
                0 <= cx < final(buffer).spec_width() && 0 <= cy < final(buffer).spec_height()
                    ==> #[trigger] final(buffer).spec_cell_at(cx, cy) == (if cy
                    == self.spec_bounds().y && self.spec_bounds().x <= cx < self.spec_bounds().x
                    + self.spec_bounds().width {
                    status_row_cell(
                        self.spec_left(),
                        self.spec_center(),
                        self.spec_right(),
                        self.spec_config(),
                        self.spec_bounds().width as int,
                        cx - self.spec_bounds().x,
                    )
                } else {
                    old(buffer).spec_cell_at(cx, cy)
                }),
    {
        let x = self.bounds.x;
        let y = self.bounds.y;
        let width = self.bounds.width;
        let third: u16 = width / 3;
        let left_chars = str_chars(self.left.as_str());
        let center_chars = str_chars(self.center.as_str());
        let right_chars = str_chars(self.right.as_str());
        let l_len: u16 = if left_chars.len() <= third as usize {
            left_chars.len() as u16
        } else {
            third
        };
        let c_len: u16 = if center_chars.len() <= third as usize {
            center_chars.len() as u16
        } else {
            third
        };
        let c_start: u16 = (width - c_len) / 2;
        let r_len: u16 = if right_chars.len() <= third as usize {
            right_chars.len() as u16
        } else {
            third
        };
        let r_start: u16 = width - r_len;
        let mut col: u16 = 0;
        while col < width
            invariant
                col <= width,
                buffer.wf(),
                buffer.spec_width() == old(buffer).spec_width(),
                buffer.spec_height() == old(buffer).spec_height(),
                buffer.spec_overflow() == old(buffer).spec_overflow(),
                x == self.spec_bounds().x,
                y == self.spec_bounds().y,
                width == self.spec_bounds().width,
                third == width / 3,
                left_chars@ == self.spec_left(),
                center_chars@ == self.spec_center(),
                right_chars@ == self.spec_right(),
                l_len == (if self.spec_left().len() <= third {
                    self.spec_left().len() as int
                } else {
                    third as int
                }),
                c_len == (if self.spec_center().len() <= third {
                    self.spec_center().len() as int
                } else {
                    third as int
                }),
                c_start == (width - c_len) / 2,
                r_len == (if self.spec_right().len() <= third {
                    self.spec_right().len() as int
                } else {
                    third as int
                }),
                r_start == width - r_len,
                forall|cx: int, cy: int|
                    0 <= cx < buffer.spec_width() && 0 <= cy < buffer.spec_height()
                        ==> #[trigger] buffer.spec_cell_at(cx, cy) == (if cy == y && x <= cx < x
                        + col {
                        status_row_cell(
                            self.spec_left(),
                            self.spec_center(),
                            self.spec_right(),
                            self.spec_config(),
                            width as int,
                            cx - x,
                        )
                    } else {
                        old(buffer).spec_cell_at(cx, cy)
                    }),
            decreases width - col,
        {
            let cell: Cell = if col >= r_start && col < r_start + r_len {
                let mut c = Cell::from_char(right_chars[(col - r_start) as usize]);
                c.set_fg(self.config.right_fg);
                c.set_bg(self.config.bg);
                c
            } else if col >= c_start && col < c_start + c_len {
                let mut c = Cell::from_char(center_chars[(col - c_start) as usize]);
                c.set_fg(self.config.center_fg);
                c.set_bg(self.config.bg);
                c
            } else if col < l_len {
                let mut c = Cell::from_char(left_chars[col as usize]);
                c.set_fg(self.config.left_fg);
                c.set_bg(self.config.bg);
                c
            } else {
                Cell {
                    g0: 0x20,
                    g1: 0,
                    g2: 0,
                    g3: 0,
                    grapheme_len: 1,
                    display_width: 1,
                    fg: Rgb { r: 255, g: 255, b: 255 },
                    bg: self.config.bg,
                    modifiers: crate::cell::Modifiers { bits: 0 },
                    flags: crate::cell::CellFlags { bits: 0 },
                    pad0: 0,
                    pad1: 0,
                }
            };
            proof {
                assert(cell == status_row_cell(
                    self.spec_left(),
                    self.spec_center(),
                    self.spec_right(),
                    self.spec_config(),
                    width as int,
                    col as int,
                ));
            }
            let px: u16 = if (x as u32) + (col as u32) <= 0xFFFF {
                x + col
            } else {
                0xFFFF
            };
            let ghost prev = *buffer;
            buffer.set(px, y, cell);
            proof {
                assert forall|cx: int, cy: int|
                    0 <= cx < buffer.spec_width() && 0 <= cy
                        < buffer.spec_height() implies #[trigger] buffer.spec_cell_at(cx, cy) == (
                if cy == y && x <= cx < x + col + 1 {
                    status_row_cell(
                        self.spec_left(),
                        self.spec_center(),
                        self.spec_right(),
                        self.spec_config(),
                        width as int,
                        cx - x,
                    )
                } else {
                    old(buffer).spec_cell_at(cx, cy)
                }) by {
                    let w = buffer.spec_width() as int;
                    assert(prev.spec_cell_at(cx, cy) == (if cy == y && x <= cx < x + col {
                        status_row_cell(
                            self.spec_left(),
                            self.spec_center(),
                            self.spec_right(),
                            self.spec_config(),
                            width as int,
                            cx - x,
                        )
                    } else {
                        old(buffer).spec_cell_at(cx, cy)
                    }));
                    if px < prev.spec_width() && y < prev.spec_height() {
                        assert((cy * w + cx == (y as int) * w + (px as int)) <==> (cx == px && cy
                            == y)) by (nonlinear_arith)
                            requires
                                0 <= cx < w,
                                0 <= cy,
                                0 <= px < w,
                                0 <= y,
                        ;
                        assert(0 <= cy * w + cx < buffer.spec_cells().len()) by (nonlinear_arith)
                            requires
                                0 <= cx < w,
                                0 <= cy < buffer.spec_height(),
                                buffer.spec_cells().len() == w * buffer.spec_height(),
                        ;
                        assert(0 <= (y as int) * w + (px as int) < buffer.spec_cells().len())
                            by (nonlinear_arith)
                            requires
                                0 <= px < w,
                                0 <= y < buffer.spec_height(),
                                buffer.spec_cells().len() == w * buffer.spec_height(),
                        ;
                    }
                }
            }
            col = col + 1;
        }
    }

    /// The status bar consumes no input.
    fn handle_input(&mut self, _event: &InputEvent) -> (r: bool)
        ensures
            r == false,
    {
        false
    }

    /// Whether the bar needs a redraw.
    fn needs_redraw(&self) -> (r: bool)
        ensures
            r == self.spec_dirty(),
    {
        self.dirty
    }

    /// Clear the redraw flag.
    fn clear_redraw(&mut self)
        ensures
            !final(self).spec_dirty(),
    {
        self.dirty = false;
    }
}

} // verus!
