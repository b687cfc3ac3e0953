//! Rect: a rectangle primitive for layout calculations.
//!
//! All geometry is expressed as half-open intervals: `right = x + width`.

use vstd::prelude::*;

verus! {

/// A rectangle defined by position and size, in cell coordinates.
#[derive(Clone, Copy, PartialEq, Eq, Structural, Hash, Debug)]
pub struct Rect {
    /// X coordinate (column) of the top-left corner.
    pub x: u16,
    /// Y coordinate (row) of the top-left corner.
    pub y: u16,
    /// Width in columns.
    pub width: u16,
    /// Height in rows.
    pub height: u16,
}

impl Rect {
    /// Right edge (exclusive), as a mathematical integer.
    pub open spec fn spec_right(self) -> int {
        if self.x + self.width <= u16::MAX {
            self.x + self.width
        } else {
            u16::MAX as int
        }
    }

    /// Bottom edge (exclusive), as a mathematical integer.
    pub open spec fn spec_bottom(self) -> int {
        if self.y + self.height <= u16::MAX {
            self.y + self.height
        } else {
            u16::MAX as int
        }
    }

    /// Whether the point `(px, py)` lies inside the rectangle.
    pub open spec fn spec_contains(self, px: int, py: int) -> bool {
        &&& self.x <= px < self.spec_right()
        &&& self.y <= py < self.spec_bottom()
    }

    /// Create a new rectangle.
    pub fn new(x: u16, y: u16, width: u16, height: u16) -> (r: Rect)
        ensures
            r == (Rect { x, y, width, height }),
    {
        Rect { x, y, width, height }
    }

    /// Create a rectangle from a terminal size (full screen).
    pub fn from_size(width: u16, height: u16) -> (r: Rect)
        ensures
            r == (Rect { x: 0u16, y: 0u16, width, height }),
    {
        Rect { x: 0, y: 0, width, height }
    }

    /// The zero-sized rectangle at the origin.
    pub fn zero() -> (r: Rect)
        ensures
            r == (Rect { x: 0u16, y: 0u16, width: 0u16, height: 0u16 }),
    {
        Rect { x: 0, y: 0, width: 0, height: 0 }
    }

    /// Area in cells.
    pub fn area(&self) -> (a: u32)
        ensures
            a == self.width * self.height,
    {
        proof {
            assert(self.width * self.height <= 0xFFFF * 0xFFFF) by (nonlinear_arith)
                requires
                    self.width <= 0xFFFF,
                    self.height <= 0xFFFF,
            ;
        }
        (self.width as u32) * (self.height as u32)
    }

    /// Whether the rectangle covers no cells.
    pub fn is_empty(&self) -> (r: bool)
        ensures
            r == (self.width == 0 || self.height == 0),
    {
        self.width == 0 || self.height == 0
    }

    /// Right edge (exclusive), saturating at the type's maximum.
    pub fn right(&self) -> (r: u16)
        ensures
            r == self.spec_right(),
    {
        if self.x <= u16::MAX - self.width {
            self.x + self.width
        } else {
            u16::MAX
        }
    }

    /// Bottom edge (exclusive), saturating at the type's maximum.
    pub fn bottom(&self) -> (r: u16)
        ensures
            r == self.spec_bottom(),
    {
        if self.y <= u16::MAX - self.height {
            self.y + self.height
        } else {
            u16::MAX
        }
    }

    /// Whether a point is inside the rectangle.
    pub fn contains(&self, x: u16, y: u16) -> (r: bool)
        ensures
            r == self.spec_contains(x as int, y as int),
    {
        x >= self.x && x < self.right() && y >= self.y && y < self.bottom()
    }

    /// Whether this rectangle shares at least one cell with `other`.
    pub fn intersects(&self, other: &Rect) -> (r: bool)
        ensures
            r == {
                &&& self.x < other.spec_right()
                &&& self.spec_right() > other.x
                &&& self.y < other.spec_bottom()
                &&& self.spec_bottom() > other.y
            },
    {
        self.x < other.right() && self.right() > other.x && self.y < other.bottom()
            && self.bottom() > other.y
    }

    /// Shrink the rectangle by a margin on all sides; collapses to the zero
    /// rectangle when the margin does not fit.
    pub fn shrink(&self, margin: u16) -> (r: Rect)
        requires
            self.x + self.width <= u16::MAX,
            self.y + self.height <= u16::MAX,
        ensures
            margin * 2 <= u16::MAX && self.width > margin * 2 && self.height > margin * 2
                ==> r == (Rect {
                    x: (self.x + margin) as u16,
                    y: (self.y + margin) as u16,
                    width: (self.width - margin * 2) as u16,
                    height: (self.height - margin * 2) as u16,
                }),
            !(margin * 2 <= u16::MAX && self.width > margin * 2 && self.height > margin * 2)
                ==> r == (Rect { x: 0u16, y: 0u16, width: 0u16, height: 0u16 }),
    {
        if margin > u16::MAX / 2 {
            return Rect { x: 0, y: 0, width: 0, height: 0 };
        }
        let m2: u16 = margin * 2;
        if self.width <= m2 || self.height <= m2 {
            return Rect { x: 0, y: 0, width: 0, height: 0 };
        }
        Rect {
            x: self.x + margin,
            y: self.y + margin,
            width: self.width - m2,
            height: self.height - m2,
        }
    }

    /// Split horizontally at the given column offset (clamped to the width).
    pub fn split_horizontal(&self, at: u16) -> (r: (Rect, Rect))
        requires
            self.x + self.width <= u16::MAX,
        ensures
            ({
                let a = if at <= self.width { at as int } else { self.width as int };
                &&& r.0 == (Rect { x: self.x, y: self.y, width: a as u16, height: self.height })
                &&& r.1 == (Rect {
                    x: (self.x + a) as u16,
                    y: self.y,
                    width: (self.width - a) as u16,
                    height: self.height,
                })
            }),
    {
        let a: u16 = if at <= self.width { at } else { self.width };
        (
            Rect { x: self.x, y: self.y, width: a, height: self.height },
            Rect { x: self.x + a, y: self.y, width: self.width - a, height: self.height },
        )
    }

    /// Split vertically at the given row offset (clamped to the height).
    pub fn split_vertical(&self, at: u16) -> (r: (Rect, Rect))
        requires
            self.y + self.height <= u16::MAX,
        ensures
            ({
                let a = if at <= self.height { at as int } else { self.height as int };
                &&& r.0 == (Rect { x: self.x, y: self.y, width: self.width, height: a as u16 })
                &&& r.1 == (Rect {
                    x: self.x,
                    y: (self.y + a) as u16,
                    width: self.width,
                    height: (self.height - a) as u16,
                })
            }),
    {
        let a: u16 = if at <= self.height { at } else { self.height };
        (
            Rect { x: self.x, y: self.y, width: self.width, height: a },
            Rect { x: self.x, y: self.y + a, width: self.width, height: self.height - a },
        )
    }
}

} // verus!
