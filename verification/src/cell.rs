//! Cell: the atomic unit of terminal display.
//!
//! A cell packs a grapheme, its style and a pair of flag bytes into sixteen
//! bytes, so four cells share one 64-byte cache line.  Graphemes whose UTF-8
//! encoding fits four bytes are stored inline; longer clusters spill to the
//! owning buffer's overflow table, and the four grapheme bytes then hold a
//! little-endian index into that table.

use vstd::prelude::*;
use vstd::utf8::{valid_utf8, decode_utf8, encode_utf8, encode_utf8_decode_utf8, encode_utf8_valid_utf8};
use crate::unicode::{grapheme_cell_width, measure_char_cell_width, clamped_width, char_cell_width};

verus! {

/// Bold text.
pub const BOLD: u8 = 0x01;
/// Dim/faint text.
pub const DIM: u8 = 0x02;
/// Italic text.
pub const ITALIC: u8 = 0x04;
/// Underlined text.
pub const UNDERLINE: u8 = 0x08;
/// Blinking text.
pub const BLINK: u8 = 0x10;
/// Reversed colors (foreground and background swapped).
pub const REVERSED: u8 = 0x20;
/// Hidden/invisible text.
pub const HIDDEN: u8 = 0x40;
/// Strikethrough text.
pub const STRIKETHROUGH: u8 = 0x80;

/// The grapheme overflows inline storage; look it up in the buffer's table.
pub const OVERFLOW: u8 = 0x01;
/// The cell has been modified since the last render.
pub const DIRTY: u8 = 0x02;
/// The cell is the continuation (right half) of a two-column grapheme.
pub const WIDE_CONTINUATION: u8 = 0x04;

/// True-color RGB representation: three bytes for 24-bit color depth.
#[derive(Clone, Copy, PartialEq, Eq, Structural, Hash, Debug)]
pub struct Rgb {
    /// Red channel.
    pub r: u8,
    /// Green channel.
    pub g: u8,
    /// Blue channel.
    pub b: u8,
}

impl Rgb {
    /// Create a new RGB color.
    pub fn new(r: u8, g: u8, b: u8) -> (c: Rgb)
        ensures
            c == (Rgb { r, g, b }),
    {
        Rgb { r, g, b }
    }

    /// Black.
    pub fn black() -> (c: Rgb)
        ensures
            c == (Rgb { r: 0u8, g: 0u8, b: 0u8 }),
    {
        Rgb { r: 0, g: 0, b: 0 }
    }

    /// White.
    pub fn white() -> (c: Rgb)
        ensures
            c == (Rgb { r: 255u8, g: 255u8, b: 255u8 }),
    {
        Rgb { r: 255, g: 255, b: 255 }
    }

    /// Default foreground (white).
    pub fn default_fg() -> (c: Rgb)
        ensures
            c == (Rgb { r: 255u8, g: 255u8, b: 255u8 }),
    {
        Rgb::white()
    }

    /// Default background (black).
    pub fn default_bg() -> (c: Rgb)
        ensures
            c == (Rgb { r: 0u8, g: 0u8, b: 0u8 }),
    {
        Rgb::black()
    }

    /// Create from a 24-bit hex color (for example `0xFF5500`).
    pub fn from_u32(hex: u32) -> (c: Rgb)
        ensures
            c.r == (hex >> 16) & 0xFF,
            c.g == (hex >> 8) & 0xFF,
            c.b == hex & 0xFF,
    {
        proof {
            assert((hex >> 16) & 0xFF < 256 && (hex >> 8) & 0xFF < 256 && hex & 0xFF < 256)
                by (bit_vector);
        }
        Rgb {
            r: ((hex >> 16) & 0xFF) as u8,
            g: ((hex >> 8) & 0xFF) as u8,
            b: (hex & 0xFF) as u8,
        }
    }
}

impl Default for Rgb {
    /// The all-zero color (black).
    fn default() -> (c: Rgb)
        ensures
            c == (Rgb { r: 0u8, g: 0u8, b: 0u8 }),
    {
        Rgb { r: 0, g: 0, b: 0 }
    }
}

/// Text style modifiers, one bit per attribute.
#[derive(Clone, Copy, PartialEq, Eq, Structural, Hash, Debug)]
pub struct Modifiers {
    /// The raw bitset; each bit is one of the modifier constants.
    pub bits: u8,
}

impl Modifiers {
    /// No modifiers.
    pub fn empty() -> (m: Modifiers)
        ensures
            m.bits == 0,
    {
        Modifiers { bits: 0 }
    }

    /// Build a modifier set from raw bits.
    pub fn from_bits(bits: u8) -> (m: Modifiers)
        ensures
            m.bits == bits,
    {
        Modifiers { bits }
    }

    /// Whether every bit of `other` is set in `self`.
    pub fn contains(&self, other: Modifiers) -> (r: bool)
        ensures
            r == (self.bits & other.bits == other.bits),
    {
        self.bits & other.bits == other.bits
    }

    /// The bits set in either operand.
    pub fn union(&self, other: Modifiers) -> (m: Modifiers)
        ensures
            m.bits == self.bits | other.bits,
    {
        Modifiers { bits: self.bits | other.bits }
    }

    /// The bits set in `self` but not in `other`.
    pub fn difference(&self, other: Modifiers) -> (m: Modifiers)
        ensures
            m.bits == self.bits & !other.bits,
    {
        Modifiers { bits: self.bits & !other.bits }
    }

    /// Whether no bit is set.
    pub fn is_empty(&self) -> (r: bool)
        ensures
            r == (self.bits == 0),
    {
        self.bits == 0
    }
}

impl Default for Modifiers {
    /// No modifiers.
    fn default() -> (m: Modifiers)
        ensures
            m.bits == 0,
    {
        Modifiers { bits: 0 }
    }
}

/// Cell-level flags for special states, one bit per flag.
#[derive(Clone, Copy, PartialEq, Eq, Structural, Hash, Debug)]
pub struct CellFlags {
    /// The raw bitset; each bit is one of the flag constants.
    pub bits: u8,
}

impl CellFlags {
    /// No flags.
    pub fn empty() -> (f: CellFlags)
        ensures
            f.bits == 0,
    {
        CellFlags { bits: 0 }
    }

    /// Build a flag set from raw bits.
    pub fn from_bits(bits: u8) -> (f: CellFlags)
        ensures
            f.bits == bits,
    {
        CellFlags { bits }
    }

    /// Whether every bit of `other` is set in `self`.
    pub fn contains(&self, other: CellFlags) -> (r: bool)
        ensures
            r == (self.bits & other.bits == other.bits),
    {
        self.bits & other.bits == other.bits
    }
}

impl Default for CellFlags {
    /// No flags.
    fn default() -> (f: CellFlags)
        ensures
            f.bits == 0,
    {
        CellFlags { bits: 0 }
    }
}

/// A single terminal cell: sixteen bytes of grapheme, style and flags.
#[derive(Clone, Copy, PartialEq, Eq, Structural, Hash, Debug)]
pub struct Cell {
    /// First inline grapheme byte (or bits 0..8 of an overflow index).
    pub g0: u8,
    /// Second inline grapheme byte (or bits 8..16 of an overflow index).
    pub g1: u8,
    /// Third inline grapheme byte (or bits 16..24 of an overflow index).
    pub g2: u8,
    /// Fourth inline grapheme byte (or bits 24..32 of an overflow index).
    pub g3: u8,
    /// Byte length of the inline grapheme (0 for overflow or continuation).
    pub grapheme_len: u8,
    /// Display width in columns (0 = continuation, 1 = normal, 2 = wide).
    pub display_width: u8,
    /// Foreground color.
    pub fg: Rgb,
    /// Background color.
    pub bg: Rgb,
    /// Text modifiers.
    pub modifiers: Modifiers,
    /// Cell flags.
    pub flags: CellFlags,
    /// First padding byte, bringing the cell to sixteen bytes.
    pub pad0: u8,
    /// Second padding byte.
    pub pad1: u8,
}

impl Cell {
    /// The inline grapheme bytes actually in use.
    pub open spec fn inline_bytes(self) -> Seq<u8> {
        let n = if self.grapheme_len <= 4 {
            self.grapheme_len as int
        } else {
            4
        };
        seq![self.g0, self.g1, self.g2, self.g3].take(n)
    }

    /// The overflow-table index carried by the grapheme bytes, read
    /// little-endian.
    pub open spec fn spec_overflow_index(self) -> u32 {
        (self.g0 as u32) | ((self.g1 as u32) << 8) | ((self.g2 as u32) << 16) | (
        (self.g3 as u32) << 24)
    }

    /// Whether the overflow flag is set.
    pub open spec fn spec_is_overflow(self) -> bool {
        self.flags.bits & OVERFLOW == OVERFLOW
    }

    /// Whether the wide-continuation flag is set.
    pub open spec fn spec_is_wide_continuation(self) -> bool {
        self.flags.bits & WIDE_CONTINUATION == WIDE_CONTINUATION
    }

    /// The grapheme the cell shows, when it is stored inline as valid UTF-8.
    pub open spec fn spec_inline_grapheme(self) -> Option<Seq<char>> {
        if self.spec_is_overflow() {
            None
        } else if valid_utf8(self.inline_bytes()) {
            Some(decode_utf8(self.inline_bytes()))
        } else {
            None
        }
    }

    /// The empty cell: a space with default colors and no flags.
    pub fn empty() -> (c: Cell)
        ensures
            c == Cell::spec_empty(),
    {
        Cell {
            g0: 0x20,
            g1: 0,
            g2: 0,
            g3: 0,
            grapheme_len: 1,
            display_width: 1,
            fg: Rgb::default_fg(),
            bg: Rgb::default_bg(),
            modifiers: Modifiers::empty(),
            flags: CellFlags::empty(),
            pad0: 0,
            pad1: 0,
        }
    }

    /// The empty cell, at the specification level.
    pub open spec fn spec_empty() -> Cell {
        Cell {
            g0: 0x20,
            g1: 0,
            g2: 0,
            g3: 0,
            grapheme_len: 1,
            display_width: 1,
            fg: Rgb { r: 255, g: 255, b: 255 },
            bg: Rgb { r: 0, g: 0, b: 0 },
            modifiers: Modifiers { bits: 0 },
            flags: CellFlags { bits: 0 },
            pad0: 0,
            pad1: 0,
        }
    }

    /// Create a cell holding a single ASCII character, always one column
    /// wide.
    pub fn new(c: char) -> (r: Cell)
        requires
            c as u32 <= 0x7F,
        ensures
            r.inline_bytes() == encode_utf8(seq![c]),
            r.spec_inline_grapheme() == Some(seq![c]),
            !r.spec_is_overflow(),
            !r.spec_is_wide_continuation(),
            r.grapheme_len == 1,
            r.display_width == 1,
            r.fg == (Rgb { r: 255u8, g: 255u8, b: 255u8 }),
            r.bg == (Rgb { r: 0u8, g: 0u8, b: 0u8 }),
            r.modifiers.bits == 0,
            r.flags.bits == 0,
    {
        let mut cell = Cell::from_char(c);
        proof {
            let s = c as u32;
            assert(encode_utf8(seq![c]).len() == 1) by {
                vstd::utf8::char_is_scalar(c);
                assert(seq![c].drop_first() =~= Seq::<char>::empty());
                assert(vstd::utf8::encode_scalar(s) + encode_utf8(Seq::<char>::empty())
                    =~= vstd::utf8::encode_scalar(s));
            }
        }
        cell.display_width = 1;
        cell
    }

    /// Create an overflow cell carrying an index into external storage,
    /// stored little-endian in the grapheme bytes.
    pub fn overflow(index: u32, display_width: u8) -> (r: Cell)
        ensures
            r.spec_overflow_index() == index,
            r.spec_is_overflow(),
            !r.spec_is_wide_continuation(),
            r.grapheme_len == 0,
            r.display_width == display_width,
            r.fg == (Rgb { r: 255u8, g: 255u8, b: 255u8 }),
            r.bg == (Rgb { r: 0u8, g: 0u8, b: 0u8 }),
            r.modifiers.bits == 0,
            r.flags.bits == OVERFLOW,
    {
        proof {
            assert((index & 0xFF) < 256 && ((index >> 8) & 0xFF) < 256 && ((index >> 16) & 0xFF)
                < 256 && ((index >> 24) & 0xFF) < 256) by (bit_vector);
        }
        let b0: u8 = (index & 0xFF) as u8;
        let b1: u8 = ((index >> 8) & 0xFF) as u8;
        let b2: u8 = ((index >> 16) & 0xFF) as u8;
        let b3: u8 = ((index >> 24) & 0xFF) as u8;
        let cell = Cell {
            g0: b0,
            g1: b1,
            g2: b2,
            g3: b3,
            grapheme_len: 0,
            display_width,
            fg: Rgb::default_fg(),
            bg: Rgb::default_bg(),
            modifiers: Modifiers::empty(),
            flags: CellFlags::from_bits(OVERFLOW),
            pad0: 0,
            pad1: 0,
        };
        proof {
            let i = index;
            assert(((i & 0xFF) as u8 as u32) | ((((i >> 8) & 0xFF) as u8 as u32) << 8) | ((((i
                >> 16) & 0xFF) as u8 as u32) << 16) | ((((i >> 24) & 0xFF) as u8 as u32) << 24)
                == i) by (bit_vector);
            assert(0x01u8 & 0x01u8 == 0x01u8) by (bit_vector);
            assert((0x01u8 & 0x04u8) != 0x04u8) by (bit_vector);
        }
        cell
    }

    /// Create a wide-character continuation cell, placed to the right of a
    /// two-column grapheme.
    pub fn wide_continuation() -> (r: Cell)
        ensures
            r.spec_is_wide_continuation(),
            !r.spec_is_overflow(),
            r.grapheme_len == 0,
            r.display_width == 0,
            r.fg == (Rgb { r: 255u8, g: 255u8, b: 255u8 }),
            r.bg == (Rgb { r: 0u8, g: 0u8, b: 0u8 }),
            r.modifiers.bits == 0,
            r.flags.bits == WIDE_CONTINUATION,
    {
        proof {
            assert(0x04u8 & 0x04u8 == 0x04u8) by (bit_vector);
            assert((0x04u8 & 0x01u8) != 0x01u8) by (bit_vector);
        }
        Cell {
            g0: 0,
            g1: 0,
            g2: 0,
            g3: 0,
            grapheme_len: 0,
            display_width: 0,
            fg: Rgb::default_fg(),
            bg: Rgb::default_bg(),
            modifiers: Modifiers::empty(),
            flags: CellFlags::from_bits(WIDE_CONTINUATION),
            pad0: 0,
            pad1: 0,
        }
    }

    /// Create a cell from a grapheme string whose UTF-8 encoding fits the
    /// four inline bytes; returns `None` when it does not, and the caller
    /// should use overflow storage.
    pub fn from_grapheme(s: &str) -> (r: Option<Cell>)
        ensures
            encode_utf8(s@).len() <= 4 <==> r is Some,
            r matches Some(c) ==> {
                let e = encode_utf8(s@);
                &&& c.inline_bytes() == e
                &&& c.spec_inline_grapheme() == Some(s@)
                &&& !c.spec_is_overflow()
                &&& !c.spec_is_wide_continuation()
                &&& c.grapheme_len == e.len()
                &&& c.display_width == clamped_width(s@)
                &&& c.fg == (Rgb { r: 255u8, g: 255u8, b: 255u8 })
                &&& c.bg == (Rgb { r: 0u8, g: 0u8, b: 0u8 })
                &&& c.modifiers.bits == 0
                &&& c.flags.bits == 0
                &&& c.g0 == (if e.len() >= 1 { e[0] } else { 0 })
                &&& c.g1 == (if e.len() >= 2 { e[1] } else { 0 })
                &&& c.g2 == (if e.len() >= 3 { e[2] } else { 0 })
                &&& c.g3 == (if e.len() >= 4 { e[3] } else { 0 })
                &&& c.pad0 == 0
                &&& c.pad1 == 0
            },
    {
        let bytes = s.as_bytes();
        if bytes.len() > 4 {
            return None;
        }
        let width = grapheme_cell_width(s);
        let n = bytes.len();
        let g0: u8 = if n >= 1 { bytes[0] } else { 0 };
        let g1: u8 = if n >= 2 { bytes[1] } else { 0 };
        let g2: u8 = if n >= 3 { bytes[2] } else { 0 };
        let g3: u8 = if n >= 4 { bytes[3] } else { 0 };
        let cell = Cell {
            g0,
            g1,
            g2,
            g3,
            grapheme_len: n as u8,
            display_width: width,
            fg: Rgb::default_fg(),
            bg: Rgb::default_bg(),
            modifiers: Modifiers::empty(),
            flags: CellFlags::empty(),
            pad0: 0,
            pad1: 0,
        };
        proof {
            assert(cell.inline_bytes() =~= encode_utf8(s@));
            encode_utf8_valid_utf8(s@);
            encode_utf8_decode_utf8(s@);
            assert(0u8 & 0x01u8 == 0u8 && 0u8 & 0x04u8 == 0u8) by (bit_vector);
        }
        Some(cell)
    }

    /// Create a cell from any single character.
    pub fn from_char(c: char) -> (r: Cell)
        ensures
            r.inline_bytes() == encode_utf8(seq![c]),
            r.spec_inline_grapheme() == Some(seq![c]),
            !r.spec_is_overflow(),
            !r.spec_is_wide_continuation(),
            r.grapheme_len == encode_utf8(seq![c]).len(),
            r.display_width == char_cell_width(c),
            r.fg == (Rgb { r: 255u8, g: 255u8, b: 255u8 }),
            r.bg == (Rgb { r: 0u8, g: 0u8, b: 0u8 }),
            r.modifiers.bits == 0,
            r.flags.bits == 0,
            r.g0 == ({
                let e = encode_utf8(seq![c]);
                if e.len() >= 1 { e[0] } else { 0 }
            }),
            r.g1 == ({
                let e = encode_utf8(seq![c]);
                if e.len() >= 2 { e[1] } else { 0 }
            }),
            r.g2 == ({
                let e = encode_utf8(seq![c]);
                if e.len() >= 3 { e[2] } else { 0 }
            }),
            r.g3 == ({
                let e = encode_utf8(seq![c]);
                if e.len() >= 4 { e[3] } else { 0 }
            }),
            r.pad0 == 0,
            r.pad1 == 0,
    {
        let width = measure_char_cell_width(c);
        let bytes = encode_char_utf8(c);
        let n = bytes.len();
        let g0: u8 = if n >= 1 { bytes[0] } else { 0 };
        let g1: u8 = if n >= 2 { bytes[1] } else { 0 };
        let g2: u8 = if n >= 3 { bytes[2] } else { 0 };
        let g3: u8 = if n >= 4 { bytes[3] } else { 0 };
        let cell = Cell {
            g0,
            g1,
            g2,
            g3,
            grapheme_len: n as u8,
            display_width: width,
            fg: Rgb::default_fg(),
            bg: Rgb::default_bg(),
            modifiers: Modifiers::empty(),
            flags: CellFlags::empty(),
            pad0: 0,
            pad1: 0,
        };
        proof {
            assert(cell.inline_bytes() =~= encode_utf8(seq![c]));
            encode_utf8_valid_utf8(seq![c]);
            encode_utf8_decode_utf8(seq![c]);
            assert(0u8 & 0x01u8 == 0u8 && 0u8 & 0x04u8 == 0u8) by (bit_vector);
        }
        cell
    }

    /// The grapheme stored inline, decoded to a string; `None` for overflow
    /// cells (the caller should look the grapheme up in the buffer's table).
    pub fn grapheme(&self) -> (r: Option<String>)
        ensures
            r matches Some(s) ==> self.spec_inline_grapheme() == Some(s@),
            r is None <==> self.spec_inline_grapheme() is None,
    {
        if self.is_overflow() {
            return None;
        }
        let mut bytes: Vec<u8> = Vec::new();
        let n: u8 = if self.grapheme_len <= 4 {
            self.grapheme_len
        } else {
            4
        };
        if n >= 1 {
            bytes.push(self.g0);
        }
        if n >= 2 {
            bytes.push(self.g1);
        }
        if n >= 3 {
            bytes.push(self.g2);
        }
        if n >= 4 {
            bytes.push(self.g3);
        }
        proof {
            assert(bytes@ =~= self.inline_bytes());
        }
        crate::unicode::bytes_to_string(bytes.as_slice())
    }

    /// The overflow index carried by the cell, when the overflow flag is set.
    pub fn overflow_index(&self) -> (r: Option<u32>)
        ensures
            self.spec_is_overflow() ==> r == Some(self.spec_overflow_index()),
            !self.spec_is_overflow() ==> r is None,
    {
        if self.is_overflow() {
            Some(
                (self.g0 as u32) | ((self.g1 as u32) << 8) | ((self.g2 as u32) << 16) | (
                (self.g3 as u32) << 24),
            )
        } else {
            None
        }
    }

    /// Whether the cell's grapheme lives in overflow storage.
    pub fn is_overflow(&self) -> (r: bool)
        ensures
            r == self.spec_is_overflow(),
    {
        self.flags.contains(CellFlags::from_bits(OVERFLOW))
    }

    /// Whether the cell is the continuation of a wide character.
    pub fn is_wide_continuation(&self) -> (r: bool)
        ensures
            r == self.spec_is_wide_continuation(),
    {
        self.flags.contains(CellFlags::from_bits(WIDE_CONTINUATION))
    }

    /// The display width in columns (0, 1 or 2).
    pub fn display_width(&self) -> (w: u8)
        ensures
            w == self.display_width,
    {
        self.display_width
    }

    /// The foreground color.
    pub fn fg(&self) -> (c: Rgb)
        ensures
            c == self.fg,
    {
        self.fg
    }

    /// The background color.
    pub fn bg(&self) -> (c: Rgb)
        ensures
            c == self.bg,
    {
        self.bg
    }

    /// The modifier set.
    pub fn modifiers(&self) -> (m: Modifiers)
        ensures
            m == self.modifiers,
    {
        self.modifiers
    }

    /// The flag set.
    pub fn flags(&self) -> (f: CellFlags)
        ensures
            f == self.flags,
    {
        self.flags
    }

    /// Set the foreground color in place.
    pub fn set_fg(&mut self, fg: Rgb)
        ensures
            *final(self) == (Cell { fg, ..*old(self) }),
    {
        self.fg = fg;
    }

    /// Set the background color in place.
    pub fn set_bg(&mut self, bg: Rgb)
        ensures
            *final(self) == (Cell { bg, ..*old(self) }),
    {
        self.bg = bg;
    }

    /// Set the modifier set in place.
    pub fn set_modifiers(&mut self, modifiers: Modifiers)
        ensures
            *final(self) == (Cell { modifiers, ..*old(self) }),
    {
        self.modifiers = modifiers;
    }

    /// Return a copy with the given foreground color.
    pub fn with_fg(self, fg: Rgb) -> (r: Cell)
        ensures
            r == (Cell { fg, ..self }),
    {
        Cell { fg, ..self }
    }

    /// Return a copy with the given background color.
    pub fn with_bg(self, bg: Rgb) -> (r: Cell)
        ensures
            r == (Cell { bg, ..self }),
    {
        Cell { bg, ..self }
    }

    /// Return a copy with the given modifier set.
    pub fn with_modifiers(self, modifiers: Modifiers) -> (r: Cell)
        ensures
            r == (Cell { modifiers, ..self }),
    {
        Cell { modifiers, ..self }
    }

    /// Reset the cell to the empty cell.
    pub fn reset(&mut self)
        ensures
            *final(self) == Cell::spec_empty(),
    {
        *self = Cell::empty();
    }
}

/// Encode one character as UTF-8, exactly as `vstd::utf8::encode_utf8` of
/// the one-character sequence specifies.
pub fn encode_char_utf8(c: char) -> (v: Vec<u8>)
    ensures
        v@ == encode_utf8(seq![c]),
        1 <= v@.len() <= 4,
{
    proof {
        vstd::utf8::char_is_scalar(c);
        assert(seq![c].drop_first() =~= Seq::<char>::empty());
        assert(encode_utf8(seq![c]) == vstd::utf8::encode_scalar(c as u32) + encode_utf8(
            Seq::<char>::empty(),
        ));
        assert(vstd::utf8::encode_scalar(c as u32) + encode_utf8(Seq::<char>::empty())
            =~= vstd::utf8::encode_scalar(c as u32));
    }
    let s: u32 = c as u32;
    let mut v: Vec<u8> = Vec::new();
    if s <= 0x7F {
        proof {
            assert((s & 0x7F) < 256 && (s & 0x7F) == s) by (bit_vector)
                requires
                    s <= 0x7F,
            ;
        }
        v.push((s & 0x7F) as u8);
        proof {
            assert(v@ =~= vstd::utf8::encode_scalar(c as u32));
        }
    } else if s <= 0x7FF {
        proof {
            assert(((s >> 6) & 0x1F) < 0x20 && (s & 0x3F) < 0x40) by (bit_vector);
        }
        v.push(0xC0 | ((s >> 6) & 0x1F) as u8);
        v.push(0x80 | (s & 0x3F) as u8);
        proof {
            assert(v@ =~= vstd::utf8::encode_scalar(c as u32));
        }
    } else if s <= 0xFFFF {
        proof {
            assert(((s >> 12) & 0x0F) < 0x10 && ((s >> 6) & 0x3F) < 0x40 && (s & 0x3F) < 0x40)
                by (bit_vector);
        }
        v.push(0xE0 | ((s >> 12) & 0x0F) as u8);
        v.push(0x80 | ((s >> 6) & 0x3F) as u8);
        v.push(0x80 | (s & 0x3F) as u8);
        proof {
            assert(v@ =~= vstd::utf8::encode_scalar(c as u32));
        }
    } else {
        proof {
            assert(((s >> 18) & 0x7) < 8 && ((s >> 12) & 0x3F) < 0x40 && ((s >> 6) & 0x3F) < 0x40
                && (s & 0x3F) < 0x40) by (bit_vector);
        }
        v.push(0xF0 | ((s >> 18) & 0x7) as u8);
        v.push(0x80 | ((s >> 12) & 0x3F) as u8);
        v.push(0x80 | ((s >> 6) & 0x3F) as u8);
        v.push(0x80 | (s & 0x3F) as u8);
        proof {
            assert(v@ =~= vstd::utf8::encode_scalar(c as u32));
        }
    }
    v
}

} // verus!
