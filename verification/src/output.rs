//! OutputBuffer: an accumulation buffer for ANSI sequences.
//!
//! All output for a frame is collected here and handed to the terminal in a
//! single write, which is what prevents tearing.  Each method promises the
//! exact bytes it appends.

use vstd::prelude::*;
use crate::cell::Rgb;
use crate::ansi::{
    cursor_move_bytes, hide_cursor_bytes, show_cursor_bytes, fg_bytes, bg_bytes, reset_bytes,
    clear_screen_bytes, push_cursor_move, push_hide_cursor, push_show_cursor, push_fg, push_bg,
    push_reset,
};

verus! {

/// A pre-allocated buffer in which a frame's ANSI escape sequences are
/// accumulated before a single flush.
pub struct OutputBuffer {
    data: Vec<u8>,
}

impl OutputBuffer {
    /// The accumulated bytes, at the specification level.
    pub closed spec fn view(&self) -> Seq<u8> {
        self.data@
    }

    /// Create a buffer with the given initial capacity.
    pub fn with_capacity(capacity: usize) -> (r: OutputBuffer)
        ensures
            r@ == Seq::<u8>::empty(),
    {
        let mut data: Vec<u8> = Vec::new();
        data.reserve(capacity);
        proof {
            assert(data@ =~= Seq::<u8>::empty());
        }
        OutputBuffer { data }
    }

    /// Create a buffer sized for a typical terminal frame.
    pub fn new() -> (r: OutputBuffer)
        ensures
            r@ == Seq::<u8>::empty(),
    {
        OutputBuffer::with_capacity(4096)
    }

    /// Discard the contents for reuse.
    pub fn clear(&mut self)
        ensures
            final(self)@ == Seq::<u8>::empty(),
    {
        self.data.clear();
    }

    /// The accumulated bytes.
    pub fn as_bytes(&self) -> (r: &[u8])
        ensures
            r@ == self@,
    {
        self.data.as_slice()
    }

    /// The number of accumulated bytes.
    pub fn len(&self) -> (n: usize)
        ensures
            n == self@.len(),
    {
        self.data.len()
    }

    /// Whether the buffer holds no bytes.
    pub fn is_empty(&self) -> (r: bool)
        ensures
            r == (self@.len() == 0),
    {
        self.data.len() == 0
    }

    /// Append raw bytes.
    pub fn write_raw(&mut self, bytes: &[u8])
        ensures
            final(self)@ == old(self)@ + bytes@,
    {
        let mut v = vstd::slice::slice_to_vec(bytes);
        self.data.append(&mut v);
    }

    /// Append the UTF-8 bytes of a string.
    pub fn write_str(&mut self, s: &str)
        ensures
            final(self)@ == old(self)@ + vstd::utf8::encode_utf8(s@),
    {
        let bytes = s.as_bytes();
        self.write_raw(bytes);
    }

    /// Append an absolute cursor move to 0-indexed `(x, y)`.
    pub fn cursor_move(&mut self, x: u16, y: u16)
        requires
            x < 0xFFFF,
            y < 0xFFFF,
        ensures
            final(self)@ == old(self)@ + cursor_move_bytes(x as int, y as int),
    {
        push_cursor_move(&mut self.data, x, y);
    }

    /// Append the hide-cursor sequence.
    pub fn cursor_hide(&mut self)
        ensures
            final(self)@ == old(self)@ + hide_cursor_bytes(),
    {
        push_hide_cursor(&mut self.data);
    }

    /// Append the show-cursor sequence.
    pub fn cursor_show(&mut self)
        ensures
            final(self)@ == old(self)@ + show_cursor_bytes(),
    {
        push_show_cursor(&mut self.data);
    }

    /// Append a 24-bit foreground color sequence.
    pub fn set_fg(&mut self, color: Rgb)
        ensures
            final(self)@ == old(self)@ + fg_bytes(color),
    {
        push_fg(&mut self.data, color);
    }

    /// Append a 24-bit background color sequence.
    pub fn set_bg(&mut self, color: Rgb)
        ensures
            final(self)@ == old(self)@ + bg_bytes(color),
    {
        push_bg(&mut self.data, color);
    }

    /// Append the reset-all-attributes sequence.
    pub fn reset_attrs(&mut self)
        ensures
            final(self)@ == old(self)@ + reset_bytes(),
    {
        push_reset(&mut self.data);
    }

    /// Append the clear-screen sequence.
    pub fn clear_screen(&mut self)
        ensures
            final(self)@ == old(self)@ + clear_screen_bytes(),
    {
        self.data.push(0x1b);
        self.data.push(0x5b);
        self.data.push(0x32);
        self.data.push(0x4a);
        proof {
            assert(self@ =~= old(self)@ + clear_screen_bytes());
        }
    }

    /// Hand the accumulated bytes out as a vector, leaving the buffer empty.
    pub fn take_bytes(&mut self) -> (r: Vec<u8>)
        ensures
            r@ == old(self)@,
            final(self)@ == Seq::<u8>::empty(),
    {
        let mut out: Vec<u8> = Vec::new();
        core::mem::swap(&mut out, &mut self.data);
        out
    }
}

impl Default for OutputBuffer {
    /// An empty buffer with the default capacity.
    fn default() -> (r: OutputBuffer)
        ensures
            r@ == Seq::<u8>::empty(),
    {
        OutputBuffer::new()
    }
}

} // verus!
