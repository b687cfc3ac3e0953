//! ANSI control-sequence construction, specified byte for byte.
//!
//! Every emitter appends to a byte vector and promises exactly which bytes
//! it appended.  The spec functions here are the vocabulary the differential
//! renderer's contracts are written in.

use vstd::prelude::*;
use crate::cell::Rgb;

verus! {

/// The decimal digits of `n` in ASCII, most significant first.
pub open spec fn dec_bytes(n: int) -> Seq<u8>
    decreases n,
{
    if n < 0 {
        seq![]
    } else if n < 10 {
        seq![(0x30 + n) as u8]
    } else {
        dec_bytes(n / 10) + seq![(0x30 + n % 10) as u8]
    }
}

/// The two-byte control sequence introducer `ESC [`.
pub open spec fn csi() -> Seq<u8> {
    seq![0x1bu8, 0x5bu8]
}

/// The cursor-move sequence for 0-indexed `(x, y)`, in its shortest form:
/// `ESC [ H` for the origin, `ESC [ R H` for column zero, and
/// `ESC [ R ; C H` otherwise, with `R = y + 1` and `C = x + 1` (the wire is
/// 1-indexed).
pub open spec fn cursor_move_bytes(x: int, y: int) -> Seq<u8> {
    if x == 0 && y == 0 {
        csi() + seq![0x48u8]
    } else if x == 0 {
        csi() + dec_bytes(y + 1) + seq![0x48u8]
    } else {
        csi() + dec_bytes(y + 1) + seq![0x3bu8] + dec_bytes(x + 1) + seq![0x48u8]
    }
}

/// The reset-all-attributes sequence `ESC [ 0 m`.
pub open spec fn reset_bytes() -> Seq<u8> {
    seq![0x1bu8, 0x5bu8, 0x30u8, 0x6du8]
}

/// The 24-bit foreground sequence `ESC [ 38 ; 2 ; R ; G ; B m`.
pub open spec fn fg_bytes(c: Rgb) -> Seq<u8> {
    csi() + seq![0x33u8, 0x38u8, 0x3bu8, 0x32u8, 0x3bu8] + dec_bytes(c.r as int) + seq![0x3bu8]
        + dec_bytes(c.g as int) + seq![0x3bu8] + dec_bytes(c.b as int) + seq![0x6du8]
}

/// The 24-bit background sequence `ESC [ 48 ; 2 ; R ; G ; B m`.
pub open spec fn bg_bytes(c: Rgb) -> Seq<u8> {
    csi() + seq![0x34u8, 0x38u8, 0x3bu8, 0x32u8, 0x3bu8] + dec_bytes(c.r as int) + seq![0x3bu8]
        + dec_bytes(c.g as int) + seq![0x3bu8] + dec_bytes(c.b as int) + seq![0x6du8]
}

/// A one-parameter SGR sequence `ESC [ N m`.
pub open spec fn sgr_bytes(n: int) -> Seq<u8> {
    csi() + dec_bytes(n) + seq![0x6du8]
}

/// The wire code of the modifier at bit position `i`: 1-5 for the first
/// five attributes, then 7-9 (code 6 is unused on the wire).
pub open spec fn mod_code(i: int) -> int {
    if i >= 5 {
        i + 2
    } else {
        i + 1
    }
}

/// The SGR sequences for the modifier bits below position `i`, lowest bit
/// first.
pub open spec fn mods_bytes_upto(bits: u8, i: int) -> Seq<u8>
    decreases i,
{
    if i <= 0 {
        seq![]
    } else {
        mods_bytes_upto(bits, i - 1) + (if bits & (1u8 << (i - 1)) != 0 {
            sgr_bytes(mod_code(i - 1))
        } else {
            seq![]
        })
    }
}

/// The SGR sequences for a modifier bitset, one per set bit, in the fixed
/// order bold, dim, italic, underline, blink, reverse, hidden,
/// strikethrough (wire codes 1-5 and 7-9).
pub open spec fn mods_bytes(bits: u8) -> Seq<u8> {
    mods_bytes_upto(bits, 8)
}

/// The hide-cursor sequence `ESC [ ? 2 5 l`.
pub open spec fn hide_cursor_bytes() -> Seq<u8> {
    seq![0x1bu8, 0x5bu8, 0x3fu8, 0x32u8, 0x35u8, 0x6cu8]
}

/// The show-cursor sequence `ESC [ ? 2 5 h`.
pub open spec fn show_cursor_bytes() -> Seq<u8> {
    seq![0x1bu8, 0x5bu8, 0x3fu8, 0x32u8, 0x35u8, 0x68u8]
}

/// The clear-screen sequence `ESC [ 2 J`.
pub open spec fn clear_screen_bytes() -> Seq<u8> {
    seq![0x1bu8, 0x5bu8, 0x32u8, 0x4au8]
}

/// The carriage-return line-feed pair.
pub open spec fn crlf_bytes() -> Seq<u8> {
    seq![0x0du8, 0x0au8]
}

/// Append the decimal digits of `n` to `out`.
pub fn push_decimal(out: &mut Vec<u8>, n: u16)
    ensures
        final(out)@ == old(out)@ + dec_bytes(n as int),
    decreases n,
{
    if n >= 10 {
        push_decimal(out, n / 10);
    }
    let d: u8 = 0x30u8 + (n % 10) as u8;
    out.push(d);
    proof {
        if n < 10 {
            assert(old(out)@ + dec_bytes(n as int) =~= out@);
        } else {
            assert(old(out)@ + dec_bytes(n as int) =~= (old(out)@ + dec_bytes(n as int / 10))
                + seq![(0x30 + n as int % 10) as u8]);
        }
    }
}

/// Append `ESC [` to `out`.
pub fn push_csi(out: &mut Vec<u8>)
    ensures
        final(out)@ == old(out)@ + csi(),
{
    out.push(0x1b);
    out.push(0x5b);
    proof {
        assert(out@ =~= old(out)@ + csi());
    }
}

/// Append the shortest cursor-move sequence for 0-indexed `(x, y)`.
pub fn push_cursor_move(out: &mut Vec<u8>, x: u16, y: u16)
    requires
        x < 0xFFFF,
        y < 0xFFFF,
    ensures
        final(out)@ == old(out)@ + cursor_move_bytes(x as int, y as int),
{
    if x == 0 && y == 0 {
        push_csi(out);
        out.push(0x48);
        proof {
            assert(out@ =~= old(out)@ + cursor_move_bytes(x as int, y as int));
        }
    } else if x == 0 {
        push_csi(out);
        push_decimal(out, y + 1);
        out.push(0x48);
        proof {
            assert(out@ =~= old(out)@ + cursor_move_bytes(x as int, y as int));
        }
    } else {
        push_csi(out);
        push_decimal(out, y + 1);
        out.push(0x3b);
        push_decimal(out, x + 1);
        out.push(0x48);
        proof {
            assert(out@ =~= old(out)@ + cursor_move_bytes(x as int, y as int));
        }
    }
}

/// Append the reset-all-attributes sequence.
pub fn push_reset(out: &mut Vec<u8>)
    ensures
        final(out)@ == old(out)@ + reset_bytes(),
{
    out.push(0x1b);
    out.push(0x5b);
    out.push(0x30);
    out.push(0x6d);
    proof {
        assert(out@ =~= old(out)@ + reset_bytes());
    }
}

/// Append the 24-bit foreground sequence for `c`.
pub fn push_fg(out: &mut Vec<u8>, c: Rgb)
    ensures
        final(out)@ == old(out)@ + fg_bytes(c),
{
    push_csi(out);
    out.push(0x33);
    out.push(0x38);
    out.push(0x3b);
    out.push(0x32);
    out.push(0x3b);
    push_decimal(out, c.r as u16);
    out.push(0x3b);
    push_decimal(out, c.g as u16);
    out.push(0x3b);
    push_decimal(out, c.b as u16);
    out.push(0x6d);
    proof {
        assert(out@ =~= old(out)@ + fg_bytes(c));
    }
}

/// Append the 24-bit background sequence for `c`.
pub fn push_bg(out: &mut Vec<u8>, c: Rgb)
    ensures
        final(out)@ == old(out)@ + bg_bytes(c),
{
    push_csi(out);
    out.push(0x34);
    out.push(0x38);
    out.push(0x3b);
    out.push(0x32);
    out.push(0x3b);
    push_decimal(out, c.r as u16);
    out.push(0x3b);
    push_decimal(out, c.g as u16);
    out.push(0x3b);
    push_decimal(out, c.b as u16);
    out.push(0x6d);
    proof {
        assert(out@ =~= old(out)@ + bg_bytes(c));
    }
}

/// Append the one-parameter SGR sequence `ESC [ n m`.
pub fn push_sgr(out: &mut Vec<u8>, n: u16)
    ensures
        final(out)@ == old(out)@ + sgr_bytes(n as int),
{
    push_csi(out);
    push_decimal(out, n);
    out.push(0x6d);
    proof {
        assert(out@ =~= old(out)@ + sgr_bytes(n as int));
    }
}

/// Append one SGR sequence per set modifier bit, in the fixed wire order.
pub fn push_modifier_set(out: &mut Vec<u8>, bits: u8)
    ensures
        final(out)@ == old(out)@ + mods_bytes(bits),
{
    let ghost base = out@;
    let mut i: u8 = 0;
    while i < 8
        invariant
            i <= 8,
            out@ == base + mods_bytes_upto(bits, i as int),
        decreases 8 - i,
    {
        if bits & (1u8 << i) != 0 {
            let code: u16 = if i >= 5 {
                (i + 2) as u16
            } else {
                (i + 1) as u16
            };
            push_sgr(out, code);
        }
        proof {
            assert(out@ =~= base + mods_bytes_upto(bits, i as int + 1));
        }
        i = i + 1;
    }
}

/// Append the hide-cursor sequence.
pub fn push_hide_cursor(out: &mut Vec<u8>)
    ensures
        final(out)@ == old(out)@ + hide_cursor_bytes(),
{
    out.push(0x1b);
    out.push(0x5b);
    out.push(0x3f);
    out.push(0x32);
    out.push(0x35);
    out.push(0x6c);
    proof {
        assert(out@ =~= old(out)@ + hide_cursor_bytes());
    }
}

/// Append the show-cursor sequence.
pub fn push_show_cursor(out: &mut Vec<u8>)
    ensures
        final(out)@ == old(out)@ + show_cursor_bytes(),
{
    out.push(0x1b);
    out.push(0x5b);
    out.push(0x3f);
    out.push(0x32);
    out.push(0x35);
    out.push(0x68);
    proof {
        assert(out@ =~= old(out)@ + show_cursor_bytes());
    }
}

/// Append the carriage-return line-feed pair.
pub fn push_crlf(out: &mut Vec<u8>)
    ensures
        final(out)@ == old(out)@ + crlf_bytes(),
{
    out.push(0x0d);
    out.push(0x0a);
    proof {
        assert(out@ =~= old(out)@ + crlf_bytes());
    }
}

} // verus!
