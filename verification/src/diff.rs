//! The differential renderer: the minimal control-byte stream between two
//! buffer states.
//!
//! `render_diff` walks the changed cells in scan order and emits cursor
//! moves, color and modifier changes and grapheme bytes; `render_full`
//! redraws a whole buffer.  Both are specified exactly: a recursive trace
//! function computes, byte for byte, the stream the encoder must produce,
//! together with the final tracked state and the statistics.

use vstd::prelude::*;
use vstd::utf8::encode_utf8;
use crate::cell::{Cell, Modifiers, Rgb};
use crate::buffer::Buffer;
use crate::rect::Rect;
use crate::ansi::{
    cursor_move_bytes, reset_bytes, fg_bytes, bg_bytes, mods_bytes, hide_cursor_bytes,
    show_cursor_bytes, crlf_bytes, push_cursor_move, push_reset, push_fg, push_bg,
    push_modifier_set, push_hide_cursor, push_show_cursor, push_crlf,
};

verus! {

/// The renderer's model of the terminal: cursor position and the most
/// recently emitted colors and modifiers.  `None` means unknown, forcing an
/// emission on first use.
#[derive(Clone, Copy, Debug)]
pub struct DiffState {
    /// Last known cursor column (0-indexed).
    pub cursor_x: u16,
    /// Last known cursor row (0-indexed).
    pub cursor_y: u16,
    /// Last emitted foreground color.
    pub fg: Option<Rgb>,
    /// Last emitted background color.
    pub bg: Option<Rgb>,
    /// Last emitted modifier set.
    pub modifiers: Option<Modifiers>,
}

impl DiffState {
    /// A fresh state with everything unknown: the off-grid cursor forces
    /// an absolute move, and the unknown attributes a full emission, on
    /// the first cell.
    pub fn new() -> (r: DiffState)
        ensures
            r == (DiffState {
                cursor_x: 0xFFFFu16,
                cursor_y: 0xFFFFu16,
                fg: None::<Rgb>,
                bg: None::<Rgb>,
                modifiers: None::<Modifiers>,
            }),
    {
        DiffState { cursor_x: 0xFFFF, cursor_y: 0xFFFF, fg: None, bg: None, modifiers: None }
    }

    /// Forget everything: attributes unknown, cursor forced off-grid so the
    /// next cell emits an absolute move.
    pub fn reset(&mut self)
        ensures
            *final(self) == (DiffState {
                cursor_x: 0xFFFFu16,
                cursor_y: 0xFFFFu16,
                fg: None::<Rgb>,
                bg: None::<Rgb>,
                modifiers: None::<Modifiers>,
            }),
    {
        self.fg = None;
        self.bg = None;
        self.modifiers = None;
        self.cursor_x = 0xFFFF;
        self.cursor_y = 0xFFFF;
    }
}

impl Default for DiffState {
    /// A fresh state with everything unknown.
    fn default() -> (r: DiffState)
        ensures
            r == (DiffState {
                cursor_x: 0xFFFFu16,
                cursor_y: 0xFFFFu16,
                fg: None::<Rgb>,
                bg: None::<Rgb>,
                modifiers: None::<Modifiers>,
            }),
    {
        DiffState::new()
    }
}

/// Statistics of one diff run.
#[derive(Clone, Debug)]
pub struct DiffResult {
    /// Number of cells that differed and were emitted.
    pub cells_changed: usize,
    /// Number of cursor-move sequences emitted.
    pub cursor_moves: usize,
    /// Number of color sequences emitted (foreground and background each
    /// count one).
    pub color_changes: usize,
    /// Number of modifier-change emissions.
    pub modifier_changes: usize,
}

impl DiffResult {
    /// All counters zero.
    pub fn new() -> (r: DiffResult)
        ensures
            r.cells_changed == 0,
            r.cursor_moves == 0,
            r.color_changes == 0,
            r.modifier_changes == 0,
    {
        DiffResult { cells_changed: 0, cursor_moves: 0, color_changes: 0, modifier_changes: 0 }
    }
}

impl Default for DiffResult {
    /// All counters zero.
    fn default() -> (r: DiffResult)
        ensures
            r.cells_changed == 0,
            r.cursor_moves == 0,
            r.color_changes == 0,
            r.modifier_changes == 0,
    {
        DiffResult::new()
    }
}

/// What one scan emits: the bytes, the state afterwards, and the counters.
pub ghost struct DiffTrace {
    /// The bytes appended.
    pub out: Seq<u8>,
    /// The tracked state after the scan.
    pub st: DiffState,
    /// Cells emitted.
    pub changed: nat,
    /// Cursor moves emitted.
    pub moves: nat,
    /// Color sequences emitted.
    pub colors: nat,
    /// Modifier emissions.
    pub mods: nat,
}

/// The trace of an empty scan.
pub open spec fn empty_trace(st: DiffState) -> DiffTrace {
    DiffTrace { out: seq![], st, changed: 0, moves: 0, colors: 0, mods: 0 }
}

/// Two scans in sequence.
pub open spec fn combine(t1: DiffTrace, t2: DiffTrace) -> DiffTrace {
    DiffTrace {
        out: t1.out + t2.out,
        st: t2.st,
        changed: t1.changed + t2.changed,
        moves: t1.moves + t2.moves,
        colors: t1.colors + t2.colors,
        mods: t1.mods + t2.mods,
    }
}

/// The bits of an optional modifier set; unknown counts as none set.
pub open spec fn mbits(m: Option<Modifiers>) -> u8 {
    match m {
        Some(m) => m.bits,
        None => 0,
    }
}

/// The replacement character U+FFFD, in UTF-8.
pub open spec fn replacement_bytes() -> Seq<u8> {
    seq![0xEFu8, 0xBFu8, 0xBDu8]
}

/// The bytes emitted for a cell's grapheme: the inline bytes, the overflow
/// table entry (or U+FFFD when the index does not resolve), or one space
/// for an empty grapheme.
pub open spec fn grapheme_bytes(cell: Cell, ov: Seq<Seq<char>>) -> Seq<u8> {
    if cell.spec_is_overflow() {
        if cell.spec_overflow_index() < ov.len() {
            encode_utf8(ov[cell.spec_overflow_index() as int])
        } else {
            replacement_bytes()
        }
    } else if cell.grapheme_len == 0 {
        seq![0x20u8]
    } else {
        cell.inline_bytes()
    }
}

/// The modifier transition emission: when only additions are needed, one
/// SGR per added bit; when a removal is needed, a full reset followed by
/// the whole new set.
pub open spec fn emit_modifiers_bytes(new: u8, prev: u8) -> Seq<u8> {
    if prev & !new == 0 {
        mods_bytes(new & !prev)
    } else {
        reset_bytes() + mods_bytes(new)
    }
}

/// The cursor column after writing a cell of the given width (wide cells
/// advance two columns, everything else one), saturating.
pub open spec fn advance_x(x: u16, width: u8) -> u16 {
    let adv = if width >= 1 {
        width as int
    } else {
        1
    };
    if x + adv <= 0xFFFF {
        (x + adv) as u16
    } else {
        0xFFFF
    }
}

/// The cursor-move stage: an absolute move when the cursor is not already
/// at `(x, y)`.
pub open spec fn move_stage(st: DiffState, x: u16, y: u16) -> DiffTrace {
    if st.cursor_x == x && st.cursor_y == y {
        empty_trace(DiffState { cursor_x: x, cursor_y: y, ..st })
    } else {
        DiffTrace {
            out: cursor_move_bytes(x as int, y as int),
            st: DiffState { cursor_x: x, cursor_y: y, ..st },
            changed: 0,
            moves: 1,
            colors: 0,
            mods: 0,
        }
    }
}

/// The reset stage: when a tracked modifier must be removed, a full
/// attribute reset, which also forgets the tracked colors.
pub open spec fn reset_stage(st: DiffState, nxt: Cell) -> DiffTrace {
    if mbits(st.modifiers) & !nxt.modifiers.bits != 0 {
        DiffTrace {
            out: reset_bytes(),
            st: DiffState { fg: None, bg: None, modifiers: None, ..st },
            changed: 0,
            moves: 0,
            colors: 0,
            mods: 0,
        }
    } else {
        empty_trace(st)
    }
}

/// The foreground stage: a 24-bit sequence when the tracked foreground
/// differs.
pub open spec fn fg_stage(st: DiffState, nxt: Cell) -> DiffTrace {
    if st.fg != Some(nxt.fg) {
        DiffTrace {
            out: fg_bytes(nxt.fg),
            st: DiffState { fg: Some(nxt.fg), ..st },
            changed: 0,
            moves: 0,
            colors: 1,
            mods: 0,
        }
    } else {
        empty_trace(st)
    }
}

/// The background stage.
pub open spec fn bg_stage(st: DiffState, nxt: Cell) -> DiffTrace {
    if st.bg != Some(nxt.bg) {
        DiffTrace {
            out: bg_bytes(nxt.bg),
            st: DiffState { bg: Some(nxt.bg), ..st },
            changed: 0,
            moves: 0,
            colors: 1,
            mods: 0,
        }
    } else {
        empty_trace(st)
    }
}

/// The modifier stage: the transition emission when the tracked set
/// differs.
pub open spec fn mods_stage(st: DiffState, nxt: Cell) -> DiffTrace {
    if st.modifiers != Some(nxt.modifiers) {
        DiffTrace {
            out: emit_modifiers_bytes(nxt.modifiers.bits, mbits(st.modifiers)),
            st: DiffState { modifiers: Some(nxt.modifiers), ..st },
            changed: 0,
            moves: 0,
            colors: 0,
            mods: 1,
        }
    } else {
        empty_trace(st)
    }
}

/// The grapheme stage: the cell's bytes, and the cursor advanced by the
/// display width (at least one column).
pub open spec fn grapheme_stage(st: DiffState, nxt: Cell, ov: Seq<Seq<char>>) -> DiffTrace {
    DiffTrace {
        out: grapheme_bytes(nxt, ov),
        st: DiffState { cursor_x: advance_x(st.cursor_x, nxt.display_width), ..st },
        changed: 0,
        moves: 0,
        colors: 0,
        mods: 0,
    }
}

/// One cell of the diff scan: nothing for an unchanged cell or a wide
/// continuation; otherwise a cursor move when the cursor is not already
/// there, a full reset when a modifier must be removed, color and modifier
/// changes against the tracked state, and the grapheme bytes.
pub open spec fn cell_step(
    st: DiffState,
    cur: Cell,
    nxt: Cell,
    ov: Seq<Seq<char>>,
    x: u16,
    y: u16,
) -> DiffTrace {
    if cur == nxt || nxt.spec_is_wide_continuation() {
        empty_trace(st)
    } else {
        let t1 = move_stage(st, x, y);
        let t2 = reset_stage(t1.st, nxt);
        let t3 = fg_stage(t2.st, nxt);
        let t4 = bg_stage(t3.st, nxt);
        let t5 = mods_stage(t4.st, nxt);
        let t6 = grapheme_stage(t5.st, nxt, ov);
        let c = combine(t1, combine(t2, combine(t3, combine(t4, combine(t5, t6)))));
        DiffTrace { changed: 1, ..c }
    }
}

/// The diff scan of one row's columns `x .. x_end` at row `y`.
pub open spec fn row_trace(
    st: DiffState,
    cur: Seq<Cell>,
    nxt: Seq<Cell>,
    ov: Seq<Seq<char>>,
    w: int,
    y: int,
    x: int,
    x_end: int,
) -> DiffTrace
    decreases x_end - x,
{
    if x >= x_end {
        empty_trace(st)
    } else {
        let t1 = cell_step(st, cur[y * w + x], nxt[y * w + x], ov, x as u16, y as u16);
        combine(t1, row_trace(t1.st, cur, nxt, ov, w, y, x + 1, x_end))
    }
}

/// The diff scan of rows `y .. y_end`, columns `x0 .. x_end` of each.
pub open spec fn rows_trace(
    st: DiffState,
    cur: Seq<Cell>,
    nxt: Seq<Cell>,
    ov: Seq<Seq<char>>,
    w: int,
    x0: int,
    x_end: int,
    y: int,
    y_end: int,
) -> DiffTrace
    decreases y_end - y,
{
    if y >= y_end {
        empty_trace(st)
    } else {
        let t1 = row_trace(st, cur, nxt, ov, w, y, x0, x_end);
        combine(t1, rows_trace(t1.st, cur, nxt, ov, w, x0, x_end, y + 1, y_end))
    }
}

/// The diff scan of one rectangle, clipped to the buffer.
pub open spec fn rect_trace(
    st: DiffState,
    cur: Seq<Cell>,
    nxt: Seq<Cell>,
    ov: Seq<Seq<char>>,
    w: int,
    h: int,
    rect: Rect,
) -> DiffTrace {
    let x_end = if rect.x + rect.width <= w {
        rect.x + rect.width
    } else {
        w
    };
    let y_end = if rect.y + rect.height <= h {
        rect.y + rect.height
    } else {
        h
    };
    rows_trace(st, cur, nxt, ov, w, rect.x as int, x_end, rect.y as int, y_end)
}

/// The diff scan of a list of rectangles, in order.
pub open spec fn rects_trace(
    st: DiffState,
    cur: Seq<Cell>,
    nxt: Seq<Cell>,
    ov: Seq<Seq<char>>,
    w: int,
    h: int,
    rects: Seq<Rect>,
    i: int,
) -> DiffTrace
    decreases rects.len() - i,
{
    if i >= rects.len() {
        empty_trace(st)
    } else {
        let t1 = rect_trace(st, cur, nxt, ov, w, h, rects[i]);
        combine(t1, rects_trace(t1.st, cur, nxt, ov, w, h, rects, i + 1))
    }
}

/// The whole diff: the given rectangles, or the full grid when none are
/// given.
pub open spec fn render_diff_trace(
    cur: Buffer,
    nxt: Buffer,
    rects: Seq<Rect>,
    st: DiffState,
) -> DiffTrace {
    let w = cur.spec_width() as int;
    let h = cur.spec_height() as int;
    if rects.len() == 0 {
        rows_trace(st, cur.spec_cells(), nxt.spec_cells(), nxt.spec_overflow(), w, 0, w, 0, h)
    } else {
        rects_trace(st, cur.spec_cells(), nxt.spec_cells(), nxt.spec_overflow(), w, h, rects, 0)
    }
}

/// A count clamped to what a machine word holds.
pub open spec fn sat_usize(x: int) -> int {
    if x <= usize::MAX {
        x
    } else {
        usize::MAX as int
    }
}

/// Add a count to a counter, saturating at the machine-word limit.
fn sat_add(a: usize, b: usize) -> (r: usize)
    ensures
        r as int == sat_usize(a + b),
{
    if a <= usize::MAX - b {
        a + b
    } else {
        usize::MAX
    }
}

/// Append a cell's grapheme bytes: inline bytes, an overflow-table lookup
/// with U+FFFD as the fallback, or a space for an empty grapheme.
fn emit_grapheme(out: &mut Vec<u8>, cell: Cell, buf: &Buffer)
    ensures
        final(out)@ == old(out)@ + grapheme_bytes(cell, buf.spec_overflow()),
{
    if cell.is_overflow() {
        let idx = match cell.overflow_index() {
            Some(i) => i,
            None => {
                proof {
                    assert(false);
                }
                0
            },
        };
        match buf.get_overflow(idx) {
            Some(s) => {
                let mut v = vstd::slice::slice_to_vec(s.as_str().as_bytes());
                out.append(&mut v);
            },
            None => {
                out.push(0xEF);
                out.push(0xBF);
                out.push(0xBD);
                proof {
                    assert(out@ =~= old(out)@ + replacement_bytes());
                }
            },
        }
    } else if cell.grapheme_len == 0 {
        out.push(0x20);
        proof {
            assert(out@ =~= old(out)@ + seq![0x20u8]);
        }
    } else {
        let n: u8 = if cell.grapheme_len <= 4 {
            cell.grapheme_len
        } else {
            4
        };
        if n >= 1 {
            out.push(cell.g0);
        }
        if n >= 2 {
            out.push(cell.g1);
        }
        if n >= 3 {
            out.push(cell.g2);
        }
        if n >= 4 {
            out.push(cell.g3);
        }
        proof {
            assert(out@ =~= old(out)@ + cell.inline_bytes());
        }
    }
}

/// Whether an optional color equals the given color.
fn same_rgb(a: Option<Rgb>, b: Rgb) -> (r: bool)
    ensures
        r == (a == Some(b)),
{
    match a {
        Some(c) => c == b,
        None => false,
    }
}

/// Whether an optional modifier set equals the given set.
fn same_mods(a: Option<Modifiers>, b: Modifiers) -> (r: bool)
    ensures
        r == (a == Some(b)),
{
    match a {
        Some(m) => m == b,
        None => false,
    }
}

/// Append the modifier transition: additions alone when nothing is
/// removed, otherwise a full reset and the whole new set.
fn emit_modifiers(out: &mut Vec<u8>, new: Modifiers, prev: Option<Modifiers>)
    ensures
        final(out)@ == old(out)@ + emit_modifiers_bytes(new.bits, mbits(prev)),
{
    let prev_bits: u8 = match prev {
        Some(m) => m.bits,
        None => 0,
    };
    if prev_bits & !new.bits == 0 {
        push_modifier_set(out, new.bits & !prev_bits);
    } else {
        push_reset(out);
        push_modifier_set(out, new.bits);
        proof {
            assert(out@ =~= old(out)@ + (reset_bytes() + mods_bytes(new.bits)));
        }
    }
}

/// One changed cell's emission, mirroring `cell_step` exactly.
#[verifier::rlimit(100)]
#[verifier::spinoff_prover]
fn emit_cell(
    out: &mut Vec<u8>,
    st: &mut DiffState,
    res: &mut DiffResult,
    cur: Cell,
    nxt: Cell,
    buf: &Buffer,
    x: u16,
    y: u16,
)
    requires
        x < 0xFFFF,
        y < 0xFFFF,
    ensures
        ({
            let t = cell_step(*old(st), cur, nxt, buf.spec_overflow(), x, y);
            &&& final(out)@ == old(out)@ + t.out
            &&& *final(st) == t.st
            &&& final(res).cells_changed as int == sat_usize(old(res).cells_changed + t.changed)
            &&& final(res).cursor_moves as int == sat_usize(old(res).cursor_moves + t.moves)
            &&& final(res).color_changes as int == sat_usize(old(res).color_changes + t.colors)
            &&& final(res).modifier_changes as int == sat_usize(
                old(res).modifier_changes + t.mods,
            )
        }),
{
    if cur == nxt || nxt.is_wide_continuation() {
        return ;
    }
    let ghost st0 = *st;
    let ghost ov = buf.spec_overflow();
    let ghost t1 = move_stage(st0, x, y);
    let ghost t2 = reset_stage(t1.st, nxt);
    let ghost t3 = fg_stage(t2.st, nxt);
    let ghost t4 = bg_stage(t3.st, nxt);
    let ghost t5 = mods_stage(t4.st, nxt);
    let ghost t6 = grapheme_stage(t5.st, nxt, ov);
    let ghost base = out@;
    res.cells_changed = sat_add(res.cells_changed, 1);
    if st.cursor_y != y || st.cursor_x != x {
        push_cursor_move(out, x, y);
        st.cursor_x = x;
        st.cursor_y = y;
        res.cursor_moves = sat_add(res.cursor_moves, 1);
    }
    proof {
        assert(*st == t1.st);
    }
    let prev_bits: u8 = match st.modifiers {
        Some(m) => m.bits,
        None => 0,
    };
    let removed: u8 = prev_bits & !nxt.modifiers.bits;
    if removed != 0 {
        push_reset(out);
        st.fg = None;
        st.bg = None;
        st.modifiers = None;
    }
    proof {
        assert(*st == t2.st);
    }
    if !same_rgb(st.fg, nxt.fg) {
        push_fg(out, nxt.fg);
        st.fg = Some(nxt.fg);
        res.color_changes = sat_add(res.color_changes, 1);
    }
    proof {
        assert(*st == t3.st);
    }
    if !same_rgb(st.bg, nxt.bg) {
        push_bg(out, nxt.bg);
        st.bg = Some(nxt.bg);
        res.color_changes = sat_add(res.color_changes, 1);
    }
    proof {
        assert(*st == t4.st);
    }
    if !same_mods(st.modifiers, nxt.modifiers) {
        emit_modifiers(out, nxt.modifiers, st.modifiers);
        st.modifiers = Some(nxt.modifiers);
        res.modifier_changes = sat_add(res.modifier_changes, 1);
    }
    proof {
        assert(*st == t5.st);
    }
    emit_grapheme(out, nxt, buf);
    let adv: u16 = if nxt.display_width >= 1 {
        nxt.display_width as u16
    } else {
        1
    };
    if st.cursor_x <= 0xFFFF - adv {
        st.cursor_x = st.cursor_x + adv;
    } else {
        st.cursor_x = 0xFFFF;
    }
    proof {
        assert(*st == t6.st);
        let t = cell_step(st0, cur, nxt, ov, x, y);
        assert(t == (DiffTrace {
            changed: 1,
            ..combine(t1, combine(t2, combine(t3, combine(t4, combine(t5, t6)))))
        }));
        assert(out@ =~= base + t.out);
    }
}

/// Diff one rectangle, clipped to the buffers, appending the emissions and
/// accumulating the statistics.
#[verifier::rlimit(100)]
#[verifier::spinoff_prover]
fn diff_rect(
    cur: &Buffer,
    nxt: &Buffer,
    rect: Rect,
    out: &mut Vec<u8>,
    st: &mut DiffState,
    res: &mut DiffResult,
)
    requires
        cur.wf(),
        nxt.wf(),
        nxt.spec_width() == cur.spec_width(),
        nxt.spec_height() == cur.spec_height(),
    ensures
        ({
            let t = rect_trace(
                *old(st),
                cur.spec_cells(),
                nxt.spec_cells(),
                nxt.spec_overflow(),
                cur.spec_width() as int,
                cur.spec_height() as int,
                rect,
            );
            &&& final(out)@ == old(out)@ + t.out
            &&& *final(st) == t.st
            &&& final(res).cells_changed as int == sat_usize(old(res).cells_changed + t.changed)
            &&& final(res).cursor_moves as int == sat_usize(old(res).cursor_moves + t.moves)
            &&& final(res).color_changes as int == sat_usize(old(res).color_changes + t.colors)
            &&& final(res).modifier_changes as int == sat_usize(
                old(res).modifier_changes + t.mods,
            )
        }),
{
    let w = cur.width();
    let h = cur.height();
    let x_end: u16 = if (rect.x as u32) + (rect.width as u32) <= w as u32 {
        rect.x + rect.width
    } else {
        w
    };
    let y_end: u16 = if (rect.y as u32) + (rect.height as u32) <= h as u32 {
        rect.y + rect.height
    } else {
        h
    };
    let ghost cs = cur.spec_cells();
    let ghost ns = nxt.spec_cells();
    let ghost ov = nxt.spec_overflow();
    let ghost full = rows_trace(
        *old(st),
        cs,
        ns,
        ov,
        w as int,
        rect.x as int,
        x_end as int,
        rect.y as int,
        y_end as int,
    );
    let mut y: u16 = rect.y;
    if y_end < y {
        return ;
    }
    while y < y_end
        invariant
            cur.wf(),
            nxt.wf(),
            nxt.spec_width() == cur.spec_width(),
            nxt.spec_height() == cur.spec_height(),
            w == cur.spec_width(),
            h == cur.spec_height(),
            cs == cur.spec_cells(),
            ns == nxt.spec_cells(),
            ov == nxt.spec_overflow(),
            x_end <= w,
            y_end <= h,
            rect.y <= y <= y_end,
            full == rows_trace(
                *old(st),
                cs,
                ns,
                ov,
                w as int,
                rect.x as int,
                x_end as int,
                rect.y as int,
                y_end as int,
            ),
            ({
                let rest = rows_trace(
                    *st,
                    cs,
                    ns,
                    ov,
                    w as int,
                    rect.x as int,
                    x_end as int,
                    y as int,
                    y_end as int,
                );
                &&& full.out == out@.skip(old(out)@.len() as int) + rest.out
                &&& out@.len() >= old(out)@.len()
                &&& out@.take(old(out)@.len() as int) == old(out)@
                &&& full.st == rest.st
                &&& full.changed + old(res).cells_changed == rest.changed + res.cells_changed
                    || (res.cells_changed == usize::MAX && old(res).cells_changed + full.changed
                    >= usize::MAX + rest.changed)
                &&& full.moves + old(res).cursor_moves == rest.moves + res.cursor_moves || (
                res.cursor_moves == usize::MAX && old(res).cursor_moves + full.moves >= usize::MAX
                    + rest.moves)
                &&& full.colors + old(res).color_changes == rest.colors + res.color_changes || (
                res.color_changes == usize::MAX && old(res).color_changes + full.colors
                    >= usize::MAX + rest.colors)
                &&& full.mods + old(res).modifier_changes == rest.mods + res.modifier_changes || (
                res.modifier_changes == usize::MAX && old(res).modifier_changes + full.mods
                    >= usize::MAX + rest.mods)
            }),
        decreases y_end - y,
    {
        let mut x: u16 = rect.x;
        if x_end < x {
            proof {
                assert(rows_trace(
                    *st,
                    cs,
                    ns,
                    ov,
                    w as int,
                    rect.x as int,
                    x_end as int,
                    y as int,
                    y_end as int,
                ) == combine(
                    row_trace(*st, cs, ns, ov, w as int, y as int, rect.x as int, x_end as int),
                    rows_trace(
                        *st,
                        cs,
                        ns,
                        ov,
                        w as int,
                        rect.x as int,
                        x_end as int,
                        y as int + 1,
                        y_end as int,
                    ),
                ));
                assert(row_trace(*st, cs, ns, ov, w as int, y as int, rect.x as int, x_end as int)
                    == empty_trace(*st));
                assert(out@.skip(old(out)@.len() as int) + empty_trace(*st).out =~= out@.skip(
                    old(out)@.len() as int,
                ));
            }
            y = y + 1;
        } else {
            let ghost row_full = row_trace(
                *st,
                cs,
                ns,
                ov,
                w as int,
                y as int,
                rect.x as int,
                x_end as int,
            );
            let ghost st_row0 = *st;
            let ghost out_row0 = out@;
            let ghost res_row0 = *res;
            while x < x_end
                invariant
                    cur.wf(),
                    nxt.wf(),
                    nxt.spec_width() == cur.spec_width(),
                    nxt.spec_height() == cur.spec_height(),
                    w == cur.spec_width(),
                    h == cur.spec_height(),
                    cs == cur.spec_cells(),
                    ns == nxt.spec_cells(),
                    ov == nxt.spec_overflow(),
                    x_end <= w,
                    y < y_end <= h,
                    rect.x <= x <= x_end,
                    row_full == row_trace(
                        st_row0,
                        cs,
                        ns,
                        ov,
                        w as int,
                        y as int,
                        rect.x as int,
                        x_end as int,
                    ),
                    ({
                        let rest = row_trace(
                            *st,
                            cs,
                            ns,
                            ov,
                            w as int,
                            y as int,
                            x as int,
                            x_end as int,
                        );
                        &&& row_full.out == out@.skip(out_row0.len() as int) + rest.out
                        &&& out@.len() >= out_row0.len()
                        &&& out@.take(out_row0.len() as int) == out_row0
                        &&& row_full.st == rest.st
                        &&& row_full.changed + res_row0.cells_changed == rest.changed
                            + res.cells_changed || (res.cells_changed == usize::MAX
                            && res_row0.cells_changed + row_full.changed >= usize::MAX
                            + rest.changed)
                        &&& row_full.moves + res_row0.cursor_moves == rest.moves
                            + res.cursor_moves || (res.cursor_moves == usize::MAX
                            && res_row0.cursor_moves + row_full.moves >= usize::MAX + rest.moves)
                        &&& row_full.colors + res_row0.color_changes == rest.colors
                            + res.color_changes || (res.color_changes == usize::MAX
                            && res_row0.color_changes + row_full.colors >= usize::MAX
                            + rest.colors)
                        &&& row_full.mods + res_row0.modifier_changes == rest.mods
                            + res.modifier_changes || (res.modifier_changes == usize::MAX
                            && res_row0.modifier_changes + row_full.mods >= usize::MAX
                            + rest.mods)
                    }),
                decreases x_end - x,
            {
                proof {
                    assert((y as int) * (w as int) + (x as int) < (w as int) * (h as int)
                        && 0 <= (y as int) * (w as int) + (x as int)) by (nonlinear_arith)
                        requires
                            0 <= x < w,
                            0 <= y < h,
                    ;
                }
                let c_cur = cur.cell_at(x, y);
                let c_nxt = nxt.cell_at(x, y);
                let ghost st_pre = *st;
                let ghost out_pre = out@;
                emit_cell(out, st, res, c_cur, c_nxt, nxt, x, y);
                proof {
                    let t1 = cell_step(st_pre, c_cur, c_nxt, ov, x, y);
                    assert(row_trace(
                        st_pre,
                        cs,
                        ns,
                        ov,
                        w as int,
                        y as int,
                        x as int,
                        x_end as int,
                    ) == combine(
                        t1,
                        row_trace(t1.st, cs, ns, ov, w as int, y as int, x as int + 1, x_end as int),
                    ));
                    assert(out@.take(out_row0.len() as int) =~= out_row0);
                    assert(out@.skip(out_row0.len() as int) =~= out_pre.skip(
                        out_row0.len() as int,
                    ) + t1.out);
                    assert(row_full.out =~= out@.skip(out_row0.len() as int) + row_trace(
                        *st,
                        cs,
                        ns,
                        ov,
                        w as int,
                        y as int,
                        x as int + 1,
                        x_end as int,
                    ).out);
                }
                x = x + 1;
            }
            proof {
                assert(rows_trace(
                    st_row0,
                    cs,
                    ns,
                    ov,
                    w as int,
                    rect.x as int,
                    x_end as int,
                    y as int,
                    y_end as int,
                ) == combine(
                    row_full,
                    rows_trace(
                        row_full.st,
                        cs,
                        ns,
                        ov,
                        w as int,
                        rect.x as int,
                        x_end as int,
                        y as int + 1,
                        y_end as int,
                    ),
                ));
                assert(row_trace(*st, cs, ns, ov, w as int, y as int, x as int, x_end as int)
                    == empty_trace(*st));
                assert(out@.take(old(out)@.len() as int) =~= old(out)@);
                assert(full.out =~= out@.skip(old(out)@.len() as int) + rows_trace(
                    *st,
                    cs,
                    ns,
                    ov,
                    w as int,
                    rect.x as int,
                    x_end as int,
                    y as int + 1,
                    y_end as int,
                ).out);
            }
            y = y + 1;
        }
    }
    proof {
        assert(rows_trace(
            *st,
            cs,
            ns,
            ov,
            w as int,
            rect.x as int,
            x_end as int,
            y_end as int,
            y_end as int,
        ) == empty_trace(*st));
        assert(full == rect_trace(
            *old(st),
            cs,
            ns,
            ov,
            cur.spec_width() as int,
            cur.spec_height() as int,
            rect,
        ));
        assert(out@ =~= old(out)@ + out@.skip(old(out)@.len() as int));
        assert(full.out =~= out@.skip(old(out)@.len() as int) + seq![]);
    }
}

/// Render the difference between two buffers of equal dimensions into
/// `output`, restricted to the dirty rectangles (the full grid when the
/// list is empty), updating the tracked state and returning statistics.
/// Equal buffers produce no bytes and zero counts.
pub fn render_diff(
    current: &Buffer,
    next: &Buffer,
    dirty_rects: &[Rect],
    output: &mut Vec<u8>,
    state: &mut DiffState,
) -> (r: DiffResult)
    requires
        current.wf(),
        next.wf(),
        next.spec_width() == current.spec_width(),
        next.spec_height() == current.spec_height(),
    ensures
        ({
            let t = render_diff_trace(*current, *next, dirty_rects@, *old(state));
            &&& final(output)@ == old(output)@ + t.out
            &&& *final(state) == t.st
            &&& r.cells_changed as int == sat_usize(t.changed as int)
            &&& r.cursor_moves as int == sat_usize(t.moves as int)
            &&& r.color_changes as int == sat_usize(t.colors as int)
            &&& r.modifier_changes as int == sat_usize(t.mods as int)
        }),
{
    let mut res = DiffResult::new();
    let n = dirty_rects.len();
    if n == 0 {
        let full = Rect { x: 0, y: 0, width: current.width(), height: current.height() };
        diff_rect(current, next, full, output, state, &mut res);
        proof {
            let t = render_diff_trace(*current, *next, dirty_rects@, *old(state));
            let w = current.spec_width() as int;
            let h = current.spec_height() as int;
            assert(rect_trace(
                *old(state),
                current.spec_cells(),
                next.spec_cells(),
                next.spec_overflow(),
                w,
                h,
                full,
            ) == t);
        }
        return res;
    }
    let ghost cs = current.spec_cells();
    let ghost ns = next.spec_cells();
    let ghost ov = next.spec_overflow();
    let ghost w = current.spec_width() as int;
    let ghost h = current.spec_height() as int;
    let ghost tfull = rects_trace(*old(state), cs, ns, ov, w, h, dirty_rects@, 0);
    let mut i: usize = 0;
    while i < n
        invariant
            current.wf(),
            next.wf(),
            next.spec_width() == current.spec_width(),
            next.spec_height() == current.spec_height(),
            cs == current.spec_cells(),
            ns == next.spec_cells(),
            ov == next.spec_overflow(),
            w == current.spec_width() as int,
            h == current.spec_height() as int,
            n == dirty_rects@.len(),
            i <= n,
            tfull == rects_trace(*old(state), cs, ns, ov, w, h, dirty_rects@, 0),
            ({
                let rest = rects_trace(*state, cs, ns, ov, w, h, dirty_rects@, i as int);
                &&& tfull.out == output@.skip(old(output)@.len() as int) + rest.out
                &&& output@.len() >= old(output)@.len()
                &&& output@.take(old(output)@.len() as int) == old(output)@
                &&& tfull.st == rest.st
                &&& tfull.changed == rest.changed + res.cells_changed || (res.cells_changed
                    == usize::MAX && tfull.changed >= usize::MAX + rest.changed)
                &&& tfull.moves == rest.moves + res.cursor_moves || (res.cursor_moves
                    == usize::MAX && tfull.moves >= usize::MAX + rest.moves)
                &&& tfull.colors == rest.colors + res.color_changes || (res.color_changes
                    == usize::MAX && tfull.colors >= usize::MAX + rest.colors)
                &&& tfull.mods == rest.mods + res.modifier_changes || (res.modifier_changes
                    == usize::MAX && tfull.mods >= usize::MAX + rest.mods)
            }),
        decreases n - i,
    {
        let rect = dirty_rects[i];
        let ghost st_pre = *state;
        let ghost out_pre = output@;
        diff_rect(current, next, rect, output, state, &mut res);
        proof {
            let t1 = rect_trace(st_pre, cs, ns, ov, w, h, rect);
            assert(rects_trace(st_pre, cs, ns, ov, w, h, dirty_rects@, i as int) == combine(
                t1,
                rects_trace(t1.st, cs, ns, ov, w, h, dirty_rects@, i as int + 1),
            ));
            assert(output@.take(old(output)@.len() as int) =~= old(output)@);
            assert(output@.skip(old(output)@.len() as int) =~= out_pre.skip(
                old(output)@.len() as int,
            ) + t1.out);
            assert(tfull.out =~= output@.skip(old(output)@.len() as int) + rects_trace(
                *state,
                cs,
                ns,
                ov,
                w,
                h,
                dirty_rects@,
                i as int + 1,
            ).out);
        }
        i = i + 1;
    }
    proof {
        assert(rects_trace(*state, cs, ns, ov, w, h, dirty_rects@, n as int) == empty_trace(
            *state,
        ));
        assert(output@ =~= old(output)@ + output@.skip(old(output)@.len() as int));
        assert(tfull.out =~= output@.skip(old(output)@.len() as int) + seq![]);
    }
    res
}

/// Diff the whole grid, without dirty-rectangle restriction.
pub fn render_full_diff(
    current: &Buffer,
    next: &Buffer,
    output: &mut Vec<u8>,
    state: &mut DiffState,
) -> (r: DiffResult)
    requires
        current.wf(),
        next.wf(),
        next.spec_width() == current.spec_width(),
        next.spec_height() == current.spec_height(),
    ensures
        ({
            let t = render_diff_trace(*current, *next, Seq::<Rect>::empty(), *old(state));
            &&& final(output)@ == old(output)@ + t.out
            &&& *final(state) == t.st
            &&& r.cells_changed as int == sat_usize(t.changed as int)
            &&& r.cursor_moves as int == sat_usize(t.moves as int)
            &&& r.color_changes as int == sat_usize(t.colors as int)
            &&& r.modifier_changes as int == sat_usize(t.mods as int)
        }),
{
    let rects: Vec<Rect> = Vec::new();
    let r = render_diff(current, next, rects.as_slice(), output, state);
    proof {
        assert(rects@ =~= Seq::<Rect>::empty());
    }
    r
}

/// One cell of a full redraw: color and modifier changes against the
/// tracked attributes, then the grapheme bytes; continuation cells emit
/// nothing.
pub open spec fn full_cell_step(st: DiffState, cell: Cell, ov: Seq<Seq<char>>) -> DiffTrace {
    if cell.spec_is_wide_continuation() {
        empty_trace(st)
    } else {
        let t3 = fg_stage(st, cell);
        let t4 = bg_stage(t3.st, cell);
        let t5 = mods_stage(t4.st, cell);
        let t6 = grapheme_stage(t5.st, cell, ov);
        combine(t3, combine(t4, combine(t5, t6)))
    }
}

/// A full redraw of one row's columns `x .. w`.
pub open spec fn full_row_trace(
    st: DiffState,
    cells: Seq<Cell>,
    ov: Seq<Seq<char>>,
    w: int,
    y: int,
    x: int,
) -> DiffTrace
    decreases w - x,
{
    if x >= w {
        empty_trace(st)
    } else {
        let t1 = full_cell_step(st, cells[y * w + x], ov);
        combine(t1, full_row_trace(t1.st, cells, ov, w, y, x + 1))
    }
}

/// A full redraw of rows `y .. h`, with CR LF between rows.
pub open spec fn full_rows_trace(
    st: DiffState,
    cells: Seq<Cell>,
    ov: Seq<Seq<char>>,
    w: int,
    h: int,
    y: int,
) -> DiffTrace
    decreases h - y,
{
    if y >= h {
        empty_trace(st)
    } else {
        let pre = DiffTrace {
            out: if y > 0 {
                crlf_bytes()
            } else {
                seq![]
            },
            st,
            changed: 0,
            moves: 0,
            colors: 0,
            mods: 0,
        };
        let t1 = full_row_trace(st, cells, ov, w, y, 0);
        combine(pre, combine(t1, full_rows_trace(t1.st, cells, ov, w, h, y + 1)))
    }
}

/// The attribute-tracking state a full redraw starts from: everything
/// unknown.
pub open spec fn full_start_state() -> DiffState {
    DiffState { cursor_x: 0, cursor_y: 0, fg: None, bg: None, modifiers: None }
}

/// The complete byte stream of a full redraw: hide-cursor, home, every
/// non-continuation cell row by row with tracked attributes, then
/// reset-attributes and show-cursor.
pub open spec fn render_full_bytes(b: Buffer) -> Seq<u8> {
    hide_cursor_bytes() + cursor_move_bytes(0, 0) + full_rows_trace(
        full_start_state(),
        b.spec_cells(),
        b.spec_overflow(),
        b.spec_width() as int,
        b.spec_height() as int,
        0,
    ).out + reset_bytes() + show_cursor_bytes()
}

/// One cell of a full redraw, mirroring `full_cell_step` exactly.
#[verifier::rlimit(100)]
#[verifier::spinoff_prover]
fn emit_full_cell(out: &mut Vec<u8>, st: &mut DiffState, cell: Cell, buf: &Buffer)
    ensures
        ({
            let t = full_cell_step(*old(st), cell, buf.spec_overflow());
            &&& final(out)@ == old(out)@ + t.out
            &&& *final(st) == t.st
        }),
{
    if cell.is_wide_continuation() {
        return ;
    }
    let ghost st0 = *st;
    let ghost ov = buf.spec_overflow();
    let ghost t3 = fg_stage(st0, cell);
    let ghost t4 = bg_stage(t3.st, cell);
    let ghost t5 = mods_stage(t4.st, cell);
    let ghost t6 = grapheme_stage(t5.st, cell, ov);
    let ghost base = out@;
    if !same_rgb(st.fg, cell.fg) {
        push_fg(out, cell.fg);
        st.fg = Some(cell.fg);
    }
    proof {
        assert(*st == t3.st);
    }
    if !same_rgb(st.bg, cell.bg) {
        push_bg(out, cell.bg);
        st.bg = Some(cell.bg);
    }
    proof {
        assert(*st == t4.st);
    }
    if !same_mods(st.modifiers, cell.modifiers) {
        emit_modifiers(out, cell.modifiers, st.modifiers);
        st.modifiers = Some(cell.modifiers);
    }
    proof {
        assert(*st == t5.st);
    }
    emit_grapheme(out, cell, buf);
    let adv: u16 = if cell.display_width >= 1 {
        cell.display_width as u16
    } else {
        1
    };
    if st.cursor_x <= 0xFFFF - adv {
        st.cursor_x = st.cursor_x + adv;
    } else {
        st.cursor_x = 0xFFFF;
    }
    proof {
        assert(*st == t6.st);
        let t = full_cell_step(st0, cell, ov);
        assert(t == combine(t3, combine(t4, combine(t5, t6))));
        assert(out@ =~= base + t.out);
    }
}

/// Emit a complete redraw of the buffer: hide-cursor, home, every
/// non-continuation cell row by row with tracked attribute state, CR LF
/// between rows, then reset-attributes and show-cursor.  Used for the
/// first paint, after a resize, and after any raw write invalidated the
/// renderer's shadow.
#[verifier::rlimit(100)]
#[verifier::spinoff_prover]
pub fn render_full(buffer: &Buffer, output: &mut Vec<u8>)
    requires
        buffer.wf(),
    ensures
        final(output)@ == old(output)@ + render_full_bytes(*buffer),
{
    let w = buffer.width();
    let h = buffer.height();
    let ghost cs = buffer.spec_cells();
    let ghost ov = buffer.spec_overflow();
    push_hide_cursor(output);
    push_cursor_move(output, 0, 0);
    let ghost base = output@;
    let mut st = DiffState { cursor_x: 0, cursor_y: 0, fg: None, bg: None, modifiers: None };
    let ghost rows_full = full_rows_trace(full_start_state(), cs, ov, w as int, h as int, 0);
    let mut y: u16 = 0;
    while y < h
        invariant
            buffer.wf(),
            w == buffer.spec_width(),
            h == buffer.spec_height(),
            cs == buffer.spec_cells(),
            ov == buffer.spec_overflow(),
            y <= h,
            rows_full == full_rows_trace(full_start_state(), cs, ov, w as int, h as int, 0),
            output@.len() >= base.len(),
            output@.take(base.len() as int) == base,
            rows_full.out == output@.skip(base.len() as int) + full_rows_trace(
                st,
                cs,
                ov,
                w as int,
                h as int,
                y as int,
            ).out,
            rows_full.st == full_rows_trace(st, cs, ov, w as int, h as int, y as int).st,
        decreases h - y,
    {
        let ghost out_y0 = output@;
        if y > 0 {
            push_crlf(output);
        }
        let ghost st_row0 = st;
        let ghost out_row0 = output@;
        let ghost row_full = full_row_trace(st_row0, cs, ov, w as int, y as int, 0);
        let mut x: u16 = 0;
        while x < w
            invariant
                buffer.wf(),
                w == buffer.spec_width(),
                h == buffer.spec_height(),
                cs == buffer.spec_cells(),
                ov == buffer.spec_overflow(),
                x <= w,
                y < h,
                row_full == full_row_trace(st_row0, cs, ov, w as int, y as int, 0),
                output@.len() >= out_row0.len(),
                output@.take(out_row0.len() as int) == out_row0,
                row_full.out == output@.skip(out_row0.len() as int) + full_row_trace(
                    st,
                    cs,
                    ov,
                    w as int,
                    y as int,
                    x as int,
                ).out,
                row_full.st == full_row_trace(st, cs, ov, w as int, y as int, x as int).st,
            decreases w - x,
        {
            proof {
                assert((y as int) * (w as int) + (x as int) < (w as int) * (h as int) && 0 <= (
                y as int) * (w as int) + (x as int)) by (nonlinear_arith)
                    requires
                        0 <= x < w,
                        0 <= y < h,
                ;
            }
            let cell = buffer.cell_at(x, y);
            let ghost st_pre = st;
            let ghost out_pre = output@;
            emit_full_cell(output, &mut st, cell, buffer);
            proof {
                let t1 = full_cell_step(st_pre, cell, ov);
                assert(full_row_trace(st_pre, cs, ov, w as int, y as int, x as int) == combine(
                    t1,
                    full_row_trace(t1.st, cs, ov, w as int, y as int, x as int + 1),
                ));
                assert(output@.take(out_row0.len() as int) =~= out_row0);
                assert(output@.skip(out_row0.len() as int) =~= out_pre.skip(
                    out_row0.len() as int,
                ) + t1.out);
                assert(row_full.out =~= output@.skip(out_row0.len() as int) + full_row_trace(
                    st,
                    cs,
                    ov,
                    w as int,
                    y as int,
                    x as int + 1,
                ).out);
            }
            x = x + 1;
        }
        proof {
            assert(full_row_trace(st, cs, ov, w as int, y as int, w as int) == empty_trace(st));
            assert(row_full.out =~= output@.skip(out_row0.len() as int));
            assert(full_rows_trace(st_row0, cs, ov, w as int, h as int, y as int).out == (if y > 0 {
                crlf_bytes()
            } else {
                seq![]
            }) + (row_full.out + full_rows_trace(st, cs, ov, w as int, h as int, y as int + 1).out));
            assert(full_rows_trace(st_row0, cs, ov, w as int, h as int, y as int).st
                == full_rows_trace(st, cs, ov, w as int, h as int, y as int + 1).st);
            assert(out_row0 =~= out_y0 + (if y > 0 {
                crlf_bytes()
            } else {
                seq![]
            }));
            assert(output@.take(base.len() as int) =~= base);
            assert(output@ =~= output@.take(out_row0.len() as int) + output@.skip(
                out_row0.len() as int,
            ));
            assert(output@ =~= (out_y0 + (if y > 0 {
                crlf_bytes()
            } else {
                seq![]
            })) + row_full.out);
            assert(output@.skip(base.len() as int) =~= out_y0.skip(base.len() as int) + ((if y > 0 {
                crlf_bytes()
            } else {
                seq![]
            }) + row_full.out));
            assert(rows_full.out =~= output@.skip(base.len() as int) + full_rows_trace(
                st,
                cs,
                ov,
                w as int,
                h as int,
                y as int + 1,
            ).out);
        }
        y = y + 1;
    }
    proof {
        assert(full_rows_trace(st, cs, ov, w as int, h as int, h as int) == empty_trace(st));
        assert(rows_full.out =~= output@.skip(base.len() as int));
    }
    let ghost pre_tail = output@;
    push_reset(output);
    push_show_cursor(output);
    proof {
        assert(pre_tail =~= base + rows_full.out);
        assert(base =~= old(output)@ + hide_cursor_bytes() + cursor_move_bytes(0, 0));
        assert(output@ =~= old(output)@ + render_full_bytes(*buffer));
    }
}

/// A continuation cell is never emitted: the diff scan of a cell whose
/// next state is a wide continuation contributes no bytes, no counts and
/// no state change.
pub proof fn lemma_continuation_never_emitted(
    st: DiffState,
    cur: Cell,
    nxt: Cell,
    ov: Seq<Seq<char>>,
    x: u16,
    y: u16,
)
    requires
        nxt.spec_is_wide_continuation(),
    ensures
        cell_step(st, cur, nxt, ov, x, y) == empty_trace(st),
{
}

proof fn lemma_row_trace_idempotent(
    st: DiffState,
    cells: Seq<Cell>,
    ov: Seq<Seq<char>>,
    w: int,
    y: int,
    x: int,
    x_end: int,
)
    ensures
        row_trace(st, cells, cells, ov, w, y, x, x_end) == empty_trace(st),
    decreases x_end - x,
{
    if x < x_end {
        lemma_row_trace_idempotent(st, cells, ov, w, y, x + 1, x_end);
        let t2 = row_trace(st, cells, cells, ov, w, y, x + 1, x_end);
        assert(seq![] + t2.out =~= t2.out);
    }
}

proof fn lemma_rows_trace_idempotent(
    st: DiffState,
    cells: Seq<Cell>,
    ov: Seq<Seq<char>>,
    w: int,
    x0: int,
    x_end: int,
    y: int,
    y_end: int,
)
    ensures
        rows_trace(st, cells, cells, ov, w, x0, x_end, y, y_end) == empty_trace(st),
    decreases y_end - y,
{
    if y < y_end {
        lemma_row_trace_idempotent(st, cells, ov, w, y, x0, x_end);
        lemma_rows_trace_idempotent(st, cells, ov, w, x0, x_end, y + 1, y_end);
        let t2 = rows_trace(st, cells, cells, ov, w, x0, x_end, y + 1, y_end);
        assert(seq![] + t2.out =~= t2.out);
    }
}

proof fn lemma_rects_trace_idempotent(
    st: DiffState,
    cells: Seq<Cell>,
    ov: Seq<Seq<char>>,
    w: int,
    h: int,
    rects: Seq<Rect>,
    i: int,
)
    ensures
        rects_trace(st, cells, cells, ov, w, h, rects, i) == empty_trace(st),
    decreases rects.len() - i,
{
    if i < rects.len() {
        let rect = rects[i];
        let x_end = if rect.x + rect.width <= w {
            rect.x + rect.width
        } else {
            w
        };
        let y_end = if rect.y + rect.height <= h {
            rect.y + rect.height
        } else {
            h
        };
        lemma_rows_trace_idempotent(st, cells, ov, w, rect.x as int, x_end, rect.y as int, y_end);
        lemma_rects_trace_idempotent(st, cells, ov, w, h, rects, i + 1);
        let t2 = rects_trace(st, cells, cells, ov, w, h, rects, i + 1);
        assert(seq![] + t2.out =~= t2.out);
    }
}

/// Idempotence: diffing a buffer against itself, over any rectangle list
/// and from any tracked state, emits no bytes, changes no state, and
/// counts zero cells, moves, colors and modifier changes.
pub proof fn lemma_diff_idempotence(a: Buffer, rects: Seq<Rect>, st: DiffState)
    ensures
        render_diff_trace(a, a, rects, st) == empty_trace(st),
{
    let w = a.spec_width() as int;
    let h = a.spec_height() as int;
    if rects.len() == 0 {
        lemma_rows_trace_idempotent(st, a.spec_cells(), a.spec_overflow(), w, 0, w, 0, h);
    } else {
        lemma_rects_trace_idempotent(st, a.spec_cells(), a.spec_overflow(), w, h, rects, 0);
    }
}

/// Cursor-move elision over a run: scanning a row of changed,
/// non-continuation, single-column cells that starts exactly under the
/// tracked cursor, the differ emits no cursor move at all, and afterwards
/// the cursor sits one past the run's end on the same row.
pub proof fn lemma_run_elides_moves(
    st: DiffState,
    cur: Seq<Cell>,
    nxt: Seq<Cell>,
    ov: Seq<Seq<char>>,
    w: int,
    y: int,
    x: int,
    x_end: int,
)
    requires
        0 <= x <= x_end,
        x_end <= 0xFFFF,
        0 <= y < 0xFFFF,
        st.cursor_x == x,
        st.cursor_y == y,
        forall|i: int|
            x <= i < x_end ==> #[trigger] cur[y * w + i] != nxt[y * w + i] && !nxt[y * w
                + i].spec_is_wide_continuation() && nxt[y * w + i].display_width == 1,
    ensures
        row_trace(st, cur, nxt, ov, w, y, x, x_end).moves == 0,
        row_trace(st, cur, nxt, ov, w, y, x, x_end).st.cursor_x == x_end,
        row_trace(st, cur, nxt, ov, w, y, x, x_end).st.cursor_y == y,
    decreases x_end - x,
{
    if x == x_end {
    } else {
        let t1 = cell_step(st, cur[y * w + x], nxt[y * w + x], ov, x as u16, y as u16);
        assert(t1.moves == 0 && t1.st.cursor_x == x + 1 && t1.st.cursor_y == y);
        lemma_run_elides_moves(t1.st, cur, nxt, ov, w, y, x + 1, x_end);
    }
}

/// One cursor move per run: when the run does not start under the tracked
/// cursor, exactly one absolute move is emitted, for its first cell.
pub proof fn lemma_run_single_move(
    st: DiffState,
    cur: Seq<Cell>,
    nxt: Seq<Cell>,
    ov: Seq<Seq<char>>,
    w: int,
    y: int,
    x: int,
    x_end: int,
)
    requires
        0 <= x < x_end,
        x_end <= 0xFFFF,
        0 <= y < 0xFFFF,
        !(st.cursor_x == x && st.cursor_y == y),
        forall|i: int|
            x <= i < x_end ==> #[trigger] cur[y * w + i] != nxt[y * w + i] && !nxt[y * w
                + i].spec_is_wide_continuation() && nxt[y * w + i].display_width == 1,
    ensures
        row_trace(st, cur, nxt, ov, w, y, x, x_end).moves == 1,
{
    let t1 = cell_step(st, cur[y * w + x], nxt[y * w + x], ov, x as u16, y as u16);
    assert(t1.moves == 1 && t1.st.cursor_x == x + 1 && t1.st.cursor_y == y);
    lemma_run_elides_moves(t1.st, cur, nxt, ov, w, y, x + 1, x_end);
}

/// Color and modifier elision: scanning cells whose foreground, background
/// and modifiers all equal the tracked attributes, the differ emits no
/// color and no modifier sequences.
pub proof fn lemma_run_elides_attributes(
    st: DiffState,
    cur: Seq<Cell>,
    nxt: Seq<Cell>,
    ov: Seq<Seq<char>>,
    w: int,
    y: int,
    x: int,
    x_end: int,
    f: Rgb,
    b: Rgb,
    m: Modifiers,
)
    requires
        st.fg == Some(f),
        st.bg == Some(b),
        st.modifiers == Some(m),
        forall|i: int|
            x <= i < x_end ==> #[trigger] nxt[y * w + i].fg == f && nxt[y * w + i].bg == b && nxt[y
                * w + i].modifiers == m,
    ensures
        row_trace(st, cur, nxt, ov, w, y, x, x_end).colors == 0,
        row_trace(st, cur, nxt, ov, w, y, x, x_end).mods == 0,
        row_trace(st, cur, nxt, ov, w, y, x, x_end).st.fg == Some(f),
        row_trace(st, cur, nxt, ov, w, y, x, x_end).st.bg == Some(b),
        row_trace(st, cur, nxt, ov, w, y, x, x_end).st.modifiers == Some(m),
    decreases x_end - x,
{
    if x < x_end {
        let t1 = cell_step(st, cur[y * w + x], nxt[y * w + x], ov, x as u16, y as u16);
        let mb = m.bits;
        assert(mb & !mb == 0) by (bit_vector);
        assert(t1.colors == 0 && t1.mods == 0 && t1.st.fg == Some(f) && t1.st.bg == Some(b)
            && t1.st.modifiers == Some(m));
        lemma_run_elides_attributes(t1.st, cur, nxt, ov, w, y, x + 1, x_end, f, b, m);
    }
}

/// Fast-path coherence, at the byte level: a full redraw's stream always
/// begins with the hide-cursor sequence followed by cursor-home, so the
/// frame after a raw write opens with that prefix.
pub proof fn lemma_full_redraw_prefix(b: Buffer)
    ensures
        render_full_bytes(b).len() >= 9,
        render_full_bytes(b).take(9) == hide_cursor_bytes() + cursor_move_bytes(0, 0),
{
    assert(render_full_bytes(b).take(9) =~= hide_cursor_bytes() + cursor_move_bytes(0, 0));
}

/// Scanning splits: a row scan is the scan of a prefix followed by the
/// scan of the rest from the state the prefix left.
#[verifier::rlimit(100)]
#[verifier::spinoff_prover]
proof fn lemma_row_trace_split(
    st: DiffState,
    cur: Seq<Cell>,
    nxt: Seq<Cell>,
    ov: Seq<Seq<char>>,
    w: int,
    y: int,
    x: int,
    xm: int,
    x_end: int,
)
    requires
        x <= xm <= x_end,
    ensures
        row_trace(st, cur, nxt, ov, w, y, x, x_end) == combine(
            row_trace(st, cur, nxt, ov, w, y, x, xm),
            row_trace(row_trace(st, cur, nxt, ov, w, y, x, xm).st, cur, nxt, ov, w, y, xm, x_end),
        ),
    decreases xm - x,
{
    let whole = row_trace(st, cur, nxt, ov, w, y, x, x_end);
    if x == xm {
        let t2 = row_trace(st, cur, nxt, ov, w, y, xm, x_end);
        assert(seq![] + t2.out =~= t2.out);
        assert(combine(empty_trace(st), t2) == t2);
    } else {
        let t1 = cell_step(st, cur[y * w + x], nxt[y * w + x], ov, x as u16, y as u16);
        lemma_row_trace_split(t1.st, cur, nxt, ov, w, y, x + 1, xm, x_end);
        let pre_rest = row_trace(t1.st, cur, nxt, ov, w, y, x + 1, xm);
        let pre = row_trace(st, cur, nxt, ov, w, y, x, xm);
        assert(pre == combine(t1, pre_rest));
        let tail = row_trace(pre.st, cur, nxt, ov, w, y, xm, x_end);
        assert(whole == combine(t1, combine(pre_rest, tail)));
        assert(t1.out + (pre_rest.out + tail.out) =~= (t1.out + pre_rest.out) + tail.out);
        assert(whole == combine(pre, tail));
    }
}

/// A stretch of unchanged cells contributes nothing to a row scan.
proof fn lemma_row_trace_unchanged(
    st: DiffState,
    cur: Seq<Cell>,
    nxt: Seq<Cell>,
    ov: Seq<Seq<char>>,
    w: int,
    y: int,
    x: int,
    x_end: int,
)
    requires
        forall|i: int| x <= i < x_end ==> cur[y * w + i] == #[trigger] nxt[y * w + i],
    ensures
        row_trace(st, cur, nxt, ov, w, y, x, x_end) == empty_trace(st),
    decreases x_end - x,
{
    if x < x_end {
        lemma_row_trace_unchanged(st, cur, nxt, ov, w, y, x + 1, x_end);
        let t2 = row_trace(st, cur, nxt, ov, w, y, x + 1, x_end);
        assert(seq![] + t2.out =~= t2.out);
    }
}

/// Rows of unchanged cells contribute nothing to a scan of several rows.
proof fn lemma_rows_trace_unchanged(
    st: DiffState,
    cur: Seq<Cell>,
    nxt: Seq<Cell>,
    ov: Seq<Seq<char>>,
    w: int,
    x0: int,
    x_end: int,
    y: int,
    y_end: int,
)
    requires
        forall|j: int, i: int|
            y <= j < y_end && x0 <= i < x_end ==> cur[j * w + i] == #[trigger] nxt[j * w + i],
    ensures
        rows_trace(st, cur, nxt, ov, w, x0, x_end, y, y_end) == empty_trace(st),
    decreases y_end - y,
{
    if y < y_end {
        lemma_row_trace_unchanged(st, cur, nxt, ov, w, y, x0, x_end);
        lemma_rows_trace_unchanged(st, cur, nxt, ov, w, x0, x_end, y + 1, y_end);
        let t2 = rows_trace(st, cur, nxt, ov, w, x0, x_end, y + 1, y_end);
        assert(seq![] + t2.out =~= t2.out);
    }
}

/// Scanning splits across rows as well.
#[verifier::rlimit(100)]
#[verifier::spinoff_prover]
proof fn lemma_rows_trace_split(
    st: DiffState,
    cur: Seq<Cell>,
    nxt: Seq<Cell>,
    ov: Seq<Seq<char>>,
    w: int,
    x0: int,
    x_end: int,
    y: int,
    ym: int,
    y_end: int,
)
    requires
        y <= ym <= y_end,
    ensures
        rows_trace(st, cur, nxt, ov, w, x0, x_end, y, y_end) == combine(
            rows_trace(st, cur, nxt, ov, w, x0, x_end, y, ym),
            rows_trace(
                rows_trace(st, cur, nxt, ov, w, x0, x_end, y, ym).st,
                cur,
                nxt,
                ov,
                w,
                x0,
                x_end,
                ym,
                y_end,
            ),
        ),
    decreases ym - y,
{
    let whole = rows_trace(st, cur, nxt, ov, w, x0, x_end, y, y_end);
    if y == ym {
        let t2 = rows_trace(st, cur, nxt, ov, w, x0, x_end, ym, y_end);
        assert(seq![] + t2.out =~= t2.out);
        assert(combine(empty_trace(st), t2) == t2);
    } else {
        let t1 = row_trace(st, cur, nxt, ov, w, y, x0, x_end);
        lemma_rows_trace_split(t1.st, cur, nxt, ov, w, x0, x_end, y + 1, ym, y_end);
        let pre_rest = rows_trace(t1.st, cur, nxt, ov, w, x0, x_end, y + 1, ym);
        let pre = rows_trace(st, cur, nxt, ov, w, x0, x_end, y, ym);
        assert(pre == combine(t1, pre_rest));
        let tail = rows_trace(pre.st, cur, nxt, ov, w, x0, x_end, ym, y_end);
        assert(whole == combine(t1, combine(pre_rest, tail)));
        assert(t1.out + (pre_rest.out + tail.out) =~= (t1.out + pre_rest.out) + tail.out);
        assert(whole == combine(pre, tail));
    }
}

/// Differ minimality, over the whole grid: when two buffers differ in
/// exactly one maximal run of adjacent changed single-column cells within
/// one row, and the tracked cursor does not already sit on the run's
/// first cell, the full-grid diff emits exactly one cursor move.
#[verifier::rlimit(100)]
#[verifier::spinoff_prover]
pub proof fn lemma_single_run_single_move(
    st: DiffState,
    cur: Seq<Cell>,
    nxt: Seq<Cell>,
    ov: Seq<Seq<char>>,
    w: int,
    h: int,
    y: int,
    x0: int,
    x1: int,
)
    requires
        0 < w <= 0xFFFF,
        0 < h <= 0xFFFF,
        0 <= y < h,
        0 <= x0 < x1 <= w,
        cur.len() == w * h,
        nxt.len() == w * h,
        forall|i: int|
            x0 <= i < x1 ==> #[trigger] cur[y * w + i] != nxt[y * w + i] && !nxt[y * w
                + i].spec_is_wide_continuation() && nxt[y * w + i].display_width == 1,
        forall|j: int, i: int|
            0 <= j < h && 0 <= i < w && !(j == y && x0 <= i < x1) ==> cur[j * w + i]
                == #[trigger] nxt[j * w + i],
        !(st.cursor_x == x0 && st.cursor_y == y),
    ensures
        rows_trace(st, cur, nxt, ov, w, 0, w, 0, h).moves == 1,
{
    // Rows above the run's row leave everything untouched.
    lemma_rows_trace_split(st, cur, nxt, ov, w, 0, w, 0, y, h);
    lemma_rows_trace_unchanged(st, cur, nxt, ov, w, 0, w, 0, y);
    let after_above = rows_trace(st, cur, nxt, ov, w, 0, w, 0, y);
    assert(after_above == empty_trace(st));
    // The run's row: unchanged prefix, the run, unchanged suffix.
    lemma_rows_trace_split(st, cur, nxt, ov, w, 0, w, y, y + 1, h);
    let row_part = rows_trace(st, cur, nxt, ov, w, 0, w, y, y + 1);
    let row = row_trace(st, cur, nxt, ov, w, y, 0, w);
    assert(rows_trace(row.st, cur, nxt, ov, w, 0, w, y + 1, y + 1) == empty_trace(row.st));
    assert(row.out + seq![] =~= row.out);
    assert(row_part == combine(row, empty_trace(row.st)));
    lemma_row_trace_split(st, cur, nxt, ov, w, y, 0, x0, w);
    lemma_row_trace_unchanged(st, cur, nxt, ov, w, y, 0, x0);
    lemma_row_trace_split(st, cur, nxt, ov, w, y, x0, x1, w);
    let run = row_trace(st, cur, nxt, ov, w, y, x0, x1);
    lemma_run_single_move(st, cur, nxt, ov, w, y, x0, x1);
    lemma_run_elides_moves(
        cell_step(st, cur[y * w + x0], nxt[y * w + x0], ov, x0 as u16, y as u16).st,
        cur,
        nxt,
        ov,
        w,
        y,
        x0 + 1,
        x1,
    );
    assert(run.moves == 1);
    lemma_row_trace_unchanged(run.st, cur, nxt, ov, w, y, x1, w);
    assert(row.moves == 1);
    // Rows below the run's row also leave everything untouched.
    lemma_rows_trace_unchanged(row_part.st, cur, nxt, ov, w, 0, w, y + 1, h);
    assert(rows_trace(st, cur, nxt, ov, w, 0, w, 0, h).moves == 1);
}

} // verus!
