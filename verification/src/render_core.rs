//! The renderer's compute core: double buffers, diff state and frame
//! assembly.
//!
//! The renderer thread owns one of these.  It adopts posted buffers,
//! builds each frame's byte stream (full redraw or diff), and accounts for
//! raw writes that bypass the differ: after one, the shadow no longer
//! matches the terminal, so the next frame must be a full redraw — the
//! fast-path coherence rule.

use vstd::prelude::*;
use crate::buffer::Buffer;
use crate::rect::Rect;
use crate::cell::Rgb;
use crate::diff::{
    DiffState, render_diff, render_full, render_diff_trace, render_full_bytes,
    lemma_full_redraw_prefix,
};
use crate::ansi::{
    csi, dec_bytes, hide_cursor_bytes, show_cursor_bytes, cursor_move_bytes, push_csi,
    push_decimal, push_hide_cursor, push_show_cursor,
};
use crate::messages::RenderStats;

verus! {

/// The cursor tail appended to every frame: a full-form 1-indexed move
/// plus show-cursor when a position is set, hide-cursor when none is.
pub open spec fn cursor_tail_bytes(x: Option<u16>, y: u16) -> Seq<u8> {
    match x {
        Some(cx) => csi() + dec_bytes(
            if y < 0xFFFF {
                y + 1
            } else {
                0xFFFF
            },
        ) + seq![0x3bu8] + dec_bytes(
            if cx < 0xFFFF {
                cx + 1
            } else {
                0xFFFF
            },
        ) + seq![0x48u8] + show_cursor_bytes(),
        None => hide_cursor_bytes(),
    }
}

/// The renderer's state: the shadow of what the terminal shows, the
/// incoming frame, the tracked wire state, and bookkeeping.
pub struct RenderCore {
    /// What the renderer believes the terminal currently shows.
    current: Buffer,
    /// The frame to present next.
    next: Buffer,
    /// Tracked cursor and attribute state on the wire.
    diff_state: DiffState,
    /// Whether the next frame must redraw everything.
    needs_full_redraw: bool,
    /// Dirty rectangles for the next diff.
    dirty_rects: Vec<Rect>,
    /// Cursor column to show, or `None` to hide the cursor.
    cursor_x: Option<u16>,
    /// Cursor row to show.
    cursor_y: u16,
    /// Render statistics.
    stats: RenderStats,
}

impl RenderCore {
    /// The shadow buffer.
    pub closed spec fn spec_current(&self) -> Buffer {
        self.current
    }

    /// The next frame.
    pub closed spec fn spec_next(&self) -> Buffer {
        self.next
    }

    /// The tracked wire state.
    pub closed spec fn spec_diff_state(&self) -> DiffState {
        self.diff_state
    }

    /// Whether the next frame is a full redraw.
    pub closed spec fn spec_needs_full(&self) -> bool {
        self.needs_full_redraw
    }

    /// The pending dirty rectangles.
    pub closed spec fn spec_dirty_rects(&self) -> Seq<Rect> {
        self.dirty_rects@
    }

    /// The pending cursor position.
    pub closed spec fn spec_cursor(&self) -> (Option<u16>, u16) {
        (self.cursor_x, self.cursor_y)
    }

    /// The statistics.
    pub closed spec fn spec_stats(&self) -> RenderStats {
        self.stats
    }

    /// Well-formedness: both buffers well-formed with equal dimensions.
    pub open spec fn wf(&self) -> bool {
        &&& self.spec_current().wf()
        &&& self.spec_next().wf()
        &&& self.spec_current().spec_width() == self.spec_next().spec_width()
        &&& self.spec_current().spec_height() == self.spec_next().spec_height()
    }

    /// Create a renderer core for the given terminal size; the first
    /// frame is a full redraw.
    pub fn new(width: u16, height: u16) -> (r: RenderCore)
        requires
            width > 0,
            height > 0,
        ensures
            r.wf(),
            r.spec_needs_full(),
            r.spec_current().spec_width() == width,
            r.spec_current().spec_height() == height,
            r.spec_dirty_rects() == Seq::<Rect>::empty(),
            r.spec_cursor() == (None::<u16>, 0u16),
    {
        RenderCore {
            current: Buffer::new(width, height),
            next: Buffer::new(width, height),
            diff_state: DiffState::new(),
            needs_full_redraw: true,
            dirty_rects: Vec::new(),
            cursor_x: None,
            cursor_y: 0,
            stats: RenderStats {
                frames: 0,
                bytes_written: 0,
                avg_render_us: 0,
                last_render_us: 0,
            },
        }
    }

    /// The render statistics.
    pub fn stats(&self) -> (r: RenderStats)
        ensures
            r == self.spec_stats(),
    {
        self.stats
    }

    /// Adopt a posted buffer as the next frame.  A buffer of other
    /// dimensions than the shadow forces a full redraw after resizing the
    /// shadow to match.
    pub fn adopt_next(&mut self, buffer: Buffer, full: bool)
        requires
            old(self).wf(),
            buffer.wf(),
        ensures
            final(self).wf(),
            final(self).spec_next() == buffer,
            final(self).spec_needs_full() == (old(self).spec_needs_full() || full || buffer.spec_width() != old(
                self,
            ).spec_current().spec_width() || buffer.spec_height() != old(
                self,
            ).spec_current().spec_height()),
            final(self).spec_diff_state() == old(self).spec_diff_state(),
            final(self).spec_dirty_rects() == old(self).spec_dirty_rects(),
            final(self).spec_cursor() == old(self).spec_cursor(),
            final(self).spec_stats() == old(self).spec_stats(),
    {
        if buffer.width() != self.current.width() || buffer.height() != self.current.height() {
            self.current.resize(buffer.width(), buffer.height());
            self.needs_full_redraw = true;
        }
        if full {
            self.needs_full_redraw = true;
        }
        self.next = buffer;
    }

    /// Record a dirty rectangle for the next diff.
    pub fn mark_dirty(&mut self, rect: Rect)
        ensures
            final(self).spec_dirty_rects() == old(self).spec_dirty_rects().push(rect),
            final(self).spec_needs_full() == old(self).spec_needs_full(),
            final(self).spec_current() == old(self).spec_current(),
            final(self).spec_next() == old(self).spec_next(),
            final(self).spec_diff_state() == old(self).spec_diff_state(),
            final(self).spec_cursor() == old(self).spec_cursor(),
            final(self).spec_stats() == old(self).spec_stats(),
            final(self).wf() == old(self).wf(),
    {
        self.dirty_rects.push(rect);
    }

    /// Force a full redraw of the next frame.
    pub fn mark_full_dirty(&mut self)
        ensures
            final(self).spec_needs_full(),
            final(self).spec_current() == old(self).spec_current(),
            final(self).spec_next() == old(self).spec_next(),
            final(self).spec_diff_state() == old(self).spec_diff_state(),
            final(self).spec_dirty_rects() == old(self).spec_dirty_rects(),
            final(self).spec_cursor() == old(self).spec_cursor(),
            final(self).spec_stats() == old(self).spec_stats(),
            final(self).wf() == old(self).wf(),
    {
        self.needs_full_redraw = true;
    }

    /// Resize both buffers; the next frame is a full redraw.
    pub fn resize(&mut self, width: u16, height: u16)
        requires
            old(self).wf(),
            width > 0,
            height > 0,
        ensures
            final(self).wf(),
            final(self).spec_current().spec_width() == width,
            final(self).spec_current().spec_height() == height,
            final(self).spec_next().spec_width() == width,
            final(self).spec_next().spec_height() == height,
            final(self).spec_needs_full(),
    {
        self.current.resize(width, height);
        self.next.resize(width, height);
        self.needs_full_redraw = true;
    }

    /// Remember a cursor position for the end of every frame; `None`
    /// hides the cursor.
    pub fn set_cursor(&mut self, x: Option<u16>, y: u16)
        ensures
            final(self).spec_cursor() == (x, y),
            final(self).spec_current() == old(self).spec_current(),
            final(self).spec_next() == old(self).spec_next(),
            final(self).spec_diff_state() == old(self).spec_diff_state(),
            final(self).spec_needs_full() == old(self).spec_needs_full(),
            final(self).spec_dirty_rects() == old(self).spec_dirty_rects(),
            final(self).spec_stats() == old(self).spec_stats(),
            final(self).wf() == old(self).wf(),
    {
        self.cursor_x = x;
        self.cursor_y = y;
    }

    /// Account for bytes written to the terminal out of band: the shadow
    /// no longer matches the terminal, so the next frame must be a full
    /// redraw, from a reset wire state.
    pub fn on_raw_written(&mut self, byte_count: u64)
        ensures
            final(self).spec_needs_full(),
            final(self).spec_diff_state() == (DiffState {
                cursor_x: 0xFFFFu16,
                cursor_y: 0xFFFFu16,
                fg: None::<Rgb>,
                bg: None::<Rgb>,
                modifiers: None::<crate::cell::Modifiers>,
            }),
            final(self).spec_current() == old(self).spec_current(),
            final(self).spec_next() == old(self).spec_next(),
            final(self).spec_cursor() == old(self).spec_cursor(),
            final(self).spec_stats().bytes_written == if old(self).spec_stats().bytes_written
                + byte_count <= u64::MAX {
                old(self).spec_stats().bytes_written + byte_count
            } else {
                u64::MAX as int
            },
            final(self).wf() == old(self).wf(),
    {
        self.needs_full_redraw = true;
        self.diff_state.reset();
        self.stats.bytes_written = if self.stats.bytes_written <= u64::MAX - byte_count {
            self.stats.bytes_written + byte_count
        } else {
            u64::MAX
        };
    }

    /// Build one frame's byte stream: a full redraw when one is pending,
    /// otherwise a diff restricted to the dirty rectangles; then the
    /// cursor tail.  The shadow adopts the frame, the dirty list clears,
    /// and the statistics record the sample.  A pending full redraw
    /// yields a stream opening with hide-cursor and cursor-home — the
    /// fast-path coherence rule.
    #[verifier::rlimit(100)]
    #[verifier::spinoff_prover]
    pub fn build_frame(&mut self, render_us: u64) -> (out: Vec<u8>)
        requires
            old(self).wf(),
        ensures
            final(self).wf(),
            ({
                let body = if old(self).spec_needs_full() {
                    render_full_bytes(old(self).spec_next())
                } else {
                    render_diff_trace(
                        old(self).spec_current(),
                        old(self).spec_next(),
                        old(self).spec_dirty_rects(),
                        old(self).spec_diff_state(),
                    ).out
                };
                out@ == body + cursor_tail_bytes(
                    old(self).spec_cursor().0,
                    old(self).spec_cursor().1,
                )
            }),
            old(self).spec_needs_full() ==> out@.take(9) == hide_cursor_bytes()
                + cursor_move_bytes(0, 0),
            !old(self).spec_needs_full() ==> final(self).spec_diff_state() == render_diff_trace(
                old(self).spec_current(),
                old(self).spec_next(),
                old(self).spec_dirty_rects(),
                old(self).spec_diff_state(),
            ).st,
            final(self).spec_current().spec_cells() == old(self).spec_next().spec_cells(),
            final(self).spec_current().spec_overflow() == old(self).spec_next().spec_overflow(),
            !final(self).spec_needs_full(),
            final(self).spec_dirty_rects() == Seq::<Rect>::empty(),
            final(self).spec_next() == old(self).spec_next(),
            final(self).spec_cursor() == old(self).spec_cursor(),
    {
        let mut out: Vec<u8> = Vec::new();
        if self.needs_full_redraw {
            render_full(&self.next, &mut out);
            self.needs_full_redraw = false;
            self.diff_state.reset();
            proof {
                lemma_full_redraw_prefix(self.next);
                assert(out@ =~= Seq::<u8>::empty() + render_full_bytes(self.next));
            }
        } else {
            let _stats = render_diff(
                &self.current,
                &self.next,
                self.dirty_rects.as_slice(),
                &mut out,
                &mut self.diff_state,
            );
        }
        self.dirty_rects = Vec::new();
        let ghost body = out@;
        match self.cursor_x {
            Some(cx) => {
                push_csi(&mut out);
                push_decimal(&mut out, if self.cursor_y < 0xFFFF {
                    self.cursor_y + 1
                } else {
                    0xFFFF
                });
                out.push(0x3b);
                push_decimal(&mut out, if cx < 0xFFFF {
                    cx + 1
                } else {
                    0xFFFF
                });
                out.push(0x48);
                push_show_cursor(&mut out);
                proof {
                    assert(out@ =~= body + cursor_tail_bytes(self.cursor_x, self.cursor_y));
                }
            },
            None => {
                push_hide_cursor(&mut out);
                proof {
                    assert(out@ =~= body + cursor_tail_bytes(self.cursor_x, self.cursor_y));
                }
            },
        }
        self.current.copy_from(&self.next);
        let nbytes: u64 = out.len() as u64;
        self.stats.record_frame(render_us, nbytes);
        proof {
            if old(self).spec_needs_full() {
                assert(out@.take(9) =~= body.take(9));
            }
            assert(self.spec_dirty_rects() =~= Seq::<Rect>::empty());
        }
        out
    }
}

/// Fast-path coherence: after a raw write invalidates the shadow, the
/// very next frame the core builds is a full redraw, and its byte stream
/// begins with hide-cursor followed by cursor-home.
pub proof fn lemma_fast_path_coherence(core: RenderCore)
    requires
        core.spec_needs_full(),
    ensures
        ({
            let body = render_full_bytes(core.spec_next());
            body.len() >= 9 && body.take(9) == hide_cursor_bytes() + cursor_move_bytes(0, 0)
        }),
{
    lemma_full_redraw_prefix(core.spec_next());
}

} // verus!
