//! Message types for the actor runtime: the protocol between the input
//! poller, the renderer and the application.

use vstd::prelude::*;
use crate::buffer::Buffer;

verus! {

/// Key codes for keyboard input.
#[derive(Clone, Copy, PartialEq, Eq, Structural, Hash, Debug)]
pub enum KeyCode {
    /// A printable character.
    Char(char),
    /// A function key.
    F(u8),
    /// Backspace.
    Backspace,
    /// Enter/Return.
    Enter,
    /// Left arrow.
    Left,
    /// Right arrow.
    Right,
    /// Up arrow.
    Up,
    /// Down arrow.
    Down,
    /// Home.
    Home,
    /// End.
    End,
    /// Page Up.
    PageUp,
    /// Page Down.
    PageDown,
    /// Tab.
    Tab,
    /// Shift+Tab.
    BackTab,
    /// Delete.
    Delete,
    /// Insert.
    Insert,
    /// Escape.
    Esc,
    /// Null (Ctrl+Space on some terminals).
    Null,
}

/// Key modifiers: four independent bits, kept regardless of platform
/// conventions.
#[derive(Clone, Copy, PartialEq, Eq, Structural, Hash, Debug, Default)]
pub struct KeyModifiers {
    /// Shift held.
    pub shift: bool,
    /// Control held.
    pub control: bool,
    /// Alt/Option held.
    pub alt: bool,
    /// Super/Command/Windows held.
    pub super_key: bool,
}

impl KeyModifiers {
    /// No modifiers held.
    pub fn none() -> (r: KeyModifiers)
        ensures
            r == (KeyModifiers { shift: false, control: false, alt: false, super_key: false }),
    {
        KeyModifiers { shift: false, control: false, alt: false, super_key: false }
    }

    /// Whether any modifier is held.
    pub fn any(&self) -> (r: bool)
        ensures
            r == (self.shift || self.control || self.alt || self.super_key),
    {
        self.shift || self.control || self.alt || self.super_key
    }
}

/// Mouse buttons.
#[derive(Clone, Copy, PartialEq, Eq, Structural, Hash, Debug)]
pub enum MouseButton {
    /// Left button.
    Left,
    /// Right button.
    Right,
    /// Middle button.
    Middle,
}

/// A mouse event's position, button and modifiers.
#[derive(Clone, Copy, PartialEq, Eq, Debug)]
pub struct MouseEvent {
    /// Column.
    pub x: u16,
    /// Row.
    pub y: u16,
    /// The button involved, if any.
    pub button: Option<MouseButton>,
    /// Modifiers held.
    pub modifiers: KeyModifiers,
}

/// Events delivered from the input task to the application.  Only
/// key-press transitions are delivered as `Key` events.
#[derive(Clone, Debug)]
pub enum InputEvent {
    /// A key was pressed.
    Key {
        /// The key code.
        code: KeyCode,
        /// Modifiers held during the press.
        modifiers: KeyModifiers,
    },
    /// Mouse button pressed.
    MouseDown(MouseEvent),
    /// Mouse button released.
    MouseUp(MouseEvent),
    /// Mouse moved or dragged.
    MouseMove(MouseEvent),
    /// Mouse scroll; positive delta is up.
    MouseScroll {
        /// Column.
        x: u16,
        /// Row.
        y: u16,
        /// Scroll delta.
        delta: i16,
    },
    /// The terminal was resized.
    Resize {
        /// New width in columns.
        width: u16,
        /// New height in rows.
        height: u16,
    },
    /// The terminal gained focus.
    FocusGained,
    /// The terminal lost focus.
    FocusLost,
    /// A bracketed paste; the text is passed through unmodified.
    Paste(String),
    /// The input task reports an error.
    Error(String),
    /// The input task is shutting down.
    Shutdown,
}

/// Commands sent to the renderer task.
pub enum RenderCommand {
    /// Adopt the buffer and redraw everything.
    FullRedraw(Box<Buffer>),
    /// Adopt the buffer and render a diff-based update.
    Update(Box<Buffer>),
    /// Resize the renderer's buffers.
    Resize {
        /// New width.
        width: u16,
        /// New height.
        height: u16,
    },
    /// Remember a cursor position, applied at the end of the next render;
    /// `None` hides the cursor.
    SetCursor {
        /// Column, or `None` to hide the cursor.
        x: Option<u16>,
        /// Row.
        y: u16,
    },
    /// Write bytes to the terminal verbatim; the renderer's shadow is then
    /// invalid and the next render is a full redraw.
    RawOutput {
        /// The bytes to write.
        bytes: Vec<u8>,
    },
    /// Exit the renderer task.
    Shutdown,
}

/// Events arriving from agent or network sources.
#[derive(Clone, Debug)]
pub enum AgentEvent {
    /// Streamed text content.
    Tokens {
        /// The text.
        content: String,
        /// Source identifier, for multi-agent scenarios.
        source_id: u32,
        /// Whether this is the final chunk.
        is_final: bool,
    },
    /// A response began.
    ResponseStart {
        /// Source identifier.
        source_id: u32,
    },
    /// A response finished.
    ResponseEnd {
        /// Source identifier.
        source_id: u32,
    },
    /// The source reported an error.
    Error {
        /// The message.
        message: String,
        /// Source identifier.
        source_id: u32,
    },
    /// The connection status changed.
    ConnectionStatus {
        /// Whether connected.
        connected: bool,
        /// Source identifier.
        source_id: u32,
    },
}

/// A tick from the optional ticker task.
#[derive(Clone, Copy, PartialEq, Eq, Structural, Hash, Debug)]
pub struct Tick {
    /// Frame number, monotonically increasing.
    pub frame: u64,
    /// Milliseconds elapsed since the ticker started.
    pub elapsed_ms: u64,
}

/// Engine configuration.
#[derive(Clone, Copy, PartialEq, Eq, Structural, Debug)]
pub struct EngineConfig {
    /// Target frames per second.
    pub target_fps: u32,
    /// Input poll timeout in milliseconds.
    pub input_poll_timeout_ms: u64,
    /// Whether to capture mouse events.
    pub enable_mouse: bool,
    /// Whether to use the alternate screen buffer.
    pub alternate_screen: bool,
}

impl Default for EngineConfig {
    /// Sixty frames per second, a ten millisecond input poll, no mouse
    /// capture, alternate screen on.
    fn default() -> (r: EngineConfig)
        ensures
            r == (EngineConfig {
                target_fps: 60u32,
                input_poll_timeout_ms: 10u64,
                enable_mouse: false,
                alternate_screen: true,
            }),
    {
        EngineConfig {
            target_fps: 60,
            input_poll_timeout_ms: 10,
            enable_mouse: false,
            alternate_screen: true,
        }
    }
}

/// Render statistics kept by the renderer.
#[derive(Clone, Copy, PartialEq, Eq, Structural, Debug, Default)]
pub struct RenderStats {
    /// Frames rendered.
    pub frames: u64,
    /// Bytes written to the terminal.
    pub bytes_written: u64,
    /// Smoothed average render time in microseconds.
    pub avg_render_us: u64,
    /// Last render time in microseconds.
    pub last_render_us: u64,
}

/// The smoothed average after one sample: a sixteen-sample exponential
/// moving average, seeded by the first sample.
pub open spec fn spec_smoothed(avg: u64, sample: u64) -> int {
    if avg == 0 {
        sample as int
    } else {
        (avg * 15 + sample) / 16
    }
}

impl RenderStats {
    /// Record one frame: duration sample and bytes written, with the
    /// sixteen-sample moving average.  Counters saturate.
    pub fn record_frame(&mut self, render_us: u64, bytes: u64)
        ensures
            final(self).frames == if old(self).frames < u64::MAX {
                old(self).frames + 1
            } else {
                u64::MAX as int
            },
            final(self).bytes_written == if old(self).bytes_written + bytes <= u64::MAX {
                old(self).bytes_written + bytes
            } else {
                u64::MAX as int
            },
            final(self).last_render_us == render_us,
            final(self).avg_render_us == spec_smoothed(old(self).avg_render_us, render_us),
    {
        if self.frames < u64::MAX {
            self.frames = self.frames + 1;
        }
        self.bytes_written = if self.bytes_written <= u64::MAX - bytes {
            self.bytes_written + bytes
        } else {
            u64::MAX
        };
        self.last_render_us = render_us;
        if self.avg_render_us == 0 {
            self.avg_render_us = render_us;
        } else {
            let a = self.avg_render_us;
            proof {
                assert((a * 15 + render_us) / 16 <= u64::MAX && (a as u128) * 15 + (
                render_us as u128) <= u128::MAX) by (nonlinear_arith)
                    requires
                        a <= u64::MAX,
                        render_us <= u64::MAX,
                ;
            }
            let v: u128 = (a as u128) * 15 + (render_us as u128);
            self.avg_render_us = (v / 16) as u64;
        }
    }
}

} // verus!
