//! Flywheel: a zero-flicker terminal compositor core.
//!
//! The library owns a cell grid shaped like the terminal viewport, accepts
//! incremental mutations, and computes the minimal control-byte stream that
//! carries the visible terminal from one frame to the next.  Every function
//! here carries a contract checked by Verus; the byte streams the encoders
//! produce are pinned down exactly, byte for byte.

pub mod rect;
pub mod unicode;
pub mod cell;
pub mod ansi;
pub mod output;
pub mod buffer;
pub mod diff;
pub mod messages;
pub mod region;
pub mod widget;
pub mod scroll;
pub mod stream;
pub mod render_core;
pub mod rope;
pub mod status_bar;
pub mod text_input;

pub use rect::Rect;
pub use cell::{Rgb, Modifiers, CellFlags, Cell};
pub use buffer::Buffer;
pub use diff::{DiffState, DiffResult, render_diff, render_full_diff, render_full};
pub use rope::{RopeBuffer, ChunkedLine, RopeMemoryStats};
pub use scroll::{ScrollBuffer, StyledLine};
pub use region::{Region, RegionId, Layout};
pub use messages::{
    KeyCode, KeyModifiers, MouseButton, MouseEvent, InputEvent, RenderCommand, AgentEvent,
    EngineConfig, Tick, RenderStats,
};
pub use output::OutputBuffer;
pub use render_core::RenderCore;
pub use stream::{StreamWidget, StreamConfig, AppendResult};
pub use status_bar::{StatusBar, StatusBarConfig};
pub use text_input::{TextInput, TextInputConfig};
pub use widget::Widget;
